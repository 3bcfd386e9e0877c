//! Byte arithmetic for the buffer that backs an allocator: how many bytes a
//! number of elements takes, and which ranges to copy when the buffer grows
//! or when a region is cut out of it.

use vstd::prelude::*;

verus! {

/// One copy from the old buffer into the new one, in bytes.
#[derive(Debug, Clone, Copy, PartialEq, Eq)]
pub struct CopyRange {
    pub source: u64,
    pub destination: u64,
    pub len: u64,
}

/// What to do to grow a buffer: make one of `new_bytes`, and copy the first
/// `keep_bytes` of the old one to its start.
#[derive(Debug, Clone, Copy, PartialEq, Eq)]
pub struct GrowPlan {
    pub new_bytes: u64,
    pub keep_bytes: u64,
}

/// What to do to cut a region out of a buffer: make one of `new_bytes`, copy
/// what lay before the region, and copy what lay behind it to where the
/// region started.
#[derive(Debug, Clone, Copy, PartialEq, Eq)]
pub struct ShrinkPlan {
    pub new_bytes: u64,
    pub head: CopyRange,
    pub tail: CopyRange,
}

/// The number of bytes of `count` elements of `stride` bytes each, where it
/// is a `u64`.
pub fn byte_len(count: u64, stride: u64) -> (r: Option<u64>)
    ensures
        r == if count * stride <= u64::MAX {
            Some((count * stride) as u64)
        } else {
            None::<u64>
        },
{
    if stride == 0 || count == 0 {
        assert(count * stride == 0) by (nonlinear_arith)
            requires
                stride == 0 || count == 0,
        ;
        return Some(0);
    }
    if count > u64::MAX / stride {
        assert(count * stride > u64::MAX) by (nonlinear_arith)
            requires
                stride > 0,
                count > u64::MAX / stride,
        ;
        None
    } else {
        assert(count * stride <= u64::MAX) by (nonlinear_arith)
            requires
                stride > 0,
                count <= u64::MAX / stride,
        ;
        Some(count * stride)
    }
}

/// The plan to grow a buffer of `len` elements by `additional` elements of
/// `stride` bytes each; none where the new size in bytes is no `u64`.
pub fn grow_plan(len: u64, additional: u64, stride: u64) -> (r: Option<GrowPlan>)
    ensures
        r == if (len + additional) * stride <= u64::MAX {
            Some(
                GrowPlan {
                    new_bytes: ((len + additional) * stride) as u64,
                    keep_bytes: (len * stride) as u64,
                },
            )
        } else {
            None::<GrowPlan>
        },
{
    if additional > u64::MAX - len {
        if stride == 0 {
            assert((len + additional) * stride == 0) by (nonlinear_arith)
                requires
                    stride == 0,
            ;
            assert(len * stride == 0) by (nonlinear_arith)
                requires
                    stride == 0,
            ;
            return Some(GrowPlan { new_bytes: 0, keep_bytes: 0 });
        }
        assert((len + additional) * stride > u64::MAX) by (nonlinear_arith)
            requires
                stride > 0,
                len + additional > u64::MAX,
        ;
        return None;
    }
    match byte_len(len + additional, stride) {
        None => None,
        Some(new_bytes) => {
            assert(len * stride <= (len + additional) * stride) by (nonlinear_arith)
                requires
                    additional >= 0,
                    stride >= 0,
            ;
            match byte_len(len, stride) {
                Some(keep_bytes) => Some(GrowPlan { new_bytes, keep_bytes }),
                None => None,
            }
        },
    }
}

/// The plan to cut the `size` elements at `offset` out of a buffer of `len`
/// elements of `stride` bytes each; none where the region does not lie in the
/// buffer, or the buffer's size in bytes is no `u64`.
pub fn shrink_plan(len: u64, offset: u64, size: u64, stride: u64) -> (r: Option<ShrinkPlan>)
    ensures
        r == if offset + size <= len && len * stride <= u64::MAX {
            Some(
                ShrinkPlan {
                    new_bytes: ((len - size) * stride) as u64,
                    head: CopyRange { source: 0, destination: 0, len: (offset * stride) as u64 },
                    tail: CopyRange {
                        source: ((offset + size) * stride) as u64,
                        destination: (offset * stride) as u64,
                        len: ((len - offset - size) * stride) as u64,
                    },
                },
            )
        } else {
            None::<ShrinkPlan>
        },
{
    if offset > len || size > len - offset {
        return None;
    }
    match byte_len(len, stride) {
        None => None,
        Some(old_bytes) => {
            proof {
                assert((len - size) * stride <= len * stride) by (nonlinear_arith)
                    requires
                        0 <= size <= len,
                        stride >= 0,
                ;
                assert(offset * stride <= len * stride) by (nonlinear_arith)
                    requires
                        0 <= offset <= len,
                        stride >= 0,
                ;
                assert((offset + size) * stride <= len * stride) by (nonlinear_arith)
                    requires
                        0 <= offset + size <= len,
                        stride >= 0,
                ;
                assert((len - offset - size) * stride <= len * stride) by (nonlinear_arith)
                    requires
                        0 <= len - offset - size <= len,
                        stride >= 0,
                ;
                assert(0 <= (len - size) * stride && 0 <= offset * stride && 0 <= (offset + size)
                    * stride && 0 <= (len - offset - size) * stride) by (nonlinear_arith)
                    requires
                        0 <= size <= len,
                        0 <= offset,
                        offset + size <= len,
                        stride >= 0,
                ;
            }
            let new_bytes = (len - size) * stride;
            let head_len = offset * stride;
            let tail_from = (offset + size) * stride;
            let tail_len = (len - offset - size) * stride;
            Some(
                ShrinkPlan {
                    new_bytes,
                    head: CopyRange { source: 0, destination: 0, len: head_len },
                    tail: CopyRange { source: tail_from, destination: head_len, len: tail_len },
                },
            )
        },
    }
}

} // verus!
