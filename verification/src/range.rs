//! Byte ranges.
//!
//! A [`BytesRange`] carries an optional offset and an optional size. Against
//! an object of known total length it resolves to a concrete window:
//! - both absent: the whole object;
//! - offset absent, size present: the last `size` bytes;
//! - offset present, size absent: everything from the offset on;
//! - both present: `size` bytes from the offset, clipped at the end.
//!
//! A range fits an object when its fixed endpoints lie inside the object;
//! a range that does not fit never resolves.

use vstd::prelude::*;

verus! {

/// An optional-offset / optional-size byte range.
#[derive(Clone, Copy, Debug, PartialEq, Eq, Structural)]
pub struct BytesRange {
    offset: Option<u64>,
    size: Option<u64>,
}

/// Whether the range addresses a window inside an object of `total` bytes.
pub open spec fn range_fits(offset: Option<u64>, size: Option<u64>, total: nat) -> bool {
    match (offset, size) {
        (Option::None, Option::None) => true,
        (Option::Some(o), Option::None) => o <= total,
        (Option::None, Option::Some(s)) => s <= total,
        (Option::Some(o), Option::Some(s)) => o <= total,
    }
}

/// The resolved start of the window, assuming the range fits.
pub open spec fn resolved_offset(offset: Option<u64>, size: Option<u64>, total: nat) -> int {
    match (offset, size) {
        (Option::None, Option::None) => 0,
        (Option::Some(o), Option::None) => o as int,
        (Option::None, Option::Some(s)) => total - s,
        (Option::Some(o), Option::Some(s)) => o as int,
    }
}

/// The resolved length of the window, assuming the range fits.
pub open spec fn resolved_len(offset: Option<u64>, size: Option<u64>, total: nat) -> int {
    match (offset, size) {
        (Option::None, Option::None) => total as int,
        (Option::Some(o), Option::None) => total - o,
        (Option::None, Option::Some(s)) => s as int,
        (Option::Some(o), Option::Some(s)) => if o + s <= total {
            s as int
        } else {
            total - o
        },
    }
}

/// The bytes a fitting range selects out of a stored value.
pub open spec fn range_window(bytes: Seq<u8>, offset: Option<u64>, size: Option<u64>) -> Seq<u8> {
    let o = resolved_offset(offset, size, bytes.len());
    let l = resolved_len(offset, size, bytes.len());
    bytes.subrange(o, o + l)
}

impl BytesRange {
    /// Build a range; absent offset and size imply the whole object.
    pub fn new(offset: Option<u64>, size: Option<u64>) -> (r: BytesRange)
        ensures
            r.spec_offset() == offset,
            r.spec_size() == size,
    {
        BytesRange { offset, size }
    }

    /// The whole object.
    pub fn full() -> (r: BytesRange)
        ensures
            r.spec_offset() == Option::<u64>::None,
            r.spec_size() == Option::<u64>::None,
    {
        BytesRange { offset: None, size: None }
    }

    pub closed spec fn spec_offset(&self) -> Option<u64> {
        self.offset
    }

    pub closed spec fn spec_size(&self) -> Option<u64> {
        self.size
    }

    #[verifier::when_used_as_spec(spec_offset)]
    pub fn offset(&self) -> (r: Option<u64>)
        ensures
            r == self.spec_offset(),
    {
        self.offset
    }

    #[verifier::when_used_as_spec(spec_size)]
    pub fn size(&self) -> (r: Option<u64>)
        ensures
            r == self.spec_size(),
    {
        self.size
    }

    /// Whether both endpoints are absent, implying the whole object.
    pub fn is_full(&self) -> (r: bool)
        ensures
            r == (self.spec_offset() is None && self.spec_size() is None),
    {
        self.offset.is_none() && self.size.is_none()
    }

    /// Resolve the range against an object of `total` bytes: the concrete
    /// start and length of the window, or nothing when the range does not
    /// fit.
    pub fn resolve(&self, total: u64) -> (r: Option<(u64, u64)>)
        ensures
            match r {
                Some((o, l)) => range_fits(self.spec_offset(), self.spec_size(), total as nat)
                    && o as int == resolved_offset(self.spec_offset(), self.spec_size(), total as nat)
                    && l as int == resolved_len(self.spec_offset(), self.spec_size(), total as nat),
                None => !range_fits(self.spec_offset(), self.spec_size(), total as nat),
            },
    {
        match (self.offset, self.size) {
            (None, None) => Some((0, total)),
            (Some(o), None) => if o <= total {
                Some((o, total - o))
            } else {
                None
            },
            (None, Some(s)) => if s <= total {
                Some((total - s, s))
            } else {
                None
            },
            (Some(o), Some(s)) => if o <= total {
                if s <= total - o {
                    Some((o, s))
                } else {
                    Some((o, total - o))
                }
            } else {
                None
            },
        }
    }
}

/// Apply a range to a stored value fetched whole: the selected window as a
/// fresh vector, or nothing when the range does not fit the value.
pub fn apply_range(bytes: &Vec<u8>, range: BytesRange) -> (r: Option<Vec<u8>>)
    ensures
        match r {
            Some(v) => range_fits(range.spec_offset(), range.spec_size(), bytes@.len())
                && v@ == range_window(bytes@, range.spec_offset(), range.spec_size()),
            None => !range_fits(range.spec_offset(), range.spec_size(), bytes@.len()),
        },
{
    let total = bytes.len();
    match range.resolve(total as u64) {
        None => None,
        Some((o, l)) => {
            proof {
                assert(o <= total && l <= total);
            }
            let off = o as usize;
            let len = l as usize;
            let mut v: Vec<u8> = Vec::new();
            let mut i: usize = 0;
            while i < len
                invariant
                    off + len <= bytes@.len(),
                    bytes@.len() <= usize::MAX,
                    i <= len,
                    v@ =~= bytes@.subrange(off as int, off + i),
                decreases len - i,
            {
                proof {
                    assert(off + i < bytes@.len());
                }
                v.push(bytes[off + i]);
                proof {
                    assert(v@ =~= bytes@.subrange(off as int, off + i + 1));
                }
                i = i + 1;
            }
            proof {
                assert(v@ =~= range_window(bytes@, range.spec_offset(), range.spec_size()));
            }
            Some(v)
        },
    }
}

} // verus!
