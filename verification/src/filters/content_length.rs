//! The content-length filter: an exact set of lengths, an inclusive range,
//! or nothing. Parsed from a comma-separated list or a `low-high` range;
//! an invalid range is refused at configuration time, not at match time.

use vstd::prelude::*;
use crate::error::FuzzError;
use crate::text::contains_char;
use crate::text::parse_all;
use crate::text::parsed_seq;
use crate::text::split_by;
use crate::text::split_spec;

verus! {

#[derive(Clone, Debug, PartialEq, Eq)]
pub enum FilterContentLength {
    Separate(Vec<usize>),
    Range(usize, usize),
    Empty,
}

impl FilterContentLength {
    /// Whether a content length is filtered out: exact membership for
    /// `Separate`, inclusive bounds for `Range`, never for `Empty`.
    pub open spec fn matches_spec(self, length: usize) -> bool {
        match self {
            FilterContentLength::Empty => false,
            FilterContentLength::Separate(v) => v@.contains(length),
            FilterContentLength::Range(a, b) => a <= length && length <= b,
        }
    }

    pub fn matches(&self, length: usize) -> (r: bool)
        ensures
            r == self.matches_spec(length),
    {
        match self {
            FilterContentLength::Empty => false,
            FilterContentLength::Separate(v) => {
                let mut i: usize = 0;
                while i < v.len()
                    invariant
                        i <= v@.len(),
                        self.matches_spec(length) == v@.contains(length),
                        forall|k: int| 0 <= k < i ==> v@[k] != length,
                    decreases v@.len() - i,
                {
                    if v[i] == length {
                        assert(v@[i as int] == length);
                        assert(v@.contains(length));
                        return true;
                    }
                    i += 1;
                }
                assert(!v@.contains(length));
                false
            },
            FilterContentLength::Range(a, b) => *a <= length && length <= *b,
        }
    }

    /// The range form; fails fast unless given exactly two strictly
    /// increasing bounds.
    pub fn from_nums(nums: Vec<usize>) -> (r: Result<FilterContentLength, FuzzError>)
        ensures
            match r {
                Ok(e) => nums@.len() == 2 && nums@[0] < nums@[1] && e
                    == FilterContentLength::Range(nums@[0], nums@[1]),
                Err(e) => e == FuzzError::InvalidRange && !(nums@.len() == 2 && nums@[0]
                    < nums@[1]),
            },
    {
        if nums.len() == 2 {
            let a = nums[0];
            let b = nums[1];
            if a < b {
                return Ok(FilterContentLength::Range(a, b));
            }
        }
        Err(FuzzError::InvalidRange)
    }

    /// Parses the filter: with a dash, a `low-high` range (refused unless
    /// exactly two increasing numbers survive parsing); otherwise a
    /// comma-separated list whose unparseable tokens are skipped.
    pub fn from(value: &str) -> (r: Result<FilterContentLength, FuzzError>)
        ensures
            match r {
                Ok(FilterContentLength::Separate(v)) => !value@.contains('-') && v@.map_values(
                    |x: usize| x as int,
                ) == parsed_seq(split_spec(value@, ','), usize::MAX as int),
                Ok(FilterContentLength::Range(a, b)) => value@.contains('-') && parsed_seq(
                    split_spec(value@, '-'),
                    usize::MAX as int,
                ) == seq![a as int, b as int] && a < b,
                Ok(FilterContentLength::Empty) => false,
                Err(e) => value@.contains('-') && e == FuzzError::InvalidRange && !({
                    let nums = parsed_seq(split_spec(value@, '-'), usize::MAX as int);
                    nums.len() == 2 && nums[0] < nums[1]
                }),
            },
    {
        if contains_char(value, '-') {
            let parts = split_by(value, '-');
            let nums = parse_all(&parts, usize::MAX as u64);
            let nums_sz = to_usize_vec(&nums);
            let ghost ns = parsed_seq(split_spec(value@, '-'), usize::MAX as int);
            let r = Self::from_nums(nums_sz);
            proof {
                if r is Ok {
                    assert(ns =~= seq![ns[0], ns[1]]);
                }
            }
            r
        } else {
            let parts = split_by(value, ',');
            let nums = parse_all(&parts, usize::MAX as u64);
            let nums_sz = to_usize_vec(&nums);
            Ok(FilterContentLength::Separate(nums_sz))
        }
    }
}

/// Narrows values already known to fit `usize`.
fn to_usize_vec(v: &Vec<u64>) -> (r: Vec<usize>)
    requires
        forall|k: int| 0 <= k < v@.len() ==> #[trigger] v@[k] <= usize::MAX as u64,
    ensures
        r@.map_values(|x: usize| x as int) == v@.map_values(|x: u64| x as int),
{
    let mut r: Vec<usize> = Vec::new();
    let mut i: usize = 0;
    while i < v.len()
        invariant
            i <= v@.len(),
            r@.len() == i,
            forall|k: int| 0 <= k < v@.len() ==> #[trigger] v@[k] <= usize::MAX as u64,
            forall|k: int| 0 <= k < i ==> #[trigger] r@[k] as u64 == v@[k],
        decreases v@.len() - i,
    {
        let x = v[i];
        r.push(x as usize);
        i += 1;
    }
    assert(r@.map_values(|x: usize| x as int) =~= v@.map_values(|x: u64| x as int));
    r
}

} // verus!
