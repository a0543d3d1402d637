//! The content-length exclusion: an exact set of lengths, an inclusive
//! range, or nothing. Parsed from a comma-separated list or a `low-high`
//! range; an invalid range is refused at configuration time.

use vstd::prelude::*;
use crate::error::FuzzError;
use crate::text::parse_all;
use crate::text::parsed_seq;
use crate::text::split_by;
use crate::text::split_spec;
use crate::text::contains_char;

verus! {

#[derive(Clone, Debug, PartialEq, Eq)]
pub enum ExcludeContentLength {
    Separate(Vec<u32>),
    Range(u32, u32),
    Empty,
}

impl ExcludeContentLength {
    /// Whether a content length is excluded: exact membership for
    /// `Separate`, inclusive bounds for `Range`, never for `Empty`.
    pub open spec fn matches_spec(self, length: u32) -> bool {
        match self {
            ExcludeContentLength::Empty => false,
            ExcludeContentLength::Separate(v) => v@.contains(length),
            ExcludeContentLength::Range(a, b) => a <= length && length <= b,
        }
    }

    pub fn matches(&self, length: u32) -> (r: bool)
        ensures
            r == self.matches_spec(length),
    {
        match self {
            ExcludeContentLength::Empty => false,
            ExcludeContentLength::Separate(v) => {
                let mut i: usize = 0;
                while i < v.len()
                    invariant
                        i <= v@.len(),
                        self.matches_spec(length) == v@.contains(length),
                        forall|k: int| 0 <= k < i ==> v@[k] != length,
                    decreases v@.len() - i,
                {
                    if v[i] == length {
                        assert(v@[i as int] == length);
                        assert(v@.contains(length));
                        return true;
                    }
                    i += 1;
                }
                assert(!v@.contains(length));
                false
            },
            ExcludeContentLength::Range(a, b) => *a <= length && length <= *b,
        }
    }

    /// The range form; fails fast unless given exactly two strictly
    /// increasing bounds.
    pub fn from_nums(nums: Vec<u32>) -> (r: Result<ExcludeContentLength, FuzzError>)
        ensures
            match r {
                Ok(e) => nums@.len() == 2 && nums@[0] < nums@[1] && e
                    == ExcludeContentLength::Range(nums@[0], nums@[1]),
                Err(e) => e == FuzzError::InvalidRange && !(nums@.len() == 2 && nums@[0]
                    < nums@[1]),
            },
    {
        if nums.len() == 2 {
            let a = nums[0];
            let b = nums[1];
            if a < b {
                return Ok(ExcludeContentLength::Range(a, b));
            }
        }
        Err(FuzzError::InvalidRange)
    }

    /// Parses the filter: with a dash, a `low-high` range (refused unless
    /// exactly two increasing numbers survive parsing); otherwise a
    /// comma-separated list whose unparseable tokens are skipped.
    pub fn from(value: &str) -> (r: Result<ExcludeContentLength, FuzzError>)
        ensures
            match r {
                Ok(ExcludeContentLength::Separate(v)) => !value@.contains('-') && v@.map_values(
                    |x: u32| x as int,
                ) == parsed_seq(split_spec(value@, ','), u32::MAX as int),
                Ok(ExcludeContentLength::Range(a, b)) => value@.contains('-') && parsed_seq(
                    split_spec(value@, '-'),
                    u32::MAX as int,
                ) == seq![a as int, b as int] && a < b,
                Ok(ExcludeContentLength::Empty) => false,
                Err(e) => value@.contains('-') && e == FuzzError::InvalidRange && !({
                    let nums = parsed_seq(split_spec(value@, '-'), u32::MAX as int);
                    nums.len() == 2 && nums[0] < nums[1]
                }),
            },
    {
        if contains_char(value, '-') {
            let parts = split_by(value, '-');
            let nums = parse_all(&parts, 0xFFFF_FFFF);
            let nums32 = to_u32_vec(&nums);
            let ghost ns = parsed_seq(split_spec(value@, '-'), u32::MAX as int);
            let r = Self::from_nums(nums32);
            proof {
                if r is Ok {
                    assert(ns =~= seq![ns[0], ns[1]]);
                }
            }
            r
        } else {
            let parts = split_by(value, ',');
            let nums = parse_all(&parts, 0xFFFF_FFFF);
            let nums32 = to_u32_vec(&nums);
            Ok(ExcludeContentLength::Separate(nums32))
        }
    }
}

/// Narrows values already known to fit `u32`.
fn to_u32_vec(v: &Vec<u64>) -> (r: Vec<u32>)
    requires
        forall|k: int| 0 <= k < v@.len() ==> #[trigger] v@[k] <= u32::MAX,
    ensures
        r@.map_values(|x: u32| x as int) == v@.map_values(|x: u64| x as int),
{
    let mut r: Vec<u32> = Vec::new();
    let mut i: usize = 0;
    while i < v.len()
        invariant
            i <= v@.len(),
            r@.len() == i,
            forall|k: int| 0 <= k < v@.len() ==> #[trigger] v@[k] <= u32::MAX,
            forall|k: int| 0 <= k < i ==> #[trigger] r@[k] == v@[k],
        decreases v@.len() - i,
    {
        let x = v[i];
        r.push(x as u32);
        i += 1;
    }
    assert(r@.map_values(|x: u32| x as int) =~= v@.map_values(|x: u64| x as int));
    r
}

} // verus!
