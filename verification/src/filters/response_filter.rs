//! The combined keep/discard predicate over a response record: the three
//! filters are OR'd, so a response is dropped if any of them matches.

use vstd::prelude::*;
use crate::filters::body::FilterBody;
use crate::filters::content_length::FilterContentLength;
use crate::probe::ProbeResponse;

verus! {

pub struct ProbeResponseFilters {
    pub filter_status_codes: Vec<u16>,
    pub filter_content_length: FilterContentLength,
    pub filter_body: FilterBody,
}

impl ProbeResponseFilters {
    /// A response is ignored iff its status code is excluded, or its
    /// content length matches, or its body contains the filter substring.
    pub open spec fn ignores(self, response: ProbeResponse) -> bool {
        ||| self.filter_status_codes@.contains(response.status_code)
        ||| self.filter_content_length.matches_spec(response.body@.len() as usize)
        ||| self.filter_body.matches_spec(response.body@)
    }

    pub fn new(
        filter_status_codes: Vec<u16>,
        filter_content_length: FilterContentLength,
        filter_body: FilterBody,
    ) -> (r: ProbeResponseFilters)
        ensures
            r == (ProbeResponseFilters { filter_status_codes, filter_content_length, filter_body }),
    {
        ProbeResponseFilters { filter_status_codes, filter_content_length, filter_body }
    }

    /// Keeps a response or suppresses it; nothing else changes it.
    pub fn filter(&self, response: ProbeResponse) -> (r: Option<ProbeResponse>)
        ensures
            r == (if self.ignores(response) {
                Option::<ProbeResponse>::None
            } else {
                Option::<ProbeResponse>::Some(response)
            }),
    {
        let excluded_status = contains_status(&self.filter_status_codes, response.status_code());
        let length = response.content_length();
        let ignore = excluded_status || self.filter_content_length.matches(length)
            || self.filter_body.matches(response.body());
        if ignore {
            None
        } else {
            Some(response)
        }
    }
}

fn contains_status(v: &Vec<u16>, code: u16) -> (r: bool)
    ensures
        r == v@.contains(code),
{
    let mut i: usize = 0;
    while i < v.len()
        invariant
            i <= v@.len(),
            forall|k: int| 0 <= k < i ==> v@[k] != code,
        decreases v@.len() - i,
    {
        if v[i] == code {
            assert(v@[i as int] == code);
            return true;
        }
        i += 1;
    }
    assert(!v@.contains(code));
    false
}

} // verus!
