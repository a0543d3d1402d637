//! The body filter: discard a response iff its body contains a configured
//! substring verbatim (case-sensitive).

use vstd::prelude::*;
use crate::text::contains_seq;
use crate::text::contains_sub;

verus! {

#[derive(Clone, Debug, PartialEq, Eq)]
pub enum FilterBody {
    Text(String),
    Empty,
}

impl FilterBody {
    /// Whether a response body matches: `Empty` never does, `Text`
    /// matches iff the body contains the substring.
    pub open spec fn matches_spec(self, content: Seq<char>) -> bool {
        match self {
            FilterBody::Empty => false,
            FilterBody::Text(t) => contains_seq(content, t@),
        }
    }

    /// An empty pattern means no body filtering at all.
    pub fn from(value: &str) -> (r: FilterBody)
        ensures
            match r {
                FilterBody::Empty => value@.len() == 0,
                FilterBody::Text(t) => value@.len() > 0 && t@ == value@,
            },
    {
        if value.unicode_len() == 0 {
            FilterBody::Empty
        } else {
            FilterBody::Text(value.to_owned())
        }
    }

    pub fn matches(&self, content: &str) -> (r: bool)
        ensures
            r == self.matches_spec(content@),
    {
        match self {
            FilterBody::Empty => false,
            FilterBody::Text(t) => contains_sub(content, t.as_str()),
        }
    }
}

} // verus!
