//! The probe: an immutable request template with a placeholder-bearing
//! URL, method, headers and body. A validating builder refuses templates
//! without the keyword; `prepare` resolves one concrete request per
//! candidate word, and `response_from` normalizes what came back.

use vstd::prelude::*;
use crate::error::FuzzError;
use crate::text::contains_seq;
use crate::text::contains_sub;
use crate::text::dec_str;
use crate::text::pad_left;
use crate::text::pad_left_spec;
use crate::text::pad_right;
use crate::text::pad_right_spec;
use crate::text::replace_all;
use crate::text::replace_spec;
use crate::text::u64_to_string;

verus! {

/// The placeholder keyword that each candidate word replaces.
pub open spec fn keyword() -> Seq<char> {
    "FUZZ"@
}

/// The keyword as a string slice.
pub fn keyword_str() -> (r: &'static str)
    ensures
        r@ == keyword(),
{
    "FUZZ"
}

/// `s` with every occurrence of the keyword replaced by `word`.
pub open spec fn subst(s: Seq<char>, word: Seq<char>) -> Seq<char> {
    replace_spec(s, keyword(), word)
}

/// Validity of an HTTP header name, as the `http` crate decides it.
pub uninterp spec fn header_name_ok(s: Seq<char>) -> bool;

/// Validity of an HTTP header value, as the `http` crate decides it.
pub uninterp spec fn header_value_ok(s: Seq<char>) -> bool;

/// Relies on http::HeaderName::from_bytes: whether a header name is
/// accepted depends on its characters alone.
#[verifier::external_body]
fn header_name_valid(s: &str) -> (r: bool)
    ensures
        r == header_name_ok(s@),
{
    http::HeaderName::from_bytes(s.as_bytes()).is_ok()
}

/// Relies on http::HeaderValue::from_str: whether a header value is
/// accepted depends on its characters alone.
#[verifier::external_body]
fn header_value_valid(s: &str) -> (r: bool)
    ensures
        r == header_value_ok(s@),
{
    http::HeaderValue::from_str(s).is_ok()
}

/// The path component of `s` as the `url` crate parses it; empty where
/// `s` is not an absolute URL.
pub uninterp spec fn url_path_of(s: Seq<char>) -> Seq<char>;

/// Relies on url::Url::parse: the path of a parsed URL depends on the
/// string alone, and an unparseable string yields the empty path.
#[verifier::external_body]
fn url_path(s: &str) -> (r: String)
    ensures
        r@ == url_path_of(s@),
{
    url::Url::parse(s).map(|u| u.path().to_owned()).unwrap_or_default()
}

/// One normalized response record per issued request.
#[derive(Debug, PartialEq, Eq)]
pub struct ProbeResponse {
    pub word: String,
    pub request_url: String,
    pub status_code: u16,
    pub body: String,
}

impl ProbeResponse {
    /// What `display` renders: the resolved URL, or in verbose mode the
    /// URL's path left-aligned to 30 columns, the status right-aligned
    /// to 10, and the content length.
    pub open spec fn display_spec(self, verbose: bool) -> Seq<char> {
        if verbose {
            pad_right_spec(url_path_of(self.request_url@), 30) + " ("@ + pad_left_spec(
                dec_str(self.status_code as int),
                10,
            ) + ") [Size: "@ + dec_str(self.body@.len() as int) + "]"@
        } else {
            self.request_url@
        }
    }

    pub fn new(word: String, request_url: String, status_code: u16, body: String) -> (r:
        ProbeResponse)
        ensures
            r == (ProbeResponse { word, request_url, status_code, body }),
    {
        ProbeResponse { word, request_url, status_code, body }
    }

    pub fn status_code(&self) -> (r: u16)
        ensures
            r == self.status_code,
    {
        self.status_code
    }

    pub fn body(&self) -> (r: &str)
        ensures
            r@ == self.body@,
    {
        self.body.as_str()
    }

    /// The derived content length: the character length of the body.
    pub fn content_length(&self) -> (r: usize)
        ensures
            r == self.body@.len(),
    {
        self.body.as_str().unicode_len()
    }

    /// One output line for a surviving response.
    pub fn display(&self, verbose: bool) -> (r: String)
        ensures
            r@ == self.display_spec(verbose),
    {
        if verbose {
            let path = url_path(self.request_url.as_str());
            let mut out = pad_right(path.as_str(), 30);
            out.append(" (");
            let status = u64_to_string(self.status_code as u64);
            let padded = pad_left(status.as_str(), 10);
            out.append(padded.as_str());
            out.append(") [Size: ");
            let len_str = u64_to_string(self.content_length() as u64);
            out.append(len_str.as_str());
            out.append("]");
            out
        } else {
            self.request_url.clone()
        }
    }
}

/// Builds the response record for a completed request. A body that could
/// not be decoded is recovered as the empty string, never an error.
pub fn response_from(word: String, request_url: String, status_code: u16, body: Option<
    String>) -> (r: ProbeResponse)
    ensures
        r.word == word,
        r.request_url == request_url,
        r.status_code == status_code,
        r.body@ == (match body {
            Some(b) => b@,
            None => Seq::<char>::empty(),
        }),
{
    let b = match body {
        Some(b) => b,
        None => String::new(),
    };
    ProbeResponse { word, request_url, status_code, body: b }
}

/// A header pair carrying the keyword in its name or value is a fuzzed
/// header, rebuilt and validated per request.
pub open spec fn is_fuzzed(p: (Seq<char>, Seq<char>)) -> bool {
    contains_seq(p.0, keyword()) || contains_seq(p.1, keyword())
}

/// Acceptable at build time: fuzzed pairs are checked per request, the
/// rest must be valid immediately.
pub open spec fn header_pair_ok(p: (Seq<char>, Seq<char>)) -> bool {
    is_fuzzed(p) || (header_name_ok(p.0) && header_value_ok(p.1))
}

pub open spec fn headers_ok(hs: Seq<(Seq<char>, Seq<char>)>) -> bool {
    forall|j: int| 0 <= j < hs.len() ==> header_pair_ok(#[trigger] hs[j])
}

/// The non-fuzzed pairs, in order.
pub open spec fn plain_of(hs: Seq<(Seq<char>, Seq<char>)>) -> Seq<(Seq<char>, Seq<char>)> {
    hs.filter(|p: (Seq<char>, Seq<char>)| !is_fuzzed(p))
}

/// The fuzzed pairs, in order.
pub open spec fn fuzzed_of(hs: Seq<(Seq<char>, Seq<char>)>) -> Seq<(Seq<char>, Seq<char>)> {
    hs.filter(|p: (Seq<char>, Seq<char>)| is_fuzzed(p))
}

/// This pair substitutes into a valid header for this word.
pub open spec fn subst_pair_ok(p: (Seq<char>, Seq<char>), word: Seq<char>) -> bool {
    header_name_ok(subst(p.0, word)) && header_value_ok(subst(p.1, word))
}

/// Every fuzzed pair substitutes into a valid header for this word.
pub open spec fn subst_headers_ok(hs: Seq<(Seq<char>, Seq<char>)>, word: Seq<char>) -> bool {
    forall|j: int| 0 <= j < hs.len() ==> subst_pair_ok(#[trigger] hs[j], word)
}

/// An immutable request template, shared read-only by all workers.
/// Redirects are never followed: a redirect response is reported with its
/// raw 3xx status, not chased.
pub struct HttpProbe {
    pub url: String,
    pub method: String,
    pub headers: Vec<(String, String)>,
    pub fuzzed_headers: Vec<(String, String)>,
    pub body: String,
}

/// Builds an `HttpProbe`; building fails fast unless the keyword appears
/// in the URL, the body, or some header name or value.
pub struct HttpProbeBuilder {
    pub url: String,
    pub method: String,
    pub headers: Vec<(String, String)>,
    pub fuzzed_headers: Vec<(String, String)>,
    pub body: String,
}

/// One concrete request, fully substituted and validated, ready for the
/// transport to send.
pub struct PreparedRequest {
    pub url: String,
    pub method: String,
    pub headers: Vec<(String, String)>,
    pub body: String,
}

impl HttpProbeBuilder {
    /// The default template: GET on a local placeholder URL, one
    /// user-agent header, an empty body.
    pub fn new() -> (r: HttpProbeBuilder)
        ensures
            r.url@ == "http://localhost:8080/FUZZ"@,
            r.method@ == "GET"@,
            r.headers.deep_view() == seq![("user-agent"@, "rustbuster"@)],
            r.fuzzed_headers.deep_view() == Seq::<(Seq<char>, Seq<char>)>::empty(),
            r.body@ == Seq::<char>::empty(),
    {
        let mut headers: Vec<(String, String)> = Vec::new();
        headers.push(("user-agent".to_owned(), "rustbuster".to_owned()));
        let r = HttpProbeBuilder {
            url: "http://localhost:8080/FUZZ".to_owned(),
            method: "GET".to_owned(),
            headers,
            fuzzed_headers: Vec::new(),
            body: String::new(),
        };
        proof {
            assert(r.headers.deep_view() =~~= seq![("user-agent"@, "rustbuster"@)]);
            assert(r.fuzzed_headers.deep_view() =~~= Seq::<(Seq<char>, Seq<char>)>::empty());
        }
        r
    }

    pub fn with_url(self, url: String) -> (r: HttpProbeBuilder)
        ensures
            r == (HttpProbeBuilder { url, ..self }),
    {
        HttpProbeBuilder { url, ..self }
    }

    pub fn with_method(self, method: String) -> (r: HttpProbeBuilder)
        ensures
            r == (HttpProbeBuilder { method, ..self }),
    {
        HttpProbeBuilder { method, ..self }
    }

    pub fn with_body(self, body: String) -> (r: HttpProbeBuilder)
        ensures
            r == (HttpProbeBuilder { body, ..self }),
    {
        HttpProbeBuilder { body, ..self }
    }

    /// Sorts each pair into the plain or the fuzzed headers; a plain pair
    /// with an invalid name or value is refused on the spot.
    pub fn with_headers(self, headers: Vec<(String, String)>) -> (r: Result<
        HttpProbeBuilder,
        FuzzError,
    >)
        ensures
            match r {
                Ok(b) => {
                    &&& headers_ok(headers.deep_view())
                    &&& b.url == self.url
                    &&& b.method == self.method
                    &&& b.body == self.body
                    &&& b.headers.deep_view() == self.headers.deep_view() + plain_of(
                        headers.deep_view(),
                    )
                    &&& b.fuzzed_headers.deep_view() == self.fuzzed_headers.deep_view()
                        + fuzzed_of(headers.deep_view())
                },
                Err(e) => {
                    &&& !headers_ok(headers.deep_view())
                    &&& exists|j: int|
                        {
                            &&& 0 <= j < headers.deep_view().len()
                            &&& !header_pair_ok(#[trigger] headers.deep_view()[j])
                            &&& (forall|k: int|
                                0 <= k < j ==> header_pair_ok(#[trigger] headers.deep_view()[k]))
                            &&& (if !header_name_ok(headers.deep_view()[j].0) {
                                e matches FuzzError::HeaderNameInvalid(s) && s@
                                    == headers.deep_view()[j].0
                            } else {
                                e matches FuzzError::HeaderValueInvalid(s) && s@
                                    == headers.deep_view()[j].1
                            })
                        }
                },
            },
    {
        let ghost hd = headers.deep_view();
        let mut b = self;
        let ghost b0 = b;
        let mut i: usize = 0;
        proof {
            reveal(Seq::filter);
            assert(hd.take(0) =~= Seq::<(Seq<char>, Seq<char>)>::empty());
            assert(b.headers.deep_view() =~~= b0.headers.deep_view() + plain_of(hd.take(0)));
            assert(b.fuzzed_headers.deep_view() =~~= b0.fuzzed_headers.deep_view() + fuzzed_of(
                hd.take(0),
            ));
        }
        while i < headers.len()
            invariant
                i <= headers@.len(),
                hd == headers.deep_view(),
                hd.len() == headers@.len(),
                b.url == b0.url,
                b.method == b0.method,
                b.body == b0.body,
                forall|k: int| 0 <= k < i ==> header_pair_ok(#[trigger] hd[k]),
                b.headers.deep_view() == b0.headers.deep_view() + plain_of(hd.take(i as int)),
                b.fuzzed_headers.deep_view() == b0.fuzzed_headers.deep_view() + fuzzed_of(
                    hd.take(i as int),
                ),
            decreases headers@.len() - i,
        {
            let k = headers[i].0.clone();
            let v = headers[i].1.clone();
            proof {
                assert(hd[i as int] == (headers@[i as int].0@, headers@[i as int].1@));
            }
            let fuzzed = contains_sub(k.as_str(), keyword_str()) || contains_sub(
                v.as_str(),
                keyword_str(),
            );
            proof {
                reveal(Seq::filter);
                assert(hd.take(i + 1).drop_last() =~= hd.take(i as int));
                assert(hd.take(i + 1).last() == hd[i as int]);
            }
            if fuzzed {
                let ghost pre = b.fuzzed_headers.deep_view();
                b.fuzzed_headers.push((k, v));
                proof {
                    reveal(Seq::filter);
                    assert(pre == b0.fuzzed_headers.deep_view() + fuzzed_of(hd.take(i as int)));
                    assert(b.fuzzed_headers.deep_view() =~~= pre.push(hd[i as int]));
                    assert(is_fuzzed(hd[i as int]));
                    assert(plain_of(hd.take(i + 1)) == plain_of(hd.take(i as int)));
                    assert(fuzzed_of(hd.take(i + 1)) == fuzzed_of(hd.take(i as int)).push(
                        hd[i as int],
                    ));
                    assert(b.fuzzed_headers.deep_view() =~~= b0.fuzzed_headers.deep_view()
                        + fuzzed_of(hd.take(i + 1)));
                }
            } else {
                if !header_name_valid(k.as_str()) {
                    proof {
                        assert(!header_pair_ok(hd[i as int]));
                        assert(!headers_ok(hd));
                    }
                    return Err(FuzzError::HeaderNameInvalid(k));
                }
                if !header_value_valid(v.as_str()) {
                    proof {
                        assert(!header_pair_ok(hd[i as int]));
                        assert(!headers_ok(hd));
                    }
                    return Err(FuzzError::HeaderValueInvalid(v));
                }
                let ghost pre = b.headers.deep_view();
                b.headers.push((k, v));
                proof {
                    reveal(Seq::filter);
                    assert(pre == b0.headers.deep_view() + plain_of(hd.take(i as int)));
                    assert(b.headers.deep_view() =~~= pre.push(hd[i as int]));
                    assert(!is_fuzzed(hd[i as int]));
                    assert(fuzzed_of(hd.take(i + 1)) == fuzzed_of(hd.take(i as int)));
                    assert(plain_of(hd.take(i + 1)) == plain_of(hd.take(i as int)).push(
                        hd[i as int],
                    ));
                    assert(b.headers.deep_view() =~~= b0.headers.deep_view() + plain_of(
                        hd.take(i + 1),
                    ));
                }
            }
            i += 1;
        }
        proof {
            assert(hd.take(hd.len() as int) =~= hd);
        }
        Ok(b)
    }

    /// The keyword appears somewhere in the template.
    pub open spec fn has_keyword(self) -> bool {
        contains_seq(self.url@, keyword()) || contains_seq(self.body@, keyword())
            || self.fuzzed_headers@.len() > 0
    }

    /// Validates fail-fast and produces the immutable probe. Succeeds iff
    /// the keyword appears in URL, body or a fuzzed header; otherwise
    /// every candidate would issue the same request.
    pub fn build(self) -> (r: Result<HttpProbe, FuzzError>)
        ensures
            match r {
                Ok(p) => {
                    &&& self.has_keyword()
                    &&& p.url == self.url
                    &&& p.method == self.method
                    &&& p.headers == self.headers
                    &&& p.fuzzed_headers == self.fuzzed_headers
                    &&& p.body == self.body
                },
                Err(e) => !self.has_keyword() && e == FuzzError::FuzzKeywordNotFound,
            },
    {
        let ok = contains_sub(self.url.as_str(), keyword_str()) || contains_sub(
            self.body.as_str(),
            keyword_str(),
        ) || self.fuzzed_headers.len() > 0;
        if ok {
            Ok(
                HttpProbe {
                    url: self.url,
                    method: self.method,
                    headers: self.headers,
                    fuzzed_headers: self.fuzzed_headers,
                    body: self.body,
                },
            )
        } else {
            Err(FuzzError::FuzzKeywordNotFound)
        }
    }
}

impl HttpProbe {
    pub fn builder() -> (r: HttpProbeBuilder)
        ensures
            r.url@ == "http://localhost:8080/FUZZ"@,
            r.method@ == "GET"@,
            r.headers.deep_view() == seq![("user-agent"@, "rustbuster"@)],
            r.fuzzed_headers.deep_view() == Seq::<(Seq<char>, Seq<char>)>::empty(),
            r.body@ == Seq::<char>::empty(),
    {
        HttpProbeBuilder::new()
    }

    /// Resolves URL, body and fuzzed headers for one candidate word.
    /// Fails, per candidate, iff some substituted header is invalid.
    pub fn prepare(&self, word: &str) -> (r: Result<PreparedRequest, FuzzError>)
        ensures
            match r {
                Ok(p) => {
                    &&& subst_headers_ok(self.fuzzed_headers.deep_view(), word@)
                    &&& p.url@ == subst(self.url@, word@)
                    &&& p.method@ == self.method@
                    &&& p.body@ == subst(self.body@, word@)
                    &&& p.headers.deep_view().len() == self.fuzzed_headers.deep_view().len()
                    &&& (forall|j: int|
                        0 <= j < p.headers.deep_view().len()
                            ==> (#[trigger] p.headers.deep_view()[j]).0 == subst(
                            self.fuzzed_headers.deep_view()[j].0,
                            word@,
                        ) && p.headers.deep_view()[j].1 == subst(
                            self.fuzzed_headers.deep_view()[j].1,
                            word@,
                        ))
                },
                Err(e) => {
                    &&& !subst_headers_ok(self.fuzzed_headers.deep_view(), word@)
                    &&& exists|j: int|
                        {
                            &&& 0 <= j < self.fuzzed_headers.deep_view().len()
                            &&& !subst_pair_ok(
                                #[trigger] self.fuzzed_headers.deep_view()[j],
                                word@,
                            )
                            &&& (forall|k: int|
                                0 <= k < j ==> subst_pair_ok(
                                    #[trigger] self.fuzzed_headers.deep_view()[k],
                                    word@,
                                ))
                            &&& (if !header_name_ok(
                                subst(self.fuzzed_headers.deep_view()[j].0, word@),
                            ) {
                                e matches FuzzError::HeaderNameInvalid(s) && s@ == subst(
                                    self.fuzzed_headers.deep_view()[j].0,
                                    word@,
                                )
                            } else {
                                e matches FuzzError::HeaderValueInvalid(s) && s@ == subst(
                                    self.fuzzed_headers.deep_view()[j].1,
                                    word@,
                                )
                            })
                        }
                },
            },
    {
        let ghost fd = self.fuzzed_headers.deep_view();
        let request_url = replace_all(self.url.as_str(), keyword_str(), word);
        let request_body = replace_all(self.body.as_str(), keyword_str(), word);
        let mut out: Vec<(String, String)> = Vec::new();
        let mut i: usize = 0;
        while i < self.fuzzed_headers.len()
            invariant
                i <= self.fuzzed_headers@.len(),
                fd == self.fuzzed_headers.deep_view(),
                fd.len() == self.fuzzed_headers@.len(),
                out@.len() == i,
                forall|k: int| 0 <= k < i ==> subst_pair_ok(#[trigger] fd[k], word@),
                forall|m: int|
                    0 <= m < i ==> (#[trigger] out@[m]).0@ == subst(fd[m].0, word@) && out@[m].1@
                        == subst(fd[m].1, word@),
            decreases self.fuzzed_headers@.len() - i,
        {
            proof {
                assert(fd[i as int] == (
                    self.fuzzed_headers@[i as int].0@,
                    self.fuzzed_headers@[i as int].1@,
                ));
            }
            let k = replace_all(self.fuzzed_headers[i].0.as_str(), keyword_str(), word);
            let v = replace_all(self.fuzzed_headers[i].1.as_str(), keyword_str(), word);
            if !header_name_valid(k.as_str()) {
                proof {
                    assert(!subst_pair_ok(self.fuzzed_headers.deep_view()[i as int], word@));
                }
                return Err(FuzzError::HeaderNameInvalid(k));
            }
            if !header_value_valid(v.as_str()) {
                proof {
                    assert(!subst_pair_ok(self.fuzzed_headers.deep_view()[i as int], word@));
                }
                return Err(FuzzError::HeaderValueInvalid(v));
            }
            out.push((k, v));
            i += 1;
        }
        Ok(
            PreparedRequest {
                url: request_url,
                method: self.method.clone(),
                headers: out,
                body: request_body,
            },
        )
    }
}

} // verus!
