//! Verified string algorithms the fuzzer is built on: substring search,
//! keyword replacement, number parsing and rendering, and splitting.
//!
//! All executable functions are specified against character sequences
//! (the view of `&str` and `String`).

use vstd::prelude::*;
use vstd::arithmetic::div_mod::lemma_fundamental_div_mod;

verus! {

/// `pat` occurs in `s` starting at position `i`.
pub open spec fn match_at(s: Seq<char>, pat: Seq<char>, i: int) -> bool {
    &&& 0 <= i
    &&& i + pat.len() <= s.len()
    &&& s.subrange(i, i + pat.len() as int) == pat
}

/// `pat` occurs somewhere in `s` (every string contains the empty one).
pub open spec fn contains_seq(s: Seq<char>, pat: Seq<char>) -> bool {
    exists|i: int| match_at(s, pat, i)
}

/// `s` with every occurrence of `pat` replaced by `sub`, scanning left to
/// right and never rescanning substituted text. An empty `pat` replaces
/// nothing.
pub open spec fn replace_spec(s: Seq<char>, pat: Seq<char>, sub: Seq<char>) -> Seq<char>
    decreases s.len(),
{
    if pat.len() == 0 || s.len() < pat.len() {
        s
    } else if s.subrange(0, pat.len() as int) == pat {
        sub + replace_spec(s.skip(pat.len() as int), pat, sub)
    } else {
        seq![s[0]] + replace_spec(s.skip(1), pat, sub)
    }
}

/// Compares `pat` against `s` at position `i`.
fn match_at_exec(s: &str, pat: &str, i: usize) -> (b: bool)
    requires
        i + pat@.len() <= s@.len(),
    ensures
        b == match_at(s@, pat@, i as int),
{
    let s_len = s.unicode_len();
    let pat_len = pat.unicode_len();
    let mut j: usize = 0;
    while j < pat_len
        invariant
            j <= pat_len,
            s_len == s@.len(),
            pat_len == pat@.len(),
            i + pat_len <= s_len,
            forall|k: int| 0 <= k < j ==> s@[i + k] == pat@[k],
        decreases pat_len - j,
    {
        if s.get_char(i + j) != pat.get_char(j) {
            assert(s@.subrange(i as int, i + pat@.len() as int)[j as int] == s@[i + j]);
            return false;
        }
        j += 1;
    }
    assert(s@.subrange(i as int, i + pat@.len() as int) =~= pat@);
    true
}

/// Substring containment, the body filter's verbatim, case-sensitive test.
pub fn contains_sub(s: &str, pat: &str) -> (b: bool)
    ensures
        b == contains_seq(s@, pat@),
{
    let s_len = s.unicode_len();
    let pat_len = pat.unicode_len();
    if pat_len == 0 {
        assert(match_at(s@, pat@, 0)) by {
            assert(s@.subrange(0, 0) =~= pat@);
        }
        return true;
    }
    if pat_len > s_len {
        assert forall|k: int| !match_at(s@, pat@, k) by {
            if match_at(s@, pat@, k) {
                assert(k + pat@.len() <= s@.len());
            }
        }
        return false;
    }
    let mut i: usize = 0;
    while i <= s_len - pat_len
        invariant
            s_len == s@.len(),
            pat_len == pat@.len(),
            1 <= pat_len <= s_len,
            i <= s_len - pat_len + 1,
            forall|k: int| 0 <= k < i ==> !match_at(s@, pat@, k),
        decreases s_len - pat_len + 1 - i,
    {
        if match_at_exec(s, pat, i) {
            assert(match_at(s@, pat@, i as int));
            return true;
        }
        i += 1;
    }
    assert forall|k: int| !match_at(s@, pat@, k) by {
        if match_at(s@, pat@, k) {
            assert(0 <= k && k + pat@.len() <= s@.len());
            assert(k < i);
        }
    }
    false
}

/// Replaces every occurrence of `pat` in `s` with `sub`, left to right.
pub fn replace_all(s: &str, pat: &str, sub: &str) -> (r: String)
    ensures
        r@ == replace_spec(s@, pat@, sub@),
{
    let s_len = s.unicode_len();
    let pat_len = pat.unicode_len();
    if pat_len == 0 {
        return s.to_owned();
    }
    let mut r = String::new();
    let mut i: usize = 0;
    proof {
        assert(s@.skip(0) =~= s@);
        assert(Seq::<char>::empty() + replace_spec(s@, pat@, sub@) =~= replace_spec(
            s@,
            pat@,
            sub@,
        ));
    }
    while i < s_len
        invariant
            s_len == s@.len(),
            pat_len == pat@.len(),
            pat_len >= 1,
            i <= s_len,
            replace_spec(s@, pat@, sub@) == r@ + replace_spec(
                s@.skip(i as int),
                pat@,
                sub@,
            ),
        decreases s_len - i,
    {
        let ghost rest = s@.skip(i as int);
        if pat_len <= s_len - i && match_at_exec(s, pat, i) {
            proof {
                assert(rest.subrange(0, pat@.len() as int) =~= s@.subrange(
                    i as int,
                    i + pat@.len() as int,
                ));
                assert(rest.skip(pat@.len() as int) =~= s@.skip(i + pat@.len()));
                assert(replace_spec(rest, pat@, sub@) == sub@ + replace_spec(
                    s@.skip(i + pat@.len()),
                    pat@,
                    sub@,
                ));
            }
            r.append(sub);
            i += pat_len;
        } else {
            proof {
                if i + pat@.len() <= s@.len() {
                    // no match at i
                    assert(rest.subrange(0, pat@.len() as int) =~= s@.subrange(
                        i as int,
                        i + pat@.len() as int,
                    ));
                    assert(rest.subrange(0, pat@.len() as int) != pat@);
                    assert(rest.skip(1) =~= s@.skip(i + 1));
                    assert(rest[0] == s@[i as int]);
                    assert(replace_spec(rest, pat@, sub@) == seq![s@[i as int]] + replace_spec(
                        s@.skip(i + 1),
                        pat@,
                        sub@,
                    ));
                } else {
                    // tail shorter than the pattern: copied verbatim
                    assert(rest.len() < pat@.len());
                    assert(replace_spec(rest, pat@, sub@) == rest);
                    let tail = s@.skip(i + 1);
                    assert(tail.len() < pat@.len());
                    assert(replace_spec(tail, pat@, sub@) == tail);
                    assert(rest =~= seq![s@[i as int]] + tail);
                }
            }
            let c = s.substring_char(i, i + 1);
            proof {
                assert(c@ =~= seq![s@[i as int]]);
            }
            r.append(c);
            i += 1;
        }
    }
    proof {
        assert(s@.skip(s@.len() as int) =~= Seq::<char>::empty());
        assert(replace_spec(Seq::<char>::empty(), pat@, sub@) == Seq::<char>::empty());
        assert(r@ + Seq::<char>::empty() =~= r@);
    }
    r
}

/// A decimal digit.
pub open spec fn is_digit(c: char) -> bool {
    '0' <= c && c <= '9'
}

/// Numeric value of a decimal digit character.
pub open spec fn digit_val(c: char) -> int {
    c as int - '0' as int
}

/// `s` consists of decimal digits only.
pub open spec fn all_digits(s: Seq<char>) -> bool {
    forall|i: int| 0 <= i < s.len() ==> is_digit(#[trigger] s[i])
}

/// The number written in decimal as `s` (0 for the empty sequence).
pub open spec fn digits_val(s: Seq<char>) -> int
    decreases s.len(),
{
    if s.len() == 0 {
        0
    } else {
        digits_val(s.drop_last()) * 10 + digit_val(s.last())
    }
}

/// A numeric token parses iff it is non-empty, all digits, and its value is
/// at most `bound`; leading zeroes are allowed.
pub open spec fn parse_num(s: Seq<char>, bound: int) -> Option<int> {
    if s.len() > 0 && all_digits(s) && digits_val(s) <= bound {
        Some(digits_val(s))
    } else {
        None
    }
}

/// Parses a decimal token, rejecting values above `bound`.
pub fn parse_bounded(s: &str, bound: u64) -> (r: Option<u64>)
    ensures
        match r {
            Some(v) => parse_num(s@, bound as int) == Some(v as int),
            None => parse_num(s@, bound as int) is None,
        },
{
    let s_len = s.unicode_len();
    if s_len == 0 {
        return None;
    }
    let mut acc: u64 = 0;
    let mut over: bool = false;
    let mut i: usize = 0;
    while i < s_len
        invariant
            s_len == s@.len(),
            i <= s_len,
            forall|k: int| 0 <= k < i ==> is_digit(#[trigger] s@[k]),
            !over ==> acc == digits_val(s@.take(i as int)) && acc <= bound,
            over ==> digits_val(s@.take(i as int)) > bound,
        decreases s_len - i,
    {
        let c = s.get_char(i);
        if c < '0' || c > '9' {
            assert(!is_digit(s@[i as int]));
            return None;
        }
        let d: u64 = (c as u32 - 48) as u64;
        let ghost prefix = s@.take(i as int);
        let ghost prefix1 = s@.take(i as int + 1);
        proof {
            assert(d as int == digit_val(s@[i as int]));
            assert(prefix1.drop_last() =~= prefix);
            assert(prefix1.last() == s@[i as int]);
            assert(digits_val(prefix1) == digits_val(prefix) * 10 + digit_val(s@[i as int]));
        }
        if over {
            proof {
                assert(digits_val(prefix1) > bound);
            }
        } else {
            if d > bound || acc > (bound - d) / 10 {
                proof {
                    if d <= bound {
                        lemma_fundamental_div_mod((bound - d) as int, 10);
                    }
                    assert(digits_val(prefix1) > bound);
                }
                over = true;
            } else {
                proof {
                    lemma_fundamental_div_mod((bound - d) as int, 10);
                    assert(acc * 10 + d <= bound);
                }
                acc = acc * 10 + d;
            }
        }
        i += 1;
    }
    proof {
        assert(s@.take(s_len as int) =~= s@);
    }
    if over {
        None
    } else {
        Some(acc)
    }
}

/// Fields of `s` between occurrences of the separator; always at least one
/// field, and `n` separators give `n + 1` fields.
pub open spec fn split_spec(s: Seq<char>, sep: char) -> Seq<Seq<char>>
    decreases s.len(),
{
    if s.len() == 0 {
        seq![Seq::<char>::empty()]
    } else if s[0] == sep {
        seq![Seq::<char>::empty()] + split_spec(s.skip(1), sep)
    } else {
        let rest = split_spec(s.skip(1), sep);
        seq![seq![s[0]] + rest[0]] + rest.skip(1)
    }
}

pub proof fn lemma_split_spec_len(s: Seq<char>, sep: char)
    ensures
        split_spec(s, sep).len() >= 1,
    decreases s.len(),
{
    if s.len() == 0 {
    } else if s[0] == sep {
    } else {
        lemma_split_spec_len(s.skip(1), sep);
    }
}

/// Splits `s` at every occurrence of `sep`.
pub fn split_by(s: &str, sep: char) -> (r: Vec<String>)
    ensures
        r.deep_view() == split_spec(s@, sep),
        r@.len() >= 1,
    decreases s@.len(),
{
    let s_len = s.unicode_len();
    if s_len == 0 {
        let mut r: Vec<String> = Vec::new();
        r.push(String::new());
        assert(r.deep_view() =~~= split_spec(s@, sep));
        return r;
    }
    let c = s.get_char(0);
    let rest = s.substring_char(1, s_len);
    proof {
        assert(rest@ =~= s@.skip(1));
        lemma_split_spec_len(s@.skip(1), sep);
    }
    let mut r = split_by(rest, sep);
    if c == sep {
        r.insert(0, String::new());
        assert(r.deep_view() =~~= split_spec(s@, sep));
    } else {
        let head = s.substring_char(0, 1);
        proof {
            assert(head@ =~= seq![s@[0]]);
        }
        let first = r.remove(0);
        let joined = head.to_owned().concat(first.as_str());
        r.insert(0, joined);
        assert(r.deep_view() =~~= split_spec(s@, sep));
    }
    r
}

/// Whether the character `c` occurs in `s`.
pub fn contains_char(s: &str, c: char) -> (b: bool)
    ensures
        b == s@.contains(c),
{
    let s_len = s.unicode_len();
    let mut i: usize = 0;
    while i < s_len
        invariant
            s_len == s@.len(),
            i <= s_len,
            forall|k: int| 0 <= k < i ==> s@[k] != c,
        decreases s_len - i,
    {
        if s.get_char(i) == c {
            assert(s@[i as int] == c);
            return true;
        }
        i += 1;
    }
    assert(!s@.contains(c));
    false
}

/// The values of the tokens that parse, in order; tokens that do not parse
/// are skipped.
pub open spec fn parsed_seq(parts: Seq<Seq<char>>, bound: int) -> Seq<int>
    decreases parts.len(),
{
    if parts.len() == 0 {
        Seq::<int>::empty()
    } else {
        match parse_num(parts[0], bound) {
            Some(v) => seq![v] + parsed_seq(parts.skip(1), bound),
            None => parsed_seq(parts.skip(1), bound),
        }
    }
}

pub proof fn lemma_parsed_seq_append(a: Seq<Seq<char>>, b: Seq<Seq<char>>, bound: int)
    ensures
        parsed_seq(a + b, bound) == parsed_seq(a, bound) + parsed_seq(b, bound),
    decreases a.len(),
{
    if a.len() == 0 {
        assert(a + b =~= b);
        assert(parsed_seq(a, bound) + parsed_seq(b, bound) =~= parsed_seq(b, bound));
    } else {
        lemma_parsed_seq_append(a.skip(1), b, bound);
        assert((a + b).skip(1) =~= a.skip(1) + b);
        assert((a + b)[0] == a[0]);
        match parse_num(a[0], bound) {
            Some(v) => {
                assert(parsed_seq(a + b, bound) =~= parsed_seq(a, bound) + parsed_seq(b, bound));
            },
            None => {
                assert(parsed_seq(a + b, bound) =~= parsed_seq(a, bound) + parsed_seq(b, bound));
            },
        }
    }
}

/// Parses every token, keeping the values of those that parse.
pub fn parse_all(parts: &Vec<String>, bound: u64) -> (r: Vec<u64>)
    ensures
        r@.map_values(|x: u64| x as int) == parsed_seq(parts.deep_view(), bound as int),
        forall|k: int| 0 <= k < r@.len() ==> #[trigger] r@[k] <= bound,
{
    let mut r: Vec<u64> = Vec::new();
    let mut i: usize = 0;
    proof {
        assert(parts.deep_view().take(0) =~= Seq::<Seq<char>>::empty());
        assert(r@.map_values(|x: u64| x as int) =~= parsed_seq(
            parts.deep_view().take(0),
            bound as int,
        ));
    }
    while i < parts.len()
        invariant
            i <= parts@.len(),
            r@.map_values(|x: u64| x as int) == parsed_seq(
                parts.deep_view().take(i as int),
                bound as int,
            ),
            forall|k: int| 0 <= k < r@.len() ==> #[trigger] r@[k] <= bound,
        decreases parts@.len() - i,
    {
        let ghost pd = parts.deep_view();
        let ghost pre = r@;
        let parsed = parse_bounded(parts[i].as_str(), bound);
        proof {
            lemma_parsed_seq_append(pd.take(i as int), seq![pd[i as int]], bound as int);
            assert(pd.take(i as int) + seq![pd[i as int]] =~= pd.take(i + 1));
            assert(seq![pd[i as int]].skip(1) =~= Seq::<Seq<char>>::empty());
            assert(pd[i as int] == parts@[i as int]@);
            assert(parsed_seq(Seq::<Seq<char>>::empty(), bound as int) == Seq::<int>::empty());
        }
        match parsed {
            Some(v) => {
                r.push(v);
                proof {
                    assert(parsed_seq(seq![pd[i as int]], bound as int) =~= seq![v as int]);
                    assert(r@.map_values(|x: u64| x as int) =~= pre.map_values(
                        |x: u64| x as int,
                    ).push(v as int));
                    assert(r@.map_values(|x: u64| x as int) =~= parsed_seq(
                        pd.take(i + 1),
                        bound as int,
                    ));
                }
            },
            None => {
                proof {
                    assert(parsed_seq(seq![pd[i as int]], bound as int) =~= Seq::<int>::empty());
                    assert(r@.map_values(|x: u64| x as int) =~= parsed_seq(
                        pd.take(i + 1),
                        bound as int,
                    ));
                }
            },
        }
        i += 1;
    }
    proof {
        assert(parts.deep_view().take(parts@.len() as int) =~= parts.deep_view());
    }
    r
}

/// The decimal digit character for `d`.
pub open spec fn digit_char(d: int) -> char {
    if d == 0 {
        '0'
    } else if d == 1 {
        '1'
    } else if d == 2 {
        '2'
    } else if d == 3 {
        '3'
    } else if d == 4 {
        '4'
    } else if d == 5 {
        '5'
    } else if d == 6 {
        '6'
    } else if d == 7 {
        '7'
    } else if d == 8 {
        '8'
    } else {
        '9'
    }
}

/// The decimal rendering of a non-negative number.
pub open spec fn dec_str(n: int) -> Seq<char>
    decreases n,
{
    if n < 10 {
        seq![digit_char(n)]
    } else {
        dec_str(n / 10) + seq![digit_char(n % 10)]
    }
}

fn digit_str(d: u64) -> (r: &'static str)
    requires
        d < 10,
    ensures
        r@ == seq![digit_char(d as int)],
{
    let r = if d == 0 {
        "0"
    } else if d == 1 {
        "1"
    } else if d == 2 {
        "2"
    } else if d == 3 {
        "3"
    } else if d == 4 {
        "4"
    } else if d == 5 {
        "5"
    } else if d == 6 {
        "6"
    } else if d == 7 {
        "7"
    } else if d == 8 {
        "8"
    } else {
        "9"
    };
    proof {
        reveal_strlit("0");
        reveal_strlit("1");
        reveal_strlit("2");
        reveal_strlit("3");
        reveal_strlit("4");
        reveal_strlit("5");
        reveal_strlit("6");
        reveal_strlit("7");
        reveal_strlit("8");
        reveal_strlit("9");
        assert(r@ =~= seq![digit_char(d as int)]);
    }
    r
}

/// Renders `n` in decimal.
pub fn u64_to_string(n: u64) -> (r: String)
    ensures
        r@ == dec_str(n as int),
    decreases n,
{
    if n < 10 {
        digit_str(n).to_owned()
    } else {
        let mut r = u64_to_string(n / 10);
        r.append(digit_str(n % 10));
        r
    }
}

/// `n` space characters.
pub open spec fn spaces(n: int) -> Seq<char>
    decreases n,
{
    if n <= 0 {
        Seq::<char>::empty()
    } else {
        spaces(n - 1) + seq![' ']
    }
}

/// `s` left-aligned in a field of width `w`.
pub open spec fn pad_right_spec(s: Seq<char>, w: int) -> Seq<char> {
    if s.len() >= w {
        s
    } else {
        s + spaces(w - s.len())
    }
}

/// `s` right-aligned in a field of width `w`.
pub open spec fn pad_left_spec(s: Seq<char>, w: int) -> Seq<char> {
    if s.len() >= w {
        s
    } else {
        spaces(w - s.len()) + s
    }
}

/// Appends spaces up to width `w`.
pub fn pad_right(s: &str, w: usize) -> (r: String)
    ensures
        r@ == pad_right_spec(s@, w as int),
{
    let s_len = s.unicode_len();
    let mut r = s.to_owned();
    let mut k: usize = s_len;
    proof {
        assert(r@ =~= s@ + spaces(0));
    }
    while k < w
        invariant
            s_len == s@.len(),
            s_len <= k,
            k <= w || k == s_len,
            r@ == s@ + spaces(k - s_len),
        decreases w - k,
    {
        r.append(" ");
        proof {
            reveal_strlit(" ");
            assert(" "@ =~= seq![' ']);
            assert(s@ + spaces(k - s_len) + seq![' '] =~= s@ + spaces(k + 1 - s_len));
        }
        k += 1;
    }
    proof {
        if s@.len() >= w {
            assert(r@ =~= s@);
        }
    }
    r
}

/// Prepends spaces up to width `w`.
pub fn pad_left(s: &str, w: usize) -> (r: String)
    ensures
        r@ == pad_left_spec(s@, w as int),
{
    let s_len = s.unicode_len();
    let mut r = String::new();
    let mut k: usize = s_len;
    proof {
        assert(r@ =~= spaces(0));
    }
    while k < w
        invariant
            s_len == s@.len(),
            s_len <= k,
            k <= w || k == s_len,
            r@ == spaces(k - s_len),
        decreases w - k,
    {
        r.append(" ");
        proof {
            reveal_strlit(" ");
            assert(" "@ =~= seq![' ']);
            assert(spaces(k - s_len) + seq![' '] =~= spaces(k + 1 - s_len));
        }
        k += 1;
    }
    r.append(s);
    proof {
        if s@.len() >= w {
            assert(spaces(0) + s@ =~= s@);
            assert(r@ =~= pad_left_spec(s@, w as int));
        }
    }
    r
}

} // verus!
