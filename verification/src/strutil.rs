//! String primitives for the query compiler: character search, splitting,
//! joining, decimal rendering, and lowercasing.
//!
//! Every executable function is specified against a recursive spec function
//! over `Seq<char>`; the SQL compiler's model is built from these.

use vstd::prelude::*;
use vstd::string::StrSliceExecFns;
use vstd::string::StringExecFns;

verus! {

/// Index of the first occurrence of `c` in `s`, or -1 if absent.
pub open spec fn spec_find(s: Seq<char>, c: char) -> int
    decreases s.len(),
{
    if s.len() == 0 {
        -1
    } else if s[0] == c {
        0
    } else {
        let r = spec_find(s.subrange(1, s.len() as int), c);
        if r < 0 {
            -1
        } else {
            r + 1
        }
    }
}

/// Index of the first occurrence of `c1` or `c2` in `s`, or -1 if absent.
pub open spec fn spec_find2(s: Seq<char>, c1: char, c2: char) -> int
    decreases s.len(),
{
    if s.len() == 0 {
        -1
    } else if s[0] == c1 || s[0] == c2 {
        0
    } else {
        let r = spec_find2(s.subrange(1, s.len() as int), c1, c2);
        if r < 0 {
            -1
        } else {
            r + 1
        }
    }
}

/// Index of the rightmost occurrence of the two-character run `cc` in `s`,
/// or -1 if absent.
pub open spec fn spec_rfind_pair(s: Seq<char>, c: char) -> int
    decreases s.len(),
{
    if s.len() < 2 {
        -1
    } else if s[s.len() - 2] == c && s[s.len() - 1] == c {
        s.len() - 2
    } else {
        spec_rfind_pair(s.subrange(0, s.len() - 1), c)
    }
}

/// `s` split at every occurrence of `c`; adjacent separators yield empty
/// parts, and a string without `c` is a single part.
pub open spec fn spec_split(s: Seq<char>, c: char) -> Seq<Seq<char>>
    decreases s.len(),
{
    let i = spec_find(s, c);
    if 0 <= i < s.len() {
        seq![s.subrange(0, i)] + spec_split(s.subrange(i + 1, s.len() as int), c)
    } else {
        seq![s]
    }
}

/// `s` split at every occurrence of `c1` or `c2`.
pub open spec fn spec_split2(s: Seq<char>, c1: char, c2: char) -> Seq<Seq<char>>
    decreases s.len(),
{
    let i = spec_find2(s, c1, c2);
    if 0 <= i < s.len() {
        seq![s.subrange(0, i)] + spec_split2(s.subrange(i + 1, s.len() as int), c1, c2)
    } else {
        seq![s]
    }
}

/// The non-empty members of `parts`, in order.
pub open spec fn spec_nonempty(parts: Seq<Seq<char>>) -> Seq<Seq<char>>
    decreases parts.len(),
{
    if parts.len() == 0 {
        Seq::empty()
    } else if parts[0].len() == 0 {
        spec_nonempty(parts.subrange(1, parts.len() as int))
    } else {
        seq![parts[0]] + spec_nonempty(parts.subrange(1, parts.len() as int))
    }
}

/// The members of `parts` concatenated with `sep` between neighbours.
pub open spec fn spec_join(parts: Seq<Seq<char>>, sep: Seq<char>) -> Seq<char>
    decreases parts.len(),
{
    if parts.len() == 0 {
        Seq::empty()
    } else if parts.len() == 1 {
        parts[0]
    } else {
        parts[0] + sep + spec_join(parts.subrange(1, parts.len() as int), sep)
    }
}

/// Decimal digit `d` as a character; meaningful for `0 <= d <= 9`.
pub open spec fn digit_char(d: int) -> char {
    seq!['0', '1', '2', '3', '4', '5', '6', '7', '8', '9'][d]
}

/// The decimal rendering of `n`, without a sign; meaningful for `n >= 0`.
pub open spec fn spec_dec(n: int) -> Seq<char>
    decreases n,
{
    if n < 10 {
        seq![digit_char(n)]
    } else {
        spec_dec(n / 10) + seq![digit_char(n % 10)]
    }
}

/// `s` begins with the prefix `p`.
pub open spec fn spec_starts_with(s: Seq<char>, p: Seq<char>) -> bool {
    p.len() <= s.len() && s.subrange(0, p.len() as int) == p
}

/// The lowercased form of a character sequence, as `str::to_lowercase`
/// computes it; a function of the characters alone.
pub uninterp spec fn lower_of(s: Seq<char>) -> Seq<char>;

/// Relies on `str::to_lowercase`: returns the lowercase equivalent of the
/// string, determined by the characters alone (no locale, no environment).
#[verifier::external_body]
pub(crate) fn to_lowercase(s: &str) -> (r: String)
    ensures
        r@ == lower_of(s@),
{
    s.to_lowercase()
}

/// Character-wise string equality.
pub(crate) fn str_eq(a: &str, b: &str) -> (r: bool)
    ensures
        r == (a@ == b@),
{
    let sa = a.to_owned();
    let sb = b.to_owned();
    sa == sb
}

pub(crate) fn find_char(s: &str, c: char) -> (r: Option<usize>)
    ensures
        match r {
            Some(i) => spec_find(s@, c) == i as int && (i as int) < s@.len(),
            None => spec_find(s@, c) == -1,
        },
    decreases s@.len(),
{
    let n = s.unicode_len();
    if n == 0 {
        None
    } else if s.get_char(0) == c {
        Some(0)
    } else {
        let tail = s.substring_char(1, n);
        match find_char(tail, c) {
            None => None,
            Some(i) => Some(i + 1),
        }
    }
}

pub(crate) fn find_char2(s: &str, c1: char, c2: char) -> (r: Option<usize>)
    ensures
        match r {
            Some(i) => spec_find2(s@, c1, c2) == i as int && (i as int) < s@.len(),
            None => spec_find2(s@, c1, c2) == -1,
        },
    decreases s@.len(),
{
    let n = s.unicode_len();
    if n == 0 {
        None
    } else if s.get_char(0) == c1 || s.get_char(0) == c2 {
        Some(0)
    } else {
        let tail = s.substring_char(1, n);
        match find_char2(tail, c1, c2) {
            None => None,
            Some(i) => Some(i + 1),
        }
    }
}

pub(crate) fn rfind_pair(s: &str, c: char) -> (r: Option<usize>)
    ensures
        match r {
            Some(i) => spec_rfind_pair(s@, c) == i as int && i + 2 <= s@.len(),
            None => spec_rfind_pair(s@, c) == -1,
        },
    decreases s@.len(),
{
    let n = s.unicode_len();
    if n < 2 {
        None
    } else if s.get_char(n - 2) == c && s.get_char(n - 1) == c {
        Some(n - 2)
    } else {
        let head = s.substring_char(0, n - 1);
        rfind_pair(head, c)
    }
}

pub(crate) fn split_char(s: &str, c: char) -> (r: Vec<String>)
    ensures
        r.deep_view() == spec_split(s@, c),
    decreases s@.len(),
{
    let n = s.unicode_len();
    match find_char(s, c) {
        None => {
            let mut v: Vec<String> = Vec::new();
            v.push(s.to_owned());
            proof {
                assert(v.deep_view() =~= spec_split(s@, c));
            }
            v
        }
        Some(i) => {
            let head = s.substring_char(0, i);
            let tail = s.substring_char(i + 1, n);
            let mut v = split_char(tail, c);
            v.insert(0, head.to_owned());
            proof {
                assert(v.deep_view() =~= spec_split(s@, c));
            }
            v
        }
    }
}

pub(crate) fn split_char2(s: &str, c1: char, c2: char) -> (r: Vec<String>)
    ensures
        r.deep_view() == spec_split2(s@, c1, c2),
    decreases s@.len(),
{
    let n = s.unicode_len();
    match find_char2(s, c1, c2) {
        None => {
            let mut v: Vec<String> = Vec::new();
            v.push(s.to_owned());
            proof {
                assert(v.deep_view() =~= spec_split2(s@, c1, c2));
            }
            v
        }
        Some(i) => {
            let head = s.substring_char(0, i);
            let tail = s.substring_char(i + 1, n);
            let mut v = split_char2(tail, c1, c2);
            v.insert(0, head.to_owned());
            proof {
                assert(v.deep_view() =~= spec_split2(s@, c1, c2));
            }
            v
        }
    }
}

fn nonempty_from(v: &Vec<String>, i: usize) -> (r: Vec<String>)
    requires
        i <= v.len(),
    ensures
        r.deep_view() == spec_nonempty(v.deep_view().subrange(i as int, v.len() as int)),
    decreases v.len() - i,
{
    if i == v.len() {
        let r: Vec<String> = Vec::new();
        proof {
            assert(r.deep_view() =~= spec_nonempty(v.deep_view().subrange(i as int, v.len() as int)));
        }
        r
    } else {
        let mut rest = nonempty_from(v, i + 1);
        proof {
            assert(v.deep_view().subrange(i as int, v.len() as int).subrange(
                1,
                v.deep_view().subrange(i as int, v.len() as int).len() as int,
            ) =~= v.deep_view().subrange(i + 1, v.len() as int));
        }
        if v[i].as_str().unicode_len() == 0 {
            rest
        } else {
            rest.insert(0, v[i].clone());
            proof {
                assert(rest.deep_view() =~= spec_nonempty(
                    v.deep_view().subrange(i as int, v.len() as int),
                ));
            }
            rest
        }
    }
}

pub(crate) fn nonempty_parts(v: &Vec<String>) -> (r: Vec<String>)
    ensures
        r.deep_view() == spec_nonempty(v.deep_view()),
{
    let r = nonempty_from(v, 0);
    proof {
        assert(v.deep_view().subrange(0, v.len() as int) =~= v.deep_view());
    }
    r
}

fn join_from(v: &Vec<String>, sep: &str, i: usize) -> (r: String)
    requires
        i <= v.len(),
    ensures
        r@ == spec_join(v.deep_view().subrange(i as int, v.len() as int), sep@),
    decreases v.len() - i,
{
    if i == v.len() {
        String::new()
    } else if i + 1 == v.len() {
        let r = v[i].clone();
        proof {
            assert(v.deep_view().subrange(i as int, v.len() as int) =~= seq![v.deep_view()[i as int]]);
        }
        r
    } else {
        let mut r = v[i].clone();
        r.append(sep);
        let rest = join_from(v, sep, i + 1);
        r.append(rest.as_str());
        proof {
            assert(v.deep_view().subrange(i as int, v.len() as int).subrange(
                1,
                v.deep_view().subrange(i as int, v.len() as int).len() as int,
            ) =~= v.deep_view().subrange(i + 1, v.len() as int));
            assert(r@ =~= spec_join(v.deep_view().subrange(i as int, v.len() as int), sep@));
        }
        r
    }
}

pub(crate) fn join_with(v: &Vec<String>, sep: &str) -> (r: String)
    ensures
        r@ == spec_join(v.deep_view(), sep@),
{
    let r = join_from(v, sep, 0);
    proof {
        assert(v.deep_view().subrange(0, v.len() as int) =~= v.deep_view());
    }
    r
}

fn digit_str(d: u64) -> (r: &'static str)
    requires
        d < 10,
    ensures
        r@ == seq![digit_char(d as int)],
{
    proof {
        reveal_strlit("0");
        reveal_strlit("1");
        reveal_strlit("2");
        reveal_strlit("3");
        reveal_strlit("4");
        reveal_strlit("5");
        reveal_strlit("6");
        reveal_strlit("7");
        reveal_strlit("8");
        reveal_strlit("9");
    }
    match d {
        0 => "0",
        1 => "1",
        2 => "2",
        3 => "3",
        4 => "4",
        5 => "5",
        6 => "6",
        7 => "7",
        8 => "8",
        _ => "9",
    }
}

pub(crate) fn u64_to_dec(n: u64) -> (r: String)
    ensures
        r@ == spec_dec(n as int),
    decreases n,
{
    if n < 10 {
        digit_str(n).to_owned()
    } else {
        let mut r = u64_to_dec(n / 10);
        r.append(digit_str(n % 10));
        proof {
            assert(r@ =~= spec_dec(n as int));
        }
        r
    }
}

pub(crate) fn str_starts_with(s: &str, p: &str) -> (r: bool)
    ensures
        r == spec_starts_with(s@, p@),
{
    let n = s.unicode_len();
    let m = p.unicode_len();
    if m > n {
        false
    } else {
        let pre = s.substring_char(0, m);
        str_eq(pre, p)
    }
}

/// A freshly allocated copy of a borrowed run of strings.
pub(crate) fn clone_strings(xs: &[String]) -> (r: Vec<String>)
    ensures
        r.deep_view() == xs.deep_view(),
{
    let mut r: Vec<String> = Vec::new();
    proof {
        assert(r.deep_view() =~~= xs.deep_view().subrange(0, 0));
    }
    let mut i: usize = 0;
    while i < xs.len()
        invariant
            i <= xs.len(),
            r.deep_view() == xs.deep_view().subrange(0, i as int),
        decreases xs.len() - i,
    {
        let ghost prior = r.deep_view();
        r.push(xs[i].clone());
        proof {
            assert forall|k: int| 0 <= k < prior.len() + 1 implies r.deep_view()[k]
                == xs.deep_view().subrange(0, i + 1)[k] by {
                if k < i {
                    assert(r.deep_view()[k] == prior[k]);
                } else {
                    assert(r.deep_view()[k] == r@[k as int].deep_view());
                }
            }
            assert(r.deep_view() =~= xs.deep_view().subrange(0, i + 1));
        }
        i = i + 1;
    }
    proof {
        assert(xs.deep_view().subrange(0, xs.len() as int) =~= xs.deep_view());
    }
    r
}

/// A freshly allocated copy of a run of string pairs.
pub(crate) fn clone_pairs(xs: &Vec<(String, String)>) -> (r: Vec<(String, String)>)
    ensures
        r.deep_view() == xs.deep_view(),
{
    let mut r: Vec<(String, String)> = Vec::new();
    proof {
        assert(r.deep_view() =~~= xs.deep_view().subrange(0, 0));
    }
    let mut i: usize = 0;
    while i < xs.len()
        invariant
            i <= xs.len(),
            r.deep_view() == xs.deep_view().subrange(0, i as int),
        decreases xs.len() - i,
    {
        let ghost prior = r.deep_view();
        r.push((xs[i].0.clone(), xs[i].1.clone()));
        proof {
            assert forall|k: int| 0 <= k < prior.len() + 1 implies r.deep_view()[k]
                == xs.deep_view().subrange(0, i + 1)[k] by {
                if k < i {
                    assert(r.deep_view()[k] == prior[k]);
                } else {
                    assert(r.deep_view()[k] == r@[k as int].deep_view());
                    assert(xs.deep_view()[k] == xs@[k as int].deep_view());
                }
            }
            assert(r.deep_view() =~= xs.deep_view().subrange(0, i + 1));
        }
        i = i + 1;
    }
    proof {
        assert(xs.deep_view().subrange(0, xs.len() as int) =~= xs.deep_view());
    }
    r
}

/// `v` holds a string whose characters are `s`.
pub(crate) fn contains_str(v: &Vec<String>, s: &str) -> (r: bool)
    ensures
        r == v.deep_view().contains(s@),
{
    let mut i: usize = 0;
    while i < v.len()
        invariant
            i <= v.len(),
            forall|j: int| 0 <= j < i ==> v.deep_view()[j] != s@,
        decreases v.len() - i,
    {
        if str_eq(v[i].as_str(), s) {
            proof {
                assert(v.deep_view()[i as int] == s@);
            }
            return true;
        }
        i = i + 1;
    }
    false
}

} // verus!
