//! Operations on strings, stated over their characters.

use vstd::prelude::*;
use vstd::string::{StrSliceExecFns, StringExecFns};

verus! {

/// The one-character string `"/"`.
pub open spec fn slash() -> Seq<char> {
    seq!['/']
}

/// `a` followed by `b`, as a new string.
pub fn chain(a: &str, b: &str) -> (s: String)
    ensures
        s@ == a@ + b@,
{
    String::from_str(a).concat(b)
}

/// `dir`, a slash, and `name`.
pub fn join(dir: &str, name: &str) -> (s: String)
    ensures
        s@ == dir@ + slash() + name@,
{
    proof {
        reveal_strlit("/");
        assert("/"@ =~= slash());
    }
    String::from_str(dir).concat("/").concat(name)
}

/// The characters of a string, in order.
pub fn chars_of(s: &str) -> (v: Vec<char>)
    ensures
        v@ == s@,
{
    let mut v: Vec<char> = Vec::new();
    for c in it: s.chars()
        invariant
            v@ == it.seq().take(it.index() as int),
            it.seq() == s@,
    {
        v.push(c);
        assert(it.seq().take(it.index() + 1) =~= it.seq().take(it.index() as int).push(c));
    }
    assert(v@ =~= s@);
    v
}

/// `s` ends with `pat`.
pub open spec fn ends_with_seq(s: Seq<char>, pat: Seq<char>) -> bool {
    pat.len() <= s.len() && s.subrange(s.len() - pat.len(), s.len() as int) == pat
}

/// `s` without every occurrence of `pat` at its end: a `pat` that is not
/// empty is taken off for as long as what is left still ends with it.
pub open spec fn trimmed(s: Seq<char>, pat: Seq<char>) -> Seq<char>
    decreases s.len(),
{
    if pat.len() > 0 && ends_with_seq(s, pat) {
        trimmed(s.take(s.len() - pat.len()), pat)
    } else {
        s
    }
}

/// Whether the first `len` characters of `s` end with `pat`.
fn prefix_ends_with(s: &Vec<char>, len: usize, pat: &Vec<char>) -> (b: bool)
    requires
        len <= s.len(),
    ensures
        b == ends_with_seq(s@.take(len as int), pat@),
{
    if pat.len() > len {
        return false;
    }
    let start = len - pat.len();
    let mut i: usize = 0;
    while i < pat.len()
        invariant
            i <= pat.len(),
            start + pat.len() == len,
            len <= s.len(),
            forall|j: int| 0 <= j < i ==> s@[start + j] == pat@[j],
        decreases pat.len() - i,
    {
        if s[start + i] != pat[i] {
            assert(s@.take(len as int).subrange(len - pat.len(), len as int)[i as int] == s@[start + i]);
            return false;
        }
        i = i + 1;
    }
    assert(s@.take(len as int).subrange(len - pat.len(), len as int) =~= pat@);
    true
}

/// Whether `s` ends with `pat`.
pub fn ends_with(s: &str, pat: &str) -> (b: bool)
    ensures
        b == ends_with_seq(s@, pat@),
{
    let sv = chars_of(s);
    let pv = chars_of(pat);
    assert(sv@.take(sv@.len() as int) =~= sv@);
    prefix_ends_with(&sv, sv.len(), &pv)
}

/// `s` with every `pat` at its end taken off.
pub fn trim_end_matches(s: &str, pat: &str) -> (r: String)
    ensures
        r@ == trimmed(s@, pat@),
{
    let sv = chars_of(s);
    let pv = chars_of(pat);
    let mut len: usize = sv.len();
    assert(sv@.take(len as int) =~= sv@);
    while pv.len() > 0 && prefix_ends_with(&sv, len, &pv)
        invariant
            len <= sv.len(),
            sv@ == s@,
            pv@ == pat@,
            trimmed(s@, pat@) == trimmed(sv@.take(len as int), pat@),
        decreases len,
    {
        assert(sv@.take(len as int).take(len - pv.len()) =~= sv@.take(len - pv.len()));
        len = len - pv.len();
    }
    assert(s@.subrange(0, len as int) =~= sv@.take(len as int));
    s.substring_char(0, len).to_owned()
}

/// The character of a decimal digit.
pub open spec fn digit(d: nat) -> char {
    if d == 0 {
        '0'
    } else if d == 1 {
        '1'
    } else if d == 2 {
        '2'
    } else if d == 3 {
        '3'
    } else if d == 4 {
        '4'
    } else if d == 5 {
        '5'
    } else if d == 6 {
        '6'
    } else if d == 7 {
        '7'
    } else if d == 8 {
        '8'
    } else {
        '9'
    }
}

/// A number in decimal, without leading zeros.
pub open spec fn decimal(n: nat) -> Seq<char>
    decreases n,
{
    if n < 10 {
        seq![digit(n)]
    } else {
        decimal(n / 10) + seq![digit(n % 10)]
    }
}

fn digit_str(d: u64) -> (s: &'static str)
    requires
        d < 10,
    ensures
        s@ == seq![digit(d as nat)],
{
    proof {
        reveal_strlit("0");
        reveal_strlit("1");
        reveal_strlit("2");
        reveal_strlit("3");
        reveal_strlit("4");
        reveal_strlit("5");
        reveal_strlit("6");
        reveal_strlit("7");
        reveal_strlit("8");
        reveal_strlit("9");
    }
    let s = if d == 0 {
        "0"
    } else if d == 1 {
        "1"
    } else if d == 2 {
        "2"
    } else if d == 3 {
        "3"
    } else if d == 4 {
        "4"
    } else if d == 5 {
        "5"
    } else if d == 6 {
        "6"
    } else if d == 7 {
        "7"
    } else if d == 8 {
        "8"
    } else {
        "9"
    };
    assert(s@ =~= seq![digit(d as nat)]);
    s
}

/// `n` written in decimal.
pub fn to_decimal(n: u64) -> (s: String)
    ensures
        s@ == decimal(n as nat),
    decreases n,
{
    if n < 10 {
        digit_str(n).to_owned()
    } else {
        to_decimal(n / 10).concat(digit_str(n % 10))
    }
}

} // verus!
