//! Small string helpers shared by the library: decimal rendering of
//! integers, equality and prefix tests on string slices.

use vstd::prelude::*;

verus! {

/// The character for one decimal digit.
pub open spec fn digit_char(d: nat) -> char {
    if d == 0 {
        '0'
    } else if d == 1 {
        '1'
    } else if d == 2 {
        '2'
    } else if d == 3 {
        '3'
    } else if d == 4 {
        '4'
    } else if d == 5 {
        '5'
    } else if d == 6 {
        '6'
    } else if d == 7 {
        '7'
    } else if d == 8 {
        '8'
    } else {
        '9'
    }
}

/// The decimal rendering of a natural number, most significant digit first.
pub open spec fn dec_digits(n: nat) -> Seq<char>
    decreases n,
{
    if n < 10 {
        seq![digit_char(n)]
    } else {
        dec_digits(n / 10) + seq![digit_char(n % 10)]
    }
}

fn digit_str(d: u64) -> (r: &'static str)
    requires
        d < 10,
    ensures
        r@ == seq![digit_char(d as nat)],
{
    let r: &'static str = if d == 0 {
        "0"
    } else if d == 1 {
        "1"
    } else if d == 2 {
        "2"
    } else if d == 3 {
        "3"
    } else if d == 4 {
        "4"
    } else if d == 5 {
        "5"
    } else if d == 6 {
        "6"
    } else if d == 7 {
        "7"
    } else if d == 8 {
        "8"
    } else {
        "9"
    };
    proof {
        reveal_strlit("0");
        reveal_strlit("1");
        reveal_strlit("2");
        reveal_strlit("3");
        reveal_strlit("4");
        reveal_strlit("5");
        reveal_strlit("6");
        reveal_strlit("7");
        reveal_strlit("8");
        reveal_strlit("9");
        assert(r@ =~= seq![digit_char(d as nat)]);
    }
    r
}

/// Render a number in decimal.
pub fn u64_to_string(n: u64) -> (r: String)
    ensures
        r@ == dec_digits(n as nat),
    decreases n,
{
    if n < 10 {
        digit_str(n).to_owned()
    } else {
        proof {
            assert(n / 10 < n && n % 10 < 10) by (nonlinear_arith)
                requires n >= 10;
        }
        let mut prefix = u64_to_string(n / 10);
        prefix.append(digit_str(n % 10));
        proof {
            assert(prefix@ =~= dec_digits(n as nat));
        }
        prefix
    }
}

/// Whether `p` is a prefix of `s`.
pub open spec fn spec_starts_with(s: Seq<char>, p: Seq<char>) -> bool {
    p.len() <= s.len() && s.subrange(0, p.len() as int) == p
}

/// Character-for-character equality of two string slices.
pub fn str_eq(a: &str, b: &str) -> (r: bool)
    ensures
        r == (a@ == b@),
{
    let x = a.to_owned();
    let y = b.to_owned();
    x == y
}

/// Whether `s` starts with the prefix `p`.
pub fn str_starts_with(s: &str, p: &str) -> (r: bool)
    ensures
        r == spec_starts_with(s@, p@),
{
    let sl = s.unicode_len();
    let pl = p.unicode_len();
    if pl > sl {
        false
    } else {
        str_eq(s.substring_char(0, pl), p)
    }
}

/// The rest of `s` after the prefix `p`, or `None` when `p` is no prefix.
pub fn strip_prefix(s: &str, p: &str) -> (r: Option<String>)
    ensures
        match r {
            Some(rest) => spec_starts_with(s@, p@) && rest@ == s@.subrange(p@.len() as int, s@.len() as int),
            None => !spec_starts_with(s@, p@),
        },
{
    if str_starts_with(s, p) {
        let sl = s.unicode_len();
        let pl = p.unicode_len();
        Some(s.substring_char(pl, sl).to_owned())
    } else {
        None
    }
}

/// `s` with every repetition of the leading prefix `p` removed.
pub open spec fn spec_trim_start_matches(s: Seq<char>, p: Seq<char>) -> Seq<char>
    decreases s.len(),
{
    if p.len() == 0 || !spec_starts_with(s, p) {
        s
    } else if s.len() == p.len() {
        Seq::empty()
    } else {
        spec_trim_start_matches(s.subrange(p.len() as int, s.len() as int), p)
    }
}

/// Remove every repetition of the leading prefix `p` from `s`.
pub fn trim_start_matches(s: &str, p: &str) -> (r: String)
    ensures
        r@ == spec_trim_start_matches(s@, p@),
    decreases s@.len(),
{
    if p.unicode_len() == 0 {
        return s.to_owned();
    }
    match strip_prefix(s, p) {
        None => s.to_owned(),
        Some(rest) => {
            if rest.as_str().unicode_len() == 0 {
                proof {
                    assert(s@.len() == p@.len());
                }
                rest
            } else {
                trim_start_matches(rest.as_str(), p)
            }
        }
    }
}

/// Copy a byte string; snapshots and journal replies are handed out as
/// copies.
pub fn copy_bytes(src: &Vec<u8>) -> (r: Vec<u8>)
    ensures
        r@ == src@,
{
    let n = src.len();
    let mut out: Vec<u8> = Vec::new();
    let mut i: usize = 0;
    while i < n
        invariant
            i <= n,
            n == src@.len(),
            out@ == src@.take(i as int),
        decreases n - i,
    {
        out.push(src[i]);
        proof {
            assert(out@ =~= src@.take(i as int + 1));
        }
        i += 1;
    }
    proof {
        assert(src@.take(n as int) =~= src@);
    }
    out
}

/// The first position of `c` in `s`, if any.
pub open spec fn spec_find_char(s: Seq<char>, c: char) -> Option<int>
    decreases s.len(),
{
    if s.len() == 0 {
        None
    } else if s[0] == c {
        Some(0)
    } else {
        match spec_find_char(s.drop_first(), c) {
            Some(i) => Some(i + 1),
            None => None,
        }
    }
}

proof fn lemma_find_char_at(s: Seq<char>, c: char, i: int)
    requires
        0 <= i < s.len(),
        s[i] == c,
        forall|k: int| 0 <= k < i ==> s[k] != c,
    ensures
        spec_find_char(s, c) == Some(i),
    decreases i,
{
    if i > 0 {
        assert(forall|k: int| 0 <= k < i - 1 ==> s.drop_first()[k] != c);
        lemma_find_char_at(s.drop_first(), c, i - 1);
    }
}

proof fn lemma_find_char_none(s: Seq<char>, c: char)
    requires
        forall|k: int| 0 <= k < s.len() ==> s[k] != c,
    ensures
        spec_find_char(s, c) is None,
    decreases s.len(),
{
    if s.len() > 0 {
        assert(forall|k: int| 0 <= k < s.len() - 1 ==> s.drop_first()[k] != c);
        lemma_find_char_none(s.drop_first(), c);
    }
}

/// The first position of `c` in `s`.
pub fn find_char(s: &str, c: char) -> (r: Option<usize>)
    ensures
        match r {
            Some(i) => spec_find_char(s@, c) == Some(i as int) && i < s@.len(),
            None => spec_find_char(s@, c) is None,
        },
{
    let n = s.unicode_len();
    let mut i: usize = 0;
    while i < n
        invariant
            i <= n,
            n == s@.len(),
            forall|k: int| 0 <= k < i ==> s@[k] != c,
        decreases n - i,
    {
        if s.get_char(i) == c {
            proof {
                lemma_find_char_at(s@, c, i as int);
            }
            return Some(i);
        }
        i += 1;
    }
    proof {
        lemma_find_char_none(s@, c);
    }
    None
}

/// Split `s` at the first occurrence of `c`: the part before it and the part
/// after it, or `None` when `c` does not occur.
pub fn split_once(s: &str, c: char) -> (r: Option<(String, String)>)
    ensures
        match r {
            Some(parts) => spec_find_char(s@, c) matches Some(i) && parts.0@ == s@.subrange(0, i)
                && parts.1@ == s@.subrange(i + 1, s@.len() as int),
            None => spec_find_char(s@, c) is None,
        },
{
    match find_char(s, c) {
        Some(i) => {
            let n = s.unicode_len();
            let before = s.substring_char(0, i).to_owned();
            let after = s.substring_char(i + 1, n).to_owned();
            Some((before, after))
        },
        None => None,
    }
}

} // verus!
