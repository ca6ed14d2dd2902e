//! Verified text primitives: placeholder substitution, decimal rendering of
//! integers, splitting a host at its first colon, and (case-insensitive)
//! string comparison.
use vstd::prelude::*;

verus! {

/// `text` with every occurrence of `pat` replaced by `rep`, scanning left to
/// right without overlap. An empty pattern replaces nothing.
pub open spec fn replace_spec(text: Seq<char>, pat: Seq<char>, rep: Seq<char>) -> Seq<char>
    decreases text.len(),
{
    if pat.len() == 0 || text.len() < pat.len() {
        text
    } else if text.take(pat.len() as int) == pat {
        rep + replace_spec(text.skip(pat.len() as int), pat, rep)
    } else {
        seq![text[0]] + replace_spec(text.skip(1), pat, rep)
    }
}

proof fn lemma_replace_match(text: Seq<char>, pat: Seq<char>, rep: Seq<char>, i: int)
    requires
        0 < pat.len(),
        0 <= i,
        i + pat.len() <= text.len(),
        text.subrange(i, i + pat.len()) == pat,
    ensures
        replace_spec(text.skip(i), pat, rep) == rep + replace_spec(
            text.skip(i + pat.len()),
            pat,
            rep,
        ),
{
    let t = text.skip(i);
    assert(t.take(pat.len() as int) =~= text.subrange(i, i + pat.len()));
    assert(t.skip(pat.len() as int) =~= text.skip(i + pat.len()));
}

proof fn lemma_replace_no_match(text: Seq<char>, pat: Seq<char>, rep: Seq<char>, i: int)
    requires
        0 < pat.len(),
        0 <= i < text.len(),
        i + pat.len() <= text.len(),
        text.subrange(i, i + pat.len()) != pat,
    ensures
        replace_spec(text.skip(i), pat, rep) == seq![text[i]] + replace_spec(
            text.skip(i + 1),
            pat,
            rep,
        ),
{
    let t = text.skip(i);
    assert(t.take(pat.len() as int) =~= text.subrange(i, i + pat.len()));
    assert(t.skip(1) =~= text.skip(i + 1));
    assert(t[0] == text[i]);
}

/// Does `pat` occur in `text` starting at position `i`?
fn matches_at(text: &str, pat: &str, i: usize) -> (b: bool)
    requires
        i + pat@.len() <= text@.len(),
        text@.len() <= usize::MAX,
    ensures
        b == (text@.subrange(i as int, i + pat@.len()) == pat@),
{
    let m: usize = pat.unicode_len();
    let mut j: usize = 0;
    while j < m
        invariant
            i + m <= text@.len() <= usize::MAX,
            m == pat@.len(),
            j <= m,
            forall|k: int| 0 <= k < j ==> text@[i + k] == pat@[k],
        decreases m - j,
    {
        if text.get_char(i + j) != pat.get_char(j) {
            assert(text@.subrange(i as int, i + m) != pat@) by {
                assert(text@.subrange(i as int, i + m as int)[j as int] == text@[i + j]);
            }
            return false;
        }
        j += 1;
    }
    assert(text@.subrange(i as int, i + m) =~= pat@);
    true
}

/// Replace every occurrence of `pat` in `text` by `rep`, scanning left to
/// right without overlap. With an empty `pat` the text comes back unchanged.
pub fn replace_all(text: &str, pat: &str, rep: &str) -> (r: String)
    ensures
        r@ == replace_spec(text@, pat@, rep@),
{
    let n: usize = text.unicode_len();
    let m: usize = pat.unicode_len();
    if m == 0 {
        return String::from_str(text);
    }
    let mut out = String::new();
    let mut start: usize = 0;
    let mut i: usize = 0;
    proof {
        assert(text@.skip(0) =~= text@);
        assert(out@ + text@.subrange(0, 0) + replace_spec(text@, pat@, rep@) =~= replace_spec(
            text@,
            pat@,
            rep@,
        ));
    }
    if m <= n {
        while i <= n - m
            invariant
                n == text@.len(),
                m == pat@.len(),
                0 < m <= n,
                start <= i <= n,
                replace_spec(text@, pat@, rep@) == out@ + text@.subrange(
                    start as int,
                    i as int,
                ) + replace_spec(text@.skip(i as int), pat@, rep@),
            decreases n - i,
        {
            if matches_at(text, pat, i) {
                let piece = text.substring_char(start, i);
                out.append(piece);
                out.append(rep);
                proof {
                    lemma_replace_match(text@, pat@, rep@, i as int);
                    assert(out@ + text@.subrange((i + m) as int, (i + m) as int) + replace_spec(
                        text@.skip((i + m) as int),
                        pat@,
                        rep@,
                    ) =~= replace_spec(text@, pat@, rep@));
                }
                i = i + m;
                start = i;
            } else {
                proof {
                    lemma_replace_no_match(text@, pat@, rep@, i as int);
                    assert(out@ + text@.subrange(start as int, (i + 1) as int) + replace_spec(
                        text@.skip((i + 1) as int),
                        pat@,
                        rep@,
                    ) =~= replace_spec(text@, pat@, rep@));
                }
                i = i + 1;
            }
        }
    }
    let tail = text.substring_char(start, n);
    out.append(tail);
    proof {
        assert(replace_spec(text@.skip(i as int), pat@, rep@) == text@.skip(i as int));
        assert(text@.subrange(start as int, i as int) + text@.skip(i as int) =~= text@.subrange(
            start as int,
            n as int,
        ));
        assert(out@ =~= replace_spec(text@, pat@, rep@));
    }
    out
}

/// The decimal digit `d` as a character.
pub open spec fn digit_char(d: int) -> char {
    if d == 0 {
        '0'
    } else if d == 1 {
        '1'
    } else if d == 2 {
        '2'
    } else if d == 3 {
        '3'
    } else if d == 4 {
        '4'
    } else if d == 5 {
        '5'
    } else if d == 6 {
        '6'
    } else if d == 7 {
        '7'
    } else if d == 8 {
        '8'
    } else {
        '9'
    }
}

/// The decimal rendering of `n`, without sign or leading zeros (except for 0
/// itself).
pub open spec fn dec_spec(n: int) -> Seq<char>
    decreases n,
{
    if n < 10 {
        seq![digit_char(n)]
    } else {
        dec_spec(n / 10).push(digit_char(n % 10))
    }
}

fn digit_str(d: u32) -> (s: &'static str)
    requires
        d < 10,
    ensures
        s@ == seq![digit_char(d as int)],
{
    if d == 0 {
        let s = "0";
        proof {
            reveal_strlit("0");
            assert(s@ =~= seq![digit_char(d as int)]);
        }
        s
    } else if d == 1 {
        let s = "1";
        proof {
            reveal_strlit("1");
            assert(s@ =~= seq![digit_char(d as int)]);
        }
        s
    } else if d == 2 {
        let s = "2";
        proof {
            reveal_strlit("2");
            assert(s@ =~= seq![digit_char(d as int)]);
        }
        s
    } else if d == 3 {
        let s = "3";
        proof {
            reveal_strlit("3");
            assert(s@ =~= seq![digit_char(d as int)]);
        }
        s
    } else if d == 4 {
        let s = "4";
        proof {
            reveal_strlit("4");
            assert(s@ =~= seq![digit_char(d as int)]);
        }
        s
    } else if d == 5 {
        let s = "5";
        proof {
            reveal_strlit("5");
            assert(s@ =~= seq![digit_char(d as int)]);
        }
        s
    } else if d == 6 {
        let s = "6";
        proof {
            reveal_strlit("6");
            assert(s@ =~= seq![digit_char(d as int)]);
        }
        s
    } else if d == 7 {
        let s = "7";
        proof {
            reveal_strlit("7");
            assert(s@ =~= seq![digit_char(d as int)]);
        }
        s
    } else if d == 8 {
        let s = "8";
        proof {
            reveal_strlit("8");
            assert(s@ =~= seq![digit_char(d as int)]);
        }
        s
    } else {
        let s = "9";
        proof {
            reveal_strlit("9");
            assert(s@ =~= seq![digit_char(d as int)]);
        }
        s
    }
}

/// Render `n` in decimal.
pub fn u32_to_string(n: u32) -> (s: String)
    ensures
        s@ == dec_spec(n as int),
    decreases n,
{
    if n < 10 {
        let s = String::from_str(digit_str(n));
        s
    } else {
        let mut s = u32_to_string(n / 10);
        s.append(digit_str(n % 10));
        proof {
            assert(s@ =~= dec_spec((n / 10) as int).push(digit_char((n % 10) as int)));
        }
        s
    }
}

/// The index of the first `:` in `s`, or `s.len()` when there is none.
pub open spec fn colon_split(s: Seq<char>) -> int
    decreases s.len(),
{
    if s.len() == 0 {
        0
    } else if s[0] == ':' {
        0
    } else {
        1 + colon_split(s.drop_first())
    }
}

proof fn lemma_colon_split_at(s: Seq<char>, i: int)
    requires
        0 <= i <= s.len(),
        forall|k: int| 0 <= k < i ==> s[k] != ':',
        i == s.len() || s[i] == ':',
    ensures
        colon_split(s) == i,
    decreases i,
{
    if i == 0 {
    } else {
        let t = s.drop_first();
        assert forall|k: int| 0 <= k < i - 1 implies t[k] != ':' by {
            assert(t[k] == s[k + 1]);
        }
        assert(i - 1 == t.len() || t[i - 1] == ':');
        lemma_colon_split_at(t, i - 1);
    }
}

/// `colon_split` points at the first colon: everything before it is
/// colon-free, and it sits on a colon unless the string has none at all.
pub proof fn lemma_colon_split_props(s: Seq<char>)
    ensures
        0 <= colon_split(s) <= s.len(),
        forall|k: int| 0 <= k < colon_split(s) ==> s[k] != ':',
        colon_split(s) < s.len() ==> s[colon_split(s)] == ':',
    decreases s.len(),
{
    if s.len() == 0 {
    } else if s[0] == ':' {
    } else {
        let t = s.drop_first();
        lemma_colon_split_props(t);
        assert forall|k: int| 0 <= k < colon_split(s) implies s[k] != ':' by {
            if k > 0 {
                assert(s[k] == t[k - 1]);
            }
        }
        if colon_split(s) < s.len() {
            assert(s[colon_split(s)] == t[colon_split(s) - 1]);
        }
    }
}

/// The position of the first `:` in `s`, or the length of `s` when there is
/// none.
pub fn find_colon(s: &str) -> (i: usize)
    ensures
        i == colon_split(s@),
        i <= s@.len(),
{
    let n: usize = s.unicode_len();
    let mut i: usize = 0;
    while i < n
        invariant
            n == s@.len(),
            i <= n,
            forall|k: int| 0 <= k < i ==> s@[k] != ':',
        decreases n - i,
    {
        if s.get_char(i) == ':' {
            proof {
                lemma_colon_split_at(s@, i as int);
            }
            return i;
        }
        i += 1;
    }
    proof {
        lemma_colon_split_at(s@, n as int);
    }
    n
}

/// Exact equality of two strings.
pub fn str_eq(a: &str, b: &str) -> (r: bool)
    ensures
        r == (a@ == b@),
{
    let na: usize = a.unicode_len();
    let nb: usize = b.unicode_len();
    if na != nb {
        return false;
    }
    let mut i: usize = 0;
    while i < na
        invariant
            na == a@.len(),
            na == b@.len(),
            i <= na,
            forall|k: int| 0 <= k < i ==> a@[k] == b@[k],
        decreases na - i,
    {
        if a.get_char(i) != b.get_char(i) {
            return false;
        }
        i += 1;
    }
    assert(a@ =~= b@);
    true
}

/// The code point of `c`, with ASCII upper-case letters mapped to lower case.
pub open spec fn lower_code(c: char) -> int {
    if 65 <= c as u32 && c as u32 <= 90 {
        c as u32 + 32
    } else {
        c as u32 as int
    }
}

/// Equality of two character sequences up to ASCII case.
pub open spec fn ci_equal(a: Seq<char>, b: Seq<char>) -> bool {
    a.len() == b.len() && forall|i: int| 0 <= i < a.len() ==> lower_code(a[i]) == lower_code(b[i])
}

fn lower_code_x(c: char) -> (r: u32)
    ensures
        r as int == lower_code(c),
{
    let u: u32 = c as u32;
    if 65 <= u && u <= 90 {
        u + 32
    } else {
        u
    }
}

/// Compare two strings ignoring ASCII case.
pub fn eq_ignore_ascii_case(a: &str, b: &str) -> (r: bool)
    ensures
        r == ci_equal(a@, b@),
{
    let na: usize = a.unicode_len();
    let nb: usize = b.unicode_len();
    if na != nb {
        return false;
    }
    let mut i: usize = 0;
    while i < na
        invariant
            na == a@.len(),
            na == b@.len(),
            i <= na,
            forall|k: int| 0 <= k < i ==> lower_code(a@[k]) == lower_code(b@[k]),
        decreases na - i,
    {
        if lower_code_x(a.get_char(i)) != lower_code_x(b.get_char(i)) {
            return false;
        }
        i += 1;
    }
    true
}

} // verus!
