//! Verified text helpers: ASCII case folding, case-insensitive comparison
//! and containment, decimal rendering of indices, and a lexicographic order
//! on strings.

use vstd::prelude::*;

verus! {

/// ASCII lower-casing of a single character: `'A'..='Z'` map to
/// `'a'..='z'`, every other character is unchanged.
pub open spec fn spec_lower_char(c: char) -> char {
    if 65 <= c as int && c as int <= 90 {
        (c as int + 32) as char
    } else {
        c
    }
}

/// ASCII lower-casing of a character sequence.
pub open spec fn spec_lower(s: Seq<char>) -> Seq<char> {
    s.map_values(|c: char| spec_lower_char(c))
}

/// Two character sequences are equal up to ASCII case.
pub open spec fn spec_eq_ignore_case(a: Seq<char>, b: Seq<char>) -> bool {
    spec_lower(a) == spec_lower(b)
}

/// `needle` occurs as a contiguous subsequence of `hay`.
pub open spec fn spec_contains_seq(hay: Seq<char>, needle: Seq<char>) -> bool {
    exists|i: int|
        0 <= i && i + needle.len() <= hay.len() && #[trigger] hay.subrange(i, i + needle.len())
            == needle
}

/// Lexicographic order on character sequences by code point.
pub open spec fn spec_lex_leq(a: Seq<char>, b: Seq<char>) -> bool
    decreases a.len(),
{
    if a.len() == 0 {
        true
    } else if b.len() == 0 {
        false
    } else if a[0] != b[0] {
        (a[0] as int) < (b[0] as int)
    } else {
        spec_lex_leq(a.drop_first(), b.drop_first())
    }
}

/// The decimal digit character for a value below ten.
pub open spec fn spec_digit_char(d: int) -> char
    recommends
        0 <= d < 10,
{
    (48 + d) as char
}

/// The decimal rendering of a non-negative integer, most significant digit
/// first.
pub open spec fn spec_nat_digits(n: int) -> Seq<char>
    recommends
        n >= 0,
    decreases n,
{
    if n < 10 {
        seq![spec_digit_char(n)]
    } else {
        spec_nat_digits(n / 10).push(spec_digit_char(n % 10))
    }
}

/// Executable ASCII lower-casing of one character.
pub fn lower_char(c: char) -> (r: char)
    ensures
        r == spec_lower_char(c),
{
    match c {
        'A' => 'a',
        'B' => 'b',
        'C' => 'c',
        'D' => 'd',
        'E' => 'e',
        'F' => 'f',
        'G' => 'g',
        'H' => 'h',
        'I' => 'i',
        'J' => 'j',
        'K' => 'k',
        'L' => 'l',
        'M' => 'm',
        'N' => 'n',
        'O' => 'o',
        'P' => 'p',
        'Q' => 'q',
        'R' => 'r',
        'S' => 's',
        'T' => 't',
        'U' => 'u',
        'V' => 'v',
        'W' => 'w',
        'X' => 'x',
        'Y' => 'y',
        'Z' => 'z',
        _ => c,
    }
}

/// Exact string equality by characters.
pub fn eq_str(a: &str, b: &str) -> (r: bool)
    ensures
        r == (a@ == b@),
{
    let al = a.unicode_len();
    let bl = b.unicode_len();
    if al != bl {
        return false;
    }
    let mut i: usize = 0;
    while i < al
        invariant
            al == a@.len(),
            al == b@.len(),
            i <= al,
            forall|k: int| 0 <= k < i ==> a@[k] == b@[k],
        decreases al - i,
    {
        if a.get_char(i) != b.get_char(i) {
            return false;
        }
        i += 1;
    }
    assert(a@ =~= b@);
    true
}

/// Case-insensitive (ASCII) string equality.
pub fn eq_ignore_case(a: &str, b: &str) -> (r: bool)
    ensures
        r == spec_eq_ignore_case(a@, b@),
{
    let al = a.unicode_len();
    let bl = b.unicode_len();
    if al != bl {
        assert(spec_lower(a@).len() != spec_lower(b@).len());
        return false;
    }
    let mut i: usize = 0;
    while i < al
        invariant
            al == a@.len(),
            al == b@.len(),
            i <= al,
            forall|k: int| 0 <= k < i ==> spec_lower_char(a@[k]) == spec_lower_char(b@[k]),
        decreases al - i,
    {
        if lower_char(a.get_char(i)) != lower_char(b.get_char(i)) {
            assert(spec_lower(a@)[i as int] != spec_lower(b@)[i as int]);
            return false;
        }
        i += 1;
    }
    assert(spec_lower(a@) =~= spec_lower(b@));
    true
}

/// Case-insensitive (ASCII) substring containment: whether the lowered
/// `needle` occurs inside the lowered `hay`.
pub fn contains_ignore_case(hay: &str, needle: &str) -> (r: bool)
    ensures
        r == spec_contains_seq(spec_lower(hay@), spec_lower(needle@)),
{
    let hl = hay.unicode_len();
    let nl = needle.unicode_len();
    if nl > hl {
        return false;
    }
    let mut i: usize = 0;
    loop
        invariant
            hl == hay@.len(),
            nl == needle@.len(),
            nl <= hl,
            i <= hl - nl + 1,
            forall|k: int|
                0 <= k < i ==> #[trigger] spec_lower(hay@).subrange(k, k + nl as int)
                    != spec_lower(needle@),
        decreases hl - nl + 1 - i,
    {
        if i > hl - nl {
            return false;
        }
        let mut j: usize = 0;
        let mut mismatch = false;
        while j < nl
            invariant
                hl == hay@.len(),
                nl == needle@.len(),
                i + nl <= hl,
                j <= nl,
                !mismatch ==> forall|m: int|
                    0 <= m < j ==> spec_lower_char(hay@[i + m]) == spec_lower_char(needle@[m]),
                mismatch ==> spec_lower(hay@).subrange(i as int, i + nl as int) != spec_lower(
                    needle@,
                ),
            decreases nl - j,
        {
            if lower_char(hay.get_char(i + j)) != lower_char(needle.get_char(j)) {
                assert(spec_lower(hay@).subrange(i as int, i + nl as int)[j as int]
                    == spec_lower_char(hay@[i + j]));
                assert(spec_lower(needle@)[j as int] == spec_lower_char(needle@[j as int]));
                mismatch = true;
            }
            j += 1;
        }
        if !mismatch {
            assert(spec_lower(hay@).subrange(i as int, i + nl as int) =~= spec_lower(needle@)) by {
                assert(forall|m: int|
                    0 <= m < nl ==> #[trigger] spec_lower(hay@).subrange(i as int, i + nl as int)[m]
                        == spec_lower_char(hay@[i + m]));
            }
            return true;
        }
        proof {
            if nl == 0 {
                assert(spec_lower(hay@).subrange(i as int, i as int) =~= spec_lower(needle@));
            }
        }
        i += 1;
    }
}

/// Case-insensitive (ASCII) prefix test against the first `k` characters of
/// `pat`, where `k` is three or the whole of `pat` when shorter.
pub open spec fn spec_prefix3_len(pat: Seq<char>) -> int {
    if pat.len() < 3 {
        pat.len() as int
    } else {
        3
    }
}

/// Whether the lowered `name` starts with the lowered three-character
/// prefix of `pat`.
pub open spec fn spec_starts_with_prefix3(name: Seq<char>, pat: Seq<char>) -> bool {
    let k = spec_prefix3_len(pat);
    name.len() >= k && spec_lower(name).subrange(0, k) == spec_lower(pat).subrange(0, k)
}

/// Executable test of [`spec_starts_with_prefix3`].
pub fn starts_with_prefix3(name: &str, pat: &str) -> (r: bool)
    ensures
        r == spec_starts_with_prefix3(name@, pat@),
{
    let pl = pat.unicode_len();
    let k: usize = if pl < 3 {
        pl
    } else {
        3
    };
    let nl = name.unicode_len();
    if nl < k {
        return false;
    }
    let mut j: usize = 0;
    while j < k
        invariant
            nl == name@.len(),
            pl == pat@.len(),
            k == spec_prefix3_len(pat@),
            k <= nl,
            k <= pl,
            j <= k,
            forall|m: int| 0 <= m < j ==> spec_lower_char(name@[m]) == spec_lower_char(pat@[m]),
        decreases k - j,
    {
        if lower_char(name.get_char(j)) != lower_char(pat.get_char(j)) {
            assert(spec_lower(name@).subrange(0, k as int)[j as int] != spec_lower(pat@).subrange(
                0,
                k as int,
            )[j as int]);
            return false;
        }
        j += 1;
    }
    assert(spec_lower(name@).subrange(0, k as int) =~= spec_lower(pat@).subrange(0, k as int));
    true
}

/// The single-character string for a decimal digit.
fn digit_str(d: usize) -> (r: &'static str)
    requires
        d < 10,
    ensures
        r@ =~= seq![spec_digit_char(d as int)],
{
    proof {
        reveal_strlit("0");
        reveal_strlit("1");
        reveal_strlit("2");
        reveal_strlit("3");
        reveal_strlit("4");
        reveal_strlit("5");
        reveal_strlit("6");
        reveal_strlit("7");
        reveal_strlit("8");
        reveal_strlit("9");
    }
    match d {
        0 => "0",
        1 => "1",
        2 => "2",
        3 => "3",
        4 => "4",
        5 => "5",
        6 => "6",
        7 => "7",
        8 => "8",
        _ => "9",
    }
}

/// The decimal rendering of an index.
pub fn usize_to_string(n: usize) -> (s: String)
    ensures
        s@ == spec_nat_digits(n as int),
    decreases n,
{
    if n < 10 {
        String::from_str(digit_str(n))
    } else {
        assert(n / 10 < n && n / 10 >= 1);
        let mut s = usize_to_string(n / 10);
        s.append(digit_str(n % 10));
        assert(s@ =~= spec_nat_digits(n as int / 10).push(spec_digit_char(n as int % 10)));
        s
    }
}

/// Executable lexicographic order test on strings.
pub fn str_lex_leq(a: &str, b: &str) -> (r: bool)
    ensures
        r == spec_lex_leq(a@, b@),
{
    let al = a.unicode_len();
    let bl = b.unicode_len();
    let mut i: usize = 0;
    proof {
        assert(a@.skip(0) =~= a@);
        assert(b@.skip(0) =~= b@);
    }
    loop
        invariant
            al == a@.len(),
            bl == b@.len(),
            i <= al,
            i <= bl,
            spec_lex_leq(a@, b@) == spec_lex_leq(a@.skip(i as int), b@.skip(i as int)),
        decreases al - i,
    {
        if i == al {
            assert(spec_lex_leq(a@.skip(i as int), b@.skip(i as int)));
            return true;
        }
        if i == bl {
            assert(!spec_lex_leq(a@.skip(i as int), b@.skip(i as int)));
            return false;
        }
        let ca = a.get_char(i);
        let cb = b.get_char(i);
        proof {
            assert(a@.skip(i as int)[0] == a@[i as int]);
            assert(b@.skip(i as int)[0] == b@[i as int]);
        }
        if ca != cb {
            let r = (ca as u32) < (cb as u32);
            assert(spec_lex_leq(a@.skip(i as int), b@.skip(i as int)) == r);
            return r;
        }
        proof {
            assert(a@.skip(i as int).drop_first() =~= a@.skip(i as int + 1));
            assert(b@.skip(i as int).drop_first() =~= b@.skip(i as int + 1));
        }
        i += 1;
    }
}

/// Executable lexicographic order test on the ASCII-lowered views of two
/// strings.
pub fn str_lex_leq_lower(a: &str, b: &str) -> (r: bool)
    ensures
        r == spec_lex_leq(spec_lower(a@), spec_lower(b@)),
{
    let al = a.unicode_len();
    let bl = b.unicode_len();
    let ghost la = spec_lower(a@);
    let ghost lb = spec_lower(b@);
    let mut i: usize = 0;
    proof {
        assert(la.skip(0) =~= la);
        assert(lb.skip(0) =~= lb);
    }
    loop
        invariant
            al == a@.len(),
            bl == b@.len(),
            la == spec_lower(a@),
            lb == spec_lower(b@),
            i <= al,
            i <= bl,
            spec_lex_leq(la, lb) == spec_lex_leq(la.skip(i as int), lb.skip(i as int)),
        decreases al - i,
    {
        if i == al {
            assert(spec_lex_leq(la.skip(i as int), lb.skip(i as int)));
            return true;
        }
        if i == bl {
            assert(!spec_lex_leq(la.skip(i as int), lb.skip(i as int)));
            return false;
        }
        let ca = lower_char(a.get_char(i));
        let cb = lower_char(b.get_char(i));
        proof {
            assert(la.skip(i as int)[0] == la[i as int]);
            assert(lb.skip(i as int)[0] == lb[i as int]);
            assert(la[i as int] == spec_lower_char(a@[i as int]));
            assert(lb[i as int] == spec_lower_char(b@[i as int]));
        }
        if ca != cb {
            let r = (ca as u32) < (cb as u32);
            assert(spec_lex_leq(la.skip(i as int), lb.skip(i as int)) == r);
            return r;
        }
        proof {
            assert(la.skip(i as int).drop_first() =~= la.skip(i as int + 1));
            assert(lb.skip(i as int).drop_first() =~= lb.skip(i as int + 1));
        }
        i += 1;
    }
}

/// The lexicographic order is total: of any two strings, one is less than
/// or equal to the other.
pub proof fn lemma_lex_leq_total(a: Seq<char>, b: Seq<char>)
    ensures
        spec_lex_leq(a, b) || spec_lex_leq(b, a),
    decreases a.len(),
{
    if a.len() == 0 || b.len() == 0 {
    } else if a[0] != b[0] {
    } else {
        lemma_lex_leq_total(a.drop_first(), b.drop_first());
    }
}

/// The lexicographic order is antisymmetric: mutual order is equality.
pub proof fn lemma_lex_leq_antisym(a: Seq<char>, b: Seq<char>)
    requires
        spec_lex_leq(a, b),
        spec_lex_leq(b, a),
    ensures
        a == b,
    decreases a.len(),
{
    if a.len() == 0 {
        assert(b.len() == 0);
        assert(a =~= b);
    } else {
        assert(b.len() > 0);
        assert(a[0] == b[0]);
        lemma_lex_leq_antisym(a.drop_first(), b.drop_first());
        assert forall|i: int| 0 <= i < a.len() implies a[i] == b[i] by {
            if i > 0 {
                assert(a.drop_first()[i - 1] == b.drop_first()[i - 1]);
            }
        }
        assert(a =~= b);
    }
}

/// The lexicographic order is transitive.
pub proof fn lemma_lex_leq_trans(a: Seq<char>, b: Seq<char>, c: Seq<char>)
    requires
        spec_lex_leq(a, b),
        spec_lex_leq(b, c),
    ensures
        spec_lex_leq(a, c),
    decreases a.len(),
{
    if a.len() == 0 || b.len() == 0 || c.len() == 0 {
    } else if a[0] == b[0] && b[0] == c[0] {
        lemma_lex_leq_trans(a.drop_first(), b.drop_first(), c.drop_first());
    }
}

} // verus!
