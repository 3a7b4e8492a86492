//! Character-level text helpers: splitting a sequence at a separator,
//! stripping a trailing carriage return, and comparing strings, each
//! with a spec-level definition that the executable code is proved
//! against.

use vstd::prelude::*;

verus! {

/// Index of the first occurrence of `sep` in `s`, or `s.len()` when
/// `sep` does not occur.
pub open spec fn sep_pos(s: Seq<char>, sep: char) -> nat
    decreases s.len(),
{
    if s.len() == 0 {
        0
    } else if s[0] == sep {
        0
    } else {
        1 + sep_pos(s.subrange(1, s.len() as int), sep)
    }
}

/// `sep_pos` is in bounds, nothing before it is `sep`, and it points at
/// `sep` whenever it is in range.
pub proof fn lemma_sep_pos(s: Seq<char>, sep: char)
    ensures
        sep_pos(s, sep) <= s.len(),
        forall|k: int| 0 <= k < sep_pos(s, sep) ==> s[k] != sep,
        sep_pos(s, sep) < s.len() ==> s[sep_pos(s, sep) as int] == sep,
    decreases s.len(),
{
    if s.len() == 0 {
    } else if s[0] == sep {
    } else {
        let t = s.subrange(1, s.len() as int);
        lemma_sep_pos(t, sep);
        assert forall|k: int| 0 <= k < sep_pos(s, sep) implies s[k] != sep by {
            if k >= 1 {
                assert(s[k] == t[k - 1]);
            }
        }
        if sep_pos(s, sep) < s.len() {
            assert(s[sep_pos(s, sep) as int] == t[sep_pos(t, sep) as int]);
        }
    }
}

/// Any position with no `sep` before it that either is the end or holds
/// `sep` is `sep_pos`.
pub proof fn lemma_sep_pos_is(s: Seq<char>, sep: char, m: int)
    requires
        0 <= m <= s.len(),
        forall|k: int| 0 <= k < m ==> s[k] != sep,
        m == s.len() || s[m] == sep,
    ensures
        sep_pos(s, sep) == m,
{
    lemma_sep_pos(s, sep);
    let p = sep_pos(s, sep) as int;
    if m < p {
        assert(s[m] != sep);
    } else if p < m {
        assert(s[p] != sep);
    }
}

/// Split `s` at every occurrence of `sep`. The result always has at
/// least one piece; `n` separators give `n + 1` pieces, empty pieces
/// included.
pub open spec fn spec_split(s: Seq<char>, sep: char) -> Seq<Seq<char>>
    decreases s.len(),
{
    let p = sep_pos(s, sep) as int;
    if p >= s.len() {
        seq![s]
    } else {
        seq![s.subrange(0, p)] + spec_split(s.subrange(p + 1, s.len() as int), sep)
    }
}

/// A split is never empty.
pub proof fn lemma_split_nonempty(s: Seq<char>, sep: char)
    ensures
        spec_split(s, sep).len() >= 1,
{
}

/// `l` with a single trailing carriage return removed.
pub open spec fn spec_strip_cr(l: Seq<char>) -> Seq<char> {
    if l.len() > 0 && l[l.len() - 1] == '\r' {
        l.subrange(0, l.len() - 1)
    } else {
        l
    }
}

/// Character-for-character string equality.
pub fn str_eq(a: &str, b: &str) -> (r: bool)
    ensures
        r == (a@ == b@),
{
    let na = a.unicode_len();
    let nb = b.unicode_len();
    if na != nb {
        return false;
    }
    let mut i: usize = 0;
    while i < na
        invariant
            i <= na,
            na == a@.len(),
            na == b@.len(),
            forall|k: int| 0 <= k < i ==> a@[k] == b@[k],
        decreases na - i,
    {
        if a.get_char(i) != b.get_char(i) {
            return false;
        }
        i = i + 1;
    }
    proof {
        assert(a@ =~= b@);
    }
    true
}

/// `s` with a single trailing carriage return removed.
pub fn strip_cr(s: &str) -> (r: &str)
    ensures
        r@ == spec_strip_cr(s@),
{
    let n = s.unicode_len();
    if n > 0 && s.get_char(n - 1) == '\r' {
        s.substring_char(0, n - 1)
    } else {
        s
    }
}

/// The pieces of `s` between occurrences of `sep`.
pub fn split_on(s: &str, sep: char) -> (parts: Vec<String>)
    ensures
        parts.deep_view() == spec_split(s@, sep),
{
    let n = s.unicode_len();
    let mut parts: Vec<String> = Vec::new();
    let mut start: usize = 0;
    proof {
        assert(s@.subrange(0, n as int) =~= s@);
        assert(parts.deep_view() + spec_split(s@, sep) =~= spec_split(s@, sep));
    }
    loop
        invariant_except_break
            spec_split(s@, sep) == parts.deep_view() + spec_split(
                s@.subrange(start as int, n as int),
                sep,
            ),
        invariant
            n == s@.len(),
            start <= n,
        ensures
            parts.deep_view() == spec_split(s@, sep),
        decreases n - start,
    {
        let mut j = start;
        loop
            invariant
                n == s@.len(),
                start <= j <= n,
                forall|k: int| start <= k < j ==> s@[k] != sep,
            ensures
                start <= j <= n,
                forall|k: int| start <= k < j ==> s@[k] != sep,
                j == n || s@[j as int] == sep,
            decreases n - j,
        {
            if j == n {
                break;
            }
            if s.get_char(j) == sep {
                break;
            }
            j = j + 1;
        }
        let ghost rem = s@.subrange(start as int, n as int);
        proof {
            assert forall|k: int| 0 <= k < j - start implies rem[k] != sep by {
                assert(rem[k] == s@[start + k]);
            }
            if (j as int) - (start as int) < rem.len() {
                assert(rem[j - start] == s@[j as int]);
            }
            lemma_sep_pos_is(rem, sep, j - start);
        }
        let piece = s.substring_char(start, j);
        let ghost before = parts.deep_view();
        parts.push(String::from_str(piece));
        proof {
            assert(parts.deep_view() =~= before + seq![piece@]);
        }
        if j == n {
            proof {
                assert(piece@ =~= rem);
                assert(spec_split(rem, sep) == seq![rem]);
                assert(before + seq![rem] =~= parts.deep_view());
            }
            break;
        }
        proof {
            let p = (j - start) as int;
            assert(rem.subrange(0, p) =~= piece@);
            assert(rem.subrange(p + 1, rem.len() as int) =~= s@.subrange(
                j + 1,
                n as int,
            ));
            assert(spec_split(rem, sep) == seq![piece@] + spec_split(
                s@.subrange(j + 1, n as int),
                sep,
            ));
            assert(before + (seq![piece@] + spec_split(s@.subrange(j + 1, n as int), sep))
                =~= parts.deep_view() + spec_split(s@.subrange(j + 1, n as int), sep));
        }
        start = j + 1;
    }
    parts
}

} // verus!
