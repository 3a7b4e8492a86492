//! General properties of the parser and the renderer, stated over the
//! spec-level definitions and proved once for all inputs: which lines
//! set which flag, which header line each stored value comes from, and
//! the shape of the rendered summary.

use vstd::prelude::*;

use crate::parse::{
    fields_of, init_acc, line_step, report_lines, scan_lines, spec_parse, StatusAcc,
};
use crate::render::{flag_chars, short_id, spec_render};
use crate::StatusView;

verus! {

/// A header line carrying the given key: tag `#`, the key as second
/// field, and a third field to store.
pub open spec fn is_header_with_key(l: Seq<char>, key: Seq<char>) -> bool {
    let f = fields_of(l);
    f.len() >= 3 && f[0] == "#"@ && f[1] == key
}

/// The stored value of a header line: its third field.
pub open spec fn header_value(l: Seq<char>) -> Seq<char> {
    fields_of(l)[2]
}

/// The value of the last header line with the given key, if any.
pub open spec fn last_header_value(ls: Seq<Seq<char>>, key: Seq<char>) -> Option<Seq<char>>
    decreases ls.len(),
{
    if ls.len() == 0 {
        None
    } else {
        match last_header_value(ls.drop_first(), key) {
            Some(v) => Some(v),
            None => if is_header_with_key(ls[0], key) {
                Some(header_value(ls[0]))
            } else {
                None
            },
        }
    }
}

/// A divergence header whose ahead count is not the literal `+0`.
pub open spec fn line_sets_ahead(l: Seq<char>) -> bool {
    let f = fields_of(l);
    f.len() >= 4 && f[0] == "#"@ && f[1] == "branch.ab"@ && f[2] != "+0"@
}

/// A divergence header whose behind count is not the literal `-0`.
pub open spec fn line_sets_behind(l: Seq<char>) -> bool {
    let f = fields_of(l);
    f.len() >= 4 && f[0] == "#"@ && f[1] == "branch.ab"@ && f[3] != "-0"@
}

/// A changed entry whose change code has a staged-side character other
/// than `.`.
pub open spec fn line_sets_staged(l: Seq<char>) -> bool {
    let f = fields_of(l);
    (f[0] == "1"@ || f[0] == "2"@) && f.len() >= 2 && f[1].len() >= 2 && f[1][0] != '.'
}

/// A changed entry whose change code has a worktree-side character
/// other than `.`.
pub open spec fn line_sets_unstaged(l: Seq<char>) -> bool {
    let f = fields_of(l);
    (f[0] == "1"@ || f[0] == "2"@) && f.len() >= 2 && f[1].len() >= 2 && f[1][1] != '.'
}

/// An unmerged entry: any line tagged `u`.
pub open spec fn line_sets_unmerged(l: Seq<char>) -> bool {
    fields_of(l)[0] == "u"@
}

/// An untracked entry: any line tagged `?`.
pub open spec fn line_sets_untracked(l: Seq<char>) -> bool {
    fields_of(l)[0] == "?"@
}

/// An ignored entry: any line tagged `!`.
pub open spec fn line_sets_ignored(l: Seq<char>) -> bool {
    fields_of(l)[0] == "!"@
}

/// The recognized tags and header keys are pairwise distinct character
/// sequences.
proof fn lemma_tokens_distinct()
    ensures
        "#"@ != "1"@ && "#"@ != "2"@ && "#"@ != "u"@ && "#"@ != "?"@ && "#"@ != "!"@,
        "1"@ != "2"@ && "1"@ != "u"@ && "1"@ != "?"@ && "1"@ != "!"@,
        "2"@ != "u"@ && "2"@ != "?"@ && "2"@ != "!"@,
        "u"@ != "?"@ && "u"@ != "!"@,
        "?"@ != "!"@,
        "#"@.len() == 1 && "1"@.len() == 1 && "2"@.len() == 1 && "u"@.len() == 1,
        "?"@.len() == 1 && "!"@.len() == 1,
        "branch.oid"@ != "branch.head"@,
        "branch.oid"@ != "branch.upstream"@,
        "branch.oid"@ != "branch.ab"@,
        "branch.head"@ != "branch.upstream"@,
        "branch.head"@ != "branch.ab"@,
        "branch.upstream"@ != "branch.ab"@,
{
    reveal_strlit("#");
    reveal_strlit("1");
    reveal_strlit("2");
    reveal_strlit("u");
    reveal_strlit("?");
    reveal_strlit("!");
    reveal_strlit("branch.oid");
    reveal_strlit("branch.head");
    reveal_strlit("branch.upstream");
    reveal_strlit("branch.ab");
    assert("#"@[0] == '#' && "1"@[0] == '1' && "2"@[0] == '2');
    assert("u"@[0] == 'u' && "?"@[0] == '?' && "!"@[0] == '!');
    assert("branch.oid"@.len() == 10);
    assert("branch.head"@.len() == 11);
    assert("branch.upstream"@.len() == 15);
    assert("branch.ab"@.len() == 9);
}

/// One accepted line changes the accumulator in exactly the way its
/// classification says: each header field is overwritten only by a
/// header line with its key, and each flag is the old flag or-ed with
/// that line setting it.
pub proof fn lemma_line_step_effects(acc: StatusAcc, l: Seq<char>, a2: StatusAcc)
    requires
        line_step(acc, l) == Some(a2),
    ensures
        a2.oid == (if is_header_with_key(l, "branch.oid"@) {
            Some(header_value(l))
        } else {
            acc.oid
        }),
        a2.head == (if is_header_with_key(l, "branch.head"@) {
            Some(header_value(l))
        } else {
            acc.head
        }),
        a2.upstream == (if is_header_with_key(l, "branch.upstream"@) {
            Some(header_value(l))
        } else {
            acc.upstream
        }),
        a2.ahead == (acc.ahead || line_sets_ahead(l)),
        a2.behind == (acc.behind || line_sets_behind(l)),
        a2.staged == (acc.staged || line_sets_staged(l)),
        a2.unstaged == (acc.unstaged || line_sets_unstaged(l)),
        a2.unmerged == (acc.unmerged || line_sets_unmerged(l)),
        a2.untracked == (acc.untracked || line_sets_untracked(l)),
        a2.ignored == (acc.ignored || line_sets_ignored(l)),
{
    lemma_tokens_distinct();
}

/// Splitting a non-empty sequence of lines at the front splits an
/// existential over it into the head case and the tail case.
proof fn lemma_exists_split(ls: Seq<Seq<char>>, p: spec_fn(Seq<char>) -> bool)
    requires
        ls.len() > 0,
    ensures
        (exists|i: int| 0 <= i < ls.len() && p(#[trigger] ls[i])) <==> (p(ls[0]) || exists|i: int|
            0 <= i < ls.drop_first().len() && p(#[trigger] ls.drop_first()[i])),
{
    let rest = ls.drop_first();
    if exists|i: int| 0 <= i < rest.len() && p(#[trigger] rest[i]) {
        let i = choose|i: int| 0 <= i < rest.len() && p(#[trigger] rest[i]);
        assert(ls[i + 1] == rest[i]);
    }
    if exists|i: int| 0 <= i < ls.len() && p(#[trigger] ls[i]) {
        let i = choose|i: int| 0 <= i < ls.len() && p(#[trigger] ls[i]);
        if i > 0 {
            assert(rest[i - 1] == ls[i]);
        }
    }
}

/// A completed scan is characterized line by line: each stored header
/// value is the value of the last header line with its key (or what the
/// scan started from), and each flag is set exactly when the scan
/// started with it set or some line sets it.
pub proof fn lemma_scan_effects(ls: Seq<Seq<char>>, acc: StatusAcc, res: StatusAcc)
    requires
        scan_lines(ls, acc) == Some(res),
    ensures
        res.oid == (match last_header_value(ls, "branch.oid"@) {
            Some(v) => Some(v),
            None => acc.oid,
        }),
        res.head == (match last_header_value(ls, "branch.head"@) {
            Some(v) => Some(v),
            None => acc.head,
        }),
        res.upstream == (match last_header_value(ls, "branch.upstream"@) {
            Some(v) => Some(v),
            None => acc.upstream,
        }),
        res.ahead == (acc.ahead || exists|i: int|
            0 <= i < ls.len() && line_sets_ahead(#[trigger] ls[i])),
        res.behind == (acc.behind || exists|i: int|
            0 <= i < ls.len() && line_sets_behind(#[trigger] ls[i])),
        res.staged == (acc.staged || exists|i: int|
            0 <= i < ls.len() && line_sets_staged(#[trigger] ls[i])),
        res.unstaged == (acc.unstaged || exists|i: int|
            0 <= i < ls.len() && line_sets_unstaged(#[trigger] ls[i])),
        res.unmerged == (acc.unmerged || exists|i: int|
            0 <= i < ls.len() && line_sets_unmerged(#[trigger] ls[i])),
        res.untracked == (acc.untracked || exists|i: int|
            0 <= i < ls.len() && line_sets_untracked(#[trigger] ls[i])),
        res.ignored == (acc.ignored || exists|i: int|
            0 <= i < ls.len() && line_sets_ignored(#[trigger] ls[i])),
    decreases ls.len(),
{
    if ls.len() == 0 {
    } else {
        let a1 = line_step(acc, ls[0])->0;
        lemma_line_step_effects(acc, ls[0], a1);
        lemma_scan_effects(ls.drop_first(), a1, res);
        lemma_exists_split(ls, |l: Seq<char>| line_sets_ahead(l));
        lemma_exists_split(ls, |l: Seq<char>| line_sets_behind(l));
        lemma_exists_split(ls, |l: Seq<char>| line_sets_staged(l));
        lemma_exists_split(ls, |l: Seq<char>| line_sets_unstaged(l));
        lemma_exists_split(ls, |l: Seq<char>| line_sets_unmerged(l));
        lemma_exists_split(ls, |l: Seq<char>| line_sets_untracked(l));
        lemma_exists_split(ls, |l: Seq<char>| line_sets_ignored(l));
    }
}

/// What a successful parse returns, line by line: the object identifier
/// and upstream name come from the last header line with their key, the
/// branch name is withheld exactly when the last head header carries
/// the detached-head sentinel, each flag is set exactly when some line
/// sets it, and no merge state is ever inferred from the text.
pub proof fn lemma_parse_fields(input: Seq<char>, st: StatusView)
    requires
        spec_parse(input) == Some(st),
    ensures
        last_header_value(report_lines(input), "branch.oid"@) == Some(st.object_id),
        last_header_value(report_lines(input), "branch.head"@) is Some,
        st.branch_name == (if last_header_value(report_lines(input), "branch.head"@)->0
            == "(detached)"@ {
            None::<Seq<char>>
        } else {
            last_header_value(report_lines(input), "branch.head"@)
        }),
        st.upstream == last_header_value(report_lines(input), "branch.upstream"@),
        st.ahead == (exists|i: int|
            0 <= i < report_lines(input).len() && line_sets_ahead(
                #[trigger] report_lines(input)[i],
            )),
        st.behind == (exists|i: int|
            0 <= i < report_lines(input).len() && line_sets_behind(
                #[trigger] report_lines(input)[i],
            )),
        st.staged == (exists|i: int|
            0 <= i < report_lines(input).len() && line_sets_staged(
                #[trigger] report_lines(input)[i],
            )),
        st.unstaged == (exists|i: int|
            0 <= i < report_lines(input).len() && line_sets_unstaged(
                #[trigger] report_lines(input)[i],
            )),
        st.unmerged == (exists|i: int|
            0 <= i < report_lines(input).len() && line_sets_unmerged(
                #[trigger] report_lines(input)[i],
            )),
        st.untracked == (exists|i: int|
            0 <= i < report_lines(input).len() && line_sets_untracked(
                #[trigger] report_lines(input)[i],
            )),
        st.ignored == (exists|i: int|
            0 <= i < report_lines(input).len() && line_sets_ignored(
                #[trigger] report_lines(input)[i],
            )),
        st.merge_state is None,
{
    let ls = report_lines(input);
    let acc = scan_lines(ls, init_acc())->0;
    lemma_scan_effects(ls, init_acc(), acc);
}

/// A line that cannot set any flag: an empty line, or a header line
/// whose divergence counts, if it carries any, are both zero.
pub open spec fn quiet_line(l: Seq<char>) -> bool {
    let f = fields_of(l);
    ||| f[0].len() == 0
    ||| (f[0] == "#"@ && (f.len() < 2 || f[1] != "branch.ab"@ || (f.len() >= 4 && f[2] == "+0"@
        && f[3] == "-0"@)))
}

/// A well-formed report made only of blank lines and header lines (any
/// divergence header among them reporting zero both ways) parses to a
/// fully clean record, and its rendering carries no flags segment at
/// all.
pub proof fn lemma_headers_only_clean(input: Seq<char>, st: StatusView)
    requires
        spec_parse(input) == Some(st),
        forall|i: int| 0 <= i < report_lines(input).len() ==> quiet_line(
            #[trigger] report_lines(input)[i],
        ),
    ensures
        !st.ahead && !st.behind,
        !st.staged && !st.unstaged && !st.unmerged && !st.untracked && !st.ignored,
        spec_render(st) == "["@ + (match st.branch_name {
            Some(n) => n + " "@,
            None => Seq::<char>::empty(),
        }) + short_id(st.object_id) + "]"@,
{
    lemma_parse_fields(input, st);
    lemma_tokens_distinct();
    let ls = report_lines(input);
    assert forall|i: int| 0 <= i < ls.len() implies !line_sets_ahead(#[trigger] ls[i])
        && !line_sets_behind(ls[i]) && !line_sets_staged(ls[i]) && !line_sets_unstaged(ls[i])
        && !line_sets_unmerged(ls[i]) && !line_sets_untracked(ls[i]) && !line_sets_ignored(
        ls[i],
    ) by {
        assert(quiet_line(ls[i]));
    }
    assert(spec_render(st) =~= "["@ + (match st.branch_name {
        Some(n) => n + " "@,
        None => Seq::<char>::empty(),
    }) + short_id(st.object_id) + "]"@);
}

/// The commit identifier renders unabbreviated exactly for the sentinel
/// `(initial)`; any forty-character identifier renders as its first
/// seven characters.
pub proof fn lemma_short_id(oid: Seq<char>)
    ensures
        oid == "(initial)"@ ==> short_id(oid) == oid,
        oid.len() == 40 ==> short_id(oid) == oid.subrange(0, 7) && short_id(oid).len() == 7,
{
    reveal_strlit("(initial)");
}

/// The flag a character of the flags segment stands for.
pub open spec fn flag_set(st: StatusView, c: char) -> bool {
    ||| c == 'A' && st.ahead
    ||| c == 'B' && st.behind
    ||| c == '+' && st.staged
    ||| c == '*' && st.unstaged
    ||| c == '%' && st.unmerged
    ||| c == '?' && st.untracked
    ||| c == '!' && st.ignored
}

/// Filtering a single character keeps it exactly when the predicate
/// holds of it.
proof fn lemma_filter_singleton(c: char, p: spec_fn(char) -> bool, s: Seq<char>)
    requires
        s.len() == 1,
        s[0] == c,
    ensures
        s.filter(p) == (if p(c) {
            s
        } else {
            Seq::<char>::empty()
        }),
{
    reveal_with_fuel(Seq::<_>::filter, 2);
    assert(s.drop_last() =~= Seq::<char>::empty());
    assert(s.last() == c);
    if p(c) {
        assert(s.filter(p) =~= s);
    }
}

/// The flags segment is the fixed sequence `AB+*%?!` filtered to the
/// set flags: set flags appear in that order and are never reordered.
pub proof fn lemma_flag_order(st: StatusView)
    ensures
        flag_chars(st) == "AB+*%?!"@.filter(|c: char| flag_set(st, c)),
{
    reveal_strlit("AB+*%?!");
    reveal_strlit("A");
    reveal_strlit("B");
    reveal_strlit("+");
    reveal_strlit("*");
    reveal_strlit("%");
    reveal_strlit("?");
    reveal_strlit("!");
    let p = |c: char| flag_set(st, c);
    let full = "AB+*%?!"@;
    let fa = "A"@;
    let fb = "B"@;
    let fs = "+"@;
    let fu = "*"@;
    let fm = "%"@;
    let ft = "?"@;
    let fi = "!"@;
    assert(full =~= fa + fb + fs + fu + fm + ft + fi);
    Seq::filter_distributes_over_add(fa + fb + fs + fu + fm + ft, fi, p);
    Seq::filter_distributes_over_add(fa + fb + fs + fu + fm, ft, p);
    Seq::filter_distributes_over_add(fa + fb + fs + fu, fm, p);
    Seq::filter_distributes_over_add(fa + fb + fs, fu, p);
    Seq::filter_distributes_over_add(fa + fb, fs, p);
    Seq::filter_distributes_over_add(fa, fb, p);
    lemma_filter_singleton('A', p, fa);
    lemma_filter_singleton('B', p, fb);
    lemma_filter_singleton('+', p, fs);
    lemma_filter_singleton('*', p, fu);
    lemma_filter_singleton('%', p, fm);
    lemma_filter_singleton('?', p, ft);
    lemma_filter_singleton('!', p, fi);
    assert(flag_chars(st) =~= full.filter(p));
}

} // verus!
