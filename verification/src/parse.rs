//! The parser: one forward pass over the report's lines, classifying
//! each line by its leading tag and accumulating header values and
//! flags. `spec_parse` is the mathematical definition; `Status::new`
//! is the executable parser proved equal to it.

use vstd::prelude::*;

use crate::text::{spec_split, spec_strip_cr, split_on, str_eq, strip_cr, lemma_split_nonempty};
use crate::{ParseError, Status, StatusView};

verus! {

/// The accumulator a scan of the report builds up: the latest value of
/// each recognized header, and the flags set so far.
pub struct StatusAcc {
    pub oid: Option<Seq<char>>,
    pub head: Option<Seq<char>>,
    pub upstream: Option<Seq<char>>,
    pub ahead: bool,
    pub behind: bool,
    pub staged: bool,
    pub unstaged: bool,
    pub unmerged: bool,
    pub untracked: bool,
    pub ignored: bool,
}

/// The accumulator before any line is read: no headers, no flags.
pub open spec fn init_acc() -> StatusAcc {
    StatusAcc {
        oid: None,
        head: None,
        upstream: None,
        ahead: false,
        behind: false,
        staged: false,
        unstaged: false,
        unmerged: false,
        untracked: false,
        ignored: false,
    }
}

/// The space-separated fields of one line.
pub open spec fn fields_of(line: Seq<char>) -> Seq<Seq<char>> {
    spec_split(line, ' ')
}

/// Effect of a `#` header line on the accumulator. The second field is
/// the key; `branch.oid`, `branch.head` and `branch.upstream` store the
/// third field verbatim (a later line with the same key overwrites an
/// earlier one), and `branch.ab` sets `ahead` when its third field is
/// not the literal `+0` and `behind` when its fourth is not `-0`.
/// A missing field or an unrecognized key is malformed.
pub open spec fn header_step(acc: StatusAcc, f: Seq<Seq<char>>) -> Option<StatusAcc> {
    if f.len() < 3 {
        None
    } else if f[1] == "branch.oid"@ {
        Some(StatusAcc { oid: Some(f[2]), ..acc })
    } else if f[1] == "branch.head"@ {
        Some(StatusAcc { head: Some(f[2]), ..acc })
    } else if f[1] == "branch.upstream"@ {
        Some(StatusAcc { upstream: Some(f[2]), ..acc })
    } else if f[1] == "branch.ab"@ {
        if f.len() < 4 {
            None
        } else {
            Some(
                StatusAcc {
                    ahead: acc.ahead || f[2] != "+0"@,
                    behind: acc.behind || f[3] != "-0"@,
                    ..acc
                },
            )
        }
    } else {
        None
    }
}

/// Effect of a changed-entry line (tag `1` or `2`) on the accumulator.
/// The second field is a two-character change code `XY`: `X` other than
/// `.` sets `staged`, `Y` other than `.` sets `unstaged`. A missing or
/// short code is malformed.
pub open spec fn change_step(acc: StatusAcc, f: Seq<Seq<char>>) -> Option<StatusAcc> {
    if f.len() < 2 || f[1].len() < 2 {
        None
    } else {
        Some(
            StatusAcc {
                staged: acc.staged || f[1][0] != '.',
                unstaged: acc.unstaged || f[1][1] != '.',
                ..acc
            },
        )
    }
}

/// Effect of one line on the accumulator, classified by its leading
/// space-delimited tag; `None` marks a malformed line. A line with an
/// empty tag (an empty line among them) has no effect.
pub open spec fn line_step(acc: StatusAcc, line: Seq<char>) -> Option<StatusAcc> {
    let f = fields_of(line);
    let tag = f[0];
    if tag.len() == 0 {
        Some(acc)
    } else if tag == "#"@ {
        header_step(acc, f)
    } else if tag == "1"@ || tag == "2"@ {
        change_step(acc, f)
    } else if tag == "u"@ {
        Some(StatusAcc { unmerged: true, ..acc })
    } else if tag == "?"@ {
        Some(StatusAcc { untracked: true, ..acc })
    } else if tag == "!"@ {
        Some(StatusAcc { ignored: true, ..acc })
    } else {
        None
    }
}

/// Left-to-right scan of the lines; `None` as soon as any line is
/// malformed.
pub open spec fn scan_lines(ls: Seq<Seq<char>>, acc: StatusAcc) -> Option<StatusAcc>
    decreases ls.len(),
{
    if ls.len() == 0 {
        Some(acc)
    } else {
        match line_step(acc, ls[0]) {
            Some(a) => scan_lines(ls.drop_first(), a),
            None => None,
        }
    }
}

/// The lines of the report: the input split at every newline, each
/// line's single trailing carriage return removed.
pub open spec fn report_lines(input: Seq<char>) -> Seq<Seq<char>> {
    spec_split(input, '\n').map_values(|l: Seq<char>| spec_strip_cr(l))
}

/// The record a completed scan yields: the branch name is withheld when
/// the head marker is the detached-head sentinel, and `merge_state` is
/// never set by parsing.
pub open spec fn finalize(acc: StatusAcc) -> StatusView {
    StatusView {
        object_id: acc.oid->0,
        branch_name: if acc.head->0 == "(detached)"@ {
            None
        } else {
            Some(acc.head->0)
        },
        upstream: acc.upstream,
        ahead: acc.ahead,
        behind: acc.behind,
        staged: acc.staged,
        unstaged: acc.unstaged,
        unmerged: acc.unmerged,
        untracked: acc.untracked,
        ignored: acc.ignored,
        merge_state: None,
    }
}

/// What parsing a report returns: the finalized record when every line
/// scans and both the `branch.oid` and `branch.head` headers were seen,
/// and nothing otherwise.
pub open spec fn spec_parse(input: Seq<char>) -> Option<StatusView> {
    match scan_lines(report_lines(input), init_acc()) {
        Some(acc) => if acc.oid is Some && acc.head is Some {
            Some(finalize(acc))
        } else {
            None
        },
        None => None,
    }
}

/// Executable twin of [`StatusAcc`].
struct Builder {
    oid: Option<String>,
    head: Option<String>,
    upstream: Option<String>,
    ahead: bool,
    behind: bool,
    staged: bool,
    unstaged: bool,
    unmerged: bool,
    untracked: bool,
    ignored: bool,
}

impl View for Builder {
    type V = StatusAcc;

    closed spec fn view(&self) -> StatusAcc {
        StatusAcc {
            oid: match self.oid {
                Some(ref s) => Some(s@),
                None => None,
            },
            head: match self.head {
                Some(ref s) => Some(s@),
                None => None,
            },
            upstream: match self.upstream {
                Some(ref s) => Some(s@),
                None => None,
            },
            ahead: self.ahead,
            behind: self.behind,
            staged: self.staged,
            unstaged: self.unstaged,
            unmerged: self.unmerged,
            untracked: self.untracked,
            ignored: self.ignored,
        }
    }
}

/// Apply one line to the builder; `false` reports a malformed line, in
/// which case the builder is untouched.
fn apply_line(b: &mut Builder, line: &str) -> (ok: bool)
    ensures
        match line_step(old(b)@, line@) {
            Some(a) => ok && final(b)@ == a,
            None => !ok && *final(b) == *old(b),
        },
{
    proof {
        lemma_split_nonempty(line@, ' ');
    }
    let fields = split_on(line, ' ');
    proof {
        assert(fields.deep_view().len() == fields@.len());
        assert(fields.deep_view()[0] == fields@[0]@);
    }
    let tag = fields[0].as_str();
    if tag.is_empty() {
        return true;
    }
    if str_eq(tag, "#") {
        if fields.len() < 3 {
            return false;
        }
        proof {
            assert(fields.deep_view()[1] == fields@[1]@);
            assert(fields.deep_view()[2] == fields@[2]@);
        }
        let key = fields[1].as_str();
        if str_eq(key, "branch.oid") {
            b.oid = Some(fields[2].clone());
            return true;
        }
        if str_eq(key, "branch.head") {
            b.head = Some(fields[2].clone());
            return true;
        }
        if str_eq(key, "branch.upstream") {
            b.upstream = Some(fields[2].clone());
            return true;
        }
        if str_eq(key, "branch.ab") {
            if fields.len() < 4 {
                return false;
            }
            proof {
                assert(fields.deep_view()[3] == fields@[3]@);
            }
            if !str_eq(fields[2].as_str(), "+0") {
                b.ahead = true;
            }
            if !str_eq(fields[3].as_str(), "-0") {
                b.behind = true;
            }
            return true;
        }
        return false;
    }
    if str_eq(tag, "1") || str_eq(tag, "2") {
        if fields.len() < 2 {
            return false;
        }
        proof {
            assert(fields.deep_view()[1] == fields@[1]@);
        }
        let code = fields[1].as_str();
        if code.unicode_len() < 2 {
            return false;
        }
        if code.get_char(0) != '.' {
            b.staged = true;
        }
        if code.get_char(1) != '.' {
            b.unstaged = true;
        }
        return true;
    }
    if str_eq(tag, "u") {
        b.unmerged = true;
        return true;
    }
    if str_eq(tag, "?") {
        b.untracked = true;
        return true;
    }
    if str_eq(tag, "!") {
        b.ignored = true;
        return true;
    }
    false
}

impl Status {
    /// Parse a machine-readable status report. Returns the structured
    /// record exactly when [`spec_parse`] accepts the input, and
    /// [`ParseError::MalformedReport`] exactly when it does not.
    pub fn new(input: &str) -> (r: Result<Status, ParseError>)
        ensures
            match r {
                Ok(st) => spec_parse(input@) == Some(st@),
                Err(e) => spec_parse(input@) is None && e == ParseError::MalformedReport,
            },
    {
        let ghost ls = report_lines(input@);
        let lines = split_on(input, '\n');
        proof {
            assert(ls.len() == lines@.len());
        }
        let n = lines.len();
        let mut b = Builder {
            oid: None,
            head: None,
            upstream: None,
            ahead: false,
            behind: false,
            staged: false,
            unstaged: false,
            unmerged: false,
            untracked: false,
            ignored: false,
        };
        proof {
            assert(b@ == init_acc());
            assert(ls.subrange(0, n as int) =~= ls);
        }
        let mut i: usize = 0;
        while i < n
            invariant
                n == lines@.len(),
                n == ls.len(),
                i <= n,
                lines.deep_view() == spec_split(input@, '\n'),
                ls == report_lines(input@),
                scan_lines(ls, init_acc()) == scan_lines(ls.subrange(i as int, n as int), b@),
            decreases n - i,
        {
            let line = strip_cr(lines[i].as_str());
            proof {
                assert(lines.deep_view()[i as int] == lines@[i as int]@);
                assert(line@ == ls[i as int]);
            }
            let ghost before = b@;
            let ok = apply_line(&mut b, line);
            proof {
                let rest = ls.subrange(i as int, n as int);
                assert(rest[0] == ls[i as int]);
                assert(rest.drop_first() =~= ls.subrange(i as int + 1, n as int));
                assert(scan_lines(rest, before) == match line_step(before, ls[i as int]) {
                    Some(a) => scan_lines(rest.drop_first(), a),
                    None => None,
                });
            }
            if !ok {
                return Err(ParseError::MalformedReport);
            }
            i = i + 1;
        }
        proof {
            assert(ls.subrange(n as int, n as int) =~= Seq::<Seq<char>>::empty());
            assert(scan_lines(ls, init_acc()) == Some(b@));
        }
        let ghost acc = b@;
        let Builder { oid, head, upstream, ahead, behind, staged, unstaged, unmerged, untracked, ignored } = b;
        let object_id = match oid {
            Some(s) => s,
            None => {
                return Err(ParseError::MalformedReport);
            },
        };
        let head = match head {
            Some(s) => s,
            None => {
                return Err(ParseError::MalformedReport);
            },
        };
        let branch_name = if str_eq(head.as_str(), "(detached)") {
            None
        } else {
            Some(head)
        };
        let st = Status {
            object_id,
            branch_name,
            upstream,
            ahead,
            behind,
            staged,
            unstaged,
            unmerged,
            untracked,
            ignored,
            merge_state: None,
        };
        proof {
            assert(st@ == finalize(acc));
        }
        Ok(st)
    }
}

} // verus!
