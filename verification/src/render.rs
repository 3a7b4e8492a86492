//! The renderer: a [`Status`](crate::Status) becomes one bracketed
//! summary line. `spec_render` is the mathematical definition;
//! `Status::to_string` is the executable renderer proved equal to it.

use vstd::prelude::*;

use crate::text::str_eq;
use crate::{spec_dirty, MergeState, Status, StatusView};

verus! {

/// The identifier shown for the commit: the sentinel `(initial)` stays
/// whole, any other identifier is abbreviated to its first seven
/// characters.
pub open spec fn short_id(oid: Seq<char>) -> Seq<char> {
    if oid == "(initial)"@ {
        oid
    } else {
        oid.subrange(0, 7)
    }
}

/// The merge annotation: ` (merge)` or ` (rebase)` when a merge state
/// is set, nothing otherwise.
pub open spec fn merge_note(m: Option<MergeState>) -> Seq<char> {
    match m {
        Some(MergeState::Merge) => " (merge)"@,
        Some(MergeState::Rebase) => " (rebase)"@,
        None => Seq::<char>::empty(),
    }
}

/// The flag characters, each present exactly when its flag is set, in
/// the fixed order `A B + * % ? !`.
pub open spec fn flag_chars(st: StatusView) -> Seq<char> {
    (if st.ahead {
        "A"@
    } else {
        Seq::<char>::empty()
    }) + (if st.behind {
        "B"@
    } else {
        Seq::<char>::empty()
    }) + (if st.staged {
        "+"@
    } else {
        Seq::<char>::empty()
    }) + (if st.unstaged {
        "*"@
    } else {
        Seq::<char>::empty()
    }) + (if st.unmerged {
        "%"@
    } else {
        Seq::<char>::empty()
    }) + (if st.untracked {
        "?"@
    } else {
        Seq::<char>::empty()
    }) + (if st.ignored {
        "!"@
    } else {
        Seq::<char>::empty()
    })
}

/// The one-line summary: brackets around the branch name (omitted when
/// the head is detached), the short identifier, the merge annotation,
/// and — only when some flag is set — a space and the flag characters.
pub open spec fn spec_render(st: StatusView) -> Seq<char> {
    "["@ + (match st.branch_name {
        Some(n) => n + " "@,
        None => Seq::<char>::empty(),
    }) + short_id(st.object_id) + merge_note(st.merge_state) + (if spec_dirty(st) {
        " "@ + flag_chars(st)
    } else {
        Seq::<char>::empty()
    }) + "]"@
}

impl Status {
    /// The flag characters of this record, in the fixed order.
    fn flag_string(&self) -> (r: String)
        ensures
            r@ == flag_chars(self@),
    {
        let ghost st = self@;
        let mut fl = String::new();
        if self.ahead {
            fl.append("A");
        }
        proof {
            assert(fl@ =~= (if st.ahead {
                "A"@
            } else {
                Seq::<char>::empty()
            }));
        }
        let ghost f1 = fl@;
        if self.behind {
            fl.append("B");
        }
        proof {
            assert(fl@ =~= f1 + (if st.behind {
                "B"@
            } else {
                Seq::<char>::empty()
            }));
        }
        let ghost f2 = fl@;
        if self.staged {
            fl.append("+");
        }
        proof {
            assert(fl@ =~= f2 + (if st.staged {
                "+"@
            } else {
                Seq::<char>::empty()
            }));
        }
        let ghost f3 = fl@;
        if self.unstaged {
            fl.append("*");
        }
        proof {
            assert(fl@ =~= f3 + (if st.unstaged {
                "*"@
            } else {
                Seq::<char>::empty()
            }));
        }
        let ghost f4 = fl@;
        if self.unmerged {
            fl.append("%");
        }
        proof {
            assert(fl@ =~= f4 + (if st.unmerged {
                "%"@
            } else {
                Seq::<char>::empty()
            }));
        }
        let ghost f5 = fl@;
        if self.untracked {
            fl.append("?");
        }
        proof {
            assert(fl@ =~= f5 + (if st.untracked {
                "?"@
            } else {
                Seq::<char>::empty()
            }));
        }
        let ghost f6 = fl@;
        if self.ignored {
            fl.append("!");
        }
        proof {
            assert(fl@ =~= f6 + (if st.ignored {
                "!"@
            } else {
                Seq::<char>::empty()
            }));
        }
        fl
    }

    /// Render the one-line summary. An `object_id` other than the
    /// sentinel `(initial)` must carry at least the seven characters
    /// the abbreviation shows.
    pub fn to_string(&self) -> (r: String)
        requires
            self.object_id@ == "(initial)"@ || self.object_id@.len() >= 7,
        ensures
            r@ == spec_render(self@),
    {
        let ghost st = self@;
        let mut out = String::new();
        out.append("[");
        match &self.branch_name {
            Some(name) => {
                out.append(name.as_str());
                out.append(" ");
            },
            None => {},
        }
        proof {
            assert(out@ =~= "["@ + (match st.branch_name {
                Some(n) => n + " "@,
                None => Seq::<char>::empty(),
            }));
        }
        let ghost o1 = out@;
        if str_eq(self.object_id.as_str(), "(initial)") {
            out.append(self.object_id.as_str());
        } else {
            let prefix = self.object_id.as_str().substring_char(0, 7);
            out.append(prefix);
        }
        proof {
            assert(out@ =~= o1 + short_id(st.object_id));
        }
        let ghost o2 = out@;
        match &self.merge_state {
            Some(MergeState::Merge) => out.append(" (merge)"),
            Some(MergeState::Rebase) => out.append(" (rebase)"),
            None => {},
        }
        proof {
            assert(out@ =~= o2 + merge_note(st.merge_state));
        }
        let ghost o3 = out@;
        if self.is_dirty() {
            out.append(" ");
            let fl = self.flag_string();
            out.append(fl.as_str());
        }
        proof {
            assert(out@ =~= o3 + (if spec_dirty(st) {
                " "@ + flag_chars(st)
            } else {
                Seq::<char>::empty()
            }));
        }
        out.append("]");
        proof {
            assert(out@ =~= spec_render(st));
        }
        out
    }
}

} // verus!
