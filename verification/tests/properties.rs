use git_status_line::{MergeState, ParseError, Status};

const OID: &str = "# branch.oid 3845e7a3c3aadaaebb2d1b261bf07a9357d35a79\n";
const HEAD: &str = "# branch.head master\n";

fn report(extra: &str) -> String {
    let mut s = String::new();
    s.push_str(OID);
    s.push_str(HEAD);
    s.push_str(extra);
    s
}

#[test]
fn headers_only_is_clean_and_renders_without_flags() {
    let input = report("# branch.upstream origin/master\n# branch.ab +0 -0\n");
    let s = Status::new(&input).unwrap();
    assert!(!s.ahead && !s.behind);
    assert!(!s.staged && !s.unstaged && !s.unmerged && !s.untracked && !s.ignored);
    assert!(!s.is_dirty());
    assert_eq!(s.to_string(), "[master 3845e7a]");
}

#[test]
fn ahead_behind_are_independent() {
    let s = Status::new(&report("# branch.ab +1 -0\n")).unwrap();
    assert_eq!((s.ahead, s.behind), (true, false));
    let s = Status::new(&report("# branch.ab +0 -3\n")).unwrap();
    assert_eq!((s.ahead, s.behind), (false, true));
    let s = Status::new(&report("# branch.ab +0 -0\n")).unwrap();
    assert_eq!((s.ahead, s.behind), (false, false));
    let s = Status::new(&report("# branch.ab +2 -7\n")).unwrap();
    assert_eq!((s.ahead, s.behind), (true, true));
}

#[test]
fn unmerged_set_regardless_of_change_code() {
    let s = Status::new(&report("u .. N... 100644 100644 100644 100644 a b c d\n")).unwrap();
    assert!(s.unmerged);
    assert!(!s.staged && !s.unstaged);
    let s = Status::new(&report("u\n")).unwrap();
    assert!(s.unmerged);
}

#[test]
fn detached_head_has_no_branch_name() {
    let input = "\
# branch.oid 3845e7a3c3aadaaebb2d1b261bf07a9357d35a79
# branch.head (detached)
";
    let s = Status::new(input).unwrap();
    assert_eq!(s.branch_name, None);
    assert_eq!(s.to_string(), "[3845e7a]");
}

#[test]
fn later_header_overwrites_earlier() {
    let input = "\
# branch.oid 0000000000000000000000000000000000000000
# branch.oid 3845e7a3c3aadaaebb2d1b261bf07a9357d35a79
# branch.head other
# branch.head master
";
    let s = Status::new(input).unwrap();
    assert_eq!(s.object_id, "3845e7a3c3aadaaebb2d1b261bf07a9357d35a79");
    assert_eq!(s.branch_name, Some(String::from("master")));
}

#[test]
fn flag_order_is_fixed_for_partial_sets() {
    let mut s = Status::new(&report("# branch.ab +0 -4\n? foo\n")).unwrap();
    assert_eq!(s.to_string(), "[master 3845e7a B?]");
    s.staged = true;
    s.ignored = true;
    assert_eq!(s.to_string(), "[master 3845e7a B+?!]");
}

#[test]
fn round_trip_report_renders_summary() {
    let input = "\
# branch.oid 3845e7a3c3aadaaebb2d1b261bf07a9357d35a79
# branch.head master
# branch.upstream origin/master
# branch.ab +1 -1
1 D. N... 100644 000000 000000 1290f45e7ad7575848a436d8febbd6c4ba07f1f3 0000000000000000000000000000000000000000 README.md
1 .M N... 100644 100644 100644 5e8a8090976077ddf16252a560460a20dbbdd6a5 5e8a8090976077ddf16252a560460a20dbbdd6a5 gh-pages.sh
? foo.txt
! ignored.txt
";
    let s = Status::new(input).unwrap();
    assert!(s.ahead && s.behind && s.staged && s.unstaged && s.untracked && s.ignored);
    assert!(!s.unmerged);
    assert_eq!(s.to_string(), "[master 3845e7a AB+*?!]");
}

#[test]
fn rebase_annotation_renders() {
    let mut s = Status::new(&report("")).unwrap();
    s.set_merge_state(MergeState::Rebase);
    assert_eq!(s.to_string(), "[master 3845e7a (rebase)]");
}

#[test]
fn merge_state_never_parsed() {
    let s = Status::new(&report("? foo\n")).unwrap();
    assert_eq!(s.merge_state, None);
}

#[test]
fn is_dirty_tracks_every_flag() {
    let clean = Status::new(&report("")).unwrap();
    assert!(!clean.is_dirty());
    assert!(Status::new(&report("# branch.ab +1 -0\n")).unwrap().is_dirty());
    assert!(Status::new(&report("# branch.ab +0 -1\n")).unwrap().is_dirty());
    assert!(Status::new(&report("1 M. x\n")).unwrap().is_dirty());
    assert!(Status::new(&report("1 .M x\n")).unwrap().is_dirty());
    assert!(Status::new(&report("u\n")).unwrap().is_dirty());
    assert!(Status::new(&report("? foo\n")).unwrap().is_dirty());
    assert!(Status::new(&report("! foo\n")).unwrap().is_dirty());
}

#[test]
fn unknown_header_key_is_malformed() {
    let r = Status::new(&report("# branch.unknown x\n"));
    assert_eq!(r, Err(ParseError::MalformedReport));
}

#[test]
fn missing_header_value_is_malformed() {
    assert_eq!(Status::new("# branch.oid\n"), Err(ParseError::MalformedReport));
    assert_eq!(Status::new("#\n"), Err(ParseError::MalformedReport));
}

#[test]
fn missing_divergence_count_is_malformed() {
    let r = Status::new(&report("# branch.ab +1\n"));
    assert_eq!(r, Err(ParseError::MalformedReport));
}

#[test]
fn short_change_code_is_malformed() {
    assert_eq!(Status::new(&report("1 M\n")), Err(ParseError::MalformedReport));
    assert_eq!(Status::new(&report("1\n")), Err(ParseError::MalformedReport));
    assert_eq!(Status::new(&report("2 .\n")), Err(ParseError::MalformedReport));
}

#[test]
fn missing_branch_identity_is_malformed() {
    assert_eq!(Status::new(""), Err(ParseError::MalformedReport));
    assert_eq!(Status::new(HEAD), Err(ParseError::MalformedReport));
    assert_eq!(Status::new(OID), Err(ParseError::MalformedReport));
}

#[test]
fn blank_lines_are_ignored() {
    let input = "\
# branch.oid 3845e7a3c3aadaaebb2d1b261bf07a9357d35a79

# branch.head master

";
    let s = Status::new(input).unwrap();
    assert_eq!(s.branch_name, Some(String::from("master")));
    assert!(!s.is_dirty());
}

#[test]
fn carriage_returns_are_stripped() {
    let input = "# branch.oid 3845e7a3c3aadaaebb2d1b261bf07a9357d35a79\r\n# branch.head master\r\n";
    let s = Status::new(input).unwrap();
    assert_eq!(s.object_id, "3845e7a3c3aadaaebb2d1b261bf07a9357d35a79");
    assert_eq!(s.branch_name, Some(String::from("master")));
}
