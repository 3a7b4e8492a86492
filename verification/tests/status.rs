use git_status_line::{MergeState, ParseError, Status};

#[test]
fn new_clean() {
    let input = "\
# branch.oid 3845e7a3c3aadaaebb2d1b261bf07a9357d35a79
# branch.head master
";
    assert_eq!(
        Status::new(input).unwrap(),
        Status {
            object_id: String::from("3845e7a3c3aadaaebb2d1b261bf07a9357d35a79"),
            branch_name: Some(String::from("master")),
            upstream: None,
            ahead: false,
            behind: false,
            staged: false,
            unstaged: false,
            unmerged: false,
            untracked: false,
            ignored: false,
            merge_state: None,
        }
    );
}

#[test]
fn new_clean_upstream() {
    let input = "\
# branch.oid 3845e7a3c3aadaaebb2d1b261bf07a9357d35a79
# branch.head master
# branch.upstream origin/master
# branch.ab +1 -1
";
    assert_eq!(
        Status::new(input).unwrap(),
        Status {
            object_id: String::from("3845e7a3c3aadaaebb2d1b261bf07a9357d35a79"),
            branch_name: Some(String::from("master")),
            upstream: Some(String::from("origin/master")),
            ahead: true,
            behind: true,
            staged: false,
            unstaged: false,
            unmerged: false,
            untracked: false,
            ignored: false,
            merge_state: None,
        }
    );
}

#[test]
fn new_staged_only() {
    let input = "\
# branch.oid 3845e7a3c3aadaaebb2d1b261bf07a9357d35a79
# branch.head master
1 M. N... 100644 100644 100644 1290f45e7ad7575848a436d8febbd6c4ba07f1f3 311c77295c5b6056f4599c2b8d0a019d4c76746a README.md
";
    let s = Status::new(input).unwrap();
    assert_eq!((s.staged, s.unstaged, s.unmerged), (true, false, false));
}

#[test]
fn new_unstaged_only() {
    let input = "\
# branch.oid 3845e7a3c3aadaaebb2d1b261bf07a9357d35a79
# branch.head master
1 .M N... 100644 100644 100644 1290f45e7ad7575848a436d8febbd6c4ba07f1f3 1290f45e7ad7575848a436d8febbd6c4ba07f1f3 README.md
";
    let s = Status::new(input).unwrap();
    assert_eq!((s.staged, s.unstaged, s.unmerged), (false, true, false));
}

#[test]
fn new_both_staged_and_unstaged() {
    let input = "\
# branch.oid 3845e7a3c3aadaaebb2d1b261bf07a9357d35a79
# branch.head master
1 MM N... 100644 100644 100644 1290f45e7ad7575848a436d8febbd6c4ba07f1f3 311c77295c5b6056f4599c2b8d0a019d4c76746a README.md
";
    let s = Status::new(input).unwrap();
    assert_eq!((s.staged, s.unstaged, s.unmerged), (true, true, false));
}

#[test]
fn new_deleted() {
    let input = "\
# branch.oid 3845e7a3c3aadaaebb2d1b261bf07a9357d35a79
# branch.head master
1 D. N... 100644 000000 000000 1290f45e7ad7575848a436d8febbd6c4ba07f1f3 0000000000000000000000000000000000000000 README.md
";
    let s = Status::new(input).unwrap();
    assert_eq!((s.staged, s.unstaged, s.unmerged), (true, false, false));
}

#[test]
fn new_renamed() {
    let input = "\
# branch.oid 3845e7a3c3aadaaebb2d1b261bf07a9357d35a79
# branch.head master
2 R. N... 100644 100644 100644 1290f45e7ad7575848a436d8febbd6c4ba07f1f3 1290f45e7ad7575848a436d8febbd6c4ba07f1f3 R100 README\tREADME.md
";
    let s = Status::new(input).unwrap();
    assert_eq!((s.staged, s.unstaged, s.unmerged), (true, false, false));
}

#[test]
fn new_unmerged() {
    let input = "\
# branch.oid 3845e7a3c3aadaaebb2d1b261bf07a9357d35a79
# branch.head master
u UU N... 100644 100644 100644 100644 8fb20c5f0b7da31f56f74f0a98e1fadb13e4c2a0 801dd97d4dace6780f9eca5a99dbee77d6e05a95 cbf6eb8db76897842f3b77d1d2b95dbd422c180d README.md
";
    let s = Status::new(input).unwrap();
    assert_eq!((s.staged, s.unstaged, s.unmerged), (false, false, true));
}

#[test]
fn new_untracked() {
    let input = "\
# branch.oid 3845e7a3c3aadaaebb2d1b261bf07a9357d35a79
# branch.head master
? foo.txt
";
    assert!(Status::new(input).unwrap().untracked);
}

#[test]
fn new_ignored() {
    let test_status = "\
# branch.oid 3845e7a3c3aadaaebb2d1b261bf07a9357d35a79
# branch.head master
! node_modules/
";
    assert!(Status::new(test_status).unwrap().ignored);
}

#[test]
fn new_very_dirty() {
    let test_status = "\
# branch.oid 3845e7a3c3aadaaebb2d1b261bf07a9357d35a79
# branch.head master
# branch.upstream origin/master
# branch.ab +1 -1
1 D. N... 100644 000000 000000 1290f45e7ad7575848a436d8febbd6c4ba07f1f3 0000000000000000000000000000000000000000 README.md
1 .M N... 100644 100644 100644 5e8a8090976077ddf16252a560460a20dbbdd6a5 5e8a8090976077ddf16252a560460a20dbbdd6a5 gh-pages.sh
? foo.txt
! ignored.txt
";
    assert_eq!(
        Status::new(test_status).unwrap(),
        Status {
            object_id: String::from("3845e7a3c3aadaaebb2d1b261bf07a9357d35a79"),
            branch_name: Some(String::from("master")),
            upstream: Some(String::from("origin/master")),
            ahead: true,
            behind: true,
            staged: true,
            unstaged: true,
            unmerged: false,
            untracked: true,
            ignored: true,
            merge_state: None,
        }
    );
}

#[test]
fn new_unexpected_input() {
    assert_eq!(Status::new("foo"), Err(ParseError::MalformedReport));
}

#[test]
fn to_string_clean() {
    let s = Status {
        object_id: String::from("3845e7a3c3aadaaebb2d1b261bf07a9357d35a79"),
        branch_name: Some(String::from("master")),
        upstream: None,
        ahead: false,
        behind: false,
        staged: false,
        unstaged: false,
        unmerged: false,
        untracked: false,
        ignored: false,
        merge_state: None,
    };
    assert_eq!(s.to_string(), "[master 3845e7a]");
}

#[test]
fn to_string_dirty() {
    let s = Status {
        object_id: String::from("3845e7a3c3aadaaebb2d1b261bf07a9357d35a79"),
        branch_name: Some(String::from("master")),
        upstream: Some(String::from("origin/master")),
        ahead: true,
        behind: true,
        staged: true,
        unstaged: true,
        unmerged: true,
        untracked: true,
        ignored: true,
        merge_state: None,
    };
    assert_eq!(s.to_string(), "[master 3845e7a AB+*%?!]");
}

#[test]
fn to_string_initial_commit() {
    let s = Status {
        object_id: String::from("(initial)"),
        branch_name: Some(String::from("master")),
        upstream: None,
        ahead: false,
        behind: false,
        staged: false,
        unstaged: false,
        unmerged: false,
        untracked: false,
        ignored: false,
        merge_state: None,
    };
    assert_eq!(s.to_string(), "[master (initial)]");
}

#[test]
fn to_string_merge() {
    let s = Status {
        object_id: String::from("3845e7a3c3aadaaebb2d1b261bf07a9357d35a79"),
        branch_name: Some(String::from("master")),
        upstream: None,
        ahead: false,
        behind: false,
        staged: false,
        unstaged: false,
        unmerged: true,
        untracked: false,
        ignored: false,
        merge_state: Some(MergeState::Merge),
    };
    assert_eq!(s.to_string(), "[master 3845e7a (merge) %]");
}
