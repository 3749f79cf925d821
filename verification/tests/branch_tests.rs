use gai::branch::{
    branch_info, find_diverged_branch, get_branches_info, get_diverged_branches,
    names_in_order, not_ancestor_error, BranchDetails, RawBranch,
};
use gai::errors::GitError;

fn oid(hex: &str) -> git2::Oid {
    git2::Oid::from_str(hex).unwrap()
}

fn raw(name: &str, is_head: bool, merge: Option<(git2::Oid, usize, usize)>) -> RawBranch {
    RawBranch {
        name: name.as_bytes().to_vec(),
        reference: format!("refs/heads/{}", name).into_bytes(),
        summary: b"top".to_vec(),
        is_head,
        upstream: Some(format!("refs/remotes/origin/{}", name).into_bytes()),
        remote: Some("origin".to_string()),
        has_tracking: false,
        merge,
    }
}

#[test]
fn local_branch_summary() {
    let info = branch_info(raw("main", true, Some((oid("aa"), 1, 2))), true).unwrap();
    assert_eq!(info.name, "main");
    assert_eq!(info.reference, "refs/heads/main");
    assert_eq!(info.top_commit_message, "top");
    assert!(info.is_local());
    assert!(info.divergence.is_none());
    let d = info.local_details().unwrap();
    assert!(d.is_head && d.has_upstream);
    assert_eq!(d.upstream.as_ref().unwrap().reference, "refs/remotes/origin/main");
}

#[test]
fn remote_branch_summary() {
    let mut r = raw("dev", false, Some((oid("bb"), 3, 0)));
    r.has_tracking = true;
    let info = branch_info(r, false).unwrap();
    assert!(!info.is_local());
    assert!(info.local_details().is_none());
    match &info.details {
        BranchDetails::Remote(rb) => assert!(rb.has_tracking),
        _ => panic!("expected remote"),
    }
    let d = info.divergence.unwrap();
    assert_eq!((d.ahead, d.behind), (3, 0));
    assert_eq!(d.merge_base, oid("bb"));
}

#[test]
fn invalid_names_fail() {
    let mut r = raw("x", false, None);
    r.summary = vec![0xff];
    assert!(branch_info(r, true).is_none());
    let mut r = raw("x", false, None);
    r.upstream = Some(vec![0xff]);
    let info = branch_info(r, true).unwrap();
    assert!(!info.local_details().unwrap().has_upstream);
}

#[test]
fn branches_sorted_by_name() {
    let v = get_branches_info(
        vec![raw("zeta", false, None), raw("alpha", false, None), raw("beta", true, None), raw("alpha", false, Some((oid("cc"), 1, 1)))],
        true,
    )
    .unwrap();
    let names: Vec<&str> = v.iter().map(|b| b.name.as_str()).collect();
    assert_eq!(names, vec!["alpha", "alpha", "beta", "zeta"]);
    assert!(v[0].divergence.is_none());
    assert!(v[1].divergence.is_some());
    let mut bad = raw("q", false, None);
    bad.name = vec![0xc3];
    assert!(get_branches_info(vec![raw("a", false, None), bad], true).is_none());
}

#[test]
fn name_order() {
    assert!(names_in_order("a", "b"));
    assert!(names_in_order("ab", "ab"));
    assert!(names_in_order("a", "ab"));
    assert!(!names_in_order("b", "a"));
    assert!(!names_in_order("Z", "A"));
    assert!(names_in_order("Z", "a"));
}

#[test]
fn diverged_branches() {
    let v = get_branches_info(
        vec![
            raw("a", false, Some((oid("01"), 0, 4))),
            raw("b", false, Some((oid("02"), 2, 0))),
            raw("c", true, Some((oid("03"), 5, 0))),
            raw("d", false, Some((oid("04"), 1, 1))),
        ],
        true,
    )
    .unwrap();
    let diverged = get_diverged_branches(v);
    let names: Vec<&str> = diverged.iter().map(|b| b.name.as_str()).collect();
    assert_eq!(names, vec!["b", "d"]);
    let v2 = get_branches_info(vec![raw("a", false, Some((oid("01"), 0, 4))), raw("b", false, Some((oid("02"), 2, 0)))], true).unwrap();
    assert_eq!(find_diverged_branch(v2, "b").unwrap().name, "b");
    let v3 = get_branches_info(vec![raw("a", false, Some((oid("01"), 0, 4)))], true).unwrap();
    assert!(find_diverged_branch(v3, "a").is_none());
}

#[test]
fn not_ancestor_message() {
    match not_ancestor_error("main") {
        GitError::Generic(m) => assert_eq!(m, "main is not ancestor of HEAD"),
        _ => panic!("expected Generic"),
    }
}
