//! The conditional query compiler: branch enumeration, the capacity
//! limit, ordered dispatch, and the emitted text and argument lists of
//! the example skeleton, over every guard combination.

use ormx::backend::Backend;
use ormx::query2::{
    build_branches, dispatch, guards_hold, select_branch, BranchPoint, QueryBranch, QueryError,
    QueryFragment, QueryToken,
};
use ormx::DEFAULT_BRANCH_LIMIT;

fn filter_limit_skeleton() -> Vec<QueryToken> {
    vec![
        QueryToken::Lit("SELECT * FROM t".to_string()),
        QueryToken::Branch(BranchPoint {
            guard: "Some(f) = filter".to_string(),
            frags: vec![
                QueryFragment::Lit("WHERE x =".to_string()),
                QueryFragment::Arg("f".to_string()),
            ],
        }),
        QueryToken::Branch(BranchPoint {
            guard: "Some(l) = limit".to_string(),
            frags: vec![
                QueryFragment::Lit("LIMIT".to_string()),
                QueryFragment::Arg("l".to_string()),
            ],
        }),
    ]
}

#[test]
fn two_branch_points_yield_four_branches() {
    let branches = build_branches(&filter_limit_skeleton(), Backend::MySql, 5).unwrap();
    assert_eq!(branches.len(), 4);
    // Newer decisions come first; the unconditional original is last.
    assert_eq!(branches[0].guards, vec![0, 1]);
    assert_eq!(branches[1].guards, vec![1]);
    assert_eq!(branches[2].guards, vec![0]);
    assert!(branches[3].guards.is_empty());
}

#[test]
fn dispatch_selects_the_filtered_branch() {
    // filter = Some("a"), limit = None: the compiled statement carries
    // the filter fragment and nothing of the limit.
    let branches = build_branches(&filter_limit_skeleton(), Backend::MySql, 5).unwrap();
    let truth = vec![true, false];
    let i = dispatch(&branches, &truth).unwrap();
    let b: &QueryBranch = &branches[i];
    assert_eq!(b.sql(), "SELECT * FROM t WHERE x = ?");
    assert_eq!(b.args, vec!["f"]);
}

#[test]
fn dispatch_covers_every_guard_combination() {
    let branches = build_branches(&filter_limit_skeleton(), Backend::MySql, 5).unwrap();
    let cases: Vec<(Vec<bool>, &str, Vec<&str>)> = vec![
        (vec![true, true], "SELECT * FROM t WHERE x = ? LIMIT ?", vec!["f", "l"]),
        (vec![true, false], "SELECT * FROM t WHERE x = ?", vec!["f"]),
        (vec![false, true], "SELECT * FROM t LIMIT ?", vec!["l"]),
        (vec![false, false], "SELECT * FROM t", vec![]),
    ];
    for (truth, sql, args) in cases {
        let i = dispatch(&branches, &truth).unwrap();
        assert_eq!(branches[i].sql(), sql);
        assert_eq!(branches[i].args, args);
    }
}

#[test]
fn each_branch_numbers_its_own_placeholders() {
    let branches = build_branches(&filter_limit_skeleton(), Backend::Postgres, 5).unwrap();
    let both = dispatch(&branches, &vec![true, true]).unwrap();
    assert_eq!(branches[both].sql(), "SELECT * FROM t WHERE x = $1 LIMIT $2");
    let only_limit = dispatch(&branches, &vec![false, true]).unwrap();
    assert_eq!(branches[only_limit].sql(), "SELECT * FROM t LIMIT $1");
}

#[test]
fn capacity_is_enforced_at_build_time() {
    let mut toks = vec![QueryToken::Lit("SELECT 1".to_string())];
    for i in 0..6 {
        toks.push(QueryToken::Branch(BranchPoint {
            guard: format!("g{}", i),
            frags: vec![QueryFragment::Lit("AND 1 = 1".to_string())],
        }));
    }
    assert_eq!(
        build_branches(&toks, Backend::MySql, DEFAULT_BRANCH_LIMIT).unwrap_err(),
        QueryError::BranchCapacityExceeded
    );
    toks.pop();
    let branches = build_branches(&toks, Backend::MySql, DEFAULT_BRANCH_LIMIT).unwrap();
    assert_eq!(branches.len(), 32);
}

#[test]
fn first_match_wins_for_overlapping_guards() {
    // Both guards hold: the branch carrying both comes first and is the
    // one selected, as an ordered if/else-if chain would.
    let branches = build_branches(&filter_limit_skeleton(), Backend::MySql, 5).unwrap();
    let truth = vec![true, true];
    assert_eq!(select_branch(&branches, &truth), Some(0));
    assert!(guards_hold(&branches[0], &truth));
    assert!(guards_hold(&branches[3], &truth));
}

#[test]
fn unmatched_dispatch_traps() {
    // A branch list without an unconditional fallback can fail to
    // match; dispatch reports that as a defect instead of silently
    // returning nothing. Built skeletons always keep their fallback.
    let branches = vec![QueryBranch {
        guards: vec![0],
        parts: vec!["SELECT 1".to_string()],
        args: vec![],
    }];
    assert_eq!(
        dispatch(&branches, &vec![false]).unwrap_err(),
        QueryError::UnmatchedBranch
    );
    assert_eq!(select_branch(&branches, &vec![false]), None);
}

#[test]
fn empty_skeleton_keeps_one_unconditional_branch() {
    let branches = build_branches(&Vec::new(), Backend::MySql, 0).unwrap();
    assert_eq!(branches.len(), 1);
    assert!(branches[0].guards.is_empty());
    assert_eq!(branches[0].sql(), "");
    let i = dispatch(&branches, &Vec::new()).unwrap();
    assert_eq!(i, 0);
}
