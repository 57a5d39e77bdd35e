use flex_update_tools::error::UpdateError;
use flex_update_tools::history::{next_after, next_after_index, next_in_walk, resolve_revision, Commit, History};

const C0: &str = "1111111111111111111111111111111111111111";
const C1: &str = "2222222222222222222222222222222222222222";
const C2: &str = "3333333333333333333333333333333333333333";

fn commit(id: &str, parents: Vec<usize>) -> Commit {
    Commit { id: id.to_string(), parents }
}

/// A linear history root C0 <- C1 <- C2, listed head first.
fn linear() -> History {
    History {
        commits: vec![commit(C2, vec![1]), commit(C1, vec![2]), commit(C0, vec![])],
        head: 0,
    }
}

#[test]
fn pin_at_tip_is_current() {
    assert_eq!(next_after(&linear(), C2), Ok(None));
}

#[test]
fn pin_at_root_moves_to_its_child() {
    assert_eq!(next_after(&linear(), C0), Ok(Some(C1.to_string())));
}

#[test]
fn pin_in_the_middle_moves_to_the_tip() {
    assert_eq!(next_after(&linear(), C1), Ok(Some(C2.to_string())));
}

#[test]
fn abbreviated_pin_resolves() {
    assert_eq!(resolve_revision(&linear(), "2222222"), Ok(1));
    assert_eq!(next_after(&linear(), "1111"), Ok(Some(C1.to_string())));
}

#[test]
fn unknown_pin_is_a_resolution_error() {
    assert_eq!(next_after(&linear(), "abcdef"), Err(UpdateError::ResolutionError));
}

#[test]
fn empty_pin_is_a_resolution_error() {
    assert_eq!(resolve_revision(&linear(), ""), Err(UpdateError::ResolutionError));
}

#[test]
fn ambiguous_pin_is_a_resolution_error() {
    let h = History {
        commits: vec![
            commit("aaaa1111", vec![1]),
            commit("aaaa2222", vec![]),
        ],
        head: 0,
    };
    assert_eq!(resolve_revision(&h, "aaaa"), Err(UpdateError::ResolutionError));
    assert_eq!(resolve_revision(&h, "aaaa2"), Ok(1));
}

#[test]
fn next_after_skips_side_branch_ancestors() {
    // base <- pin <- merge(pin, side); side <- base. Listed children first.
    let h = History {
        commits: vec![
            commit("m0", vec![1, 2]),
            commit("s1", vec![3]),
            commit("p2", vec![3]),
            commit("b3", vec![]),
        ],
        head: 0,
    };
    // After the pin: the merge and the side commit; the oldest is the side commit.
    assert_eq!(next_after_index(&h, 2), Some(1));
    assert_eq!(next_after(&h, "p2"), Ok(Some("s1".to_string())));
    // The base commit is hidden from the side commit's pin, leaving the merge and p2.
    assert_eq!(next_after(&h, "s1"), Ok(Some("p2".to_string())));
    assert_eq!(next_after(&h, "m0"), Ok(None));
}

#[test]
fn walk_fallback_returns_following_entry() {
    let walk = vec![C2.to_string(), C1.to_string(), C0.to_string()];
    assert_eq!(next_in_walk(&walk, "2222"), Some(C0.to_string()));
    assert_eq!(next_in_walk(&walk, C0), None);
    assert_eq!(next_in_walk(&walk, "9999"), None);
}
