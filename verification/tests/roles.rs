use repute_dao::{ReputeDao, ReputeDaoError};

const ADMIN: u64 = 1;
const MINT: u64 = 7;
const COOLDOWN: u64 = 10;

fn bootstrapped() -> ReputeDao {
    let mut dao = ReputeDao::new();
    dao.initialize(ADMIN, MINT, COOLDOWN).unwrap();
    dao
}

#[test]
fn configure_role_stores_the_role() {
    let mut dao = bootstrapped();
    assert_eq!(
        dao.configure_role(ADMIN, String::from("Member"), 0, 0),
        Ok(())
    );
    let role = dao.get_role(0).unwrap();
    assert_eq!(role.name, "Member");
    assert_eq!(role.threshold, 0);
    assert_eq!(role.index, 0);
    assert_eq!(dao.role_count(), 1);
}

#[test]
fn configure_role_upsert_overwrites_without_recount() {
    let mut dao = bootstrapped();
    assert_eq!(dao.configure_role(ADMIN, String::from("Member"), 0, 0), Ok(()));
    assert_eq!(dao.configure_role(ADMIN, String::from("Peer"), 2, 0), Ok(()));
    assert_eq!(dao.role_count(), 1);
    let role = dao.get_role(0).unwrap();
    assert_eq!(role.name, "Peer");
    assert_eq!(role.threshold, 2);
}

#[test]
fn configure_role_counts_each_new_index_once() {
    let mut dao = bootstrapped();
    assert_eq!(dao.configure_role(ADMIN, String::from("Member"), 0, 0), Ok(()));
    assert_eq!(dao.configure_role(ADMIN, String::from("Elder"), 5, 1), Ok(()));
    assert_eq!(dao.role_count(), 2);
}

#[test]
fn configure_role_rejects_oversized_name() {
    let mut dao = bootstrapped();
    let name = String::from("a-name-well-over-thirty-two-bytes-long");
    assert_eq!(
        dao.configure_role(ADMIN, name, 0, 0),
        Err(ReputeDaoError::InvalidInput)
    );
    assert_eq!(dao.role_count(), 0);
    assert!(dao.get_role(0).is_none());
}

#[test]
fn configure_role_accepts_name_at_capacity() {
    let mut dao = bootstrapped();
    let name = String::from("abcdefghijklmnopqrstuvwxyz123456");
    assert_eq!(name.len(), 32);
    assert_eq!(dao.configure_role(ADMIN, name, 0, 0), Ok(()));
}

#[test]
fn registry_accepts_every_index_but_not_a_two_hundred_fifty_sixth() {
    let mut dao = bootstrapped();
    for index in 0..=254u8 {
        assert_eq!(dao.configure_role(ADMIN, String::from("tier"), 0, index), Ok(()));
    }
    assert_eq!(dao.role_count(), 255);
    // Overwriting a held index is still fine.
    assert_eq!(dao.configure_role(ADMIN, String::from("tier"), 1, 0), Ok(()));
    // A new index no longer fits the role counter.
    assert_eq!(
        dao.configure_role(ADMIN, String::from("tier"), 0, 255),
        Err(ReputeDaoError::InvalidInput)
    );
    assert_eq!(dao.role_count(), 255);
}

#[test]
fn resolve_with_no_roles_is_none() {
    let dao = bootstrapped();
    assert!(dao.get_user_role(9).is_none());
}

#[test]
fn resolve_below_every_threshold_is_none() {
    let mut dao = bootstrapped();
    assert_eq!(dao.configure_role(ADMIN, String::from("Member"), 1, 0), Ok(()));
    // Score 0 is below the only threshold.
    assert!(dao.get_user_role(9).is_none());
}

#[test]
fn resolve_picks_highest_threshold_at_or_below_score() {
    let mut dao = bootstrapped();
    assert_eq!(dao.configure_role(ADMIN, String::from("Member"), 0, 0), Ok(()));
    assert_eq!(dao.configure_role(ADMIN, String::from("Elder"), 5, 1), Ok(()));
    assert_eq!(dao.upvote(2, 9, 5, MINT, 0), Ok(()));
    // Score 1: qualifies for Member only.
    assert_eq!(dao.get_user_role(9).unwrap().name, "Member");
}

#[test]
fn resolve_tie_break_prefers_higher_index() {
    let mut dao = bootstrapped();
    assert_eq!(dao.configure_role(ADMIN, String::from("Old"), 3, 0), Ok(()));
    assert_eq!(dao.configure_role(ADMIN, String::from("New"), 3, 2), Ok(()));
    assert_eq!(dao.configure_role(ADMIN, String::from("Mid"), 3, 1), Ok(()));
    let mut score = 0;
    while score < 3 {
        assert_eq!(dao.upvote(10 + score, 9, 5, MINT, 0), Ok(()));
        score += 1;
    }
    let role = dao.get_user_role(9).unwrap();
    assert_eq!(role.index, 2);
    assert_eq!(role.name, "New");
}

#[test]
fn resolve_never_downgrades_as_score_rises() {
    let mut dao = bootstrapped();
    assert_eq!(dao.configure_role(ADMIN, String::from("Member"), 0, 0), Ok(()));
    assert_eq!(dao.configure_role(ADMIN, String::from("Elder"), 2, 1), Ok(()));
    let mut prev_threshold = i64::MIN;
    for voter in 2..6u64 {
        assert_eq!(dao.upvote(voter, 9, 5, MINT, 0), Ok(()));
        let t = dao.get_user_role(9).unwrap().threshold;
        assert!(t >= prev_threshold);
        prev_threshold = t;
    }
    assert_eq!(prev_threshold, 2);
}

#[test]
fn scenario_member_to_elder_and_back() {
    let mut dao = ReputeDao::new();
    dao.initialize(ADMIN, MINT, COOLDOWN).unwrap();
    assert_eq!(dao.configure_role(ADMIN, String::from("Member"), 0, 0), Ok(()));
    assert_eq!(dao.configure_role(ADMIN, String::from("Elder"), 5, 1), Ok(()));
    // Voter A holds the mint and upvotes X five times, cooldown elapsed
    // between each vote.
    let a = 2u64;
    let x = 9u64;
    for k in 0..5u64 {
        let now = (k * COOLDOWN) as i64;
        assert_eq!(dao.upvote(a, x, 1, MINT, now), Ok(()));
    }
    assert_eq!(dao.get_score(x), 5);
    assert_eq!(dao.get_user_role(x).unwrap().name, "Elder");
    // A sixth vote, a downvote from B, drops X back to Member.
    let b = 3u64;
    assert_eq!(dao.downvote(b, x, 1, MINT, 50), Ok(()));
    assert_eq!(dao.get_score(x), 4);
    assert_eq!(dao.get_user_role(x).unwrap().name, "Member");
}

#[test]
fn scenario_zero_balance_voter_changes_nothing() {
    let mut dao = bootstrapped();
    assert_eq!(dao.upvote(2, 9, 0, MINT, 0), Err(ReputeDaoError::NoTokens));
    assert_eq!(dao.get_score(9), 0);
    assert!(dao.get_vote_record(2, 9).is_none());
}
