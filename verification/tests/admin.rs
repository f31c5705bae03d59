use repute_dao::{ReputeDao, ReputeDaoError};

const ADMIN: u64 = 1;
const MINT: u64 = 7;
const COOLDOWN: u64 = 100;

fn bootstrapped() -> ReputeDao {
    let mut dao = ReputeDao::new();
    dao.initialize(ADMIN, MINT, COOLDOWN).unwrap();
    dao
}

#[test]
fn initialize_creates_the_singleton() {
    let mut dao = ReputeDao::new();
    assert!(!dao.initialized());
    assert_eq!(dao.initialize(ADMIN, MINT, COOLDOWN), Ok(()));
    assert!(dao.initialized());
    assert_eq!(dao.admin(), ADMIN);
    assert_eq!(dao.token_mint(), MINT);
    assert_eq!(dao.cooldown_period(), COOLDOWN);
    assert_eq!(dao.role_count(), 0);
}

#[test]
fn initialize_twice_fails_already_initialized() {
    let mut dao = bootstrapped();
    assert_eq!(
        dao.initialize(2, 8, 50),
        Err(ReputeDaoError::AlreadyInitialized)
    );
    // The singleton kept its first contents.
    assert_eq!(dao.admin(), ADMIN);
    assert_eq!(dao.token_mint(), MINT);
    assert_eq!(dao.cooldown_period(), COOLDOWN);
}

#[test]
fn configure_role_from_non_admin_fails_unauthorized() {
    let mut dao = bootstrapped();
    assert_eq!(
        dao.configure_role(ADMIN + 1, String::from("Member"), 0, 0),
        Err(ReputeDaoError::Unauthorized)
    );
    assert_eq!(dao.role_count(), 0);
    assert!(dao.get_role(0).is_none());
}

#[test]
fn reset_scores_from_non_admin_fails_unauthorized() {
    let mut dao = bootstrapped();
    assert_eq!(dao.upvote(2, 9, 5, MINT, 0), Ok(()));
    assert_eq!(dao.reset_scores(2, 9), Err(ReputeDaoError::Unauthorized));
    assert_eq!(dao.get_score(9), 1);
}

#[test]
fn reset_scores_zeroes_one_target_only() {
    let mut dao = bootstrapped();
    assert_eq!(dao.upvote(2, 9, 5, MINT, 0), Ok(()));
    assert_eq!(dao.upvote(2, 10, 5, MINT, 0), Ok(()));
    assert_eq!(dao.reset_scores(ADMIN, 9), Ok(()));
    assert_eq!(dao.get_score(9), 0);
    assert_eq!(dao.get_score(10), 1);
}

#[test]
fn reset_scores_keeps_cooldown_history() {
    let mut dao = bootstrapped();
    assert_eq!(dao.upvote(2, 9, 5, MINT, 0), Ok(()));
    assert_eq!(dao.reset_scores(ADMIN, 9), Ok(()));
    // The vote record survives the reset, so the cooldown still applies.
    assert_eq!(dao.get_vote_record(2, 9).unwrap().last_vote_time, 0);
    assert_eq!(dao.upvote(2, 9, 5, MINT, 50), Err(ReputeDaoError::CooldownActive));
    assert_eq!(dao.upvote(2, 9, 5, MINT, 100), Ok(()));
    assert_eq!(dao.get_score(9), 1);
}

#[test]
fn reset_scores_creates_the_record_when_absent() {
    let mut dao = bootstrapped();
    assert!(dao.get_user_score(9).is_none());
    assert_eq!(dao.reset_scores(ADMIN, 9), Ok(()));
    assert_eq!(dao.get_score(9), 0);
    let record = dao.get_user_score(9).unwrap();
    assert_eq!(record.target, 9);
    assert_eq!(record.score, 0);
}

#[test]
fn score_records_are_created_lazily_by_votes() {
    let mut dao = bootstrapped();
    assert!(dao.get_user_score(9).is_none());
    assert_eq!(dao.upvote(2, 9, 5, MINT, 0), Ok(()));
    let record = dao.get_user_score(9).unwrap();
    assert_eq!(record.target, 9);
    assert_eq!(record.score, 1);
}
