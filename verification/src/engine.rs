//! The vote-accounting and role-resolution core.
//!
//! `ReputeDao` holds the program's logical namespace: the `ProgramState`
//! singleton, the role registry, the vote-record ledger (one entry per
//! ordered (voter, target) pair) and the user-score ledger (one entry per
//! target). Each public operation validates its caller, then mutates state
//! atomically or returns one named error and changes nothing.

use std::collections::HashMap;

use crate::error::ReputeDaoError;
use crate::state::{
    find_role, lemma_find_role_push, lemma_find_role_update, resolve_role, role_name_fits,
    unique_role_indices, ProgramState, Role, UserScore, VoteRecord, MAX_ROLE_NAME_BYTES,
};
use vstd::prelude::*;

verus! {

broadcast use vstd::std_specs::hash::group_hash_axioms;

/// The vote-record ledger is keyed by the ordered (voter, target) pair,
/// packed into one key value with the voter in the high half.
pub const PAIR_KEY_BASE: u128 = 0x1_0000_0000_0000_0000;

/// The ledger key of the (voter, target) pair.
pub open spec fn pair_key(voter: u64, target: u64) -> u128 {
    ((voter as int) * (PAIR_KEY_BASE as int) + (target as int)) as u128
}

/// Distinct (voter, target) pairs have distinct ledger keys.
pub proof fn lemma_pair_key_injective(v1: u64, t1: u64, v2: u64, t2: u64)
    requires
        pair_key(v1, t1) == pair_key(v2, t2),
    ensures
        v1 == v2 && t1 == t2,
{
    let b = PAIR_KEY_BASE as int;
    let k1 = (v1 as int) * b + (t1 as int);
    let k2 = (v2 as int) * b + (t2 as int);
    assert(k1 <= 0xffff_ffff_ffff_ffff * b + 0xffff_ffff_ffff_ffff) by (nonlinear_arith)
        requires
            k1 == (v1 as int) * b + (t1 as int),
            b == 0x1_0000_0000_0000_0000,
            v1 <= 0xffff_ffff_ffff_ffff,
            t1 <= 0xffff_ffff_ffff_ffff,
    ;
    assert(k2 <= 0xffff_ffff_ffff_ffff * b + 0xffff_ffff_ffff_ffff) by (nonlinear_arith)
        requires
            k2 == (v2 as int) * b + (t2 as int),
            b == 0x1_0000_0000_0000_0000,
            v2 <= 0xffff_ffff_ffff_ffff,
            t2 <= 0xffff_ffff_ffff_ffff,
    ;
    assert(k1 == k2);
    assert(v1 == v2 && t1 == t2) by (nonlinear_arith)
        requires
            k1 == (v1 as int) * b + (t1 as int),
            k2 == (v2 as int) * b + (t2 as int),
            k1 == k2,
            b == 0x1_0000_0000_0000_0000,
            0 <= (t1 as int) < b,
            0 <= (t2 as int) < b,
    ;
}

/// The state change of one successful vote by `voter` on `target` at time
/// `now` with score delta `delta`: the (voter, target) vote record is
/// upserted to `now`, the target's score moves by `delta` (staying within
/// its signed 64-bit record field), and no other record is touched.
pub open spec fn vote_step(
    pre: ReputeDao,
    post: ReputeDao,
    voter: u64,
    target: u64,
    now: i64,
    delta: int,
) -> bool {
    &&& i64::MIN as int <= pre.score_of(target) + delta <= i64::MAX as int
    &&& post.state == pre.state
    &&& post.roles@ == pre.roles@
    &&& post.vote_records@ == pre.vote_records@.insert(pair_key(voter, target), now)
    &&& post.scores@ == pre.scores@.insert(target, (pre.score_of(target) + delta) as i64)
}

/// The whole state of the reputation program: the singleton, the role
/// registry, and the two ledgers.
pub struct ReputeDao {
    /// The program-state singleton; `None` until `initialize` runs.
    pub state: Option<ProgramState>,
    /// The role registry; indices are unique (see `ReputeDao::wf`).
    pub roles: Vec<Role>,
    /// Last vote time per (voter, target) pair, keyed by `pair_key`.
    pub vote_records: HashMap<u128, i64>,
    /// Cumulative reputation score per target; an absent target scores 0.
    pub scores: HashMap<u64, i64>,
}

impl ReputeDao {
    /// The program-state singleton exists.
    pub open spec fn is_initialized(self) -> bool {
        self.state is Some
    }

    pub open spec fn spec_admin(self) -> u64
        recommends
            self.is_initialized(),
    {
        self.state.unwrap().admin
    }

    pub open spec fn spec_token_mint(self) -> u64
        recommends
            self.is_initialized(),
    {
        self.state.unwrap().token_mint
    }

    pub open spec fn spec_cooldown_period(self) -> u64
        recommends
            self.is_initialized(),
    {
        self.state.unwrap().cooldown_period
    }

    pub open spec fn spec_role_count(self) -> u8
        recommends
            self.is_initialized(),
    {
        self.state.unwrap().role_count
    }

    /// The reputation score of `target`; a target with no ledger entry
    /// scores 0.
    pub open spec fn score_of(self, target: u64) -> int {
        if self.scores@.contains_key(target) {
            self.scores@[target] as int
        } else {
            0
        }
    }

    /// The last time `voter` voted on `target`, if ever.
    pub open spec fn last_vote_of(self, voter: u64, target: u64) -> Option<i64> {
        if self.vote_records@.contains_key(pair_key(voter, target)) {
            Some(self.vote_records@[pair_key(voter, target)])
        } else {
            None
        }
    }

    /// The token gate: the voter's token account must hold a non-zero
    /// balance and its mint must be the gating mint.
    pub open spec fn token_gate_ok(self, voter_balance: u64, voter_mint: u64) -> bool
        recommends
            self.is_initialized(),
    {
        voter_balance > 0 && voter_mint == self.spec_token_mint()
    }

    /// The cooldown check: a voter with no prior vote on the target is
    /// eligible; otherwise the cooldown period must have elapsed since the
    /// last vote.
    pub open spec fn cooldown_ok(self, voter: u64, target: u64, now: i64) -> bool
        recommends
            self.is_initialized(),
    {
        match self.last_vote_of(voter, target) {
            None => true,
            Some(last) => now - last >= self.spec_cooldown_period() as int,
        }
    }

    /// The error an up- or downvote returns, if any: the token gate is
    /// checked first, then the cooldown; first failure wins.
    pub open spec fn vote_error(
        self,
        voter: u64,
        target: u64,
        voter_balance: u64,
        voter_mint: u64,
        now: i64,
    ) -> Option<ReputeDaoError>
        recommends
            self.is_initialized(),
    {
        if !self.token_gate_ok(voter_balance, voter_mint) {
            Some(ReputeDaoError::NoTokens)
        } else if !self.cooldown_ok(voter, target, now) {
            Some(ReputeDaoError::CooldownActive)
        } else {
            None
        }
    }

    /// The registry cannot take a role under a new index once `role_count`
    /// has reached the capacity of its counter.
    pub open spec fn registry_full_for(self, index: u8) -> bool
        recommends
            self.is_initialized(),
    {
        self.spec_role_count() == u8::MAX && find_role(self.roles@, index) is None
    }

    /// The error `configure_role` returns, if any: the admin check comes
    /// first, then the parameter checks.
    pub open spec fn configure_error(
        self,
        caller: u64,
        name: Seq<char>,
        threshold: i64,
        index: u8,
    ) -> Option<ReputeDaoError>
        recommends
            self.is_initialized(),
    {
        if caller != self.spec_admin() {
            Some(ReputeDaoError::Unauthorized)
        } else if !role_name_fits(name) {
            Some(ReputeDaoError::InvalidInput)
        } else if self.registry_full_for(index) {
            Some(ReputeDaoError::InvalidInput)
        } else {
            None
        }
    }

    /// The error `reset_scores` returns, if any: only the admin may reset.
    pub open spec fn reset_error(self, caller: u64) -> Option<ReputeDaoError>
        recommends
            self.is_initialized(),
    {
        if caller != self.spec_admin() {
            Some(ReputeDaoError::Unauthorized)
        } else {
            None
        }
    }

    /// Well-formedness: role indices are unique, `role_count` counts the
    /// configured roles, and the registry is empty before bootstrap.
    pub open spec fn wf(self) -> bool {
        &&& unique_role_indices(self.roles@)
        &&& (self.is_initialized() ==> self.spec_role_count() as int == self.roles@.len() as int)
        &&& (!self.is_initialized() ==> self.roles@.len() == 0)
    }

    /// A fresh, un-bootstrapped store with empty ledgers.
    pub fn new() -> (dao: ReputeDao)
        ensures
            dao.wf(),
            !dao.is_initialized(),
            dao.roles@ == Seq::<Role>::empty(),
            dao.vote_records@ == Map::<u128, i64>::empty(),
            dao.scores@ == Map::<u64, i64>::empty(),
    {
        ReputeDao {
            state: None,
            roles: Vec::new(),
            vote_records: HashMap::new(),
            scores: HashMap::new(),
        }
    }

    /// Bootstrap: create the program-state singleton with the given admin,
    /// gating mint and cooldown period, and no roles configured yet. Fails
    /// with `AlreadyInitialized` if called twice; nothing else ever creates
    /// the singleton.
    pub fn initialize(&mut self, admin: u64, token_mint: u64, cooldown_period: u64) -> (r: Result<
        (),
        ReputeDaoError,
    >)
        requires
            old(self).wf(),
        ensures
            final(self).wf(),
            r is Ok <==> !old(self).is_initialized(),
            r is Ok ==> final(self).state == Some(
                (ProgramState { admin, token_mint, cooldown_period, role_count: 0 }),
            ),
            r is Err ==> r == Err::<(), ReputeDaoError>(ReputeDaoError::AlreadyInitialized)
                && *final(self) == *old(self),
            final(self).roles@ == old(self).roles@,
            final(self).vote_records@ == old(self).vote_records@,
            final(self).scores@ == old(self).scores@,
    {
        if self.state.is_some() {
            return Err(ReputeDaoError::AlreadyInitialized);
        }
        self.state = Some(ProgramState { admin, token_mint, cooldown_period, role_count: 0 });
        Ok(())
    }

    /// The position in the registry vector of the role with the given index,
    /// if any.
    fn role_position(&self, index: u8) -> (r: Option<usize>)
        ensures
            match r {
                Some(p) => p < self.roles@.len() && self.roles@[p as int].index == index
                    && find_role(self.roles@, index) == Some(self.roles@[p as int]),
                None => find_role(self.roles@, index) is None,
            },
    {
        let n = self.roles.len();
        let mut found: Option<usize> = None;
        let mut i: usize = 0;
        while i < n
            invariant
                i <= n,
                n == self.roles@.len(),
                match found {
                    Some(p) => p < i && self.roles@[p as int].index == index && find_role(
                        self.roles@.take(i as int),
                        index,
                    ) == Some(self.roles@[p as int]),
                    None => find_role(self.roles@.take(i as int), index) is None,
                },
            decreases n - i,
        {
            proof {
                assert(self.roles@.take(i as int + 1).drop_last() =~= self.roles@.take(i as int));
                assert(self.roles@.take(i as int + 1).last() == self.roles@[i as int]);
            }
            if self.roles[i].index == index {
                found = Some(i);
            }
            i += 1;
        }
        proof {
            assert(self.roles@.take(n as int) =~= self.roles@);
        }
        found
    }

    /// Configure a role: admin-only idempotent upsert of the role record at
    /// `index`. Creates the record if absent (counting it in `role_count`)
    /// or overwrites its name and threshold if present. Any signed 64-bit
    /// threshold is accepted. Fails with `Unauthorized` for any caller but
    /// the admin, and with `InvalidInput` when the name exceeds the record
    /// capacity or the registry cannot take a new index; a failing call
    /// changes nothing.
    pub fn configure_role(&mut self, caller: u64, name: String, threshold: i64, index: u8) -> (r:
        Result<(), ReputeDaoError>)
        requires
            old(self).wf(),
            old(self).is_initialized(),
        ensures
            final(self).wf(),
            final(self).is_initialized(),
            r is Ok <==> old(self).configure_error(caller, name@, threshold, index) is None,
            r matches Err(e) ==> Some(e) == old(self).configure_error(caller, name@, threshold, index)
                && *final(self) == *old(self),
            r is Ok ==> {
                &&& find_role(final(self).roles@, index) == Some(
                    (Role { name, threshold, index }),
                )
                &&& forall|i2: u8| i2 != index ==> find_role(final(self).roles@, i2) == find_role(
                    old(self).roles@,
                    i2,
                )
                &&& final(self).spec_admin() == old(self).spec_admin()
                &&& final(self).spec_token_mint() == old(self).spec_token_mint()
                &&& final(self).spec_cooldown_period() == old(self).spec_cooldown_period()
                &&& final(self).spec_role_count() as int == old(self).spec_role_count() as int + (
                if find_role(old(self).roles@, index) is Some {
                    0int
                } else {
                    1int
                })
                &&& final(self).vote_records@ == old(self).vote_records@
                &&& final(self).scores@ == old(self).scores@
            },
    {
        let st = self.state.unwrap();
        if caller != st.admin {
            return Err(ReputeDaoError::Unauthorized);
        }
        if name.as_str().as_bytes().len() > MAX_ROLE_NAME_BYTES {
            return Err(ReputeDaoError::InvalidInput);
        }
        match self.role_position(index) {
            Some(p) => {
                proof {
                    lemma_find_role_update(self.roles@, p as int, Role { name, threshold, index });
                }
                self.roles.set(p, Role { name, threshold, index });
                Ok(())
            },
            None => {
                if st.role_count == u8::MAX {
                    return Err(ReputeDaoError::InvalidInput);
                }
                proof {
                    lemma_find_role_push(self.roles@, Role { name, threshold, index });
                }
                self.roles.push(Role { name, threshold, index });
                self.state = Some(
                    ProgramState {
                        admin: st.admin,
                        token_mint: st.token_mint,
                        cooldown_period: st.cooldown_period,
                        role_count: st.role_count + 1,
                    },
                );
                Ok(())
            },
        }
    }

    /// Shared protocol of `upvote` and `downvote`: validate the token gate,
    /// then the cooldown (first failure wins, nothing mutated), then apply
    /// the vote atomically: upsert the (voter, target) vote record to `now`
    /// and move the target's score by one unit.
    fn cast_vote(
        &mut self,
        voter: u64,
        target: u64,
        voter_balance: u64,
        voter_mint: u64,
        now: i64,
        upward: bool,
    ) -> (r: Result<(), ReputeDaoError>)
        requires
            old(self).wf(),
            old(self).is_initialized(),
            old(self).vote_error(voter, target, voter_balance, voter_mint, now) is None ==> (if upward {
                old(self).score_of(target) < i64::MAX as int
            } else {
                old(self).score_of(target) > i64::MIN as int
            }),
        ensures
            final(self).wf(),
            final(self).is_initialized(),
            r is Ok <==> old(self).vote_error(voter, target, voter_balance, voter_mint, now) is None,
            r matches Err(e) ==> Some(e) == old(self).vote_error(
                voter,
                target,
                voter_balance,
                voter_mint,
                now,
            ) && *final(self) == *old(self),
            r is Ok ==> vote_step(
                *old(self),
                *final(self),
                voter,
                target,
                now,
                if upward {
                    1int
                } else {
                    -1int
                },
            ),
            forall|v2: u64, t2: u64|
                !(v2 == voter && t2 == target) ==> final(self).last_vote_of(v2, t2) == old(
                    self,
                ).last_vote_of(v2, t2),
            forall|t2: u64| t2 != target ==> final(self).score_of(t2) == old(self).score_of(t2),
    {
        let st = self.state.unwrap();
        if voter_balance == 0 || voter_mint != st.token_mint {
            return Err(ReputeDaoError::NoTokens);
        }
        let key: u128 = (voter as u128) * PAIR_KEY_BASE + (target as u128);
        match self.vote_records.get(&key) {
            Some(last) => {
                if (now as i128) - (*last as i128) < (st.cooldown_period as i128) {
                    return Err(ReputeDaoError::CooldownActive);
                }
            },
            None => {},
        }
        let cur: i64 = match self.scores.get(&target) {
            Some(s) => *s,
            None => 0,
        };
        let next: i64 = if upward {
            cur + 1
        } else {
            cur - 1
        };
        self.vote_records.insert(key, now);
        self.scores.insert(target, next);
        proof {
            assert forall|v2: u64, t2: u64| !(v2 == voter && t2 == target) implies self
                .last_vote_of(v2, t2) == old(self).last_vote_of(v2, t2) by {
                if pair_key(v2, t2) == pair_key(voter, target) {
                    lemma_pair_key_injective(v2, t2, voter, target);
                }
            }
        }
        Ok(())
    }

    /// Upvote `target`: after the token-gate and cooldown checks pass, the
    /// target's score rises by one and the (voter, target) cooldown restarts
    /// at `now`. No other record is touched, and a failing vote changes
    /// nothing. Nothing stops a wallet from voting on itself.
    pub fn upvote(
        &mut self,
        voter: u64,
        target: u64,
        voter_balance: u64,
        voter_mint: u64,
        now: i64,
    ) -> (r: Result<(), ReputeDaoError>)
        requires
            old(self).wf(),
            old(self).is_initialized(),
            old(self).vote_error(voter, target, voter_balance, voter_mint, now) is None ==> old(
                self,
            ).score_of(target) < i64::MAX as int,
        ensures
            final(self).wf(),
            final(self).is_initialized(),
            r is Ok <==> old(self).vote_error(voter, target, voter_balance, voter_mint, now) is None,
            r matches Err(e) ==> Some(e) == old(self).vote_error(
                voter,
                target,
                voter_balance,
                voter_mint,
                now,
            ) && *final(self) == *old(self),
            r is Ok ==> vote_step(*old(self), *final(self), voter, target, now, 1),
            r is Ok ==> final(self).score_of(target) == old(self).score_of(target) + 1,
            r is Ok ==> final(self).last_vote_of(voter, target) == Some(now),
            forall|v2: u64, t2: u64|
                !(v2 == voter && t2 == target) ==> final(self).last_vote_of(v2, t2) == old(
                    self,
                ).last_vote_of(v2, t2),
            forall|t2: u64| t2 != target ==> final(self).score_of(t2) == old(self).score_of(t2),
            final(self).state == old(self).state,
            final(self).roles@ == old(self).roles@,
    {
        self.cast_vote(voter, target, voter_balance, voter_mint, now, true)
    }

    /// Downvote `target`: after the token-gate and cooldown checks pass, the
    /// target's score falls by one (scores may go negative; there is no
    /// clamp) and the (voter, target) cooldown restarts at `now`. No other
    /// record is touched, and a failing vote changes nothing.
    pub fn downvote(
        &mut self,
        voter: u64,
        target: u64,
        voter_balance: u64,
        voter_mint: u64,
        now: i64,
    ) -> (r: Result<(), ReputeDaoError>)
        requires
            old(self).wf(),
            old(self).is_initialized(),
            old(self).vote_error(voter, target, voter_balance, voter_mint, now) is None ==> old(
                self,
            ).score_of(target) > i64::MIN as int,
        ensures
            final(self).wf(),
            final(self).is_initialized(),
            r is Ok <==> old(self).vote_error(voter, target, voter_balance, voter_mint, now) is None,
            r matches Err(e) ==> Some(e) == old(self).vote_error(
                voter,
                target,
                voter_balance,
                voter_mint,
                now,
            ) && *final(self) == *old(self),
            r is Ok ==> vote_step(*old(self), *final(self), voter, target, now, -1),
            r is Ok ==> final(self).score_of(target) == old(self).score_of(target) - 1,
            r is Ok ==> final(self).last_vote_of(voter, target) == Some(now),
            forall|v2: u64, t2: u64|
                !(v2 == voter && t2 == target) ==> final(self).last_vote_of(v2, t2) == old(
                    self,
                ).last_vote_of(v2, t2),
            forall|t2: u64| t2 != target ==> final(self).score_of(t2) == old(self).score_of(t2),
            final(self).state == old(self).state,
            final(self).roles@ == old(self).roles@,
    {
        self.cast_vote(voter, target, voter_balance, voter_mint, now, false)
    }

    /// Reset one target's score to zero, admin-only. The record is upserted,
    /// not deleted, and the vote-record cooldown history is untouched. Fails
    /// with `Unauthorized` for any caller but the admin, changing nothing.
    pub fn reset_scores(&mut self, caller: u64, target: u64) -> (r: Result<(), ReputeDaoError>)
        requires
            old(self).wf(),
            old(self).is_initialized(),
        ensures
            final(self).wf(),
            final(self).is_initialized(),
            r is Ok <==> old(self).reset_error(caller) is None,
            r matches Err(e) ==> Some(e) == old(self).reset_error(caller) && *final(self) == *old(
                self,
            ),
            r is Ok ==> final(self).scores@ == old(self).scores@.insert(target, 0i64),
            r is Ok ==> final(self).score_of(target) == 0,
            forall|t2: u64| t2 != target ==> final(self).score_of(t2) == old(self).score_of(t2),
            final(self).state == old(self).state,
            final(self).roles@ == old(self).roles@,
            final(self).vote_records@ == old(self).vote_records@,
    {
        let st = self.state.unwrap();
        if caller != st.admin {
            return Err(ReputeDaoError::Unauthorized);
        }
        self.scores.insert(target, 0);
        Ok(())
    }

    /// The best role the user currently qualifies for: the highest-threshold
    /// role whose threshold is at most the user's score (0 for a user with
    /// no score record), ties broken towards the higher index. `None` when
    /// the score is below every configured threshold, including when no role
    /// is configured.
    pub fn get_user_role(&self, user: u64) -> (r: Option<Role>)
        ensures
            r == resolve_role(self.roles@, self.score_of(user)),
    {
        let score: i64 = match self.scores.get(&user) {
            Some(s) => *s,
            None => 0,
        };
        let n = self.roles.len();
        let mut best: Option<usize> = None;
        let mut i: usize = 0;
        while i < n
            invariant
                i <= n,
                n == self.roles@.len(),
                score as int == self.score_of(user),
                match best {
                    Some(p) => p < i && resolve_role(self.roles@.take(i as int), score as int)
                        == Some(self.roles@[p as int]),
                    None => resolve_role(self.roles@.take(i as int), score as int) is None,
                },
            decreases n - i,
        {
            proof {
                assert(self.roles@.take(i as int + 1).drop_last() =~= self.roles@.take(i as int));
                assert(self.roles@.take(i as int + 1).last() == self.roles@[i as int]);
            }
            if self.roles[i].threshold <= score {
                let take_it: bool = match best {
                    None => true,
                    Some(p) => {
                        let c = self.roles[i].threshold;
                        let b = self.roles[p].threshold;
                        c > b || (c == b && self.roles[i].index > self.roles[p].index)
                    },
                };
                if take_it {
                    best = Some(i);
                }
            }
            i += 1;
        }
        proof {
            assert(self.roles@.take(n as int) =~= self.roles@);
        }
        match best {
            None => None,
            Some(p) => {
                let role = &self.roles[p];
                Some(Role { name: role.name.clone(), threshold: role.threshold, index: role.index })
            },
        }
    }

    /// Whether the program-state singleton exists.
    pub fn initialized(&self) -> (b: bool)
        ensures
            b == self.is_initialized(),
    {
        self.state.is_some()
    }

    /// The admin identity.
    pub fn admin(&self) -> (a: u64)
        requires
            self.is_initialized(),
        ensures
            a == self.spec_admin(),
    {
        self.state.unwrap().admin
    }

    /// The identity of the gating fungible asset.
    pub fn token_mint(&self) -> (m: u64)
        requires
            self.is_initialized(),
        ensures
            m == self.spec_token_mint(),
    {
        self.state.unwrap().token_mint
    }

    /// The cooldown duration in seconds.
    pub fn cooldown_period(&self) -> (c: u64)
        requires
            self.is_initialized(),
        ensures
            c == self.spec_cooldown_period(),
    {
        self.state.unwrap().cooldown_period
    }

    /// How many roles are configured.
    pub fn role_count(&self) -> (c: u8)
        requires
            self.is_initialized(),
        ensures
            c == self.spec_role_count(),
    {
        self.state.unwrap().role_count
    }

    /// The reputation score of `target`; a target with no score record
    /// scores 0.
    pub fn get_score(&self, target: u64) -> (s: i64)
        ensures
            s as int == self.score_of(target),
    {
        match self.scores.get(&target) {
            Some(s) => *s,
            None => 0,
        }
    }

    /// The score record of `target`, if one has been created (by a first
    /// vote received or a first reset). `get_score` reads the same ledger
    /// but treats a missing record as a score of 0.
    pub fn get_user_score(&self, target: u64) -> (r: Option<UserScore>)
        ensures
            match r {
                Some(u) => self.scores@.contains_key(target) && u == (UserScore {
                    target,
                    score: (self.score_of(target) as i64),
                }),
                None => !self.scores@.contains_key(target),
            },
    {
        match self.scores.get(&target) {
            Some(s) => Some(UserScore { target, score: *s }),
            None => None,
        }
    }

    /// The vote record of the (voter, target) pair, if that voter has ever
    /// voted on that target.
    pub fn get_vote_record(&self, voter: u64, target: u64) -> (r: Option<VoteRecord>)
        ensures
            match self.last_vote_of(voter, target) {
                Some(t) => r == Some((VoteRecord { voter, target, last_vote_time: t })),
                None => r is None,
            },
    {
        let key: u128 = (voter as u128) * PAIR_KEY_BASE + (target as u128);
        match self.vote_records.get(&key) {
            Some(t) => Some(VoteRecord { voter, target, last_vote_time: *t }),
            None => None,
        }
    }

    /// The role configured at `index`, if any.
    pub fn get_role(&self, index: u8) -> (r: Option<Role>)
        ensures
            r == find_role(self.roles@, index),
    {
        match self.role_position(index) {
            Some(p) => {
                let role = &self.roles[p];
                Some(Role { name: role.name.clone(), threshold: role.threshold, index: role.index })
            },
            None => None,
        }
    }
}

} // verus!
