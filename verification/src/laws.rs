//! The engine's cross-operation guarantees, stated and proved once over the
//! specification functions that the operations' contracts use.

use crate::engine::{vote_step, ReputeDao};
use crate::error::ReputeDaoError;
use crate::state::{resolve_role, Role};
use vstd::prelude::*;

verus! {

/// Cooldown monotonicity: when a vote by `voter` on `target` succeeds at
/// time `now`, a further vote by the same voter on the same target that
/// passes the token gate fails with `CooldownActive` while the cooldown
/// period has not elapsed, and passes every check again once it has.
pub proof fn lemma_cooldown_monotonicity(
    pre: ReputeDao,
    post: ReputeDao,
    voter: u64,
    target: u64,
    balance1: u64,
    mint1: u64,
    now: i64,
    delta: int,
    balance2: u64,
    mint2: u64,
    later: i64,
)
    requires
        pre.is_initialized(),
        pre.vote_error(voter, target, balance1, mint1, now) is None,
        vote_step(pre, post, voter, target, now, delta),
        post.token_gate_ok(balance2, mint2),
    ensures
        later - now < pre.spec_cooldown_period() as int ==> post.vote_error(
            voter,
            target,
            balance2,
            mint2,
            later,
        ) == Some(ReputeDaoError::CooldownActive),
        later - now >= pre.spec_cooldown_period() as int ==> post.vote_error(
            voter,
            target,
            balance2,
            mint2,
            later,
        ) is None,
{
}

/// One observed vote in a run of successful votes on a fixed target: who
/// voted, with what token account, when, and in which direction.
pub struct VoteEvent {
    pub voter: u64,
    pub balance: u64,
    pub mint: u64,
    pub time: i64,
    pub up: bool,
}

/// The score delta of one vote: +1 for an upvote, -1 for a downvote.
pub open spec fn event_delta(ev: VoteEvent) -> int {
    if ev.up {
        1int
    } else {
        -1int
    }
}

/// How many of the votes go in the given direction.
pub open spec fn count_votes(evs: Seq<VoteEvent>, up: bool) -> int
    decreases evs.len(),
{
    if evs.len() == 0 {
        0int
    } else {
        count_votes(evs.drop_last(), up) + (if evs.last().up == up {
            1int
        } else {
            0int
        })
    }
}

/// A run of successful votes on `target`: each event passes every check in
/// the state it finds, and each state change is the one vote the contracts
/// of `upvote` and `downvote` describe.
pub open spec fn votes_applied(states: Seq<ReputeDao>, evs: Seq<VoteEvent>, target: u64) -> bool {
    &&& states.len() == evs.len() + 1
    &&& forall|k: int|
        0 <= k < evs.len() ==> #[trigger] vote_step(
            states[k],
            states[k + 1],
            evs[k].voter,
            target,
            evs[k].time,
            event_delta(evs[k]),
        )
    &&& forall|k: int|
        0 <= k < evs.len() ==> states[k].vote_error(
            evs[k].voter,
            target,
            evs[k].balance,
            evs[k].mint,
            evs[k].time,
        ) is None
}

/// Score additivity: over any run of successful votes on `target`, the final
/// score is the initial score plus the number of upvotes minus the number of
/// downvotes — a sum of the votes' deltas, independent of their order.
pub proof fn lemma_score_additivity(states: Seq<ReputeDao>, evs: Seq<VoteEvent>, target: u64)
    requires
        votes_applied(states, evs, target),
    ensures
        states.last().score_of(target) == states[0].score_of(target) + count_votes(evs, true)
            - count_votes(evs, false),
    decreases evs.len(),
{
    if evs.len() == 0 {
        assert(states.last() == states[0]);
    } else {
        let n = evs.len() as int;
        assert(votes_applied(states.drop_last(), evs.drop_last(), target)) by {
            assert forall|k: int| 0 <= k < n - 1 implies #[trigger] vote_step(
                states.drop_last()[k],
                states.drop_last()[k + 1],
                evs.drop_last()[k].voter,
                target,
                evs.drop_last()[k].time,
                event_delta(evs.drop_last()[k]),
            ) by {
                assert(states.drop_last()[k] == states[k]);
                assert(states.drop_last()[k + 1] == states[k + 1]);
                assert(evs.drop_last()[k] == evs[k]);
                assert(vote_step(
                    states[k],
                    states[k + 1],
                    evs[k].voter,
                    target,
                    evs[k].time,
                    event_delta(evs[k]),
                ));
            }
            assert forall|k: int| 0 <= k < n - 1 implies states.drop_last()[k].vote_error(
                evs.drop_last()[k].voter,
                target,
                evs.drop_last()[k].balance,
                evs.drop_last()[k].mint,
                evs.drop_last()[k].time,
            ) is None by {
                assert(states.drop_last()[k] == states[k]);
                assert(evs.drop_last()[k] == evs[k]);
            }
        }
        lemma_score_additivity(states.drop_last(), evs.drop_last(), target);
        assert(states.drop_last().last() == states[n - 1]);
        assert(states.drop_last()[0] == states[0]);
        assert(vote_step(
            states[n - 1],
            states[n],
            evs[n - 1].voter,
            target,
            evs[n - 1].time,
            event_delta(evs[n - 1]),
        ));
        assert(evs.last() == evs[n - 1]);
        assert(states.last() == states[n]);
        assert(states[n].score_of(target) == states[n - 1].score_of(target) + event_delta(
            evs[n - 1],
        ));
    }
}

/// Role resolution monotonicity: with a fixed registry, a higher score never
/// resolves to a role with a lower threshold, and never loses the role
/// altogether.
pub proof fn lemma_role_resolution_monotonic(roles: Seq<Role>, s1: int, s2: int)
    requires
        s1 <= s2,
    ensures
        resolve_role(roles, s1) is Some ==> resolve_role(roles, s2) is Some,
        resolve_role(roles, s1) is Some ==> resolve_role(roles, s1).unwrap().threshold
            <= resolve_role(roles, s2).unwrap().threshold,
    decreases roles.len(),
{
    if roles.len() > 0 {
        lemma_role_resolution_monotonic(roles.drop_last(), s1, s2);
    }
}

/// Token gate: a vote from a voter whose token account holds a zero balance,
/// or whose account is of the wrong mint, fails with `NoTokens`, regardless
/// of the cooldown state. (The operations' contracts add that a failing vote
/// changes no record.)
pub proof fn lemma_token_gate(
    s: ReputeDao,
    voter: u64,
    target: u64,
    voter_balance: u64,
    voter_mint: u64,
    now: i64,
)
    requires
        s.is_initialized(),
        voter_balance == 0 || voter_mint != s.spec_token_mint(),
    ensures
        s.vote_error(voter, target, voter_balance, voter_mint, now) == Some(
            ReputeDaoError::NoTokens,
        ),
{
}

/// Admin gate: `configure_role` and `reset_scores` from any caller other
/// than the admin fail with `Unauthorized`, whatever the other parameters.
/// (The operations' contracts add that a failing call changes no record.)
pub proof fn lemma_admin_gate(
    s: ReputeDao,
    caller: u64,
    name: Seq<char>,
    threshold: i64,
    index: u8,
)
    requires
        s.is_initialized(),
        caller != s.spec_admin(),
    ensures
        s.configure_error(caller, name, threshold, index) == Some(ReputeDaoError::Unauthorized),
        s.reset_error(caller) == Some(ReputeDaoError::Unauthorized),
{
}

} // verus!
