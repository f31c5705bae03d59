//! The persisted record types and the specification of the role registry.
//!
//! Identities (wallets, the admin, the gating mint) are stable public-key-like
//! values; the engine only ever compares them for equality, so they are held
//! as plain `u64` key values.

use vstd::prelude::*;

verus! {

/// The global singleton: admin identity, the token that gates voting rights,
/// the cooldown duration in seconds, and the count of configured roles.
#[derive(Clone, Copy, Debug, PartialEq, Eq, Structural)]
pub struct ProgramState {
    pub admin: u64,
    pub token_mint: u64,
    pub cooldown_period: u64,
    pub role_count: u8,
}

/// A named tier in the role registry, keyed by `index`. A user qualifies for
/// the role when their score reaches `threshold`.
#[derive(Debug, PartialEq, Eq)]
pub struct Role {
    pub name: String,
    pub threshold: i64,
    pub index: u8,
}

/// The cooldown record for one ordered (voter, target) pair: the last time
/// that voter acted on that target.
#[derive(Clone, Copy, Debug, PartialEq, Eq, Structural)]
pub struct VoteRecord {
    pub voter: u64,
    pub target: u64,
    pub last_vote_time: i64,
}

/// The cumulative reputation score of one target wallet. The record is
/// created lazily, on the first vote received or the first reset; a wallet
/// with no record scores 0.
#[derive(Clone, Copy, Debug, PartialEq, Eq, Structural)]
pub struct UserScore {
    pub target: u64,
    pub score: i64,
}

/// A role record is stored with fixed capacity; its name may take at most
/// this many bytes of UTF-8.
pub const MAX_ROLE_NAME_BYTES: usize = 32;

/// Whether a role name fits the fixed capacity of a role record.
pub open spec fn role_name_fits(name: Seq<char>) -> bool {
    vstd::utf8::encode_utf8(name).len() <= MAX_ROLE_NAME_BYTES
}

/// No two roles in the registry share an index.
pub open spec fn unique_role_indices(roles: Seq<Role>) -> bool {
    forall|i: int, j: int| 0 <= i < j < roles.len() ==> roles[i].index != roles[j].index
}

/// The role stored at `index`, if any. When several entries share an index
/// (ruled out by the registry invariant), the last one wins.
pub open spec fn find_role(roles: Seq<Role>, index: u8) -> Option<Role>
    decreases roles.len(),
{
    if roles.len() == 0 {
        None
    } else if roles.last().index == index {
        Some(roles.last())
    } else {
        find_role(roles.drop_last(), index)
    }
}

/// The canonical ordering of roles: higher threshold wins, and among equal
/// thresholds the higher index wins.
pub open spec fn beats(a: Role, b: Role) -> bool {
    a.threshold > b.threshold || (a.threshold == b.threshold && a.index > b.index)
}

/// The best role a score qualifies for: the highest-threshold role whose
/// threshold is at most `score`, ties broken towards the higher index.
/// `None` when the score is below every configured threshold.
pub open spec fn resolve_role(roles: Seq<Role>, score: int) -> Option<Role>
    decreases roles.len(),
{
    if roles.len() == 0 {
        None
    } else {
        let rest = resolve_role(roles.drop_last(), score);
        let r = roles.last();
        if r.threshold <= score && (rest is None || beats(r, rest.unwrap())) {
            Some(r)
        } else {
            rest
        }
    }
}

/// `find_role` misses exactly when no position in the registry holds the index.
pub proof fn lemma_find_role_none(roles: Seq<Role>, index: u8)
    ensures
        find_role(roles, index) is None <==> (forall|p: int|
            0 <= p < roles.len() ==> roles[p].index != index),
    decreases roles.len(),
{
    if roles.len() > 0 {
        lemma_find_role_none(roles.drop_last(), index);
        assert(roles.last() == roles[roles.len() - 1]);
        assert(forall|p: int| 0 <= p < roles.len() - 1 ==> roles.drop_last()[p] == roles[p]);
    }
}

/// A hit of `find_role` carries the index it was asked for and sits at some
/// position of the registry.
pub proof fn lemma_find_role_some(roles: Seq<Role>, index: u8)
    requires
        find_role(roles, index) is Some,
    ensures
        find_role(roles, index).unwrap().index == index,
        exists|p: int|
            0 <= p < roles.len() && roles[p] == find_role(roles, index).unwrap(),
    decreases roles.len(),
{
    if roles.last().index == index {
        assert(roles[roles.len() - 1] == roles.last());
    } else {
        lemma_find_role_some(roles.drop_last(), index);
        let p = choose|p: int|
            0 <= p < roles.drop_last().len() && roles.drop_last()[p] == find_role(
                roles.drop_last(),
                index,
            ).unwrap();
        assert(roles[p] == roles.drop_last()[p]);
    }
}

/// What `resolve_role` returns, said through `find_role`: a hit is a
/// configured role whose threshold the score meets and that no other
/// configured, qualifying role beats; a miss means the score is below every
/// configured threshold.
pub proof fn lemma_resolve_role_characterization(roles: Seq<Role>, score: int)
    requires
        unique_role_indices(roles),
    ensures
        match resolve_role(roles, score) {
            Some(r) => find_role(roles, r.index) == Some(r) && r.threshold <= score
                && forall|i2: u8|
                    #![trigger find_role(roles, i2)]
                    match find_role(roles, i2) {
                        Some(q) => q.threshold <= score ==> !beats(q, r),
                        None => true,
                    },
            None => forall|i2: u8|
                #![trigger find_role(roles, i2)]
                match find_role(roles, i2) {
                    Some(q) => q.threshold > score,
                    None => true,
                },
        },
    decreases roles.len(),
{
    if roles.len() == 0 {
        return ;
    }
    let last = roles.last();
    let prefix = roles.drop_last();
    assert(unique_role_indices(prefix)) by {
        assert(forall|i: int, j: int|
            0 <= i < j < prefix.len() ==> prefix[i] == roles[i] && prefix[j] == roles[j]);
    }
    lemma_resolve_role_characterization(prefix, score);
    assert(roles[roles.len() - 1] == last);
    // The last role's index is fresh in the prefix.
    assert(find_role(prefix, last.index) is None) by {
        if find_role(prefix, last.index) is Some {
            lemma_find_role_some(prefix, last.index);
            let p = choose|p: int|
                0 <= p < prefix.len() && prefix[p] == find_role(prefix, last.index).unwrap();
            assert(roles[p] == prefix[p]);
            assert(roles[p].index == roles[roles.len() - 1].index);
        }
    }
    let rest = resolve_role(prefix, score);
    if rest is Some {
        let rv = rest.unwrap();
        lemma_find_role_some(prefix, rv.index);
        let p = choose|p: int| 0 <= p < prefix.len() && prefix[p] == rv;
        assert(roles[p] == prefix[p]);
        assert(roles[p].index != roles[roles.len() - 1].index);
        assert(find_role(roles, rv.index) == find_role(prefix, rv.index));
    }
    assert forall|i2: u8| i2 != last.index implies find_role(roles, i2) == find_role(
        prefix,
        i2,
    ) by {
        assert(roles.drop_last() == prefix);
    }
    assert(find_role(roles, last.index) == Some(last));
}

/// Appending a role under a fresh index keeps the indices unique, stores the
/// role under its index, and leaves every other index's entry unchanged.
pub proof fn lemma_find_role_push(roles: Seq<Role>, r: Role)
    requires
        unique_role_indices(roles),
        find_role(roles, r.index) is None,
    ensures
        unique_role_indices(roles.push(r)),
        find_role(roles.push(r), r.index) == Some(r),
        forall|i2: u8| i2 != r.index ==> find_role(roles.push(r), i2) == find_role(roles, i2),
{
    let s = roles.push(r);
    lemma_find_role_none(roles, r.index);
    assert(s.drop_last() =~= roles);
    assert(s.last() == r);
    assert forall|i: int, j: int| 0 <= i < j < s.len() implies s[i].index != s[j].index by {
        if j < s.len() - 1 {
            assert(s[i] == roles[i] && s[j] == roles[j]);
        } else {
            assert(s[j] == r && s[i] == roles[i]);
        }
    }
}

/// Overwriting the role at a held index keeps the indices unique, stores the
/// new role under that index, and leaves every other index's entry unchanged.
pub proof fn lemma_find_role_update(roles: Seq<Role>, p: int, r: Role)
    requires
        0 <= p < roles.len(),
        roles[p].index == r.index,
        unique_role_indices(roles),
    ensures
        unique_role_indices(roles.update(p, r)),
        find_role(roles.update(p, r), r.index) == Some(r),
        forall|i2: u8| i2 != r.index ==> find_role(roles.update(p, r), i2) == find_role(
            roles,
            i2,
        ),
    decreases roles.len(),
{
    let s = roles.update(p, r);
    assert forall|i: int, j: int| 0 <= i < j < s.len() implies s[i].index != s[j].index by {
        if i == p {
            assert(s[i] == r && s[j] == roles[j]);
            assert(roles[p].index != roles[j].index);
        } else if j == p {
            assert(s[j] == r && s[i] == roles[i]);
            assert(roles[i].index != roles[p].index);
        } else {
            assert(s[i] == roles[i] && s[j] == roles[j]);
        }
    }
    if p == roles.len() - 1 {
        assert(s.last() == r);
        assert(s.drop_last() =~= roles.drop_last());
        assert(roles.last() == roles[p]);
        assert forall|i2: u8| i2 != r.index implies find_role(s, i2) == find_role(roles, i2) by {
            assert(find_role(s, i2) == find_role(s.drop_last(), i2));
            assert(find_role(roles, i2) == find_role(roles.drop_last(), i2));
        }
    } else {
        assert(roles[p].index != roles[roles.len() - 1].index);
        assert(s.last() == roles.last());
        assert(s.drop_last() =~= roles.drop_last().update(p, r));
        assert(roles.drop_last()[p] == roles[p]);
        assert(unique_role_indices(roles.drop_last())) by {
            assert(forall|i: int, j: int|
                0 <= i < j < roles.len() - 1 ==> roles.drop_last()[i].index
                    != roles.drop_last()[j].index);
        }
        lemma_find_role_update(roles.drop_last(), p, r);
        assert forall|i2: u8| i2 != r.index implies find_role(s, i2) == find_role(roles, i2) by {
            if roles.last().index == i2 {
                assert(find_role(s, i2) == Some(s.last()));
                assert(find_role(roles, i2) == Some(roles.last()));
            } else {
                assert(find_role(s, i2) == find_role(s.drop_last(), i2));
                assert(find_role(roles, i2) == find_role(roles.drop_last(), i2));
            }
        }
    }
}

} // verus!
