//! Laws of the registry that relate several operations or several calls:
//! proved here once and for all states and inputs.

use vstd::prelude::*;

use crate::registry::contains_id;
use crate::registry::create_applied;
use crate::registry::get_meme_post;
use crate::registry::ranks_before;
use crate::registry::top_post;
use crate::registry::vote_applied;
use crate::registry::MemeVote;
use crate::types::AccountId;
use crate::types::MemeModel;

verus! {

/// An up-vote by a given identity on a given record goes through at most
/// once: after the successful vote the pair is on the ledger, so the very
/// same vote is no longer allowed — by the vote postcondition, a repeat by
/// the same identity on the same (still existing) record must fail with
/// `AlreadyVoted`, leaving the like counter untouched.
pub proof fn lemma_vote_up_exactly_once(
    pre: MemeVote,
    post: MemeVote,
    caller: AccountId,
    meme_id: u32,
)
    requires
        pre.wf(),
        pre.vote_allowed(caller, meme_id),
        vote_applied(pre, post, caller, meme_id),
    ensures
        post.has_meme(meme_id),
        post.vote_recorded(caller, meme_id),
        !post.vote_allowed(caller, meme_id),
{
    assert(post.voted@[post.voted@.len() - 1] == (caller, meme_id));
}

/// A record fresh from a successful create call has no votes: no identity
/// whatsoever is on the ledger for the new id, and its like counter is zero.
/// Hence a has-voted query on it answers `false` for every identity until
/// the first successful vote.
pub proof fn lemma_fresh_record_has_no_votes(
    pre: MemeVote,
    post: MemeVote,
    caller: AccountId,
    title: String,
    url: String,
)
    requires
        pre.wf(),
        create_applied(pre, post, caller, title, url),
    ensures
        post.has_meme(pre.next_id),
        post.meme_model(pre.next_id).likes == 0,
        forall|a: AccountId| !post.vote_recorded(a, pre.next_id),
{
    let id = pre.next_id;
    assert(post.memes@[id - 1] == post.memes@.last());
    assert forall|a: AccountId| !post.vote_recorded(a, id) by {
        if post.voted@.contains((a, id)) {
            let j = choose|j: int| 0 <= j < post.voted@.len() && post.voted@[j] == (a, id);
            assert(pre.voted@[j].1 <= pre.memes@.len());
        }
    }
}

/// Crossing step for the determinism proof: two top-ranked listings that
/// agree up to `idx` and disagree on the id at `idx` rank each other's entry
/// strictly — which is then used both ways round for a contradiction.
proof fn lemma_top_cross(s: MemeVote, limit: u32, rx: Seq<MemeModel>, ry: Seq<MemeModel>, idx: int)
    requires
        top_post(s, limit, rx),
        top_post(s, limit, ry),
        0 <= idx < rx.len(),
        rx.len() == ry.len(),
        forall|i: int| 0 <= i < idx ==> rx[i] == ry[i],
        rx[idx].id != ry[idx].id,
    ensures
        ranks_before(ry[idx], rx[idx]),
{
    let a = rx[idx];
    assert(a == s.meme_model(a.id));
    if contains_id(ry, a.id) {
        let p = choose|p: int| 0 <= p < ry.len() && (#[trigger] ry[p]).id == a.id;
        assert(ry[p] == s.meme_model(ry[p].id));
        assert(ry[p] == a);
        if p < idx {
            assert(rx[p] == a);
            assert(ranks_before(rx[p], rx[idx]));
            assert(false);
        } else if p == idx {
            assert(false);
        } else {
            assert(ranks_before(ry[idx], ry[p]));
        }
    } else {
        assert(ranks_before(ry[idx], s.meme_model(a.id)));
    }
}

/// Entries of two top-ranked listings of the same state and limit agree at
/// every index, by induction over the index.
proof fn lemma_top_prefix_eq(s: MemeVote, limit: u32, r1: Seq<MemeModel>, r2: Seq<MemeModel>, idx: int)
    requires
        top_post(s, limit, r1),
        top_post(s, limit, r2),
        0 <= idx < r1.len(),
    ensures
        r1[idx] == r2[idx],
    decreases idx,
{
    assert(r1.len() == r2.len());
    assert forall|i: int| 0 <= i < idx implies r1[i] == r2[i] by {
        lemma_top_prefix_eq(s, limit, r1, r2, i);
    }
    let a = r1[idx];
    let b = r2[idx];
    if a != b {
        assert(a == s.meme_model(a.id));
        assert(b == s.meme_model(b.id));
        if a.id == b.id {
            assert(false);
        }
        lemma_top_cross(s, limit, r1, r2, idx);
        lemma_top_cross(s, limit, r2, r1, idx);
        assert(false);
    }
}

/// The popularity ranking is a strict total order on the stored records, so
/// the top-ranked listing is deterministic even across like-count ties: any
/// two listings the top-ranked postcondition admits for the same registry
/// and limit are identical.
pub proof fn lemma_top_ranked_deterministic(
    s: MemeVote,
    limit: u32,
    r1: Seq<MemeModel>,
    r2: Seq<MemeModel>,
)
    requires
        top_post(s, limit, r1),
        top_post(s, limit, r2),
    ensures
        r1 == r2,
{
    assert forall|i: int| 0 <= i < r1.len() implies r1[i] == r2[i] by {
        lemma_top_prefix_eq(s, limit, r1, r2, i);
    }
    assert(r1 =~= r2);
}

/// A lookup has no side effect and its outcome is a function of the state
/// alone: any two results that the get-one postcondition admits for the same
/// registry and id are identical. Hence repeated lookups of the same id
/// return identical results absent an intervening mutation.
pub proof fn lemma_get_meme_deterministic(
    s: MemeVote,
    id: u32,
    r1: Option<MemeModel>,
    r2: Option<MemeModel>,
)
    requires
        get_meme_post(s, id, r1),
        get_meme_post(s, id, r2),
    ensures
        r1 == r2,
{
}

} // verus!
