//! The registry itself: the persistent state (records, vote ledger, id
//! counter) and the five operations — create, vote, get-one, list-paginated,
//! list-top-ranked — together with their specifications.

use vstd::prelude::*;
use vstd::string::StrSliceExecFns;

use crate::types::AccountId;
use crate::types::Error;
use crate::types::Meme;
use crate::types::MemeModel;

verus! {

/// How many entries of the vote ledger `s` name the record `id`.
pub open spec fn count_votes(s: Seq<(AccountId, u32)>, id: u32) -> nat
    decreases s.len(),
{
    if s.len() == 0 {
        0
    } else {
        count_votes(s.drop_last(), id) + if s.last().1 == id {
            1nat
        } else {
            0nat
        }
    }
}

/// A ledger in which no record `id` occurs: it has no votes to count.
proof fn lemma_count_votes_absent(s: Seq<(AccountId, u32)>, id: u32)
    requires
        forall|j: int| 0 <= j < s.len() ==> (#[trigger] s[j]).1 != id,
    ensures
        count_votes(s, id) == 0,
    decreases s.len(),
{
    if s.len() > 0 {
        lemma_count_votes_absent(s.drop_last(), id);
    }
}

/// Appending one ledger entry raises the count for its record by one and
/// leaves every other record's count unchanged.
proof fn lemma_count_votes_push(s: Seq<(AccountId, u32)>, p: (AccountId, u32), id: u32)
    ensures
        count_votes(s.push(p), id) == count_votes(s, id) + if p.1 == id {
            1nat
        } else {
            0nat
        },
{
    assert(s.push(p).drop_last() =~= s);
    assert(s.push(p).last() == p);
}

/// The state transition of a successful create call: the new record is
/// appended with the id the counter held, the counter advances by one, and
/// the vote ledger is untouched.
pub open spec fn create_applied(
    pre: MemeVote,
    post: MemeVote,
    caller: AccountId,
    title: String,
    url: String,
) -> bool {
    &&& post.next_id as int == pre.next_id + 1
    &&& post.voted@ == pre.voted@
    &&& post.memes@ == pre.memes@.push(
        (Meme { id: pre.next_id, creator: caller, title: title, url: url, likes: 0 }),
    )
}

/// The state transition of a successful up-vote: the pair joins the vote
/// ledger, the named record's like counter rises by exactly one with every
/// other field intact, and every other record and the id counter are
/// untouched. All of this happens together or not at all.
pub open spec fn vote_applied(pre: MemeVote, post: MemeVote, caller: AccountId, id: u32) -> bool {
    &&& post.voted@ == pre.voted@.push((caller, id))
    &&& post.next_id == pre.next_id
    &&& post.memes@.len() == pre.memes@.len()
    &&& (forall|i: int|
        0 <= i < pre.memes@.len() && i != id - 1 ==> post.memes@[i] == pre.memes@[i])
    &&& post.memes@[id - 1].id == pre.memes@[id - 1].id
    &&& post.memes@[id - 1].creator == pre.memes@[id - 1].creator
    &&& post.memes@[id - 1].title == pre.memes@[id - 1].title
    &&& post.memes@[id - 1].url == pre.memes@[id - 1].url
    &&& post.memes@[id - 1].likes as int == pre.memes@[id - 1].likes + 1
}

/// The first id a paginated listing starting at `from` can return: ids below
/// 1 never match, so the scan effectively starts at 1.
pub open spec fn range_start(from: u32) -> int {
    if from < 1 {
        1int
    } else {
        from as int
    }
}

/// How many records a paginated listing returns: the ids from
/// `range_start(from)` on that exist, capped at `limit`.
pub open spec fn range_len(s: MemeVote, from: u32, limit: u32) -> int {
    let lo = range_start(from);
    if lo > s.total() {
        0int
    } else if limit as int <= s.total() - lo + 1 {
        limit as int
    } else {
        s.total() - lo + 1
    }
}

/// The popularity ranking: `a` sorts strictly before `b` when it has more
/// likes, or the same number of likes and the lower id. On records with
/// distinct ids this is a strict total order, so a ranked listing is
/// deterministic even across ties.
pub open spec fn ranks_before(a: MemeModel, b: MemeModel) -> bool {
    a.likes > b.likes || (a.likes == b.likes && a.id < b.id)
}

/// Whether the listing `r` holds a record with id `k`.
pub open spec fn contains_id(r: Seq<MemeModel>, k: u32) -> bool {
    exists|p: int| 0 <= p < r.len() && (#[trigger] r[p]).id == k
}

/// What a top-ranked listing of `s` truncated to `limit` returns: as many
/// records as exist, capped at `limit`; strictly sorted by the popularity
/// ranking; each entry a stored record under its own id; and complete — any
/// stored record left out ranks after every entry of the listing.
pub open spec fn top_post(s: MemeVote, limit: u32, r: Seq<MemeModel>) -> bool {
    &&& r.len() == if limit as int <= s.total() {
        limit as int
    } else {
        s.total()
    }
    &&& (forall|i: int, j: int|
        0 <= i < j < r.len() ==> ranks_before(#[trigger] r[i], #[trigger] r[j]))
    &&& (forall|i: int|
        0 <= i < r.len() ==> s.has_meme((#[trigger] r[i]).id) && r[i] == s.meme_model(r[i].id))
    &&& (forall|k: u32, i: int|
        #![trigger r[i], s.meme_model(k)]
        s.has_meme(k) && !contains_id(r, k) && 0 <= i < r.len() ==> ranks_before(
            r[i],
            s.meme_model(k),
        ))
}

/// Every element of `v` is one of the stored records of `s`, under its own
/// id.
spec fn elems_stored(s: MemeVote, v: Seq<Meme>) -> bool {
    forall|p: int|
        0 <= p < v.len() ==> s.has_meme((#[trigger] v[p]).id) && v[p]@ == s.meme_model(v[p].id)
}

/// No two elements of `v` carry the same id.
spec fn distinct_ids(v: Seq<Meme>) -> bool {
    forall|p: int, q: int| 0 <= p < q < v.len() ==> (#[trigger] v[p]).id != (#[trigger] v[q]).id
}

/// Whether `v` holds a record with id `k`.
spec fn holds_id(v: Seq<Meme>, k: u32) -> bool {
    exists|p: int| 0 <= p < v.len() && (#[trigger] v[p]).id == k
}

/// Every id of a stored record of `s` occurs in `v`.
spec fn all_ids_present(s: MemeVote, v: Seq<Meme>) -> bool {
    forall|k: u32| s.has_meme(k) ==> #[trigger] holds_id(v, k)
}

/// The first `upto` elements of `v` are strictly sorted by the popularity
/// ranking.
spec fn sorted_prefix(v: Seq<Meme>, upto: int) -> bool {
    forall|p: int, q: int|
        0 <= p < q < upto && q < v.len() ==> ranks_before((#[trigger] v[p])@, (#[trigger] v[q])@)
}

/// The first `upto` elements of `v` are sorted except that position `hole`
/// is not compared as the greater element of a pair.
spec fn sorted_except(v: Seq<Meme>, upto: int, hole: int) -> bool {
    forall|p: int, q: int|
        0 <= p < q < upto && q < v.len() && q != hole ==> ranks_before(
            (#[trigger] v[p])@,
            (#[trigger] v[q])@,
        )
}

/// One step of the insertion sort: swapping the out-of-place element at `j`
/// with its left neighbour keeps the listing a duplicate-free arrangement of
/// the stored records and moves the sort hole one place left.
proof fn lemma_swap_step(s: MemeVote, pre: Seq<Meme>, post: Seq<Meme>, i: int, j: int)
    requires
        1 <= j <= i < pre.len(),
        post == pre.update(j - 1, pre[j]).update(j, pre[j - 1]),
        elems_stored(s, pre),
        distinct_ids(pre),
        all_ids_present(s, pre),
        sorted_except(pre, i + 1, j),
        ranks_before(pre[j]@, pre[j - 1]@),
    ensures
        elems_stored(s, post),
        distinct_ids(post),
        all_ids_present(s, post),
        sorted_except(post, i + 1, j - 1),
{
    assert(post.len() == pre.len());
    assert forall|p: int| 0 <= p < post.len() implies s.has_meme((#[trigger] post[p]).id)
        && post[p]@ == s.meme_model(post[p].id) by {
        if p == j - 1 {
            assert(post[p] == pre[j]);
        } else if p == j {
            assert(post[p] == pre[j - 1]);
        } else {
            assert(post[p] == pre[p]);
        }
    }
    assert forall|p: int, q: int| 0 <= p < q < post.len() implies (#[trigger] post[p]).id != (
    #[trigger] post[q]).id by {
        let p0 = if p == j - 1 {
            j
        } else if p == j {
            j - 1
        } else {
            p
        };
        let q0 = if q == j - 1 {
            j
        } else if q == j {
            j - 1
        } else {
            q
        };
        assert(post[p] == pre[p0]);
        assert(post[q] == pre[q0]);
        if p0 < q0 {
            assert(pre[p0].id != pre[q0].id);
        } else {
            assert(pre[q0].id != pre[p0].id);
        }
    }
    assert forall|k: u32| s.has_meme(k) implies #[trigger] holds_id(post, k) by {
        assert(holds_id(pre, k));
        let p = choose|p: int| 0 <= p < pre.len() && (#[trigger] pre[p]).id == k;
        let p1 = if p == j - 1 {
            j
        } else if p == j {
            j - 1
        } else {
            p
        };
        assert(post[p1].id == k);
    }
    assert forall|p: int, q: int|
        0 <= p < q < i + 1 && q < post.len() && q != j - 1 implies ranks_before(
        (#[trigger] post[p])@,
        (#[trigger] post[q])@,
    ) by {
        if q == j {
            assert(post[q] == pre[j - 1]);
            if p == j - 1 {
                assert(post[p] == pre[j]);
            } else {
                assert(post[p] == pre[p]);
                assert(ranks_before(pre[p]@, pre[j - 1]@));
            }
        } else if q > j {
            assert(post[q] == pre[q]);
            if p == j - 1 {
                assert(post[p] == pre[j]);
                assert(ranks_before(pre[j]@, pre[q]@));
            } else if p == j {
                assert(post[p] == pre[j - 1]);
                assert(ranks_before(pre[j - 1]@, pre[q]@));
            } else {
                assert(post[p] == pre[p]);
                assert(ranks_before(pre[p]@, pre[q]@));
            }
        } else {
            assert(post[p] == pre[p]);
            assert(post[q] == pre[q]);
            assert(ranks_before(pre[p]@, pre[q]@));
        }
    }
}

/// When the insertion scan stops, the element in the hole already ranks
/// after its left neighbour, so the whole prefix is sorted.
proof fn lemma_close_hole(v: Seq<Meme>, i: int, j: int)
    requires
        0 <= j <= i < v.len(),
        distinct_ids(v),
        sorted_except(v, i + 1, j),
        j > 0 ==> !ranks_before(v[j]@, v[j - 1]@),
    ensures
        sorted_prefix(v, i + 1),
{
    assert forall|p: int, q: int| 0 <= p < q < i + 1 && q < v.len() implies ranks_before(
        (#[trigger] v[p])@,
        (#[trigger] v[q])@,
    ) by {
        if q == j {
            assert(v[j - 1].id != v[j].id);
            assert(ranks_before(v[j - 1]@, v[j]@));
            if p < j - 1 {
                assert(ranks_before(v[p]@, v[j - 1]@));
            }
        }
    }
}

/// Executable form of the popularity ranking test.
fn ranks_before_exec(a: &Meme, b: &Meme) -> (r: bool)
    ensures
        r == ranks_before(a@, b@),
{
    a.likes > b.likes || (a.likes == b.likes && a.id < b.id)
}

/// The model of an optional returned record.
pub open spec fn opt_model(r: Option<Meme>) -> Option<MemeModel> {
    match r {
        Some(m) => Some(m@),
        None => None,
    }
}

/// What a get-one lookup returns: the record with the given id, or absent if
/// that id is unknown or was never assigned. Absence is a valid result, not
/// an error.
pub open spec fn get_meme_post(s: MemeVote, id: u32, r: Option<MemeModel>) -> bool {
    if s.has_meme(id) {
        r == Some(s.meme_model(id))
    } else {
        r == None::<MemeModel>
    }
}

/// The registry: a monotone data store whose only transitions are "record
/// added" and "vote cast".
///
/// Records are held in insertion order, so the record with id `i` sits at
/// index `i - 1`; ids are assigned sequentially from 1 and never reused. The
/// vote ledger lists each (identity, record id) pair at most once.
pub struct MemeVote {
    /// The stored records, in id order.
    pub memes: Vec<Meme>,
    /// The id the next successful create call will assign.
    pub next_id: u32,
    /// The vote ledger: each pair records one cast up-vote, permanently.
    pub voted: Vec<(AccountId, u32)>,
}

impl MemeVote {
    /// The number of records ever created (none are ever deleted).
    pub open spec fn total(self) -> int {
        self.memes@.len() as int
    }

    /// Whether a record with the given id exists.
    pub open spec fn has_meme(self, id: u32) -> bool {
        1 <= id && id <= self.memes@.len()
    }

    /// The model of the record with the given id.
    pub open spec fn meme_model(self, id: u32) -> MemeModel
        recommends
            self.has_meme(id),
    {
        self.memes@[id - 1]@
    }

    /// Whether the ledger records an up-vote by `account` on record `id`.
    pub open spec fn vote_recorded(self, account: AccountId, id: u32) -> bool {
        self.voted@.contains((account, id))
    }

    /// Whether an up-vote by `caller` on record `id` would succeed.
    pub open spec fn vote_allowed(self, caller: AccountId, id: u32) -> bool {
        self.has_meme(id) && !self.vote_recorded(caller, id)
    }

    /// Well-formedness: ids are dense and sequential from 1, every stored
    /// record meets the creation-time bounds, the ledger names only existing
    /// records and holds no pair twice, and each record's like counter equals
    /// the number of ledger entries naming it.
    pub open spec fn wf(self) -> bool {
        &&& 1 <= self.next_id
        &&& self.memes@.len() == self.next_id - 1
        &&& (forall|i: int|
            0 <= i < self.memes@.len() ==> (#[trigger] self.memes@[i]).id as int == i + 1)
        &&& (forall|i: int|
            0 <= i < self.memes@.len() ==> (#[trigger] self.memes@[i]).title@.len() <= 100)
        &&& (forall|i: int|
            0 <= i < self.memes@.len() ==> (#[trigger] self.memes@[i]).url@.len() >= 1)
        &&& (forall|j: int|
            0 <= j < self.voted@.len() ==> 1 <= (#[trigger] self.voted@[j]).1
                && self.voted@[j].1 <= self.memes@.len())
        &&& (forall|j: int, k: int|
            0 <= j < k < self.voted@.len() ==> self.voted@[j] != self.voted@[k])
        &&& (forall|i: int|
            0 <= i < self.memes@.len() ==> (#[trigger] self.memes@[i]).likes as nat
                == count_votes(self.voted@, (i + 1) as u32))
    }

    /// A fresh registry: no records, no votes, the first id to assign is 1.
    pub fn new() -> (r: MemeVote)
        ensures
            r.wf(),
            r.memes@ =~= Seq::<Meme>::empty(),
            r.voted@ =~= Seq::<(AccountId, u32)>::empty(),
            r.next_id == 1,
    {
        MemeVote { memes: Vec::new(), next_id: 1, voted: Vec::new() }
    }

    /// The default registry is the fresh one.
    pub fn default() -> (r: MemeVote)
        ensures
            r.wf(),
            r.memes@ =~= Seq::<Meme>::empty(),
            r.voted@ =~= Seq::<(AccountId, u32)>::empty(),
            r.next_id == 1,
    {
        MemeVote::new()
    }

    /// The number of records ever created; equals the number currently
    /// stored, since nothing is ever deleted.
    pub fn total_memes(&self) -> (r: u32)
        requires
            self.wf(),
        ensures
            r as int == self.total(),
    {
        self.next_id - 1
    }

    /// Pure lookup of one record by id. Returns the stored record for an
    /// existing id and `None` for an id that is unknown or was never
    /// assigned.
    pub fn get_meme(&self, meme_id: u32) -> (r: Option<Meme>)
        requires
            self.wf(),
        ensures
            get_meme_post(*self, meme_id, opt_model(r)),
    {
        if 1 <= meme_id && meme_id as usize <= self.memes.len() {
            Some(self.memes[(meme_id - 1) as usize].duplicate())
        } else {
            None
        }
    }

    /// Create a new record. The title must be at most 100 characters
    /// (checked first) and the url must be non-empty (checked second); a
    /// rejected call leaves the registry unchanged and consumes no id. On
    /// success the record gets the next sequential id, starts with no likes,
    /// and the id counter advances by exactly one.
    pub fn add_meme(&mut self, caller: AccountId, title: String, url: String) -> (r: Result<
        u32,
        Error,
    >)
        requires
            old(self).wf(),
            old(self).next_id < u32::MAX,
        ensures
            final(self).wf(),
            match r {
                Ok(id) => {
                    &&& title@.len() <= 100
                    &&& url@.len() >= 1
                    &&& id == old(self).next_id
                    &&& create_applied(*old(self), *final(self), caller, title, url)
                },
                Err(e) => {
                    &&& *final(self) == *old(self)
                    &&& if title@.len() > 100 {
                        e == Error::TitleTooLong
                    } else {
                        url@.len() == 0 && e == Error::EmptyUrl
                    }
                },
            },
    {
        if title.as_str().unicode_len() > 100 {
            return Err(Error::TitleTooLong);
        }
        if url.as_str().unicode_len() == 0 {
            return Err(Error::EmptyUrl);
        }
        let meme_id = self.next_id;
        let meme = Meme { id: meme_id, creator: caller, title, url, likes: 0 };
        self.memes.push(meme);
        self.next_id = self.next_id + 1;
        proof {
            assert(forall|j: int|
                0 <= j < self.voted@.len() ==> (#[trigger] self.voted@[j]).1 != meme_id);
            lemma_count_votes_absent(self.voted@, meme_id);
        }
        Ok(meme_id)
    }

    /// Cast an up-vote by `caller` on record `meme_id`. Fails with
    /// `MemeNotFound` if no such record exists, then with `AlreadyVoted` if
    /// this identity already voted on it; a failed call leaves the registry
    /// unchanged. On success the like counter, the ledger entry and nothing
    /// else change, atomically.
    pub fn vote_up(&mut self, caller: AccountId, meme_id: u32) -> (r: Result<(), Error>)
        requires
            old(self).wf(),
            old(self).has_meme(meme_id) ==> old(self).meme_model(meme_id).likes < u32::MAX,
        ensures
            final(self).wf(),
            match r {
                Ok(_) => {
                    &&& old(self).vote_allowed(caller, meme_id)
                    &&& vote_applied(*old(self), *final(self), caller, meme_id)
                },
                Err(e) => {
                    &&& *final(self) == *old(self)
                    &&& if !old(self).has_meme(meme_id) {
                        e == Error::MemeNotFound
                    } else {
                        old(self).vote_recorded(caller, meme_id) && e == Error::AlreadyVoted
                    }
                },
            },
    {
        if !(1 <= meme_id && meme_id as usize <= self.memes.len()) {
            return Err(Error::MemeNotFound);
        }
        if self.has_voted(caller, meme_id) {
            return Err(Error::AlreadyVoted);
        }
        let idx = (meme_id - 1) as usize;
        let stored = self.memes[idx].duplicate();
        let bumped = Meme { likes: stored.likes + 1, ..stored };
        self.memes[idx] = bumped;
        self.voted.push((caller, meme_id));
        proof {
            let pre = *old(self);
            assert forall|i: int| 0 <= i < self.memes@.len() implies (#[trigger] self.memes@[i]).likes
                as nat == count_votes(self.voted@, (i + 1) as u32) by {
                lemma_count_votes_push(pre.voted@, (caller, meme_id), (i + 1) as u32);
            }
        }
        Ok(())
    }

    /// List records in increasing id order, starting at id `from`, collecting
    /// at most `limit` of them and stopping once the ids run out. `from` may
    /// be any value: ids below 1 never match and a start beyond all existing
    /// ids yields an empty listing; `limit == 0` yields an empty listing.
    pub fn get_memes(&self, from: u32, limit: u32) -> (r: Vec<Meme>)
        requires
            self.wf(),
        ensures
            r@.len() == range_len(*self, from, limit),
            forall|i: int|
                0 <= i < r@.len() ==> (#[trigger] r@[i])@ == self.meme_model(
                    (range_start(from) + i) as u32,
                ),
    {
        let mut result: Vec<Meme> = Vec::new();
        let start: u32 = if from < 1 {
            1
        } else {
            from
        };
        let mut id: u32 = start;
        while id < self.next_id && result.len() < limit as usize
            invariant
                self.wf(),
                start as int == range_start(from),
                start <= id,
                id as int <= self.total() + 1 || id == start,
                result@.len() == id - start,
                result@.len() <= limit as int,
                forall|i: int|
                    0 <= i < result@.len() ==> (#[trigger] result@[i])@ == self.meme_model(
                        (start + i) as u32,
                    ),
            decreases self.next_id - id,
        {
            result.push(self.memes[(id - 1) as usize].duplicate());
            id = id + 1;
        }
        result
    }

    /// List the top-ranked records: every stored record, sorted by likes
    /// descending with ties broken by ascending id, truncated to the first
    /// `limit` entries. A `limit` beyond the number of records returns them
    /// all; `limit == 0` returns an empty listing.
    pub fn get_top_memes(&self, limit: u32) -> (r: Vec<Meme>)
        requires
            self.wf(),
        ensures
            top_post(*self, limit, r@.map_values(|m: Meme| m@)),
    {
        let n = self.memes.len();
        let mut v: Vec<Meme> = Vec::new();
        let mut idx: usize = 0;
        while idx < n
            invariant
                self.wf(),
                n == self.memes@.len(),
                idx <= n,
                v@.len() == idx,
                forall|p: int| 0 <= p < idx ==> (#[trigger] v@[p]) == self.memes@[p],
            decreases n - idx,
        {
            v.push(self.memes[idx].duplicate());
            idx += 1;
        }
        proof {
            assert forall|k: u32| self.has_meme(k) implies #[trigger] holds_id(v@, k) by {
                assert(v@[k - 1].id == k);
            }
        }
        let mut i: usize = 1;
        while i < n
            invariant
                self.wf(),
                n == self.memes@.len(),
                v@.len() == n,
                1 <= i,
                i <= n || n <= 1,
                elems_stored(*self, v@),
                distinct_ids(v@),
                all_ids_present(*self, v@),
                sorted_prefix(v@, i as int),
            decreases n - i,
        {
            let mut j: usize = i;
            while j > 0 && ranks_before_exec(&v[j], &v[j - 1])
                invariant
                    self.wf(),
                    n == self.memes@.len(),
                    v@.len() == n,
                    j <= i < n,
                    elems_stored(*self, v@),
                    distinct_ids(v@),
                    all_ids_present(*self, v@),
                    sorted_except(v@, i as int + 1, j as int),
                decreases j,
            {
                let ghost pre = v@;
                let x = v[j].duplicate();
                let y = v[j - 1].duplicate();
                v[j - 1] = x;
                v[j] = y;
                proof {
                    lemma_swap_step(*self, pre, v@, i as int, j as int);
                }
                j -= 1;
            }
            proof {
                assert(sorted_prefix(v@, i as int + 1)) by {
                    lemma_close_hole(v@, i as int, j as int);
                }
            }
            i += 1;
        }
        let ghost full = v@;
        v.truncate(limit as usize);
        proof {
            let rm = v@.map_values(|m: Meme| m@);
            let m = v@.len() as int;
            assert forall|a: int, b: int| 0 <= a < b < rm.len() implies ranks_before(
                #[trigger] rm[a],
                #[trigger] rm[b],
            ) by {
                assert(rm[a] == full[a]@);
                assert(rm[b] == full[b]@);
                assert(ranks_before(full[a]@, full[b]@));
            }
            assert forall|a: int| 0 <= a < rm.len() implies self.has_meme((#[trigger] rm[a]).id)
                && rm[a] == self.meme_model(rm[a].id) by {
                assert(rm[a] == full[a]@);
                assert(full[a]@ == self.meme_model(full[a].id));
            }
            assert forall|k: u32, idx2: int|
                #![trigger rm[idx2], self.meme_model(k)]
                self.has_meme(k) && !contains_id(rm, k) && 0 <= idx2 < rm.len() implies ranks_before(
                rm[idx2],
                self.meme_model(k),
            ) by {
                assert(holds_id(full, k));
                let p = choose|p: int| 0 <= p < full.len() && (#[trigger] full[p]).id == k;
                if p < m {
                    assert(rm[p] == full[p]@);
                    assert(rm[p].id == k);
                    assert(false);
                }
                assert(rm[idx2] == full[idx2]@);
                assert(ranks_before(full[idx2]@, full[p]@));
                assert(full[p]@ == self.meme_model(k));
            }
        }
        v
    }

    /// Pure membership test on the vote ledger: whether `account` has already
    /// up-voted record `meme_id`. An unknown pair yields `false`, never an
    /// error.
    pub fn has_voted(&self, account: AccountId, meme_id: u32) -> (r: bool)
        ensures
            r == self.vote_recorded(account, meme_id),
    {
        let n = self.voted.len();
        let mut j: usize = 0;
        while j < n
            invariant
                n == self.voted@.len(),
                0 <= j <= n,
                forall|p: int| 0 <= p < j ==> self.voted@[p] != (account, meme_id),
            decreases n - j,
        {
            if self.voted[j].0 == account && self.voted[j].1 == meme_id {
                assert(self.voted@[j as int] == (account, meme_id));
                return true;
            }
            j += 1;
        }
        assert(!self.voted@.contains((account, meme_id)));
        false
    }
}

} // verus!
