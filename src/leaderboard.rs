//! The bid-ranked leaderboard of one NFT: a bounded list of cast ids, best
//! bid first.
use vstd::prelude::*;
use crate::types::{Addr, Amount};

verus! {

/// How many casts a leaderboard holds at most.
pub const LEADERBOARD_SIZE: u8 = 30;

/// One user's stake on one NFT.
#[derive(Clone, Copy, Debug, PartialEq, Eq, Structural)]
pub struct CastRecord {
    /// The amount currently staked.
    pub bid: Amount,
    /// Block time of the last stake or bid change.
    pub updated: u64,
    /// Who staked; never changes once the cast exists.
    pub voter: Addr,
}

/// The bid of cast `id` (ids count from 1); zero where there is no such cast.
pub open spec fn bid_of(casts: Seq<CastRecord>, id: u64) -> nat {
    if 1 <= id && id <= casts.len() {
        casts[id - 1].bid.value()
    } else {
        0
    }
}

/// `board` is a well-formed leaderboard over `casts`: at most
/// `LEADERBOARD_SIZE` distinct existing casts, each with a positive bid,
/// ordered by bid from the highest down.
pub open spec fn ranked(casts: Seq<CastRecord>, board: Seq<u64>) -> bool {
    &&& board.len() <= LEADERBOARD_SIZE
    &&& forall|i: int| 0 <= i < board.len() ==> 1 <= #[trigger] board[i] <= casts.len()
    &&& forall|i: int| 0 <= i < board.len() ==> bid_of(casts, #[trigger] board[i]) > 0
    &&& forall|i: int, j: int| 0 <= i < j < board.len() ==> board[i] != board[j]
    &&& forall|i: int, j: int|
        0 <= i < j < board.len() ==> bid_of(casts, #[trigger] board[i]) >= bid_of(
            casts,
            #[trigger] board[j],
        )
}

/// `board` with the entry `id` taken out, if it holds one.
pub open spec fn without(board: Seq<u64>, id: u64) -> Seq<u64> {
    if board.contains(id) {
        board.remove(board.index_of(id))
    } else {
        board
    }
}

/// Position `p` parts `board` into the entries bidding at least `v` and those
/// bidding less.
pub open spec fn splits_at(casts: Seq<CastRecord>, board: Seq<u64>, v: nat, p: int) -> bool {
    &&& 0 <= p <= board.len()
    &&& forall|i: int| 0 <= i < p ==> bid_of(casts, #[trigger] board[i]) >= v
    &&& forall|i: int| p <= i < board.len() ==> bid_of(casts, #[trigger] board[i]) < v
}

/// `id` put in at position `p`, keeping the first `LEADERBOARD_SIZE` entries.
pub open spec fn placed(board: Seq<u64>, p: int, id: u64) -> Seq<u64> {
    let s = board.insert(p, id);
    if s.len() > LEADERBOARD_SIZE {
        s.take(LEADERBOARD_SIZE as int)
    } else {
        s
    }
}

/// `after` is `before` once cast `id` has been (re)ranked at its current bid:
/// the cast leaves its old place and, if its bid is positive, enters after
/// every entry bidding at least as much; what falls past the last place drops.
pub open spec fn reranked(
    casts: Seq<CastRecord>,
    before: Seq<u64>,
    id: u64,
    after: Seq<u64>,
) -> bool {
    let rest = without(before, id);
    let v = bid_of(casts, id);
    if v == 0 {
        after == rest
    } else {
        exists|p: int| #[trigger] splits_at(casts, rest, v, p) && after == placed(rest, p, id)
    }
}

/// The casts of one NFT and its leaderboard.
#[derive(Debug)]
pub struct NftBoard {
    /// Cast `k` is `casts[k - 1]`.
    pub casts: Vec<CastRecord>,
    /// Cast ids, best bid first.
    pub leaderboard: Vec<u64>,
}

impl NftBoard {
    pub fn new() -> (r: NftBoard)
        ensures
            r.casts@ == Seq::<CastRecord>::empty(),
            r.leaderboard@ == Seq::<u64>::empty(),
    {
        NftBoard { casts: Vec::new(), leaderboard: Vec::new() }
    }

    pub open spec fn wf(&self) -> bool {
        ranked(self.casts@, self.leaderboard@)
    }

    /// Cast `id`, which must exist.
    pub fn cast(&self, id: u64) -> (r: CastRecord)
        requires
            1 <= id <= self.casts@.len(),
        ensures
            r == self.casts@[id - 1],
    {
        let n = self.casts.len();
        assert(id - 1 < n);
        self.casts[(id - 1) as usize]
    }

    /// Replaces cast `id`, which must exist.
    pub fn set_cast(&mut self, id: u64, c: CastRecord)
        requires
            1 <= id <= old(self).casts@.len(),
        ensures
            final(self).casts@ == old(self).casts@.update(id - 1, c),
            final(self).leaderboard@ == old(self).leaderboard@,
    {
        let n = self.casts.len();
        assert(id - 1 < n);
        self.casts.set((id - 1) as usize, c);
    }

    /// The bid of cast `id`, which must exist.
    fn bid(&self, id: u64) -> (r: Amount)
        requires
            1 <= id <= self.casts@.len(),
        ensures
            r.value() == bid_of(self.casts@, id),
    {
        self.cast(id).bid
    }

    /// Re-ranks cast `id` after its bid was set. Every other cast keeps the bid
    /// it had in `prev`, over which the leaderboard was well formed.
    pub fn update_le_nft(&mut self, id: u64, Ghost(prev): Ghost<Seq<CastRecord>>)
        requires
            ranked(prev, old(self).leaderboard@),
            1 <= id <= old(self).casts@.len(),
            prev.len() <= old(self).casts@.len(),
            forall|k: u64| k != id ==> bid_of(prev, k) == bid_of(old(self).casts@, k),
        ensures
            final(self).casts@ == old(self).casts@,
            final(self).wf(),
            reranked(old(self).casts@, old(self).leaderboard@, id, final(self).leaderboard@),
    {
        let ghost casts = self.casts@;
        let ghost before = self.leaderboard@;
        let ghost v = bid_of(casts, id);
        proof {
            lemma_without_ranked(prev, casts, before, id);
        }
        // take the cast out of its old place
        let mut i: usize = 0;
        while i < self.leaderboard.len() && self.leaderboard[i] != id
            invariant
                self.leaderboard@ == before,
                self.casts@ == casts,
                i <= before.len(),
                forall|k: int| 0 <= k < i ==> before[k] != id,
            decreases before.len() - i,
        {
            i = i + 1;
        }
        let found = i < self.leaderboard.len();
        if found {
            proof {
                lemma_index_of_distinct(before, id, i as int);
            }
            self.leaderboard.remove(i);
        } else {
            assert(!before.contains(id));
        }
        let ghost rest = self.leaderboard@;
        assert(rest == without(before, id));
        if self.bid(id).is_zero() {
            return;
        }
        let amount = self.bid(id);
        // the first place whose entry bids less than the cast
        let mut p: usize = 0;
        while p < self.leaderboard.len() && !self.bid(self.leaderboard[p]).lt(&amount)
            invariant
                self.leaderboard@ == rest,
                self.casts@ == casts,
                ranked(casts, rest),
                1 <= id <= casts.len(),
                amount.value() == v,
                p <= rest.len(),
                forall|k: int| 0 <= k < p ==> bid_of(casts, #[trigger] rest[k]) >= v,
            decreases rest.len() - p,
        {
            p = p + 1;
        }
        proof {
            if p < rest.len() {
                assert forall|k: int| p <= k < rest.len() implies bid_of(casts, #[trigger] rest[k])
                    < v by {
                    if k > p {
                        assert(bid_of(casts, rest[p as int]) >= bid_of(casts, rest[k]));
                    }
                }
            }
            assert(splits_at(casts, rest, v, p as int));
            lemma_placed_ranked(casts, rest, id, p as int);
        }
        if p < LEADERBOARD_SIZE as usize {
            self.leaderboard.insert(p, id);
            if self.leaderboard.len() > LEADERBOARD_SIZE as usize {
                self.leaderboard.truncate(LEADERBOARD_SIZE as usize);
            }
            assert(self.leaderboard@ == placed(rest, p as int, id));
        } else {
            assert(placed(rest, p as int, id) =~= rest);
        }
    }
}

/// In a sequence without repeats, the index of an entry is where it stands.
proof fn lemma_index_of_distinct(s: Seq<u64>, x: u64, i: int)
    requires
        0 <= i < s.len(),
        s[i] == x,
        forall|a: int, b: int| 0 <= a < b < s.len() ==> s[a] != s[b],
    ensures
        s.contains(x),
        s.index_of(x) == i,
{
    assert(s.contains(x));
    let j = s.index_of(x);
    assert(0 <= j < s.len() && s[j] == x);
}

/// Taking a cast out of a leaderboard leaves a leaderboard, also once that
/// cast's bid has changed.
proof fn lemma_without_ranked(prev: Seq<CastRecord>, casts: Seq<CastRecord>, before: Seq<u64>, id: u64)
    requires
        ranked(prev, before),
        prev.len() <= casts.len(),
        forall|k: u64| k != id ==> bid_of(prev, k) == bid_of(casts, k),
    ensures
        ranked(casts, without(before, id)),
        !without(before, id).contains(id),
{
    let rest = without(before, id);
    if before.contains(id) {
        let j = before.index_of(id);
        assert(0 <= j < before.len() && before[j] == id);
        assert forall|k: int| 0 <= k < rest.len() implies #[trigger] rest[k] == (if k < j {
            before[k]
        } else {
            before[k + 1]
        }) by {}
        assert forall|k: int| 0 <= k < rest.len() implies #[trigger] rest[k] != id by {
            if k < j {
                assert(before[k] != before[j]);
            } else {
                assert(before[j] != before[k + 1]);
            }
        }
        assert forall|a: int, b: int| 0 <= a < b < rest.len() implies bid_of(casts, #[trigger] rest[a])
            >= bid_of(casts, #[trigger] rest[b]) by {
            let a2 = if a < j { a } else { a + 1 };
            let b2 = if b < j { b } else { b + 1 };
            assert(rest[a] == before[a2] && rest[b] == before[b2]);
            assert(bid_of(prev, before[a2]) >= bid_of(prev, before[b2]));
        }
        assert forall|a: int, b: int| 0 <= a < b < rest.len() implies rest[a] != rest[b] by {
            let a2 = if a < j { a } else { a + 1 };
            let b2 = if b < j { b } else { b + 1 };
            assert(rest[a] == before[a2] && rest[b] == before[b2]);
        }
        assert forall|k: int| 0 <= k < rest.len() implies bid_of(casts, #[trigger] rest[k]) > 0 by {
            let k2 = if k < j { k } else { k + 1 };
            assert(rest[k] == before[k2]);
        }
        assert forall|k: int| 0 <= k < rest.len() implies 1 <= #[trigger] rest[k] <= casts.len() by {
            let k2 = if k < j { k } else { k + 1 };
            assert(rest[k] == before[k2]);
        }
    } else {
        assert forall|k: int| 0 <= k < rest.len() implies #[trigger] rest[k] != id by {
            if rest[k] == id {
                assert(before.contains(id));
            }
        }
        assert forall|a: int, b: int| 0 <= a < b < rest.len() implies bid_of(casts, #[trigger] rest[a])
            >= bid_of(casts, #[trigger] rest[b]) by {
            assert(bid_of(prev, before[a]) >= bid_of(prev, before[b]));
        }
        assert forall|k: int| 0 <= k < rest.len() implies bid_of(casts, #[trigger] rest[k]) > 0 by {
            assert(bid_of(prev, before[k]) > 0);
        }
    }
}

/// Putting a cast with a positive bid at the place that parts the entries
/// bidding at least as much from those bidding less keeps a leaderboard.
proof fn lemma_placed_ranked(casts: Seq<CastRecord>, rest: Seq<u64>, id: u64, p: int)
    requires
        ranked(casts, rest),
        !rest.contains(id),
        1 <= id <= casts.len(),
        bid_of(casts, id) > 0,
        splits_at(casts, rest, bid_of(casts, id), p),
    ensures
        ranked(casts, placed(rest, p, id)),
{
    let s = rest.insert(p, id);
    let v = bid_of(casts, id);
    assert forall|k: int| 0 <= k < s.len() implies #[trigger] s[k] == (if k < p {
        rest[k]
    } else if k == p {
        id
    } else {
        rest[k - 1]
    }) by {}
    assert forall|k: int| 0 <= k < s.len() implies bid_of(casts, #[trigger] s[k]) > 0 && 1 <= s[k]
        <= casts.len() by {}
    assert forall|a: int, b: int| 0 <= a < b < s.len() implies s[a] != s[b] by {
        if a == p {
            assert(rest[b - 1] != id);
        } else if b == p {
            assert(rest[a] != id);
        }
    }
    assert forall|a: int, b: int| 0 <= a < b < s.len() implies bid_of(casts, #[trigger] s[a])
        >= bid_of(casts, #[trigger] s[b]) by {
        if a < p && b > p {
            assert(bid_of(casts, rest[a]) >= bid_of(casts, rest[b - 1]));
        } else if a > p {
            assert(bid_of(casts, rest[a - 1]) >= bid_of(casts, rest[b - 1]));
        } else if b < p {
            assert(bid_of(casts, rest[a]) >= bid_of(casts, rest[b]));
        }
    }
    let t = placed(rest, p, id);
    assert forall|k: int| 0 <= k < t.len() implies #[trigger] t[k] == s[k] by {}
}

} // verus!
