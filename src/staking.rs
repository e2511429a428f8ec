//! The staking component: one cast per user and gallery, bid changes, and a
//! bid-ranked leaderboard per NFT. Only its controller (the vote façade) may
//! stake or change bids; reads are open to everyone.
use vstd::prelude::*;
use std::collections::HashMap;
use crate::access::AdminLock;
use crate::leaderboard::{bid_of, ranked, reranked, CastRecord, NftBoard, LEADERBOARD_SIZE};
use crate::types::{Addr, Amount};

verus! {

broadcast use vstd::std_specs::hash::group_hash_axioms;

/// What `get_position` answers for a user with no place on the leaderboard.
pub const NOT_RANKED: u8 = LEADERBOARD_SIZE + 3;

#[derive(Clone, Copy, Debug, PartialEq, Eq, Structural)]
pub enum StakeError {
    /// The caller may not run this entry point.
    Unauthorized(u8),
    /// The user has already staked in this gallery.
    AlreadyDone(u8),
    /// A counter is full.
    Exhausted(u8),
}

/// The stakes of one gallery.
#[derive(Debug)]
pub struct Room {
    total_votes: u64,
    voters: Vec<Addr>,
    nfts: HashMap<u64, NftBoard>,
}

impl Room {
    fn new() -> (r: Room)
        ensures
            r.total_votes == 0,
            r.voters@ == Seq::<Addr>::empty(),
            r.nfts@ == Map::<u64, NftBoard>::empty(),
    {
        Room { total_votes: 0, voters: Vec::new(), nfts: HashMap::new() }
    }
}

/// An empty slot of a leaderboard read: cast id 0 and zero everywhere else.
pub open spec fn empty_slot() -> (u64, Amount, Addr, u64) {
    (0, Amount { hi: 0, lo: 0 }, Addr { hi: 0, lo: 0 }, 0)
}

#[derive(Debug)]
pub struct Stake {
    rooms: HashMap<u64, Room>,
    stake_control: Option<Addr>,
    admin: AdminLock,
}

impl Stake {
    /// The casts on NFT `nft` of gallery `gallery`; cast `k` is entry `k - 1`.
    pub closed spec fn casts(&self, gallery: u64, nft: u64) -> Seq<CastRecord> {
        if self.rooms@.contains_key(gallery) && self.rooms@[gallery].nfts@.contains_key(nft) {
            self.rooms@[gallery].nfts@[nft].casts@
        } else {
            Seq::empty()
        }
    }

    /// The leaderboard of NFT `nft` of gallery `gallery`, as cast ids.
    pub closed spec fn board(&self, gallery: u64, nft: u64) -> Seq<u64> {
        if self.rooms@.contains_key(gallery) && self.rooms@[gallery].nfts@.contains_key(nft) {
            self.rooms@[gallery].nfts@[nft].leaderboard@
        } else {
            Seq::empty()
        }
    }

    /// Whether `user` has staked in `gallery`.
    pub closed spec fn voted(&self, gallery: u64, user: Addr) -> bool {
        self.rooms@.contains_key(gallery) && self.rooms@[gallery].voters@.contains(user)
    }

    /// How many stakes `gallery` has had, over all its NFTs.
    pub closed spec fn gallery_votes(&self, gallery: u64) -> u64 {
        if self.rooms@.contains_key(gallery) {
            self.rooms@[gallery].total_votes
        } else {
            0
        }
    }

    /// The only address allowed to stake and change bids, once set.
    pub closed spec fn controller(&self) -> Option<Addr> {
        self.stake_control
    }

    pub closed spec fn admin_lock(&self) -> AdminLock {
        self.admin
    }

    /// Every leaderboard is well formed over its casts.
    pub closed spec fn wf(&self) -> bool {
        forall|g: u64, n: u64|
            #![trigger self.rooms@[g].nfts@[n]]
            self.rooms@.contains_key(g) && self.rooms@[g].nfts@.contains_key(n) ==> self.rooms@[g].nfts@[n].wf()
    }

    /// Both states hold the same casts, leaderboards, vote flags and counts.
    pub open spec fn same_stakes(&self, other: Stake) -> bool {
        &&& forall|g: u64, n: u64| #[trigger] self.casts(g, n) == other.casts(g, n)
        &&& forall|g: u64, n: u64| #[trigger] self.board(g, n) == other.board(g, n)
        &&& forall|g: u64, u: Addr| #[trigger] self.voted(g, u) == other.voted(g, u)
        &&& forall|g: u64| #[trigger] self.gallery_votes(g) == other.gallery_votes(g)
    }

    /// Cast `id` of an NFT, or an all-zero cast where there is none.
    pub open spec fn cast_at(&self, gallery: u64, nft: u64, id: u64) -> CastRecord {
        let c = self.casts(gallery, nft);
        if 1 <= id && id <= c.len() {
            c[id - 1]
        } else {
            CastRecord { bid: Amount { hi: 0, lo: 0 }, updated: 0, voter: Addr { hi: 0, lo: 0 } }
        }
    }

    /// Place `i` of a leaderboard read: the cast there, or an empty slot.
    pub open spec fn slot(&self, gallery: u64, nft: u64, i: int) -> (u64, Amount, Addr, u64) {
        let b = self.board(gallery, nft);
        if 0 <= i < b.len() {
            let c = self.cast_at(gallery, nft, b[i]);
            (b[i], c.bid, c.voter, c.updated)
        } else {
            empty_slot()
        }
    }

    /// The voter at place `i` of a leaderboard.
    pub open spec fn voter_at(&self, gallery: u64, nft: u64, i: int) -> Addr {
        self.cast_at(gallery, nft, self.board(gallery, nft)[i]).voter
    }

    /// The zero-based place of `user` on a leaderboard, or `NOT_RANKED`.
    pub open spec fn position_of(&self, gallery: u64, nft: u64, user: Addr) -> u8 {
        let b = self.board(gallery, nft);
        if exists|i: int| 0 <= i < b.len() && #[trigger] self.voter_at(gallery, nft, i) == user {
            let i = choose|i: int|
                0 <= i < b.len() && #[trigger] self.voter_at(gallery, nft, i) == user && forall|
                    k: int,
                | 0 <= k < i ==> #[trigger] self.voter_at(gallery, nft, k) != user;
            i as u8
        } else {
            NOT_RANKED
        }
    }

    /// `self` is `pre` after `user`'s first stake of `bid` on an NFT at time
    /// `now`: the cast gets the next id, is ranked, and the user's vote flag
    /// for the gallery is set; nothing else changes.
    pub open spec fn stake_recorded(
        &self,
        pre: Stake,
        user: Addr,
        gallery_id: u64,
        nft_id: u64,
        bid: Amount,
        now: u64,
    ) -> bool {
        let c = pre.casts(gallery_id, nft_id);
        &&& self.casts(gallery_id, nft_id) == c.push(CastRecord { bid, updated: now, voter: user })
        &&& reranked(
            self.casts(gallery_id, nft_id),
            pre.board(gallery_id, nft_id),
            (c.len() + 1) as u64,
            self.board(gallery_id, nft_id),
        )
        &&& self.gallery_votes(gallery_id) == pre.gallery_votes(gallery_id) + 1
        &&& forall|g: u64, u: Addr| #[trigger]
            self.voted(g, u) == (pre.voted(g, u) || (g == gallery_id && u == user))
        &&& forall|g: u64, n: u64|
            !(g == gallery_id && n == nft_id) ==> #[trigger] self.casts(g, n) == pre.casts(g, n)
                && self.board(g, n) == pre.board(g, n)
        &&& forall|g: u64| g != gallery_id ==> #[trigger] self.gallery_votes(g) == pre.gallery_votes(g)
        &&& self.controller() == pre.controller()
        &&& self.admin_lock() == pre.admin_lock()
    }

    /// `self` is `pre` after cast `vote_id` of `user` was set to `bid` at time
    /// `now` and ranked anew; nothing else changes.
    pub open spec fn bid_updated(
        &self,
        pre: Stake,
        user: Addr,
        gallery_id: u64,
        nft_id: u64,
        vote_id: u64,
        bid: Amount,
        now: u64,
    ) -> bool {
        &&& self.casts(gallery_id, nft_id) == pre.casts(gallery_id, nft_id).update(
            vote_id - 1,
            CastRecord { bid, updated: now, voter: user },
        )
        &&& reranked(
            self.casts(gallery_id, nft_id),
            pre.board(gallery_id, nft_id),
            vote_id,
            self.board(gallery_id, nft_id),
        )
        &&& forall|g: u64, u: Addr| #[trigger] self.voted(g, u) == pre.voted(g, u)
        &&& forall|g: u64, n: u64|
            !(g == gallery_id && n == nft_id) ==> #[trigger] self.casts(g, n) == pre.casts(g, n)
                && self.board(g, n) == pre.board(g, n)
        &&& forall|g: u64| #[trigger] self.gallery_votes(g) == pre.gallery_votes(g)
        &&& self.controller() == pre.controller()
        &&& self.admin_lock() == pre.admin_lock()
    }

    /// What `stake` answers in a given state.
    pub open spec fn stake_verdict(&self, caller: Addr, user: Addr, gallery: u64, nft: u64) -> Result<
        (),
        StakeError,
    > {
        if self.controller() != Some(caller) {
            Err(StakeError::Unauthorized(3))
        } else if self.voted(gallery, user) {
            Err(StakeError::AlreadyDone(4))
        } else if self.gallery_votes(gallery) == u64::MAX || self.casts(gallery, nft).len()
            >= u64::MAX {
            Err(StakeError::Exhausted(5))
        } else {
            Ok(())
        }
    }

    /// What `update_bid` answers in a given state.
    pub open spec fn update_verdict(
        &self,
        caller: Addr,
        user: Addr,
        gallery: u64,
        nft: u64,
        vote_id: u64,
    ) -> Result<(), StakeError> {
        if self.controller() != Some(caller) {
            Err(StakeError::Unauthorized(11))
        } else if !(1 <= vote_id && vote_id <= self.casts(gallery, nft).len()) || self.cast_at(
            gallery,
            nft,
            vote_id,
        ).voter != user {
            Err(StakeError::Unauthorized(15))
        } else {
            Ok(())
        }
    }

    pub fn new() -> (r: Stake)
        ensures
            r.wf(),
            r.controller() == None::<Addr>,
            r.admin_lock() == AdminLock::Uninitialized,
            forall|g: u64, n: u64| #[trigger] r.casts(g, n) == Seq::<CastRecord>::empty(),
            forall|g: u64, n: u64| #[trigger] r.board(g, n) == Seq::<u64>::empty(),
            forall|g: u64, u: Addr| !#[trigger] r.voted(g, u),
            forall|g: u64| #[trigger] r.gallery_votes(g) == 0,
    {
        Stake { rooms: HashMap::new(), stake_control: None, admin: AdminLock::new() }
    }

    /// Whether `user` has staked in `gallery`.
    pub fn has_voted(&self, gallery_id: u64, user: Addr) -> (r: bool)
        ensures
            r == self.voted(gallery_id, user),
    {
        match self.rooms.get(&gallery_id) {
            Some(room) => {
                let mut i: usize = 0;
                while i < room.voters.len()
                    invariant
                        self.rooms@.contains_key(gallery_id),
                        self.rooms@[gallery_id] == *room,
                        i <= room.voters@.len(),
                        forall|k: int| 0 <= k < i ==> room.voters@[k] != user,
                    decreases room.voters@.len() - i,
                {
                    if room.voters[i] == user {
                        assert(room.voters@[i as int] == user);
                        return true;
                    }
                    i = i + 1;
                }
                false
            },
            None => false,
        }
    }

    /// How many stakes `gallery` has had.
    pub fn get_gallery_total_votes(&self, gallery_id: u64) -> (r: u64)
        ensures
            r == self.gallery_votes(gallery_id),
    {
        match self.rooms.get(&gallery_id) {
            Some(room) => room.total_votes,
            None => 0,
        }
    }

    fn board_ref(&self, gallery_id: u64, nft_id: u64) -> (r: Option<&NftBoard>)
        ensures
            match r {
                Some(b) => self.rooms@.contains_key(gallery_id) && self.rooms@[gallery_id].nfts@.contains_key(nft_id)
                    && *b == self.rooms@[gallery_id].nfts@[nft_id],
                None => !(self.rooms@.contains_key(gallery_id) && self.rooms@[gallery_id].nfts@.contains_key(nft_id)),
            },
    {
        match self.rooms.get(&gallery_id) {
            Some(room) => room.nfts.get(&nft_id),
            None => None,
        }
    }

    /// How many casts an NFT has.
    pub fn get_total_votes(&self, gallery_id: u64, nft_id: u64) -> (r: u64)
        ensures
            r == self.casts(gallery_id, nft_id).len(),
    {
        match self.board_ref(gallery_id, nft_id) {
            Some(b) => b.casts.len() as u64,
            None => 0,
        }
    }

    /// The bid, last update time and voter of a cast; zeros where there is none.
    pub fn get_cast(&self, gallery_id: u64, nft_id: u64, vote_id: u64) -> (r: (Amount, u64, Addr))
        ensures
            r == (self.cast_at(gallery_id, nft_id, vote_id).bid, self.cast_at(gallery_id, nft_id, vote_id).updated,
                self.cast_at(gallery_id, nft_id, vote_id).voter),
    {
        match self.board_ref(gallery_id, nft_id) {
            Some(b) => {
                if 1 <= vote_id && vote_id <= b.casts.len() as u64 {
                    let c = b.cast(vote_id);
                    (c.bid, c.updated, c.voter)
                } else {
                    (Amount::zero(), 0, Addr::zero())
                }
            },
            None => (Amount::zero(), 0, Addr::zero()),
        }
    }

    fn is_controller(&self, caller: Addr) -> (r: bool)
        ensures
            r == (self.controller() == Some(caller)),
    {
        match self.stake_control {
            Some(a) => a == caller,
            None => false,
        }
    }

    /// Records a first stake of `user` in a gallery, on one of its NFTs, and
    /// ranks it. Only the controller may call this, once per user and gallery.
    pub fn stake(
        &mut self,
        caller: Addr,
        user: Addr,
        gallery_id: u64,
        nft_id: u64,
        bid: Amount,
        now: u64,
    ) -> (r: Result<(), StakeError>)
        requires
            old(self).wf(),
        ensures
            final(self).wf(),
            r == old(self).stake_verdict(caller, user, gallery_id, nft_id),
            r is Err ==> *final(self) == *old(self),
            r is Ok ==> final(self).stake_recorded(*old(self), user, gallery_id, nft_id, bid, now),
    {
        if !self.is_controller(caller) {
            return Err(StakeError::Unauthorized(3));
        }
        if self.has_voted(gallery_id, user) {
            return Err(StakeError::AlreadyDone(4));
        }
        let gallery_votes = self.get_gallery_total_votes(gallery_id);
        let count = self.get_total_votes(gallery_id, nft_id);
        if gallery_votes == u64::MAX || count == u64::MAX {
            return Err(StakeError::Exhausted(5));
        }
        let ghost pre = *self;
        let mut room = match self.rooms.remove(&gallery_id) {
            Some(room) => room,
            None => Room::new(),
        };
        let mut board = match room.nfts.remove(&nft_id) {
            Some(board) => board,
            None => NftBoard::new(),
        };
        let ghost prev = board.casts@;
        assert(prev == pre.casts(gallery_id, nft_id));
        assert(ranked(prev, board.leaderboard@));
        board.casts.push(CastRecord { bid, updated: now, voter: user });
        assert forall|k: u64| k != count + 1 implies bid_of(prev, k) == bid_of(board.casts@, k) by {
            if 1 <= k && k <= prev.len() {
                assert(board.casts@[k - 1] == prev[k - 1]);
            }
        }
        board.update_le_nft(count + 1, Ghost(prev));
        room.nfts.insert(nft_id, board);
        room.total_votes = gallery_votes + 1;
        room.voters.push(user);
        self.rooms.insert(gallery_id, room);
        proof {
            assert(room.voters@.contains(user)) by {
                assert(room.voters@[room.voters@.len() - 1] == user);
            }
            assert forall|g: u64, u: Addr| #[trigger]
                self.voted(g, u) == (pre.voted(g, u) || (g == gallery_id && u == user)) by {
                if g == gallery_id && pre.rooms@.contains_key(g) {
                    let old_voters = pre.rooms@[g].voters@;
                    if old_voters.contains(u) {
                        let k = choose|k: int| 0 <= k < old_voters.len() && old_voters[k] == u;
                        assert(room.voters@[k] == u);
                    }
                    if room.voters@.contains(u) && u != user {
                        let k = choose|k: int| 0 <= k < room.voters@.len() && room.voters@[k] == u;
                        assert(old_voters[k] == u);
                    }
                }
                if g == gallery_id && !pre.rooms@.contains_key(g) {
                    if room.voters@.contains(u) {
                        let k = choose|k: int| 0 <= k < room.voters@.len() && room.voters@[k] == u;
                        assert(k == 0);
                    }
                }
            }
        }
        Ok(())
    }

    /// Sets the bid of cast `vote_id`, which must belong to `user`, and ranks
    /// it anew. Only the controller may call this; it is trusted to pass a bid
    /// above the old one.
    pub fn update_bid(
        &mut self,
        caller: Addr,
        user: Addr,
        gallery_id: u64,
        nft_id: u64,
        vote_id: u64,
        bid: Amount,
        now: u64,
    ) -> (r: Result<(), StakeError>)
        requires
            old(self).wf(),
        ensures
            final(self).wf(),
            r == old(self).update_verdict(caller, user, gallery_id, nft_id, vote_id),
            r is Err ==> *final(self) == *old(self),
            r is Ok ==> final(self).bid_updated(*old(self), user, gallery_id, nft_id, vote_id, bid, now),
    {
        if !self.is_controller(caller) {
            return Err(StakeError::Unauthorized(11));
        }
        let count = self.get_total_votes(gallery_id, nft_id);
        let (_, _, voter) = self.get_cast(gallery_id, nft_id, vote_id);
        if vote_id < 1 || vote_id > count || voter != user {
            return Err(StakeError::Unauthorized(15));
        }
        let ghost pre = *self;
        let mut room = self.rooms.remove(&gallery_id).unwrap();
        let mut board = room.nfts.remove(&nft_id).unwrap();
        let ghost prev = board.casts@;
        assert(prev == pre.casts(gallery_id, nft_id));
        assert(ranked(prev, board.leaderboard@));
        board.set_cast(vote_id, CastRecord { bid, updated: now, voter: user });
        assert forall|k: u64| k != vote_id implies bid_of(prev, k) == bid_of(board.casts@, k) by {
            if 1 <= k && k <= prev.len() {
                assert(board.casts@[k - 1] == prev[k - 1]);
            }
        }
        board.update_le_nft(vote_id, Ghost(prev));
        room.nfts.insert(nft_id, board);
        self.rooms.insert(gallery_id, room);
        Ok(())
    }

    /// Leaderboard places `start` up to `end` (not included) of an NFT, each
    /// as (cast id, bid, voter, last update); places past the last entry read
    /// as empty slots.
    pub fn get_leaderboard(&self, gallery_id: u64, nft_id: u64, start: u8, end: u8) -> (r: Vec<
        (u64, Amount, Addr, u64),
    >)
        requires
            self.wf(),
        ensures
            r@.len() == (if start < end {
                end - start
            } else {
                0
            }),
            forall|k: int| 0 <= k < r@.len() ==> #[trigger] r@[k] == self.slot(gallery_id, nft_id, start + k),
    {
        let mut out: Vec<(u64, Amount, Addr, u64)> = Vec::new();
        if start >= end {
            return out;
        }
        let board = self.board_ref(gallery_id, nft_id);
        let mut i: u8 = start;
        while i < end
            invariant
                start <= i <= end,
                out@.len() == i - start,
                self.wf(),
                match board {
                    Some(b) => self.rooms@.contains_key(gallery_id) && self.rooms@[gallery_id].nfts@.contains_key(nft_id)
                        && *b == self.rooms@[gallery_id].nfts@[nft_id],
                    None => !(self.rooms@.contains_key(gallery_id) && self.rooms@[gallery_id].nfts@.contains_key(nft_id)),
                },
                forall|k: int| 0 <= k < out@.len() ==> #[trigger] out@[k] == self.slot(gallery_id, nft_id, start + k),
            decreases end - i,
        {
            let entry = match board {
                Some(b) => {
                    if (i as usize) < b.leaderboard.len() {
                        let id = b.leaderboard[i as usize];
                        assert(b.wf());
                        assert(1 <= id <= b.casts@.len());
                        let c = b.cast(id);
                        (id, c.bid, c.voter, c.updated)
                    } else {
                        (0, Amount::zero(), Addr::zero(), 0)
                    }
                },
                None => (0, Amount::zero(), Addr::zero(), 0),
            };
            assert(entry == self.slot(gallery_id, nft_id, i as int));
            out.push(entry);
            i = i + 1;
        }
        out
    }

    /// The zero-based place of `user`'s cast on an NFT's leaderboard, or
    /// `NOT_RANKED` where the user has none there.
    pub fn get_position(&self, gallery_id: u64, nft_id: u64, user: Addr) -> (r: Result<u8, StakeError>)
        requires
            self.wf(),
        ensures
            r == Ok::<u8, StakeError>(self.position_of(gallery_id, nft_id, user)),
    {
        let board = match self.board_ref(gallery_id, nft_id) {
            Some(b) => b,
            None => {
                assert(self.board(gallery_id, nft_id).len() == 0);
                return Ok(NOT_RANKED);
            },
        };
        assert(board.wf());
        let ghost b = board.leaderboard@;
        let mut i: usize = 0;
        while i < board.leaderboard.len()
            invariant
                board.wf(),
                b == board.leaderboard@,
                b == self.board(gallery_id, nft_id),
                board.casts@ == self.casts(gallery_id, nft_id),
                i <= b.len(),
                forall|k: int| 0 <= k < i ==> #[trigger] self.voter_at(gallery_id, nft_id, k) != user,
            decreases b.len() - i,
        {
            let id = board.leaderboard[i];
            assert(1 <= id <= board.casts@.len());
            if board.cast(id).voter == user {
                proof {
                    assert(self.voter_at(gallery_id, nft_id, i as int) == user);
                    let j = choose|j: int|
                        0 <= j < b.len() && #[trigger] self.voter_at(gallery_id, nft_id, j) == user
                            && forall|k: int| 0 <= k < j ==> #[trigger] self.voter_at(gallery_id, nft_id, k) != user;
                    if j < i {
                    } else if j > i {
                        assert(self.voter_at(gallery_id, nft_id, i as int) != user);
                    }
                    assert(j == i);
                }
                return Ok(i as u8);
            }
            i = i + 1;
        }
        Ok(NOT_RANKED)
    }

    /// Names the only address allowed to stake and change bids.
    pub fn set_control(&mut self, caller: Addr, stake: Addr) -> (r: Result<(), StakeError>)
        ensures
            r is Ok == old(self).admin_lock().admits(caller),
            r is Err ==> r == Err::<(), StakeError>(StakeError::Unauthorized(0)) && *final(self) == *old(self),
            r is Ok ==> final(self).controller() == Some(stake) && final(self).admin_lock() == AdminLock::Owner(caller),
            final(self).same_stakes(*old(self)),
            final(self).wf() == old(self).wf(),
    {
        if !self.admin.check_admin(caller) {
            return Err(StakeError::Unauthorized(0));
        }
        self.stake_control = Some(stake);
        Ok(())
    }
}

/// Leaderboards are always ordered by bid from the highest down, hold at most
/// `LEADERBOARD_SIZE` casts, and never name a cast twice.
pub proof fn lemma_leaderboard_sorted(s: Stake, gallery: u64, nft: u64)
    requires
        s.wf(),
    ensures
        ranked(s.casts(gallery, nft), s.board(gallery, nft)),
        s.board(gallery, nft).len() <= LEADERBOARD_SIZE,
        forall|i: int, j: int|
            0 <= i < j < s.board(gallery, nft).len() ==> bid_of(
                s.casts(gallery, nft),
                #[trigger] s.board(gallery, nft)[i],
            ) >= bid_of(s.casts(gallery, nft), #[trigger] s.board(gallery, nft)[j]),
{
    if s.rooms@.contains_key(gallery) && s.rooms@[gallery].nfts@.contains_key(nft) {
        assert(s.rooms@[gallery].nfts@[nft].wf());
    }
}

/// A user's first stake in a gallery sets their vote flag there, and the
/// controller's every later stake for them in that gallery, on any NFT, is
/// refused as already done.
pub proof fn lemma_second_stake_refused(
    before: Stake,
    after: Stake,
    controller: Addr,
    user: Addr,
    gallery: u64,
    nft: u64,
    bid: Amount,
    now: u64,
    other_nft: u64,
)
    requires
        after.stake_recorded(before, user, gallery, nft, bid, now),
        after.controller() == Some(controller),
    ensures
        !before.voted(gallery, user) ==> after.voted(gallery, user),
        after.voted(gallery, user),
        after.stake_verdict(controller, user, gallery, other_nft) == Err::<(), StakeError>(
            StakeError::AlreadyDone(4),
        ),
{
    assert(after.voted(gallery, user));
}

/// No stake and no bid change ever clears a vote flag.
pub proof fn lemma_vote_flags_persist(
    before: Stake,
    after: Stake,
    user: Addr,
    gallery: u64,
    nft: u64,
    vote_id: u64,
    bid: Amount,
    now: u64,
    g: u64,
    u: Addr,
)
    requires
        after.stake_recorded(before, user, gallery, nft, bid, now) || after.bid_updated(
            before,
            user,
            gallery,
            nft,
            vote_id,
            bid,
            now,
        ),
        before.voted(g, u),
    ensures
        after.voted(g, u),
{
    if after.stake_recorded(before, user, gallery, nft, bid, now) {
        assert(after.voted(g, u) == (before.voted(g, u) || (g == gallery && u == user)));
    } else {
        assert(after.voted(g, u) == before.voted(g, u));
    }
}

/// Two leaderboard reads of the same range in the same state agree: reading
/// changes nothing and depends on nothing but the state.
pub proof fn lemma_leaderboard_reads_agree(
    s: Stake,
    gallery: u64,
    nft: u64,
    start: u8,
    end: u8,
    first: Seq<(u64, Amount, Addr, u64)>,
    second: Seq<(u64, Amount, Addr, u64)>,
)
    requires
        first.len() == (if start < end {
            end - start
        } else {
            0
        }),
        forall|k: int| 0 <= k < first.len() ==> #[trigger] first[k] == s.slot(gallery, nft, start + k),
        second.len() == first.len(),
        forall|k: int| 0 <= k < second.len() ==> #[trigger] second[k] == s.slot(gallery, nft, start + k),
    ensures
        first == second,
{
    assert(first =~= second);
}

/// A bid change through the staking component sets the stored bid to exactly
/// the bid passed, so it never lowers a stored bid when that bid is at least
/// the old one.
pub proof fn lemma_update_bid_never_lowers(
    before: Stake,
    after: Stake,
    user: Addr,
    gallery: u64,
    nft: u64,
    vote_id: u64,
    bid: Amount,
    now: u64,
)
    requires
        after.bid_updated(before, user, gallery, nft, vote_id, bid, now),
        1 <= vote_id <= before.casts(gallery, nft).len(),
        before.cast_at(gallery, nft, vote_id).bid.value() <= bid.value(),
    ensures
        after.cast_at(gallery, nft, vote_id).bid == bid,
        after.cast_at(gallery, nft, vote_id).bid.value() >= before.cast_at(gallery, nft, vote_id).bid.value(),
{
}

} // verus!
