//! The vote façade: the only caller the staking component accepts. It holds
//! every stake to the gallery's voting window, ticket, one-vote and minimum-bid
//! rules, and every bid change to a strict increase, and says which payment to
//! the NFT's creator each one costs.
use vstd::prelude::*;
use crate::access::AdminLock;
use crate::curation::Mainx;
use crate::gallery::Subject;
use crate::staking::{Stake, StakeError};
use crate::types::{
    amount_of, lemma_amount_of_value, lemma_value_of_amount, limb_base, Addr, Amount, Transfer,
};

verus! {

#[derive(Clone, Copy, Debug, PartialEq, Eq, Structural)]
pub enum CastError {
    /// The gallery or NFT does not exist, voting is not open, or no token is
    /// configured.
    InvalidState(u8),
    /// The caller lacks a ticket, does not own the cast, or the staking
    /// component does not take calls from this façade.
    Unauthorized(u8),
    /// The caller has voted in this gallery already.
    AlreadyDone(u8),
    /// The bid is below the minimum, or does not exceed the old one.
    InsufficientValue(u8),
    /// A counter of the staking component is full.
    Exhausted(u8),
}

/// How a refusal of the staking component reaches the voter.
pub open spec fn stake_failure(e: StakeError, point: u8) -> CastError {
    match e {
        StakeError::Unauthorized(_) => CastError::Unauthorized(point),
        StakeError::AlreadyDone(_) => CastError::AlreadyDone(point),
        StakeError::Exhausted(_) => CastError::Exhausted(point),
    }
}

fn map_stake_failure(e: StakeError, point: u8) -> (r: CastError)
    ensures
        r == stake_failure(e, point),
{
    match e {
        StakeError::Unauthorized(_) => CastError::Unauthorized(point),
        StakeError::AlreadyDone(_) => CastError::AlreadyDone(point),
        StakeError::Exhausted(_) => CastError::Exhausted(point),
    }
}

/// The creator of the NFT at accepted index `nft` of gallery `g`; the zero
/// address where there is none.
pub open spec fn creator_of(library: &Mainx, g: u64, nft: u64) -> Addr {
    library.submission_at(g, library.accepted_at(g, nft)).owner
}

/// Whether `now` lies strictly inside the voting window of gallery `g`.
pub open spec fn voting_open(galleries: &Subject, g: u64, now: u64) -> bool {
    galleries.record(g).voting_start < now && now < galleries.record(g).voting_end
}

/// Whether cast `vote_id` of an NFT exists and belongs to `user`.
pub open spec fn owns_cast(staking: &Stake, g: u64, nft: u64, vote_id: u64, user: Addr) -> bool {
    1 <= vote_id && vote_id <= staking.casts(g, nft).len() && staking.cast_at(g, nft, vote_id).voter
        == user
}

#[derive(Debug)]
pub struct Cast {
    address: Addr,
    stake: Option<Addr>,
    erc20: Option<Addr>,
    gallery_c: Option<Addr>,
    admin: AdminLock,
}

impl Cast {
    /// This façade's own address, as the staking component sees it.
    pub closed spec fn address(&self) -> Addr {
        self.address
    }

    /// The token that stakes are paid in, once set.
    pub closed spec fn token(&self) -> Option<Addr> {
        self.erc20
    }

    /// The staking component's address, once set.
    pub closed spec fn stake_address(&self) -> Option<Addr> {
        self.stake
    }

    /// The gallery component's address, once set.
    pub closed spec fn gallery_address(&self) -> Option<Addr> {
        self.gallery_c
    }

    pub closed spec fn admin_lock(&self) -> AdminLock {
        self.admin
    }

    /// What `cast_vote` answers in a given state.
    pub open spec fn vote_verdict(
        &self,
        staking: &Stake,
        galleries: &Subject,
        library: &Mainx,
        caller: Addr,
        now: u64,
        g: u64,
        nft: u64,
        bid: Amount,
    ) -> Result<Transfer, CastError> {
        if !galleries.exists_gallery(g) {
            Err(CastError::InvalidState(202))
        } else if !voting_open(galleries, g, now) {
            Err(CastError::InvalidState(19))
        } else if !galleries.has_ticket(g, caller) {
            Err(CastError::Unauthorized(20))
        } else if staking.voted(g, caller) {
            Err(CastError::AlreadyDone(20))
        } else if bid.value() < galleries.record(g).minimum_staking_amount.value() {
            Err(CastError::InsufficientValue(20))
        } else if creator_of(library, g, nft).is_zero_spec() {
            Err(CastError::InvalidState(191))
        } else if self.token() is None {
            Err(CastError::InvalidState(201))
        } else if staking.stake_verdict(self.address(), caller, g, nft) is Err {
            Err(stake_failure(staking.stake_verdict(self.address(), caller, g, nft)->Err_0, 11))
        } else {
            Ok(
                Transfer {
                    token: self.token()->Some_0,
                    from: caller,
                    to: creator_of(library, g, nft),
                    amount: bid,
                },
            )
        }
    }

    /// What `increase_cast` answers in a given state.
    pub open spec fn increase_verdict(
        &self,
        staking: &Stake,
        galleries: &Subject,
        library: &Mainx,
        caller: Addr,
        now: u64,
        g: u64,
        nft: u64,
        vote_id: u64,
        bid: Amount,
    ) -> Result<Transfer, CastError> {
        let old_bid = staking.cast_at(g, nft, vote_id).bid;
        if !galleries.exists_gallery(g) {
            Err(CastError::InvalidState(202))
        } else if !voting_open(galleries, g, now) {
            Err(CastError::InvalidState(19))
        } else if creator_of(library, g, nft).is_zero_spec() {
            Err(CastError::InvalidState(191))
        } else if !owns_cast(staking, g, nft, vote_id, caller) {
            Err(CastError::Unauthorized(81))
        } else if bid.value() <= old_bid.value() {
            Err(CastError::InsufficientValue(2))
        } else if self.token() is None {
            Err(CastError::InvalidState(201))
        } else if staking.update_verdict(self.address(), caller, g, nft, vote_id) is Err {
            Err(
                stake_failure(
                    staking.update_verdict(self.address(), caller, g, nft, vote_id)->Err_0,
                    201,
                ),
            )
        } else {
            Ok(
                Transfer {
                    token: self.token()->Some_0,
                    from: caller,
                    to: creator_of(library, g, nft),
                    amount: amount_of((bid.value() - old_bid.value()) as nat),
                },
            )
        }
    }

    /// A façade at `address`, with nothing configured.
    pub fn new(address: Addr) -> (r: Cast)
        ensures
            r.address() == address,
            r.token() == None::<Addr>,
            r.stake_address() == None::<Addr>,
            r.gallery_address() == None::<Addr>,
            r.admin_lock() == AdminLock::Uninitialized,
    {
        Cast { address, stake: None, erc20: None, gallery_c: None, admin: AdminLock::new() }
    }

    /// Checks that `now` lies strictly between `start` and `end`.
    pub fn check_time(&self, start: u64, end: u64, now: u64) -> (r: Result<(), CastError>)
        ensures
            start < now && now < end ==> r == Ok::<(), CastError>(()),
            !(start < now && now < end) ==> r == Err::<(), CastError>(CastError::InvalidState(19)),
    {
        if start < now && end > now {
            return Ok(());
        }
        Err(CastError::InvalidState(19))
    }

    /// The creator of the NFT at accepted index `nft_id` of a gallery.
    pub fn get_creator(&self, library: &Mainx, galleries: &Subject, gallery_id: u64, nft_id: u64) -> (r:
        Result<Addr, CastError>)
        ensures
            creator_of(library, gallery_id, nft_id).is_zero_spec() ==> r == Err::<Addr, CastError>(
                CastError::InvalidState(191),
            ),
            !creator_of(library, gallery_id, nft_id).is_zero_spec() ==> r == Ok::<Addr, CastError>(
                creator_of(library, gallery_id, nft_id),
            ),
    {
        match library.get_nft(galleries, self.address, gallery_id, nft_id, false) {
            Ok((creator, _, _)) => {
                if creator.is_zero() {
                    Err(CastError::InvalidState(191))
                } else {
                    Ok(creator)
                }
            },
            Err(_) => Err(CastError::InvalidState(181)),
        }
    }

    /// The bid of cast `vote_id`, which must belong to `caller`.
    pub fn get_staking_data(&self, staking: &Stake, caller: Addr, gallery_id: u64, nft_id: u64, vote_id: u64) -> (r:
        Result<Amount, CastError>)
        ensures
            owns_cast(staking, gallery_id, nft_id, vote_id, caller) ==> r == Ok::<Amount, CastError>(
                staking.cast_at(gallery_id, nft_id, vote_id).bid,
            ),
            !owns_cast(staking, gallery_id, nft_id, vote_id, caller) ==> r == Err::<Amount, CastError>(
                CastError::Unauthorized(81),
            ),
    {
        let count = staking.get_total_votes(gallery_id, nft_id);
        let (bid, _, voter) = staking.get_cast(gallery_id, nft_id, vote_id);
        if vote_id < 1 || vote_id > count || voter != caller {
            return Err(CastError::Unauthorized(81));
        }
        Ok(bid)
    }

    /// Whether `caller` has voted in gallery `gallery_id`.
    pub fn has_voted(&self, staking: &Stake, gallery_id: u64, caller: Addr) -> (r: bool)
        ensures
            r == staking.voted(gallery_id, caller),
    {
        staking.has_voted(gallery_id, caller)
    }

    /// A first stake of `bid` by `caller` on the NFT at accepted index
    /// `nft_id` of a gallery. On success the stake is recorded and `bid` is
    /// to be paid from the caller to the NFT's creator.
    pub fn cast_vote(
        &self,
        staking: &mut Stake,
        galleries: &Subject,
        library: &Mainx,
        caller: Addr,
        now: u64,
        gallery_id: u64,
        nft_id: u64,
        bid: Amount,
    ) -> (r: Result<Transfer, CastError>)
        requires
            old(staking).wf(),
        ensures
            final(staking).wf(),
            r == self.vote_verdict(old(staking), galleries, library, caller, now, gallery_id, nft_id, bid),
            r is Err ==> *final(staking) == *old(staking),
            r is Ok ==> final(staking).stake_recorded(*old(staking), caller, gallery_id, nft_id, bid, now),
    {
        let (start, end, minimum_bid) = match galleries.get_gallery(gallery_id) {
            Ok(t) => (t.7, t.6, t.8),
            Err(_) => {
                return Err(CastError::InvalidState(202));
            },
        };
        if let Err(e) = self.check_time(start, end, now) {
            return Err(e);
        }
        if !galleries.get_user_status(gallery_id, caller) {
            return Err(CastError::Unauthorized(20));
        }
        if self.has_voted(staking, gallery_id, caller) {
            return Err(CastError::AlreadyDone(20));
        }
        if bid.lt(&minimum_bid) {
            return Err(CastError::InsufficientValue(20));
        }
        let creator = match self.get_creator(library, galleries, gallery_id, nft_id) {
            Ok(c) => c,
            Err(e) => {
                return Err(e);
            },
        };
        let token = match self.erc20 {
            Some(t) => t,
            None => {
                return Err(CastError::InvalidState(201));
            },
        };
        match staking.stake(self.address, caller, gallery_id, nft_id, bid, now) {
            Ok(()) => Ok(Transfer { token, from: caller, to: creator, amount: bid }),
            Err(e) => Err(map_stake_failure(e, 11)),
        }
    }

    /// Raises the bid of `caller`'s cast `vote_id` to `bid`, which must exceed
    /// the old bid. On success the cast is updated and re-ranked, and the
    /// difference is to be paid from the caller to the NFT's creator.
    pub fn increase_cast(
        &self,
        staking: &mut Stake,
        galleries: &Subject,
        library: &Mainx,
        caller: Addr,
        now: u64,
        gallery_id: u64,
        nft_id: u64,
        vote_id: u64,
        bid: Amount,
    ) -> (r: Result<Transfer, CastError>)
        requires
            old(staking).wf(),
        ensures
            final(staking).wf(),
            r == self.increase_verdict(
                old(staking),
                galleries,
                library,
                caller,
                now,
                gallery_id,
                nft_id,
                vote_id,
                bid,
            ),
            r is Err ==> *final(staking) == *old(staking),
            r is Ok ==> final(staking).bid_updated(*old(staking), caller, gallery_id, nft_id, vote_id, bid, now),
    {
        let (start, end) = match galleries.get_gallery(gallery_id) {
            Ok(t) => (t.7, t.6),
            Err(_) => {
                return Err(CastError::InvalidState(202));
            },
        };
        if let Err(e) = self.check_time(start, end, now) {
            return Err(e);
        }
        let creator = match self.get_creator(library, galleries, gallery_id, nft_id) {
            Ok(c) => c,
            Err(e) => {
                return Err(e);
            },
        };
        let old_bid = match self.get_staking_data(staking, caller, gallery_id, nft_id, vote_id) {
            Ok(b) => b,
            Err(e) => {
                return Err(e);
            },
        };
        if bid.le(&old_bid) {
            return Err(CastError::InsufficientValue(2));
        }
        let token = match self.erc20 {
            Some(t) => t,
            None => {
                return Err(CastError::InvalidState(201));
            },
        };
        let balance = bid.sub(&old_bid);
        proof {
            lemma_amount_of_value(balance);
        }
        match staking.update_bid(self.address, caller, gallery_id, nft_id, vote_id, bid, now) {
            Ok(()) => Ok(Transfer { token, from: caller, to: creator, amount: balance }),
            Err(e) => Err(map_stake_failure(e, 201)),
        }
    }

    /// Names the staking component, the payment token and the gallery
    /// component.
    pub fn set_control(&mut self, caller: Addr, stake: Addr, erc20: Addr, gallery: Addr) -> (r: Result<
        (),
        CastError,
    >)
        ensures
            r is Ok == old(self).admin_lock().admits(caller),
            r is Err ==> r == Err::<(), CastError>(CastError::Unauthorized(0)) && *final(self) == *old(
                self,
            ),
            r is Ok ==> final(self).stake_address() == Some(stake) && final(self).token() == Some(erc20)
                && final(self).gallery_address() == Some(gallery) && final(self).admin_lock()
                == AdminLock::Owner(caller),
            final(self).address() == old(self).address(),
    {
        if !self.admin.check_admin(caller) {
            return Err(CastError::Unauthorized(0));
        }
        self.stake = Some(stake);
        self.gallery_c = Some(gallery);
        self.erc20 = Some(erc20);
        Ok(())
    }
}

/// Every successful bid increase through the façade strictly raises the
/// cast's stored bid, and the payment it asks for is exactly the rise.
pub proof fn lemma_increase_raises_bid(
    facade: Cast,
    before: Stake,
    after: Stake,
    galleries: &Subject,
    library: &Mainx,
    caller: Addr,
    now: u64,
    gallery: u64,
    nft: u64,
    vote_id: u64,
    bid: Amount,
)
    requires
        facade.increase_verdict(&before, galleries, library, caller, now, gallery, nft, vote_id, bid) is Ok,
        after.bid_updated(before, caller, gallery, nft, vote_id, bid, now),
    ensures
        after.cast_at(gallery, nft, vote_id).bid.value() > before.cast_at(gallery, nft, vote_id).bid.value(),
        facade.increase_verdict(&before, galleries, library, caller, now, gallery, nft, vote_id, bid)->Ok_0.amount.value()
            == after.cast_at(gallery, nft, vote_id).bid.value() - before.cast_at(gallery, nft, vote_id).bid.value(),
{
    let d = (bid.value() - before.cast_at(gallery, nft, vote_id).bid.value()) as nat;
    assert(d < limb_base() * limb_base()) by (nonlinear_arith)
        requires
            d <= bid.value(),
            bid.value() == bid.hi as nat * limb_base() + bid.lo as nat,
            bid.hi < limb_base(),
            bid.lo < limb_base(),
            limb_base() > 0,
    ;
    lemma_value_of_amount(d);
}

} // verus!
