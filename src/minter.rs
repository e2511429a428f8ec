//! The minter: once a gallery's voting has closed, the three best-placed
//! voters on an NFT's leaderboard may each claim a reward once per gallery.
use vstd::prelude::*;
use crate::access::AdminLock;
use crate::curation::Mainx;
use crate::gallery::Subject;
use crate::staking::Stake;
use crate::storage::NftStorage;
use crate::types::Addr;

verus! {

#[derive(Clone, Copy, Debug, PartialEq, Eq, Structural)]
pub enum MinterError {
    /// The gallery does not exist, voting has not closed, the caller has no
    /// rewarded place, or no reward token is configured.
    InvalidState(u8),
    /// The caller has claimed in this gallery already.
    AlreadyDone(u8),
    /// The submission storage does not take calls from this minter.
    Unauthorized(u8),
}

/// A mint that the host carries out, in the same transaction, once a claim has
/// succeeded: `amount` units of token `token_id` of contract `token` to `to`,
/// with the token's metadata naming the gallery and the NFT.
#[derive(Clone, Copy, Debug, PartialEq, Eq, Structural)]
pub struct MintOrder {
    pub token: Addr,
    pub to: Addr,
    pub token_id: u64,
    pub amount: u64,
    pub gallery: u64,
    pub nft: u64,
}

/// Reward units for a zero-based leaderboard place; 0 past the third.
pub open spec fn reward_for(rank: u8) -> u64 {
    if rank == 0 {
        3
    } else if rank == 1 {
        2
    } else if rank == 2 {
        1
    } else {
        0
    }
}

/// Reward units for a zero-based leaderboard place, where it earns any.
pub fn reward_tier(rank: u8) -> (r: Option<u64>)
    ensures
        rank <= 2 ==> r == Some(reward_for(rank)),
        rank > 2 ==> r == None::<u64>,
{
    match rank {
        0 => Some(3),
        1 => Some(2),
        2 => Some(1),
        _ => None,
    }
}

#[derive(Debug)]
pub struct Minter {
    address: Addr,
    claims: Vec<(Addr, u64)>,
    stake: Option<Addr>,
    nft_libary: Option<Addr>,
    nft_storage: Option<Addr>,
    gallery_c: Option<Addr>,
    erc1155: Option<Addr>,
    admin: AdminLock,
}

impl Minter {
    /// This minter's own address, as the submission storage sees it.
    pub closed spec fn address(&self) -> Addr {
        self.address
    }

    /// Every successful claim so far, as (claimer, gallery).
    pub closed spec fn claim_log(&self) -> Seq<(Addr, u64)> {
        self.claims@
    }

    /// The reward token contract, once set.
    pub closed spec fn token(&self) -> Option<Addr> {
        self.erc1155
    }

    pub closed spec fn admin_lock(&self) -> AdminLock {
        self.admin
    }

    pub open spec fn claimed(&self, user: Addr, g: u64) -> bool {
        self.claim_log().contains((user, g))
    }

    /// The metadata index of the NFT at accepted index `nft` of gallery `g`.
    pub open spec fn metadata_of(library: &Mainx, g: u64, nft: u64) -> u64 {
        library.submission_at(g, library.accepted_at(g, nft)).data
    }

    /// What `claim_SFT` answers in a given state.
    pub open spec fn claim_verdict(
        &self,
        staking: &Stake,
        galleries: &Subject,
        library: &Mainx,
        storage: &NftStorage,
        caller: Addr,
        now: u64,
        g: u64,
        nft: u64,
    ) -> Result<MintOrder, MinterError> {
        let rank = staking.position_of(g, nft, caller);
        let data_id = Self::metadata_of(library, g, nft);
        if !galleries.exists_gallery(g) {
            Err(MinterError::InvalidState(202))
        } else if now <= galleries.record(g).voting_end {
            Err(MinterError::InvalidState(19))
        } else if self.claimed(caller, g) {
            Err(MinterError::AlreadyDone(202))
        } else if rank > 2 {
            Err(MinterError::InvalidState(203))
        } else if self.token() is None {
            Err(MinterError::InvalidState(204))
        } else if storage.minter() != Some(self.address()) {
            Err(MinterError::Unauthorized(11))
        } else if !storage.exists_item(data_id) {
            Err(MinterError::InvalidState(11))
        } else {
            Ok(
                MintOrder {
                    token: self.token()->Some_0,
                    to: caller,
                    token_id: data_id,
                    amount: reward_for(rank),
                    gallery: g,
                    nft,
                },
            )
        }
    }

    /// A minter at `address`, with nothing configured.
    pub fn new(address: Addr) -> (r: Minter)
        ensures
            r.address() == address,
            r.claim_log() == Seq::<(Addr, u64)>::empty(),
            r.token() == None::<Addr>,
            r.admin_lock() == AdminLock::Uninitialized,
    {
        Minter {
            address,
            claims: Vec::new(),
            stake: None,
            nft_libary: None,
            nft_storage: None,
            gallery_c: None,
            erc1155: None,
            admin: AdminLock::new(),
        }
    }

    /// Whether `caller` has claimed a reward in gallery `gallery_id`.
    pub fn has_claimed(&self, caller: Addr, gallery_id: u64) -> (r: bool)
        ensures
            r == self.claimed(caller, gallery_id),
    {
        let mut i: usize = 0;
        while i < self.claims.len()
            invariant
                i <= self.claims@.len(),
                forall|k: int| 0 <= k < i ==> self.claims@[k] != (caller, gallery_id),
            decreases self.claims@.len() - i,
        {
            let (who, g) = self.claims[i];
            if who == caller && g == gallery_id {
                assert(self.claims@[i as int] == (caller, gallery_id));
                return true;
            }
            i = i + 1;
        }
        false
    }

    /// Checks that voting, which ends at `end`, has closed at `now`.
    pub fn check_time(&self, end: u64, now: u64) -> (r: Result<(), MinterError>)
        ensures
            end < now ==> r == Ok::<(), MinterError>(()),
            now <= end ==> r == Err::<(), MinterError>(MinterError::InvalidState(19)),
    {
        if end < now {
            return Ok(());
        }
        Err(MinterError::InvalidState(19))
    }

    /// Rewards `caller` for a place among the first three on the leaderboard
    /// of the NFT at accepted index `nft_id`, once voting in the gallery has
    /// closed and at most once per gallery: the NFT's stored metadata is
    /// opened and the claim recorded, and the reward is to be minted.
    #[allow(non_snake_case)]
    pub fn claim_SFT(
        &mut self,
        staking: &Stake,
        galleries: &Subject,
        library: &Mainx,
        storage: &mut NftStorage,
        caller: Addr,
        now: u64,
        gallery_id: u64,
        nft_id: u64,
    ) -> (r: Result<MintOrder, MinterError>)
        requires
            staking.wf(),
        ensures
            r == old(self).claim_verdict(staking, galleries, library, old(storage), caller, now, gallery_id, nft_id),
            r is Err ==> *final(self) == *old(self) && *final(storage) == *old(storage),
            r is Ok ==> final(self).claim_log() == old(self).claim_log().push((caller, gallery_id))
                && final(storage).item_opened(*old(storage), r->Ok_0.token_id),
            final(self).address() == old(self).address(),
            final(self).token() == old(self).token(),
            final(self).admin_lock() == old(self).admin_lock(),
            final(storage).minter() == old(storage).minter(),
    {
        let end = match galleries.get_gallery(gallery_id) {
            Ok(t) => t.6,
            Err(_) => {
                return Err(MinterError::InvalidState(202));
            },
        };
        if let Err(e) = self.check_time(end, now) {
            return Err(e);
        }
        if self.has_claimed(caller, gallery_id) {
            return Err(MinterError::AlreadyDone(202));
        }
        let rank = match staking.get_position(gallery_id, nft_id, caller) {
            Ok(p) => p,
            Err(_) => {
                return Err(MinterError::InvalidState(81));
            },
        };
        let amount = match reward_tier(rank) {
            Some(a) => a,
            None => {
                return Err(MinterError::InvalidState(203));
            },
        };
        let token = match self.erc1155 {
            Some(t) => t,
            None => {
                return Err(MinterError::InvalidState(204));
            },
        };
        let data_id = match library.get_nft(galleries, self.address, gallery_id, nft_id, false) {
            Ok((_, _, d)) => d,
            Err(_) => {
                return Err(MinterError::InvalidState(181));
            },
        };
        match storage.system_mint(self.address, data_id) {
            Ok(()) => {},
            Err(e) => {
                return Err(
                    match e {
                        crate::storage::SubmitError::Unauthorized(_) => MinterError::Unauthorized(11),
                        _ => MinterError::InvalidState(11),
                    },
                );
            },
        }
        self.claims.push((caller, gallery_id));
        Ok(MintOrder { token, to: caller, token_id: data_id, amount, gallery: gallery_id, nft: nft_id })
    }

    /// Names the staking, gallery, curation, reward token and storage components.
    pub fn set_control(
        &mut self,
        caller: Addr,
        stake: Addr,
        gallery: Addr,
        libary: Addr,
        erc1155: Addr,
        nft_storage: Addr,
    ) -> (r: Result<(), MinterError>)
        ensures
            r is Ok == old(self).admin_lock().admits(caller),
            r is Err ==> r == Err::<(), MinterError>(MinterError::Unauthorized(0)) && *final(self)
                == *old(self),
            r is Ok ==> final(self).token() == Some(erc1155) && final(self).admin_lock() == AdminLock::Owner(
                caller,
            ),
            final(self).claim_log() == old(self).claim_log(),
            final(self).address() == old(self).address(),
    {
        if !self.admin.check_admin(caller) {
            return Err(MinterError::Unauthorized(0));
        }
        self.stake = Some(stake);
        self.gallery_c = Some(gallery);
        self.nft_libary = Some(libary);
        self.erc1155 = Some(erc1155);
        self.nft_storage = Some(nft_storage);
        Ok(())
    }
}

} // verus!
