//! The curation component (the NFT library): ticket holders submit NFTs to a
//! gallery before its voting opens, and the gallery's owner accepts or rejects
//! each submission once. Accepted submissions get dense accepted indices.
use vstd::prelude::*;
use std::collections::HashMap;
use crate::access::AdminLock;
use crate::gallery::Subject;
use crate::types::Addr;

verus! {

broadcast use vstd::std_specs::hash::group_hash_axioms;

/// Status of a submission under review.
pub const PENDING: u8 = 0;
/// Status of an accepted submission.
pub const ACCEPTED: u8 = 1;
/// Status of a rejected submission.
pub const REJECTED: u8 = 2;

#[derive(Clone, Copy, Debug, PartialEq, Eq, Structural)]
pub enum NftError {
    /// The caller may not run this entry point, or lacks a ticket.
    Unauthorized(u8),
    /// Something named does not exist, an argument is out of range, or the
    /// submission window has closed.
    InvalidState(u8),
    /// The submission was curated already.
    AlreadyDone(u8),
    /// A counter is full.
    Exhausted(u8),
}

/// A submitted NFT.
#[derive(Clone, Copy, Debug, PartialEq, Eq, Structural)]
pub struct Submission {
    /// The creator.
    pub owner: Addr,
    /// `PENDING`, `ACCEPTED` or `REJECTED`.
    pub status: u8,
    /// Index of the NFT's metadata in the submission storage.
    pub data: u64,
}

/// The submissions of one gallery.
#[derive(Debug)]
pub struct Concept {
    /// Submission `k` is entry `k - 1`.
    submissions: Vec<Submission>,
    /// Accepted index `k` is entry `k - 1`, which holds a submission id.
    accepted: Vec<u64>,
}

impl Concept {
    fn new() -> (r: Concept)
        ensures
            r.submissions@ == Seq::<Submission>::empty(),
            r.accepted@ == Seq::<u64>::empty(),
    {
        Concept { submissions: Vec::new(), accepted: Vec::new() }
    }
}

/// The all-zero answer for a submission that does not exist.
pub open spec fn no_submission() -> Submission {
    Submission { owner: Addr { hi: 0, lo: 0 }, status: 0, data: 0 }
}

#[derive(Debug)]
pub struct Mainx {
    gallery_data: HashMap<u64, Concept>,
    total_nft: u64,
    nft_submit: Option<Addr>,
    gallery_c: Option<Addr>,
    admin: AdminLock,
}

impl Mainx {
    /// The submissions to a gallery; submission `k` is entry `k - 1`.
    pub closed spec fn submissions(&self, g: u64) -> Seq<Submission> {
        if self.gallery_data@.contains_key(g) {
            self.gallery_data@[g].submissions@
        } else {
            Seq::empty()
        }
    }

    /// The accepted submission ids of a gallery; accepted index `k` is entry `k - 1`.
    pub closed spec fn accepted(&self, g: u64) -> Seq<u64> {
        if self.gallery_data@.contains_key(g) {
            self.gallery_data@[g].accepted@
        } else {
            Seq::empty()
        }
    }

    /// How many submissions have been accepted over all galleries.
    pub closed spec fn total_accepted(&self) -> u64 {
        self.total_nft
    }

    /// The only address allowed to submit, once set.
    pub closed spec fn submitter(&self) -> Option<Addr> {
        self.nft_submit
    }

    /// The gallery component's address, once set.
    pub closed spec fn gallery_address(&self) -> Option<Addr> {
        self.gallery_c
    }

    pub closed spec fn admin_lock(&self) -> AdminLock {
        self.admin
    }

    /// Every accepted index names an existing, accepted submission, and no
    /// submission is named twice; every status is one of the three.
    pub open spec fn wf(&self) -> bool {
        forall|g: u64| #[trigger] self.gallery_wf(g)
    }

    pub open spec fn gallery_wf(&self, g: u64) -> bool {
        let s = self.submissions(g);
        let a = self.accepted(g);
        &&& forall|i: int| 0 <= i < s.len() ==> #[trigger] s[i].status <= REJECTED
        &&& forall|i: int|
            0 <= i < a.len() ==> 1 <= #[trigger] a[i] <= s.len() && s[a[i] - 1].status == ACCEPTED
        &&& forall|i: int, j: int| 0 <= i < j < a.len() ==> a[i] != a[j]
    }

    /// Submission `id` of a gallery, or the all-zero submission.
    pub open spec fn submission_at(&self, g: u64, id: u64) -> Submission {
        let s = self.submissions(g);
        if 1 <= id && id <= s.len() {
            s[id - 1]
        } else {
            no_submission()
        }
    }

    /// The submission id behind accepted index `rank`, or 0.
    pub open spec fn accepted_at(&self, g: u64, rank: u64) -> u64 {
        let a = self.accepted(g);
        if 1 <= rank && rank <= a.len() {
            a[rank - 1]
        } else {
            0
        }
    }

    /// Nothing but gallery `g`'s submissions and the accepted count differ.
    pub open spec fn same_except(&self, other: Mainx, g: u64) -> bool {
        &&& forall|h: u64| h != g ==> #[trigger] self.submissions(h) == other.submissions(h)
        &&& forall|h: u64| h != g ==> #[trigger] self.accepted(h) == other.accepted(h)
        &&& self.submitter() == other.submitter()
        &&& self.gallery_address() == other.gallery_address()
        &&& self.admin_lock() == other.admin_lock()
    }

    /// What `submit_nft` answers in a given state.
    pub open spec fn submit_verdict(
        &self,
        galleries: &Subject,
        caller: Addr,
        now: u64,
        g: u64,
        user: Addr,
    ) -> Result<(), NftError> {
        if self.submitter() != Some(caller) {
            Err(NftError::Unauthorized(1))
        } else if !galleries.exists_gallery(g) {
            Err(NftError::InvalidState(7))
        } else if !galleries.has_ticket(g, user) {
            Err(NftError::Unauthorized(11))
        } else if galleries.record(g).voting_start <= now {
            Err(NftError::InvalidState(11))
        } else if self.submissions(g).len() >= u64::MAX {
            Err(NftError::Exhausted(1))
        } else {
            Ok(())
        }
    }

    /// What `set_nft_state` answers in a given state.
    pub open spec fn curate_verdict(
        &self,
        galleries: &Subject,
        caller: Addr,
        now: u64,
        g: u64,
        nft_id: u64,
        state: u8,
    ) -> Result<(), NftError> {
        if !galleries.exists_gallery(g) {
            Err(NftError::InvalidState(7))
        } else if galleries.record(g).owner != caller {
            Err(NftError::Unauthorized(1))
        } else if state != ACCEPTED && state != REJECTED {
            Err(NftError::InvalidState(10))
        } else if !galleries.has_ticket(g, caller) {
            Err(NftError::Unauthorized(11))
        } else if galleries.record(g).voting_start <= now {
            Err(NftError::InvalidState(11))
        } else if !(1 <= nft_id && nft_id <= self.submissions(g).len()) {
            Err(NftError::InvalidState(1))
        } else if self.submissions(g)[nft_id - 1].status != PENDING {
            Err(NftError::AlreadyDone(1))
        } else if state == ACCEPTED && self.total_accepted() == u64::MAX {
            Err(NftError::Exhausted(2))
        } else {
            Ok(())
        }
    }

    pub fn new() -> (r: Mainx)
        ensures
            r.wf(),
            forall|g: u64| #[trigger] r.submissions(g) == Seq::<Submission>::empty(),
            forall|g: u64| #[trigger] r.accepted(g) == Seq::<u64>::empty(),
            r.total_accepted() == 0,
            r.submitter() == None::<Addr>,
            r.gallery_address() == None::<Addr>,
            r.admin_lock() == AdminLock::Uninitialized,
    {
        Mainx {
            gallery_data: HashMap::new(),
            total_nft: 0,
            nft_submit: None,
            gallery_c: None,
            admin: AdminLock::new(),
        }
    }

    fn count_of(&self, g: u64) -> (r: (u64, u64))
        ensures
            r.0 == self.submissions(g).len(),
            r.1 == self.accepted(g).len(),
    {
        match self.gallery_data.get(&g) {
            Some(c) => (c.submissions.len() as u64, c.accepted.len() as u64),
            None => (0, 0),
        }
    }

    /// Checks that `user` holds a ticket for gallery `g` and that its voting,
    /// which closes submissions, has not begun at `now` (`start` is its start).
    pub fn cd_ck(&self, galleries: &Subject, g: u64, start: u64, user: Addr, now: u64) -> (r: Result<
        bool,
        NftError,
    >)
        ensures
            !galleries.has_ticket(g, user) ==> r == Err::<bool, NftError>(NftError::Unauthorized(11)),
            galleries.has_ticket(g, user) && start <= now ==> r == Err::<bool, NftError>(
                NftError::InvalidState(11),
            ),
            galleries.has_ticket(g, user) && now < start ==> r == Ok::<bool, NftError>(true),
    {
        if !galleries.get_user_status(g, user) {
            return Err(NftError::Unauthorized(11));
        }
        if start <= now {
            return Err(NftError::InvalidState(11));
        }
        Ok(true)
    }

    /// Adds a pending submission by `user` to gallery `gallery_id`, holding
    /// metadata index `nft_data`. Only the submission storage may call this.
    pub fn submit_nft(
        &mut self,
        galleries: &Subject,
        caller: Addr,
        now: u64,
        gallery_id: u64,
        user: Addr,
        nft_data: u64,
    ) -> (r: Result<(), NftError>)
        requires
            old(self).wf(),
        ensures
            final(self).wf(),
            r == old(self).submit_verdict(galleries, caller, now, gallery_id, user),
            r is Err ==> *final(self) == *old(self),
            r is Ok ==> final(self).submissions(gallery_id) == old(self).submissions(gallery_id).push(
                Submission { owner: user, status: PENDING, data: nft_data },
            ) && final(self).accepted(gallery_id) == old(self).accepted(gallery_id)
                && final(self).total_accepted() == old(self).total_accepted(),
            final(self).same_except(*old(self), gallery_id),
    {
        let allowed = match self.nft_submit {
            Some(a) => a == caller,
            None => false,
        };
        if !allowed {
            return Err(NftError::Unauthorized(1));
        }
        let info = galleries.get_gallery(gallery_id);
        let start = match info {
            Ok(t) => t.7,
            Err(_) => {
                return Err(NftError::InvalidState(7));
            },
        };
        if let Err(e) = self.cd_ck(galleries, gallery_id, start, user, now) {
            return Err(e);
        }
        let (count, _) = self.count_of(gallery_id);
        if count == u64::MAX {
            return Err(NftError::Exhausted(1));
        }
        let ghost pre = *self;
        let mut concept = match self.gallery_data.remove(&gallery_id) {
            Some(c) => c,
            None => Concept::new(),
        };
        concept.submissions.push(Submission { owner: user, status: PENDING, data: nft_data });
        self.gallery_data.insert(gallery_id, concept);
        proof {
            assert forall|g: u64| #[trigger] self.gallery_wf(g) by {
                if g != gallery_id {
                    assert(pre.gallery_wf(g));
                    assert(self.submissions(g) == pre.submissions(g));
                    assert(self.accepted(g) == pre.accepted(g));
                } else {
                    assert(pre.gallery_wf(g));
                    let s = self.submissions(g);
                    let a = self.accepted(g);
                    assert forall|i: int| 0 <= i < s.len() implies #[trigger] s[i].status <= REJECTED by {
                        if i < s.len() - 1 {
                            assert(s[i] == pre.submissions(g)[i]);
                        }
                    }
                    assert forall|i: int| 0 <= i < a.len() implies 1 <= #[trigger] a[i] <= s.len()
                        && s[a[i] - 1].status == ACCEPTED by {
                        assert(s[a[i] - 1] == pre.submissions(g)[a[i] - 1]);
                    }
                }
            }
        }
        Ok(())
    }

    /// The owner of gallery `gallery_id` accepts (`state` 1) or rejects
    /// (`state` 2) pending submission `nft_id` before voting begins. An
    /// accepted submission gets the next accepted index.
    pub fn set_nft_state(
        &mut self,
        galleries: &Subject,
        caller: Addr,
        now: u64,
        gallery_id: u64,
        nft_id: u64,
        state: u8,
    ) -> (r: Result<(), NftError>)
        requires
            old(self).wf(),
        ensures
            final(self).wf(),
            r == old(self).curate_verdict(galleries, caller, now, gallery_id, nft_id, state),
            r is Err ==> *final(self) == *old(self),
            r is Ok ==> {
                let s = old(self).submissions(gallery_id);
                &&& final(self).submissions(gallery_id) == s.update(
                    nft_id - 1,
                    Submission { status: state, ..s[nft_id - 1] },
                )
                &&& state == ACCEPTED ==> final(self).accepted(gallery_id) == old(self).accepted(
                    gallery_id,
                ).push(nft_id) && final(self).total_accepted() == old(self).total_accepted() + 1
                &&& state == REJECTED ==> final(self).accepted(gallery_id) == old(self).accepted(
                    gallery_id,
                ) && final(self).total_accepted() == old(self).total_accepted()
            },
            final(self).same_except(*old(self), gallery_id),
    {
        let (owner, start) = match galleries.get_gallery(gallery_id) {
            Ok(t) => (t.0, t.7),
            Err(_) => {
                return Err(NftError::InvalidState(7));
            },
        };
        if owner != caller {
            return Err(NftError::Unauthorized(1));
        }
        if state != ACCEPTED && state != REJECTED {
            return Err(NftError::InvalidState(10));
        }
        if let Err(e) = self.cd_ck(galleries, gallery_id, start, caller, now) {
            return Err(e);
        }
        let (count, _) = self.count_of(gallery_id);
        if nft_id < 1 || nft_id > count {
            return Err(NftError::InvalidState(1));
        }
        let current = self.submission(gallery_id, nft_id);
        if current.status != PENDING {
            return Err(NftError::AlreadyDone(1));
        }
        if state == ACCEPTED && self.total_nft == u64::MAX {
            return Err(NftError::Exhausted(2));
        }
        let ghost pre = *self;
        let mut concept = self.gallery_data.remove(&gallery_id).unwrap();
        let n = concept.submissions.len();
        assert(nft_id - 1 < n);
        let k = (nft_id - 1) as usize;
        concept.submissions.set(k, Submission { status: state, ..current });
        if state == ACCEPTED {
            concept.accepted.push(nft_id);
            self.total_nft = self.total_nft + 1;
        }
        self.gallery_data.insert(gallery_id, concept);
        proof {
            assert forall|g: u64| #[trigger] self.gallery_wf(g) by {
                assert(pre.gallery_wf(g));
                if g != gallery_id {
                    assert(self.submissions(g) == pre.submissions(g));
                    assert(self.accepted(g) == pre.accepted(g));
                }
                if g == gallery_id {
                    let s = self.submissions(g);
                    let a = self.accepted(g);
                    let s0 = pre.submissions(g);
                    let a0 = pre.accepted(g);
                    assert forall|i: int| 0 <= i < a0.len() implies #[trigger] a0[i] != nft_id by {
                        assert(s0[a0[i] - 1].status == ACCEPTED);
                    }
                    assert forall|i: int| 0 <= i < a.len() implies 1 <= #[trigger] a[i] <= s.len()
                        && s[a[i] - 1].status == ACCEPTED by {
                        if i < a0.len() {
                            assert(a[i] == a0[i]);
                        }
                    }
                    assert forall|i: int, j: int| 0 <= i < j < a.len() implies a[i] != a[j] by {
                        if j < a0.len() {
                            assert(a[i] == a0[i] && a[j] == a0[j]);
                        } else {
                            assert(a[i] == a0[i]);
                        }
                    }
                }
            }
        }
        Ok(())
    }

    /// How many submissions and how many accepted ones gallery `gallery_id` has.
    pub fn nft_list_len(&self, gallery_id: u64) -> (r: Result<(u64, u64), NftError>)
        ensures
            r == Ok::<(u64, u64), NftError>(
                (self.submissions(gallery_id).len() as u64, self.accepted(gallery_id).len() as u64),
            ),
    {
        Ok(self.count_of(gallery_id))
    }

    /// Names the submission storage, the only address allowed to submit, and
    /// the gallery component.
    pub fn set_gallery_submit(&mut self, caller: Addr, submit_address: Addr, gallery_address: Addr) -> (r:
        Result<(), NftError>)
        ensures
            r is Ok == old(self).admin_lock().admits(caller),
            r is Err ==> r == Err::<(), NftError>(NftError::Unauthorized(17)) && *final(self) == *old(
                self,
            ),
            r is Ok ==> final(self).submitter() == Some(submit_address) && final(self).gallery_address()
                == Some(gallery_address) && final(self).admin_lock() == AdminLock::Owner(caller),
            forall|g: u64| #[trigger] final(self).submissions(g) == old(self).submissions(g),
            forall|g: u64| #[trigger] final(self).accepted(g) == old(self).accepted(g),
            final(self).total_accepted() == old(self).total_accepted(),
    {
        if !self.admin.check_admin(caller) {
            return Err(NftError::Unauthorized(17));
        }
        self.nft_submit = Some(submit_address);
        self.gallery_c = Some(gallery_address);
        Ok(())
    }

    fn submission(&self, g: u64, id: u64) -> (r: Submission)
        ensures
            r == self.submission_at(g, id),
    {
        match self.gallery_data.get(&g) {
            Some(c) => {
                if 1 <= id && id <= c.submissions.len() as u64 {
                    c.submissions[(id - 1) as usize]
                } else {
                    Submission { owner: Addr::zero(), status: 0, data: 0 }
                }
            },
            None => Submission { owner: Addr::zero(), status: 0, data: 0 },
        }
    }

    /// The submission id behind accepted index `rank` of a gallery, or 0.
    pub fn get_accepted(&self, g: u64, rank: u64) -> (r: u64)
        ensures
            r == self.accepted_at(g, rank),
    {
        match self.gallery_data.get(&g) {
            Some(c) => {
                if 1 <= rank && rank <= c.accepted.len() as u64 {
                    c.accepted[(rank - 1) as usize]
                } else {
                    0
                }
            },
            None => 0,
        }
    }

    /// (creator, status, metadata index) of an NFT of a gallery: with `raw`,
    /// of submission `nft_id`, which only the gallery's owner may read;
    /// without, of the submission at accepted index `nft_id`. All zeros where
    /// nothing stands there.
    pub fn get_nft(&self, galleries: &Subject, caller: Addr, gallery_index: u64, nft_id: u64, raw: bool) -> (r:
        Result<(Addr, u8, u64), NftError>)
        ensures
            raw && !galleries.exists_gallery(gallery_index) ==> r == Err::<(Addr, u8, u64), NftError>(
                NftError::InvalidState(7),
            ),
            raw && galleries.exists_gallery(gallery_index) && galleries.record(gallery_index).owner
                != caller ==> r == Err::<(Addr, u8, u64), NftError>(NftError::Unauthorized(1)),
            raw && galleries.exists_gallery(gallery_index) && galleries.record(gallery_index).owner
                == caller ==> r == Ok::<(Addr, u8, u64), NftError>(
                (
                    self.submission_at(gallery_index, nft_id).owner,
                    self.submission_at(gallery_index, nft_id).status,
                    self.submission_at(gallery_index, nft_id).data,
                ),
            ),
            !raw ==> ({
                let s = self.submission_at(gallery_index, self.accepted_at(gallery_index, nft_id));
                r == Ok::<(Addr, u8, u64), NftError>((s.owner, s.status, s.data))
            }),
    {
        if raw {
            let owner = match galleries.get_gallery(gallery_index) {
                Ok(t) => t.0,
                Err(_) => {
                    return Err(NftError::InvalidState(7));
                },
            };
            if owner != caller {
                return Err(NftError::Unauthorized(1));
            }
            let s = self.submission(gallery_index, nft_id);
            return Ok((s.owner, s.status, s.data));
        }
        let id = self.get_accepted(gallery_index, nft_id);
        let s = self.submission(gallery_index, id);
        Ok((s.owner, s.status, s.data))
    }

    /// How many submissions have been accepted over all galleries.
    pub fn get_system_total_nft(&self) -> (r: u64)
        ensures
            r == self.total_accepted(),
    {
        self.total_nft
    }
}

} // verus!
