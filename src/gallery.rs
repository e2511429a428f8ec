//! The gallery component: gallery records with their voting windows, the
//! ticket ledger, and each user's created and joined galleries.
use vstd::prelude::*;
use crate::access::AdminLock;
use crate::types::{Addr, Amount};

verus! {

#[derive(Clone, Copy, Debug, PartialEq, Eq, Structural)]
pub enum GalleryError {
    /// The caller may not run this entry point.
    Unauthorized(u8),
    /// An argument is out of range or names nothing.
    InvalidState(u8),
    /// A counter is full.
    Exhausted(u8),
}

/// One gallery. Gallery `k` (counted from 1) is the `k`-th one created.
#[derive(Debug)]
pub struct GalleryRecord {
    pub name: String,
    pub meta_data: String,
    /// Price of a ticket.
    pub price: Amount,
    /// The creator, who curates submissions and is paid for tickets.
    pub owner: Addr,
    /// Tickets sold.
    pub attendees: u32,
    pub created_at: u64,
    pub voting_start: u64,
    pub voting_end: u64,
    /// The least bid a first stake must make.
    pub minimum_staking_amount: Amount,
    /// Everyone holding a ticket, the creator first.
    pub holders: Vec<Addr>,
}

/// The galleries of `recs` created by `user`, as gallery indices, oldest first.
pub open spec fn created_by(recs: Seq<GalleryRecord>, user: Addr) -> Seq<u64>
    decreases recs.len(),
{
    if recs.len() == 0 {
        Seq::empty()
    } else {
        let before = created_by(recs.drop_last(), user);
        if recs.last().owner == user {
            before.push(recs.len() as u64)
        } else {
            before
        }
    }
}

/// The galleries that `user` bought a ticket for, oldest first, out of a log of
/// (buyer, gallery) pairs.
pub open spec fn joined_by(joins: Seq<(Addr, u64)>, user: Addr) -> Seq<u64>
    decreases joins.len(),
{
    if joins.len() == 0 {
        Seq::empty()
    } else {
        let before = joined_by(joins.drop_last(), user);
        if joins.last().0 == user {
            before.push(joins.last().1)
        } else {
            before
        }
    }
}

/// The fields of a gallery as `get_gallery` hands them out: owner, name,
/// metadata, attendees, creation time, price, voting end, voting start and
/// minimum stake.
pub type GalleryInfo = (Addr, String, String, u32, u64, Amount, u64, u64, Amount);

#[derive(Debug)]
pub struct Subject {
    galleries: Vec<GalleryRecord>,
    joins: Vec<(Addr, u64)>,
    allowed_contract: Option<Addr>,
    admin: AdminLock,
}

impl Subject {
    /// All galleries, gallery `k` at entry `k - 1`.
    pub closed spec fn records(&self) -> Seq<GalleryRecord> {
        self.galleries@
    }

    /// Every ticket sale so far, as (buyer, gallery).
    pub closed spec fn join_log(&self) -> Seq<(Addr, u64)> {
        self.joins@
    }

    /// The only address allowed to hand out tickets, once set.
    pub closed spec fn ticket_office(&self) -> Option<Addr> {
        self.allowed_contract
    }

    pub closed spec fn admin_lock(&self) -> AdminLock {
        self.admin
    }

    /// Every gallery's voting window opens before it closes.
    pub open spec fn wf(&self) -> bool {
        forall|i: int|
            0 <= i < self.records().len() ==> #[trigger] self.records()[i].voting_start
                < self.records()[i].voting_end
    }

    pub open spec fn exists_gallery(&self, g: u64) -> bool {
        1 <= g && g <= self.records().len()
    }

    pub open spec fn record(&self, g: u64) -> GalleryRecord {
        self.records()[g - 1]
    }

    pub open spec fn has_ticket(&self, g: u64, user: Addr) -> bool {
        self.exists_gallery(g) && self.record(g).holders@.contains(user)
    }

    /// What `create_gallery` answers in a given state.
    pub open spec fn create_verdict(
        &self,
        now: u64,
        name: Seq<char>,
        meta_data: Seq<char>,
        voting_start: u64,
        voting_end: u64,
    ) -> Result<(), GalleryError> {
        if name.len() == 0 || meta_data.len() == 0 || voting_start < now || voting_end < now
            || voting_start >= voting_end {
            Err(GalleryError::InvalidState(0))
        } else if self.records().len() >= u64::MAX {
            Err(GalleryError::Exhausted(0))
        } else {
            Ok(())
        }
    }

    /// `self` is `pre` after `user` was handed a ticket for gallery `g`: the
    /// gallery counts one more attendee and lists the user among its holders,
    /// the sale is logged, and nothing else changes.
    pub open spec fn ticket_granted(&self, pre: Subject, g: u64, user: Addr) -> bool {
        let before = pre.record(g);
        let after = self.record(g);
        &&& self.records().len() == pre.records().len()
        &&& forall|h: u64| h != g && pre.exists_gallery(h) ==> #[trigger] self.record(h) == pre.record(h)
        &&& after.holders@ == before.holders@.push(user)
        &&& after.attendees == before.attendees + 1
        &&& after.name == before.name
        &&& after.meta_data == before.meta_data
        &&& after.price == before.price
        &&& after.owner == before.owner
        &&& after.created_at == before.created_at
        &&& after.voting_start == before.voting_start
        &&& after.voting_end == before.voting_end
        &&& after.minimum_staking_amount == before.minimum_staking_amount
        &&& self.join_log() == pre.join_log().push((user, g))
        &&& self.ticket_office() == pre.ticket_office()
        &&& self.admin_lock() == pre.admin_lock()
    }

    /// What `buy_ticket` answers in a given state.
    pub open spec fn ticket_verdict(&self, caller: Addr, g: u64) -> Result<(), GalleryError> {
        if self.ticket_office() != Some(caller) {
            Err(GalleryError::Unauthorized(1))
        } else if !self.exists_gallery(g) {
            Err(GalleryError::InvalidState(1))
        } else if self.record(g).attendees == u32::MAX {
            Err(GalleryError::Exhausted(1))
        } else {
            Ok(())
        }
    }

    pub fn new() -> (r: Subject)
        ensures
            r.wf(),
            r.records() == Seq::<GalleryRecord>::empty(),
            r.join_log() == Seq::<(Addr, u64)>::empty(),
            r.ticket_office() == None::<Addr>,
            r.admin_lock() == AdminLock::Uninitialized,
    {
        Subject { galleries: Vec::new(), joins: Vec::new(), allowed_contract: None, admin: AdminLock::new() }
    }

    /// Creates a gallery owned by `caller`, who gets its first ticket. Its
    /// voting window must open no earlier than now and close after it opens.
    pub fn create_gallery(
        &mut self,
        caller: Addr,
        now: u64,
        name: String,
        meta_data: String,
        price: Amount,
        voting_start: u64,
        voting_end: u64,
        minimum_staking_amount: Amount,
    ) -> (r: Result<(), GalleryError>)
        requires
            old(self).wf(),
        ensures
            final(self).wf(),
            r == old(self).create_verdict(now, name@, meta_data@, voting_start, voting_end),
            r is Err ==> *final(self) == *old(self),
            r is Ok ==> {
                let g = final(self).records().last();
                &&& final(self).records().len() == old(self).records().len() + 1
                &&& final(self).records().drop_last() == old(self).records()
                &&& g.name@ == name@
                &&& g.meta_data@ == meta_data@
                &&& g.price == price
                &&& g.owner == caller
                &&& g.attendees == 0
                &&& g.created_at == now
                &&& g.voting_start == voting_start
                &&& g.voting_end == voting_end
                &&& g.minimum_staking_amount == minimum_staking_amount
                &&& g.holders@ == seq![caller]
            },
            final(self).join_log() == old(self).join_log(),
            final(self).ticket_office() == old(self).ticket_office(),
            final(self).admin_lock() == old(self).admin_lock(),
    {
        if name.as_str().is_empty() || meta_data.as_str().is_empty() || voting_start < now
            || voting_end < now || voting_start >= voting_end {
            return Err(GalleryError::InvalidState(0));
        }
        if self.galleries.len() as u64 == u64::MAX {
            return Err(GalleryError::Exhausted(0));
        }
        let mut holders: Vec<Addr> = Vec::new();
        holders.push(caller);
        let record = GalleryRecord {
            name,
            meta_data,
            price,
            owner: caller,
            attendees: 0,
            created_at: now,
            voting_start,
            voting_end,
            minimum_staking_amount,
            holders,
        };
        self.galleries.push(record);
        assert(self.galleries@.drop_last() =~= old(self).galleries@);
        Ok(())
    }

    /// Hands `user` a ticket for gallery `gallery_index`. Only the ticket
    /// office may call this.
    pub fn buy_ticket(&mut self, caller: Addr, gallery_index: u64, user: Addr) -> (r: Result<
        (),
        GalleryError,
    >)
        requires
            old(self).wf(),
        ensures
            final(self).wf(),
            r == old(self).ticket_verdict(caller, gallery_index),
            r is Err ==> *final(self) == *old(self),
            r is Ok ==> final(self).ticket_granted(*old(self), gallery_index, user),
    {
        let allowed = match self.allowed_contract {
            Some(a) => a == caller,
            None => false,
        };
        if !allowed {
            return Err(GalleryError::Unauthorized(1));
        }
        if gallery_index < 1 || gallery_index > self.galleries.len() as u64 {
            return Err(GalleryError::InvalidState(1));
        }
        let k = (gallery_index - 1) as usize;
        if self.galleries[k].attendees == u32::MAX {
            return Err(GalleryError::Exhausted(1));
        }
        let mut record = self.galleries.remove(k);
        record.attendees = record.attendees + 1;
        record.holders.push(user);
        self.galleries.insert(k, record);
        self.joins.push((user, gallery_index));
        assert forall|h: u64|
            h != gallery_index && 1 <= h <= self.galleries@.len() implies #[trigger] self.record(h)
            == old(self).record(h) by {
            if h < gallery_index {
                assert(self.galleries@[h - 1] == old(self).galleries@[h - 1]);
            } else {
                assert(self.galleries@[h - 1] == old(self).galleries@[h - 1]);
            }
        }
        Ok(())
    }

    /// Names the only address allowed to hand out tickets.
    pub fn set_a_c(&mut self, caller: Addr, cn_address: Addr) -> (r: Result<(), GalleryError>)
        ensures
            r is Ok == old(self).admin_lock().admits(caller),
            r is Err ==> r == Err::<(), GalleryError>(GalleryError::Unauthorized(9)) && *final(self)
                == *old(self),
            r is Ok ==> final(self).ticket_office() == Some(cn_address) && final(self).admin_lock()
                == AdminLock::Owner(caller),
            final(self).records() == old(self).records(),
            final(self).join_log() == old(self).join_log(),
    {
        if !self.admin.check_admin(caller) {
            return Err(GalleryError::Unauthorized(9));
        }
        self.allowed_contract = Some(cn_address);
        Ok(())
    }

    /// The index of the newest gallery; 0 while there is none.
    pub fn get_last_index(&self) -> (r: u64)
        ensures
            r == self.records().len(),
    {
        self.galleries.len() as u64
    }

    /// The fields of gallery `gallery_index`, or an error where there is none.
    pub fn get_gallery(&self, gallery_index: u64) -> (r: Result<GalleryInfo, GalleryError>)
        ensures
            self.exists_gallery(gallery_index) <==> r is Ok,
            !self.exists_gallery(gallery_index) ==> r == Err::<GalleryInfo, GalleryError>(
                GalleryError::InvalidState(1),
            ),
            r is Ok ==> {
                let g = self.record(gallery_index);
                let t = r->Ok_0;
                &&& t.0 == g.owner
                &&& t.1@ == g.name@
                &&& t.2@ == g.meta_data@
                &&& t.3 == g.attendees
                &&& t.4 == g.created_at
                &&& t.5 == g.price
                &&& t.6 == g.voting_end
                &&& t.7 == g.voting_start
                &&& t.8 == g.minimum_staking_amount
            },
    {
        if gallery_index < 1 || gallery_index > self.galleries.len() as u64 {
            return Err(GalleryError::InvalidState(1));
        }
        let g = &self.galleries[(gallery_index - 1) as usize];
        Ok((
            g.owner,
            g.name.clone(),
            g.meta_data.clone(),
            g.attendees,
            g.created_at,
            g.price,
            g.voting_end,
            g.voting_start,
            g.minimum_staking_amount,
        ))
    }

    /// Whether `user` holds a ticket for gallery `gallery_index`.
    pub fn get_user_status(&self, gallery_index: u64, user: Addr) -> (r: bool)
        ensures
            r == self.has_ticket(gallery_index, user),
    {
        if gallery_index < 1 || gallery_index > self.galleries.len() as u64 {
            return false;
        }
        let holders = &self.galleries[(gallery_index - 1) as usize].holders;
        let mut i: usize = 0;
        while i < holders.len()
            invariant
                self.exists_gallery(gallery_index),
                holders@ == self.record(gallery_index).holders@,
                i <= holders@.len(),
                forall|k: int| 0 <= k < i ==> holders@[k] != user,
            decreases holders@.len() - i,
        {
            if holders[i] == user {
                assert(holders@[i as int] == user);
                return true;
            }
            i = i + 1;
        }
        false
    }

    /// Whether gallery `gallery_index` exists and `now` lies in its voting
    /// window, both ends included.
    pub fn in_session(&self, gallery_index: u64, now: u64) -> (r: bool)
        ensures
            r == (self.exists_gallery(gallery_index) && self.record(gallery_index).voting_start <= now
                && now <= self.record(gallery_index).voting_end),
    {
        if gallery_index < 1 || gallery_index > self.galleries.len() as u64 {
            return false;
        }
        let g = &self.galleries[(gallery_index - 1) as usize];
        g.voting_start <= now && now <= g.voting_end
    }

    /// The minimum stake of gallery `gallery_index`; zero where there is none.
    pub fn get_mim_s_a(&self, gallery_index: u64) -> (r: Amount)
        ensures
            self.exists_gallery(gallery_index) ==> r == self.record(gallery_index).minimum_staking_amount,
            !self.exists_gallery(gallery_index) ==> r.value() == 0,
    {
        if gallery_index < 1 || gallery_index > self.galleries.len() as u64 {
            return Amount::zero();
        }
        self.galleries[(gallery_index - 1) as usize].minimum_staking_amount
    }

    /// The galleries created by `user`, oldest first.
    fn created_list(&self, user: Addr) -> (r: Vec<u64>)
        ensures
            r@ == created_by(self.records(), user),
    {
        let mut out: Vec<u64> = Vec::new();
        let mut i: usize = 0;
        while i < self.galleries.len()
            invariant
                i <= self.galleries@.len(),
                out@ == created_by(self.galleries@.take(i as int), user),
            decreases self.galleries@.len() - i,
        {
            assert(self.galleries@.take(i + 1).drop_last() =~= self.galleries@.take(i as int));
            if self.galleries[i].owner == user {
                out.push((i + 1) as u64);
            }
            i = i + 1;
        }
        assert(self.galleries@.take(i as int) =~= self.galleries@);
        out
    }

    /// The galleries `user` bought tickets for, oldest first.
    fn joined_list(&self, user: Addr) -> (r: Vec<u64>)
        ensures
            r@ == joined_by(self.join_log(), user),
    {
        let mut out: Vec<u64> = Vec::new();
        let mut i: usize = 0;
        while i < self.joins.len()
            invariant
                i <= self.joins@.len(),
                out@ == joined_by(self.joins@.take(i as int), user),
            decreases self.joins@.len() - i,
        {
            assert(self.joins@.take(i + 1).drop_last() =~= self.joins@.take(i as int));
            let (who, g) = self.joins[i];
            if who == user {
                out.push(g);
            }
            i = i + 1;
        }
        assert(self.joins@.take(i as int) =~= self.joins@);
        out
    }

    /// Entry `index` of the galleries `user` created (`state` 0) or joined
    /// (`state` 1).
    pub fn get_uc(&self, index: u64, user: Addr, state: u8) -> (r: Result<u64, GalleryError>)
        ensures
            ({
                let list = if state == 0 {
                    created_by(self.records(), user)
                } else {
                    joined_by(self.join_log(), user)
                };
                if state <= 1 && index < list.len() {
                    r == Ok::<u64, GalleryError>(list[index as int])
                } else {
                    r == Err::<u64, GalleryError>(GalleryError::InvalidState(2))
                }
            }),
    {
        if state > 1 {
            return Err(GalleryError::InvalidState(2));
        }
        let list = if state == 0 {
            self.created_list(user)
        } else {
            self.joined_list(user)
        };
        if index < list.len() as u64 {
            Ok(list[index as usize])
        } else {
            Err(GalleryError::InvalidState(2))
        }
    }

    /// How many galleries `user` created (`state` 0) or joined (`state` 1).
    pub fn get_len_uc(&self, user: Addr, state: u8) -> (r: Result<u64, GalleryError>)
        ensures
            state == 0 ==> r == Ok::<u64, GalleryError>(created_by(self.records(), user).len() as u64),
            state == 1 ==> r == Ok::<u64, GalleryError>(joined_by(self.join_log(), user).len() as u64),
            state > 1 ==> r == Err::<u64, GalleryError>(GalleryError::InvalidState(3)),
    {
        if state == 0 {
            Ok(self.created_list(user).len() as u64)
        } else if state == 1 {
            Ok(self.joined_list(user).len() as u64)
        } else {
            Err(GalleryError::InvalidState(3))
        }
    }
}

/// Every existing gallery's voting window opens before it closes, and a
/// creation whose window does not is refused.
pub proof fn lemma_voting_window_ordered(
    s: Subject,
    g: u64,
    now: u64,
    name: Seq<char>,
    meta_data: Seq<char>,
    voting_start: u64,
    voting_end: u64,
)
    requires
        s.wf(),
    ensures
        s.exists_gallery(g) ==> s.record(g).voting_start < s.record(g).voting_end,
        voting_start >= voting_end ==> s.create_verdict(now, name, meta_data, voting_start, voting_end)
            == Err::<(), GalleryError>(GalleryError::InvalidState(0)),
{
    if s.exists_gallery(g) {
        assert(s.records()[g - 1].voting_start < s.records()[g - 1].voting_end);
    }
}

} // verus!
