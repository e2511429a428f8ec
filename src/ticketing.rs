//! The ticket office: sells a gallery's tickets at its price, once per user.
use vstd::prelude::*;
use crate::access::AdminLock;
use crate::gallery::{GalleryError, Subject};
use crate::types::{Addr, Transfer};

verus! {

#[derive(Clone, Copy, Debug, PartialEq, Eq, Structural)]
pub enum TicketError {
    /// The gallery does not exist, or no token is configured to pay with.
    InvalidState(u8),
    /// The buyer holds a ticket already.
    AlreadyDone(u8),
    /// The gallery component does not take tickets from this office.
    Unauthorized(u8),
    /// The gallery's attendee count is full.
    Exhausted(u8),
}

/// How a refusal of the gallery component reaches the buyer.
pub open spec fn ticket_failure(e: GalleryError) -> TicketError {
    match e {
        GalleryError::Unauthorized(_) => TicketError::Unauthorized(3),
        GalleryError::InvalidState(_) => TicketError::InvalidState(3),
        GalleryError::Exhausted(_) => TicketError::Exhausted(3),
    }
}

#[derive(Debug)]
pub struct Buy {
    address: Addr,
    gallery_c: Option<Addr>,
    erc20: Option<Addr>,
    admin: AdminLock,
}

impl Buy {
    /// This office's own address, as the gallery component sees it.
    pub closed spec fn address(&self) -> Addr {
        self.address
    }

    /// The token that tickets are paid in, once set.
    pub closed spec fn token(&self) -> Option<Addr> {
        self.erc20
    }

    /// The gallery component's address, once set.
    pub closed spec fn gallery_address(&self) -> Option<Addr> {
        self.gallery_c
    }

    pub closed spec fn admin_lock(&self) -> AdminLock {
        self.admin
    }

    /// What `buy_ticket` answers in a given state.
    pub open spec fn buy_verdict(&self, galleries: &Subject, caller: Addr, g: u64) -> Result<
        Option<Transfer>,
        TicketError,
    > {
        if !galleries.exists_gallery(g) {
            Err(TicketError::InvalidState(1))
        } else if galleries.has_ticket(g, caller) {
            Err(TicketError::AlreadyDone(1))
        } else if galleries.record(g).price.value() != 0 && self.token() is None {
            Err(TicketError::InvalidState(2))
        } else if galleries.ticket_verdict(self.address(), g) is Err {
            Err(ticket_failure(galleries.ticket_verdict(self.address(), g)->Err_0))
        } else if galleries.record(g).price.value() == 0 {
            Ok(None)
        } else {
            Ok(
                Some(
                    Transfer {
                        token: self.token()->Some_0,
                        from: caller,
                        to: galleries.record(g).owner,
                        amount: galleries.record(g).price,
                    },
                ),
            )
        }
    }

    /// A ticket office at `address`, with nothing configured.
    pub fn new(address: Addr) -> (r: Buy)
        ensures
            r.address() == address,
            r.token() == None::<Addr>,
            r.gallery_address() == None::<Addr>,
            r.admin_lock() == AdminLock::Uninitialized,
    {
        Buy { address, gallery_c: None, erc20: None, admin: AdminLock::new() }
    }

    /// Sells `caller` a ticket for gallery `gallery_index`. On success the
    /// ticket is recorded and the price, if any, is to be paid from the
    /// buyer to the gallery's owner.
    pub fn buy_ticket(&self, galleries: &mut Subject, caller: Addr, gallery_index: u64) -> (r: Result<
        Option<Transfer>,
        TicketError,
    >)
        requires
            old(galleries).wf(),
        ensures
            final(galleries).wf(),
            r == self.buy_verdict(old(galleries), caller, gallery_index),
            r is Err ==> *final(galleries) == *old(galleries),
            r is Ok ==> final(galleries).ticket_granted(*old(galleries), gallery_index, caller),
    {
        let (owner, price) = match galleries.get_gallery(gallery_index) {
            Ok(t) => (t.0, t.5),
            Err(_) => {
                return Err(TicketError::InvalidState(1));
            },
        };
        if galleries.get_user_status(gallery_index, caller) {
            return Err(TicketError::AlreadyDone(1));
        }
        let payment = if price.is_zero() {
            None
        } else {
            match self.erc20 {
                Some(token) => Some(Transfer { token, from: caller, to: owner, amount: price }),
                None => {
                    return Err(TicketError::InvalidState(2));
                },
            }
        };
        match galleries.buy_ticket(self.address, gallery_index, caller) {
            Ok(()) => Ok(payment),
            Err(e) => Err(
                match e {
                    GalleryError::Unauthorized(_) => TicketError::Unauthorized(3),
                    GalleryError::InvalidState(_) => TicketError::InvalidState(3),
                    GalleryError::Exhausted(_) => TicketError::Exhausted(3),
                },
            ),
        }
    }

    /// Names the payment token and the gallery component.
    pub fn set_erc20_gallery(&mut self, caller: Addr, er20_address: Addr, gallery_address: Addr) -> (r:
        Result<(), TicketError>)
        ensures
            r is Ok == old(self).admin_lock().admits(caller),
            r is Err ==> r == Err::<(), TicketError>(TicketError::Unauthorized(9)) && *final(self)
                == *old(self),
            r is Ok ==> final(self).token() == Some(er20_address) && final(self).gallery_address()
                == Some(gallery_address) && final(self).admin_lock() == AdminLock::Owner(caller),
            final(self).address() == old(self).address(),
    {
        if !self.admin.check_admin(caller) {
            return Err(TicketError::Unauthorized(9));
        }
        self.erc20 = Some(er20_address);
        self.gallery_c = Some(gallery_address);
        Ok(())
    }
}

} // verus!
