//! Submission storage: keeps each submitted NFT's metadata, passes the
//! submission on to curation, and opens the metadata to everyone once the
//! minter has rewarded it.
use vstd::prelude::*;
use crate::access::AdminLock;
use crate::curation::{Mainx, NftError, PENDING, Submission};
use crate::gallery::Subject;
use crate::types::Addr;

verus! {

#[derive(Clone, Copy, Debug, PartialEq, Eq, Structural)]
pub enum SubmitError {
    /// Curation refused the submission.
    Curation(NftError),
    /// The caller may not read or open this item.
    Unauthorized(u8),
    /// No item has this id.
    InvalidState(u8),
    /// The item counter is full.
    Exhausted(u8),
}

/// One stored NFT.
#[derive(Debug)]
pub struct StoredNft {
    /// The gallery it was submitted to.
    pub gallery: u64,
    /// Its metadata.
    pub data: String,
    /// Its creator.
    pub owner: Addr,
    /// Whether everyone may read the metadata.
    pub open: bool,
}

#[derive(Debug)]
pub struct NftStorage {
    address: Addr,
    items: Vec<StoredNft>,
    libary: Option<Addr>,
    gallery_c: Option<Addr>,
    minter: Option<Addr>,
    admin: AdminLock,
}

impl NftStorage {
    /// This component's own address, as curation sees it.
    pub closed spec fn address(&self) -> Addr {
        self.address
    }

    /// All stored NFTs; item `k` is entry `k - 1`.
    pub closed spec fn items(&self) -> Seq<StoredNft> {
        self.items@
    }

    /// The only address allowed to open items, once set.
    pub closed spec fn minter(&self) -> Option<Addr> {
        self.minter
    }

    /// The curation component's address, once set.
    pub closed spec fn library_address(&self) -> Option<Addr> {
        self.libary
    }

    /// The gallery component's address, once set.
    pub closed spec fn gallery_address(&self) -> Option<Addr> {
        self.gallery_c
    }

    pub closed spec fn admin_lock(&self) -> AdminLock {
        self.admin
    }

    pub open spec fn exists_item(&self, id: u64) -> bool {
        1 <= id && id <= self.items().len()
    }

    pub open spec fn item(&self, id: u64) -> StoredNft {
        self.items()[id - 1]
    }

    /// Whether `caller` may read item `id`: it is open, the caller is the
    /// minter, or the caller holds a ticket for its gallery.
    pub open spec fn may_read(&self, galleries: &Subject, caller: Addr, id: u64) -> bool {
        self.item(id).open || self.minter() == Some(caller) || galleries.has_ticket(
            self.item(id).gallery,
            caller,
        )
    }

    /// `self` is `pre` with item `id` opened to every reader.
    pub open spec fn item_opened(&self, pre: NftStorage, id: u64) -> bool {
        &&& self.items().len() == pre.items().len()
        &&& self.item(id).open
        &&& self.item(id).gallery == pre.item(id).gallery
        &&& self.item(id).data == pre.item(id).data
        &&& self.item(id).owner == pre.item(id).owner
        &&& forall|k: u64| k != id && pre.exists_item(k) ==> #[trigger] self.item(k) == pre.item(k)
    }

    /// A storage at `address`, with nothing configured.
    pub fn new(address: Addr) -> (r: NftStorage)
        ensures
            r.address() == address,
            r.items() == Seq::<StoredNft>::empty(),
            r.minter() == None::<Addr>,
            r.library_address() == None::<Addr>,
            r.gallery_address() == None::<Addr>,
            r.admin_lock() == AdminLock::Uninitialized,
    {
        NftStorage {
            address,
            items: Vec::new(),
            libary: None,
            gallery_c: None,
            minter: None,
            admin: AdminLock::new(),
        }
    }

    /// Stores `caller`'s NFT metadata as the next item and submits it to
    /// gallery `gallery_id` for curation.
    pub fn submit_nft(
        &mut self,
        library: &mut Mainx,
        galleries: &Subject,
        caller: Addr,
        now: u64,
        gallery_id: u64,
        data: String,
    ) -> (r: Result<(), SubmitError>)
        requires
            old(library).wf(),
        ensures
            final(library).wf(),
            old(self).items().len() >= u64::MAX ==> r == Err::<(), SubmitError>(SubmitError::Exhausted(1)),
            old(self).items().len() < u64::MAX ==> ({
                let v = old(library).submit_verdict(galleries, old(self).address(), now, gallery_id, caller);
                match v {
                    Err(e) => r == Err::<(), SubmitError>(SubmitError::Curation(e)),
                    Ok(_) => r is Ok,
                }
            }),
            r is Err ==> *final(self) == *old(self) && *final(library) == *old(library),
            r is Ok ==> {
                let id = (old(self).items().len() + 1) as u64;
                &&& final(self).items().len() == id
                &&& final(self).items().drop_last() == old(self).items()
                &&& final(self).item(id).gallery == gallery_id
                &&& final(self).item(id).data@ == data@
                &&& final(self).item(id).owner == caller
                &&& !final(self).item(id).open
                &&& final(library).submissions(gallery_id) == old(library).submissions(gallery_id).push(
                    Submission { owner: caller, status: PENDING, data: id },
                )
                &&& final(library).same_except(*old(library), gallery_id)
                &&& final(library).accepted(gallery_id) == old(library).accepted(gallery_id)
                &&& final(library).total_accepted() == old(library).total_accepted()
            },
            final(self).address() == old(self).address(),
            final(self).minter() == old(self).minter(),
            final(self).admin_lock() == old(self).admin_lock(),
    {
        if self.items.len() as u64 == u64::MAX {
            return Err(SubmitError::Exhausted(1));
        }
        let id = self.items.len() as u64 + 1;
        match library.submit_nft(galleries, self.address, now, gallery_id, caller, id) {
            Ok(()) => {},
            Err(e) => {
                return Err(SubmitError::Curation(e));
            },
        }
        self.items.push(StoredNft { gallery: gallery_id, data, owner: caller, open: false });
        assert(self.items@.drop_last() =~= old(self).items@);
        Ok(())
    }

    /// (creator, metadata, gallery) of item `nft_id`, for a caller who may read it.
    pub fn get_nft_data(&self, galleries: &Subject, caller: Addr, nft_id: u64) -> (r: Result<
        (Addr, String, u64),
        SubmitError,
    >)
        ensures
            !self.exists_item(nft_id) ==> r == Err::<(Addr, String, u64), SubmitError>(
                SubmitError::InvalidState(16),
            ),
            self.exists_item(nft_id) && !self.may_read(galleries, caller, nft_id) ==> r == Err::<
                (Addr, String, u64),
                SubmitError,
            >(SubmitError::Unauthorized(17)),
            self.exists_item(nft_id) && self.may_read(galleries, caller, nft_id) ==> r is Ok && r->Ok_0.0
                == self.item(nft_id).owner && r->Ok_0.1@ == self.item(nft_id).data@ && r->Ok_0.2 == self.item(
                nft_id,
            ).gallery,
    {
        if nft_id < 1 || nft_id > self.items.len() as u64 {
            return Err(SubmitError::InvalidState(16));
        }
        let item = &self.items[(nft_id - 1) as usize];
        let is_minter = match self.minter {
            Some(m) => m == caller,
            None => false,
        };
        if !item.open && !is_minter && !galleries.get_user_status(item.gallery, caller) {
            return Err(SubmitError::Unauthorized(17));
        }
        Ok((item.owner, item.data.clone(), item.gallery))
    }

    /// Opens item `nft_id` to every reader. Only the minter may call this.
    pub fn system_mint(&mut self, caller: Addr, nft_id: u64) -> (r: Result<(), SubmitError>)
        ensures
            old(self).minter() != Some(caller) ==> r == Err::<(), SubmitError>(SubmitError::Unauthorized(101)),
            old(self).minter() == Some(caller) && !old(self).exists_item(nft_id) ==> r == Err::<(), SubmitError>(
                SubmitError::InvalidState(102),
            ),
            old(self).minter() == Some(caller) && old(self).exists_item(nft_id) ==> r is Ok,
            r is Err ==> *final(self) == *old(self),
            r is Ok ==> final(self).item_opened(*old(self), nft_id),
            final(self).address() == old(self).address(),
            final(self).minter() == old(self).minter(),
            final(self).admin_lock() == old(self).admin_lock(),
    {
        let allowed = match self.minter {
            Some(m) => m == caller,
            None => false,
        };
        if !allowed {
            return Err(SubmitError::Unauthorized(101));
        }
        if nft_id < 1 || nft_id > self.items.len() as u64 {
            return Err(SubmitError::InvalidState(102));
        }
        let k = (nft_id - 1) as usize;
        let mut item = self.items.remove(k);
        item.open = true;
        self.items.insert(k, item);
        assert forall|j: u64| j != nft_id && old(self).exists_item(j) implies #[trigger] self.item(j) == old(
            self,
        ).item(j) by {
            assert(self.items@[j - 1] == old(self).items@[j - 1]);
        }
        Ok(())
    }

    /// Names the curation component, the gallery component and the minter.
    pub fn set_libary(&mut self, caller: Addr, libary_address: Addr, gallery: Addr, minter: Addr) -> (r: Result<
        (),
        SubmitError,
    >)
        ensures
            r is Ok == old(self).admin_lock().admits(caller),
            r is Err ==> r == Err::<(), SubmitError>(SubmitError::Unauthorized(17)) && *final(self)
                == *old(self),
            r is Ok ==> final(self).library_address() == Some(libary_address) && final(self).gallery_address()
                == Some(gallery) && final(self).minter() == Some(minter) && final(self).admin_lock()
                == AdminLock::Owner(caller),
            final(self).items() == old(self).items(),
            final(self).address() == old(self).address(),
    {
        if !self.admin.check_admin(caller) {
            return Err(SubmitError::Unauthorized(17));
        }
        self.libary = Some(libary_address);
        self.gallery_c = Some(gallery);
        self.minter = Some(minter);
        Ok(())
    }
}

} // verus!
