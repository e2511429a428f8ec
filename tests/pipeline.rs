use nova_gallery::curation::{Mainx, NftError};
use nova_gallery::gallery::{GalleryError, Subject};
use nova_gallery::minter::{MintOrder, Minter, MinterError};
use nova_gallery::safe_vote::{Cast, CastError};
use nova_gallery::staking::{Stake, NOT_RANKED};
use nova_gallery::storage::{NftStorage, SubmitError};
use nova_gallery::ticketing::{Buy, TicketError};
use nova_gallery::types::{Addr, Amount, Transfer};

const NOW: u64 = 1_000;

fn addr(n: u128) -> Addr {
    Addr::new(0, n)
}

fn amt(n: u128) -> Amount {
    Amount::from_u128(n)
}

fn admin() -> Addr {
    addr(1)
}
fn owner() -> Addr {
    addr(2)
}
fn office() -> Addr {
    addr(10)
}
fn library_addr() -> Addr {
    addr(11)
}
fn storage_addr() -> Addr {
    addr(12)
}
fn facade_addr() -> Addr {
    addr(13)
}
fn stake_addr() -> Addr {
    addr(14)
}
fn minter_addr() -> Addr {
    addr(15)
}
fn gallery_addr() -> Addr {
    addr(16)
}
fn token() -> Addr {
    addr(17)
}
fn reward_token() -> Addr {
    addr(18)
}

struct World {
    galleries: Subject,
    office: Buy,
    library: Mainx,
    storage: NftStorage,
    staking: Stake,
    facade: Cast,
    minter: Minter,
}

/// Every component wired to the others, and one gallery: price 100, voting
/// from NOW + 10 to NOW + 20, minimum stake 10.
fn world() -> World {
    let mut galleries = Subject::new();
    galleries.set_a_c(admin(), office()).unwrap();
    galleries
        .create_gallery(owner(), NOW, "Dawn".to_string(), "ipfs://dawn".to_string(), amt(100), NOW + 10, NOW + 20, amt(10))
        .unwrap();
    let mut office_c = Buy::new(office());
    office_c.set_erc20_gallery(admin(), token(), gallery_addr()).unwrap();
    let mut library = Mainx::new();
    library.set_gallery_submit(admin(), storage_addr(), gallery_addr()).unwrap();
    let mut storage = NftStorage::new(storage_addr());
    storage.set_libary(admin(), library_addr(), gallery_addr(), minter_addr()).unwrap();
    let mut staking = Stake::new();
    staking.set_control(admin(), facade_addr()).unwrap();
    let mut facade = Cast::new(facade_addr());
    facade.set_control(admin(), stake_addr(), token(), gallery_addr()).unwrap();
    let mut minter = Minter::new(minter_addr());
    minter
        .set_control(admin(), stake_addr(), gallery_addr(), library_addr(), reward_token(), storage_addr())
        .unwrap();
    World { galleries, office: office_c, library, storage, staking, facade, minter }
}

impl World {
    fn ticket(&mut self, user: Addr) {
        self.office.buy_ticket(&mut self.galleries, user, 1).unwrap();
    }

    fn submit(&mut self, user: Addr, now: u64) -> Result<(), SubmitError> {
        self.storage.submit_nft(&mut self.library, &self.galleries, user, now, 1, "art".to_string())
    }

    /// One submission by the owner, accepted as accepted index 1.
    fn accepted_nft(&mut self) {
        self.submit(owner(), NOW).unwrap();
        self.library.set_nft_state(&self.galleries, owner(), NOW, 1, 1, 1).unwrap();
    }

    fn vote(&mut self, user: Addr, now: u64, bid: u128) -> Result<Transfer, CastError> {
        self.facade.cast_vote(&mut self.staking, &self.galleries, &self.library, user, now, 1, 1, amt(bid))
    }

    fn claim(&mut self, user: Addr, now: u64) -> Result<MintOrder, MinterError> {
        self.minter.claim_SFT(&self.staking, &self.galleries, &self.library, &mut self.storage, user, now, 1, 1)
    }
}

#[test]
fn scenario_submission_window() {
    let mut w = world();
    let user = addr(100);
    w.ticket(user);
    assert_eq!(w.submit(user, NOW + 5), Ok(()));
    assert_eq!(w.library.nft_list_len(1), Ok((1, 0)));
    assert_eq!(w.library.get_nft(&w.galleries, owner(), 1, 1, true), Ok((user, 0, 1)));
    assert_eq!(w.submit(user, NOW + 15), Err(SubmitError::Curation(NftError::InvalidState(11))));
    assert_eq!(w.library.nft_list_len(1), Ok((1, 0)));
}

#[test]
fn scenario_accept_once() {
    let mut w = world();
    w.submit(owner(), NOW).unwrap();
    assert_eq!(w.library.set_nft_state(&w.galleries, owner(), NOW, 1, 1, 1), Ok(()));
    assert_eq!(w.library.get_accepted(1, 1), 1);
    assert_eq!(w.library.get_nft(&w.galleries, addr(99), 1, 1, false), Ok((owner(), 1, 1)));
    assert_eq!(w.library.get_system_total_nft(), 1);
    assert_eq!(w.library.set_nft_state(&w.galleries, owner(), NOW, 1, 1, 1), Err(NftError::AlreadyDone(1)));
    assert_eq!(w.library.get_system_total_nft(), 1);
}

#[test]
fn scenario_leaderboard_order() {
    let mut w = world();
    w.accepted_nft();
    let (a, b, c) = (addr(100), addr(101), addr(102));
    for u in [a, b, c] {
        w.ticket(u);
    }
    w.vote(a, NOW + 11, 50).unwrap();
    w.vote(b, NOW + 11, 80).unwrap();
    let top = w.staking.get_leaderboard(1, 1, 0, 2);
    assert_eq!(top[0].2, b);
    assert_eq!(top[1].2, a);
    w.vote(c, NOW + 12, 120).unwrap();
    let top = w.staking.get_leaderboard(1, 1, 0, 3);
    let bids: Vec<Amount> = top.iter().map(|e| e.1).collect();
    assert_eq!(bids, vec![amt(120), amt(80), amt(50)]);
    assert_eq!(top[0].2, c);
    assert_eq!(w.staking.get_position(1, 1, c), Ok(0));
    assert_eq!(w.staking.get_position(1, 1, a), Ok(2));
}

#[test]
fn scenario_increase_bid() {
    let mut w = world();
    w.accepted_nft();
    let u = addr(100);
    w.ticket(u);
    w.vote(u, NOW + 11, 50).unwrap();
    let lower = w.facade.increase_cast(&mut w.staking, &w.galleries, &w.library, u, NOW + 12, 1, 1, 1, amt(40));
    assert_eq!(lower, Err(CastError::InsufficientValue(2)));
    let same = w.facade.increase_cast(&mut w.staking, &w.galleries, &w.library, u, NOW + 12, 1, 1, 1, amt(50));
    assert_eq!(same, Err(CastError::InsufficientValue(2)));
    let t = w.facade.increase_cast(&mut w.staking, &w.galleries, &w.library, u, NOW + 12, 1, 1, 1, amt(60)).unwrap();
    assert_eq!(t, Transfer { token: token(), from: u, to: owner(), amount: amt(10) });
    assert_eq!(w.staking.get_cast(1, 1, 1), (amt(60), NOW + 12, u));
}

#[test]
fn scenario_claim_rewards() {
    let mut w = world();
    w.accepted_nft();
    let voters = [addr(100), addr(101), addr(102), addr(103)];
    let bids = [400u128, 300, 200, 100];
    for (u, b) in voters.iter().zip(bids.iter()) {
        w.ticket(*u);
        w.vote(*u, NOW + 11, *b).unwrap();
    }
    assert_eq!(w.claim(voters[1], NOW + 20), Err(MinterError::InvalidState(19)));
    assert_eq!(w.claim(voters[3], NOW + 21), Err(MinterError::InvalidState(203)));
    let order = w.claim(voters[1], NOW + 21).unwrap();
    assert_eq!(order, MintOrder { token: reward_token(), to: voters[1], token_id: 1, amount: 2, gallery: 1, nft: 1 });
    assert!(w.minter.has_claimed(voters[1], 1));
    assert_eq!(w.claim(voters[1], NOW + 22), Err(MinterError::AlreadyDone(202)));
    let first = w.claim(voters[0], NOW + 21).unwrap();
    assert_eq!(first.amount, 3);
    let third = w.claim(voters[2], NOW + 21).unwrap();
    assert_eq!(third.amount, 1);
}

#[test]
fn voting_window_is_checked_at_creation() {
    let mut g = Subject::new();
    let bad = g.create_gallery(owner(), NOW, "x".to_string(), "y".to_string(), amt(1), NOW + 20, NOW + 20, amt(1));
    assert_eq!(bad, Err(GalleryError::InvalidState(0)));
    let late = g.create_gallery(owner(), NOW, "x".to_string(), "y".to_string(), amt(1), NOW - 1, NOW + 20, amt(1));
    assert_eq!(late, Err(GalleryError::InvalidState(0)));
    let unnamed = g.create_gallery(owner(), NOW, String::new(), "y".to_string(), amt(1), NOW + 1, NOW + 20, amt(1));
    assert_eq!(unnamed, Err(GalleryError::InvalidState(0)));
    assert_eq!(g.get_last_index(), 0);
    assert_eq!(g.create_gallery(owner(), NOW, "x".to_string(), "y".to_string(), amt(1), NOW, NOW + 1, amt(1)), Ok(()));
    let info = g.get_gallery(1).unwrap();
    assert!(info.7 < info.6);
    assert_eq!(g.get_gallery(0), Err(GalleryError::InvalidState(1)));
    assert_eq!(g.get_gallery(2), Err(GalleryError::InvalidState(1)));
}

#[test]
fn second_stake_in_gallery_is_refused() {
    let mut w = world();
    w.accepted_nft();
    let u = addr(100);
    w.ticket(u);
    assert!(!w.staking.has_voted(1, u));
    w.vote(u, NOW + 11, 50).unwrap();
    assert!(w.staking.has_voted(1, u));
    assert_eq!(w.vote(u, NOW + 12, 70), Err(CastError::AlreadyDone(20)));
    let direct = w.staking.stake(facade_addr(), u, 1, 2, amt(70), NOW + 12);
    assert_eq!(direct, Err(nova_gallery::staking::StakeError::AlreadyDone(4)));
    assert!(w.staking.has_voted(1, u));
    assert_eq!(w.staking.get_gallery_total_votes(1), 1);
}

#[test]
fn leaderboard_stays_sorted_and_bounded() {
    let mut s = Stake::new();
    s.set_control(admin(), facade_addr()).unwrap();
    for i in 0..35u128 {
        let bid = (i * 7919) % 101 + 1;
        s.stake(facade_addr(), addr(1000 + i), 1, 1, amt(bid), NOW).unwrap();
    }
    let board = s.get_leaderboard(1, 1, 0, 40);
    assert_eq!(board.len(), 40);
    let filled: Vec<_> = board.iter().filter(|e| e.0 != 0).collect();
    assert_eq!(filled.len(), 30);
    for w in filled.windows(2) {
        assert!(!w[0].1.lt(&w[1].1));
    }
    assert_eq!(board[30], (0, Amount::zero(), Addr::zero(), 0));
    assert_eq!(s.get_total_votes(1, 1), 35);
}

#[test]
fn full_leaderboard_drops_the_lowest() {
    let mut s = Stake::new();
    s.set_control(admin(), facade_addr()).unwrap();
    for i in 0..30u128 {
        s.stake(facade_addr(), addr(1000 + i), 1, 1, amt(100 + i), NOW).unwrap();
    }
    s.stake(facade_addr(), addr(2000), 1, 1, amt(50), NOW).unwrap();
    assert_eq!(s.get_position(1, 1, addr(2000)), Ok(NOT_RANKED));
    assert_eq!(NOT_RANKED, 33);
    s.stake(facade_addr(), addr(3000), 1, 1, amt(500), NOW).unwrap();
    assert_eq!(s.get_position(1, 1, addr(3000)), Ok(0));
    assert_eq!(s.get_position(1, 1, addr(1000)), Ok(NOT_RANKED));
    let last = s.get_leaderboard(1, 1, 29, 30);
    assert_eq!(last[0].1, amt(101));
}

#[test]
fn zero_bid_never_ranks_and_ties_keep_arrival_order() {
    let mut s = Stake::new();
    s.set_control(admin(), facade_addr()).unwrap();
    s.stake(facade_addr(), addr(100), 1, 1, amt(0), NOW).unwrap();
    assert_eq!(s.get_position(1, 1, addr(100)), Ok(NOT_RANKED));
    s.stake(facade_addr(), addr(101), 1, 1, amt(5), NOW).unwrap();
    s.stake(facade_addr(), addr(102), 1, 1, amt(5), NOW).unwrap();
    assert_eq!(s.get_position(1, 1, addr(101)), Ok(0));
    assert_eq!(s.get_position(1, 1, addr(102)), Ok(1));
}

#[test]
fn leaderboard_reads_repeat() {
    let mut s = Stake::new();
    s.set_control(admin(), facade_addr()).unwrap();
    s.stake(facade_addr(), addr(100), 1, 1, amt(10), NOW).unwrap();
    s.stake(facade_addr(), addr(101), 1, 1, amt(20), NOW).unwrap();
    let first = s.get_leaderboard(1, 1, 0, 5);
    let second = s.get_leaderboard(1, 1, 0, 5);
    assert_eq!(first, second);
    assert_eq!(s.get_leaderboard(1, 1, 3, 1), vec![]);
}

#[test]
fn update_bid_reranks_and_checks_owner() {
    let mut s = Stake::new();
    s.set_control(admin(), facade_addr()).unwrap();
    s.stake(facade_addr(), addr(100), 1, 1, amt(10), NOW).unwrap();
    s.stake(facade_addr(), addr(101), 1, 1, amt(20), NOW).unwrap();
    assert_eq!(s.update_bid(facade_addr(), addr(101), 1, 1, 1, amt(30), NOW), Err(nova_gallery::staking::StakeError::Unauthorized(15)));
    assert_eq!(s.update_bid(facade_addr(), addr(100), 1, 1, 3, amt(30), NOW), Err(nova_gallery::staking::StakeError::Unauthorized(15)));
    assert_eq!(s.update_bid(addr(5), addr(100), 1, 1, 1, amt(30), NOW), Err(nova_gallery::staking::StakeError::Unauthorized(11)));
    assert_eq!(s.update_bid(facade_addr(), addr(100), 1, 1, 1, amt(30), NOW + 1), Ok(()));
    assert_eq!(s.get_position(1, 1, addr(100)), Ok(0));
    assert_eq!(s.get_cast(1, 1, 1), (amt(30), NOW + 1, addr(100)));
    assert_eq!(s.get_total_votes(1, 1), 2);
}

#[test]
fn stake_needs_the_controller() {
    let mut s = Stake::new();
    assert_eq!(s.stake(facade_addr(), addr(100), 1, 1, amt(10), NOW), Err(nova_gallery::staking::StakeError::Unauthorized(3)));
    s.set_control(admin(), facade_addr()).unwrap();
    assert_eq!(s.set_control(addr(3), addr(4)), Err(nova_gallery::staking::StakeError::Unauthorized(0)));
    assert_eq!(s.stake(addr(4), addr(100), 1, 1, amt(10), NOW), Err(nova_gallery::staking::StakeError::Unauthorized(3)));
    assert!(!s.has_voted(1, addr(100)));
}

#[test]
fn staking_takes_the_controllers_bid_as_given() {
    let mut s = Stake::new();
    s.set_control(admin(), facade_addr()).unwrap();
    s.stake(facade_addr(), addr(100), 1, 1, amt(50), NOW).unwrap();
    s.stake(facade_addr(), addr(101), 1, 1, amt(40), NOW).unwrap();
    assert_eq!(s.update_bid(facade_addr(), addr(100), 1, 1, 1, amt(30), NOW + 1), Ok(()));
    assert_eq!(s.get_cast(1, 1, 1).0, amt(30));
    assert_eq!(s.get_position(1, 1, addr(101)), Ok(0));
    assert_eq!(s.get_position(1, 1, addr(100)), Ok(1));
    assert_eq!(s.update_bid(facade_addr(), addr(100), 1, 1, 1, amt(0), NOW + 2), Ok(()));
    assert_eq!(s.get_position(1, 1, addr(100)), Ok(NOT_RANKED));
}

#[test]
fn empty_leaderboard_reads_as_empty_slots() {
    let s = Stake::new();
    let board = s.get_leaderboard(7, 7, 0, 3);
    assert_eq!(board, vec![(0, Amount::zero(), Addr::zero(), 0); 3]);
    assert_eq!(s.get_position(7, 7, addr(1)), Ok(NOT_RANKED));
    assert_eq!(s.get_cast(7, 7, 1), (Amount::zero(), 0, Addr::zero()));
    assert_eq!(s.get_gallery_total_votes(7), 0);
}
