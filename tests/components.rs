use nova_gallery::access::AdminLock;
use nova_gallery::curation::{Mainx, NftError};
use nova_gallery::gallery::{GalleryError, Subject};
use nova_gallery::minter::{reward_tier, Minter, MinterError};
use nova_gallery::safe_vote::{Cast, CastError};
use nova_gallery::staking::Stake;
use nova_gallery::storage::{NftStorage, SubmitError};
use nova_gallery::ticketing::{Buy, TicketError};
use nova_gallery::types::{Addr, Amount, Transfer};

const NOW: u64 = 5_000;

fn addr(n: u128) -> Addr {
    Addr::new(0, n)
}

fn amt(n: u128) -> Amount {
    Amount::from_u128(n)
}

fn gallery_with(price: u128) -> Subject {
    let mut g = Subject::new();
    g.set_a_c(addr(1), addr(10)).unwrap();
    g.create_gallery(addr(2), NOW, "n".to_string(), "m".to_string(), amt(price), NOW + 10, NOW + 20, amt(10)).unwrap();
    g
}

fn office() -> Buy {
    let mut b = Buy::new(addr(10));
    b.set_erc20_gallery(addr(1), addr(17), addr(16)).unwrap();
    b
}

#[test]
fn admin_lock_first_caller_wins() {
    let mut lock = AdminLock::new();
    assert!(lock.check_admin(addr(7)));
    assert_eq!(lock, AdminLock::Owner(addr(7)));
    assert!(lock.check_admin(addr(7)));
    assert!(!lock.check_admin(addr(8)));
    assert_eq!(lock, AdminLock::Owner(addr(7)));
}

#[test]
fn amounts_compare_and_subtract_across_limbs() {
    let big = Amount::from_limbs(1, 0);
    let one = amt(1);
    assert!(one.lt(&big));
    assert!(!big.lt(&one));
    assert!(big.le(&big));
    assert_eq!(big.sub(&one), Amount::from_limbs(0, u128::MAX));
    assert_eq!(Amount::from_limbs(3, 5).sub(&Amount::from_limbs(1, 7)), Amount::from_limbs(1, u128::MAX - 1));
    assert!(Amount::zero().is_zero());
    assert!(Addr::zero().is_zero());
    assert!(!addr(3).is_zero());
}

#[test]
fn ticket_costs_the_price_once() {
    let mut g = gallery_with(100);
    let b = office();
    let buyer = addr(50);
    let paid = b.buy_ticket(&mut g, buyer, 1);
    assert_eq!(paid, Ok(Some(Transfer { token: addr(17), from: buyer, to: addr(2), amount: amt(100) })));
    assert!(g.get_user_status(1, buyer));
    assert_eq!(g.get_gallery(1).unwrap().3, 1);
    assert_eq!(b.buy_ticket(&mut g, buyer, 1), Err(TicketError::AlreadyDone(1)));
    assert_eq!(b.buy_ticket(&mut g, addr(2), 1), Err(TicketError::AlreadyDone(1)));
    assert_eq!(b.buy_ticket(&mut g, buyer, 2), Err(TicketError::InvalidState(1)));
    assert_eq!(b.buy_ticket(&mut g, buyer, 0), Err(TicketError::InvalidState(1)));
}

#[test]
fn free_ticket_moves_no_tokens() {
    let mut g = gallery_with(0);
    let b = Buy::new(addr(10));
    assert_eq!(b.buy_ticket(&mut g, addr(50), 1), Ok(None));
    assert!(g.get_user_status(1, addr(50)));
}

#[test]
fn ticket_office_must_be_registered() {
    let mut g = gallery_with(100);
    let b = Buy::new(addr(11));
    assert_eq!(b.buy_ticket(&mut g, addr(50), 1), Err(TicketError::InvalidState(2)));
    let mut b2 = Buy::new(addr(11));
    b2.set_erc20_gallery(addr(1), addr(17), addr(16)).unwrap();
    assert_eq!(b2.buy_ticket(&mut g, addr(50), 1), Err(TicketError::Unauthorized(3)));
    assert!(!g.get_user_status(1, addr(50)));
    assert_eq!(g.buy_ticket(addr(11), 1, addr(50)), Err(GalleryError::Unauthorized(1)));
    assert_eq!(g.set_a_c(addr(3), addr(11)), Err(GalleryError::Unauthorized(9)));
}

#[test]
fn created_and_joined_lists() {
    let mut g = gallery_with(0);
    g.create_gallery(addr(3), NOW, "a".to_string(), "b".to_string(), amt(0), NOW + 1, NOW + 2, amt(0)).unwrap();
    g.create_gallery(addr(2), NOW, "c".to_string(), "d".to_string(), amt(0), NOW + 1, NOW + 2, amt(0)).unwrap();
    let b = Buy::new(addr(10));
    b.buy_ticket(&mut g, addr(2), 2).unwrap();
    assert_eq!(g.get_len_uc(addr(2), 0), Ok(2));
    assert_eq!(g.get_uc(0, addr(2), 0), Ok(1));
    assert_eq!(g.get_uc(1, addr(2), 0), Ok(3));
    assert_eq!(g.get_uc(2, addr(2), 0), Err(GalleryError::InvalidState(2)));
    assert_eq!(g.get_len_uc(addr(2), 1), Ok(1));
    assert_eq!(g.get_uc(0, addr(2), 1), Ok(2));
    assert_eq!(g.get_len_uc(addr(2), 2), Err(GalleryError::InvalidState(3)));
    assert_eq!(g.get_uc(0, addr(2), 5), Err(GalleryError::InvalidState(2)));
    assert_eq!(g.get_last_index(), 3);
}

#[test]
fn session_and_minimum_stake() {
    let g = gallery_with(0);
    assert!(!g.in_session(1, NOW + 9));
    assert!(g.in_session(1, NOW + 10));
    assert!(g.in_session(1, NOW + 20));
    assert!(!g.in_session(1, NOW + 21));
    assert!(!g.in_session(2, NOW + 15));
    assert_eq!(g.get_mim_s_a(1), amt(10));
    assert_eq!(g.get_mim_s_a(9), Amount::zero());
}

#[test]
fn curation_refusals() {
    let mut g = gallery_with(0);
    let mut lib = Mainx::new();
    assert_eq!(lib.submit_nft(&g, addr(12), NOW, 1, addr(2), 1), Err(NftError::Unauthorized(1)));
    lib.set_gallery_submit(addr(1), addr(12), addr(16)).unwrap();
    assert_eq!(lib.set_gallery_submit(addr(9), addr(12), addr(16)), Err(NftError::Unauthorized(17)));
    assert_eq!(lib.submit_nft(&g, addr(12), NOW, 2, addr(2), 1), Err(NftError::InvalidState(7)));
    assert_eq!(lib.submit_nft(&g, addr(12), NOW, 1, addr(50), 1), Err(NftError::Unauthorized(11)));
    assert_eq!(lib.submit_nft(&g, addr(12), NOW + 10, 1, addr(2), 1), Err(NftError::InvalidState(11)));
    lib.submit_nft(&g, addr(12), NOW, 1, addr(2), 7).unwrap();
    lib.submit_nft(&g, addr(12), NOW, 1, addr(2), 8).unwrap();
    assert_eq!(lib.set_nft_state(&g, addr(3), NOW, 1, 1, 1), Err(NftError::Unauthorized(1)));
    assert_eq!(lib.set_nft_state(&g, addr(2), NOW, 1, 1, 3), Err(NftError::InvalidState(10)));
    assert_eq!(lib.set_nft_state(&g, addr(2), NOW, 1, 0, 1), Err(NftError::InvalidState(1)));
    assert_eq!(lib.set_nft_state(&g, addr(2), NOW, 1, 3, 1), Err(NftError::InvalidState(1)));
    assert_eq!(lib.set_nft_state(&g, addr(2), NOW + 10, 1, 1, 1), Err(NftError::InvalidState(11)));
    assert_eq!(lib.set_nft_state(&g, addr(2), NOW, 1, 1, 2), Ok(()));
    assert_eq!(lib.nft_list_len(1), Ok((2, 0)));
    assert_eq!(lib.set_nft_state(&g, addr(2), NOW, 1, 1, 1), Err(NftError::AlreadyDone(1)));
    assert_eq!(lib.set_nft_state(&g, addr(2), NOW, 1, 2, 1), Ok(()));
    assert_eq!(lib.nft_list_len(1), Ok((2, 1)));
    assert_eq!(lib.get_nft(&g, addr(9), 1, 1, false), Ok((addr(2), 1, 8)));
    assert_eq!(lib.get_nft(&g, addr(9), 1, 1, true), Err(NftError::Unauthorized(1)));
    assert_eq!(lib.get_nft(&g, addr(2), 1, 1, true), Ok((addr(2), 2, 7)));
    assert_eq!(lib.get_nft(&g, addr(2), 4, 1, true), Err(NftError::InvalidState(7)));
    assert_eq!(lib.get_nft(&g, addr(9), 1, 5, false), Ok((Addr::zero(), 0, 0)));
    assert_eq!(lib.cd_ck(&g, 1, NOW + 10, addr(2), NOW), Ok(true));
    let b = Buy::new(addr(10));
    b.buy_ticket(&mut g, addr(50), 1).unwrap();
    assert_eq!(lib.cd_ck(&g, 1, NOW + 10, addr(50), NOW + 10), Err(NftError::InvalidState(11)));
}

fn voting_setup() -> (Subject, Mainx, Stake, Cast) {
    let mut g = gallery_with(0);
    let b = Buy::new(addr(10));
    b.buy_ticket(&mut g, addr(50), 1).unwrap();
    let mut lib = Mainx::new();
    lib.set_gallery_submit(addr(1), addr(12), addr(16)).unwrap();
    lib.submit_nft(&g, addr(12), NOW, 1, addr(2), 7).unwrap();
    lib.set_nft_state(&g, addr(2), NOW, 1, 1, 1).unwrap();
    let mut s = Stake::new();
    s.set_control(addr(1), addr(13)).unwrap();
    let mut c = Cast::new(addr(13));
    c.set_control(addr(1), addr(14), addr(17), addr(16)).unwrap();
    (g, lib, s, c)
}

#[test]
fn vote_refusals() {
    let (g, lib, mut s, c) = voting_setup();
    let v = addr(50);
    assert_eq!(c.cast_vote(&mut s, &g, &lib, v, NOW + 11, 2, 1, amt(10)), Err(CastError::InvalidState(202)));
    assert_eq!(c.cast_vote(&mut s, &g, &lib, v, NOW + 10, 1, 1, amt(10)), Err(CastError::InvalidState(19)));
    assert_eq!(c.cast_vote(&mut s, &g, &lib, v, NOW + 20, 1, 1, amt(10)), Err(CastError::InvalidState(19)));
    assert_eq!(c.cast_vote(&mut s, &g, &lib, addr(51), NOW + 11, 1, 1, amt(10)), Err(CastError::Unauthorized(20)));
    assert_eq!(c.cast_vote(&mut s, &g, &lib, v, NOW + 11, 1, 1, amt(9)), Err(CastError::InsufficientValue(20)));
    assert_eq!(c.cast_vote(&mut s, &g, &lib, v, NOW + 11, 1, 2, amt(10)), Err(CastError::InvalidState(191)));
    assert!(!c.has_voted(&s, 1, v));
    let t = c.cast_vote(&mut s, &g, &lib, v, NOW + 11, 1, 1, amt(10)).unwrap();
    assert_eq!(t, Transfer { token: addr(17), from: v, to: addr(2), amount: amt(10) });
    assert!(c.has_voted(&s, 1, v));
    assert_eq!(c.get_staking_data(&s, v, 1, 1, 1), Ok(amt(10)));
    assert_eq!(c.get_staking_data(&s, addr(2), 1, 1, 1), Err(CastError::Unauthorized(81)));
    assert_eq!(c.increase_cast(&mut s, &g, &lib, addr(2), NOW + 12, 1, 1, 1, amt(20)), Err(CastError::Unauthorized(81)));
    assert_eq!(c.increase_cast(&mut s, &g, &lib, v, NOW + 21, 1, 1, 1, amt(20)), Err(CastError::InvalidState(19)));
    assert_eq!(c.check_time(1, 3, 2), Ok(()));
    assert_eq!(c.check_time(1, 3, 3), Err(CastError::InvalidState(19)));
    assert_eq!(c.get_creator(&lib, &g, 1, 1), Ok(addr(2)));
}

#[test]
fn facade_must_be_the_controller() {
    let (g, lib, _, c) = voting_setup();
    let mut other = Stake::new();
    other.set_control(addr(1), addr(99)).unwrap();
    assert_eq!(c.cast_vote(&mut other, &g, &lib, addr(50), NOW + 11, 1, 1, amt(10)), Err(CastError::Unauthorized(11)));
    let unconfigured = Cast::new(addr(13));
    let (g2, lib2, mut s2, _) = voting_setup();
    assert_eq!(unconfigured.cast_vote(&mut s2, &g2, &lib2, addr(50), NOW + 11, 1, 1, amt(10)), Err(CastError::InvalidState(201)));
}

#[test]
fn storage_access_rules() {
    let g = gallery_with(0);
    let mut lib = Mainx::new();
    lib.set_gallery_submit(addr(1), addr(12), addr(16)).unwrap();
    let mut st = NftStorage::new(addr(12));
    st.set_libary(addr(1), addr(11), addr(16), addr(15)).unwrap();
    assert_eq!(st.set_libary(addr(3), addr(11), addr(16), addr(15)), Err(SubmitError::Unauthorized(17)));
    assert_eq!(st.submit_nft(&mut lib, &g, addr(50), NOW, 1, "x".to_string()), Err(SubmitError::Curation(NftError::Unauthorized(11))));
    st.submit_nft(&mut lib, &g, addr(2), NOW, 1, "meta".to_string()).unwrap();
    assert_eq!(st.get_nft_data(&g, addr(2), 1), Ok((addr(2), "meta".to_string(), 1)));
    assert_eq!(st.get_nft_data(&g, addr(60), 1), Err(SubmitError::Unauthorized(17)));
    assert_eq!(st.get_nft_data(&g, addr(15), 1), Ok((addr(2), "meta".to_string(), 1)));
    assert_eq!(st.get_nft_data(&g, addr(2), 2), Err(SubmitError::InvalidState(16)));
    assert_eq!(st.system_mint(addr(60), 1), Err(SubmitError::Unauthorized(101)));
    assert_eq!(st.system_mint(addr(15), 2), Err(SubmitError::InvalidState(102)));
    assert_eq!(st.system_mint(addr(15), 1), Ok(()));
    assert_eq!(st.get_nft_data(&g, addr(60), 1), Ok((addr(2), "meta".to_string(), 1)));
}

#[test]
fn reward_table() {
    assert_eq!(reward_tier(0), Some(3));
    assert_eq!(reward_tier(1), Some(2));
    assert_eq!(reward_tier(2), Some(1));
    assert_eq!(reward_tier(3), None);
    let m = Minter::new(addr(15));
    assert_eq!(m.check_time(10, 11), Ok(()));
    assert_eq!(m.check_time(10, 10), Err(MinterError::InvalidState(19)));
    assert!(!m.has_claimed(addr(1), 1));
}

#[test]
fn claim_without_token_or_storage_rights() {
    let (g, lib, mut s, c) = voting_setup();
    c.cast_vote(&mut s, &g, &lib, addr(50), NOW + 11, 1, 1, amt(10)).unwrap();
    let mut st = NftStorage::new(addr(12));
    let mut m = Minter::new(addr(15));
    assert_eq!(m.claim_SFT(&s, &g, &lib, &mut st, addr(50), NOW + 21, 1, 1), Err(MinterError::InvalidState(204)));
    m.set_control(addr(1), addr(14), addr(16), addr(11), addr(18), addr(12)).unwrap();
    assert_eq!(m.set_control(addr(4), addr(14), addr(16), addr(11), addr(18), addr(12)), Err(MinterError::Unauthorized(0)));
    assert_eq!(m.claim_SFT(&s, &g, &lib, &mut st, addr(50), NOW + 21, 1, 1), Err(MinterError::Unauthorized(11)));
    assert_eq!(m.claim_SFT(&s, &g, &lib, &mut st, addr(50), NOW + 21, 3, 1), Err(MinterError::InvalidState(202)));
    assert!(!m.has_claimed(addr(50), 1));
}
