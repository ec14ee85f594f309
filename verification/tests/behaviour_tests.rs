use knowdly_contract::contract::KnowdlyBookContract;
use knowdly_contract::fees::{primary_split, sale_split};
use knowdly_contract::types::{Address, Book, ContractError, PrimarySplit, SaleSplit, Token};

fn wallet(strkey: &str) -> Address {
    Address::new(strkey.to_string())
}

fn creator() -> Address {
    wallet("GCCREATORAAAAAAAAAAAAAAAAAAAAAAAAAAAAAAAAAAAAAAAAAAAAAA")
}

fn other_creator() -> Address {
    wallet("GCOTHERCREATORAAAAAAAAAAAAAAAAAAAAAAAAAAAAAAAAAAAAAAAAA")
}

fn reader_a() -> Address {
    wallet("GDREADERAAAAAAAAAAAAAAAAAAAAAAAAAAAAAAAAAAAAAAAAAAAAAAA")
}

fn reader_b() -> Address {
    wallet("GDREADERBBBBBBBBBBBBBBBBBBBBBBBBBBBBBBBBBBBBBBBBBBBBBBB")
}

fn platform() -> Address {
    wallet("GBPLATFORMTREASURYAAAAAAAAAAAAAAAAAAAAAAAAAAAAAAAAAAAAA")
}

fn contract_with_book(fee_bps: u32, royalty_bps: u32) -> (KnowdlyBookContract, u64) {
    let mut c = KnowdlyBookContract::new();
    c.initialise(platform(), fee_bps).unwrap();
    let id = c
        .register_book(creator(), 10_000_000, royalty_bps, b"tx".to_vec(), b"Title".to_vec())
        .unwrap();
    (c, id)
}

#[test]
fn fresh_contract_is_empty() {
    let c = KnowdlyBookContract::new();
    assert_eq!(c.get_total_books(), 0);
    assert_eq!(c.get_total_tokens(), 0);
    assert_eq!(c.platform(), None);
    assert_eq!(c.platform_fee_bps(), None);
    assert_eq!(c.get_book(0).unwrap_err(), ContractError::BookNotFound);
    assert_eq!(c.get_token(0).unwrap_err(), ContractError::TokenNotFound);
    assert!(!c.owns_book(&reader_a(), 0));
    assert!(c.get_tokens_by_owner(&reader_a()).is_empty());
}

#[test]
fn initialise_stores_platform_and_fee() {
    let mut c = KnowdlyBookContract::new();
    assert_eq!(c.initialise(platform(), 1000), Ok(()));
    assert_eq!(c.platform(), Some(platform()));
    assert_eq!(c.platform_fee_bps(), Some(1000));
    assert_eq!(c.get_total_books(), 0);
    assert_eq!(c.get_total_tokens(), 0);
}

#[test]
fn initialise_refuses_fee_above_ten_percent() {
    let mut c = KnowdlyBookContract::new();
    assert_eq!(c.initialise(platform(), 1001), Err(ContractError::PlatformFeeTooHigh));
    assert_eq!(c.platform(), None);
    assert_eq!(c.platform_fee_bps(), None);
}

#[test]
fn register_refuses_non_positive_price() {
    let mut c = KnowdlyBookContract::new();
    let r = c.register_book(creator(), 0, 500, b"tx".to_vec(), b"T".to_vec());
    assert_eq!(r, Err(ContractError::PriceNotPositive));
    let r = c.register_book(creator(), -5, 500, b"tx".to_vec(), b"T".to_vec());
    assert_eq!(r, Err(ContractError::PriceNotPositive));
    assert_eq!(c.get_total_books(), 0);
}

#[test]
fn register_refuses_royalty_above_half() {
    let mut c = KnowdlyBookContract::new();
    let r = c.register_book(creator(), 1, 5001, b"tx".to_vec(), b"T".to_vec());
    assert_eq!(r, Err(ContractError::RoyaltyTooHigh));
    let r = c.register_book(creator(), 1, 5000, b"tx".to_vec(), b"T".to_vec());
    assert_eq!(r, Ok(0));
}

#[test]
fn register_checks_price_before_royalty() {
    let mut c = KnowdlyBookContract::new();
    let r = c.register_book(creator(), 0, 9000, b"tx".to_vec(), b"T".to_vec());
    assert_eq!(r, Err(ContractError::PriceNotPositive));
}

#[test]
fn register_without_initialise_counts_from_zero() {
    let mut c = KnowdlyBookContract::new();
    let a = c.register_book(creator(), 1, 0, b"a".to_vec(), b"A".to_vec()).unwrap();
    let b = c.register_book(creator(), 2, 0, b"b".to_vec(), b"B".to_vec()).unwrap();
    assert_eq!((a, b), (0, 1));
    assert_eq!(c.get_total_books(), 2);
    let book = c.get_book(1).unwrap();
    assert_eq!(book.title, b"B".to_vec());
    assert_eq!(book.publisher, creator());
}

#[test]
fn register_refuses_when_counter_is_exhausted() {
    let mut c = KnowdlyBookContract::new();
    c.store_instance(None, None, Some(u64::MAX), None);
    let r = c.register_book(creator(), 1, 0, b"a".to_vec(), b"A".to_vec());
    assert_eq!(r, Err(ContractError::ArithmeticOverflow));
}

#[test]
fn update_arweave_tx_only_by_creator() {
    let (mut c, id) = contract_with_book(250, 500);
    assert_eq!(
        c.update_arweave_tx(&other_creator(), id, b"x".to_vec()),
        Err(ContractError::NotCreator)
    );
    assert_eq!(c.get_book(id).unwrap().arweave_tx_id, b"tx".to_vec());
    assert_eq!(
        c.update_arweave_tx(&creator(), 7, b"x".to_vec()),
        Err(ContractError::BookNotFound)
    );
}

#[test]
fn deactivate_only_by_creator_and_stops_purchases() {
    let (mut c, id) = contract_with_book(250, 500);
    let token = c.purchase(&reader_a(), id, 3).unwrap();
    assert_eq!(c.deactivate_book(&other_creator(), id), Err(ContractError::NotCreator));
    assert_eq!(c.deactivate_book(&creator(), 9), Err(ContractError::BookNotFound));
    assert_eq!(c.deactivate_book(&creator(), id), Ok(()));
    assert_eq!(c.get_book(id).unwrap().active, false);
    assert_eq!(c.purchase(&reader_b(), id, 4), Err(ContractError::BookInactive));
    // existing tokens are not affected
    assert!(c.owns_book(&reader_a(), id));
    assert_eq!(c.get_token(token).unwrap().owner, reader_a());
}

#[test]
fn purchase_mints_token_with_price_and_sequence() {
    let (mut c, id) = contract_with_book(250, 500);
    let t = c.purchase(&reader_a(), id, 42).unwrap();
    assert_eq!(t, 0);
    let token: Token = c.get_token(t).unwrap();
    assert_eq!(token.id, 0);
    assert_eq!(token.minted_at, 42);
    assert_eq!(token.purchase_price, 10_000_000);
    let book: Book = c.get_book(id).unwrap();
    assert_eq!(book.total_sales, 1);
    assert_eq!(c.get_total_tokens(), 1);
    let t2 = c.purchase(&reader_b(), id, 43).unwrap();
    assert_eq!(t2, 1);
    assert_eq!(c.get_book(id).unwrap().total_sales, 2);
}

#[test]
fn purchase_refuses_missing_book_and_second_copy() {
    let (mut c, id) = contract_with_book(250, 500);
    assert_eq!(c.purchase(&reader_a(), 5, 1), Err(ContractError::BookNotFound));
    c.purchase(&reader_a(), id, 1).unwrap();
    assert_eq!(c.purchase(&reader_a(), id, 2), Err(ContractError::AlreadyOwned));
    assert_eq!(c.get_total_tokens(), 1);
    assert_eq!(c.get_tokens_by_owner(&reader_a()), vec![0]);
}

#[test]
fn purchase_refuses_when_token_counter_is_exhausted() {
    let (mut c, id) = contract_with_book(250, 500);
    c.store_instance(Some(platform()), Some(250), Some(1), Some(u64::MAX));
    assert_eq!(c.purchase(&reader_a(), id, 1), Err(ContractError::ArithmeticOverflow));
    assert!(!c.owns_book(&reader_a(), id));
}

#[test]
fn transfer_returns_royalty_split() {
    let (mut c, id) = contract_with_book(250, 500);
    let t = c.purchase(&reader_a(), id, 1).unwrap();
    let split = c.transfer_token(t, &reader_b(), 8_000_000).unwrap();
    assert_eq!(split, SaleSplit { royalty: 400_000, platform_fee: 200_000, seller: 7_400_000 });
    let token = c.get_token(t).unwrap();
    assert_eq!(token.owner, reader_b());
    assert_eq!(token.purchase_price, 8_000_000);
    assert_eq!(token.minted_at, 1);
}

#[test]
fn transfer_uses_default_fee_before_initialise() {
    let mut c = KnowdlyBookContract::new();
    let id = c.register_book(creator(), 100, 1000, b"tx".to_vec(), b"T".to_vec()).unwrap();
    let t = c.purchase(&reader_a(), id, 1).unwrap();
    let split = c.transfer_token(t, &reader_b(), 10_000).unwrap();
    assert_eq!(split, SaleSplit { royalty: 1_000, platform_fee: 250, seller: 8_750 });
}

#[test]
fn transfer_uses_configured_fee() {
    let (mut c, id) = contract_with_book(1000, 5000);
    let t = c.purchase(&reader_a(), id, 1).unwrap();
    let split = c.transfer_token(t, &reader_b(), 10_000).unwrap();
    assert_eq!(split, SaleSplit { royalty: 5_000, platform_fee: 1_000, seller: 4_000 });
}

#[test]
fn transfer_refuses_missing_token_and_low_price() {
    let (mut c, id) = contract_with_book(250, 500);
    assert_eq!(c.transfer_token(3, &reader_b(), 100), Err(ContractError::TokenNotFound));
    let t = c.purchase(&reader_a(), id, 1).unwrap();
    assert_eq!(c.transfer_token(t, &reader_b(), -1), Err(ContractError::SalePriceTooLow));
    assert_eq!(c.transfer_token(t, &reader_b(), i128::MAX), Err(ContractError::ArithmeticOverflow));
    // nothing moved
    assert!(c.owns_book(&reader_a(), id));
    assert!(!c.owns_book(&reader_b(), id));
    assert_eq!(c.get_tokens_by_owner(&reader_a()), vec![t]);
}

#[test]
fn transfer_refuses_token_of_missing_book() {
    let mut c = KnowdlyBookContract::new();
    c.store_token(Token { id: 0, book_id: 9, owner: reader_a(), minted_at: 0, purchase_price: 1 });
    assert_eq!(c.transfer_token(0, &reader_b(), 100), Err(ContractError::BookNotFound));
}

#[test]
fn transfer_at_zero_price_splits_nothing() {
    let (mut c, id) = contract_with_book(250, 500);
    let t = c.purchase(&reader_a(), id, 1).unwrap();
    let split = c.transfer_token(t, &reader_b(), 0).unwrap();
    assert_eq!(split, SaleSplit { royalty: 0, platform_fee: 0, seller: 0 });
}

#[test]
fn transfer_to_self_keeps_access_and_one_listing() {
    let (mut c, id) = contract_with_book(250, 500);
    let t = c.purchase(&reader_a(), id, 1).unwrap();
    c.transfer_token(t, &reader_a(), 100).unwrap();
    assert!(c.owns_book(&reader_a(), id));
    assert_eq!(c.get_tokens_by_owner(&reader_a()), vec![t]);
}

#[test]
fn transfer_moves_token_to_end_of_buyer_list() {
    let mut c = KnowdlyBookContract::new();
    let b0 = c.register_book(creator(), 10, 0, b"a".to_vec(), b"A".to_vec()).unwrap();
    let b1 = c.register_book(creator(), 10, 0, b"b".to_vec(), b"B".to_vec()).unwrap();
    let t0 = c.purchase(&reader_a(), b0, 1).unwrap();
    let t1 = c.purchase(&reader_b(), b1, 1).unwrap();
    let t2 = c.purchase(&reader_a(), b1, 1).unwrap();
    c.transfer_token(t0, &reader_b(), 10).unwrap();
    assert_eq!(c.get_tokens_by_owner(&reader_a()), vec![t2]);
    assert_eq!(c.get_tokens_by_owner(&reader_b()), vec![t1, t0]);
    assert!(!c.owns_book(&reader_a(), b0));
    assert!(c.owns_book(&reader_b(), b0));
}

#[test]
fn access_follows_the_token_after_two_resales() {
    // reader_b holds two copies of the same book; selling one keeps access
    // while the other is held, selling the second removes it.
    let (mut c, id) = contract_with_book(250, 500);
    let t0 = c.purchase(&reader_b(), id, 1).unwrap();
    let t1 = c.purchase(&reader_a(), id, 1).unwrap();
    c.transfer_token(t1, &reader_b(), 100).unwrap();
    assert!(!c.owns_book(&reader_a(), id));
    assert!(c.owns_book(&reader_b(), id));
    assert_eq!(c.get_tokens_by_owner(&reader_b()), vec![t0, t1]);
    let carol = wallet("GDCAROLAAAAAAAAAAAAAAAAAAAAAAAAAAAAAAAAAAAAAAAAAAAAAAAA");
    c.transfer_token(t0, &carol, 100).unwrap();
    assert!(c.owns_book(&reader_b(), id));
    assert!(c.owns_book(&carol, id));
    assert_eq!(c.get_tokens_by_owner(&reader_b()), vec![t1]);
    c.transfer_token(t1, &carol, 100).unwrap();
    assert!(!c.owns_book(&reader_b(), id));
    assert!(c.get_tokens_by_owner(&reader_b()).is_empty());
    assert_eq!(c.get_tokens_by_owner(&carol), vec![t0, t1]);
}

#[test]
fn royalty_rate_survives_every_operation() {
    let (mut c, id) = contract_with_book(250, 700);
    let t = c.purchase(&reader_a(), id, 1).unwrap();
    c.update_arweave_tx(&creator(), id, b"new".to_vec()).unwrap();
    c.transfer_token(t, &reader_b(), 1_000).unwrap();
    c.deactivate_book(&creator(), id).unwrap();
    let book = c.get_book(id).unwrap();
    assert_eq!(book.royalty_bps, 700);
    assert_eq!(book.price, 10_000_000);
    assert_eq!(book.publisher, creator());
    assert_eq!(book.arweave_tx_id, b"new".to_vec());
}

#[test]
fn second_initialise_is_refused() {
    let (mut c, id) = contract_with_book(250, 500);
    assert_eq!(c.initialise(other_creator(), 300), Err(ContractError::AlreadyInitialised));
    assert_eq!(c.platform(), Some(platform()));
    assert_eq!(c.platform_fee_bps(), Some(250));
    assert_eq!(c.get_total_books(), 1);
    let next = c.register_book(other_creator(), 5, 100, b"z".to_vec(), b"Z".to_vec()).unwrap();
    assert_eq!(next, 1);
    assert_eq!(c.get_book(id).unwrap().royalty_bps, 500);
    assert_eq!(c.get_book(id).unwrap().publisher, creator());
}

#[test]
fn late_initialise_keeps_counters() {
    let mut c = KnowdlyBookContract::new();
    c.register_book(creator(), 5, 100, b"a".to_vec(), b"A".to_vec()).unwrap();
    c.initialise(platform(), 250).unwrap();
    assert_eq!(c.get_total_books(), 1);
    assert_eq!(c.get_total_tokens(), 0);
    let next = c.register_book(creator(), 5, 100, b"b".to_vec(), b"B".to_vec()).unwrap();
    assert_eq!(next, 1);
    assert_eq!(c.get_book(0).unwrap().title, b"A".to_vec());
}

#[test]
fn admin_may_deactivate_any_book() {
    let (mut c, id) = contract_with_book(250, 500);
    assert_eq!(c.deactivate_book(&platform(), id), Ok(()));
    assert_eq!(c.get_book(id).unwrap().active, false);
    // the admin may not change the content of a book
    assert_eq!(
        c.update_arweave_tx(&platform(), id, b"x".to_vec()),
        Err(ContractError::NotCreator)
    );
}

#[test]
fn non_utf8_text_is_kept() {
    let mut c = KnowdlyBookContract::new();
    let id = c.register_book(creator(), 5, 100, vec![0xff, 0x00, 0xfe], vec![0xc3]).unwrap();
    let book = c.get_book(id).unwrap();
    assert_eq!(book.arweave_tx_id, vec![0xff, 0x00, 0xfe]);
    assert_eq!(book.title, vec![0xc3]);
}

#[test]
fn split_rounds_toward_zero() {
    assert_eq!(
        sale_split(9_999, 500, 250),
        Ok(SaleSplit { royalty: 499, platform_fee: 249, seller: 9_251 })
    );
    // a negative product is rounded toward zero, not down
    assert_eq!(
        sale_split(-10_001, 15_000, 0),
        Ok(SaleSplit { royalty: -15_001, platform_fee: 0, seller: 5_000 })
    );
    assert_eq!(sale_split(-9_999, 500, 250), Err(ContractError::SalePriceTooLow));
}

#[test]
fn split_detects_overflow() {
    assert_eq!(sale_split(i128::MAX / 2, 5000, 0), Err(ContractError::ArithmeticOverflow));
    assert_eq!(sale_split(i128::MIN, 2, 0), Err(ContractError::ArithmeticOverflow));
    assert_eq!(sale_split(i128::MIN, 1, 0), Err(ContractError::SalePriceTooLow));
    let edge = i128::MAX / 5000;
    assert!(sale_split(edge, 5000, 1000).is_ok());
}

#[test]
fn stored_entries_read_back() {
    let mut c = KnowdlyBookContract::new();
    c.store_book(Book {
        id: 4,
        publisher: creator(),
        price: 9,
        royalty_bps: 10,
        arweave_tx_id: b"tx".to_vec(),
        title: b"T".to_vec(),
        active: true,
        total_sales: 3,
    });
    c.store_holding(&reader_a(), 4, true);
    c.store_list(&reader_a(), vec![2, 5]);
    c.store_instance(Some(platform()), Some(100), Some(5), Some(6));
    assert_eq!(c.get_book(4).unwrap().total_sales, 3);
    assert!(c.owns_book(&reader_a(), 4));
    assert_eq!(c.get_tokens_by_owner(&reader_a()), vec![2, 5]);
    assert_eq!(c.get_total_books(), 5);
    assert_eq!(c.get_total_tokens(), 6);
    c.store_holding(&reader_a(), 4, false);
    assert!(!c.owns_book(&reader_a(), 4));
}

#[test]
fn address_equality_is_by_strkey() {
    let a = wallet("GABC");
    assert_eq!(a, a.duplicate());
    assert_ne!(a, wallet("GABD"));
    assert_eq!(a.strkey(), &"GABC".to_string());
}

#[test]
fn split_shares_add_up_to_the_price() {
    for &(price, royalty, fee) in &[
        (8_000_000i128, 500u32, 250u32),
        (1, 5000, 1000),
        (123_456_789, 333, 17),
        (10_000, 0, 0),
        (99, 4999, 999),
    ] {
        let split = sale_split(price, royalty, fee).unwrap();
        assert_eq!(split.royalty + split.platform_fee + split.seller, price);
        assert!(split.royalty >= 0 && split.platform_fee >= 0 && split.seller >= 0);
        assert_eq!(split.royalty, price * royalty as i128 / 10_000);
        assert_eq!(split.platform_fee, price * fee as i128 / 10_000);
    }
}

#[test]
fn registration_counts_up() {
    let mut c = KnowdlyBookContract::new();
    c.initialise(platform(), 250).unwrap();
    for expected in 0..4u64 {
        let id = c
            .register_book(creator(), 10 + expected as i128, 100, b"tx".to_vec(), b"T".to_vec())
            .unwrap();
        assert_eq!(id, expected);
        assert_eq!(c.get_total_books(), expected + 1);
        let book = c.get_book(id).unwrap();
        assert_eq!(book.price, 10 + expected as i128);
        assert!(book.active);
        assert_eq!(book.total_sales, 0);
    }
}

#[test]
fn primary_split_gives_platform_its_fee() {
    assert_eq!(
        primary_split(10_000_000, 250),
        Ok(PrimarySplit { creator: 9_750_000, platform_fee: 250_000 })
    );
    assert_eq!(primary_split(999, 250), Ok(PrimarySplit { creator: 975, platform_fee: 24 }));
    assert_eq!(primary_split(i128::MAX, 1000), Err(ContractError::ArithmeticOverflow));
}

#[test]
fn purchase_payment_uses_book_price_and_fee() {
    let (c, id) = contract_with_book(1000, 500);
    assert_eq!(
        c.purchase_payment(id),
        Ok(PrimarySplit { creator: 9_000_000, platform_fee: 1_000_000 })
    );
    assert_eq!(c.purchase_payment(id + 1), Err(ContractError::BookNotFound));
    let mut fresh = KnowdlyBookContract::new();
    let b = fresh.register_book(creator(), 400, 0, b"t".to_vec(), b"T".to_vec()).unwrap();
    assert_eq!(fresh.purchase_payment(b), Ok(PrimarySplit { creator: 390, platform_fee: 10 }));
}

#[test]
fn resale_needs_the_current_owner() {
    let (mut c, id) = contract_with_book(250, 500);
    assert_eq!(c.resale_authoriser(0).unwrap_err(), ContractError::TokenNotFound);
    let t = c.purchase(&reader_a(), id, 1).unwrap();
    assert_eq!(c.resale_authoriser(t).unwrap(), reader_a());
    c.transfer_token(t, &reader_b(), 10).unwrap();
    assert_eq!(c.resale_authoriser(t).unwrap(), reader_b());
}

#[test]
fn token_list_follows_latest_acquisition() {
    let mut c = KnowdlyBookContract::new();
    let b0 = c.register_book(creator(), 10, 0, b"a".to_vec(), b"A".to_vec()).unwrap();
    let b1 = c.register_book(creator(), 10, 0, b"b".to_vec(), b"B".to_vec()).unwrap();
    let b2 = c.register_book(creator(), 10, 0, b"c".to_vec(), b"C".to_vec()).unwrap();
    let t0 = c.purchase(&reader_a(), b0, 1).unwrap();
    let t1 = c.purchase(&reader_a(), b1, 1).unwrap();
    let t2 = c.purchase(&reader_a(), b2, 1).unwrap();
    // t0 leaves and comes back: it is now the latest acquisition
    c.transfer_token(t0, &reader_b(), 10).unwrap();
    c.transfer_token(t0, &reader_a(), 10).unwrap();
    assert_eq!(c.get_tokens_by_owner(&reader_a()), vec![t1, t2, t0]);
    // a resale to oneself also counts as an acquisition
    c.transfer_token(t1, &reader_a(), 10).unwrap();
    assert_eq!(c.get_tokens_by_owner(&reader_a()), vec![t2, t0, t1]);
}
