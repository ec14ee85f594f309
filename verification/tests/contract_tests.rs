use knowdly_contract::contract::KnowdlyBookContract;
use knowdly_contract::types::Address;

fn wallet(strkey: &str) -> Address {
    Address::new(strkey.to_string())
}

fn platform() -> Address {
    wallet("GBPLATFORMTREASURYAAAAAAAAAAAAAAAAAAAAAAAAAAAAAAAAAAAAA")
}

fn creator() -> Address {
    wallet("GCCREATORAAAAAAAAAAAAAAAAAAAAAAAAAAAAAAAAAAAAAAAAAAAAAA")
}

fn reader_a() -> Address {
    wallet("GDREADERAAAAAAAAAAAAAAAAAAAAAAAAAAAAAAAAAAAAAAAAAAAAAAA")
}

fn reader_b() -> Address {
    wallet("GDREADERBBBBBBBBBBBBBBBBBBBBBBBBBBBBBBBBBBBBBBBBBBBBBBB")
}

#[test]
fn test_register_book() {
    let mut client = KnowdlyBookContract::new();
    client.initialise(platform(), 250u32).unwrap();

    let book_id = client
        .register_book(
            creator(),
            10_000_000i128,
            500u32,
            b"pending_test".to_vec(),
            b"Introduction to Blockchain".to_vec(),
        )
        .unwrap();

    assert_eq!(book_id, 0);
    let book = client.get_book(book_id).unwrap();
    assert_eq!(book.id, 0);
    assert_eq!(book.price, 10_000_000);
    assert_eq!(book.royalty_bps, 500);
    assert_eq!(book.active, true);
    assert_eq!(book.total_sales, 0);
}

#[test]
fn test_update_arweave_tx() {
    let mut client = KnowdlyBookContract::new();
    client.initialise(platform(), 250u32).unwrap();

    let book_id = client
        .register_book(
            creator(),
            10_000_000i128,
            500u32,
            b"pending_1234567890".to_vec(),
            b"Test Book".to_vec(),
        )
        .unwrap();

    // verify placeholder was stored
    let book = client.get_book(book_id).unwrap();
    assert_eq!(book.arweave_tx_id, b"pending_1234567890".to_vec());

    // update with real arweave tx id
    client
        .update_arweave_tx(&creator(), book_id, b"real-arweave-tx-id-abc123".to_vec())
        .unwrap();

    // verify real tx id is now stored
    let updated = client.get_book(book_id).unwrap();
    assert_eq!(updated.arweave_tx_id, b"real-arweave-tx-id-abc123".to_vec());
}

#[test]
fn test_purchase_and_ownership() {
    let mut client = KnowdlyBookContract::new();
    let reader = reader_a();
    client.initialise(platform(), 250u32).unwrap();

    let book_id = client
        .register_book(
            creator(),
            10_000_000i128,
            500u32,
            b"arweave-tx-id-456".to_vec(),
            b"Calculus for Engineers".to_vec(),
        )
        .unwrap();

    assert_eq!(client.owns_book(&reader, book_id), false);

    let token_id = client.purchase(&reader, book_id, 1).unwrap();

    assert_eq!(client.owns_book(&reader, book_id), true);

    let token = client.get_token(token_id).unwrap();
    assert_eq!(token.book_id, book_id);
    assert_eq!(token.owner, reader);
}

#[test]
fn test_transfer_enforces_royalty() {
    let mut client = KnowdlyBookContract::new();
    let (a, b) = (reader_a(), reader_b());
    client.initialise(platform(), 250u32).unwrap();

    let book_id = client
        .register_book(
            creator(),
            10_000_000i128,
            500u32,
            b"arweave-tx-id-789".to_vec(),
            b"Organic Chemistry".to_vec(),
        )
        .unwrap();
    let token_id = client.purchase(&a, book_id, 1).unwrap();

    client.transfer_token(token_id, &b, 8_000_000i128).unwrap();

    assert_eq!(client.owns_book(&a, book_id), false);
    assert_eq!(client.owns_book(&b, book_id), true);
}

#[test]
fn test_get_tokens_by_owner() {
    let mut client = KnowdlyBookContract::new();
    let reader = reader_a();
    client.initialise(platform(), 250u32).unwrap();

    let book_id_a = client
        .register_book(
            creator(),
            10_000_000i128,
            500u32,
            b"arweave-tx-a".to_vec(),
            b"Book A".to_vec(),
        )
        .unwrap();
    let book_id_b = client
        .register_book(
            creator(),
            20_000_000i128,
            500u32,
            b"arweave-tx-b".to_vec(),
            b"Book B".to_vec(),
        )
        .unwrap();

    let tokens_before = client.get_tokens_by_owner(&reader);
    assert_eq!(tokens_before.len(), 0);

    let token_a = client.purchase(&reader, book_id_a, 1).unwrap();
    let token_b = client.purchase(&reader, book_id_b, 1).unwrap();

    let tokens_after = client.get_tokens_by_owner(&reader);
    assert_eq!(tokens_after.len(), 2);
    assert_eq!(*tokens_after.get(0).unwrap(), token_a);
    assert_eq!(*tokens_after.get(1).unwrap(), token_b);
}

#[test]
fn test_tokens_update_on_transfer() {
    let mut client = KnowdlyBookContract::new();
    let (a, b) = (reader_a(), reader_b());
    client.initialise(platform(), 250u32).unwrap();

    let book_id = client
        .register_book(
            creator(),
            10_000_000i128,
            500u32,
            b"arweave-tx-transfer".to_vec(),
            b"Transfer Test Book".to_vec(),
        )
        .unwrap();
    let token_id = client.purchase(&a, book_id, 1).unwrap();

    assert_eq!(client.get_tokens_by_owner(&a).len(), 1);
    assert_eq!(client.get_tokens_by_owner(&b).len(), 0);

    client.transfer_token(token_id, &b, 8_000_000i128).unwrap();

    assert_eq!(client.get_tokens_by_owner(&a).len(), 0);
    assert_eq!(client.get_tokens_by_owner(&b).len(), 1);
    assert_eq!(*client.get_tokens_by_owner(&b).get(0).unwrap(), token_id);
}
