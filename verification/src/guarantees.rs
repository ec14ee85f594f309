//! What each entry point guarantees, stated from its inputs and results:
//! exactly when it succeeds, which error each refusal gives, and that on
//! success it changes only the entries it is about.
use vstd::prelude::*;
use crate::consistency::{lemma_sales_sum_covers, lemma_without};
use crate::laws::resale_split_is_complete;
use crate::model::{without, LedgerView};
use crate::types::{BookView, ContractError, SaleSplit};

verus! {

/// `w` stores the same books as `v`, except possibly under `book_id`.
pub open spec fn other_books_kept(v: LedgerView, w: LedgerView, book_id: u64) -> bool {
    forall|b: u64|
        b != book_id ==> (#[trigger] w.books.contains_key(b) == v.books.contains_key(b) && (
        v.books.contains_key(b) ==> w.books[b] == v.books[b]))
}

/// `w` stores the same tokens as `v`, except possibly under `token_id`.
pub open spec fn other_tokens_kept(v: LedgerView, w: LedgerView, token_id: u64) -> bool {
    forall|t: u64|
        t != token_id ==> (#[trigger] w.tokens.contains_key(t) == v.tokens.contains_key(t) && (
        v.tokens.contains_key(t) ==> w.tokens[t] == v.tokens[t]))
}

/// The platform fee applied to resales and purchases is the configured one,
/// or 2.5% on a contract that was never initialised.
pub proof fn platform_fee_in_force(v: LedgerView)
    ensures
        v.platform_fee_bps is None ==> v.fee_bps() == 250,
        v.platform_fee_bps matches Some(f) ==> v.fee_bps() == f,
{
}

/// Initialisation succeeds exactly on a contract without a platform wallet
/// and with a fee of at most 10%; it then sets wallet and fee and changes
/// nothing else. A second call is refused as such, a first one with a fee
/// above 10% for its fee.
pub proof fn initialise_guarantees(v: LedgerView, platform: Seq<char>, fee_bps: u32)
    ensures
        v.initialise(platform, fee_bps) is Ok <==> (v.platform is None && fee_bps
            <= 1000),
        v.platform is Some ==> v.initialise(platform, fee_bps) == Err::<LedgerView, ContractError>(
            ContractError::AlreadyInitialised,
        ),
        v.platform is None && fee_bps > 1000 ==> v.initialise(platform, fee_bps)
            == Err::<LedgerView, ContractError>(ContractError::PlatformFeeTooHigh),
        v.initialise(platform, fee_bps) matches Ok(w) ==> {
            &&& w.platform == Some(platform)
            &&& w.platform_fee_bps == Some(fee_bps)
            &&& w.total_books() == v.total_books()
            &&& w.total_tokens() == v.total_tokens()
            &&& w.books == v.books
            &&& w.tokens == v.tokens
            &&& w.holdings == v.holdings
            &&& w.token_lists == v.token_lists
        },
{
}

/// Registration succeeds on every positive price and royalty of at most 50%
/// while the book counter can still grow, whatever the title and
/// transaction text; a non-positive price is refused before a royalty that
/// is too high. On success the new book is stored under the old book count
/// with exactly the given fields, active and unsold, the count grows by
/// one, and nothing else changes.
pub proof fn register_book_guarantees(
    v: LedgerView,
    publisher: Seq<char>,
    price: i128,
    royalty_bps: u32,
    arweave_tx_id: Seq<u8>,
    title: Seq<u8>,
)
    ensures
        v.register_book(publisher, price, royalty_bps, arweave_tx_id, title) is Ok <==> (price > 0
            && royalty_bps <= 5000 && v.total_books() < u64::MAX),
        price <= 0 ==> v.register_book(publisher, price, royalty_bps, arweave_tx_id, title)
            == Err::<(LedgerView, u64), ContractError>(ContractError::PriceNotPositive),
        price > 0 && royalty_bps > 5000 ==> v.register_book(
            publisher,
            price,
            royalty_bps,
            arweave_tx_id,
            title,
        ) == Err::<(LedgerView, u64), ContractError>(ContractError::RoyaltyTooHigh),
        v.register_book(publisher, price, royalty_bps, arweave_tx_id, title) matches Ok((w, id))
            ==> {
            &&& id == v.total_books()
            &&& w.total_books() == v.total_books() + 1
            &&& w.books.contains_key(id)
            &&& w.books[id] == BookView {
                id,
                publisher,
                price,
                royalty_bps,
                arweave_tx_id,
                title,
                active: true,
                total_sales: 0,
            }
            &&& other_books_kept(v, w, id)
            &&& w.tokens == v.tokens
            &&& w.holdings == v.holdings
            &&& w.token_lists == v.token_lists
            &&& w.total_tokens() == v.total_tokens()
            &&& w.platform == v.platform
            &&& w.platform_fee_bps == v.platform_fee_bps
        },
{
}

/// Updating the Arweave transaction succeeds exactly when the book exists
/// and the caller is its creator. It then replaces the transaction of that
/// book and nothing else: the book keeps its creator, price, royalty,
/// title, active flag and sales count, and all other storage is unchanged.
pub proof fn update_arweave_tx_guarantees(
    v: LedgerView,
    caller: Seq<char>,
    book_id: u64,
    arweave_tx_id: Seq<u8>,
)
    ensures
        v.update_arweave_tx(caller, book_id, arweave_tx_id) is Ok <==> (v.books.contains_key(
            book_id,
        ) && v.books[book_id].publisher == caller),
        !v.books.contains_key(book_id) ==> v.update_arweave_tx(caller, book_id, arweave_tx_id)
            == Err::<LedgerView, ContractError>(ContractError::BookNotFound),
        v.books.contains_key(book_id) && v.books[book_id].publisher != caller ==> v.update_arweave_tx(
            caller,
            book_id,
            arweave_tx_id,
        ) == Err::<LedgerView, ContractError>(ContractError::NotCreator),
        v.update_arweave_tx(caller, book_id, arweave_tx_id) matches Ok(w) ==> {
            let old = v.books[book_id];
            let new = w.books[book_id];
            &&& w.books.contains_key(book_id)
            &&& new.arweave_tx_id == arweave_tx_id
            &&& new.id == old.id
            &&& new.publisher == old.publisher
            &&& new.price == old.price
            &&& new.royalty_bps == old.royalty_bps
            &&& new.title == old.title
            &&& new.active == old.active
            &&& new.total_sales == old.total_sales
            &&& other_books_kept(v, w, book_id)
            &&& w.tokens == v.tokens
            &&& w.holdings == v.holdings
            &&& w.token_lists == v.token_lists
            &&& w.total_books() == v.total_books()
            &&& w.total_tokens() == v.total_tokens()
            &&& w.platform == v.platform
            &&& w.platform_fee_bps == v.platform_fee_bps
        },
{
}

/// Deactivation succeeds exactly when the book exists and the caller is
/// its creator or the platform admin; any other caller is refused as not
/// the creator. On success the book stops accepting purchases and nothing
/// else changes.
pub proof fn deactivate_book_guarantees(v: LedgerView, caller: Seq<char>, book_id: u64)
    ensures
        v.deactivate_book(caller, book_id) is Ok <==> (v.books.contains_key(book_id) && (
        v.books[book_id].publisher == caller || v.platform == Some(caller))),
        !v.books.contains_key(book_id) ==> v.deactivate_book(caller, book_id) == Err::<
            LedgerView,
            ContractError,
        >(ContractError::BookNotFound),
        v.books.contains_key(book_id) && v.books[book_id].publisher != caller && v.platform != Some(
            caller,
        ) ==> v.deactivate_book(caller, book_id) == Err::<LedgerView, ContractError>(
            ContractError::NotCreator,
        ),
        v.deactivate_book(caller, book_id) matches Ok(w) ==> {
            let old = v.books[book_id];
            let new = w.books[book_id];
            &&& w.books.contains_key(book_id)
            &&& !new.active
            &&& new.id == old.id
            &&& new.publisher == old.publisher
            &&& new.price == old.price
            &&& new.royalty_bps == old.royalty_bps
            &&& new.title == old.title
            &&& new.arweave_tx_id == old.arweave_tx_id
            &&& new.total_sales == old.total_sales
            &&& other_books_kept(v, w, book_id)
            &&& w.tokens == v.tokens
            &&& w.holdings == v.holdings
            &&& w.token_lists == v.token_lists
            &&& w.total_books() == v.total_books()
            &&& w.total_tokens() == v.total_tokens()
            &&& w.platform == v.platform
            &&& w.platform_fee_bps == v.platform_fee_bps
        },
{
}

/// A purchase is refused exactly for a missing book, an inactive book, a
/// buyer who already owns it, or a counter at its limit. In a consistent
/// contract a book's sales never exceed the token count, so every purchase
/// of an existing active book by a wallet that does not own it succeeds
/// while the token counter can still grow, however many copies were sold.
/// On success the buyer gets a new token of the book at its price,
/// numbered by the old token count, its ownership record grants access, the
/// token is appended to the buyer's list, the book counts one more sale,
/// and nothing else changes.
pub proof fn purchase_guarantees(v: LedgerView, buyer: Seq<char>, book_id: u64, ledger_sequence: u32)
    ensures
        v.purchase(buyer, book_id, ledger_sequence) is Ok <==> (v.books.contains_key(book_id)
            && v.books[book_id].active && !v.owns_book(buyer, book_id) && v.total_tokens()
            < u64::MAX && v.books[book_id].total_sales < u64::MAX),
        v.consistent() && v.books.contains_key(book_id) && v.books[book_id].active
            && !v.owns_book(buyer, book_id) && v.total_tokens() < u64::MAX ==> v.purchase(
            buyer,
            book_id,
            ledger_sequence,
        ) is Ok,
        !v.books.contains_key(book_id) ==> v.purchase(buyer, book_id, ledger_sequence) == Err::<
            (LedgerView, u64),
            ContractError,
        >(ContractError::BookNotFound),
        v.books.contains_key(book_id) && !v.books[book_id].active ==> v.purchase(
            buyer,
            book_id,
            ledger_sequence,
        ) == Err::<(LedgerView, u64), ContractError>(ContractError::BookInactive),
        v.books.contains_key(book_id) && v.books[book_id].active && v.owns_book(buyer, book_id)
            ==> v.purchase(buyer, book_id, ledger_sequence) == Err::<(LedgerView, u64), ContractError>(
            ContractError::AlreadyOwned,
        ),
        v.purchase(buyer, book_id, ledger_sequence) matches Ok((w, id)) ==> {
            let old = v.books[book_id];
            let new = w.books[book_id];
            &&& id == v.total_tokens()
            &&& w.total_tokens() == v.total_tokens() + 1
            &&& w.tokens.contains_key(id)
            &&& w.tokens[id].id == id
            &&& w.tokens[id].book_id == book_id
            &&& w.tokens[id].owner == buyer
            &&& w.tokens[id].minted_at == ledger_sequence
            &&& w.tokens[id].purchase_price == old.price
            &&& w.owns_book(buyer, book_id)
            &&& w.tokens_of(buyer) == v.tokens_of(buyer).push(id)
            &&& new.total_sales == old.total_sales + 1
            &&& new.id == old.id && new.publisher == old.publisher && new.price == old.price
            &&& new.royalty_bps == old.royalty_bps && new.title == old.title
            &&& new.arweave_tx_id == old.arweave_tx_id && new.active == old.active
            &&& other_books_kept(v, w, book_id)
            &&& other_tokens_kept(v, w, id)
            &&& forall|a: Seq<char>, b: u64|
                (a, b) != (buyer, book_id) ==> #[trigger] w.owns_book(a, b) == v.owns_book(a, b)
            &&& forall|a: Seq<char>| a != buyer ==> #[trigger] w.tokens_of(a) == v.tokens_of(a)
            &&& w.total_books() == v.total_books()
            &&& w.platform == v.platform
            &&& w.platform_fee_bps == v.platform_fee_bps
        },
{
    if v.consistent() && v.books.contains_key(book_id) {
        lemma_sales_sum_covers(v.books, v.total_books() as nat, book_id);
    }
}

/// In a consistent contract, a resale of an existing token succeeds at
/// every non-negative price whose royalty product fits in `i128`, whether
/// or not the book still accepts purchases, and is refused at every
/// negative price. On success the buyer owns the token at the sale price,
/// gets access and the token at the end of its list; the token leaves every
/// other list; the seller keeps access only while holding another copy; and
/// books, counters, other tokens and other wallets' records are unchanged.
pub proof fn transfer_token_guarantees(
    v: LedgerView,
    token_id: u64,
    new_owner: Seq<char>,
    sale_price: i128,
)
    ensures
        !v.tokens.contains_key(token_id) ==> v.transfer_token(token_id, new_owner, sale_price)
            == Err::<(LedgerView, SaleSplit), ContractError>(
            ContractError::TokenNotFound,
        ),
        v.consistent() && v.tokens.contains_key(token_id) && 0 <= sale_price && sale_price * 5000
            <= i128::MAX ==> v.transfer_token(token_id, new_owner, sale_price) is Ok,
        v.consistent() && sale_price < 0 ==> v.transfer_token(token_id, new_owner, sale_price) is Err,
        v.transfer_token(token_id, new_owner, sale_price) matches Ok((w, split)) ==> {
            let old = v.tokens[token_id];
            let seller = old.owner;
            let book_id = old.book_id;
            &&& v.consistent() ==> split.royalty + split.platform_fee + split.seller == sale_price
            &&& w.tokens.contains_key(token_id)
            &&& w.tokens[token_id].owner == new_owner
            &&& w.tokens[token_id].purchase_price == sale_price
            &&& w.tokens[token_id].id == old.id
            &&& w.tokens[token_id].book_id == book_id
            &&& w.tokens[token_id].minted_at == old.minted_at
            &&& w.owns_book(new_owner, book_id)
            &&& w.tokens_of(new_owner) == (if seller == new_owner {
                without(v.tokens_of(seller), token_id)
            } else {
                v.tokens_of(new_owner)
            }).push(token_id)
            &&& seller != new_owner ==> w.tokens_of(seller) == without(v.tokens_of(seller), token_id)
            &&& seller != new_owner ==> !w.tokens_of(seller).contains(token_id) && forall|x: u64|
                x != token_id ==> (#[trigger] w.tokens_of(seller).contains(x) == v.tokens_of(
                    seller,
                ).contains(x))
            &&& forall|a: Seq<char>|
                a != seller && a != new_owner ==> #[trigger] w.tokens_of(a) == v.tokens_of(a)
            &&& seller != new_owner ==> (w.owns_book(seller, book_id) == v.holds_other_copy(
                seller,
                book_id,
                token_id,
            ))
            &&& forall|a: Seq<char>, b: u64|
                (a, b) != (seller, book_id) && (a, b) != (new_owner, book_id) ==> #[trigger] w.owns_book(
                    a,
                    b,
                ) == v.owns_book(a, b)
            &&& w.books == v.books
            &&& other_tokens_kept(v, w, token_id)
            &&& w.total_books() == v.total_books()
            &&& w.total_tokens() == v.total_tokens()
            &&& w.platform == v.platform
            &&& w.platform_fee_bps == v.platform_fee_bps
        },
{
    if v.tokens.contains_key(token_id) {
        let book_id = v.tokens[token_id].book_id;
        lemma_without(v.tokens_of(v.tokens[token_id].owner), token_id);
        if v.consistent() {
            assert(v.books.contains_key(book_id));
            assert(v.fee_bps() <= 1000);
            resale_split_is_complete(sale_price, v.books[book_id].royalty_bps, v.fee_bps());
        }
    }
}

/// Deactivating a book does not change what a resale does: after it,
/// every resale succeeds or is refused exactly as before, with the same
/// split.
pub proof fn deactivation_keeps_resales(
    v: LedgerView,
    caller: Seq<char>,
    book_id: u64,
    token_id: u64,
    new_owner: Seq<char>,
    sale_price: i128,
)
    requires
        v.deactivate_book(caller, book_id) is Ok,
    ensures
        ({
            let w = v.deactivate_book(caller, book_id)->Ok_0;
            match (
                v.transfer_token(token_id, new_owner, sale_price),
                w.transfer_token(token_id, new_owner, sale_price),
            ) {
                (Ok((_, s1)), Ok((_, s2))) => s1 == s2,
                (Err(e1), Err(e2)) => e1 == e2,
                _ => false,
            }
        }),
{
}

} // verus!
