//! Each invocation reads and writes only a few storage entries: on two
//! storages that agree on the entries an invocation reads, it has the same
//! outcome and writes the same values. The contract's host side relies on
//! this when it loads just those entries before an invocation.
use vstd::prelude::*;
use crate::model::LedgerView;

verus! {

/// `v` and `u` store the same book (or none) under `book_id`.
pub open spec fn same_book(v: LedgerView, u: LedgerView, book_id: u64) -> bool {
    &&& v.books.contains_key(book_id) == u.books.contains_key(book_id)
    &&& v.books.contains_key(book_id) ==> v.books[book_id] == u.books[book_id]
}

/// `v` and `u` store the same token (or none) under `token_id`.
pub open spec fn same_token(v: LedgerView, u: LedgerView, token_id: u64) -> bool {
    &&& v.tokens.contains_key(token_id) == u.tokens.contains_key(token_id)
    &&& v.tokens.contains_key(token_id) ==> v.tokens[token_id] == u.tokens[token_id]
}

/// Initialisation reads whether a platform wallet is set and the two
/// counters, and writes the platform wallet, the fee and the counters.
pub proof fn initialise_is_local(v: LedgerView, u: LedgerView, platform: Seq<char>, fee_bps: u32)
    requires
        v.platform is Some == u.platform is Some,
        v.total_books() == u.total_books(),
        v.total_tokens() == u.total_tokens(),
    ensures
        match (v.initialise(platform, fee_bps), u.initialise(platform, fee_bps)) {
            (Ok(vw), Ok(uw)) => vw.platform == uw.platform && vw.platform_fee_bps
                == uw.platform_fee_bps && vw.total_books() == uw.total_books()
                && vw.total_tokens() == uw.total_tokens(),
            (Err(e1), Err(e2)) => e1 == e2,
            _ => false,
        },
{
}

/// Registration reads the book counter, and writes the new book and the
/// counter.
pub proof fn register_book_is_local(
    v: LedgerView,
    u: LedgerView,
    publisher: Seq<char>,
    price: i128,
    royalty_bps: u32,
    arweave_tx_id: Seq<u8>,
    title: Seq<u8>,
)
    requires
        v.total_books() == u.total_books(),
    ensures
        match (
            v.register_book(publisher, price, royalty_bps, arweave_tx_id, title),
            u.register_book(publisher, price, royalty_bps, arweave_tx_id, title),
        ) {
            (Ok((vw, vi)), Ok((uw, ui))) => vi == ui && same_book(vw, uw, vi) && vw.total_books()
                == uw.total_books(),
            (Err(e1), Err(e2)) => e1 == e2,
            _ => false,
        },
{
}

/// Updating the Arweave transaction reads and writes the one book.
pub proof fn update_arweave_tx_is_local(
    v: LedgerView,
    u: LedgerView,
    publisher: Seq<char>,
    book_id: u64,
    arweave_tx_id: Seq<u8>,
)
    requires
        same_book(v, u, book_id),
    ensures
        match (
            v.update_arweave_tx(publisher, book_id, arweave_tx_id),
            u.update_arweave_tx(publisher, book_id, arweave_tx_id),
        ) {
            (Ok(vw), Ok(uw)) => same_book(vw, uw, book_id),
            (Err(e1), Err(e2)) => e1 == e2,
            _ => false,
        },
{
}

/// Deactivation reads the book and the platform wallet, and writes the
/// book.
pub proof fn deactivate_book_is_local(v: LedgerView, u: LedgerView, caller: Seq<char>, book_id: u64)
    requires
        same_book(v, u, book_id),
        v.platform == u.platform,
    ensures
        match (v.deactivate_book(caller, book_id), u.deactivate_book(caller, book_id)) {
            (Ok(vw), Ok(uw)) => same_book(vw, uw, book_id),
            (Err(e1), Err(e2)) => e1 == e2,
            _ => false,
        },
{
}

/// A purchase reads the book, the buyer's ownership record and token list,
/// and the token counter; it writes the new token, those same entries and
/// the counter.
pub proof fn purchase_is_local(
    v: LedgerView,
    u: LedgerView,
    buyer: Seq<char>,
    book_id: u64,
    ledger_sequence: u32,
)
    requires
        same_book(v, u, book_id),
        v.owns_book(buyer, book_id) == u.owns_book(buyer, book_id),
        v.tokens_of(buyer) == u.tokens_of(buyer),
        v.total_tokens() == u.total_tokens(),
    ensures
        match (
            v.purchase(buyer, book_id, ledger_sequence),
            u.purchase(buyer, book_id, ledger_sequence),
        ) {
            (Ok((vw, vi)), Ok((uw, ui))) => {
                &&& vi == ui
                &&& same_token(vw, uw, vi)
                &&& same_book(vw, uw, book_id)
                &&& vw.owns_book(buyer, book_id) == uw.owns_book(buyer, book_id)
                &&& vw.tokens_of(buyer) == uw.tokens_of(buyer)
                &&& vw.total_tokens() == uw.total_tokens()
            },
            (Err(e1), Err(e2)) => e1 == e2,
            _ => false,
        },
{
}

/// A resale reads the token, its book, the fee, whether the seller holds
/// another copy, and the seller's and buyer's token lists; it writes the
/// token, both wallets' ownership records for the book and both lists.
pub proof fn transfer_token_is_local(
    v: LedgerView,
    u: LedgerView,
    token_id: u64,
    new_owner: Seq<char>,
    sale_price: i128,
)
    requires
        same_token(v, u, token_id),
        v.tokens.contains_key(token_id) ==> {
            let seller = v.tokens[token_id].owner;
            let book_id = v.tokens[token_id].book_id;
            &&& same_book(v, u, book_id)
            &&& v.holds_other_copy(seller, book_id, token_id) == u.holds_other_copy(
                seller,
                book_id,
                token_id,
            )
            &&& v.tokens_of(seller) == u.tokens_of(seller)
            &&& v.tokens_of(new_owner) == u.tokens_of(new_owner)
        },
        v.fee_bps() == u.fee_bps(),
    ensures
        match (
            v.transfer_token(token_id, new_owner, sale_price),
            u.transfer_token(token_id, new_owner, sale_price),
        ) {
            (Ok((vw, vs)), Ok((uw, us))) => {
                let seller = v.tokens[token_id].owner;
                let book_id = v.tokens[token_id].book_id;
                &&& vs == us
                &&& same_token(vw, uw, token_id)
                &&& vw.owns_book(seller, book_id) == uw.owns_book(seller, book_id)
                &&& vw.owns_book(new_owner, book_id) == uw.owns_book(new_owner, book_id)
                &&& vw.tokens_of(seller) == uw.tokens_of(seller)
                &&& vw.tokens_of(new_owner) == uw.tokens_of(new_owner)
            },
            (Err(e1), Err(e2)) => e1 == e2,
            _ => false,
        },
{
}

/// Whether a seller holds another copy of a book is decided by the tokens
/// on the seller's list: in a consistent storage `v`, a storage `u` whose
/// tokens are tokens of `v` and that holds every token listed for the
/// seller gives the same answer.
pub proof fn listed_tokens_decide_other_copies(
    v: LedgerView,
    u: LedgerView,
    seller: Seq<char>,
    book_id: u64,
    except: u64,
)
    requires
        v.consistent(),
        forall|t: u64| #[trigger] u.tokens.contains_key(t) ==> same_token(v, u, t),
        forall|t: u64| #[trigger] v.tokens_of(seller).contains(t) ==> u.tokens.contains_key(t),
    ensures
        v.holds_other_copy(seller, book_id, except) == u.holds_other_copy(seller, book_id, except),
{
    if v.holds_other_copy(seller, book_id, except) {
        let t = choose|t: u64|
            #![trigger v.tokens[t]]
            v.tokens.contains_key(t) && t != except && v.tokens[t].owner == seller
                && v.tokens[t].book_id == book_id;
        assert(v.tokens_of(seller).contains(t));
        assert(u.tokens.contains_key(t));
        assert(same_token(v, u, t));
        assert(u.tokens[t] == v.tokens[t]);
    }
    if u.holds_other_copy(seller, book_id, except) {
        let t = choose|t: u64|
            #![trigger u.tokens[t]]
            u.tokens.contains_key(t) && t != except && u.tokens[t].owner == seller
                && u.tokens[t].book_id == book_id;
        assert(same_token(v, u, t));
        assert(v.tokens[t] == u.tokens[t]);
    }
}

} // verus!
