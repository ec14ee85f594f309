//! What holds of the contract across invocations: access control, the
//! per-wallet token lists and their order, immutable royalties, complete
//! payment splits, and counters that count what happened.
use vstd::prelude::*;
use crate::consistency::{lemma_push_contains, lemma_without, operations_keep_consistency, fresh_contract_is_consistent, sales_sum, Operation};
use crate::fees::{bps_share, spec_primary_split, spec_sale_split};
use crate::model::{without, LedgerView};
use crate::types::{ContractError, SaleSplit};

verus! {

/// The storage after invoking `ops` in order on a freshly deployed
/// contract (refused invocations change nothing).
pub open spec fn replay(ops: Seq<Operation>) -> LedgerView
    decreases ops.len(),
{
    if ops.len() == 0 {
        LedgerView::empty()
    } else {
        replay(ops.drop_last()).step(ops.last())
    }
}

/// The last invocation of `ops` succeeds after the ones before it.
pub open spec fn last_accepted(ops: Seq<Operation>) -> bool {
    replay(ops.drop_last()).apply(ops.last()) is Ok
}

/// `op` is a purchase of book `book_id`.
pub open spec fn is_purchase_of(op: Operation, book_id: u64) -> bool {
    match op {
        Operation::Purchase { book_id: b, .. } => b == book_id,
        _ => false,
    }
}

/// Number of successful registrations in `ops`.
pub open spec fn registrations(ops: Seq<Operation>) -> nat
    decreases ops.len(),
{
    if ops.len() == 0 {
        0
    } else {
        registrations(ops.drop_last()) + if ops.last() is RegisterBook && last_accepted(ops) {
            1nat
        } else {
            0nat
        }
    }
}

/// Number of successful purchases in `ops`.
pub open spec fn purchases(ops: Seq<Operation>) -> nat
    decreases ops.len(),
{
    if ops.len() == 0 {
        0
    } else {
        purchases(ops.drop_last()) + if ops.last() is Purchase && last_accepted(ops) {
            1nat
        } else {
            0nat
        }
    }
}

/// Number of successful purchases of book `book_id` in `ops`.
pub open spec fn purchases_of(ops: Seq<Operation>, book_id: u64) -> nat
    decreases ops.len(),
{
    if ops.len() == 0 {
        0
    } else {
        purchases_of(ops.drop_last(), book_id) + if is_purchase_of(ops.last(), book_id)
            && last_accepted(ops) {
            1nat
        } else {
            0nat
        }
    }
}

proof fn lemma_without_absent(s: Seq<u64>, t: u64)
    requires
        !s.contains(t),
    ensures
        without(s, t) == s,
    decreases s.len(),
{
    reveal_with_fuel(Seq::<u64>::filter, 1);
    if s.len() > 0 {
        let d = s.drop_last();
        assert(!d.contains(t)) by {
            if d.contains(t) {
                let i = choose|i: int| 0 <= i < d.len() && d[i] == t;
                assert(s[i] == t);
            }
        }
        lemma_without_absent(d, t);
        assert(s.last() != t) by {
            assert(s[s.len() - 1] == s.last());
        }
        assert(s =~= d.push(s.last()));
    }
}

/// Whatever history of invocations led to it, the storage is consistent;
/// the book counter is the number of successful registrations, the token
/// counter the number of successful purchases, and each book's sales count
/// the number of successful purchases of that book.
pub proof fn history_is_counted(ops: Seq<Operation>)
    ensures
        replay(ops).consistent(),
        replay(ops).total_books() == registrations(ops),
        replay(ops).total_tokens() == purchases(ops),
        forall|k: u64|
            #[trigger] replay(ops).books.contains_key(k) ==> replay(ops).books[k].total_sales
                == purchases_of(ops, k),
        forall|k: u64|
            !(#[trigger] replay(ops).books.contains_key(k)) ==> purchases_of(ops, k) == 0,
    decreases ops.len(),
{
    if ops.len() == 0 {
        fresh_contract_is_consistent();
    } else {
        let pre = ops.drop_last();
        let op = ops.last();
        history_is_counted(pre);
        let v = replay(pre);
        let w = replay(ops);
        assert(w == v.step(op));
        operations_keep_consistency(v, op);
        assert forall|k: u64| #[trigger] w.books.contains_key(k) implies w.books[k].total_sales
            == purchases_of(ops, k) by {
            assert(v.books.contains_key(k) ==> v.books[k].total_sales == purchases_of(pre, k));
            assert(!v.books.contains_key(k) ==> purchases_of(pre, k) == 0);
            if v.apply(op) is Ok {
                match op {
                    Operation::RegisterBook { .. } => {
                        if !v.books.contains_key(k) {
                            assert(k == v.total_books());
                        }
                    },
                    _ => {},
                }
            }
        }
        assert forall|k: u64| !(#[trigger] w.books.contains_key(k)) implies purchases_of(ops, k)
            == 0 by {
            assert(!v.books.contains_key(k) ==> purchases_of(pre, k) == 0);
            if v.books.contains_key(k) {
                if v.apply(op) is Ok {
                    match op {
                        Operation::TransferToken { .. } => {},
                        _ => {
                            assert(w.books.contains_key(k));
                        },
                    }
                }
            }
        }
    }
}

/// The token that the last invocation of `ops` gave to a wallet, if it
/// succeeded and gave one: the token a purchase minted, or the token a
/// resale moved.
pub open spec fn acquired_by_last(ops: Seq<Operation>) -> Option<u64> {
    if ops.len() == 0 || !last_accepted(ops) {
        None
    } else {
        match ops.last() {
            Operation::Purchase { .. } => Some(replay(ops.drop_last()).total_tokens()),
            Operation::TransferToken { token_id, .. } => Some(token_id),
            _ => None,
        }
    }
}

/// The position in `ops` of the invocation that last gave token `t` to a
/// wallet, or -1 if none did.
pub open spec fn last_acquisition(ops: Seq<Operation>, t: u64) -> int
    decreases ops.len(),
{
    if ops.len() == 0 {
        -1
    } else if acquired_by_last(ops) == Some(t) {
        ops.len() - 1
    } else {
        last_acquisition(ops.drop_last(), t)
    }
}

/// `ids` is in increasing order of `key`.
pub open spec fn ordered_by(ids: Seq<u64>, key: spec_fn(u64) -> int) -> bool {
    forall|i: int, j: int| 0 <= i < j < ids.len() ==> #[trigger] key(ids[i]) < #[trigger] key(ids[j])
}

proof fn lemma_last_acquisition_bound(ops: Seq<Operation>, t: u64)
    ensures
        -1 <= last_acquisition(ops, t) < ops.len(),
    decreases ops.len(),
{
    if ops.len() > 0 {
        lemma_last_acquisition_bound(ops.drop_last(), t);
    }
}

proof fn lemma_without_ordered(s: Seq<u64>, t: u64, key: spec_fn(u64) -> int)
    requires
        ordered_by(s, key),
    ensures
        ordered_by(without(s, t), key),
    decreases s.len(),
{
    reveal_with_fuel(Seq::<u64>::filter, 1);
    if s.len() > 0 {
        let d = s.drop_last();
        let l = s.last();
        assert(ordered_by(d, key)) by {
            assert forall|i: int, j: int| 0 <= i < j < d.len() implies #[trigger] key(d[i])
                < #[trigger] key(d[j]) by {
                assert(d[i] == s[i] && d[j] == s[j]);
            }
        }
        lemma_without_ordered(d, t, key);
        lemma_without(d, t);
        let f = without(d, t);
        if l != t {
            assert(without(s, t) == f.push(l));
            let g = f.push(l);
            assert forall|i: int, j: int| 0 <= i < j < g.len() implies #[trigger] key(g[i])
                < #[trigger] key(g[j]) by {
                if j < f.len() {
                    assert(g[i] == f[i] && g[j] == f[j]);
                } else {
                    assert(g[i] == f[i]);
                    assert(f.contains(f[i]));
                    assert(d.contains(f[i]));
                    let k = choose|k: int| 0 <= k < d.len() && d[k] == f[i];
                    assert(s[k] == d[k]);
                    assert(s[s.len() - 1] == l);
                }
            }
        } else {
            assert(without(s, t) == f);
        }
    }
}

proof fn lemma_ordered_same_keys(s: Seq<u64>, k1: spec_fn(u64) -> int, k2: spec_fn(u64) -> int)
    requires
        ordered_by(s, k1),
        forall|x: u64| s.contains(x) ==> k1(x) == k2(x),
    ensures
        ordered_by(s, k2),
{
    assert forall|i: int, j: int| 0 <= i < j < s.len() implies #[trigger] k2(s[i]) < #[trigger] k2(
        s[j],
    ) by {
        assert(s.contains(s[i]) && s.contains(s[j]));
        assert(k1(s[i]) < k1(s[j]));
    }
}

proof fn lemma_push_ordered(s: Seq<u64>, t: u64, key: spec_fn(u64) -> int)
    requires
        ordered_by(s, key),
        forall|x: u64| s.contains(x) ==> key(x) < key(t),
    ensures
        ordered_by(s.push(t), key),
{
    let g = s.push(t);
    assert forall|i: int, j: int| 0 <= i < j < g.len() implies #[trigger] key(g[i]) < #[trigger] key(
        g[j],
    ) by {
        assert(g[i] == s[i]);
        assert(s.contains(s[i]));
        if j < s.len() {
            assert(g[j] == s[j]);
        }
    }
}

/// Token lists are in order of acquisition: after any history of
/// invocations, each wallet's list holds its tokens ordered by the
/// invocation that last gave each of them to a wallet (the purchase that
/// minted it or the resale that moved it).
pub proof fn token_lists_follow_acquisition(ops: Seq<Operation>)
    ensures
        forall|a: Seq<char>|
            ordered_by(#[trigger] replay(ops).tokens_of(a), |t: u64| last_acquisition(ops, t)),
    decreases ops.len(),
{
    let key = |t: u64| last_acquisition(ops, t);
    if ops.len() == 0 {
        assert forall|a: Seq<char>| ordered_by(#[trigger] replay(ops).tokens_of(a), key) by {
            assert(replay(ops).tokens_of(a) =~= Seq::<u64>::empty());
        }
    } else {
        let pre = ops.drop_last();
        let op = ops.last();
        let v = replay(pre);
        let w = replay(ops);
        let old_key = |t: u64| last_acquisition(pre, t);
        token_lists_follow_acquisition(pre);
        history_is_counted(pre);
        assert(w == v.step(op));
        let n = ops.len() - 1;
        assert forall|t: u64| acquired_by_last(ops) != Some(t) implies key(t) == old_key(t) by {}
        assert forall|a: Seq<char>| ordered_by(#[trigger] w.tokens_of(a), key) by {
            let l = v.tokens_of(a);
            assert(ordered_by(l, old_key));
            assert forall|x: u64| l.contains(x) implies old_key(x) < n by {
                lemma_last_acquisition_bound(pre, x);
            }
            token_lists_keep_order(v, op, a);
            if v.apply(op) is Ok {
                match op {
                    Operation::Purchase { buyer, .. } => {
                        let t = v.total_tokens();
                        assert(acquired_by_last(ops) == Some(t));
                        assert(!v.tokens.contains_key(t));
                        assert forall|x: u64| l.contains(x) implies key(x) == old_key(x) by {
                            assert(v.tokens_of(a).contains(x) <==> (v.tokens.contains_key(x)
                                && v.tokens[x].owner == a));
                        }
                        lemma_ordered_same_keys(l, old_key, key);
                        if a == buyer {
                            lemma_push_ordered(l, t, key);
                        }
                    },
                    Operation::TransferToken { token_id, new_owner, sale_price } => {
                        assert(acquired_by_last(ops) == Some(token_id));
                        lemma_without(l, token_id);
                        let f = without(l, token_id);
                        lemma_without_ordered(l, token_id, old_key);
                        lemma_ordered_same_keys(f, old_key, key);
                        if a == new_owner {
                            lemma_push_ordered(f, token_id, key);
                        }
                    },
                    _ => {
                        assert(acquired_by_last(ops) == None::<u64>);
                        lemma_ordered_same_keys(l, old_key, key);
                    },
                }
            } else {
                assert(acquired_by_last(ops) == None::<u64>);
                lemma_ordered_same_keys(l, old_key, key);
            }
        }
    }
}

/// Access control: in a consistent contract a wallet's ownership record
/// grants access to a book exactly when the wallet holds a token of it.
pub proof fn access_matches_tokens(v: LedgerView, owner: Seq<char>, book_id: u64)
    requires
        v.consistent(),
    ensures
        v.owns_book(owner, book_id) <==> v.holds_copy(owner, book_id),
{
}

/// In a consistent contract, the token list of a wallet names exactly the
/// tokens that wallet owns, each once.
pub proof fn token_list_is_exact(v: LedgerView, owner: Seq<char>)
    requires
        v.consistent(),
    ensures
        forall|t: u64| #[trigger] v.tokens_of(owner).contains(t) <==> (v.tokens.contains_key(t)
            && v.tokens[t].owner == owner),
        v.tokens_of(owner).no_duplicates(),
{
}

/// Token lists are ordered by acquisition: a purchase appends the new token
/// to the buyer's list, a resale removes the token from every list (the
/// others keep their order) and appends it to the buyer's, and nothing else
/// changes any list.
pub proof fn token_lists_keep_order(v: LedgerView, op: Operation, owner: Seq<char>)
    requires
        v.consistent(),
    ensures
        ({
            let w = v.step(op);
            match op {
                Operation::Purchase { buyer, .. } => w.tokens_of(owner) == if owner == buyer
                    && v.apply(op) is Ok {
                    v.tokens_of(owner).push(v.total_tokens())
                } else {
                    v.tokens_of(owner)
                },
                Operation::TransferToken { token_id, new_owner, .. } => if v.apply(op) is Ok {
                    if owner == new_owner {
                        w.tokens_of(owner) == without(v.tokens_of(owner), token_id).push(token_id)
                    } else {
                        w.tokens_of(owner) == without(v.tokens_of(owner), token_id)
                    }
                } else {
                    w.tokens_of(owner) == v.tokens_of(owner)
                },
                _ => w.tokens_of(owner) == v.tokens_of(owner),
            }
        }),
{
    match op {
        Operation::TransferToken { token_id, new_owner, sale_price } => {
            if v.apply(op) is Ok {
                let seller = v.tokens[token_id].owner;
                assert(v.tokens_of(owner).contains(token_id) <==> (v.tokens.contains_key(token_id)
                    && v.tokens[token_id].owner == owner));
                if owner != seller {
                    lemma_without_absent(v.tokens_of(owner), token_id);
                }
            }
        },
        _ => {},
    }
}

/// In a consistent contract, the books stored are exactly those with
/// identifiers below the book count, each under its own identifier, and
/// likewise for tokens; every token names a stored book; and the sales
/// counts of all books add up to the number of tokens.
pub proof fn stored_ids_are_dense(v: LedgerView, id: u64)
    requires
        v.consistent(),
    ensures
        v.books.contains_key(id) <==> id < v.total_books(),
        v.books.contains_key(id) ==> v.books[id].id == id,
        v.tokens.contains_key(id) <==> id < v.total_tokens(),
        v.tokens.contains_key(id) ==> v.tokens[id].id == id && v.books.contains_key(
            v.tokens[id].book_id,
        ),
        sales_sum(v.books, v.total_books() as nat) == v.total_tokens(),
{
    if v.tokens.contains_key(id) {
        assert(v.books.contains_key(v.tokens[id].book_id));
    }
}

/// Royalty rates are immutable after registration: no invocation changes
/// the creator, price or royalty rate of a registered book.
pub proof fn royalty_rates_are_immutable(v: LedgerView, op: Operation, book_id: u64)
    requires
        v.consistent(),
        v.books.contains_key(book_id),
    ensures
        v.step(op).books.contains_key(book_id),
        v.step(op).books[book_id].royalty_bps == v.books[book_id].royalty_bps,
        v.step(op).books[book_id].publisher == v.books[book_id].publisher,
        v.step(op).books[book_id].price == v.books[book_id].price,
{
    assert(!v.books.contains_key(v.total_books()));
}

/// The contract is initialised once: after a successful initialisation
/// every further one is refused.
pub proof fn initialisation_happens_once(
    v: LedgerView,
    platform: Seq<char>,
    fee_bps: u32,
    other_platform: Seq<char>,
    other_fee_bps: u32,
)
    requires
        v.initialise(platform, fee_bps) is Ok,
    ensures
        v.initialise(platform, fee_bps)->Ok_0.initialise(other_platform, other_fee_bps) == Err::<
            LedgerView,
            ContractError,
        >(ContractError::AlreadyInitialised),
{
}

/// The platform wallet set at initialisation (the admin) may deactivate
/// any registered book, as may its creator.
pub proof fn creator_or_admin_may_deactivate(v: LedgerView, caller: Seq<char>, book_id: u64)
    requires
        v.books.contains_key(book_id),
        v.platform == Some(caller) || v.books[book_id].publisher == caller,
    ensures
        v.deactivate_book(caller, book_id) is Ok,
{
}

proof fn lemma_floor_share(a: int)
    requires
        a >= 0,
    ensures
        (a / 10000) * 10000 <= a < (a / 10000) * 10000 + 10000,
{
    assert((a / 10000) * 10000 <= a < (a / 10000) * 10000 + 10000) by (nonlinear_arith)
        requires
            a >= 0,
    ;
}

/// Every resale split is complete: royalty, platform fee and seller's share
/// add up to the sale price, the royalty and the fee are the basis-point
/// shares of the price rounded toward zero, and no share is negative. With a
/// royalty of at most 50% and a fee of at most 10%, any non-negative price
/// whose royalty product fits in `i128` is accepted, and a negative price
/// never is.
pub proof fn resale_split_is_complete(sale_price: i128, royalty_bps: u32, fee_bps: u32)
    requires
        royalty_bps <= 5000,
        fee_bps <= 1000,
    ensures
        spec_sale_split(sale_price, royalty_bps, fee_bps) matches Ok(split) ==> {
            &&& split.royalty + split.platform_fee + split.seller == sale_price
            &&& split.royalty * 10000 <= sale_price * royalty_bps < split.royalty * 10000 + 10000
            &&& split.platform_fee * 10000 <= sale_price * fee_bps < split.platform_fee * 10000
                + 10000
            &&& split.royalty == bps_share(sale_price as int, royalty_bps as int)
            &&& split.platform_fee == bps_share(sale_price as int, fee_bps as int)
            &&& split.royalty >= 0
            &&& split.platform_fee >= 0
            &&& split.seller >= 0
        },
        0 <= sale_price && sale_price * 5000 <= i128::MAX ==> spec_sale_split(
            sale_price,
            royalty_bps,
            fee_bps,
        ) is Ok,
        sale_price < 0 ==> spec_sale_split(sale_price, royalty_bps, fee_bps) is Err,
{
    let s = sale_price as int;
    let rb = royalty_bps as int;
    let fb = fee_bps as int;
    let r = bps_share(s, rb);
    let p = bps_share(s, fb);
    if s >= 0 {
        assert(0 <= s * rb <= s * 5000) by (nonlinear_arith)
            requires
                0 <= s,
                0 <= rb <= 5000,
        ;
        assert(0 <= s * fb <= s * 1000) by (nonlinear_arith)
            requires
                0 <= s,
                0 <= fb <= 1000,
        ;
        lemma_floor_share(s * rb);
        lemma_floor_share(s * fb);
        assert(0 <= r <= s / 2) by (nonlinear_arith)
            requires
                0 <= s * rb <= s * 5000,
                r == (s * rb) / 10000,
                s >= 0,
        ;
        assert(0 <= p <= s / 10) by (nonlinear_arith)
            requires
                0 <= s * fb <= s * 1000,
                p == (s * fb) / 10000,
                s >= 0,
        ;
    } else {
        let m = -s;
        assert(0 <= m * rb <= m * 5000) by (nonlinear_arith)
            requires
                0 < m,
                0 <= rb <= 5000,
        ;
        assert(0 <= m * fb <= m * 1000) by (nonlinear_arith)
            requires
                0 < m,
                0 <= fb <= 1000,
        ;
        assert(s * rb == -(m * rb)) by (nonlinear_arith)
            requires
                m == -s,
        ;
        assert(s * fb == -(m * fb)) by (nonlinear_arith)
            requires
                m == -s,
        ;
        assert(0 <= (m * rb) / 10000 <= m / 2) by (nonlinear_arith)
            requires
                0 <= m * rb <= m * 5000,
                m > 0,
        ;
        assert(0 <= (m * fb) / 10000 <= m / 10) by (nonlinear_arith)
            requires
                0 <= m * fb <= m * 1000,
                m > 0,
                0 <= fb <= 1000,
        ;
        assert(s - r - p < 0);
    }
}

/// Every primary-sale split is complete: the creator's share and the
/// platform fee add up to the price, the fee is the basis-point share of the
/// price rounded toward zero, and neither share is negative. With a fee of
/// at most 10%, any positive price whose fee product fits in `i128` is
/// accepted; at the default fee the platform receives 2.5%.
pub proof fn primary_split_is_complete(price: i128, fee_bps: u32)
    requires
        fee_bps <= 1000,
    ensures
        price >= 0 ==> (spec_primary_split(price, fee_bps) matches Ok(split) ==> {
            &&& split.creator + split.platform_fee == price
            &&& split.platform_fee * 10000 <= price * fee_bps < split.platform_fee * 10000 + 10000
            &&& split.platform_fee == bps_share(price as int, fee_bps as int)
            &&& split.platform_fee >= 0
            &&& split.creator >= 0
        }),
        0 <= price && price * 1000 <= i128::MAX ==> spec_primary_split(price, fee_bps) is Ok,
{
    let s = price as int;
    let fb = fee_bps as int;
    if s >= 0 {
        assert(0 <= s * fb <= s * 1000) by (nonlinear_arith)
            requires
                0 <= s,
                0 <= fb <= 1000,
        ;
        assert(0 <= (s * fb) / 10000 <= s / 10) by (nonlinear_arith)
            requires
                0 <= s * fb <= s * 1000,
                s >= 0,
        ;
        lemma_floor_share(s * fb);
    }
}

/// A purchase is paid at the book's price, split between creator and
/// platform at the fee in force; a resale needs the authorisation of the
/// token's current owner, and is refused for a token that does not exist.
pub proof fn payments_and_authorisation(
    v: LedgerView,
    book_id: u64,
    buyer: Seq<char>,
    ledger_sequence: u32,
    token_id: u64,
    new_owner: Seq<char>,
    sale_price: i128,
)
    ensures
        v.purchase(buyer, book_id, ledger_sequence) is Ok ==> v.purchase_payment(book_id)
            == spec_primary_split(v.books[book_id].price, v.fee_bps()),
        v.transfer_token(token_id, new_owner, sale_price) is Ok ==> v.resale_authoriser(token_id)
            == Ok::<Seq<char>, ContractError>(v.tokens[token_id].owner),
        v.resale_authoriser(token_id) is Err ==> v.transfer_token(token_id, new_owner, sale_price)
            == Err::<(LedgerView, SaleSplit), ContractError>(
            ContractError::TokenNotFound,
        ),
{
}

/// A buyer cannot purchase the same book twice: once a purchase succeeds, a
/// second one by the same wallet is refused.
pub proof fn second_purchase_is_refused(
    v: LedgerView,
    buyer: Seq<char>,
    book_id: u64,
    first_sequence: u32,
    second_sequence: u32,
)
    requires
        v.purchase(buyer, book_id, first_sequence) is Ok,
    ensures
        v.purchase(buyer, book_id, first_sequence)->Ok_0.0.purchase(buyer, book_id, second_sequence)
            == Err::<(LedgerView, u64), ContractError>(ContractError::AlreadyOwned),
{
}

/// A purchase mints the next token for the buyer: the token names the buyer
/// and the book, the buyer's ownership record grants access, the token is
/// appended to the buyer's list, and the book counts one more sale.
pub proof fn purchase_grants_ownership(
    v: LedgerView,
    buyer: Seq<char>,
    book_id: u64,
    ledger_sequence: u32,
)
    requires
        v.purchase(buyer, book_id, ledger_sequence) is Ok,
    ensures
        ({
            let (w, id) = v.purchase(buyer, book_id, ledger_sequence)->Ok_0;
            &&& id == v.total_tokens()
            &&& w.total_tokens() == id + 1
            &&& w.tokens[id].owner == buyer
            &&& w.tokens[id].book_id == book_id
            &&& w.tokens[id].purchase_price == v.books[book_id].price
            &&& w.owns_book(buyer, book_id)
            &&& w.tokens_of(buyer) == v.tokens_of(buyer).push(id)
            &&& w.books[book_id].total_sales == v.books[book_id].total_sales + 1
        }),
{
}

/// A resale moves the token to the buyer: the buyer's ownership record
/// grants access and the token is appended to the buyer's list; when buyer
/// and seller differ, the token leaves the seller's list and the seller
/// keeps access to the book exactly when holding another token of it. The
/// creator's royalty is the book's rate applied to the sale price.
pub proof fn transfer_moves_ownership(
    v: LedgerView,
    token_id: u64,
    new_owner: Seq<char>,
    sale_price: i128,
)
    requires
        v.transfer_token(token_id, new_owner, sale_price) is Ok,
    ensures
        ({
            let (w, split) = v.transfer_token(token_id, new_owner, sale_price)->Ok_0;
            let seller = v.tokens[token_id].owner;
            let book_id = v.tokens[token_id].book_id;
            &&& w.tokens[token_id].owner == new_owner
            &&& w.tokens[token_id].book_id == book_id
            &&& w.tokens[token_id].purchase_price == sale_price
            &&& w.owns_book(new_owner, book_id)
            &&& w.tokens_of(new_owner).last() == token_id
            &&& seller != new_owner ==> (w.owns_book(seller, book_id) <==> v.holds_other_copy(
                seller,
                book_id,
                token_id,
            )) && !w.tokens_of(seller).contains(token_id)
            &&& split.royalty == bps_share(sale_price as int, v.books[book_id].royalty_bps as int)
            &&& split.platform_fee == bps_share(sale_price as int, v.fee_bps() as int)
        }),
{
    let seller = v.tokens[token_id].owner;
    lemma_without(v.tokens_of(seller), token_id);
}

/// Deactivating a book stops new purchases of it and leaves every minted
/// token and ownership record as it was.
pub proof fn deactivation_stops_purchases(
    v: LedgerView,
    caller: Seq<char>,
    book_id: u64,
    buyer: Seq<char>,
    ledger_sequence: u32,
)
    requires
        v.deactivate_book(caller, book_id) is Ok,
    ensures
        v.deactivate_book(caller, book_id)->Ok_0.purchase(buyer, book_id, ledger_sequence)
            == Err::<(LedgerView, u64), ContractError>(ContractError::BookInactive),
        v.deactivate_book(caller, book_id)->Ok_0.tokens == v.tokens,
        v.deactivate_book(caller, book_id)->Ok_0.holdings == v.holdings,
        v.deactivate_book(caller, book_id)->Ok_0.token_lists == v.token_lists,
{
}

/// Registration hands out identifiers in sequence: a registered book gets
/// the current book count as identifier, the count grows by one, and the
/// book reads back active, unsold and as registered.
pub proof fn registration_assigns_next_id(
    v: LedgerView,
    publisher: Seq<char>,
    price: i128,
    royalty_bps: u32,
    arweave_tx_id: Seq<u8>,
    title: Seq<u8>,
)
    requires
        v.register_book(publisher, price, royalty_bps, arweave_tx_id, title) is Ok,
    ensures
        ({
            let (w, id) = v.register_book(publisher, price, royalty_bps, arweave_tx_id, title)->Ok_0;
            &&& id == v.total_books()
            &&& w.total_books() == id + 1
            &&& w.books.contains_key(id)
            &&& w.books[id].id == id
            &&& w.books[id].publisher == publisher
            &&& w.books[id].price == price
            &&& w.books[id].royalty_bps == royalty_bps
            &&& w.books[id].arweave_tx_id == arweave_tx_id
            &&& w.books[id].title == title
            &&& w.books[id].active
            &&& w.books[id].total_sales == 0
        }),
{
}

} // verus!
