//! The invariant of the contract's storage and the proof that every
//! invocation keeps it.
use vstd::prelude::*;
use crate::fees::{MAX_PLATFORM_FEE_BPS, MAX_ROYALTY_BPS};
use crate::model::{list_or_empty, without, LedgerView};
use crate::types::{BookView, ContractError};

verus! {

/// One invocation of an entry point that changes storage, with its
/// arguments (wallets by their strkey text).
pub enum Operation {
    Initialise { platform: Seq<char>, fee_bps: u32 },
    RegisterBook {
        publisher: Seq<char>,
        price: i128,
        royalty_bps: u32,
        arweave_tx_id: Seq<u8>,
        title: Seq<u8>,
    },
    UpdateArweaveTx { publisher: Seq<char>, book_id: u64, arweave_tx_id: Seq<u8> },
    DeactivateBook { caller: Seq<char>, book_id: u64 },
    Purchase { buyer: Seq<char>, book_id: u64, ledger_sequence: u32 },
    TransferToken { token_id: u64, new_owner: Seq<char>, sale_price: i128 },
}

/// The sum of the sales counts of the books with identifiers below `n`.
pub open spec fn sales_sum(books: Map<u64, BookView>, n: nat) -> int
    decreases n,
{
    if n == 0 {
        0
    } else {
        let k = (n - 1) as u64;
        sales_sum(books, (n - 1) as nat) + if books.contains_key(k) {
            books[k].total_sales as int
        } else {
            0
        }
    }
}

impl LedgerView {
    /// The storage after a successful invocation of `op`, or why it is
    /// refused.
    pub open spec fn apply(self, op: Operation) -> Result<LedgerView, ContractError> {
        match op {
            Operation::Initialise { platform, fee_bps } => self.initialise(platform, fee_bps),
            Operation::RegisterBook { publisher, price, royalty_bps, arweave_tx_id, title } => {
                match self.register_book(publisher, price, royalty_bps, arweave_tx_id, title) {
                    Ok((v, _id)) => Ok(v),
                    Err(e) => Err(e),
                }
            },
            Operation::UpdateArweaveTx { publisher, book_id, arweave_tx_id } => self.update_arweave_tx(
                publisher,
                book_id,
                arweave_tx_id,
            ),
            Operation::DeactivateBook { caller, book_id } => self.deactivate_book(caller, book_id),
            Operation::Purchase { buyer, book_id, ledger_sequence } => {
                match self.purchase(buyer, book_id, ledger_sequence) {
                    Ok((v, _id)) => Ok(v),
                    Err(e) => Err(e),
                }
            },
            Operation::TransferToken { token_id, new_owner, sale_price } => {
                match self.transfer_token(token_id, new_owner, sale_price) {
                    Ok((v, _split)) => Ok(v),
                    Err(e) => Err(e),
                }
            },
        }
    }

    /// The storage after invoking `op`: the new storage when it succeeds,
    /// the same storage when it is refused.
    pub open spec fn step(self, op: Operation) -> LedgerView {
        match self.apply(op) {
            Ok(w) => w,
            Err(_) => self,
        }
    }

    /// The invariant of the contract's storage:
    /// - the books stored are exactly those with identifiers below the book
    ///   counter, each under its own identifier, with a positive price and a
    ///   royalty of at most 50%; a configured platform fee is at most 10%;
    /// - the tokens stored are exactly those with identifiers below the
    ///   token counter, each under its own identifier and of a stored book;
    /// - a wallet's token list holds exactly the tokens that wallet owns,
    ///   each once;
    /// - a wallet's ownership record grants access to a book exactly when
    ///   the wallet holds a token of that book;
    /// - the sales counts of all books add up to the number of tokens.
    pub open spec fn consistent(self) -> bool {
        &&& forall|b: u64| #[trigger] self.books.contains_key(b) <==> b < self.total_books()
        &&& forall|b: u64|
            #[trigger] self.books.contains_key(b) ==> self.books[b].id == b && self.books[b].price
                > 0 && self.books[b].royalty_bps <= MAX_ROYALTY_BPS
        &&& self.platform_fee_bps matches Some(f) ==> f <= MAX_PLATFORM_FEE_BPS
        &&& forall|t: u64| #[trigger] self.tokens.contains_key(t) <==> t < self.total_tokens()
        &&& forall|t: u64|
            #[trigger] self.tokens.contains_key(t) ==> self.tokens[t].id == t
                && self.tokens[t].book_id < self.total_books()
        &&& forall|a: Seq<char>, t: u64|
            #[trigger] self.tokens_of(a).contains(t) <==> (self.tokens.contains_key(t)
                && self.tokens[t].owner == a)
        &&& forall|a: Seq<char>| #[trigger] self.tokens_of(a).no_duplicates()
        &&& forall|a: Seq<char>, b: u64| #[trigger] self.owns_book(a, b) <==> self.holds_copy(a, b)
        &&& sales_sum(self.books, self.total_books() as nat) == self.total_tokens()
    }
}

pub(crate) proof fn lemma_without(s: Seq<u64>, t: u64)
    ensures
        forall|x: u64| #[trigger] without(s, t).contains(x) <==> (s.contains(x) && x != t),
        s.no_duplicates() ==> without(s, t).no_duplicates(),
    decreases s.len(),
{
    reveal_with_fuel(Seq::<u64>::filter, 1);
    if s.len() > 0 {
        let d = s.drop_last();
        let l = s.last();
        lemma_without(d, t);
        let f = without(d, t);
        assert(s =~= d.push(l));
        assert forall|x: u64| s.contains(x) <==> (d.contains(x) || x == l) by {
            if s.contains(x) {
                let i = choose|i: int| 0 <= i < s.len() && s[i] == x;
                if i < d.len() {
                    assert(d[i] == x);
                }
            }
            if d.contains(x) {
                let i = choose|i: int| 0 <= i < d.len() && d[i] == x;
                assert(s[i] == x);
            }
            if x == l {
                assert(s[s.len() - 1] == x);
            }
        }
        if l != t {
            assert(without(s, t) == f.push(l));
            lemma_push_contains(f, l);
            assert forall|x: u64| #[trigger] without(s, t).contains(x) <==> (s.contains(x) && x != t) by {
                assert(f.contains(x) <==> (d.contains(x) && x != t));
            }
            if s.no_duplicates() {
                assert(d.no_duplicates()) by {
                    assert forall|i: int, j: int|
                        0 <= i < d.len() && 0 <= j < d.len() && i != j implies d[i] != d[j] by {
                        assert(s[i] == d[i] && s[j] == d[j]);
                    }
                }
                assert(!d.contains(l)) by {
                    if d.contains(l) {
                        let i = choose|i: int| 0 <= i < d.len() && d[i] == l;
                        assert(s[i] == s[s.len() - 1]);
                    }
                }
                assert(!f.contains(l));
            }
        } else {
            assert(without(s, t) == f);
            assert forall|x: u64| #[trigger] without(s, t).contains(x) <==> (s.contains(x) && x != t) by {
                assert(f.contains(x) <==> (d.contains(x) && x != t));
            }
            if s.no_duplicates() {
                assert forall|i: int, j: int|
                    0 <= i < d.len() && 0 <= j < d.len() && i != j implies d[i] != d[j] by {
                    assert(s[i] == d[i] && s[j] == d[j]);
                }
            }
        }
    } else {
        assert(without(s, t) == s);
        assert forall|x: u64| #[trigger] without(s, t).contains(x) <==> (s.contains(x) && x != t) by {
            if s.contains(x) {
                let i = choose|i: int| 0 <= i < s.len() && s[i] == x;
            }
        }
    }
}

pub(crate) proof fn lemma_push_contains(s: Seq<u64>, t: u64)
    ensures
        forall|x: u64| #[trigger] s.push(t).contains(x) <==> (s.contains(x) || x == t),
        s.no_duplicates() && !s.contains(t) ==> s.push(t).no_duplicates(),
{
    let g = s.push(t);
    assert forall|x: u64| g.contains(x) <==> (s.contains(x) || x == t) by {
        if g.contains(x) {
            let i = choose|i: int| 0 <= i < g.len() && g[i] == x;
            if i < s.len() {
                assert(s[i] == x);
            }
        }
        if s.contains(x) {
            let i = choose|i: int| 0 <= i < s.len() && s[i] == x;
            assert(g[i] == x);
        }
        if x == t {
            assert(g[s.len() as int] == x);
        }
    }
    if s.no_duplicates() && !s.contains(t) {
        assert forall|i: int, j: int|
            0 <= i < g.len() && 0 <= j < g.len() && i != j implies g[i] != g[j] by {
            if i < s.len() && j < s.len() {
                assert(g[i] == s[i] && g[j] == s[j]);
            } else if i < s.len() {
                assert(s.contains(g[i]));
            } else if j < s.len() {
                assert(s.contains(g[j]));
            }
        }
    }
}


proof fn lemma_sales_sum_frame(m1: Map<u64, BookView>, m2: Map<u64, BookView>, n: nat)
    requires
        n <= u64::MAX + 1,
        forall|k: u64|
            (k as nat) < n ==> (#[trigger] m1.contains_key(k) <==> m2.contains_key(k)),
        forall|k: u64|
            (k as nat) < n && #[trigger] m1.contains_key(k) ==> m1[k].total_sales
                == m2[k].total_sales,
    ensures
        sales_sum(m1, n) == sales_sum(m2, n),
    decreases n,
{
    if n > 0 {
        let k = (n - 1) as u64;
        lemma_sales_sum_frame(m1, m2, (n - 1) as nat);
        assert(m1.contains_key(k) <==> m2.contains_key(k));
    }
}

proof fn lemma_sales_sum_bump(m: Map<u64, BookView>, n: nat, b: u64, nb: BookView)
    requires
        n <= u64::MAX + 1,
        (b as nat) < n,
        m.contains_key(b),
        nb.total_sales == m[b].total_sales + 1,
    ensures
        sales_sum(m.insert(b, nb), n) == sales_sum(m, n) + 1,
    decreases n,
{
    let k = (n - 1) as u64;
    let m2 = m.insert(b, nb);
    if k == b {
        assert forall|j: u64| (j as nat) < (n - 1) as nat implies (#[trigger] m2.contains_key(j)
            <==> m.contains_key(j)) by {}
        lemma_sales_sum_frame(m2, m, (n - 1) as nat);
    } else {
        lemma_sales_sum_bump(m, (n - 1) as nat, b, nb);
    }
}

/// No book sells more copies than the sales of all books below `n`.
pub(crate) proof fn lemma_sales_sum_covers(m: Map<u64, BookView>, n: nat, b: u64)
    requires
        n <= u64::MAX + 1,
    ensures
        sales_sum(m, n) >= 0,
        (b as nat) < n && m.contains_key(b) ==> sales_sum(m, n) >= m[b].total_sales,
    decreases n,
{
    if n > 0 {
        lemma_sales_sum_covers(m, (n - 1) as nat, b);
    }
}

/// A freshly deployed contract is consistent.
pub proof fn fresh_contract_is_consistent()
    ensures
        LedgerView::empty().consistent(),
{
    let v = LedgerView::empty();
    assert forall|a: Seq<char>, t: u64| #[trigger] v.tokens_of(a).contains(t) <==> (
    v.tokens.contains_key(t) && v.tokens[t].owner == a) by {
        assert(v.tokens_of(a) =~= Seq::<u64>::empty());
    }
    assert forall|a: Seq<char>| #[trigger] v.tokens_of(a).no_duplicates() by {
        assert(v.tokens_of(a) =~= Seq::<u64>::empty());
    }
}

/// The lists, ownership records and tokens of `w` are those of `v`.
proof fn lemma_same_tokens_keep(v: LedgerView, w: LedgerView)
    requires
        v.consistent(),
        w.tokens == v.tokens,
        w.token_lists == v.token_lists,
        w.holdings == v.holdings,
    ensures
        forall|a: Seq<char>, t: u64|
            #[trigger] w.tokens_of(a).contains(t) <==> (w.tokens.contains_key(t)
                && w.tokens[t].owner == a),
        forall|a: Seq<char>| #[trigger] w.tokens_of(a).no_duplicates(),
        forall|a: Seq<char>, b: u64| #[trigger] w.owns_book(a, b) <==> w.holds_copy(a, b),
{
    assert forall|a: Seq<char>, t: u64| #[trigger] w.tokens_of(a).contains(t) <==> (
    w.tokens.contains_key(t) && w.tokens[t].owner == a) by {
        assert(v.tokens_of(a).contains(t) <==> (v.tokens.contains_key(t) && v.tokens[t].owner
            == a));
    }
    assert forall|a: Seq<char>| #[trigger] w.tokens_of(a).no_duplicates() by {
        assert(v.tokens_of(a).no_duplicates());
    }
    assert forall|a: Seq<char>, b: u64| #[trigger] w.owns_book(a, b) <==> w.holds_copy(a, b) by {
        assert(v.owns_book(a, b) <==> v.holds_copy(a, b));
        if v.holds_copy(a, b) {
            let t = choose|t: u64|
                #![trigger v.tokens[t]]
                v.tokens.contains_key(t) && v.tokens[t].owner == a && v.tokens[t].book_id == b;
            assert(w.tokens[t] == v.tokens[t]);
        }
        if w.holds_copy(a, b) {
            let t = choose|t: u64|
                #![trigger w.tokens[t]]
                w.tokens.contains_key(t) && w.tokens[t].owner == a && w.tokens[t].book_id == b;
            assert(w.tokens[t] == v.tokens[t]);
        }
    }
}

proof fn lemma_initialise_keeps(v: LedgerView, platform: Seq<char>, fee_bps: u32)
    requires
        v.consistent(),
        v.initialise(platform, fee_bps) is Ok,
    ensures
        v.initialise(platform, fee_bps)->Ok_0.consistent(),
{
    let w = v.initialise(platform, fee_bps)->Ok_0;
    lemma_same_tokens_keep(v, w);
}

proof fn lemma_register_keeps(
    v: LedgerView,
    publisher: Seq<char>,
    price: i128,
    royalty_bps: u32,
    arweave_tx_id: Seq<u8>,
    title: Seq<u8>,
)
    requires
        v.consistent(),
        v.register_book(publisher, price, royalty_bps, arweave_tx_id, title) is Ok,
    ensures
        v.register_book(publisher, price, royalty_bps, arweave_tx_id, title)->Ok_0.0.consistent(),
{
    let (w, id) = v.register_book(publisher, price, royalty_bps, arweave_tx_id, title)->Ok_0;
    let n = v.total_books();
    assert(id == n);
    lemma_same_tokens_keep(v, w);
    assert forall|b: u64| #[trigger] w.books.contains_key(b) <==> b < w.total_books() by {
        assert(v.books.contains_key(b) <==> b < n);
    }
    assert forall|b: u64| #[trigger] w.books.contains_key(b) implies w.books[b].id == b
        && w.books[b].price > 0 && w.books[b].royalty_bps <= MAX_ROYALTY_BPS by {
        if b != id {
            assert(v.books.contains_key(b));
        }
    }
    assert forall|t: u64| #[trigger] w.tokens.contains_key(t) implies w.tokens[t].id == t
        && w.tokens[t].book_id < w.total_books() by {
        assert(v.tokens.contains_key(t));
    }
    assert forall|k: u64| (k as nat) < n as nat implies (#[trigger] w.books.contains_key(k)
        <==> v.books.contains_key(k)) by {}
    lemma_sales_sum_frame(w.books, v.books, n as nat);
    assert(!v.books.contains_key(n));
}

proof fn lemma_book_edit_keeps(v: LedgerView, w: LedgerView, book_id: u64)
    requires
        v.consistent(),
        v.books.contains_key(book_id),
        w == (LedgerView { books: w.books, ..v }),
        w.books.dom() == v.books.dom(),
        forall|b: u64|
            #[trigger] w.books.contains_key(b) ==> w.books[b].id == v.books[b].id
                && w.books[b].price == v.books[b].price && w.books[b].royalty_bps
                == v.books[b].royalty_bps && w.books[b].total_sales == v.books[b].total_sales,
    ensures
        w.consistent(),
{
    lemma_same_tokens_keep(v, w);
    assert forall|b: u64| #[trigger] w.books.contains_key(b) <==> b < w.total_books() by {
        assert(v.books.contains_key(b) <==> b < v.total_books());
    }
    assert forall|b: u64| #[trigger] w.books.contains_key(b) implies w.books[b].id == b
        && w.books[b].price > 0 && w.books[b].royalty_bps <= MAX_ROYALTY_BPS by {
        assert(v.books.contains_key(b));
    }
    assert forall|t: u64| #[trigger] w.tokens.contains_key(t) implies w.tokens[t].id == t
        && w.tokens[t].book_id < w.total_books() by {
        assert(v.tokens.contains_key(t));
    }
    lemma_sales_sum_frame(w.books, v.books, v.total_books() as nat);
}

proof fn lemma_purchase_keeps(v: LedgerView, buyer: Seq<char>, book_id: u64, ledger_sequence: u32)
    requires
        v.consistent(),
        v.purchase(buyer, book_id, ledger_sequence) is Ok,
    ensures
        v.purchase(buyer, book_id, ledger_sequence)->Ok_0.0.consistent(),
{
    let (w, id) = v.purchase(buyer, book_id, ledger_sequence)->Ok_0;
    assert(id == v.total_tokens());
    assert(!v.tokens.contains_key(id));
    assert(book_id < v.total_books());
    assert forall|b: u64| #[trigger] w.books.contains_key(b) <==> b < w.total_books() by {
        assert(v.books.contains_key(b) <==> b < v.total_books());
    }
    assert forall|b: u64| #[trigger] w.books.contains_key(b) implies w.books[b].id == b
        && w.books[b].price > 0 && w.books[b].royalty_bps <= MAX_ROYALTY_BPS by {
        assert(v.books.contains_key(b));
    }
    assert forall|t: u64| #[trigger] w.tokens.contains_key(t) <==> t < w.total_tokens() by {
        assert(v.tokens.contains_key(t) <==> t < v.total_tokens());
    }
    assert forall|t: u64| #[trigger] w.tokens.contains_key(t) implies w.tokens[t].id == t
        && w.tokens[t].book_id < w.total_books() by {
        if t != id {
            assert(v.tokens.contains_key(t));
        }
    }
    lemma_push_contains(v.tokens_of(buyer), id);
    assert(!v.tokens_of(buyer).contains(id));
    assert forall|a: Seq<char>, t: u64| #[trigger] w.tokens_of(a).contains(t) <==> (
    w.tokens.contains_key(t) && w.tokens[t].owner == a) by {
        assert(v.tokens_of(a).contains(t) <==> (v.tokens.contains_key(t) && v.tokens[t].owner
            == a));
        assert(v.tokens_of(a).contains(id) <==> (v.tokens.contains_key(id) && v.tokens[id].owner
            == a));
        if a == buyer {
            assert(w.tokens_of(a) == v.tokens_of(buyer).push(id));
        } else {
            assert(w.tokens_of(a) == v.tokens_of(a));
        }
    }
    assert forall|a: Seq<char>| #[trigger] w.tokens_of(a).no_duplicates() by {
        assert(v.tokens_of(a).no_duplicates());
        assert(v.tokens_of(a).contains(id) <==> (v.tokens.contains_key(id) && v.tokens[id].owner
            == a));
    }
    assert forall|a: Seq<char>, b: u64| #[trigger] w.owns_book(a, b) <==> w.holds_copy(a, b) by {
        assert(v.owns_book(a, b) <==> v.holds_copy(a, b));
        if a == buyer && b == book_id {
            assert(w.tokens[id].owner == a && w.tokens[id].book_id == b);
        } else {
            if v.holds_copy(a, b) {
                let t = choose|t: u64|
                    #![trigger v.tokens[t]]
                    v.tokens.contains_key(t) && v.tokens[t].owner == a && v.tokens[t].book_id == b;
                assert(w.tokens[t] == v.tokens[t]);
            }
            if w.holds_copy(a, b) {
                let t = choose|t: u64|
                    #![trigger w.tokens[t]]
                    w.tokens.contains_key(t) && w.tokens[t].owner == a && w.tokens[t].book_id == b;
                assert(t != id);
                assert(w.tokens[t] == v.tokens[t]);
            }
        }
    }
    let book = v.books[book_id];
    lemma_sales_sum_bump(
        v.books,
        v.total_books() as nat,
        book_id,
        BookView { total_sales: (book.total_sales + 1) as u64, ..book },
    );
}

proof fn lemma_transfer_keeps(v: LedgerView, token_id: u64, new_owner: Seq<char>, sale_price: i128)
    requires
        v.consistent(),
        v.transfer_token(token_id, new_owner, sale_price) is Ok,
    ensures
        v.transfer_token(token_id, new_owner, sale_price)->Ok_0.0.consistent(),
{
    let (w, split) = v.transfer_token(token_id, new_owner, sale_price)->Ok_0;
    let token = v.tokens[token_id];
    let seller = token.owner;
    let b0 = token.book_id;
    let lists = v.token_lists.insert(seller, without(v.tokens_of(seller), token_id));
    let received = list_or_empty(lists, new_owner);
    assert(w.token_lists == lists.insert(new_owner, received.push(token_id)));
    assert forall|t: u64| #[trigger] w.tokens.contains_key(t) <==> t < w.total_tokens() by {
        assert(v.tokens.contains_key(t) <==> t < v.total_tokens());
    }
    assert forall|t: u64| #[trigger] w.tokens.contains_key(t) implies w.tokens[t].id == t
        && w.tokens[t].book_id < w.total_books() by {
        assert(v.tokens.contains_key(t));
    }
    lemma_without(v.tokens_of(seller), token_id);
    assert(v.tokens_of(seller).no_duplicates());
    assert forall|x: u64| #[trigger] received.contains(x) <==> (v.tokens.contains_key(x)
        && v.tokens[x].owner == new_owner && x != token_id) by {
        assert(v.tokens_of(new_owner).contains(x) <==> (v.tokens.contains_key(x)
            && v.tokens[x].owner == new_owner));
        assert(v.tokens_of(seller).contains(x) <==> (v.tokens.contains_key(x)
            && v.tokens[x].owner == seller));
        if new_owner == seller {
            assert(received == without(v.tokens_of(seller), token_id));
        } else {
            assert(received == v.tokens_of(new_owner));
            assert(v.tokens[token_id].owner == seller);
        }
    }
    assert(received.no_duplicates()) by {
        assert(v.tokens_of(new_owner).no_duplicates());
        if new_owner != seller {
            assert(received == v.tokens_of(new_owner));
        }
    }
    assert(!received.contains(token_id));
    lemma_push_contains(received, token_id);
    assert forall|a: Seq<char>, t: u64| #[trigger] w.tokens_of(a).contains(t) <==> (
    w.tokens.contains_key(t) && w.tokens[t].owner == a) by {
        assert(v.tokens_of(a).contains(t) <==> (v.tokens.contains_key(t) && v.tokens[t].owner
            == a));
        assert(v.tokens_of(a).contains(token_id) <==> (v.tokens.contains_key(token_id)
            && v.tokens[token_id].owner == a));
        if a == new_owner {
            assert(w.tokens_of(a) == received.push(token_id));
            assert(received.contains(t) <==> (v.tokens.contains_key(t) && v.tokens[t].owner
                == new_owner && t != token_id));
        } else if a == seller {
            assert(w.tokens_of(a) == without(v.tokens_of(seller), token_id));
        } else {
            assert(w.tokens_of(a) == v.tokens_of(a));
        }
    }
    assert forall|a: Seq<char>| #[trigger] w.tokens_of(a).no_duplicates() by {
        assert(v.tokens_of(a).no_duplicates());
        if a == new_owner {
            assert(w.tokens_of(a) == received.push(token_id));
        } else if a == seller {
            assert(w.tokens_of(a) == without(v.tokens_of(seller), token_id));
        } else {
            assert(w.tokens_of(a) == v.tokens_of(a));
        }
    }
    assert forall|a: Seq<char>, b: u64| #[trigger] w.owns_book(a, b) <==> w.holds_copy(a, b) by {
        assert(v.owns_book(a, b) <==> v.holds_copy(a, b));
        if a == new_owner && b == b0 {
            assert(w.tokens[token_id].owner == a && w.tokens[token_id].book_id == b);
        } else if a == seller && b == b0 {
            if v.holds_other_copy(seller, b0, token_id) {
                let t = choose|t: u64|
                    #![trigger v.tokens[t]]
                    v.tokens.contains_key(t) && t != token_id && v.tokens[t].owner == seller
                        && v.tokens[t].book_id == b0;
                assert(w.tokens[t] == v.tokens[t]);
            }
            if w.holds_copy(a, b) {
                let t = choose|t: u64|
                    #![trigger w.tokens[t]]
                    w.tokens.contains_key(t) && w.tokens[t].owner == a && w.tokens[t].book_id == b;
                assert(t != token_id);
                assert(w.tokens[t] == v.tokens[t]);
            }
        } else {
            if v.holds_copy(a, b) {
                let t = choose|t: u64|
                    #![trigger v.tokens[t]]
                    v.tokens.contains_key(t) && v.tokens[t].owner == a && v.tokens[t].book_id == b;
                assert(t != token_id);
                assert(w.tokens[t] == v.tokens[t]);
            }
            if w.holds_copy(a, b) {
                let t = choose|t: u64|
                    #![trigger w.tokens[t]]
                    w.tokens.contains_key(t) && w.tokens[t].owner == a && w.tokens[t].book_id == b;
                assert(t != token_id);
                assert(w.tokens[t] == v.tokens[t]);
            }
        }
    }
}

/// Every invocation keeps the storage consistent: a successful one leads
/// from a consistent storage to a consistent one, and a refused one
/// changes nothing.
pub proof fn operations_keep_consistency(v: LedgerView, op: Operation)
    requires
        v.consistent(),
    ensures
        v.step(op).consistent(),
{
    if v.apply(op) is Ok {
        match op {
            Operation::Initialise { platform, fee_bps } => {
                lemma_initialise_keeps(v, platform, fee_bps);
            },
            Operation::RegisterBook { publisher, price, royalty_bps, arweave_tx_id, title } => {
                lemma_register_keeps(v, publisher, price, royalty_bps, arweave_tx_id, title);
            },
            Operation::UpdateArweaveTx { publisher, book_id, arweave_tx_id } => {
                let w = v.update_arweave_tx(publisher, book_id, arweave_tx_id)->Ok_0;
                assert(w.books.dom() =~= v.books.dom());
                lemma_book_edit_keeps(v, w, book_id);
            },
            Operation::DeactivateBook { caller, book_id } => {
                let w = v.deactivate_book(caller, book_id)->Ok_0;
                assert(w.books.dom() =~= v.books.dom());
                lemma_book_edit_keeps(v, w, book_id);
            },
            Operation::Purchase { buyer, book_id, ledger_sequence } => {
                lemma_purchase_keeps(v, buyer, book_id, ledger_sequence);
            },
            Operation::TransferToken { token_id, new_owner, sale_price } => {
                lemma_transfer_keeps(v, token_id, new_owner, sale_price);
            },
        }
    }
}

} // verus!
