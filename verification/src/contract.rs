//! The executable contract: its storage and one method per entry point.
//! Each method changes the storage exactly as the state machine in
//! `model` says, and leaves it untouched when it refuses.
use vstd::prelude::*;
use crate::assoc::{
    assoc_map,
    has_key,
    keys_distinct,
    lemma_assoc_empty,
    lemma_assoc_lookup,
    lemma_assoc_push,
    lemma_assoc_update,
};
use crate::fees::{primary_split, sale_split, DEFAULT_PLATFORM_FEE_BPS, MAX_PLATFORM_FEE_BPS, MAX_ROYALTY_BPS};
use crate::model::{without, LedgerView};
use crate::types::{copy_vec, optional_address_view, Address, Book, BookView, ContractError, PrimarySplit, SaleSplit, Token, TokenView};

verus! {

/// The ownership record of one wallet for one book.
struct Holding {
    owner: Address,
    book_id: u64,
    owned: bool,
}

/// The token identifiers listed for one wallet.
struct TokenList {
    owner: Address,
    token_ids: Vec<u64>,
}

spec fn book_key() -> spec_fn(Book) -> u64 {
    |b: Book| b.id
}

spec fn book_val() -> spec_fn(Book) -> BookView {
    |b: Book| b@
}

spec fn token_key() -> spec_fn(Token) -> u64 {
    |t: Token| t.id
}

spec fn token_val() -> spec_fn(Token) -> TokenView {
    |t: Token| t@
}

spec fn holding_key() -> spec_fn(Holding) -> (Seq<char>, u64) {
    |h: Holding| (h.owner@, h.book_id)
}

spec fn holding_val() -> spec_fn(Holding) -> bool {
    |h: Holding| h.owned
}

spec fn list_key() -> spec_fn(TokenList) -> Seq<char> {
    |l: TokenList| l.owner@
}

spec fn list_val() -> spec_fn(TokenList) -> Seq<u64> {
    |l: TokenList| l.token_ids@
}

/// The storage of the Knowdly book contract, with one method per entry
/// point of the contract.
pub struct KnowdlyBookContract {
    platform: Option<Address>,
    platform_fee_bps: Option<u32>,
    next_book_id: Option<u64>,
    next_token_id: Option<u64>,
    books: Vec<Book>,
    tokens: Vec<Token>,
    holdings: Vec<Holding>,
    token_lists: Vec<TokenList>,
}

impl View for KnowdlyBookContract {
    type V = LedgerView;

    closed spec fn view(&self) -> LedgerView {
        LedgerView {
            platform: optional_address_view(self.platform),
            platform_fee_bps: self.platform_fee_bps,
            next_book_id: self.next_book_id,
            next_token_id: self.next_token_id,
            books: assoc_map(self.books@, book_key(), book_val()),
            tokens: assoc_map(self.tokens@, token_key(), token_val()),
            holdings: assoc_map(self.holdings@, holding_key(), holding_val()),
            token_lists: assoc_map(self.token_lists@, list_key(), list_val()),
        }
    }
}

/// `ids` without any occurrence of `token_id`, order kept.
fn without_id(ids: &Vec<u64>, token_id: u64) -> (r: Vec<u64>)
    ensures
        r@ == without(ids@, token_id),
{
    let mut r: Vec<u64> = Vec::new();
    let mut i: usize = 0;
    while i < ids.len()
        invariant
            i <= ids.len(),
            r@ == without(ids@.take(i as int), token_id),
        decreases ids.len() - i,
    {
        proof {
            reveal_with_fuel(Seq::<u64>::filter, 1);
            assert(ids@.take(i + 1).drop_last() =~= ids@.take(i as int));
        }
        if ids[i] != token_id {
            r.push(ids[i]);
        }
        i += 1;
    }
    assert(ids@.take(ids.len() as int) =~= ids@);
    r
}

impl KnowdlyBookContract {
    /// Every kind of storage entry has at most one entry per key.
    pub closed spec fn wf(&self) -> bool {
        &&& keys_distinct(self.books@, book_key())
        &&& keys_distinct(self.tokens@, token_key())
        &&& keys_distinct(self.holdings@, holding_key())
        &&& keys_distinct(self.token_lists@, list_key())
    }

    /// The storage of a freshly deployed contract: nothing stored.
    pub fn new() -> (r: KnowdlyBookContract)
        ensures
            r.wf(),
            r@ == LedgerView::empty(),
    {
        let r = KnowdlyBookContract {
            platform: None,
            platform_fee_bps: None,
            next_book_id: None,
            next_token_id: None,
            books: Vec::new(),
            tokens: Vec::new(),
            holdings: Vec::new(),
            token_lists: Vec::new(),
        };
        proof {
            lemma_assoc_empty(r.books@, book_key(), book_val());
            lemma_assoc_empty(r.tokens@, token_key(), token_val());
            lemma_assoc_empty(r.holdings@, holding_key(), holding_val());
            lemma_assoc_empty(r.token_lists@, list_key(), list_val());
        }
        r
    }

    // ── lookups ────────────────────────────────────────────────────────────
    fn find_book(&self, id: u64) -> (r: Option<usize>)
        ensures
            match r {
                Some(i) => i < self.books.len() && self.books@[i as int].id == id,
                None => !has_key(self.books@, book_key(), id),
            },
    {
        let mut i: usize = 0;
        while i < self.books.len()
            invariant
                i <= self.books.len(),
                forall|j: int| 0 <= j < i ==> self.books@[j].id != id,
            decreases self.books.len() - i,
        {
            if self.books[i].id == id {
                return Some(i);
            }
            i += 1;
        }
        None
    }

    fn find_token(&self, id: u64) -> (r: Option<usize>)
        ensures
            match r {
                Some(i) => i < self.tokens.len() && self.tokens@[i as int].id == id,
                None => !has_key(self.tokens@, token_key(), id),
            },
    {
        let mut i: usize = 0;
        while i < self.tokens.len()
            invariant
                i <= self.tokens.len(),
                forall|j: int| 0 <= j < i ==> self.tokens@[j].id != id,
            decreases self.tokens.len() - i,
        {
            if self.tokens[i].id == id {
                return Some(i);
            }
            i += 1;
        }
        None
    }

    fn find_holding(&self, owner: &Address, book_id: u64) -> (r: Option<usize>)
        ensures
            match r {
                Some(i) => i < self.holdings.len() && self.holdings@[i as int].owner@ == owner@
                    && self.holdings@[i as int].book_id == book_id,
                None => !has_key(self.holdings@, holding_key(), (owner@, book_id)),
            },
    {
        let mut i: usize = 0;
        while i < self.holdings.len()
            invariant
                i <= self.holdings.len(),
                forall|j: int|
                    0 <= j < i ==> #[trigger] holding_key()(self.holdings@[j]) != (owner@, book_id),
            decreases self.holdings.len() - i,
        {
            if self.holdings[i].book_id == book_id && self.holdings[i].owner == *owner {
                return Some(i);
            }
            i += 1;
        }
        None
    }

    fn find_list(&self, owner: &Address) -> (r: Option<usize>)
        ensures
            match r {
                Some(i) => i < self.token_lists.len() && self.token_lists@[i as int].owner@
                    == owner@,
                None => !has_key(self.token_lists@, list_key(), owner@),
            },
    {
        let mut i: usize = 0;
        while i < self.token_lists.len()
            invariant
                i <= self.token_lists.len(),
                forall|j: int| 0 <= j < i ==> self.token_lists@[j].owner@ != owner@,
            decreases self.token_lists.len() - i,
        {
            if self.token_lists[i].owner == *owner {
                return Some(i);
            }
            i += 1;
        }
        None
    }

    // ── storage entries ────────────────────────────────────────────────────
    /// Writes the entry of `book` under its identifier, replacing any entry
    /// there.
    pub fn store_book(&mut self, book: Book)
        requires
            old(self).wf(),
        ensures
            final(self).wf(),
            final(self)@ == (LedgerView { books: old(self)@.books.insert(book.id, book@), ..old(self)@ }),
    {
        let ghost s = self.books@;
        match self.find_book(book.id) {
            Some(i) => {
                proof {
                    lemma_assoc_update(s, book_key(), book_val(), i as int, book);
                }
                self.books.set(i, book);
            },
            None => {
                proof {
                    lemma_assoc_push(s, book_key(), book_val(), book);
                }
                self.books.push(book);
            },
        }
    }

    /// Writes the entry of `token` under its identifier, replacing any entry
    /// there.
    pub fn store_token(&mut self, token: Token)
        requires
            old(self).wf(),
        ensures
            final(self).wf(),
            final(self)@ == (LedgerView {
                tokens: old(self)@.tokens.insert(token.id, token@),
                ..old(self)@
            }),
    {
        let ghost s = self.tokens@;
        match self.find_token(token.id) {
            Some(i) => {
                proof {
                    lemma_assoc_update(s, token_key(), token_val(), i as int, token);
                }
                self.tokens.set(i, token);
            },
            None => {
                proof {
                    lemma_assoc_push(s, token_key(), token_val(), token);
                }
                self.tokens.push(token);
            },
        }
    }

    /// Writes the ownership record of `owner` for `book_id`.
    pub fn store_holding(&mut self, owner: &Address, book_id: u64, owned: bool)
        requires
            old(self).wf(),
        ensures
            final(self).wf(),
            final(self)@ == (LedgerView {
                holdings: old(self)@.holdings.insert((owner@, book_id), owned),
                ..old(self)@
            }),
    {
        let ghost s = self.holdings@;
        let record = Holding { owner: owner.duplicate(), book_id, owned };
        assert(holding_key()(record) == (owner@, book_id));
        match self.find_holding(owner, book_id) {
            Some(i) => {
                proof {
                    lemma_assoc_update(s, holding_key(), holding_val(), i as int, record);
                }
                self.holdings.set(i, record);
            },
            None => {
                proof {
                    lemma_assoc_push(s, holding_key(), holding_val(), record);
                }
                self.holdings.push(record);
            },
        }
    }

    /// Writes the token list of `owner`.
    pub fn store_list(&mut self, owner: &Address, token_ids: Vec<u64>)
        requires
            old(self).wf(),
        ensures
            final(self).wf(),
            final(self)@ == (LedgerView {
                token_lists: old(self)@.token_lists.insert(owner@, token_ids@),
                ..old(self)@
            }),
    {
        let ghost s = self.token_lists@;
        let ghost ids = token_ids@;
        let record = TokenList { owner: owner.duplicate(), token_ids };
        assert(list_key()(record) == owner@);
        assert(list_val()(record) == ids);
        match self.find_list(owner) {
            Some(i) => {
                proof {
                    lemma_assoc_update(s, list_key(), list_val(), i as int, record);
                }
                self.token_lists.set(i, record);
            },
            None => {
                proof {
                    lemma_assoc_push(s, list_key(), list_val(), record);
                }
                self.token_lists.push(record);
            },
        }
    }

    /// Writes the instance entries: platform wallet, platform fee and the
    /// two counters.
    pub fn store_instance(
        &mut self,
        platform: Option<Address>,
        platform_fee_bps: Option<u32>,
        next_book_id: Option<u64>,
        next_token_id: Option<u64>,
    )
        requires
            old(self).wf(),
        ensures
            final(self).wf(),
            final(self)@ == (LedgerView {
                platform: optional_address_view(platform),
                platform_fee_bps,
                next_book_id,
                next_token_id,
                ..old(self)@
            }),
    {
        self.platform = platform;
        self.platform_fee_bps = platform_fee_bps;
        self.next_book_id = next_book_id;
        self.next_token_id = next_token_id;
    }

    /// The platform wallet set at initialisation.
    pub fn platform(&self) -> (r: Option<Address>)
        ensures
            optional_address_view(r) == self@.platform,
    {
        match &self.platform {
            Some(a) => Some(a.duplicate()),
            None => None,
        }
    }

    /// The platform fee set at initialisation.
    pub fn platform_fee_bps(&self) -> (r: Option<u32>)
        ensures
            r == self@.platform_fee_bps,
    {
        self.platform_fee_bps
    }

    // ── read entry points ──────────────────────────────────────────────────
    /// Whether `owner` holds the ownership record that grants access to
    /// `book_id`; false where no record exists. The key server asks this
    /// before releasing a decryption key.
    pub fn owns_book(&self, owner: &Address, book_id: u64) -> (r: bool)
        requires
            self.wf(),
        ensures
            r == self@.owns_book(owner@, book_id),
    {
        match self.find_holding(owner, book_id) {
            Some(i) => {
                proof {
                    lemma_assoc_lookup(self.holdings@, holding_key(), holding_val(), i as int);
                }
                self.holdings[i].owned
            },
            None => false,
        }
    }

    /// The token identifiers listed for `owner`, in order of arrival; empty
    /// where none were ever listed.
    pub fn get_tokens_by_owner(&self, owner: &Address) -> (r: Vec<u64>)
        requires
            self.wf(),
        ensures
            r@ == self@.tokens_of(owner@),
    {
        match self.find_list(owner) {
            Some(i) => {
                proof {
                    lemma_assoc_lookup(self.token_lists@, list_key(), list_val(), i as int);
                }
                copy_vec(&self.token_lists[i].token_ids)
            },
            None => Vec::new(),
        }
    }

    /// The book stored under `book_id`.
    pub fn get_book(&self, book_id: u64) -> (r: Result<Book, ContractError>)
        requires
            self.wf(),
        ensures
            match r {
                Ok(book) => self@.books.contains_key(book_id) && book@ == self@.books[book_id],
                Err(e) => !self@.books.contains_key(book_id) && e == ContractError::BookNotFound,
            },
    {
        match self.find_book(book_id) {
            Some(i) => {
                proof {
                    lemma_assoc_lookup(self.books@, book_key(), book_val(), i as int);
                }
                Ok(self.books[i].duplicate())
            },
            None => Err(ContractError::BookNotFound),
        }
    }

    /// The token stored under `token_id`.
    pub fn get_token(&self, token_id: u64) -> (r: Result<Token, ContractError>)
        requires
            self.wf(),
        ensures
            match r {
                Ok(token) => self@.tokens.contains_key(token_id) && token@
                    == self@.tokens[token_id],
                Err(e) => !self@.tokens.contains_key(token_id) && e
                    == ContractError::TokenNotFound,
            },
    {
        match self.find_token(token_id) {
            Some(i) => {
                proof {
                    lemma_assoc_lookup(self.tokens@, token_key(), token_val(), i as int);
                }
                Ok(self.tokens[i].duplicate())
            },
            None => Err(ContractError::TokenNotFound),
        }
    }

    /// How a purchase of book `book_id` is paid: the platform fee in force
    /// (2.5% before initialisation) of the book's price goes to the
    /// platform treasury, the rest to the creator.
    pub fn purchase_payment(&self, book_id: u64) -> (r: Result<PrimarySplit, ContractError>)
        requires
            self.wf(),
        ensures
            r == self@.purchase_payment(book_id),
    {
        match self.find_book(book_id) {
            None => Err(ContractError::BookNotFound),
            Some(i) => {
                proof {
                    lemma_assoc_lookup(self.books@, book_key(), book_val(), i as int);
                }
                let fee_bps = match self.platform_fee_bps {
                    Some(f) => f,
                    None => DEFAULT_PLATFORM_FEE_BPS,
                };
                primary_split(self.books[i].price, fee_bps)
            },
        }
    }

    /// The wallet whose authorisation a resale of token `token_id` needs:
    /// the token's current owner.
    pub fn resale_authoriser(&self, token_id: u64) -> (r: Result<Address, ContractError>)
        requires
            self.wf(),
        ensures
            match self@.resale_authoriser(token_id) {
                Ok(owner) => r matches Ok(a) && a@ == owner,
                Err(e) => r == Err::<Address, ContractError>(e),
            },
    {
        match self.find_token(token_id) {
            None => Err(ContractError::TokenNotFound),
            Some(i) => {
                proof {
                    lemma_assoc_lookup(self.tokens@, token_key(), token_val(), i as int);
                }
                Ok(self.tokens[i].owner.duplicate())
            },
        }
    }

    /// Number of books registered.
    pub fn get_total_books(&self) -> (r: u64)
        ensures
            r == self@.total_books(),
    {
        match self.next_book_id {
            Some(n) => n,
            None => 0,
        }
    }

    /// Number of tokens minted.
    pub fn get_total_tokens(&self) -> (r: u64)
        ensures
            r == self@.total_tokens(),
    {
        match self.next_token_id {
            Some(n) => n,
            None => 0,
        }
    }

    // ── entry points that change storage ──────────────────────────────────
    /// Sets the platform wallet (the admin) and the fee rate, once: a second
    /// call is refused, and so is a fee above 10%. The book and token
    /// counters are set to their current values (zero at deployment).
    pub fn initialise(&mut self, platform: Address, fee_bps: u32) -> (r: Result<(), ContractError>)
        requires
            old(self).wf(),
        ensures
            final(self).wf(),
            match old(self)@.initialise(platform@, fee_bps) {
                Ok(v) => r is Ok && final(self)@ == v,
                Err(e) => r == Err::<(), ContractError>(e) && final(self)@ == old(self)@,
            },
    {
        if self.platform.is_some() {
            return Err(ContractError::AlreadyInitialised);
        }
        if fee_bps > MAX_PLATFORM_FEE_BPS {
            return Err(ContractError::PlatformFeeTooHigh);
        }
        let books = self.get_total_books();
        let tokens = self.get_total_tokens();
        self.platform = Some(platform);
        self.platform_fee_bps = Some(fee_bps);
        self.next_book_id = Some(books);
        self.next_token_id = Some(tokens);
        Ok(())
    }

    /// Registers a book by `publisher` and gives its identifier: the book is
    /// stored active, with no sales, under the next book identifier, and the
    /// counter advances. A price that is not positive or a royalty above 50%
    /// is refused.
    pub fn register_book(
        &mut self,
        publisher: Address,
        price: i128,
        royalty_bps: u32,
        arweave_tx_id: Vec<u8>,
        title: Vec<u8>,
    ) -> (r: Result<u64, ContractError>)
        requires
            old(self).wf(),
        ensures
            final(self).wf(),
            match old(self)@.register_book(publisher@, price, royalty_bps, arweave_tx_id@, title@) {
                Ok((v, id)) => r == Ok::<u64, ContractError>(id) && final(self)@ == v,
                Err(e) => r == Err::<u64, ContractError>(e) && final(self)@ == old(self)@,
            },
    {
        if price <= 0 {
            return Err(ContractError::PriceNotPositive);
        }
        if royalty_bps > MAX_ROYALTY_BPS {
            return Err(ContractError::RoyaltyTooHigh);
        }
        let book_id = self.get_total_books();
        if book_id == u64::MAX {
            return Err(ContractError::ArithmeticOverflow);
        }
        let book = Book {
            id: book_id,
            publisher,
            price,
            royalty_bps,
            arweave_tx_id,
            title,
            active: true,
            total_sales: 0,
        };
        self.store_book(book);
        self.next_book_id = Some(book_id + 1);
        Ok(book_id)
    }

    /// The position of book `book_id` when `publisher` created it.
    fn find_creators_book(&self, publisher: &Address, book_id: u64) -> (r: Result<usize, ContractError>)
        requires
            self.wf(),
        ensures
            match self@.creators_book(publisher@, book_id) {
                Ok(b) => r matches Ok(i) && i < self.books.len() && self.books@[i as int].id == book_id
                    && self.books@[i as int]@ == b,
                Err(e) => r == Err::<usize, ContractError>(e),
            },
    {
        match self.find_book(book_id) {
            None => Err(ContractError::BookNotFound),
            Some(i) => {
                proof {
                    lemma_assoc_lookup(self.books@, book_key(), book_val(), i as int);
                }
                if self.books[i].publisher != *publisher {
                    Err(ContractError::NotCreator)
                } else {
                    Ok(i)
                }
            },
        }
    }

    /// Replaces the Arweave transaction of book `book_id` once its content
    /// is uploaded. Only the book's creator may.
    pub fn update_arweave_tx(&mut self, publisher: &Address, book_id: u64, arweave_tx_id: Vec<u8>) -> (r:
        Result<(), ContractError>)
        requires
            old(self).wf(),
        ensures
            final(self).wf(),
            match old(self)@.update_arweave_tx(publisher@, book_id, arweave_tx_id@) {
                Ok(v) => r is Ok && final(self)@ == v,
                Err(e) => r == Err::<(), ContractError>(e) && final(self)@ == old(self)@,
            },
    {
        let i = match self.find_creators_book(publisher, book_id) {
            Ok(i) => i,
            Err(e) => {
                return Err(e);
            },
        };
        let mut book = self.books[i].duplicate();
        book.arweave_tx_id = arweave_tx_id;
        self.store_book(book);
        Ok(())
    }

    /// Stops new purchases of book `book_id`; tokens already minted are not
    /// affected. Only the book's creator or the platform admin may.
    pub fn deactivate_book(&mut self, caller: &Address, book_id: u64) -> (r: Result<
        (),
        ContractError,
    >)
        requires
            old(self).wf(),
        ensures
            final(self).wf(),
            match old(self)@.deactivate_book(caller@, book_id) {
                Ok(v) => r is Ok && final(self)@ == v,
                Err(e) => r == Err::<(), ContractError>(e) && final(self)@ == old(self)@,
            },
    {
        let i = match self.find_book(book_id) {
            Some(i) => i,
            None => {
                return Err(ContractError::BookNotFound);
            },
        };
        proof {
            lemma_assoc_lookup(self.books@, book_key(), book_val(), i as int);
        }
        let is_admin = match &self.platform {
            Some(p) => *p == *caller,
            None => false,
        };
        if self.books[i].publisher != *caller && !is_admin {
            return Err(ContractError::NotCreator);
        }
        let mut book = self.books[i].duplicate();
        book.active = false;
        self.store_book(book);
        Ok(())
    }

    /// Whether `owner` holds a token of book `book_id` other than `except`.
    fn holds_other_copy(&self, owner: &Address, book_id: u64, except: u64) -> (r: bool)
        requires
            self.wf(),
        ensures
            r == self@.holds_other_copy(owner@, book_id, except),
    {
        let mut i: usize = 0;
        while i < self.tokens.len()
            invariant
                self.wf(),
                i <= self.tokens.len(),
                forall|j: int|
                    0 <= j < i ==> !(self.tokens@[j].id != except && self.tokens@[j].owner@
                        == owner@ && self.tokens@[j].book_id == book_id),
            decreases self.tokens.len() - i,
        {
            let t = &self.tokens[i];
            if t.id != except && t.book_id == book_id && t.owner == *owner {
                proof {
                    lemma_assoc_lookup(self.tokens@, token_key(), token_val(), i as int);
                    assert(self@.tokens[t.id] == t@);
                }
                return true;
            }
            i += 1;
        }
        proof {
            let m = self@.tokens;
            assert forall|u: u64|
                #![trigger m[u]]
                !(m.contains_key(u) && u != except && m[u].owner == owner@ && m[u].book_id
                    == book_id) by {
                if m.contains_key(u) {
                    let j = choose|j: int|
                        0 <= j < self.tokens@.len() && #[trigger] token_key()(self.tokens@[j]) == u;
                    lemma_assoc_lookup(self.tokens@, token_key(), token_val(), j);
                }
            }
        }
        false
    }

    /// Sells a copy of book `book_id` to `buyer` and gives the new token's
    /// identifier. The token is minted at the book's price and stamped with
    /// `ledger_sequence`; the buyer's ownership record is set, the token is
    /// appended to the buyer's list, the token counter advances and the
    /// book counts one more sale. A missing or inactive book, or a buyer
    /// who already owns the book, is refused.
    pub fn purchase(&mut self, buyer: &Address, book_id: u64, ledger_sequence: u32) -> (r: Result<
        u64,
        ContractError,
    >)
        requires
            old(self).wf(),
        ensures
            final(self).wf(),
            match old(self)@.purchase(buyer@, book_id, ledger_sequence) {
                Ok((v, id)) => r == Ok::<u64, ContractError>(id) && final(self)@ == v,
                Err(e) => r == Err::<u64, ContractError>(e) && final(self)@ == old(self)@,
            },
    {
        let i = match self.find_book(book_id) {
            Some(i) => i,
            None => {
                return Err(ContractError::BookNotFound);
            },
        };
        proof {
            lemma_assoc_lookup(self.books@, book_key(), book_val(), i as int);
        }
        if !self.books[i].active {
            return Err(ContractError::BookInactive);
        }
        if self.owns_book(buyer, book_id) {
            return Err(ContractError::AlreadyOwned);
        }
        let token_id = self.get_total_tokens();
        if token_id == u64::MAX || self.books[i].total_sales == u64::MAX {
            return Err(ContractError::ArithmeticOverflow);
        }
        let mut book = self.books[i].duplicate();
        let token = Token {
            id: token_id,
            book_id,
            owner: buyer.duplicate(),
            minted_at: ledger_sequence,
            purchase_price: book.price,
        };
        self.store_token(token);
        self.store_holding(buyer, book_id, true);
        let mut listed = self.get_tokens_by_owner(buyer);
        listed.push(token_id);
        self.store_list(buyer, listed);
        self.next_token_id = Some(token_id + 1);
        book.total_sales = book.total_sales + 1;
        self.store_book(book);
        Ok(token_id)
    }

    /// Resells token `token_id` to `new_owner` at `sale_price` and gives how
    /// the price is split between the book's creator (its royalty), the
    /// platform (its fee, 2.5% before initialisation) and the seller. The
    /// seller's ownership record keeps granting access only while the seller
    /// holds another token of the book, the buyer's is set, the token
    /// leaves the seller's list and is appended to the buyer's, and the
    /// token records its new owner and price. A missing token or book, or a
    /// price that does not cover royalty and fee, is refused.
    pub fn transfer_token(&mut self, token_id: u64, new_owner: &Address, sale_price: i128) -> (r:
        Result<SaleSplit, ContractError>)
        requires
            old(self).wf(),
        ensures
            final(self).wf(),
            match old(self)@.transfer_token(token_id, new_owner@, sale_price) {
                Ok((v, split)) => r == Ok::<SaleSplit, ContractError>(split) && final(self)@ == v,
                Err(e) => r == Err::<SaleSplit, ContractError>(e) && final(self)@ == old(self)@,
            },
    {
        let ti = match self.find_token(token_id) {
            Some(ti) => ti,
            None => {
                return Err(ContractError::TokenNotFound);
            },
        };
        proof {
            lemma_assoc_lookup(self.tokens@, token_key(), token_val(), ti as int);
        }
        let token = self.tokens[ti].duplicate();
        let bi = match self.find_book(token.book_id) {
            Some(bi) => bi,
            None => {
                return Err(ContractError::BookNotFound);
            },
        };
        proof {
            lemma_assoc_lookup(self.books@, book_key(), book_val(), bi as int);
        }
        let fee_bps = match self.platform_fee_bps {
            Some(f) => f,
            None => DEFAULT_PLATFORM_FEE_BPS,
        };
        let split = match sale_split(sale_price, self.books[bi].royalty_bps, fee_bps) {
            Ok(split) => split,
            Err(e) => {
                return Err(e);
            },
        };
        let seller = token.owner.duplicate();
        let still_holds = self.holds_other_copy(&seller, token.book_id, token_id);
        self.store_holding(&seller, token.book_id, still_holds);
        self.store_holding(new_owner, token.book_id, true);
        let listed = self.get_tokens_by_owner(&seller);
        let kept = without_id(&listed, token_id);
        self.store_list(&seller, kept);
        let mut received = self.get_tokens_by_owner(new_owner);
        received.push(token_id);
        self.store_list(new_owner, received);
        let moved = Token {
            id: token.id,
            book_id: token.book_id,
            owner: new_owner.duplicate(),
            minted_at: token.minted_at,
            purchase_price: sale_price,
        };
        self.store_token(moved);
        Ok(split)
    }
}

} // verus!
