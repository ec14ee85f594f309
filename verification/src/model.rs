//! The contract's storage as mathematical values, and what each invocation
//! does to it: the state machine that the executable contract implements.
use vstd::prelude::*;
use crate::types::{BookView, TokenView, ContractError, PrimarySplit, SaleSplit};
use crate::fees::{spec_primary_split, spec_sale_split, MAX_PLATFORM_FEE_BPS, MAX_ROYALTY_BPS, DEFAULT_PLATFORM_FEE_BPS};

verus! {

/// Everything the contract keeps in storage. Wallets are named by their
/// strkey text.
pub struct LedgerView {
    /// The platform wallet set at initialisation.
    pub platform: Option<Seq<char>>,
    /// The platform fee in basis points set at initialisation.
    pub platform_fee_bps: Option<u32>,
    /// The identifier the next registered book receives.
    pub next_book_id: Option<u64>,
    /// The identifier the next minted token receives.
    pub next_token_id: Option<u64>,
    /// Books by identifier.
    pub books: Map<u64, BookView>,
    /// Tokens by identifier.
    pub tokens: Map<u64, TokenView>,
    /// Ownership records, by wallet and book: whether the wallet may read
    /// the book.
    pub holdings: Map<(Seq<char>, u64), bool>,
    /// The token identifiers listed for each wallet, in order of arrival.
    pub token_lists: Map<Seq<char>, Seq<u64>>,
}

/// The value of an optional counter, zero where it was never set.
pub open spec fn counter_or_zero(c: Option<u64>) -> u64 {
    match c {
        Some(v) => v,
        None => 0,
    }
}

/// The list stored for `owner` in `lists`, empty where there is none.
pub open spec fn list_or_empty(lists: Map<Seq<char>, Seq<u64>>, owner: Seq<char>) -> Seq<u64> {
    if lists.contains_key(owner) {
        lists[owner]
    } else {
        Seq::empty()
    }
}

/// `ids` without any occurrence of `token_id`, order kept.
pub open spec fn without(ids: Seq<u64>, token_id: u64) -> Seq<u64> {
    ids.filter(|x: u64| x != token_id)
}

impl LedgerView {
    /// Storage of a freshly deployed contract.
    pub open spec fn empty() -> LedgerView {
        LedgerView {
            platform: None,
            platform_fee_bps: None,
            next_book_id: None,
            next_token_id: None,
            books: Map::empty(),
            tokens: Map::empty(),
            holdings: Map::empty(),
            token_lists: Map::empty(),
        }
    }

    /// Number of books registered.
    pub open spec fn total_books(self) -> u64 {
        counter_or_zero(self.next_book_id)
    }

    /// Number of tokens minted.
    pub open spec fn total_tokens(self) -> u64 {
        counter_or_zero(self.next_token_id)
    }

    /// The platform fee applied to resales: the configured one, or 2.5%.
    pub open spec fn fee_bps(self) -> u32 {
        match self.platform_fee_bps {
            Some(f) => f,
            None => DEFAULT_PLATFORM_FEE_BPS,
        }
    }

    /// Whether `owner`'s ownership record for `book_id` grants access.
    pub open spec fn owns_book(self, owner: Seq<char>, book_id: u64) -> bool {
        self.holdings.contains_key((owner, book_id)) && self.holdings[(owner, book_id)]
    }

    /// `owner` holds some token of book `book_id`.
    pub open spec fn holds_copy(self, owner: Seq<char>, book_id: u64) -> bool {
        exists|t: u64|
            #![trigger self.tokens[t]]
            self.tokens.contains_key(t) && self.tokens[t].owner == owner && self.tokens[t].book_id
                == book_id
    }

    /// `owner` holds a token of book `book_id` other than `except`.
    pub open spec fn holds_other_copy(self, owner: Seq<char>, book_id: u64, except: u64) -> bool {
        exists|t: u64|
            #![trigger self.tokens[t]]
            self.tokens.contains_key(t) && t != except && self.tokens[t].owner == owner
                && self.tokens[t].book_id == book_id
    }

    /// The token identifiers listed for `owner`.
    pub open spec fn tokens_of(self, owner: Seq<char>) -> Seq<u64> {
        list_or_empty(self.token_lists, owner)
    }

    /// How a purchase of book `book_id` at its price is paid: the platform
    /// fee in force goes to the platform treasury, the rest to the creator.
    pub open spec fn purchase_payment(self, book_id: u64) -> Result<PrimarySplit, ContractError> {
        if !self.books.contains_key(book_id) {
            Err(ContractError::BookNotFound)
        } else {
            spec_primary_split(self.books[book_id].price, self.fee_bps())
        }
    }

    /// The wallet whose authorisation a resale of token `token_id` needs:
    /// its current owner.
    pub open spec fn resale_authoriser(self, token_id: u64) -> Result<Seq<char>, ContractError> {
        if !self.tokens.contains_key(token_id) {
            Err(ContractError::TokenNotFound)
        } else {
            Ok(self.tokens[token_id].owner)
        }
    }

    /// Sets the platform wallet (the admin) and the platform fee, once: a
    /// contract that already has a platform wallet refuses, and so does a
    /// fee above 10%. Both counters are set to their current value, which is
    /// zero on a freshly deployed contract.
    pub open spec fn initialise(self, platform: Seq<char>, fee_bps: u32) -> Result<
        LedgerView,
        ContractError,
    > {
        if self.platform is Some {
            Err(ContractError::AlreadyInitialised)
        } else if fee_bps > MAX_PLATFORM_FEE_BPS {
            Err(ContractError::PlatformFeeTooHigh)
        } else {
            Ok(
                LedgerView {
                    platform: Some(platform),
                    platform_fee_bps: Some(fee_bps),
                    next_book_id: Some(self.total_books()),
                    next_token_id: Some(self.total_tokens()),
                    ..self
                },
            )
        }
    }

    /// Stores a new active book under the next book identifier and advances
    /// the counter; gives the identifier.
    pub open spec fn register_book(
        self,
        publisher: Seq<char>,
        price: i128,
        royalty_bps: u32,
        arweave_tx_id: Seq<u8>,
        title: Seq<u8>,
    ) -> Result<(LedgerView, u64), ContractError> {
        let id = self.total_books();
        if price <= 0 {
            Err(ContractError::PriceNotPositive)
        } else if royalty_bps > MAX_ROYALTY_BPS {
            Err(ContractError::RoyaltyTooHigh)
        } else if id == u64::MAX {
            Err(ContractError::ArithmeticOverflow)
        } else {
            let book = BookView {
                id,
                publisher,
                price,
                royalty_bps,
                arweave_tx_id,
                title,
                active: true,
                total_sales: 0,
            };
            Ok(
                (
                    LedgerView {
                        books: self.books.insert(id, book),
                        next_book_id: Some((id + 1) as u64),
                        ..self
                    },
                    id,
                ),
            )
        }
    }

    /// The book `book_id` when `publisher` created it, or why not.
    pub open spec fn creators_book(self, publisher: Seq<char>, book_id: u64) -> Result<
        BookView,
        ContractError,
    > {
        if !self.books.contains_key(book_id) {
            Err(ContractError::BookNotFound)
        } else if self.books[book_id].publisher != publisher {
            Err(ContractError::NotCreator)
        } else {
            Ok(self.books[book_id])
        }
    }

    /// Replaces the Arweave transaction of a book; only its creator may.
    pub open spec fn update_arweave_tx(
        self,
        publisher: Seq<char>,
        book_id: u64,
        arweave_tx_id: Seq<u8>,
    ) -> Result<LedgerView, ContractError> {
        match self.creators_book(publisher, book_id) {
            Err(e) => Err(e),
            Ok(book) => Ok(
                LedgerView {
                    books: self.books.insert(book_id, BookView { arweave_tx_id, ..book }),
                    ..self
                },
            ),
        }
    }

    /// Stops new purchases of a book; only its creator or the platform admin
    /// may.
    pub open spec fn deactivate_book(self, caller: Seq<char>, book_id: u64) -> Result<
        LedgerView,
        ContractError,
    > {
        if !self.books.contains_key(book_id) {
            Err(ContractError::BookNotFound)
        } else if self.books[book_id].publisher != caller && self.platform != Some(caller) {
            Err(ContractError::NotCreator)
        } else {
            let book = self.books[book_id];
            Ok(
                LedgerView { books: self.books.insert(book_id, BookView { active: false, ..book }), ..self },
            )
        }
    }

    /// Mints the next token for `buyer` at the book's price, records the
    /// ownership, appends the token to the buyer's list, advances the token
    /// counter and counts the sale; gives the token identifier.
    pub open spec fn purchase(self, buyer: Seq<char>, book_id: u64, ledger_sequence: u32) -> Result<
        (LedgerView, u64),
        ContractError,
    > {
        let token_id = self.total_tokens();
        if !self.books.contains_key(book_id) {
            Err(ContractError::BookNotFound)
        } else if !self.books[book_id].active {
            Err(ContractError::BookInactive)
        } else if self.owns_book(buyer, book_id) {
            Err(ContractError::AlreadyOwned)
        } else if token_id == u64::MAX || self.books[book_id].total_sales == u64::MAX {
            Err(ContractError::ArithmeticOverflow)
        } else {
            let book = self.books[book_id];
            let token = TokenView {
                id: token_id,
                book_id,
                owner: buyer,
                minted_at: ledger_sequence,
                purchase_price: book.price,
            };
            Ok(
                (
                    LedgerView {
                        tokens: self.tokens.insert(token_id, token),
                        holdings: self.holdings.insert((buyer, book_id), true),
                        token_lists: self.token_lists.insert(
                            buyer,
                            self.tokens_of(buyer).push(token_id),
                        ),
                        next_token_id: Some((token_id + 1) as u64),
                        books: self.books.insert(
                            book_id,
                            BookView { total_sales: (book.total_sales + 1) as u64, ..book },
                        ),
                        ..self
                    },
                    token_id,
                ),
            )
        }
    }

    /// Hands token `token_id` to `new_owner` at `sale_price`: the seller's
    /// ownership record keeps granting access only while the seller holds
    /// another token of the book, the buyer's is set, the token leaves the
    /// seller's list and is appended to the buyer's, and the token records
    /// its new owner and price. Gives the split of the price, which must
    /// cover the book's royalty and the platform fee.
    pub open spec fn transfer_token(self, token_id: u64, new_owner: Seq<char>, sale_price: i128) -> Result<
        (LedgerView, SaleSplit),
        ContractError,
    > {
        if !self.tokens.contains_key(token_id) {
            Err(ContractError::TokenNotFound)
        } else if !self.books.contains_key(self.tokens[token_id].book_id) {
            Err(ContractError::BookNotFound)
        } else {
            let token = self.tokens[token_id];
            let book = self.books[token.book_id];
            match spec_sale_split(sale_price, book.royalty_bps, self.fee_bps()) {
                Err(e) => Err(e),
                Ok(split) => {
                    let seller = token.owner;
                    let lists = self.token_lists.insert(
                        seller,
                        without(self.tokens_of(seller), token_id),
                    );
                    Ok(
                        (
                            LedgerView {
                                holdings: self.holdings.insert(
                                    (seller, token.book_id),
                                    self.holds_other_copy(seller, token.book_id, token_id),
                                ).insert(
                                    (new_owner, token.book_id),
                                    true,
                                ),
                                token_lists: lists.insert(
                                    new_owner,
                                    list_or_empty(lists, new_owner).push(token_id),
                                ),
                                tokens: self.tokens.insert(
                                    token_id,
                                    TokenView { owner: new_owner, purchase_price: sale_price, ..token },
                                ),
                                ..self
                            },
                            split,
                        ),
                    )
                },
            }
        }
    }
}

} // verus!
