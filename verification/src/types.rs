//! The values the contract stores and hands out: wallet addresses, books,
//! ownership tokens, the payment split of a resale, and the reasons an
//! invocation is refused.
use vstd::prelude::*;

verus! {

/// A Stellar address (an account `G...` or a contract `C...`), held by its
/// strkey text. Two addresses are the same wallet exactly when their strkeys
/// are equal.
#[derive(Debug, Clone, Eq)]
pub struct Address {
    strkey: String,
}

impl View for Address {
    type V = Seq<char>;

    open spec fn view(&self) -> Seq<char> {
        self.strkey_view()
    }
}

impl Address {
    pub closed spec fn strkey_view(&self) -> Seq<char> {
        self.strkey@
    }

    /// Wraps the strkey text of a wallet.
    pub fn new(strkey: String) -> (r: Address)
        ensures
            r@ == strkey@,
    {
        Address { strkey }
    }

    /// The strkey text of this wallet.
    pub fn strkey(&self) -> (r: &String)
        ensures
            r@ == self@,
    {
        &self.strkey
    }

    /// A second handle on the same wallet.
    pub fn duplicate(&self) -> (r: Address)
        ensures
            r@ == self@,
    {
        Address { strkey: self.strkey.clone() }
    }
}

/// The strkey text of an optional wallet.
pub open spec fn optional_address_view(a: Option<Address>) -> Option<Seq<char>> {
    match a {
        Some(a) => Some(a@),
        None => None,
    }
}

impl PartialEq for Address {
    fn eq(&self, other: &Self) -> (r: bool) {
        self.strkey == other.strkey
    }
}

impl vstd::std_specs::cmp::PartialEqSpecImpl for Address {
    open spec fn obeys_eq_spec() -> bool {
        true
    }

    open spec fn eq_spec(&self, other: &Address) -> bool {
        self@ == other@
    }
}

/// A copy of a vector of plain values.
pub fn copy_vec<T: Copy>(v: &Vec<T>) -> (r: Vec<T>)
    ensures
        r@ == v@,
{
    let mut r: Vec<T> = Vec::new();
    let mut i: usize = 0;
    while i < v.len()
        invariant
            i <= v.len(),
            r@ == v@.take(i as int),
        decreases v.len() - i,
    {
        proof {
            assert(v@.take(i + 1) =~= v@.take(i as int).push(v@[i as int]));
        }
        r.push(v[i]);
        i += 1;
    }
    assert(v@.take(v.len() as int) =~= v@);
    r
}

/// A work registered by a creator.
#[derive(Debug, Clone)]
pub struct Book {
    /// Identifier, assigned from the book counter at registration.
    pub id: u64,
    /// The creator's wallet; receives payments and royalties.
    pub publisher: Address,
    /// Purchase price in stroops (1 USDC = 10,000,000 stroops).
    pub price: i128,
    /// Resale royalty in basis points (500 = 5%, at most 5000 = 50%).
    pub royalty_bps: u32,
    /// The Arweave transaction holding the encrypted content (the bytes of
    /// the on-chain string).
    pub arweave_tx_id: Vec<u8>,
    /// The title, kept on-chain for discoverability (the bytes of the
    /// on-chain string).
    pub title: Vec<u8>,
    /// Whether new purchases are accepted.
    pub active: bool,
    /// Number of copies sold.
    pub total_sales: u64,
}

/// The mathematical value of a [`Book`].
pub struct BookView {
    pub id: u64,
    pub publisher: Seq<char>,
    pub price: i128,
    pub royalty_bps: u32,
    pub arweave_tx_id: Seq<u8>,
    pub title: Seq<u8>,
    pub active: bool,
    pub total_sales: u64,
}

impl View for Book {
    type V = BookView;

    open spec fn view(&self) -> BookView {
        BookView {
            id: self.id,
            publisher: self.publisher@,
            price: self.price,
            royalty_bps: self.royalty_bps,
            arweave_tx_id: self.arweave_tx_id@,
            title: self.title@,
            active: self.active,
            total_sales: self.total_sales,
        }
    }
}

impl Book {
    /// A copy of this book with the same value.
    pub fn duplicate(&self) -> (r: Book)
        ensures
            r@ == self@,
    {
        Book {
            id: self.id,
            publisher: self.publisher.duplicate(),
            price: self.price,
            royalty_bps: self.royalty_bps,
            arweave_tx_id: copy_vec(&self.arweave_tx_id),
            title: copy_vec(&self.title),
            active: self.active,
            total_sales: self.total_sales,
        }
    }
}

/// A reader's ownership of a copy of a book: owning the token is owning the
/// book.
#[derive(Debug, Clone)]
pub struct Token {
    pub id: u64,
    pub book_id: u64,
    pub owner: Address,
    /// Ledger sequence number at which the token was minted.
    pub minted_at: u32,
    /// Price paid for the token at its last sale.
    pub purchase_price: i128,
}

/// The mathematical value of a [`Token`].
pub struct TokenView {
    pub id: u64,
    pub book_id: u64,
    pub owner: Seq<char>,
    pub minted_at: u32,
    pub purchase_price: i128,
}

impl View for Token {
    type V = TokenView;

    open spec fn view(&self) -> TokenView {
        TokenView {
            id: self.id,
            book_id: self.book_id,
            owner: self.owner@,
            minted_at: self.minted_at,
            purchase_price: self.purchase_price,
        }
    }
}

impl Token {
    /// A copy of this token with the same value.
    pub fn duplicate(&self) -> (r: Token)
        ensures
            r@ == self@,
    {
        Token {
            id: self.id,
            book_id: self.book_id,
            owner: self.owner.duplicate(),
            minted_at: self.minted_at,
            purchase_price: self.purchase_price,
        }
    }
}

/// How the price of a resale is divided.
#[derive(Debug, Clone, Copy, PartialEq, Eq, Structural)]
pub struct SaleSplit {
    /// Paid to the creator of the book.
    pub royalty: i128,
    /// Paid to the platform treasury.
    pub platform_fee: i128,
    /// Left to the seller.
    pub seller: i128,
}

/// How the price of a primary sale is divided.
#[derive(Debug, Clone, Copy, PartialEq, Eq, Structural)]
pub struct PrimarySplit {
    /// Paid to the creator of the book.
    pub creator: i128,
    /// Paid to the platform treasury.
    pub platform_fee: i128,
}

/// Why the contract refuses an invocation. Each refusal leaves the
/// contract's storage as it was.
#[derive(Debug, Clone, Copy, PartialEq, Eq, Structural)]
pub enum ContractError {
    /// The contract has already been initialised.
    AlreadyInitialised,
    /// The platform fee asked for exceeds 10% (1000 basis points).
    PlatformFeeTooHigh,
    /// A book's price must be positive.
    PriceNotPositive,
    /// A royalty rate may not exceed 50% (5000 basis points).
    RoyaltyTooHigh,
    /// No book is stored under the given identifier.
    BookNotFound,
    /// Only the creator of a book may change it (deactivation is also open
    /// to the platform admin).
    NotCreator,
    /// The book no longer accepts purchases.
    BookInactive,
    /// The buyer already owns this book.
    AlreadyOwned,
    /// No token is stored under the given identifier.
    TokenNotFound,
    /// The sale price does not cover the royalty and the platform fee.
    SalePriceTooLow,
    /// A counter or an amount left the range of its integer type.
    ArithmeticOverflow,
}

} // verus!
