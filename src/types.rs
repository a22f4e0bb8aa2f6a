use vstd::prelude::*;

verus! {

/// An account identity. The ledger never looks inside one: it only compares
/// identities, so each is carried as the numeric handle the host assigned it.
#[derive(Clone, Copy, Debug, PartialEq, Eq, Structural, Hash)]
pub struct Address {
    pub id: u64,
}

/// Collection-wide metadata, set once when the ledger is initialized.
#[derive(Clone, Debug)]
pub struct NFTMetadata {
    pub name: String,
    pub symbol: String,
}

/// What the ledger records for one token: its owner and its metadata URI.
#[derive(Clone, Debug)]
pub struct NFTDetail {
    pub owner: Address,
    pub uri: String,
}

/// The entries of the ledger's durable store.
#[derive(Clone, Copy, Debug, PartialEq, Eq, Structural)]
pub enum DataKey {
    Admin,
    Metadata,
    Counter,
    Token(u128),
}

/// Why a ledger operation was rejected. A rejected operation changes nothing.
#[derive(Clone, Copy, Debug, PartialEq, Eq, Structural)]
pub enum Error {
    AlreadyInitialized,
    NotInitialized,
    Unauthorized,
    InvalidRecipient,
    InvalidSender,
    EmptyURI,
    NotContractAddress,
    TokenNotFound,
}

/// The mathematical value of a token record.
pub struct TokenView {
    pub owner: Address,
    pub uri: Seq<char>,
}

/// The mathematical value of the collection metadata.
pub struct CollectionView {
    pub name: Seq<char>,
    pub symbol: Seq<char>,
}

impl View for NFTDetail {
    type V = TokenView;

    open spec fn view(&self) -> TokenView {
        TokenView { owner: self.owner, uri: self.uri@ }
    }
}

impl View for NFTMetadata {
    type V = CollectionView;

    open spec fn view(&self) -> CollectionView {
        CollectionView { name: self.name@, symbol: self.symbol@ }
    }
}

} // verus!
