//! A non-fungible-token ownership ledger: which account owns each token of one
//! collection, the URI each token points to, the collection's name and symbol,
//! and the administrator fixed when the collection is created.

mod types;
mod ledger;
mod laws;

pub use types::{Address, CollectionView, DataKey, Error, NFTDetail, NFTMetadata, TokenView};
pub use ledger::{is_authorized, LedgerView, NFTContract};
pub use laws::{
    lemma_burn_clears_token,
    lemma_initialize_once,
    lemma_mint_fresh_id,
    lemma_mint_round_trip,
    lemma_minted_ids_increase,
    lemma_unauthorized_rejected,
    lemma_unminted_detail,
    LedgerOp,
};
