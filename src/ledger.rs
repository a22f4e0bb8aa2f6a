use std::collections::HashMap;
use vstd::prelude::*;

use crate::types::{Address, CollectionView, DataKey, Error, NFTDetail, NFTMetadata, TokenView};

verus! {

broadcast use vstd::std_specs::hash::group_hash_axioms;

/// The ledger as a mathematical value.
pub struct LedgerView {
    /// The ledger's own identity; a token it owns is owned by no account.
    pub contract: Address,
    pub admin: Option<Address>,
    pub metadata: Option<CollectionView>,
    /// The most recently assigned token id, once a token has been minted.
    pub counter: Option<u128>,
    /// Every token record ever written, burned ones included.
    pub tokens: Map<u128, TokenView>,
}

impl LedgerView {
    /// The record a query reports for a token with no stored record.
    pub open spec fn unowned(self) -> TokenView {
        TokenView { owner: self.contract, uri: Seq::empty() }
    }

    /// What `get_nft_detail` reports for `id`.
    pub open spec fn detail(self, id: u128) -> TokenView {
        if self.tokens.contains_key(id) {
            self.tokens[id]
        } else {
            self.unowned()
        }
    }

    /// The counter as read by `mint`: absent, it reads as one.
    pub open spec fn last_id(self) -> u128 {
        match self.counter {
            Some(c) => c,
            None => 1,
        }
    }

    /// The counter reads at least one, every stored token id lies above one
    /// and at most the counter, and the administrator and the metadata are set
    /// together.
    pub open spec fn wf(self) -> bool {
        &&& self.last_id() >= 1
        &&& forall|id: u128| #[trigger] self.tokens.contains_key(id) ==> 1 < id <= self.last_id()
        &&& (self.admin is Some <==> self.metadata is Some)
    }

    pub open spec fn has_key(self, key: DataKey) -> bool {
        match key {
            DataKey::Admin => self.admin is Some,
            DataKey::Metadata => self.metadata is Some,
            DataKey::Counter => self.counter is Some,
            DataKey::Token(id) => self.tokens.contains_key(id),
        }
    }

    pub open spec fn initialize_outcome(self) -> Result<(), Error> {
        if self.admin is Some {
            Err(Error::AlreadyInitialized)
        } else {
            Ok(())
        }
    }

    pub open spec fn after_initialize(self, admin: Address, name: Seq<char>, symbol: Seq<char>) -> LedgerView {
        LedgerView {
            contract: self.contract,
            admin: Some(admin),
            metadata: Some(CollectionView { name, symbol }),
            counter: self.counter,
            tokens: self.tokens,
        }
    }

    /// Minting acts as the recipient, who must not be the ledger itself, and
    /// needs a URI; the new id is one past the counter.
    pub open spec fn mint_outcome(self, signers: Seq<Address>, to: Address, uri: Seq<char>) -> Result<u128, Error> {
        if !signers.contains(to) {
            Err(Error::Unauthorized)
        } else if to == self.contract {
            Err(Error::InvalidRecipient)
        } else if uri.len() == 0 {
            Err(Error::EmptyURI)
        } else {
            Ok((self.last_id() + 1) as u128)
        }
    }

    pub open spec fn after_mint(self, to: Address, uri: Seq<char>) -> LedgerView {
        let id = (self.last_id() + 1) as u128;
        LedgerView {
            contract: self.contract,
            admin: self.admin,
            metadata: self.metadata,
            counter: Some(id),
            tokens: self.tokens.insert(id, TokenView { owner: to, uri }),
        }
    }

    /// Burning acts as `to`, who must own the token and not be the ledger.
    pub open spec fn burn_outcome(self, signers: Seq<Address>, to: Address, id: u128) -> Result<(), Error> {
        if !signers.contains(to) {
            Err(Error::Unauthorized)
        } else if self.detail(id).owner != to {
            Err(Error::InvalidSender)
        } else if to == self.contract {
            Err(Error::NotContractAddress)
        } else {
            Ok(())
        }
    }

    /// A burned token keeps its record, handed to the ledger with an empty URI.
    pub open spec fn after_burn(self, id: u128) -> LedgerView {
        LedgerView {
            contract: self.contract,
            admin: self.admin,
            metadata: self.metadata,
            counter: self.counter,
            tokens: self.tokens.insert(id, self.unowned()),
        }
    }

    /// Transferring acts as `from`, who must own the token and not be the ledger.
    pub open spec fn transfer_outcome(self, signers: Seq<Address>, from: Address, id: u128) -> Result<(), Error> {
        if !signers.contains(from) {
            Err(Error::Unauthorized)
        } else if self.detail(id).owner != from {
            Err(Error::InvalidSender)
        } else if from == self.contract {
            Err(Error::NotContractAddress)
        } else {
            Ok(())
        }
    }

    pub open spec fn after_transfer(self, to: Address, id: u128) -> LedgerView {
        LedgerView {
            contract: self.contract,
            admin: self.admin,
            metadata: self.metadata,
            counter: self.counter,
            tokens: self.tokens.insert(id, TokenView { owner: to, uri: self.detail(id).uri }),
        }
    }
}

/// Whether the caller has proved it may act as `who`: `signers` lists the
/// identities the host authenticated for this call.
pub fn is_authorized(signers: &Vec<Address>, who: Address) -> (r: bool)
    ensures
        r == signers@.contains(who),
{
    let mut i: usize = 0;
    while i < signers.len()
        invariant
            i <= signers.len(),
            forall|j: int| 0 <= j < i ==> signers@[j] != who,
        decreases signers.len() - i,
    {
        if signers[i] == who {
            assert(signers@[i as int] == who);
            return true;
        }
        i += 1;
    }
    false
}

fn copy_detail(d: &NFTDetail) -> (r: NFTDetail)
    ensures
        r@ == d@,
{
    NFTDetail { owner: d.owner, uri: d.uri.clone() }
}

/// One NFT collection: its administrator, its metadata, its token counter and
/// its token records, as the ledger's durable store holds them.
pub struct NFTContract {
    contract: Address,
    admin: Option<Address>,
    metadata: Option<NFTMetadata>,
    counter: Option<u128>,
    tokens: HashMap<u128, NFTDetail>,
}

impl View for NFTContract {
    type V = LedgerView;

    closed spec fn view(&self) -> LedgerView {
        LedgerView {
            contract: self.contract,
            admin: self.admin,
            metadata: match self.metadata {
                Some(m) => Some(m@),
                None => None,
            },
            counter: self.counter,
            tokens: self.tokens@.map_values(|d: NFTDetail| d@),
        }
    }
}

impl NFTContract {
    /// An empty ledger whose own identity is `contract_id`.
    pub fn new(contract_id: Address) -> (r: Self)
        ensures
            r@.contract == contract_id,
            r@.admin is None,
            r@.metadata is None,
            r@.counter is None,
            r@.tokens == Map::<u128, TokenView>::empty(),
            r@.wf(),
    {
        let r = NFTContract {
            contract: contract_id,
            admin: None,
            metadata: None,
            counter: None,
            tokens: HashMap::new(),
        };
        assert(r@.tokens =~= Map::<u128, TokenView>::empty());
        r
    }

    /// Whether the store holds an entry under `key`.
    pub fn has(&self, key: &DataKey) -> (r: bool)
        ensures
            r == self@.has_key(*key),
    {
        match key {
            DataKey::Admin => self.admin.is_some(),
            DataKey::Metadata => self.metadata.is_some(),
            DataKey::Counter => self.counter.is_some(),
            DataKey::Token(id) => self.tokens.contains_key(id),
        }
    }

    /// Sets the administrator and the collection's name and symbol, once.
    pub fn initialize(&mut self, admin: Address, name: String, symbol: String) -> (r: Result<(), Error>)
        requires
            old(self)@.wf(),
        ensures
            final(self)@.wf(),
            r == old(self)@.initialize_outcome(),
            r is Ok ==> final(self)@ == old(self)@.after_initialize(admin, name@, symbol@),
            r is Err ==> final(self)@ == old(self)@,
    {
        if self.has_administrator() {
            return Err(Error::AlreadyInitialized);
        }
        self.admin = Some(admin);
        self.metadata = Some(NFTMetadata { name, symbol });
        Ok(())
    }

    /// The id the most recent mint assigned; one before any mint.
    pub fn last_token_id(&self) -> (r: u128)
        ensures
            r == self@.last_id(),
    {
        match self.counter {
            Some(c) => c,
            None => 1,
        }
    }

    /// Creates a token owned by `to` with the given URI and returns its id.
    /// The caller must be able to act as `to`.
    pub fn mint(&mut self, signers: &Vec<Address>, to: Address, token_uri: String) -> (r: Result<u128, Error>)
        requires
            old(self)@.wf(),
            old(self)@.last_id() < u128::MAX,
        ensures
            final(self)@.wf(),
            r == old(self)@.mint_outcome(signers@, to, token_uri@),
            r is Ok ==> final(self)@ == old(self)@.after_mint(to, token_uri@),
            r is Err ==> final(self)@ == old(self)@,
    {
        if !is_authorized(signers, to) {
            return Err(Error::Unauthorized);
        }
        if to == self.contract {
            return Err(Error::InvalidRecipient);
        } else if token_uri.as_str().is_empty() {
            return Err(Error::EmptyURI);
        }
        let ghost pre = self@;
        let mut token_id: u128 = self.last_token_id();
        token_id += 1;
        let detail = NFTDetail { owner: to, uri: token_uri };
        self.tokens.insert(token_id, detail);
        self.counter = Some(token_id);
        assert(self@.tokens =~= pre.after_mint(to, token_uri@).tokens);
        assert forall|id: u128| #[trigger] self@.tokens.contains_key(id) implies 1 < id
            <= self@.last_id() by {
            if id != token_id {
                assert(pre.tokens.contains_key(id));
            }
        }
        Ok(token_id)
    }

    /// Destroys token `token_id`: its record passes to the ledger itself with
    /// an empty URI. The caller must be able to act as `to`, its owner.
    pub fn burn(&mut self, signers: &Vec<Address>, to: Address, token_id: u128) -> (r: Result<(), Error>)
        requires
            old(self)@.wf(),
        ensures
            final(self)@.wf(),
            r == old(self)@.burn_outcome(signers@, to, token_id),
            r is Ok ==> final(self)@ == old(self)@.after_burn(token_id),
            r is Err ==> final(self)@ == old(self)@,
    {
        if !is_authorized(signers, to) {
            return Err(Error::Unauthorized);
        }
        if self.has_nft_owner(to, token_id) {
            return Err(Error::InvalidSender);
        } else if to == self.contract {
            return Err(Error::NotContractAddress);
        }
        let mut nft_detail = self.get_nft_detail(token_id);
        // The owner was checked above; kept so that no burn ever acts on a
        // token the ledger itself holds.
        if nft_detail.owner != to || nft_detail.owner == self.contract {
            return Err(Error::TokenNotFound);
        }
        let ghost pre = self@;
        nft_detail.owner = self.contract;
        nft_detail.uri = String::new();
        self.tokens.insert(token_id, nft_detail);
        assert(self@.tokens =~= pre.after_burn(token_id).tokens);
        Ok(())
    }

    /// Hands token `token_id` from `from` to `to`. The caller must be able to
    /// act as `from`, and the token's recorded owner must be `from`; the
    /// record keeps its URI.
    pub fn transfer_from(&mut self, signers: &Vec<Address>, from: Address, to: Address, token_id: u128) -> (r: Result<(), Error>)
        requires
            old(self)@.wf(),
        ensures
            final(self)@.wf(),
            r == old(self)@.transfer_outcome(signers@, from, token_id),
            r is Ok ==> final(self)@ == old(self)@.after_transfer(to, token_id),
            r is Err ==> final(self)@ == old(self)@,
    {
        if !is_authorized(signers, from) {
            return Err(Error::Unauthorized);
        }
        if self.has_nft_owner(from, token_id) {
            return Err(Error::InvalidSender);
        } else if from == self.contract {
            return Err(Error::NotContractAddress);
        }
        let mut nft_detail = self.get_nft_detail(token_id);
        // As in `burn`: settled by the guards above, kept as a last check.
        if nft_detail.owner != from || nft_detail.owner == self.contract {
            return Err(Error::TokenNotFound);
        }
        let ghost pre = self@;
        nft_detail.owner = to;
        self.tokens.insert(token_id, nft_detail);
        assert(self@.tokens =~= pre.after_transfer(to, token_id).tokens);
        Ok(())
    }

    /// The record of token `token_id`, or the ledger's own identity with an
    /// empty URI where none is stored.
    pub fn get_nft_detail(&self, token_id: u128) -> (r: NFTDetail)
        ensures
            r@ == self@.detail(token_id),
    {
        match self.tokens.get(&token_id) {
            Some(d) => copy_detail(d),
            None => NFTDetail { owner: self.contract, uri: String::new() },
        }
    }

    /// The administrator.
    pub fn read_administrator(&self) -> (r: Result<Address, Error>)
        ensures
            r == match self@.admin {
                Some(a) => Ok(a),
                None => Err(Error::NotInitialized),
            },
    {
        match self.admin {
            Some(a) => Ok(a),
            None => Err(Error::NotInitialized),
        }
    }

    /// Whether the ledger has been initialized.
    pub fn has_administrator(&self) -> (r: bool)
        ensures
            r == self@.admin is Some,
    {
        self.has(&DataKey::Admin)
    }

    /// True when `account` is *not* the recorded owner of `token_id`.
    pub fn has_nft_owner(&self, account: Address, token_id: u128) -> (r: bool)
        ensures
            r == (self@.detail(token_id).owner != account),
    {
        let nft_detail = self.get_nft_detail(token_id);
        nft_detail.owner != account
    }

    /// The collection's name.
    pub fn name(&self) -> (r: Result<String, Error>)
        ensures
            match r {
                Ok(s) => self@.metadata is Some && s@ == self@.metadata->0.name,
                Err(e) => self@.metadata is None && e == Error::NotInitialized,
            },
    {
        match &self.metadata {
            Some(m) => Ok(m.name.clone()),
            None => Err(Error::NotInitialized),
        }
    }

    /// The collection's symbol.
    pub fn symbol(&self) -> (r: Result<String, Error>)
        ensures
            match r {
                Ok(s) => self@.metadata is Some && s@ == self@.metadata->0.symbol,
                Err(e) => self@.metadata is None && e == Error::NotInitialized,
            },
    {
        match &self.metadata {
            Some(m) => Ok(m.symbol.clone()),
            None => Err(Error::NotInitialized),
        }
    }
}

} // verus!
