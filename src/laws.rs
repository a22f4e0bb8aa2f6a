use vstd::prelude::*;

use crate::ledger::LedgerView;
use crate::types::{Address, Error, TokenView};

verus! {

/// A token id that was never minted reads as owned by the ledger itself, with
/// an empty URI.
pub proof fn lemma_unminted_detail(v: LedgerView, id: u128)
    requires
        !v.tokens.contains_key(id),
    ensures
        v.detail(id).owner == v.contract,
        v.detail(id).uri == Seq::<char>::empty(),
{
}

/// A successful mint assigns an id above every id already recorded, so no id
/// is ever assigned twice, and the counter then stands at that id.
pub proof fn lemma_mint_fresh_id(v: LedgerView, signers: Seq<Address>, to: Address, uri: Seq<char>, t: u128)
    requires
        v.wf(),
        v.last_id() < u128::MAX,
        v.mint_outcome(signers, to, uri) == Ok::<u128, Error>(t),
    ensures
        !v.tokens.contains_key(t),
        forall|id: u128| #[trigger] v.tokens.contains_key(id) ==> id < t,
        v.after_mint(to, uri).last_id() == t,
        v.after_mint(to, uri).wf(),
{
    let w = v.after_mint(to, uri);
    assert forall|id: u128| #[trigger] w.tokens.contains_key(id) implies 1 < id <= w.last_id() by {
        if id != t {
            assert(v.tokens.contains_key(id));
        }
    }
}

/// After a successful mint to `to` with `uri`, the new token reads as owned by
/// `to` with that URI.
pub proof fn lemma_mint_round_trip(v: LedgerView, signers: Seq<Address>, to: Address, uri: Seq<char>, t: u128)
    requires
        v.mint_outcome(signers, to, uri) == Ok::<u128, Error>(t),
    ensures
        v.after_mint(to, uri).detail(t) == (TokenView { owner: to, uri }),
{
}

/// After a successful burn by its owner, a token reads as owned by the ledger
/// itself, with an empty URI.
pub proof fn lemma_burn_clears_token(v: LedgerView, signers: Seq<Address>, to: Address, t: u128)
    requires
        v.detail(t).owner == to,
        v.burn_outcome(signers, to, t) == Ok::<(), Error>(()),
    ensures
        v.after_burn(t).detail(t).owner == v.contract,
        v.after_burn(t).detail(t).uri == Seq::<char>::empty(),
{
}

/// Once initialized, a ledger refuses every further initialization, whatever
/// its arguments, and keeps its administrator and metadata.
pub proof fn lemma_initialize_once(
    v: LedgerView,
    admin: Address,
    name: Seq<char>,
    symbol: Seq<char>,
)
    requires
        v.initialize_outcome() == Ok::<(), Error>(()),
    ensures
        v.after_initialize(admin, name, symbol).initialize_outcome() == Err::<(), Error>(
            Error::AlreadyInitialized,
        ),
        forall|a: Address, n: Seq<char>, s: Seq<char>|
            #[trigger] v.after_initialize(admin, name, symbol).step(LedgerOp::Initialize(a, n, s)) == (
            v.after_initialize(admin, name, symbol),
            None::<u128>,
        ),
{
}

/// A mint, burn or transfer whose acting identity the caller has not proved
/// is refused as unauthorized; the operations then leave the ledger as it was.
pub proof fn lemma_unauthorized_rejected(
    v: LedgerView,
    signers: Seq<Address>,
    who: Address,
    uri: Seq<char>,
    id: u128,
)
    requires
        !signers.contains(who),
    ensures
        v.step(LedgerOp::Mint(signers, who, uri)) == (v, None::<u128>),
        v.step(LedgerOp::Burn(signers, who, id)) == (v, None::<u128>),
        forall|to: Address| #[trigger] v.step(LedgerOp::Transfer(signers, who, to, id)) == (v, None::<u128>),
        v.mint_outcome(signers, who, uri) == Err::<u128, Error>(Error::Unauthorized),
        v.burn_outcome(signers, who, id) == Err::<(), Error>(Error::Unauthorized),
        v.transfer_outcome(signers, who, id) == Err::<(), Error>(Error::Unauthorized),
{
}

/// One call on the ledger, with the identities its caller proved.
pub enum LedgerOp {
    Initialize(Address, Seq<char>, Seq<char>),
    Mint(Seq<Address>, Address, Seq<char>),
    Burn(Seq<Address>, Address, u128),
    Transfer(Seq<Address>, Address, Address, u128),
}

impl LedgerView {
    /// The ledger after `op`, and the id it returned if it was a successful
    /// mint. A refused operation leaves the ledger as it was.
    pub open spec fn step(self, op: LedgerOp) -> (LedgerView, Option<u128>) {
        match op {
            LedgerOp::Initialize(admin, name, symbol) => if self.initialize_outcome() is Ok {
                (self.after_initialize(admin, name, symbol), None)
            } else {
                (self, None)
            },
            LedgerOp::Mint(signers, to, uri) => match self.mint_outcome(signers, to, uri) {
                Ok(t) => (self.after_mint(to, uri), Some(t)),
                Err(_) => (self, None),
            },
            LedgerOp::Burn(signers, to, id) => if self.burn_outcome(signers, to, id) is Ok {
                (self.after_burn(id), None)
            } else {
                (self, None)
            },
            LedgerOp::Transfer(signers, from, to, id) => if self.transfer_outcome(signers, from, id) is Ok {
                (self.after_transfer(to, id), None)
            } else {
                (self, None)
            },
        }
    }

    /// The ledger after `ops` in order, and the ids the successful mints
    /// among them returned, in order.
    pub open spec fn run(self, ops: Seq<LedgerOp>) -> (LedgerView, Seq<u128>)
        decreases ops.len(),
    {
        if ops.len() == 0 {
            (self, Seq::empty())
        } else {
            let (next, minted) = self.step(ops[0]);
            let (last, ids) = next.run(ops.drop_first());
            match minted {
                Some(t) => (last, seq![t] + ids),
                None => (last, ids),
            }
        }
    }
}

proof fn lemma_step(v: LedgerView, op: LedgerOp)
    requires
        v.wf(),
        v.last_id() < u128::MAX,
    ensures
        v.step(op).0.wf(),
        v.last_id() <= v.step(op).0.last_id() <= v.last_id() + 1,
        v.step(op).1 matches Some(t) ==> t == v.step(op).0.last_id() && t > v.last_id(),
{
    match op {
        LedgerOp::Mint(signers, to, uri) => {
            if let Ok(t) = v.mint_outcome(signers, to, uri) {
                lemma_mint_fresh_id(v, signers, to, uri, t);
            }
        },
        LedgerOp::Burn(signers, to, id) => {
            if v.burn_outcome(signers, to, id) is Ok {
                assert(v.tokens.contains_key(id));
                assert(v.after_burn(id).tokens.dom() =~= v.tokens.dom());
                assert forall|k: u128| #[trigger] v.after_burn(id).tokens.contains_key(k) implies 1 < k
                    <= v.last_id() by {
                    assert(v.tokens.contains_key(k));
                }
            }
        },
        LedgerOp::Transfer(signers, from, to, id) => {
            if v.transfer_outcome(signers, from, id) is Ok {
                assert(v.tokens.contains_key(id));
                assert forall|k: u128| #[trigger] v.after_transfer(to, id).tokens.contains_key(k) implies 1
                    < k <= v.last_id() by {
                    assert(v.tokens.contains_key(k));
                }
            }
        },
        LedgerOp::Initialize(..) => {},
    }
}

/// Over any sequence of ledger operations, the ids that successful mints
/// return are strictly increasing, and each lies above every id the ledger
/// held before, so none is assigned twice.
pub proof fn lemma_minted_ids_increase(v: LedgerView, ops: Seq<LedgerOp>)
    requires
        v.wf(),
        v.last_id() + ops.len() < u128::MAX,
    ensures
        forall|i: int, j: int|
            0 <= i < j < v.run(ops).1.len() ==> #[trigger] v.run(ops).1[i] < #[trigger] v.run(ops).1[j],
        forall|i: int| 0 <= i < v.run(ops).1.len() ==> v.last_id() < #[trigger] v.run(ops).1[i],
        forall|i: int, id: u128|
            0 <= i < v.run(ops).1.len() && #[trigger] v.tokens.contains_key(id) ==> id < #[trigger] v.run(ops).1[i],
        v.run(ops).0.wf(),
        v.last_id() <= v.run(ops).0.last_id() <= v.last_id() + ops.len(),
        forall|i: int| 0 <= i < v.run(ops).1.len() ==> #[trigger] v.run(ops).1[i] <= v.run(ops).0.last_id(),
    decreases ops.len(),
{
    if ops.len() > 0 {
        lemma_step(v, ops[0]);
        let next = v.step(ops[0]).0;
        let rest = ops.drop_first();
        lemma_minted_ids_increase(next, rest);
        let ids = next.run(rest).1;
        if let Some(t) = v.step(ops[0]).1 {
            let all = seq![t] + ids;
            assert(v.run(ops).1 == all);
            assert forall|i: int, j: int| 0 <= i < j < all.len() implies #[trigger] all[i] < #[trigger] all[j] by {
                if i > 0 {
                    assert(all[i] == ids[i - 1]);
                    assert(all[j] == ids[j - 1]);
                } else {
                    assert(all[j] == ids[j - 1]);
                }
            }
            assert forall|i: int| 0 <= i < all.len() implies v.last_id() < #[trigger] all[i] by {
                if i > 0 {
                    assert(all[i] == ids[i - 1]);
                }
            }
            assert forall|i: int| 0 <= i < all.len() implies #[trigger] all[i] <= next.run(rest).0.last_id() by {
                if i > 0 {
                    assert(all[i] == ids[i - 1]);
                }
            }
        }
    }
}

} // verus!
