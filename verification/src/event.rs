//! The event that the vault emits when tokens are deposited into it.

use crate::chain::{Address, TokenId, TxHash};
use vstd::prelude::*;

verus! {

/// The ids of a list of tokens, as numbers.
pub open spec fn ids_of(tokens: Seq<TokenId>) -> Seq<nat> {
    Seq::new(tokens.len(), |i: int| tokens[i]@)
}

/// One deposit of tokens of one collection, as the chain reports it. An
/// event names at least one token and is never changed once made.
#[derive(Debug)]
pub struct RawEvent {
    operator: Address,
    on_behalf_of: Address,
    collection: Address,
    token_ids: Vec<TokenId>,
    block_number: u64,
    tx_hash: TxHash,
}

impl RawEvent {
    /// An event names at least one token.
    #[verifier::type_invariant]
    pub closed spec fn names_a_token(&self) -> bool {
        self.token_ids@.len() >= 1
    }

    /// The ids of the deposited tokens, in the order of the event.
    pub closed spec fn spec_token_ids(&self) -> Seq<nat> {
        ids_of(self.token_ids@)
    }

    /// The address of the collection.
    pub closed spec fn spec_collection(&self) -> Address {
        self.collection
    }

    /// The hash of the transaction.
    pub closed spec fn spec_tx_hash(&self) -> TxHash {
        self.tx_hash
    }

    /// Who made the deposit.
    pub closed spec fn spec_operator(&self) -> Address {
        self.operator
    }

    /// On whose behalf the deposit was made.
    pub closed spec fn spec_on_behalf_of(&self) -> Address {
        self.on_behalf_of
    }

    /// The number of the block that holds the event.
    pub closed spec fn spec_block_number(&self) -> u64 {
        self.block_number
    }

    /// The event that the chain reported with these values, or `None` where
    /// `token_ids` is empty.
    pub fn new(
        operator: Address,
        on_behalf_of: Address,
        collection: Address,
        token_ids: Vec<TokenId>,
        block_number: u64,
        tx_hash: TxHash,
    ) -> (r: Option<RawEvent>)
        ensures
            r is Some <==> token_ids@.len() >= 1,
            r matches Some(event) ==> event.spec_token_ids() == ids_of(token_ids@)
                && event.spec_collection() == collection && event.spec_tx_hash() == tx_hash
                && event.spec_operator() == operator && event.spec_on_behalf_of() == on_behalf_of
                && event.spec_block_number() == block_number,
    {
        if token_ids.len() == 0 {
            None
        } else {
            Some(RawEvent { operator, on_behalf_of, collection, token_ids, block_number, tx_hash })
        }
    }

    /// Who made the deposit.
    pub fn operator(&self) -> (r: Address)
        ensures
            r == self.spec_operator(),
    {
        self.operator
    }

    /// On whose behalf the deposit was made.
    pub fn on_behalf_of(&self) -> (r: Address)
        ensures
            r == self.spec_on_behalf_of(),
    {
        self.on_behalf_of
    }

    /// The address of the collection.
    pub fn collection(&self) -> (r: Address)
        ensures
            r == self.spec_collection(),
    {
        self.collection
    }

    /// The number of the block that holds the event.
    pub fn block_number(&self) -> (r: u64)
        ensures
            r == self.spec_block_number(),
    {
        self.block_number
    }

    /// The hash of the transaction.
    pub fn tx_hash(&self) -> (r: TxHash)
        ensures
            r == self.spec_tx_hash(),
    {
        self.tx_hash
    }

    /// How many tokens were deposited: at least one.
    pub fn token_count(&self) -> (r: usize)
        ensures
            r == self.spec_token_ids().len(),
            r >= 1,
    {
        proof {
            use_type_invariant(self);
        }
        self.token_ids.len()
    }

    /// The id of the token at `index` in the order of the event.
    pub fn token_id(&self, index: usize) -> (r: TokenId)
        requires
            index < self.spec_token_ids().len(),
        ensures
            r@ == self.spec_token_ids()[index as int],
    {
        self.token_ids[index]
    }
}

} // verus!
