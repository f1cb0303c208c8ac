use vstd::prelude::*;

verus! {

/// Descriptive data fixed at mint time; never mutated afterwards.
pub struct TokenMetadata {
    pub title: String,
    pub description: String,
    pub media: String,
}

impl Clone for TokenMetadata {
    fn clone(&self) -> (other: Self)
        ensures
            other == *self,
    {
        TokenMetadata {
            title: self.title.clone(),
            description: self.description.clone(),
            media: self.media.clone(),
        }
    }
}

/// A collectible record: an owner, immutable metadata, and a mutable
/// sale state.
pub struct NftToken {
    pub owner_id: String,
    pub metadata: TokenMetadata,
    pub for_sale: bool,
    pub price: Option<u128>,
}

impl NftToken {
    /// Representation invariant: a price is recorded exactly when the
    /// token is listed for sale.
    pub open spec fn wf(self) -> bool {
        self.price is Some <==> self.for_sale
    }
}

impl Clone for NftToken {
    fn clone(&self) -> (other: Self)
        ensures
            other == *self,
    {
        NftToken {
            owner_id: self.owner_id.clone(),
            metadata: self.metadata.clone(),
            for_sale: self.for_sale,
            price: self.price,
        }
    }
}

} // verus!
