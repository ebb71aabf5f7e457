use vstd::prelude::*;

verus! {

/// A stored product.
#[derive(Clone, Debug, PartialEq, Eq)]
pub struct Product {
    pub id: u64,
    pub name: String,
    pub description: String,
    pub price: u64,
    /// Cashback as a percentage.
    pub cashback_percentage: u8,
    pub created_at: u64,
    pub updated_at: Option<u64>,
}

/// The fields of a product that a caller supplies on creation and update.
#[derive(Clone, Debug, PartialEq, Eq)]
pub struct ProductPayload {
    pub name: String,
    pub description: String,
    pub price: u64,
    pub cashback_percentage: u8,
}

/// The mathematical value of a product: its texts as character sequences.
pub struct ProductView {
    pub id: u64,
    pub name: Seq<char>,
    pub description: Seq<char>,
    pub price: u64,
    pub cashback_percentage: u8,
    pub created_at: u64,
    pub updated_at: Option<u64>,
}

/// The mathematical value of a payload.
pub struct PayloadView {
    pub name: Seq<char>,
    pub description: Seq<char>,
    pub price: u64,
    pub cashback_percentage: u8,
}

impl View for Product {
    type V = ProductView;

    open spec fn view(&self) -> ProductView {
        ProductView {
            id: self.id,
            name: self.name@,
            description: self.description@,
            price: self.price,
            cashback_percentage: self.cashback_percentage,
            created_at: self.created_at,
            updated_at: self.updated_at,
        }
    }
}

impl View for ProductPayload {
    type V = PayloadView;

    open spec fn view(&self) -> PayloadView {
        PayloadView {
            name: self.name@,
            description: self.description@,
            price: self.price,
            cashback_percentage: self.cashback_percentage,
        }
    }
}

/// The one failure a caller is told of: no product has the identifier asked for.
#[derive(Clone, Debug, PartialEq, Eq)]
pub enum Error {
    NotFound { msg: String },
}

} // verus!
