//! The product catalogue's data shape and the lookup behind the
//! single-product route. Fetching rows from the store and shaping the HTTP
//! response stay outside; the selection itself is specified here.

use vstd::prelude::*;

verus! {

/// One row of the product table.
pub struct Product {
    pub id: i32,
    pub name: String,
    pub brand: String,
    pub category: String,
    pub price: String,
}

/// Selects the product carrying `id`: the first matching row, or `None`
/// exactly when no row matches.
pub fn find_product<'a>(products: &'a Vec<Product>, id: i32) -> (r: Option<&'a Product>)
    ensures
        match r {
            Some(p) => exists|i: int|
                0 <= i < products@.len() && #[trigger] products@[i].id == id && products@[i]
                    == *p,
            None => forall|i: int| 0 <= i < products@.len() ==> #[trigger] products@[i].id != id,
        },
{
    let mut i: usize = 0;
    while i < products.len()
        invariant
            0 <= i <= products@.len(),
            forall|j: int| 0 <= j < i ==> #[trigger] products@[j].id != id,
        decreases products@.len() - i,
    {
        if products[i].id == id {
            return Some(&products[i]);
        }
        i += 1;
    }
    None
}

} // verus!
