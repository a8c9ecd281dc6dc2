//! The record that one receipt line yields.

use crate::price::Price;
use vstd::prelude::*;

verus! {

/// A product as one receipt line names it, with the price on that line.
#[derive(Debug, PartialEq, Eq)]
pub struct Product {
    pub name: String,
    pub price: Price,
}

/// What a product record holds.
pub struct ProductView {
    pub name: Seq<char>,
    pub price: Price,
}

impl View for Product {
    type V = ProductView;

    open spec fn view(&self) -> ProductView {
        ProductView { name: self.name@, price: self.price }
    }
}

/// What a list of product records holds.
pub open spec fn products_view(products: Seq<Product>) -> Seq<ProductView> {
    products.map_values(|p: Product| p@)
}

} // verus!
