//! The value type for one submitted item.

use vstd::prelude::*;

verus! {

/// One submitted item. A record is built once, from fields the caller has
/// already parsed, and never changed afterwards.
pub struct Record {
    /// Caller-supplied identifier; the store does not require it to be unique.
    pub id: String,
    pub brand: String,
    pub name: String,
    /// The price as submitted; any sign and magnitude of `i64` is accepted.
    pub price: i64,
}

/// The mathematical image of a [`Record`]: its strings as character
/// sequences and its price as an unbounded integer.
pub ghost struct RecordView {
    pub id: Seq<char>,
    pub brand: Seq<char>,
    pub name: Seq<char>,
    pub price: int,
}

impl View for Record {
    type V = RecordView;

    open spec fn view(&self) -> RecordView {
        RecordView {
            id: self.id@,
            brand: self.brand@,
            name: self.name@,
            price: self.price as int,
        }
    }
}

impl DeepView for Record {
    type V = RecordView;

    open spec fn deep_view(&self) -> RecordView {
        self@
    }
}

impl Clone for Record {
    fn clone(&self) -> (r: Self)
        ensures
            r == *self,
    {
        Record {
            id: self.id.clone(),
            brand: self.brand.clone(),
            name: self.name.clone(),
            price: self.price,
        }
    }
}

impl Record {
    /// Builds a record from its four fields.
    pub fn new(id: String, brand: String, name: String, price: i64) -> (r: Record)
        ensures
            r@ == (RecordView { id: id@, brand: brand@, name: name@, price: price as int }),
    {
        Record { id, brand, name, price }
    }
}

} // verus!
