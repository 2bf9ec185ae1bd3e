//! What the venues have in common: orders, balances and limits as they are read back.
use crate::double::Double;
use crate::http::{VenueError, VenueErrorView};
use crate::list;
use crate::list::Duplicate;
use crate::text;
use vstd::prelude::*;

verus! {

/// An order as a venue answered, in one shape for all of them.
#[derive(Debug)]
pub struct ParsedOrder {
    pub order_id: String,
    pub filled: bool,
    pub status: String,
    /// What was filled of it, in base units; none where the venue does not say.
    pub base_qty: Option<Double>,
    /// What was filled of it, in quote units.
    pub quote: Double,
    pub avg_price: Option<Double>,
    pub price: Option<Double>,
    pub fee: Double,
    pub fee_asset: Option<String>,
    pub side: String,
    /// What was asked for, in base units.
    pub qty: Double,
    pub client_id: String,
}

/// What a [`ParsedOrder`] holds.
pub struct ParsedOrderView {
    pub order_id: Seq<char>,
    pub filled: bool,
    pub status: Seq<char>,
    pub base_qty: Option<Double>,
    pub quote: Double,
    pub avg_price: Option<Double>,
    pub price: Option<Double>,
    pub fee: Double,
    pub fee_asset: Option<Seq<char>>,
    pub side: Seq<char>,
    pub qty: Double,
    pub client_id: Seq<char>,
}

impl DeepView for ParsedOrder {
    type V = ParsedOrderView;

    open spec fn deep_view(&self) -> ParsedOrderView {
        ParsedOrderView {
            order_id: self.order_id@,
            filled: self.filled,
            status: self.status@,
            base_qty: self.base_qty,
            quote: self.quote,
            avg_price: self.avg_price,
            price: self.price,
            fee: self.fee,
            fee_asset: self.fee_asset.deep_view(),
            side: self.side@,
            qty: self.qty,
            client_id: self.client_id@,
        }
    }
}

impl Duplicate for ParsedOrder {
    fn dup(&self) -> (r: ParsedOrder) {
        ParsedOrder {
            order_id: text::owned(self.order_id.as_str()),
            filled: self.filled,
            status: text::owned(self.status.as_str()),
            base_qty: self.base_qty,
            quote: self.quote,
            avg_price: self.avg_price,
            price: self.price,
            fee: self.fee,
            fee_asset: self.fee_asset.dup(),
            side: text::owned(self.side.as_str()),
            qty: self.qty,
            client_id: text::owned(self.client_id.as_str()),
        }
    }
}

/// What is held of an asset.
#[derive(Clone, Copy, Debug)]
pub struct Balance {
    pub free: Double,
    /// What resting orders hold.
    pub locked: Double,
}

impl DeepView for Balance {
    type V = Balance;

    open spec fn deep_view(&self) -> Balance {
        *self
    }
}

impl Duplicate for Balance {
    fn dup(&self) -> (r: Balance) {
        Balance {
            free: self.free,
            locked: self.locked,
        }
    }
}

/// The smallest order a venue takes.
#[derive(Clone, Copy, Debug)]
pub struct Limits {
    pub min_base: Double,
    pub min_quote: Double,
}

impl DeepView for Limits {
    type V = Limits;

    open spec fn deep_view(&self) -> Limits {
        *self
    }
}

/// An answer that does not hold what it should.
pub open spec fn shape_err_spec(venue: Seq<char>, why: Seq<char>) -> VenueErrorView {
    VenueErrorView { venue, status: None, message: why }
}

/// An answer that does not hold what it should.
pub fn shape_err(venue: &str, why: &str) -> (r: VenueError)
    ensures
        r.deep_view() == shape_err_spec(venue@, why@),
{
    VenueError { venue: text::owned(venue), status: None, message: text::owned(why) }
}

} // verus!
