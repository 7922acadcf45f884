//! The direction of a price against the one observed before it.

use vstd::prelude::*;
use crate::price::Price;

verus! {

/// How a price stands against the previous price of the same symbol.
#[derive(Clone, Copy, Debug, PartialEq, Eq, Structural)]
pub enum Status {
    Up,
    Down,
    Same,
}

impl Status {
    /// The text under which the status is reported.
    pub open spec fn label_text(self) -> Seq<char> {
        match self {
            Status::Up => "up"@,
            Status::Down => "down"@,
            Status::Same => "same"@,
        }
    }

    /// `"up"`, `"down"` or `"same"`.
    pub fn label(&self) -> (text: &'static str)
        ensures
            text@ == self.label_text(),
    {
        match self {
            Status::Up => "up",
            Status::Down => "down",
            Status::Same => "same",
        }
    }
}

/// The status of `new_price` against `previous_price`: `Up` where it is
/// greater, `Down` where it is less, `Same` where the two are equal or cannot
/// be ordered.
pub open spec fn classified(new_price: Price, previous_price: Price) -> Status {
    if new_price.above(previous_price) {
        Status::Up
    } else if new_price.below(previous_price) {
        Status::Down
    } else {
        Status::Same
    }
}

/// Classifies a price against the previous one.
pub fn classify(new_price: Price, previous_price: Price) -> (status: Status)
    ensures
        status == classified(new_price, previous_price),
        new_price.above(previous_price) ==> status == Status::Up,
        new_price.below(previous_price) ==> status == Status::Down,
        new_price.level_with(previous_price) ==> status == Status::Same,
        new_price.unordered_with(previous_price) ==> status == Status::Same,
{
    if new_price.is_above(&previous_price) {
        Status::Up
    } else if new_price.is_below(&previous_price) {
        Status::Down
    } else {
        Status::Same
    }
}

} // verus!
