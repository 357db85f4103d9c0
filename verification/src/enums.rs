//! Enum and pattern-matching exercises: coins and their face value.

use vstd::prelude::*;

verus! {

/// A state whose quarter may turn up.
#[derive(Debug, Clone, Copy, PartialEq, Eq, Structural)]
pub enum UsState {
    Alabama,
    Alaska,
    California,
    NewYork,
}

/// A coin of the realm; a quarter carries its state.
#[derive(Debug, Clone, Copy, PartialEq, Eq, Structural)]
pub enum Coin {
    Penny,
    Nickel,
    Dime,
    Quarter(UsState),
}

impl Coin {
    /// Face value in cents.
    pub open spec fn spec_value(self) -> u32 {
        match self {
            Coin::Penny => 1,
            Coin::Nickel => 5,
            Coin::Dime => 10,
            Coin::Quarter(_) => 25,
        }
    }

    /// Face value in cents.
    pub fn value(&self) -> (r: u32)
        ensures
            r == self.spec_value(),
    {
        match self {
            Coin::Penny => 1,
            Coin::Nickel => 5,
            Coin::Dime => 10,
            Coin::Quarter(_) => 25,
        }
    }
}

/// Face value of a coin in cents.
pub fn value_in_cents(coin: Coin) -> (r: u32)
    ensures
        r == coin.spec_value(),
{
    coin.value()
}

} // verus!
