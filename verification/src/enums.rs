//! Enum and pattern-match demos: IP address variants, coin values, option
//! arithmetic, and the decision behind a dice roll.

use vstd::prelude::*;

verus! {

/// The two IP versions as a bare tag.
#[derive(Debug, Clone, Copy, PartialEq, Eq, Structural)]
pub enum IpAddrVersion {
    V4,
    V6,
}

/// An address as a tag plus its textual form.
#[derive(Debug)]
pub struct IpAddr {
    pub version: IpAddrVersion,
    pub address: String,
}

/// An address carrying its textual form in the variant itself.
#[derive(Debug)]
pub enum IpAddress {
    V4(String),
    V6(String),
}

/// A message with a different payload per variant.
#[derive(Debug)]
pub enum Message {
    Quit,
    Move { x: i32, y: i32 },
    Write(String),
    ChangeColor { r: i32, g: i32, b: i32 },
}

impl Message {
    /// Handling a message; nothing to do yet for any variant.
    pub fn call(&self) {
    }
}

/// Some of the US states a quarter can come from.
#[derive(Debug, Clone, Copy, PartialEq, Eq, Structural)]
pub enum UsState {
    Alaska,
    California,
    Colorado,
    Washington,
    Oregon,
}

/// A coin; quarters carry their state.
#[derive(Debug, Clone, Copy, PartialEq, Eq, Structural)]
pub enum Coin {
    Penny,
    Nickel,
    Dime,
    Quarter(UsState),
}

/// What a dice roll decides: the actions a game turn can take.
#[derive(Debug, Clone, Copy, PartialEq, Eq, Structural)]
pub enum DiceAction {
    AddHat,
    RemoveHat,
    MovePiece(i32),
    Reroll,
}

/// The textual form held by either address variant.
pub fn build_network(address: IpAddress) -> (r: String)
    ensures
        address matches IpAddress::V4(s) ==> r@ == s@,
        address matches IpAddress::V6(s) ==> r@ == s@,
{
    match address {
        IpAddress::V4(string) => string,
        IpAddress::V6(string) => string,
    }
}

/// The value of a coin in cents.
pub fn get_cents(coin: Coin) -> (r: u8)
    ensures
        coin is Penny ==> r == 1,
        coin is Nickel ==> r == 5,
        coin is Dime ==> r == 10,
        coin is Quarter ==> r == 25,
{
    match coin {
        Coin::Penny => 1,
        Coin::Nickel => 5,
        Coin::Dime => 10,
        Coin::Quarter(_state) => 25,
    }
}

/// One more than the given value, when there is one.
pub fn plus_one(x: Option<i32>) -> (r: Option<i32>)
    requires
        x matches Some(i) ==> i < i32::MAX,
    ensures
        x is None ==> r is None,
        x matches Some(i) ==> r == Some((i + 1) as i32),
{
    match x {
        None => None,
        Some(i) => Some(i + 1),
    }
}

/// The decision behind the first dice match: `3` adds a hat, `6` removes
/// one, and any other roll moves the piece by the rolled value.
pub fn dice_action(roll: i32) -> (r: DiceAction)
    ensures
        roll == 3 ==> r == DiceAction::AddHat,
        roll == 6 ==> r == DiceAction::RemoveHat,
        roll != 3 && roll != 6 ==> r == DiceAction::MovePiece(roll),
{
    match roll {
        3 => DiceAction::AddHat,
        6 => DiceAction::RemoveHat,
        other => DiceAction::MovePiece(other),
    }
}

/// The decision behind the second dice match: as `dice_action`, except any
/// other roll forces a reroll and the value is dropped.
pub fn dice_action2(roll: i32) -> (r: DiceAction)
    ensures
        roll == 3 ==> r == DiceAction::AddHat,
        roll == 6 ==> r == DiceAction::RemoveHat,
        roll != 3 && roll != 6 ==> r == DiceAction::Reroll,
{
    match roll {
        3 => DiceAction::AddHat,
        6 => DiceAction::RemoveHat,
        _ => DiceAction::Reroll,
    }
}

} // verus!
