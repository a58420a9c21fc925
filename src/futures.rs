//! Settings of the derivatives account: margin type, position side, leverage.
use vstd::prelude::*;

verus! {

/// Largest leverage the exchange accepts.
pub const MAX_LEVERAGE: u8 = 125;

#[derive(Debug, Clone, Copy, PartialEq, Eq, Structural)]
pub enum MarginType {
    Cross,
    Isolated,
}

impl MarginType {
    /// The name the exchange uses for this margin type.
    pub fn as_str(&self) -> (r: &'static str)
        ensures
            r@ == margin_type_name(*self),
    {
        match self {
            MarginType::Cross => "CROSSED",
            MarginType::Isolated => "ISOLATED",
        }
    }
}

pub open spec fn margin_type_name(m: MarginType) -> Seq<char> {
    match m {
        MarginType::Cross => "CROSSED"@,
        MarginType::Isolated => "ISOLATED"@,
    }
}

/// Position side for hedge mode; `Both` is one-way mode.
#[derive(Debug, Clone, Copy, PartialEq, Eq, Structural)]
pub enum PositionSide {
    Both,
    Long,
    Short,
}

impl PositionSide {
    /// The name the exchange uses for this side.
    pub fn as_str(&self) -> (r: &'static str)
        ensures
            r@ == position_side_name(*self),
    {
        match self {
            PositionSide::Both => "BOTH",
            PositionSide::Long => "LONG",
            PositionSide::Short => "SHORT",
        }
    }
}

pub open spec fn position_side_name(s: PositionSide) -> Seq<char> {
    match s {
        PositionSide::Both => "BOTH"@,
        PositionSide::Long => "LONG"@,
        PositionSide::Short => "SHORT"@,
    }
}

/// Whether the exchange accepts `leverage` (an integer from 1 to 125).
pub fn is_valid_leverage(leverage: u8) -> (r: bool)
    ensures
        r == (1 <= leverage <= MAX_LEVERAGE),
{
    1 <= leverage && leverage <= MAX_LEVERAGE
}

} // verus!
