//! The move alphabet of the search: outer-layer turns, double-layer turns,
//! and whole-cube axis rotations, each in three turn variants.
//!
//! Only the moves that the display notation covers are representable, so
//! formatting a move can never fail.

use vstd::prelude::*;
use vstd::string::StringExecFns;

verus! {

/// How far a layer (or the whole cube) is turned.
#[derive(Clone, Copy, Debug, PartialEq, Eq, Structural)]
pub enum MoveVariant {
    /// A 90 degree clockwise turn.
    Standard,
    /// A 180 degree turn.
    Double,
    /// A 90 degree counter-clockwise turn.
    Inverse,
}

/// One atomic operation of an algorithm: an outer-layer face turn, a
/// two-layer wide turn, or a rotation of the whole cube about an axis.
#[derive(Clone, Copy, Debug, PartialEq, Eq, Structural)]
pub enum Move {
    /// Turn the upper layer.
    U(MoveVariant),
    /// Turn the left layer.
    L(MoveVariant),
    /// Turn the front layer.
    F(MoveVariant),
    /// Turn the right layer.
    R(MoveVariant),
    /// Turn the back layer.
    B(MoveVariant),
    /// Turn the down layer.
    D(MoveVariant),
    /// Turn the two uppermost layers.
    Uw(MoveVariant),
    /// Turn the two leftmost layers.
    Lw(MoveVariant),
    /// Turn the two frontmost layers.
    Fw(MoveVariant),
    /// Turn the two rightmost layers.
    Rw(MoveVariant),
    /// Turn the two backmost layers.
    Bw(MoveVariant),
    /// Turn the two downmost layers.
    Dw(MoveVariant),
    /// Rotate the whole cube about the x axis.
    X(MoveVariant),
    /// Rotate the whole cube about the y axis.
    Y(MoveVariant),
    /// Rotate the whole cube about the z axis.
    Z(MoveVariant),
}

impl Move {
    /// The turn variant carried by a move.
    pub open spec fn variant(self) -> MoveVariant {
        match self {
            Move::U(v) | Move::L(v) | Move::F(v) | Move::R(v) | Move::B(v) | Move::D(v)
            | Move::Uw(v) | Move::Lw(v) | Move::Fw(v) | Move::Rw(v) | Move::Bw(v)
            | Move::Dw(v) | Move::X(v) | Move::Y(v) | Move::Z(v) => v,
        }
    }
}

/// The suffix a turn variant adds to a move token.
pub open spec fn spec_variant_token(v: MoveVariant) -> Seq<char> {
    match v {
        MoveVariant::Standard => ""@,
        MoveVariant::Double => "2"@,
        MoveVariant::Inverse => "'"@,
    }
}

/// The letter part of a move token, without the variant suffix.
pub open spec fn spec_move_letters(m: Move) -> Seq<char> {
    match m {
        Move::U(_) => "U"@,
        Move::L(_) => "L"@,
        Move::F(_) => "F"@,
        Move::R(_) => "R"@,
        Move::B(_) => "B"@,
        Move::D(_) => "D"@,
        Move::Uw(_) => "Uw"@,
        Move::Lw(_) => "Lw"@,
        Move::Fw(_) => "Fw"@,
        Move::Rw(_) => "Rw"@,
        Move::Bw(_) => "Bw"@,
        Move::Dw(_) => "Dw"@,
        Move::X(_) => "x"@,
        Move::Y(_) => "y"@,
        Move::Z(_) => "z"@,
    }
}

/// The display token of a move in standard notation, e.g. `U`, `U2`, `Rw'`.
pub open spec fn spec_move_token(m: Move) -> Seq<char> {
    spec_move_letters(m) + spec_variant_token(m.variant())
}

/// The suffix a turn variant adds to a move token.
pub fn display_move_variant(v: MoveVariant) -> (res: &'static str)
    ensures
        res@ == spec_variant_token(v),
{
    match v {
        MoveVariant::Standard => "",
        MoveVariant::Double => "2",
        MoveVariant::Inverse => "'",
    }
}

/// The display token of a move in standard notation.
pub fn display_move(m: Move) -> (res: String)
    ensures
        res@ == spec_move_token(m),
{
    let letters = match m {
        Move::U(_) => "U",
        Move::L(_) => "L",
        Move::F(_) => "F",
        Move::R(_) => "R",
        Move::B(_) => "B",
        Move::D(_) => "D",
        Move::Uw(_) => "Uw",
        Move::Lw(_) => "Lw",
        Move::Fw(_) => "Fw",
        Move::Rw(_) => "Rw",
        Move::Bw(_) => "Bw",
        Move::Dw(_) => "Dw",
        Move::X(_) => "x",
        Move::Y(_) => "y",
        Move::Z(_) => "z",
    };
    let variant = match m {
        Move::U(v) | Move::L(v) | Move::F(v) | Move::R(v) | Move::B(v) | Move::D(v)
        | Move::Uw(v) | Move::Lw(v) | Move::Fw(v) | Move::Rw(v) | Move::Bw(v)
        | Move::Dw(v) | Move::X(v) | Move::Y(v) | Move::Z(v) => v,
    };
    String::from_str(letters).concat(display_move_variant(variant))
}

} // verus!
