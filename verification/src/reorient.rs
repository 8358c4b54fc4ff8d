//! The catalog of the 24 whole-cube reorientations: the identity plus the
//! rotations about face, edge and corner axes, each with a base metric cost,
//! two display notations, and an equivalent sequence of elementary axis
//! rotations that advances the cube state identically.

use vstd::prelude::*;
use vstd::string::StringExecFns;
use crate::moves::{Move, MoveVariant};

verus! {

/// A whole-cube reorientation, named by the sticker that the upper-front-right
/// position receives (face names for face-axis rotations, edge and corner
/// names for the diagonal axes), with `Identity` for the no-op.
#[derive(Clone, Copy, Debug, PartialEq, Eq, Hash, Structural)]
pub enum Reorient {
    Identity,

    R,
    L,
    U,
    D,
    F,
    B,

    R2,
    U2,
    F2,

    UF,
    UR,
    FR,
    DF,
    UL,
    BR,

    UFR,
    DBL,
    UFL,
    DBR,
    DFR,
    UBL,
    UBR,
    DFL,
}

impl Reorient {
    /// The position of a reorientation in the catalog, the bit it occupies in
    /// a cheap-move mask.
    pub open spec fn spec_index(self) -> u32 {
        match self {
            Reorient::Identity => 0,
            Reorient::R => 1,
            Reorient::L => 2,
            Reorient::U => 3,
            Reorient::D => 4,
            Reorient::F => 5,
            Reorient::B => 6,
            Reorient::R2 => 7,
            Reorient::U2 => 8,
            Reorient::F2 => 9,
            Reorient::UF => 10,
            Reorient::UR => 11,
            Reorient::FR => 12,
            Reorient::DF => 13,
            Reorient::UL => 14,
            Reorient::BR => 15,
            Reorient::UFR => 16,
            Reorient::DBL => 17,
            Reorient::UFL => 18,
            Reorient::DBR => 19,
            Reorient::DFR => 20,
            Reorient::UBL => 21,
            Reorient::UBR => 22,
            Reorient::DFL => 23,
        }
    }

    /// The position of a reorientation in the catalog, the bit it occupies in
    /// a cheap-move mask.
    pub fn index(self) -> (i: u32)
        ensures
            i == self.spec_index(),
            i < 24,
    {
        match self {
            Reorient::Identity => 0,
            Reorient::R => 1,
            Reorient::L => 2,
            Reorient::U => 3,
            Reorient::D => 4,
            Reorient::F => 5,
            Reorient::B => 6,
            Reorient::R2 => 7,
            Reorient::U2 => 8,
            Reorient::F2 => 9,
            Reorient::UF => 10,
            Reorient::UR => 11,
            Reorient::FR => 12,
            Reorient::DF => 13,
            Reorient::UL => 14,
            Reorient::BR => 15,
            Reorient::UFR => 16,
            Reorient::DBL => 17,
            Reorient::UFL => 18,
            Reorient::DBR => 19,
            Reorient::DFR => 20,
            Reorient::UBL => 21,
            Reorient::UBR => 22,
            Reorient::DFL => 23,
        }
    }

    /// Whether a reorientation is the identity.
    pub open spec fn spec_is_none(self) -> bool {
        self == Reorient::Identity
    }

    /// Whether a reorientation is the identity.
    pub fn is_none(self) -> (b: bool)
        ensures
            b == self.spec_is_none(),
    {
        matches!(self, Reorient::Identity)
    }

    /// The default metric cost of a reorientation: 0 for the identity, 1 for
    /// a quarter turn about a face axis, 2 for a half turn about a face axis
    /// or any turn about a corner axis, and 3 for a half turn about an edge
    /// axis.
    pub open spec fn spec_base_cost(self) -> nat {
        match self {
            Reorient::Identity => 0,
            Reorient::R | Reorient::L | Reorient::U | Reorient::D | Reorient::F
            | Reorient::B => 1,
            Reorient::R2 | Reorient::U2 | Reorient::F2 => 2,
            Reorient::UF | Reorient::UR | Reorient::FR | Reorient::DF | Reorient::UL
            | Reorient::BR => 3,
            Reorient::UFR | Reorient::DBL | Reorient::UFL | Reorient::DBR
            | Reorient::DFR | Reorient::UBL | Reorient::UBR | Reorient::DFL => 2,
        }
    }

    /// Whether the cheap-move mask marks this reorientation.
    pub open spec fn spec_is_cheap(self, cheap_mask: u32) -> bool {
        (cheap_mask >> self.spec_index()) & 1 != 0
    }

    /// The effective metric cost under a cheap-move mask: 1 for a marked
    /// non-identity reorientation, the base cost otherwise.
    pub open spec fn spec_cost(self, cheap_mask: u32) -> nat {
        if self.spec_is_cheap(cheap_mask) && self != Reorient::Identity {
            1
        } else {
            self.spec_base_cost()
        }
    }

    /// The effective metric cost of a reorientation under a cheap-move mask.
    pub fn cost(self, cheap_mask: u32) -> (c: usize)
        ensures
            c == self.spec_cost(cheap_mask),
            c <= 3,
    {
        if (cheap_mask >> self.index()) & 1 != 0 && !self.is_none() {
            return 1;
        }

        match self {
            Reorient::Identity => 0,
            Reorient::R | Reorient::L | Reorient::U | Reorient::D | Reorient::F
            | Reorient::B => 1,
            Reorient::R2 | Reorient::U2 | Reorient::F2 => 2,
            Reorient::UF | Reorient::UR | Reorient::FR | Reorient::DF | Reorient::UL
            | Reorient::BR => 3,
            Reorient::UFR | Reorient::DBL | Reorient::UFL | Reorient::DBR
            | Reorient::DFR | Reorient::UBL | Reorient::UBR | Reorient::DFL => 2,
        }
    }
}

impl Reorient {
    /// The sequence of elementary whole-cube axis rotations that advances the
    /// cube state identically to performing this reorientation.
    pub open spec fn spec_rkt_moves(self) -> Seq<Move> {
        match self {
            Reorient::Identity => seq![],

            Reorient::R => seq![Move::X(MoveVariant::Standard)],
            Reorient::L => seq![Move::X(MoveVariant::Inverse)],
            Reorient::U => seq![Move::Y(MoveVariant::Standard)],
            Reorient::D => seq![Move::Y(MoveVariant::Inverse)],
            Reorient::F => seq![Move::Z(MoveVariant::Standard)],
            Reorient::B => seq![Move::Z(MoveVariant::Inverse)],

            Reorient::R2 => seq![Move::X(MoveVariant::Double)],
            Reorient::U2 => seq![Move::Y(MoveVariant::Double)],
            Reorient::F2 => seq![Move::Z(MoveVariant::Double)],

            Reorient::UF => seq![Move::X(MoveVariant::Standard), Move::Y(MoveVariant::Double)],
            Reorient::UR => seq![Move::Z(MoveVariant::Standard), Move::X(MoveVariant::Double)],
            Reorient::FR => seq![Move::Y(MoveVariant::Standard), Move::Z(MoveVariant::Double)],
            Reorient::DF => seq![Move::X(MoveVariant::Standard), Move::Z(MoveVariant::Double)],
            Reorient::UL => seq![Move::Z(MoveVariant::Standard), Move::Y(MoveVariant::Double)],
            Reorient::BR => seq![Move::Y(MoveVariant::Standard), Move::X(MoveVariant::Double)],

            Reorient::UFR => seq![Move::X(MoveVariant::Standard), Move::Y(MoveVariant::Standard)],
            Reorient::DBL => seq![Move::Y(MoveVariant::Inverse), Move::X(MoveVariant::Inverse)],
            Reorient::UFL => seq![Move::Z(MoveVariant::Standard), Move::Y(MoveVariant::Standard)],
            Reorient::DBR => seq![Move::X(MoveVariant::Standard), Move::Y(MoveVariant::Inverse)],
            Reorient::DFR => seq![Move::X(MoveVariant::Standard), Move::Z(MoveVariant::Standard)],
            Reorient::UBL => seq![Move::Y(MoveVariant::Standard), Move::Z(MoveVariant::Inverse)],
            Reorient::UBR => seq![Move::Y(MoveVariant::Standard), Move::X(MoveVariant::Standard)],
            Reorient::DFL => seq![Move::Z(MoveVariant::Standard), Move::X(MoveVariant::Inverse)],
        }
    }

    /// The elementary whole-cube rotations equivalent to this reorientation.
    pub fn equivalent_rkt_moves(self) -> (res: Vec<Move>)
        ensures
            res@ == self.spec_rkt_moves(),
    {
        let mut res: Vec<Move> = Vec::new();
        match self {
            Reorient::Identity => (),

            Reorient::R => res.push(Move::X(MoveVariant::Standard)),
            Reorient::L => res.push(Move::X(MoveVariant::Inverse)),
            Reorient::U => res.push(Move::Y(MoveVariant::Standard)),
            Reorient::D => res.push(Move::Y(MoveVariant::Inverse)),
            Reorient::F => res.push(Move::Z(MoveVariant::Standard)),
            Reorient::B => res.push(Move::Z(MoveVariant::Inverse)),

            Reorient::R2 => res.push(Move::X(MoveVariant::Double)),
            Reorient::U2 => res.push(Move::Y(MoveVariant::Double)),
            Reorient::F2 => res.push(Move::Z(MoveVariant::Double)),

            Reorient::UF => {
                res.push(Move::X(MoveVariant::Standard));
                res.push(Move::Y(MoveVariant::Double));
            },
            Reorient::UR => {
                res.push(Move::Z(MoveVariant::Standard));
                res.push(Move::X(MoveVariant::Double));
            },
            Reorient::FR => {
                res.push(Move::Y(MoveVariant::Standard));
                res.push(Move::Z(MoveVariant::Double));
            },
            Reorient::DF => {
                res.push(Move::X(MoveVariant::Standard));
                res.push(Move::Z(MoveVariant::Double));
            },
            Reorient::UL => {
                res.push(Move::Z(MoveVariant::Standard));
                res.push(Move::Y(MoveVariant::Double));
            },
            Reorient::BR => {
                res.push(Move::Y(MoveVariant::Standard));
                res.push(Move::X(MoveVariant::Double));
            },

            Reorient::UFR => {
                res.push(Move::X(MoveVariant::Standard));
                res.push(Move::Y(MoveVariant::Standard));
            },
            Reorient::DBL => {
                res.push(Move::Y(MoveVariant::Inverse));
                res.push(Move::X(MoveVariant::Inverse));
            },
            Reorient::UFL => {
                res.push(Move::Z(MoveVariant::Standard));
                res.push(Move::Y(MoveVariant::Standard));
            },
            Reorient::DBR => {
                res.push(Move::X(MoveVariant::Standard));
                res.push(Move::Y(MoveVariant::Inverse));
            },
            Reorient::DFR => {
                res.push(Move::X(MoveVariant::Standard));
                res.push(Move::Z(MoveVariant::Standard));
            },
            Reorient::UBL => {
                res.push(Move::Y(MoveVariant::Standard));
                res.push(Move::Z(MoveVariant::Inverse));
            },
            Reorient::UBR => {
                res.push(Move::Y(MoveVariant::Standard));
                res.push(Move::X(MoveVariant::Standard));
            },
            Reorient::DFL => {
                res.push(Move::Z(MoveVariant::Standard));
                res.push(Move::X(MoveVariant::Inverse));
            },
        }
        assert(res@ =~= self.spec_rkt_moves());
        res
    }

    /// The display token of a reorientation, blanks included: a single blank
    /// for the identity, otherwise the name set off by one blank on each
    /// side.  The flag selects sticker-tracking notation over axis-rotation
    /// notation.
    pub open spec fn spec_token(self, stickers: bool) -> Seq<char> {
        if stickers {
            self.spec_sticker_token()
        } else {
            self.spec_xyz_token()
        }
    }

    /// The axis-rotation display token, blanks included.
    pub open spec fn spec_xyz_token(self) -> Seq<char> {
        match self {
            Reorient::Identity => " "@,

            Reorient::R => " Ox "@,
            Reorient::L => " Ox' "@,
            Reorient::U => " Oy "@,
            Reorient::D => " Oy' "@,
            Reorient::F => " Oz "@,
            Reorient::B => " Oz' "@,

            Reorient::R2 => " Ox2 "@,
            Reorient::U2 => " Oy2 "@,
            Reorient::F2 => " Oz2 "@,

            Reorient::UF => " Oxy2 "@,
            Reorient::UR => " Ozx2 "@,
            Reorient::FR => " Oyz2 "@,
            Reorient::DF => " Oxz2 "@,
            Reorient::UL => " Ozy2 "@,
            Reorient::BR => " Oyx2 "@,

            Reorient::UFR => " Oxy "@,
            Reorient::DBL => " Oy'x' "@,
            Reorient::UFL => " Ozy "@,
            Reorient::DBR => " Oxy' "@,
            Reorient::DFR => " Oxz "@,
            Reorient::UBL => " Oyz' "@,
            Reorient::UBR => " Oyx "@,
            Reorient::DFL => " Ozx' "@,
        }
    }

    /// The sticker-tracking display token, blanks included.
    pub open spec fn spec_sticker_token(self) -> Seq<char> {
        match self {
            Reorient::Identity => " "@,

            Reorient::R => " 23I:L "@,
            Reorient::L => " 23I:R "@,
            Reorient::U => " 23I:D "@,
            Reorient::D => " 23I:U "@,
            Reorient::F => " 23I:B "@,
            Reorient::B => " 23I:F "@,

            Reorient::R2 => " 23I:R2 "@,
            Reorient::U2 => " 23I:U2 "@,
            Reorient::F2 => " 23I:F2 "@,

            Reorient::UF => " 23I:UF "@,
            Reorient::UR => " 23I:UR "@,
            Reorient::FR => " 23I:FR "@,
            Reorient::DF => " 23I:DF "@,
            Reorient::UL => " 23I:UL "@,
            Reorient::BR => " 23I:BR "@,

            Reorient::UFR => " 23I:DBL "@,
            Reorient::DBL => " 23I:UFR "@,
            Reorient::UFL => " 23I:DBR "@,
            Reorient::DBR => " 23I:UFL "@,
            Reorient::DFR => " 23I:UBL "@,
            Reorient::UBL => " 23I:DFR "@,
            Reorient::UBR => " 23I:DFL "@,
            Reorient::DFL => " 23I:UBR "@,
        }
    }

    /// The display token of a reorientation under the chosen notation.
    pub fn to_token(self, stickers: bool) -> (res: String)
        ensures
            res@ == self.spec_token(stickers),
    {
        let s: &'static str = if stickers {
            match self {
                Reorient::Identity => " ",

                Reorient::R => " 23I:L ",
                Reorient::L => " 23I:R ",
                Reorient::U => " 23I:D ",
                Reorient::D => " 23I:U ",
                Reorient::F => " 23I:B ",
                Reorient::B => " 23I:F ",

                Reorient::R2 => " 23I:R2 ",
                Reorient::U2 => " 23I:U2 ",
                Reorient::F2 => " 23I:F2 ",

                Reorient::UF => " 23I:UF ",
                Reorient::UR => " 23I:UR ",
                Reorient::FR => " 23I:FR ",
                Reorient::DF => " 23I:DF ",
                Reorient::UL => " 23I:UL ",
                Reorient::BR => " 23I:BR ",

                Reorient::UFR => " 23I:DBL ",
                Reorient::DBL => " 23I:UFR ",
                Reorient::UFL => " 23I:DBR ",
                Reorient::DBR => " 23I:UFL ",
                Reorient::DFR => " 23I:UBL ",
                Reorient::UBL => " 23I:DFR ",
                Reorient::UBR => " 23I:DFL ",
                Reorient::DFL => " 23I:UBR ",
            }
        } else {
            match self {
                Reorient::Identity => " ",

                Reorient::R => " Ox ",
                Reorient::L => " Ox' ",
                Reorient::U => " Oy ",
                Reorient::D => " Oy' ",
                Reorient::F => " Oz ",
                Reorient::B => " Oz' ",

                Reorient::R2 => " Ox2 ",
                Reorient::U2 => " Oy2 ",
                Reorient::F2 => " Oz2 ",

                Reorient::UF => " Oxy2 ",
                Reorient::UR => " Ozx2 ",
                Reorient::FR => " Oyz2 ",
                Reorient::DF => " Oxz2 ",
                Reorient::UL => " Ozy2 ",
                Reorient::BR => " Oyx2 ",

                Reorient::UFR => " Oxy ",
                Reorient::DBL => " Oy'x' ",
                Reorient::UFL => " Ozy ",
                Reorient::DBR => " Oxy' ",
                Reorient::DFR => " Oxz ",
                Reorient::UBL => " Oyz' ",
                Reorient::UBR => " Oyx ",
                Reorient::DFL => " Ozx' ",
            }
        };
        String::from_str(s)
    }
}

/// The full catalog, the identity first, in mask-bit order.
pub open spec fn spec_all_reorients() -> Seq<Reorient> {
    seq![
        Reorient::Identity,
        Reorient::R,
        Reorient::L,
        Reorient::U,
        Reorient::D,
        Reorient::F,
        Reorient::B,
        Reorient::R2,
        Reorient::U2,
        Reorient::F2,
        Reorient::UF,
        Reorient::UR,
        Reorient::FR,
        Reorient::DF,
        Reorient::UL,
        Reorient::BR,
        Reorient::UFR,
        Reorient::DBL,
        Reorient::UFL,
        Reorient::DBR,
        Reorient::DFR,
        Reorient::UBL,
        Reorient::UBR,
        Reorient::DFL,
    ]
}

/// The full catalog, the identity first, in mask-bit order.
pub fn all_reorients() -> (res: Vec<Reorient>)
    ensures
        res@ == spec_all_reorients(),
{
    let mut res: Vec<Reorient> = Vec::new();
    res.push(Reorient::Identity);
    res.push(Reorient::R);
    res.push(Reorient::L);
    res.push(Reorient::U);
    res.push(Reorient::D);
    res.push(Reorient::F);
    res.push(Reorient::B);
    res.push(Reorient::R2);
    res.push(Reorient::U2);
    res.push(Reorient::F2);
    res.push(Reorient::UF);
    res.push(Reorient::UR);
    res.push(Reorient::FR);
    res.push(Reorient::DF);
    res.push(Reorient::UL);
    res.push(Reorient::BR);
    res.push(Reorient::UFR);
    res.push(Reorient::DBL);
    res.push(Reorient::UFL);
    res.push(Reorient::DBR);
    res.push(Reorient::DFR);
    res.push(Reorient::UBL);
    res.push(Reorient::UBR);
    res.push(Reorient::DFL);
    assert(res@ =~= spec_all_reorients());
    res
}

/// Every reorientation sits in the catalog at the position its index names.
pub proof fn lemma_catalog_position(r: Reorient)
    ensures
        spec_all_reorients()[r.spec_index() as int] == r,
        spec_all_reorients().contains(r),
{
    assert(spec_all_reorients()[r.spec_index() as int] == r) by {
        match r {
            Reorient::Identity => assert(spec_all_reorients()[0] == Reorient::Identity),
            Reorient::R => assert(spec_all_reorients()[1] == Reorient::R),
            Reorient::L => assert(spec_all_reorients()[2] == Reorient::L),
            Reorient::U => assert(spec_all_reorients()[3] == Reorient::U),
            Reorient::D => assert(spec_all_reorients()[4] == Reorient::D),
            Reorient::F => assert(spec_all_reorients()[5] == Reorient::F),
            Reorient::B => assert(spec_all_reorients()[6] == Reorient::B),
            Reorient::R2 => assert(spec_all_reorients()[7] == Reorient::R2),
            Reorient::U2 => assert(spec_all_reorients()[8] == Reorient::U2),
            Reorient::F2 => assert(spec_all_reorients()[9] == Reorient::F2),
            Reorient::UF => assert(spec_all_reorients()[10] == Reorient::UF),
            Reorient::UR => assert(spec_all_reorients()[11] == Reorient::UR),
            Reorient::FR => assert(spec_all_reorients()[12] == Reorient::FR),
            Reorient::DF => assert(spec_all_reorients()[13] == Reorient::DF),
            Reorient::UL => assert(spec_all_reorients()[14] == Reorient::UL),
            Reorient::BR => assert(spec_all_reorients()[15] == Reorient::BR),
            Reorient::UFR => assert(spec_all_reorients()[16] == Reorient::UFR),
            Reorient::DBL => assert(spec_all_reorients()[17] == Reorient::DBL),
            Reorient::UFL => assert(spec_all_reorients()[18] == Reorient::UFL),
            Reorient::DBR => assert(spec_all_reorients()[19] == Reorient::DBR),
            Reorient::DFR => assert(spec_all_reorients()[20] == Reorient::DFR),
            Reorient::UBL => assert(spec_all_reorients()[21] == Reorient::UBL),
            Reorient::UBR => assert(spec_all_reorients()[22] == Reorient::UBR),
            Reorient::DFL => assert(spec_all_reorients()[23] == Reorient::DFL),
        }
    }
    assert(0 <= r.spec_index() < spec_all_reorients().len());
}

/// The catalog entry at each position has that position as its index, so no
/// reorientation occurs twice in the catalog.
pub proof fn lemma_catalog_index(j: int)
    requires
        0 <= j < 24,
    ensures
        spec_all_reorients()[j].spec_index() == j,
{
    assert(spec_all_reorients()[0].spec_index() == 0);
    assert(spec_all_reorients()[1].spec_index() == 1);
    assert(spec_all_reorients()[2].spec_index() == 2);
    assert(spec_all_reorients()[3].spec_index() == 3);
    assert(spec_all_reorients()[4].spec_index() == 4);
    assert(spec_all_reorients()[5].spec_index() == 5);
    assert(spec_all_reorients()[6].spec_index() == 6);
    assert(spec_all_reorients()[7].spec_index() == 7);
    assert(spec_all_reorients()[8].spec_index() == 8);
    assert(spec_all_reorients()[9].spec_index() == 9);
    assert(spec_all_reorients()[10].spec_index() == 10);
    assert(spec_all_reorients()[11].spec_index() == 11);
    assert(spec_all_reorients()[12].spec_index() == 12);
    assert(spec_all_reorients()[13].spec_index() == 13);
    assert(spec_all_reorients()[14].spec_index() == 14);
    assert(spec_all_reorients()[15].spec_index() == 15);
    assert(spec_all_reorients()[16].spec_index() == 16);
    assert(spec_all_reorients()[17].spec_index() == 17);
    assert(spec_all_reorients()[18].spec_index() == 18);
    assert(spec_all_reorients()[19].spec_index() == 19);
    assert(spec_all_reorients()[20].spec_index() == 20);
    assert(spec_all_reorients()[21].spec_index() == 21);
    assert(spec_all_reorients()[22].spec_index() == 22);
    assert(spec_all_reorients()[23].spec_index() == 23);
}

/// Two distinct catalog positions hold distinct reorientations.
pub proof fn lemma_catalog_distinct(j1: int, j2: int)
    requires
        0 <= j1 < 24,
        0 <= j2 < 24,
        j1 != j2,
    ensures
        spec_all_reorients()[j1] != spec_all_reorients()[j2],
{
    lemma_catalog_index(j1);
    lemma_catalog_index(j2);
}

/// The identity reorientation costs 0 whatever the cheap-move mask says.
pub proof fn lemma_identity_cost(cheap_mask: u32)
    ensures
        Reorient::Identity.spec_cost(cheap_mask) == 0,
{
}

/// Marking a non-identity reorientation cheap forces its effective cost to
/// exactly 1, which never exceeds its base cost.
pub proof fn lemma_cheap_override(r: Reorient, cheap_mask: u32)
    requires
        r != Reorient::Identity,
        r.spec_is_cheap(cheap_mask),
    ensures
        r.spec_cost(cheap_mask) == 1,
        r.spec_cost(cheap_mask) <= r.spec_base_cost(),
{
}

} // verus!
