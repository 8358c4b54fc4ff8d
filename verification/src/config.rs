//! Run configuration: the options a caller fixes once before the first
//! search, and the translation of user-given cheap-reorientation names into
//! the bit mask that the cost function reads.

use vstd::prelude::*;
use vstd::string::StringExecFns;
use crate::reorient::{Reorient, spec_all_reorients, all_reorients};

verus! {

/// The options of a run, fixed before the first search.
#[derive(Debug)]
pub struct Args {
    /// Depth of the pruning table (must be at least 2).
    pub depth: u8,
    /// Use sticker notation instead of axis-rotation notation for
    /// reorientations.
    pub stickers: bool,
    /// Keep every solution at the winning reorientation count instead of
    /// just the cheapest ones.
    pub all: bool,
    /// Names of reorientations to count as cost 1, written without the `O`
    /// prefix of the axis-rotation notation.
    pub cheap_moves: Vec<String>,
    /// Maximum reorientation budget to search.
    pub max_depth: usize,
}

/// Whether a user-given name picks out a reorientation: prefixing `O` and
/// the display blanks must give exactly its axis-rotation token.
pub open spec fn spec_name_marks(r: Reorient, name: String) -> bool {
    r.spec_xyz_token() == " O"@ + name@ + " "@
}

/// The cheap-move mask restricted to catalog positions below `upto`: bit `i`
/// is set exactly when some given name picks out the reorientation at
/// position `i`.
pub open spec fn spec_cheap_mask(names: Seq<String>, upto: int) -> u32
    decreases upto,
{
    if upto <= 0 {
        0u32
    } else {
        spec_cheap_mask(names, upto - 1) | (if exists|j: int|
            0 <= j < names.len() && spec_name_marks(spec_all_reorients()[upto - 1], names[j]) {
            1u32 << ((upto - 1) as u32)
        } else {
            0u32
        })
    }
}

/// Builds the cheap-move mask from the user-given reorientation names.
pub fn cheap_move_mask(cheap_names: &Vec<String>) -> (mask: u32)
    ensures
        mask == spec_cheap_mask(cheap_names@, 24),
{
    let all = all_reorients();
    let mut mask: u32 = 0;
    for i in 0..24usize
        invariant
            mask == spec_cheap_mask(cheap_names@, i as int),
            all@ == spec_all_reorients(),
    {
        let token = all[i].to_token(false);
        let mut hit = false;
        let n = cheap_names.len();
        for j in 0..n
            invariant
                n == cheap_names@.len(),
                i < 24,
                all@ == spec_all_reorients(),
                token@ == spec_all_reorients()[i as int].spec_xyz_token(),
                hit == exists|jj: int|
                    0 <= jj < j && spec_name_marks(
                        spec_all_reorients()[i as int],
                        cheap_names@[jj],
                    ),
        {
            let mut cand = String::from_str(" O");
            cand.append(cheap_names[j].as_str());
            cand.append(" ");
            if cand == token {
                proof {
                    assert(spec_name_marks(spec_all_reorients()[i as int], cheap_names@[j as int]));
                }
                hit = true;
            }
        }
        if hit {
            mask = mask | (1u32 << (i as u32));
        } else {
            proof {
                assert(mask | 0u32 == mask) by (bit_vector);
            }
        }
    }
    mask
}

} // verus!
