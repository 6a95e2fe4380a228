//! The kinds of blocks that compute with numbers.

use crate::blocks::Builtin;
use crate::logic::Logic;
use vstd::prelude::*;

verus! {

/// The kinds of this module, in the order in which they are registered.
pub open spec fn kinds() -> Seq<Builtin> {
    seq![
        Builtin::IntegerAdd,
        Builtin::IntegerSubtract,
        Builtin::IntegerMultiply,
        Builtin::IntegerDivide,
        Builtin::IntegerWrite,
    ]
}

/// Registers the kinds of this module.
pub fn add_blocks(logic: &mut Logic<Builtin>)
    ensures
        final(logic).blocks@ == old(logic).blocks@ + kinds(),
        final(logic).types == old(logic).types,
{
    logic.add_block(Builtin::IntegerAdd);
    logic.add_block(Builtin::IntegerSubtract);
    logic.add_block(Builtin::IntegerMultiply);
    logic.add_block(Builtin::IntegerDivide);
    logic.add_block(Builtin::IntegerWrite);
    assert(logic.blocks@ =~= old(logic).blocks@ + kinds());
}

} // verus!
