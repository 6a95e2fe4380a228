//! The kinds of blocks that work on texts.

use crate::blocks::Builtin;
use crate::logic::Logic;
use vstd::prelude::*;

verus! {

/// The kinds of this module, in the order in which they are registered.
pub open spec fn kinds() -> Seq<Builtin> {
    seq![
        Builtin::StringAdd,
        Builtin::StringLength,
        Builtin::StringTrim,
        Builtin::StringToLowercase,
        Builtin::StringToUppercase,
        Builtin::StringInsert,
    ]
}

/// Registers the kinds of this module.
pub fn add_blocks(logic: &mut Logic<Builtin>)
    ensures
        final(logic).blocks@ == old(logic).blocks@ + kinds(),
        final(logic).types == old(logic).types,
{
    logic.add_block(Builtin::StringAdd);
    logic.add_block(Builtin::StringLength);
    logic.add_block(Builtin::StringTrim);
    logic.add_block(Builtin::StringToLowercase);
    logic.add_block(Builtin::StringToUppercase);
    logic.add_block(Builtin::StringInsert);
    assert(logic.blocks@ =~= old(logic).blocks@ + kinds());
}

} // verus!
