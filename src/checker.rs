//! The checks that run on a parsed program.
use vstd::prelude::*;

use crate::ast::Program;

verus! {

/// Checks a parsed program before it runs. Scoping and type rules are not enforced yet, so
/// every program passes.
pub fn check_program(program: &Program) -> (r: Result<(), String>)
    ensures
        r is Ok,
{
    Ok(())
}

} // verus!
