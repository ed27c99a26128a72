//! Running a parsed program.
use vstd::prelude::*;

use crate::ast::{Function, Program};
use crate::checker::check_program;

verus! {

/// The name of the function where a program starts.
pub open spec fn main_name() -> Seq<char> {
    seq!['m', 'a', 'i', 'n']
}

/// Whether the program has a function named `main`.
pub open spec fn has_main(program: &Program) -> bool {
    exists|k: int| 0 <= k < program.functions@.len() && #[trigger] program.functions@[k].name@ == main_name()
}

fn is_main(name: &String) -> (r: bool)
    ensures
        r == (name@ == main_name()),
{
    let s = name.as_str();
    if s.unicode_len() != 4 {
        return false;
    }
    let r = s.get_char(0) == 'm' && s.get_char(1) == 'a' && s.get_char(2) == 'i' && s.get_char(3)
        == 'n';
    if r {
        assert(s@ =~= main_name());
    } else {
        assert(s@ != main_name()) by {
            if s@ == main_name() {
                assert(s@[0] == 'm' && s@[1] == 'a' && s@[2] == 'i' && s@[3] == 'n');
            }
        }
    }
    r
}

/// The first function of the program named `main`, if there is one.
fn get_main(program: &Program) -> (r: Option<&Function>)
    ensures
        r is Some <==> has_main(program),
        r matches Some(f) ==> exists|k: int|
            0 <= k < program.functions@.len() && *f == program.functions@[k] && f.name@
                == main_name() && forall|j: int| 0 <= j < k ==> program.functions@[j].name@
                != main_name(),
{
    let mut k: usize = 0;
    while k < program.functions.len()
        invariant
            k <= program.functions@.len(),
            forall|j: int| 0 <= j < k ==> program.functions@[j].name@ != main_name(),
        decreases program.functions@.len() - k,
    {
        if is_main(&program.functions[k].name) {
            return Some(&program.functions[k]);
        }
        k = k + 1;
    }
    None
}

/// Runs a program from its `main` function, after checking it. Evaluation is not done yet:
/// the result says whether the program checks and has a `main`.
pub fn run_program(program: &Program) -> (r: Result<(), String>)
    ensures
        r is Ok <==> has_main(program),
{
    match check_program(program) {
        Ok(()) => {},
        Err(msg) => return Err(msg),
    }
    match get_main(program) {
        Some(_) => Ok(()),
        None => Err("no main function found in program".to_string()),
    }
}

} // verus!
