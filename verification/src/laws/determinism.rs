//! Compiling is a function of the program.
use vstd::prelude::*;
use crate::compiler::ast::StatementNode;
use crate::compiler::model::CompileError;
use crate::compiler::{compiles_to, Script};

verus! {

/// Two compilations of the same statements give the same script: the same
/// functions in the same order, each with the same code byte for byte, the
/// same constants and the same lines, and the same strings.  If one fails,
/// the other fails with the same error.
pub proof fn lemma_compile_is_deterministic(
    stmts: Seq<StatementNode>,
    first: Result<Script, CompileError>,
    second: Result<Script, CompileError>,
)
    requires
        compiles_to(stmts, first),
        compiles_to(stmts, second),
    ensures
        match (first, second) {
            (Ok(a), Ok(b)) => a@ == b@ && a.functions@.len() == b.functions@.len() && forall|f: int|
                0 <= f < a.functions@.len() ==> (#[trigger] a.functions@[f]).chunk.code@
                    == b.functions@[f].chunk.code@ && a.functions@[f].chunk.constants@
                    == b.functions@[f].chunk.constants@,
            (Err(a), Err(b)) => a == b,
            _ => false,
        },
{
    match (first, second) {
        (Ok(a), Ok(b)) => {
            assert(a@.functions.len() == a.functions@.len());
            assert(b@.functions.len() == b.functions@.len());
            assert forall|f: int| 0 <= f < a.functions@.len() implies (
            #[trigger] a.functions@[f]).chunk.code@ == b.functions@[f].chunk.code@
                && a.functions@[f].chunk.constants@ == b.functions@[f].chunk.constants@ by {
                assert(a@.functions[f] == a.functions@[f]@);
                assert(b@.functions[f] == b.functions@[f]@);
            }
        },
        _ => {},
    }
}

} // verus!
