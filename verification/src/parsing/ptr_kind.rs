use vstd::prelude::*;

verus! {

/// The pointer flavour a `new` expression asks for in the grammar. The
/// evaluator models none of them; converting such an expression reports
/// unsupported syntax.
#[derive(Debug, Clone, Copy, PartialEq, Eq, Structural)]
pub enum PtrKind {
    RawPtr,
    Box,
    Rc,
}

} // verus!
