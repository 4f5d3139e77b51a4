//! A small transpiler from a Lisp-family dialect to Rust-like target text.
//!
//! Source text is read into `AstVal` trees, each top-level form is rewritten
//! into a canonical `SyntaxNode` tree that tracks lexically bound names, and
//! the canonical tree is emitted as target-language source text.
pub mod ast;
pub mod canon;
pub mod diag;
pub mod laws;
pub mod model;
pub mod num;
pub mod reader;
pub mod strutil;
pub mod syntax;
pub mod translate;

use vstd::prelude::*;

verus! {

use crate::ast::AstVal;
use crate::diag::ErrKind;
use crate::model::ValModel;

/// The text a top-level value compiles to: the syntax rewrite, then the
/// emission of the canonical tree.
pub open spec fn compile_spec(m: ValModel) -> Result<Seq<char>, ErrKind> {
    match crate::canon::syntax_spec(m) {
        Err(e) => Err(e),
        Ok(n) => crate::translate::emit_spec(n),
    }
}

/// Compiles one top-level value to one unit of target-language source
/// text.
pub fn compile(c: &AstVal) -> (res: Result<String, ErrKind>)
    ensures
        compile_spec(c@) matches Ok(t) ==> res matches Ok(r) && r@ == t,
        compile_spec(c@) matches Err(e) ==> res == Result::<String, ErrKind>::Err(e),
{
    match crate::syntax::syntax(c) {
        Err(e) => {
            return Err(e);
        },
        Ok(n) => {
            return crate::translate::translate(&n);
        },
    }
}

} // verus!
