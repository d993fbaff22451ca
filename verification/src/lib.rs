//! A codec for an ASCII symbol-mangling scheme: a structured form of
//! fully-qualified names, a mangler and parser for its byte form, a
//! back-reference compressor with its reference twin, a decompressor, a
//! pretty printer, and a one-pass direct demangler.
use vstd::prelude::*;
use vstd::string::StringSliceAdditionalSpecFns;

pub mod ast;
pub mod ast_demangle;
pub mod charset;
pub mod compress;
pub mod compress_alt;
pub mod debug;
pub mod decompress;
pub mod direct_demangle;
pub mod error;
pub mod int_radix;
pub mod mangle;
pub mod parse;
pub mod pretty;
pub mod roundtrip;
pub mod text;

verus! {

broadcast use vstd::std_specs::vec::group_vec_axioms, vstd::seq::group_seq_axioms;

/// Builds the structured form of a mangled symbol name.
pub fn mangled_symbol_to_ast(mangled_symbol: &str) -> (r: Result<ast::Symbol, String>)
    ensures
        match r {
            Ok(sym) => parse::sp_symbol(
                text::chars_of_bytes(mangled_symbol.spec_bytes()),
            ) matches Ok(t) && t.0 == sym@,
            Err(m) => (parse::sp_symbol(text::chars_of_bytes(mangled_symbol.spec_bytes()))
                matches Err(ep) && m@ == parse::spec_parse_err_msg(ep.0, ep.1)),
        },
{
    parse::parse(mangled_symbol.as_bytes())
}

/// Renders the structured form of a symbol as readable text; it returns
/// exactly what the render-to-string trait returns for the same node and
/// mode.
pub fn ast_to_demangled_symbol(symbol_ast: &ast::Symbol, verbose: bool) -> (r: String)
    ensures
        r@ == pretty::spec_pretty_symbol(symbol_ast@, verbose),
        r@ == crate::ast_demangle::AstDemangle::rendering(symbol_ast, verbose),
{
    let mut out = String::new();
    symbol_ast.pretty_print(&mut out, verbose);
    out
}

} // verus!
