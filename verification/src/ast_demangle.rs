//! Rendering the structured form to readable text, as a trait over the
//! node types, for callers that want one entry point on any node.
use vstd::prelude::*;

use crate::ast::{AbsolutePath, PathPrefix, Symbol, Type};
use crate::pretty::{
    spec_pretty_path, spec_pretty_prefix, spec_pretty_symbol, spec_pretty_type,
};

verus! {

/// One entry point for rendering a node as readable text. Each
/// implementor fixes `rendering` to its pretty-printer spec function, so
/// these methods agree with `pretty_print` by contract.
pub trait AstDemangle {
    /// What this node renders as, in the given mode.
    spec fn rendering(&self, verbose: bool) -> Seq<char>;

    /// Appends this node's rendering to a string.
    fn demangle_to_string(&self, out: &mut String, verbose: bool)
        ensures
            final(out)@ == old(out)@ + self.rendering(verbose),
    ;

    /// This node's rendering, as a string.
    fn demangle(&self, verbose: bool) -> (r: String)
        ensures
            r@ == self.rendering(verbose),
    ;
}

impl AstDemangle for Symbol {
    open spec fn rendering(&self, verbose: bool) -> Seq<char> {
        spec_pretty_symbol(self@, verbose)
    }

    fn demangle_to_string(&self, out: &mut String, verbose: bool) {
        self.pretty_print(out, verbose);
    }

    fn demangle(&self, verbose: bool) -> (r: String) {
        let mut out = String::new();
        self.pretty_print(&mut out, verbose);
        out
    }
}

impl AstDemangle for Type {
    open spec fn rendering(&self, verbose: bool) -> Seq<char> {
        spec_pretty_type(self@, verbose)
    }

    fn demangle_to_string(&self, out: &mut String, verbose: bool) {
        self.pretty_print(out, verbose);
    }

    fn demangle(&self, verbose: bool) -> (r: String) {
        let mut out = String::new();
        self.pretty_print(&mut out, verbose);
        out
    }
}

impl AstDemangle for AbsolutePath {
    open spec fn rendering(&self, verbose: bool) -> Seq<char> {
        spec_pretty_path(self@, verbose)
    }

    fn demangle_to_string(&self, out: &mut String, verbose: bool) {
        self.pretty_print(out, verbose);
    }

    fn demangle(&self, verbose: bool) -> (r: String) {
        let mut out = String::new();
        self.pretty_print(&mut out, verbose);
        out
    }
}

impl AstDemangle for PathPrefix {
    open spec fn rendering(&self, verbose: bool) -> Seq<char> {
        spec_pretty_prefix(self@, verbose)
    }

    fn demangle_to_string(&self, out: &mut String, verbose: bool) {
        self.pretty_print(out, verbose);
    }

    fn demangle(&self, verbose: bool) -> (r: String) {
        let mut out = String::new();
        self.pretty_print(&mut out, verbose);
        out
    }
}

} // verus!
