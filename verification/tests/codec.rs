//! Whole-codec checks: round trips, back-reference behavior, boundary
//! forms and error reports, on concrete symbols.
use std_mangle_rs::ast::{
    Abi, AbsolutePath, BasicType, GenericArgumentList, Ident, IdentTag, NumericDisambiguator,
    PathPrefix, Subst, Symbol, Type,
};
use std_mangle_rs::compress::compress_ext;
use std_mangle_rs::decompress::Decompress;
use std_mangle_rs::direct_demangle::Demangler;
use std_mangle_rs::{ast_to_demangled_symbol, mangled_symbol_to_ast};

fn ident(text: &str) -> Ident {
    Ident { ident: text.to_string(), tag: IdentTag::TypeNs, dis: NumericDisambiguator(0) }
}

fn crate_root(name: &str, dis: &str) -> PathPrefix {
    PathPrefix::CrateId { name: name.to_string(), dis: dis.to_string() }
}

fn path(prefix: PathPrefix, args: Vec<Type>) -> AbsolutePath {
    AbsolutePath::Path { name: Box::new(prefix), args: GenericArgumentList(args) }
}

fn node(prefix: PathPrefix, id: &str) -> PathPrefix {
    PathPrefix::Node { prefix: Box::new(prefix), ident: ident(id) }
}

fn symbol(name: AbsolutePath) -> Symbol {
    Symbol { name, instantiating_crate: None }
}

fn mangle(sym: &Symbol) -> String {
    let mut out = String::new();
    sym.mangle(&mut out);
    out
}

fn vec_i32_symbol() -> Symbol {
    symbol(path(node(node(crate_root("std", "0"), "vec"), "Vec"), vec![Type::BasicType(
        BasicType::I32,
    )]))
}

#[test]
fn minimal_symbol_mangles_and_parses_back() {
    let sym = symbol(path(crate_root("std", "0"), vec![]));
    let mangled = mangle(&sym);
    assert_eq!(mangled, "_RN5std_0E");
    let parsed = mangled_symbol_to_ast(&mangled).unwrap();
    assert_eq!(parsed, sym);
}

#[test]
fn nested_path_with_generic_argument() {
    let sym = vec_i32_symbol();
    let mangled = mangle(&sym);
    assert_eq!(mangled, "_RN5std_03vec3VecIlEE");
    let parsed = mangled_symbol_to_ast(&mangled).unwrap();
    assert_eq!(parsed, sym);
    assert_eq!(ast_to_demangled_symbol(&sym, true), "std[0]::vec::Vec<i32>");
    assert_eq!(ast_to_demangled_symbol(&sym, false), "std::vec::Vec<i32>");
}

#[test]
fn trait_impl_round_trips_through_compression() {
    let box_t = path(node(crate_root("alloc", "1"), "Box"), vec![Type::GenericParam(ident(
        "T",
    ))]);
    let drop_path = path(node(node(crate_root("core", "2"), "ops"), "Drop"), vec![]);
    let prefix = PathPrefix::TraitImpl {
        self_type: Box::new(Type::Named(Box::new(box_t))),
        impled_trait: Some(Box::new(drop_path)),
        dis: NumericDisambiguator(0),
    };
    let sym = symbol(path(node(prefix, "drop"), vec![]));
    let (compressed, _state) = compress_ext(&sym);
    let decompressed = Decompress::decompress(&compressed);
    assert_eq!(decompressed, sym);
    let mangled = mangle(&compressed);
    let parsed = mangled_symbol_to_ast(&mangled).unwrap();
    assert_eq!(parsed, compressed);
    assert_eq!(Decompress::decompress(&parsed), sym);
}

#[test]
fn back_reference_reuse_in_tuple() {
    let string_path = || {
        Type::Named(Box::new(path(node(node(crate_root("std", "0"), "string"), "String"),
            vec![])))
    };
    let sym = symbol(path(node(crate_root("demo", "7"), "pair"), vec![Type::Tuple(vec![
        string_path(),
        string_path(),
    ])]));
    let (compressed, state) = compress_ext(&sym);
    let mangled_compressed = mangle(&compressed);
    assert!(mangled_compressed.contains('S'));
    // density: the dictionary indices are exactly 0..N-1 in order
    let dict = state.to_debug_dictionary();
    for (i, entry) in dict.data.iter().enumerate() {
        assert_eq!(entry.0, Subst(i as u64));
    }
    // no basic type is ever a dictionary key
    for entry in dict.data.iter() {
        assert_ne!(entry.1, "bool");
        assert_ne!(entry.1, "i32");
    }
    assert_eq!(Decompress::decompress(&compressed), sym);
    // the direct demangler agrees with the pretty printer, both modes
    let expected_verbose = ast_to_demangled_symbol(&sym, true);
    let expected_plain = ast_to_demangled_symbol(&sym, false);
    assert_eq!(Demangler::demangle(mangled_compressed.as_bytes(), true).unwrap(),
        expected_verbose);
    assert_eq!(Demangler::demangle(mangled_compressed.as_bytes(), false).unwrap(),
        expected_plain);
}

#[test]
fn alternative_compressor_agrees() {
    let string_path = || {
        Type::Named(Box::new(path(node(node(crate_root("std", "0"), "string"), "String"),
            vec![])))
    };
    let sym = Symbol {
        name: path(node(crate_root("demo", "7"), "pair"), vec![Type::Tuple(vec![
            string_path(),
            string_path(),
            Type::RefMut(Box::new(string_path())),
        ])]),
        instantiating_crate: Some(node(crate_root("std", "0"), "string")),
    };
    let (fast, _) = compress_ext(&sym);
    let (reference, _) = std_mangle_rs::compress_alt::compress_ext(&sym);
    assert_eq!(fast, reference);
    assert_eq!(mangle(&fast), mangle(&reference));
}

#[test]
fn empty_generic_argument_list_emits_nothing() {
    let sym = symbol(path(crate_root("core", "9"), vec![]));
    let mangled = mangle(&sym);
    assert!(!mangled.contains('I'));
    let parsed = mangled_symbol_to_ast(&mangled).unwrap();
    assert_eq!(parsed, sym);
    // compressing adds one entry for the prefix, none for the empty list
    let (_, state) = compress_ext(&sym);
    assert_eq!(state.to_debug_dictionary().len(), 1);
}

#[test]
fn zero_back_reference_and_short_disambiguator_forms() {
    let mut out = String::new();
    Subst(0).mangle(&mut out);
    assert_eq!(out, "S_");
    let mut out = String::new();
    NumericDisambiguator(1).mangle(&mut out);
    assert_eq!(out, "s_");
    let mut out = String::new();
    NumericDisambiguator(2).mangle(&mut out);
    assert_eq!(out, "s0_");
}

#[test]
fn array_without_length_has_no_decimal_prefix() {
    let mut out = String::new();
    Type::Array(None, Box::new(Type::BasicType(BasicType::Bool))).mangle(&mut out);
    assert_eq!(out, "Ab");
    let mut out = String::new();
    Type::Array(Some(3), Box::new(Type::BasicType(BasicType::Bool))).mangle(&mut out);
    assert_eq!(out, "A3b");
}

#[test]
fn function_type_return_clause_forms() {
    let no_ret = Type::Fn {
        is_unsafe: false,
        abi: Abi::Rust,
        params: vec![Type::BasicType(BasicType::U8)],
        return_type: None,
    };
    let mut out = String::new();
    no_ret.mangle(&mut out);
    assert_eq!(out, "FhE");
    let unit_ret = Type::Fn {
        is_unsafe: true,
        abi: Abi::C,
        params: vec![],
        return_type: Some(Box::new(Type::BasicType(BasicType::Unit))),
    };
    let mut out = String::new();
    unit_ret.mangle(&mut out);
    assert_eq!(out, "FUKcJuE");
}

#[test]
fn closure_identifier_forms() {
    let closure = Ident {
        ident: String::new(),
        tag: IdentTag::Closure,
        dis: NumericDisambiguator(1),
    };
    let sym = symbol(path(
        PathPrefix::Node { prefix: Box::new(crate_root("app", "3")), ident: closure },
        vec![],
    ));
    let mangled = mangle(&sym);
    assert!(mangled.contains("Cs_"));
    let demangled = ast_to_demangled_symbol(&sym, true);
    assert!(demangled.ends_with("{closure}[2]"));
    // disambiguator 0 still shows its index on closures
    let closure0 = Ident {
        ident: String::new(),
        tag: IdentTag::Closure,
        dis: NumericDisambiguator(0),
    };
    let sym0 = symbol(path(
        PathPrefix::Node { prefix: Box::new(crate_root("app", "3")), ident: closure0 },
        vec![],
    ));
    assert!(ast_to_demangled_symbol(&sym0, false).ends_with("{closure}[1]"));
    let parsed = mangled_symbol_to_ast(&mangled).unwrap();
    assert_eq!(parsed, sym);
}

#[test]
fn non_ascii_identifier_round_trips() {
    let text: String = [0x3C1u32, 0x3C5, 0x3C3, 0x3C4]
        .iter()
        .map(|&c| char::from_u32(c).unwrap())
        .collect();
    let id = Ident { ident: text, tag: IdentTag::TypeNs, dis: NumericDisambiguator(0) };
    let sym = symbol(path(
        PathPrefix::Node { prefix: Box::new(crate_root("demo", "1")), ident: id },
        vec![],
    ));
    let mangled = mangle(&sym);
    assert!(mangled.contains('u'));
    assert!(mangled.is_ascii());
    let parsed = mangled_symbol_to_ast(&mangled).unwrap();
    assert_eq!(parsed, sym);
}

#[test]
fn version_tag_is_refused_with_its_number() {
    let err = mangled_symbol_to_ast("_R7N5std_0E").unwrap_err();
    assert!(err.contains("version 8"));
    assert!(err.contains("highest supported version is 0"));
}

#[test]
fn direct_demangler_reports_missing_back_reference() {
    let err = Demangler::demangle(b"_RS_E", true).unwrap_err();
    assert!(err.contains("back-reference to an index not yet defined"));
}

#[test]
fn truncated_input_is_refused() {
    assert!(mangled_symbol_to_ast("_RN5std_0").is_err());
    assert!(mangled_symbol_to_ast("").is_err());
    assert!(mangled_symbol_to_ast("_RZ").is_err());
}

#[test]
fn full_codec_round_trip() {
    let sym = Symbol {
        name: vec_i32_symbol().name,
        instantiating_crate: Some(node(crate_root("std", "0"), "vec")),
    };
    // mangle-parse round trip on the uncompressed form
    let parsed = mangled_symbol_to_ast(&mangle(&sym)).unwrap();
    assert_eq!(parsed, sym);
    // compress, mangle, parse: the compressed form comes back
    let (compressed, _) = compress_ext(&sym);
    let mangled = mangle(&compressed);
    let reparsed = mangled_symbol_to_ast(&mangled).unwrap();
    assert_eq!(reparsed, compressed);
    // and decompressing it restores the original
    assert_eq!(Decompress::decompress(&reparsed), sym);
    // the direct demangler matches the pretty printer in both modes
    assert_eq!(Demangler::demangle(mangled.as_bytes(), true).unwrap(),
        ast_to_demangled_symbol(&sym, true));
    assert_eq!(Demangler::demangle(mangled.as_bytes(), false).unwrap(),
        ast_to_demangled_symbol(&sym, false));
}

#[test]
fn inherent_impl_scope_round_trips() {
    let self_ty = Type::Named(Box::new(path(node(crate_root("demo", "4"), "Thing"), vec![])));
    let prefix = PathPrefix::InherentImpl { self_type: Box::new(self_ty) };
    let sym = symbol(path(node(prefix, "get"), vec![]));
    let mangled = mangle(&sym);
    assert!(mangled.contains('M'));
    let parsed = mangled_symbol_to_ast(&mangled).unwrap();
    assert_eq!(parsed, sym);
    let (compressed, _) = compress_ext(&sym);
    assert_eq!(Decompress::decompress(&compressed), sym);
}

#[test]
fn diagnostic_builders_render_expected_and_version() {
    let e: Result<(), String> =
        std_mangle_rs::error::expected("NS", b'X', "demangling", "<absolute-path>");
    assert_eq!(e.unwrap_err(), "Expected 'N' or 'S'; found 'X' instead; while demangling <absolute-path>");
    let e: Result<(), String> = std_mangle_rs::error::expected("#", b'Z', "parsing", "<ident>");
    assert_eq!(e.unwrap_err(), "Expected digit; found 'Z' instead; while parsing <ident>");
    let e: Result<(), String> = std_mangle_rs::error::expected("abc", b'q', "parsing", "<x>");
    assert_eq!(e.unwrap_err(), "Expected 'a', 'b', or 'c'; found 'q' instead; while parsing <x>");
    let v: Result<(), String> = std_mangle_rs::error::version_mismatch(3, 0);
    assert_eq!(v.unwrap_err(), "Symbol uses encoding version 3 but the highest supported version is 0.");
    assert_eq!(std_mangle_rs::error::char_to_str('#'), "digit");
    assert_eq!(std_mangle_rs::error::char_to_str('E'), "'E'");
}

#[test]
fn direct_demangler_names_the_missing_index() {
    let err = Demangler::demangle(b"_RS3_E", true).unwrap_err();
    assert!(err.contains("back-reference to an index not yet defined: 4"));
}
