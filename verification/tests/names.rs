use bindgen::gen::{enum_name, rust_id, rust_type_id, struct_name, union_name, unnamed_name, GenCtx};
use bindgen::types::Decls;

fn empty_decls() -> Decls {
    Decls { comps: Vec::new(), enums: Vec::new(), typedefs: Vec::new(), vars: Vec::new() }
}

#[test]
fn rust_id_escapes_keywords() {
    assert_eq!(rust_id(&"type".to_string()), ("_type".to_string(), true));
    assert_eq!(rust_id(&"fn".to_string()), ("_fn".to_string(), true));
    assert_eq!(rust_id(&"__log_level".to_string()), ("___log_level".to_string(), true));
    assert_eq!(rust_id(&"bool".to_string()), ("_bool".to_string(), true));
}

#[test]
fn rust_id_keeps_other_names() {
    assert_eq!(rust_id(&"foo".to_string()), ("foo".to_string(), false));
    assert_eq!(rust_id(&"Type".to_string()), ("Type".to_string(), false));
    assert_eq!(rust_id(&"".to_string()), ("".to_string(), false));
    assert_eq!(rust_id(&"u32".to_string()), ("u32".to_string(), false));
}

#[test]
fn rust_type_id_escapes_primitive_names() {
    assert_eq!(rust_type_id(&"u32".to_string()), "_u32");
    assert_eq!(rust_type_id(&"Self".to_string()), "_Self");
    assert_eq!(rust_type_id(&"str".to_string()), "_str");
    assert_eq!(rust_type_id(&"bool".to_string()), "_bool");
    assert_eq!(rust_type_id(&"mod".to_string()), "_mod");
    assert_eq!(rust_type_id(&"u64".to_string()), "u64");
    assert_eq!(rust_type_id(&"Xy".to_string()), "Xy");
}

#[test]
fn escaped_names_are_never_reserved() {
    let words = ["as", "struct", "bool", "u8", "Self", "__log_level", "_as", "x", "be"];
    let keywords = [
        "self", "static", "as", "break", "const", "copy", "do", "else", "enum", "extern", "false", "fn",
        "for", "if", "impl", "let", "__log_level", "loop", "match", "mod", "mut", "once", "priv", "pub",
        "pure", "ref", "return", "struct", "super", "true", "trait", "type", "unsafe", "use", "while", "be",
    ];
    let prims = ["bool", "uint", "u8", "u16", "u32", "f32", "f64", "i8", "i16", "i32", "i64", "Self", "str"];
    for w in words.iter() {
        let (id, _) = rust_id(&w.to_string());
        assert!(!keywords.contains(&id.as_str()));
        let tid = rust_type_id(&w.to_string());
        assert!(!keywords.contains(&tid.as_str()));
        assert!(!prims.contains(&tid.as_str()));
    }
}

#[test]
fn prefixed_names() {
    assert_eq!(struct_name("Foo"), "Struct_Foo");
    assert_eq!(union_name("U"), "Union_U");
    assert_eq!(enum_name("E"), "Enum_E");
    assert_eq!(struct_name(""), "Struct_");
}

#[test]
fn unnamed_name_counts_fresh_names() {
    let d = empty_decls();
    let mut ctx = GenCtx::new(&d);
    assert_eq!(unnamed_name(&mut ctx, "".to_string()), "Unnamed1");
    assert_eq!(unnamed_name(&mut ctx, "named".to_string()), "named");
    assert_eq!(unnamed_name(&mut ctx, "".to_string()), "Unnamed2");
    assert_eq!(ctx.unnamed_ty, 2);
}

#[test]
fn unnamed_name_counter_wraps() {
    let d = empty_decls();
    let mut ctx = GenCtx::new(&d);
    ctx.unnamed_ty = usize::MAX;
    assert_eq!(unnamed_name(&mut ctx, "".to_string()), "Unnamed0");
    assert_eq!(ctx.unnamed_ty, 0);
    ctx.unnamed_ty = 9;
    assert_eq!(unnamed_name(&mut ctx, "".to_string()), "Unnamed10");
}
