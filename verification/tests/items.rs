use bindgen::gen::{
    cenum_to_rs, cfunc_args_to_rs, cmethod_to_rs, comp_methods_to_rs, cfunc_to_rs, cstruct_to_rs, cty_to_rs, cunion_to_rs, cvar_to_rs,
    ctypedef_to_rs, methods_to_impl_rs, mk_arrty, mk_extern, mk_fcall, mk_fnty, mk_import,
    mk_link_name_attr, mk_ptrty, mk_ty, GenCtx,
};
use bindgen::types::{
    CompInfo, Decls, EnumInfo, EnumItem, FKind, FieldInfo, IKind, MethodInfo, Type, TypeInfo,
};

fn s(x: &str) -> String {
    x.to_string()
}

fn c_int_ty() -> Type {
    Type::TInt(IKind::IInt)
}

fn field(name: &str, ty: Type) -> FieldInfo {
    FieldInfo { name: s(name), ty }
}

fn comp(name: &str, cstruct: bool, fields: Vec<FieldInfo>) -> CompInfo {
    CompInfo { cstruct, name: s(name), fields, methods: Vec::new(), size: 0 }
}

fn decls(comps: Vec<CompInfo>, enums: Vec<EnumInfo>) -> Decls {
    Decls { comps, enums, typedefs: Vec::new(), vars: Vec::new() }
}

const UNION_BODY: &str = "unsafe { std::cast::transmute(&std::ptr::to_mut_unsafe_ptr(self)) }";

#[test]
fn type_builders() {
    assert_eq!(mk_ty("c_int"), "c_int");
    assert_eq!(mk_ptrty("c_int", true), "*c_int");
    assert_eq!(mk_ptrty("c_int", false), "*mut c_int");
    assert_eq!(mk_arrty("c_uchar", 16), "[c_uchar, ..16]");
    assert_eq!(mk_arrty("c_uchar", 0), "[c_uchar, ..0]");
    assert_eq!(mk_arrty("T", 1234567), "[T, ..1234567]");
    assert_eq!(mk_fnty(), "*u8");
}

#[test]
fn scalar_types() {
    let d = decls(Vec::new(), Vec::new());
    let mut ctx = GenCtx::new(&d);
    let cases = vec![
        (Type::TVoid, "c_void"),
        (Type::TInt(IKind::IBool), "c_int"),
        (Type::TInt(IKind::ISChar), "c_schar"),
        (Type::TInt(IKind::IUChar), "c_uchar"),
        (Type::TInt(IKind::IInt), "c_int"),
        (Type::TInt(IKind::IUInt), "c_uint"),
        (Type::TInt(IKind::IShort), "c_short"),
        (Type::TInt(IKind::IUShort), "c_ushort"),
        (Type::TInt(IKind::ILong), "c_long"),
        (Type::TInt(IKind::IULong), "c_ulong"),
        (Type::TInt(IKind::ILongLong), "c_longlong"),
        (Type::TInt(IKind::IULongLong), "c_ulonglong"),
        (Type::TFloat(FKind::FFloat), "c_float"),
        (Type::TFloat(FKind::FDouble), "c_double"),
    ];
    for (ty, expected) in cases.iter() {
        assert_eq!(cty_to_rs(&mut ctx, &d, ty), *expected);
    }
}

#[test]
fn composite_types() {
    let d = decls(Vec::new(), Vec::new());
    let mut ctx = GenCtx::new(&d);
    let p = Type::TPtr(Box::new(Type::TInt(IKind::ISChar)), true);
    assert_eq!(cty_to_rs(&mut ctx, &d, &p), "*c_schar");
    let pp = Type::TPtr(Box::new(Type::TPtr(Box::new(Type::TFloat(FKind::FFloat)), false)), false);
    assert_eq!(cty_to_rs(&mut ctx, &d, &pp), "*mut *mut c_float");
    let a = Type::TArray(Box::new(Type::TArray(Box::new(c_int_ty()), 0)), 1234567);
    assert_eq!(cty_to_rs(&mut ctx, &d, &a), "[[c_int, ..0], ..1234567]");
    let f = Type::TFunc(Box::new(c_int_ty()), vec![(s("x"), c_int_ty())], false);
    assert_eq!(cty_to_rs(&mut ctx, &d, &f), "*u8");
    let m = Type::TMemberFunc(Box::new(c_int_ty()), Vec::new(), false, true);
    assert_eq!(cty_to_rs(&mut ctx, &d, &m), "c_void");
    let n = Type::TNamed(Box::new(TypeInfo { name: s("u32"), ty: c_int_ty() }));
    assert_eq!(cty_to_rs(&mut ctx, &d, &n), "_u32");
    let n2 = Type::TNamed(Box::new(TypeInfo { name: s("size_t"), ty: c_int_ty() }));
    assert_eq!(cty_to_rs(&mut ctx, &d, &n2), "size_t");
    assert_eq!(ctx.unnamed_ty, 0);
}

#[test]
fn anonymous_declarations_are_named_once() {
    let d = decls(
        vec![comp("", true, Vec::new()), comp("U", false, Vec::new()), comp("", false, Vec::new())],
        vec![EnumInfo { name: s(""), items: Vec::new(), kind: IKind::IInt }],
    );
    let mut ctx = GenCtx::new(&d);
    let t0 = Type::TPtr(Box::new(Type::TComp(0)), false);
    assert_eq!(cty_to_rs(&mut ctx, &d, &t0), "*mut Struct_Unnamed1");
    assert_eq!(ctx.comp_names[0], "Unnamed1");
    assert_eq!(ctx.unnamed_ty, 1);
    // Translating the same type again gives the same text and hands out no new name.
    assert_eq!(cty_to_rs(&mut ctx, &d, &t0), "*mut Struct_Unnamed1");
    assert_eq!(ctx.unnamed_ty, 1);
    assert_eq!(cty_to_rs(&mut ctx, &d, &Type::TComp(1)), "Union_U");
    assert_eq!(ctx.unnamed_ty, 1);
    assert_eq!(cty_to_rs(&mut ctx, &d, &Type::TEnum(0)), "Enum_Unnamed2");
    assert_eq!(cty_to_rs(&mut ctx, &d, &Type::TArray(Box::new(Type::TComp(2)), 3)), "[Union_Unnamed3, ..3]");
    assert_eq!(ctx.enum_names[0], "Unnamed2");
    assert_eq!(ctx.comp_names[2], "Unnamed3");
    assert_eq!(ctx.unnamed_ty, 3);
}

#[test]
fn struct_definition() {
    let d = decls(Vec::new(), Vec::new());
    let mut ctx = GenCtx::new(&d);
    let fields = vec![
        field("x", c_int_ty()),
        field("", Type::TFloat(FKind::FDouble)),
        field("type", Type::TPtr(Box::new(Type::TVoid), false)),
        field("", Type::TInt(IKind::IUChar)),
        field("u8", c_int_ty()),
    ];
    let got = cstruct_to_rs(&mut ctx, &d, &s("Point"), &fields);
    assert_eq!(
        got,
        "pub struct Point {\n    pub x: c_int,\n    pub unnamed_field1: c_double,\n    pub _type: *mut c_void,\n    pub unnamed_field2: c_uchar,\n    pub _u8: c_int,\n}\n"
    );
    assert_eq!(cstruct_to_rs(&mut ctx, &d, &s("str"), &Vec::new()), "pub struct _str {\n}\n");
}

#[test]
fn union_definition() {
    let d = decls(Vec::new(), Vec::new());
    let mut ctx = GenCtx::new(&d);
    let fields = vec![field("i", c_int_ty()), field("", Type::TFloat(FKind::FFloat)), field("u8", c_int_ty())];
    let got = cunion_to_rs(&mut ctx, &d, &s("Value"), &fields, 4);
    let expected = format!(
        "pub struct Value {{\n    pub data: [c_uchar, ..4],\n}}\nimpl Value {{\n    pub fn i(&mut self) -> *mut c_int {{\n        {b}\n    }}\n    pub fn unnamed_field1(&mut self) -> *mut c_float {{\n        {b}\n    }}\n    pub fn u8(&mut self) -> *mut c_int {{\n        {b}\n    }}\n}}\n",
        b = UNION_BODY
    );
    assert_eq!(got, expected);
}

#[test]
fn enum_definition() {
    let items = vec![
        EnumItem { name: s("RED"), val: 0 },
        EnumItem { name: s("fn"), val: -3 },
        EnumItem { name: s("BIG"), val: i64::MIN },
        EnumItem { name: s("TOP"), val: i64::MAX },
    ];
    assert_eq!(
        cenum_to_rs(&s("Color"), &items, IKind::IUInt),
        "pub type Color = c_uint;\npub static RED: c_uint = 0;\npub static _fn: c_uint = -3;\npub static BIG: c_uint = -9223372036854775808;\npub static TOP: c_uint = 9223372036854775807;\n"
    );
    assert_eq!(cenum_to_rs(&s("u8"), &Vec::new(), IKind::IShort), "pub type _u8 = c_short;\n");
}

#[test]
fn typedefs() {
    let d = decls(
        vec![comp("", true, vec![field("a", c_int_ty())]), comp("Named", true, Vec::new())],
        vec![EnumInfo { name: s(""), items: vec![EnumItem { name: s("A"), val: 1 }], kind: IKind::IInt }],
    );
    let mut ctx = GenCtx::new(&d);
    assert_eq!(ctypedef_to_rs(&mut ctx, &d, &s("u32"), &c_int_ty()), "pub type _u32 = c_int;\n");
    assert_eq!(ctypedef_to_rs(&mut ctx, &d, &s("S"), &Type::TComp(0)), "pub struct S {\n    pub a: c_int,\n}\n");
    assert_eq!(ctx.comp_names[0], "S");
    assert_eq!(ctypedef_to_rs(&mut ctx, &d, &s("S2"), &Type::TComp(0)), "pub type S2 = Struct_S;\n");
    assert_eq!(ctypedef_to_rs(&mut ctx, &d, &s("N"), &Type::TComp(1)), "pub type N = Struct_Named;\n");
    assert_eq!(ctypedef_to_rs(&mut ctx, &d, &s("E"), &Type::TEnum(0)), "pub type E = c_int;\npub static A: c_int = 1;\n");
    assert_eq!(ctx.enum_names[0], "E");
    assert_eq!(ctx.unnamed_ty, 0);
}

#[test]
fn foreign_items() {
    let d = decls(Vec::new(), Vec::new());
    let mut ctx = GenCtx::new(&d);
    assert_eq!(mk_link_name_attr("x"), "    #[link_name = \"x\"]\n");
    assert_eq!(cvar_to_rs(&mut ctx, &d, &s("type"), &c_int_ty()), "    #[link_name = \"type\"]\n    static _type: c_int;\n");
    let p = Type::TPtr(Box::new(Type::TInt(IKind::ILong)), true);
    assert_eq!(cvar_to_rs(&mut ctx, &d, &s("count"), &p), "    static count: *c_long;\n");
    let three = vec![(s(""), c_int_ty()), (s(""), c_int_ty()), (s(""), c_int_ty())];
    assert_eq!(
        cfunc_to_rs(&mut ctx, &d, &s("foo"), &c_int_ty(), &three, false),
        "    fn foo(arg1: c_int, arg2: c_int, arg3: c_int) -> c_int;\n"
    );
    assert_eq!(cfunc_to_rs(&mut ctx, &d, &s("foo3"), &Type::TVoid, &vec![(s(""), c_int_ty())], true), "    fn foo3(arg1: c_int);\n");
    assert_eq!(cfunc_to_rs(&mut ctx, &d, &s("match"), &Type::TVoid, &Vec::new(), false), "    #[link_name = \"match\"]\n    fn _match();\n");
    let mixed = vec![(s("x"), c_int_ty()), (s(""), Type::TFloat(FKind::FFloat)), (s("ref"), c_int_ty())];
    let (decl_texts, names) = cfunc_args_to_rs(&mut ctx, &d, &mixed);
    assert_eq!(decl_texts, vec![s("x: c_int"), s("arg1: c_float"), s("_ref: c_int")]);
    assert_eq!(names, vec![s("x"), s("arg1"), s("_ref")]);
}

#[test]
fn blocks_and_calls() {
    assert_eq!(mk_extern(&Some(s("m")), "A", "B"), "#[link_args = \"-lm\"]\npub extern \"C\" {\nAB}\n");
    assert_eq!(mk_extern(&None, "", ""), "pub extern \"C\" {\n}\n");
    assert_eq!(mk_import(&vec![s("std"), s("libc")]), "use std::libc::*;\n");
    assert_eq!(mk_import(&vec![s("a")]), "use a::*;\n");
    assert_eq!(mk_fcall("f", &vec![s("self"), s("x")]), "f(self, x)");
    assert_eq!(mk_fcall("g", &Vec::new()), "g()");
}

#[test]
fn class_methods() {
    let mut foo = comp("Foo", true, Vec::new());
    foo.methods = vec![
        MethodInfo {
            name: s("bar"),
            return_type: Type::TVoid,
            args: vec![(s("x"), c_int_ty()), (s("y"), Type::TFloat(FKind::FFloat))],
        },
        MethodInfo { name: s("getOrange"), return_type: c_int_ty(), args: vec![(s(""), c_int_ty())] },
    ];
    let d = decls(vec![foo], Vec::new());
    let mut ctx = GenCtx::new(&d);
    assert_eq!(
        methods_to_impl_rs(&mut ctx, &d, 0),
        "impl Struct_Foo {\n    pub unsafe fn bar(&mut self, x: c_int, y: c_float) {\n        Foo_bar(self, x, y)\n    }\n    pub unsafe fn getOrange(&mut self, arg1: c_int) -> c_int {\n        Foo_getOrange(self, arg1)\n    }\n}\n"
    );
}

#[test]
fn class_method_functions() {
    let mut foo = comp("Foo", true, Vec::new());
    foo.methods = vec![
        MethodInfo { name: s("bar"), return_type: Type::TVoid, args: vec![(s("x"), c_int_ty())] },
        MethodInfo { name: s("get"), return_type: c_int_ty(), args: Vec::new() },
    ];
    let d = decls(vec![foo], Vec::new());
    let mut ctx = GenCtx::new(&d);
    assert_eq!(
        cmethod_to_rs(&mut ctx, &d, &s("Foo"), &d.comps[0].methods[0]),
        "    fn Foo_bar(this_ptr: &Foo, x: c_int);\n"
    );
    assert_eq!(
        comp_methods_to_rs(&mut ctx, &d, 0),
        "    fn Foo_bar(this_ptr: &Foo, x: c_int);\n    fn Foo_get(this_ptr: &Foo) -> c_int;\n"
    );
}
