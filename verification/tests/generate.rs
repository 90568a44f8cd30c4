use bindgen::gen::{gen_rs, remove_redundent_decl, tag_dup_decl, GenCtx};
use bindgen::validate::{decls_are_wf, funcs_are_typed, gen_rs_checked, globals_are_wf, ty_is_wf};
use bindgen::types::{
    CompInfo, Decls, EnumInfo, EnumItem, FKind, FieldInfo, Global, IKind, MethodInfo, Type, TypeInfo,
    VarInfo,
};

fn s(x: &str) -> String {
    x.to_string()
}

fn c_int_ty() -> Type {
    Type::TInt(IKind::IInt)
}

fn field(name: &str, ty: Type) -> FieldInfo {
    FieldInfo { name: s(name), ty }
}

fn comp(name: &str, cstruct: bool, fields: Vec<FieldInfo>, size: usize) -> CompInfo {
    CompInfo { cstruct, name: s(name), fields, methods: Vec::new(), size }
}

fn typedef(name: &str, ty: Type) -> TypeInfo {
    TypeInfo { name: s(name), ty }
}

fn var(name: &str, ty: Type) -> VarInfo {
    VarInfo { name: s(name), ty }
}

const UNION_BODY: &str = "unsafe { std::cast::transmute(&std::ptr::to_mut_unsafe_ptr(self)) }";

fn dup_decls() -> Decls {
    Decls {
        comps: vec![comp("A", true, Vec::new(), 0), comp("A", true, Vec::new(), 0), comp("", true, Vec::new(), 0), comp("", true, Vec::new(), 0)],
        enums: Vec::new(),
        typedefs: vec![typedef("T", c_int_ty()), typedef("T", c_int_ty())],
        vars: vec![var("f", Type::TFunc(Box::new(Type::TVoid), Vec::new(), false)), var("f", c_int_ty())],
    }
}

#[test]
fn repeated_declarations_are_tagged() {
    let d = dup_decls();
    let ctx = GenCtx::new(&d);
    let gs = vec![
        Global::GComp(0),
        Global::GType(0),
        Global::GComp(1),
        Global::GType(1),
        Global::GFunc(0),
        Global::GVar(1),
        Global::GFunc(0),
        Global::GComp(2),
        Global::GComp(3),
        Global::GCompDecl(0),
        Global::GOther,
    ];
    let tagged = tag_dup_decl(&ctx, &d, &gs);
    assert_eq!(
        tagged,
        vec![
            Global::GComp(0),
            Global::GType(0),
            Global::GOther,
            Global::GOther,
            Global::GFunc(0),
            Global::GVar(1),
            Global::GOther,
            Global::GComp(2),
            Global::GComp(3),
            Global::GCompDecl(0),
            Global::GOther,
        ]
    );
    // A second pass changes nothing.
    assert_eq!(tag_dup_decl(&ctx, &d, &tagged), tagged);
}

#[test]
fn first_of_each_name_is_kept() {
    let d = dup_decls();
    let ctx = GenCtx::new(&d);
    let gs = vec![Global::GType(1), Global::GType(0), Global::GType(1)];
    assert_eq!(tag_dup_decl(&ctx, &d, &gs), vec![Global::GType(1), Global::GOther, Global::GOther]);
    assert_eq!(tag_dup_decl(&ctx, &d, &Vec::new()), Vec::new());
}

#[test]
fn definitions_made_by_typedefs_are_dropped() {
    let mut d = Decls {
        comps: vec![comp("", true, Vec::new(), 0), comp("Named", true, Vec::new(), 0)],
        enums: vec![EnumInfo { name: s(""), items: Vec::new(), kind: IKind::IInt }],
        typedefs: vec![typedef("P", Type::TComp(0)), typedef("N", Type::TComp(1)), typedef("E", Type::TEnum(0))],
        vars: Vec::new(),
    };
    let ctx = GenCtx::new(&d);
    let gs = vec![Global::GComp(0), Global::GType(0), Global::GComp(1), Global::GType(1), Global::GEnum(0), Global::GType(2)];
    let kept = remove_redundent_decl(&ctx, &d, &gs);
    assert_eq!(kept, vec![Global::GType(0), Global::GComp(1), Global::GType(1), Global::GType(2)]);
    // Nothing more is dropped the second time, and every typedef stays.
    assert_eq!(remove_redundent_decl(&ctx, &d, &kept), kept);
    // Without the typedef, the anonymous struct stays.
    assert_eq!(remove_redundent_decl(&ctx, &d, &vec![Global::GComp(0)]), vec![Global::GComp(0)]);
}

/// The declarations of the sample C++ header.
fn sample_decls() -> Decls {
    let mut foo = comp(
        "Foo",
        true,
        vec![
            field("x", Type::TFloat(FKind::FFloat)),
            field("y", Type::TFloat(FKind::FFloat)),
            field("z", Type::TFloat(FKind::FFloat)),
            field("name", Type::TPtr(Box::new(Type::TInt(IKind::ISChar)), true)),
        ],
        24,
    );
    foo.methods = vec![
        MethodInfo {
            name: s("bar"),
            return_type: Type::TVoid,
            args: vec![(s("x"), c_int_ty()), (s("y"), Type::TFloat(FKind::FFloat))],
        },
        MethodInfo {
            name: s("getBaz"),
            return_type: Type::TPtr(Box::new(Type::TInt(IKind::ISChar)), true),
            args: vec![(s("src"), Type::TPtr(Box::new(Type::TVoid), true))],
        },
        MethodInfo { name: s("getOrange"), return_type: c_int_ty(), args: vec![(s(""), c_int_ty())] },
    ];
    Decls {
        comps: vec![
            comp("Xy", true, vec![field("x", c_int_ty()), field("y", c_int_ty())], 8),
            comp("Abc", true, vec![field("a", c_int_ty()), field("b", c_int_ty()), field("c", c_int_ty())], 12),
            foo,
        ],
        enums: vec![EnumInfo {
            name: s("ETest"),
            items: vec![
                EnumItem { name: s("E_1"), val: 0 },
                EnumItem { name: s("E_2"), val: 1 },
                EnumItem { name: s("E_3"), val: 2 },
            ],
            kind: IKind::IUInt,
        }],
        typedefs: vec![
            typedef("u32", c_int_ty()),
            typedef("Xy", Type::TComp(0)),
            typedef("Abc", Type::TComp(1)),
            typedef("Foo", Type::TComp(2)),
        ],
        vars: vec![
            var("foo", Type::TFunc(Box::new(c_int_ty()), vec![(s(""), c_int_ty()), (s(""), c_int_ty()), (s(""), c_int_ty())], false)),
            var(
                "foo2",
                Type::TFunc(
                    Box::new(Type::TPtr(Box::new(Type::TFloat(FKind::FFloat)), false)),
                    vec![
                        (s(""), c_int_ty()),
                        (s("txt"), Type::TPtr(Box::new(Type::TPtr(Box::new(Type::TInt(IKind::ISChar)), true)), false)),
                        (s(""), Type::TPtr(Box::new(c_int_ty()), false)),
                    ],
                    false,
                ),
            ),
            var("foo3", Type::TFunc(Box::new(Type::TVoid), vec![(s(""), c_int_ty())], false)),
        ],
    }
}

#[test]
fn sample_header_bindings() {
    let mut d = sample_decls();
    let gs = vec![
        Global::GType(0),
        Global::GComp(0),
        Global::GType(1),
        Global::GComp(1),
        Global::GType(2),
        Global::GComp(2),
        Global::GType(3),
        Global::GEnum(0),
        Global::GFunc(0),
        Global::GFunc(1),
        Global::GFunc(2),
    ];
    let expected = "/* automatically generated by rust-bindgen */\n\n\
use std::libc::*;\n\
pub type _u32 = c_int;\n\
pub struct Struct_Xy {\n    pub x: c_int,\n    pub y: c_int,\n}\n\
pub type Xy = Struct_Xy;\n\
pub struct Struct_Abc {\n    pub a: c_int,\n    pub b: c_int,\n    pub c: c_int,\n}\n\
pub type Abc = Struct_Abc;\n\
pub struct Struct_Foo {\n    pub x: c_float,\n    pub y: c_float,\n    pub z: c_float,\n    pub name: *c_schar,\n}\n\
pub type Foo = Struct_Foo;\n\
pub type Enum_ETest = c_uint;\n\
pub static E_1: c_uint = 0;\n\
pub static E_2: c_uint = 1;\n\
pub static E_3: c_uint = 2;\n\
pub extern \"C\" {\n\
\x20   fn foo(arg1: c_int, arg2: c_int, arg3: c_int) -> c_int;\n\
\x20   fn foo2(arg1: c_int, txt: *mut *c_schar, arg2: *mut c_int) -> *mut c_float;\n\
\x20   fn foo3(arg1: c_int);\n\
\x20   fn Foo_bar(this_ptr: &Foo, x: c_int, y: c_float);\n\
\x20   fn Foo_getBaz(this_ptr: &Foo, src: *c_void) -> *c_schar;\n\
\x20   fn Foo_getOrange(this_ptr: &Foo, arg1: c_int) -> c_int;\n\
}\n\
impl Struct_Foo {\n\
\x20   pub unsafe fn bar(&mut self, x: c_int, y: c_float) {\n        Foo_bar(self, x, y)\n    }\n\
\x20   pub unsafe fn getBaz(&mut self, src: *c_void) -> *c_schar {\n        Foo_getBaz(self, src)\n    }\n\
\x20   pub unsafe fn getOrange(&mut self, arg1: c_int) -> c_int {\n        Foo_getOrange(self, arg1)\n    }\n\
}\n";
    assert_eq!(gen_rs(&None, &mut d, &gs), expected);
}

#[test]
fn anonymous_declarations_and_linking() {
    let mut d = Decls {
        comps: vec![
            comp("", true, vec![field("a", c_int_ty())], 4),
            comp("", false, vec![field("i", c_int_ty()), field("f", Type::TFloat(FKind::FFloat))], 4),
            comp("Fwd", true, Vec::new(), 0),
            comp("", true, vec![field("", Type::TPtr(Box::new(Type::TComp(4)), false))], 8),
            comp("", true, Vec::new(), 0),
        ],
        enums: vec![EnumInfo { name: s(""), items: vec![EnumItem { name: s("A"), val: 1 }], kind: IKind::IInt }],
        typedefs: vec![typedef("S", Type::TComp(0)), typedef("U", Type::TComp(1)), typedef("E", Type::TEnum(0))],
        vars: vec![var("errno", c_int_ty())],
    };
    let gs = vec![
        Global::GComp(0),
        Global::GType(0),
        Global::GComp(1),
        Global::GType(1),
        Global::GEnum(0),
        Global::GType(2),
        Global::GCompDecl(2),
        Global::GComp(3),
        Global::GVar(0),
    ];
    let expected = format!(
        "/* automatically generated by rust-bindgen */\n\n\
use std::libc::*;\n\
pub struct S {{\n    pub a: c_int,\n}}\n\
pub struct U {{\n    pub data: [c_uchar, ..4],\n}}\n\
impl U {{\n    pub fn i(&mut self) -> *mut c_int {{\n        {b}\n    }}\n    pub fn f(&mut self) -> *mut c_float {{\n        {b}\n    }}\n}}\n\
pub type E = c_int;\npub static A: c_int = 1;\n\
pub type Struct_Fwd = c_void;\n\
pub struct Struct_Unnamed1 {{\n    pub unnamed_field1: *mut Struct_Unnamed2,\n}}\n\
#[link_args = \"-ltest\"]\n\
pub extern \"C\" {{\n    static errno: c_int;\n}}\n",
        b = UNION_BODY
    );
    assert_eq!(gen_rs(&Some(s("test")), &mut d, &gs), expected);
    // The anonymous declarations keep the names they were given.
    assert_eq!(d.comps[0].name, "S");
    assert_eq!(d.comps[1].name, "U");
    assert_eq!(d.comps[2].name, "Fwd");
    assert_eq!(d.comps[3].name, "Unnamed1");
    assert_eq!(d.comps[4].name, "Unnamed2");
    assert_eq!(d.enums[0].name, "E");
}

#[test]
fn repeated_declarations_generate_once() {
    let mut d = Decls {
        comps: vec![comp("P", true, vec![field("x", c_int_ty())], 4), comp("P", true, vec![field("y", c_int_ty())], 4)],
        enums: Vec::new(),
        typedefs: Vec::new(),
        vars: vec![
            var("g", Type::TFunc(Box::new(Type::TVoid), Vec::new(), false)),
            // A repeated function is dropped before its type is looked at.
            var("g", c_int_ty()),
        ],
    };
    let gs = vec![Global::GComp(0), Global::GComp(1), Global::GFunc(0), Global::GFunc(1)];
    let expected = "/* automatically generated by rust-bindgen */\n\n\
use std::libc::*;\n\
pub struct Struct_P {\n    pub x: c_int,\n}\n\
pub extern \"C\" {\n    fn g();\n}\n";
    assert_eq!(gen_rs(&None, &mut d, &gs), expected);
}

#[test]
fn empty_unit() {
    let mut d = Decls { comps: Vec::new(), enums: Vec::new(), typedefs: Vec::new(), vars: Vec::new() };
    assert_eq!(
        gen_rs(&None, &mut d, &Vec::new()),
        "/* automatically generated by rust-bindgen */\n\nuse std::libc::*;\npub extern \"C\" {\n}\n"
    );
}

#[test]
fn checked_generation_refuses_bad_input() {
    let mut d = Decls {
        comps: vec![comp("P", true, vec![field("x", c_int_ty())], 4)],
        enums: Vec::new(),
        typedefs: Vec::new(),
        vars: vec![var("g", Type::TFunc(Box::new(Type::TVoid), Vec::new(), false)), var("h", c_int_ty())],
    };
    assert_eq!(
        gen_rs_checked(&None, &mut d, &vec![Global::GFunc(0)]),
        Some(s("/* automatically generated by rust-bindgen */\n\nuse std::libc::*;\npub extern \"C\" {\n    fn g();\n}\n"))
    );
    // A function declaration whose type is not a function type.
    assert!(!funcs_are_typed(&d, &vec![Global::GFunc(1)]));
    assert_eq!(gen_rs_checked(&None, &mut d, &vec![Global::GFunc(1)]), None);
    // Indices out of range.
    assert!(!globals_are_wf(&d, &vec![Global::GComp(1)]));
    assert_eq!(gen_rs_checked(&None, &mut d, &vec![Global::GComp(1)]), None);
    assert!(!ty_is_wf(&Type::TPtr(Box::new(Type::TEnum(0)), false), 1, 0));
    assert!(ty_is_wf(&Type::TPtr(Box::new(Type::TComp(0)), false), 1, 0));
    let f = Type::TFunc(Box::new(Type::TVoid), vec![(s(""), Type::TComp(3))], false);
    assert!(!ty_is_wf(&f, 1, 0));
    let mut bad = Decls {
        comps: vec![comp("Q", true, vec![field("p", Type::TComp(7))], 4)],
        enums: Vec::new(),
        typedefs: Vec::new(),
        vars: Vec::new(),
    };
    assert!(!decls_are_wf(&bad));
    assert!(decls_are_wf(&d));
    assert_eq!(gen_rs_checked(&None, &mut bad, &Vec::new()), None);
}
