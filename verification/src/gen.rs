//! Translation of C declarations into the text of Rust foreign-function bindings.
//!
//! The generator keeps one piece of mutable state, [`GenCtx`]: the current name of every
//! compound and enum declaration (anonymous ones receive a fresh `UnnamedN` name the
//! first time they are needed) and the counter of names handed out so far.  Every
//! function here states its result, and the state it leaves, through a spec function
//! of the state it starts from.

use vstd::prelude::*;
use crate::text::{
    concat, decimal, eq_lit, int_text, is_keyword, is_keyword_name, is_primitive_type_name,
    is_primitive_type_name_exec, push_decimal, push_int,
};
use crate::types::{
    Decls, EnumItem, FieldInfo, FKind, Global, IKind, MethodInfo, Type, args_wf, lemma_args_wf_index,
    ty_wf,
};

verus! {

/// The generator's state: the counter of fresh names and the current declaration names.
pub struct GenCtx {
    pub unnamed_ty: usize,
    pub comp_names: Vec<String>,
    pub enum_names: Vec<String>,
}

/// The abstract generator state.
pub struct GenState {
    pub counter: usize,
    pub comp_names: Seq<Seq<char>>,
    pub enum_names: Seq<Seq<char>>,
}

impl View for GenCtx {
    type V = GenState;

    open spec fn view(&self) -> GenState {
        GenState {
            counter: self.unnamed_ty,
            comp_names: self.comp_names@.map_values(|s: String| s@),
            enum_names: self.enum_names@.map_values(|s: String| s@),
        }
    }
}

/// The state has one name per compound and per enum declaration of `d`.
pub open spec fn state_wf(st: GenState, d: Decls) -> bool {
    &&& st.comp_names.len() == d.comps@.len()
    &&& st.enum_names.len() == d.enums@.len()
}

/// `ty` refers only to declarations of `d`.
pub open spec fn decl_ty_wf(d: Decls, ty: Type) -> bool {
    ty_wf(ty, d.comps@.len(), d.enums@.len())
}

// ---------------------------------------------------------------- names

/// The identifier for `name`, escaped with a leading `_` when it is a reserved word or
/// `bool`; the flag tells whether it was escaped.
pub open spec fn rust_id_spec(name: Seq<char>) -> (Seq<char>, bool) {
    if is_keyword(name) || name == "bool"@ {
        ("_"@ + name, true)
    } else {
        (name, false)
    }
}

/// The identifier for a type named `name`, escaped when it is a primitive type's name.
pub open spec fn rust_type_id_spec(name: Seq<char>) -> Seq<char> {
    if is_primitive_type_name(name) {
        "_"@ + name
    } else {
        rust_id_spec(name).0
    }
}

/// The name given to the `n`-th anonymous declaration.
pub open spec fn unnamed_text(n: nat) -> Seq<char> {
    "Unnamed"@ + decimal(n)
}

/// The counter after one more fresh name (machine integers wrap).
pub open spec fn next_counter(c: usize) -> usize {
    if c == usize::MAX { 0 } else { (c + 1) as usize }
}

/// `name`, or a fresh name when it is empty, with the counter afterwards.
pub open spec fn unnamed_spec(counter: usize, name: Seq<char>) -> (usize, Seq<char>) {
    if name.len() == 0 {
        (next_counter(counter), unnamed_text(next_counter(counter) as nat))
    } else {
        (counter, name)
    }
}

pub open spec fn struct_name_spec(name: Seq<char>) -> Seq<char> {
    "Struct_"@ + name
}

pub open spec fn union_name_spec(name: Seq<char>) -> Seq<char> {
    "Union_"@ + name
}

pub open spec fn enum_name_spec(name: Seq<char>) -> Seq<char> {
    "Enum_"@ + name
}

/// Escapes `name` when it is a reserved word or `bool`.
pub fn rust_id(name: &String) -> (res: (String, bool))
    ensures
        (res.0@, res.1) == rust_id_spec(name@),
{
    if is_keyword_name(name) || eq_lit(name, "bool") {
        (concat("_", name.as_str()), true)
    } else {
        (name.clone(), false)
    }
}

/// Escapes a type name that is a primitive type's name or a reserved word.
pub fn rust_type_id(name: &String) -> (res: String)
    ensures
        res@ == rust_type_id_spec(name@),
{
    if is_primitive_type_name_exec(name) {
        concat("_", name.as_str())
    } else {
        let (n, _) = rust_id(name);
        n
    }
}

/// Returns `name`, or, when it is empty, the next fresh `UnnamedN` name.
pub fn unnamed_name(ctx: &mut GenCtx, name: String) -> (res: String)
    ensures
        (final(ctx)@.counter, res@) == unnamed_spec(old(ctx)@.counter, name@),
        final(ctx).comp_names == old(ctx).comp_names,
        final(ctx).enum_names == old(ctx).enum_names,
{
    if name.as_str().is_empty() {
        if ctx.unnamed_ty == usize::MAX {
            ctx.unnamed_ty = 0;
        } else {
            ctx.unnamed_ty = ctx.unnamed_ty + 1;
        }
        let mut res = String::from_str("Unnamed");
        push_decimal(&mut res, ctx.unnamed_ty as u64);
        res
    } else {
        name
    }
}

/// `Struct_` followed by `name`.
pub fn struct_name(name: &str) -> (res: String)
    ensures
        res@ == struct_name_spec(name@),
{
    concat("Struct_", name)
}

/// `Union_` followed by `name`.
pub fn union_name(name: &str) -> (res: String)
    ensures
        res@ == union_name_spec(name@),
{
    concat("Union_", name)
}

/// `Enum_` followed by `name`.
pub fn enum_name(name: &str) -> (res: String)
    ensures
        res@ == enum_name_spec(name@),
{
    concat("Enum_", name)
}

// ---------------------------------------------------------------- types

/// The name of the Rust type standing for a C integer kind.
pub open spec fn int_ty_name(k: IKind) -> Seq<char> {
    match k {
        IKind::IBool => "c_int"@,
        IKind::ISChar => "c_schar"@,
        IKind::IUChar => "c_uchar"@,
        IKind::IInt => "c_int"@,
        IKind::IUInt => "c_uint"@,
        IKind::IShort => "c_short"@,
        IKind::IUShort => "c_ushort"@,
        IKind::ILong => "c_long"@,
        IKind::IULong => "c_ulong"@,
        IKind::ILongLong => "c_longlong"@,
        IKind::IULongLong => "c_ulonglong"@,
    }
}

/// The name of the Rust type standing for a C floating-point kind.
pub open spec fn float_ty_name(k: FKind) -> Seq<char> {
    match k {
        FKind::FFloat => "c_float"@,
        FKind::FDouble => "c_double"@,
    }
}

/// A raw pointer type to `base`, immutable when `is_const`.
pub open spec fn ptr_text(base: Seq<char>, is_const: bool) -> Seq<char> {
    if is_const {
        "*"@ + base
    } else {
        "*mut "@ + base
    }
}

/// A fixed-length array type of `n` elements of `base`.
pub open spec fn arr_text(base: Seq<char>, n: nat) -> Seq<char> {
    "["@ + base + ", .."@ + decimal(n) + "]"@
}

/// The opaque type that stands for function types: a pointer to bytes.
pub open spec fn fn_ty_text() -> Seq<char> {
    ptr_text("u8"@, true)
}

/// The state after naming compound declaration `i`, if it is anonymous.
pub open spec fn name_comp_spec(st: GenState, i: int) -> GenState {
    let (c, n) = unnamed_spec(st.counter, st.comp_names[i]);
    GenState { counter: c, comp_names: st.comp_names.update(i, n), enum_names: st.enum_names }
}

/// The state after naming enum declaration `i`, if it is anonymous.
pub open spec fn name_enum_spec(st: GenState, i: int) -> GenState {
    let (c, n) = unnamed_spec(st.counter, st.enum_names[i]);
    GenState { counter: c, comp_names: st.comp_names, enum_names: st.enum_names.update(i, n) }
}

/// The Rust type for `ty`, and the state afterwards: a compound or enum reached through
/// pointers and arrays is named first if it is anonymous.
pub open spec fn cty_spec(st: GenState, d: Decls, ty: Type) -> (Seq<char>, GenState)
    decreases ty,
{
    match ty {
        Type::TVoid => ("c_void"@, st),
        Type::TInt(k) => (int_ty_name(k), st),
        Type::TFloat(k) => (float_ty_name(k), st),
        Type::TPtr(t, is_const) => {
            let (s, st2) = cty_spec(st, d, *t);
            (ptr_text(s, is_const), st2)
        },
        Type::TArray(t, n) => {
            let (s, st2) = cty_spec(st, d, *t);
            (arr_text(s, n as nat), st2)
        },
        Type::TFunc(_, _, _) => (fn_ty_text(), st),
        Type::TNamed(ti) => (rust_type_id_spec(ti.name@), st),
        Type::TComp(i) => {
            let st2 = name_comp_spec(st, i as int);
            if d.comps@[i as int].cstruct {
                (struct_name_spec(st2.comp_names[i as int]), st2)
            } else {
                (union_name_spec(st2.comp_names[i as int]), st2)
            }
        },
        Type::TEnum(i) => {
            let st2 = name_enum_spec(st, i as int);
            (enum_name_spec(st2.enum_names[i as int]), st2)
        },
        Type::TMemberFunc(_, _, _, _) => ("c_void"@, st),
    }
}

/// Names compound declaration `i` if it is anonymous.
pub fn name_comp(ctx: &mut GenCtx, i: usize)
    requires
        i < old(ctx).comp_names.len(),
    ensures
        final(ctx)@ == name_comp_spec(old(ctx)@, i as int),
        final(ctx).comp_names@.len() == old(ctx).comp_names@.len(),
        final(ctx).enum_names@.len() == old(ctx).enum_names@.len(),
{
    let cur = ctx.comp_names[i].clone();
    let n = unnamed_name(ctx, cur);
    ctx.comp_names.set(i, n);
    assert(ctx@.comp_names =~= name_comp_spec(old(ctx)@, i as int).comp_names);
}

/// Names enum declaration `i` if it is anonymous.
pub fn name_enum(ctx: &mut GenCtx, i: usize)
    requires
        i < old(ctx).enum_names.len(),
    ensures
        final(ctx)@ == name_enum_spec(old(ctx)@, i as int),
        final(ctx).comp_names@.len() == old(ctx).comp_names@.len(),
        final(ctx).enum_names@.len() == old(ctx).enum_names@.len(),
{
    let cur = ctx.enum_names[i].clone();
    let n = unnamed_name(ctx, cur);
    ctx.enum_names.set(i, n);
    assert(ctx@.enum_names =~= name_enum_spec(old(ctx)@, i as int).enum_names);
}

/// A named type.
pub fn mk_ty(name: &str) -> (res: String)
    ensures
        res@ == name@,
{
    String::from_str(name)
}

/// A raw pointer type to `base`.
pub fn mk_ptrty(base: &str, is_const: bool) -> (res: String)
    ensures
        res@ == ptr_text(base@, is_const),
{
    if is_const {
        concat("*", base)
    } else {
        concat("*mut ", base)
    }
}

/// A fixed-length array type of `n` elements of `base`.
pub fn mk_arrty(base: &str, n: usize) -> (res: String)
    ensures
        res@ == arr_text(base@, n as nat),
{
    let mut res = concat("[", base);
    res.append(", ..");
    push_decimal(&mut res, n as u64);
    res.append("]");
    res
}

/// The type used for C function types.
pub fn mk_fnty() -> (res: String)
    ensures
        res@ == fn_ty_text(),
{
    let ty = mk_ty("u8");
    mk_ptrty(ty.as_str(), true)
}

/// The Rust name of a C integer kind.
pub fn int_ty(k: IKind) -> (res: String)
    ensures
        res@ == int_ty_name(k),
{
    match k {
        IKind::IBool => mk_ty("c_int"),
        IKind::ISChar => mk_ty("c_schar"),
        IKind::IUChar => mk_ty("c_uchar"),
        IKind::IInt => mk_ty("c_int"),
        IKind::IUInt => mk_ty("c_uint"),
        IKind::IShort => mk_ty("c_short"),
        IKind::IUShort => mk_ty("c_ushort"),
        IKind::ILong => mk_ty("c_long"),
        IKind::IULong => mk_ty("c_ulong"),
        IKind::ILongLong => mk_ty("c_longlong"),
        IKind::IULongLong => mk_ty("c_ulonglong"),
    }
}

/// Translates a C type into the Rust type that stands for it, naming an anonymous
/// compound or enum that it reaches through pointers and arrays.
pub fn cty_to_rs(ctx: &mut GenCtx, decls: &Decls, ty: &Type) -> (res: String)
    requires
        state_wf(old(ctx)@, *decls),
        decl_ty_wf(*decls, *ty),
    ensures
        (res@, final(ctx)@) == cty_spec(old(ctx)@, *decls, *ty),
        state_wf(final(ctx)@, *decls),
    decreases ty,
{
    match ty {
        Type::TVoid => mk_ty("c_void"),
        Type::TInt(k) => int_ty(*k),
        Type::TFloat(k) => match k {
            FKind::FFloat => mk_ty("c_float"),
            FKind::FDouble => mk_ty("c_double"),
        },
        Type::TPtr(t, is_const) => {
            let id = cty_to_rs(ctx, decls, t);
            mk_ptrty(id.as_str(), *is_const)
        },
        Type::TArray(t, n) => {
            let base = cty_to_rs(ctx, decls, t);
            mk_arrty(base.as_str(), *n)
        },
        Type::TFunc(_, _, _) => mk_fnty(),
        Type::TNamed(ti) => {
            let id = rust_type_id(&ti.name);
            mk_ty(id.as_str())
        },
        Type::TComp(i) => {
            name_comp(ctx, *i);
            if decls.comps[*i].cstruct {
                struct_name(ctx.comp_names[*i].as_str())
            } else {
                union_name(ctx.comp_names[*i].as_str())
            }
        },
        Type::TEnum(i) => {
            name_enum(ctx, *i);
            enum_name(ctx.enum_names[*i].as_str())
        },
        Type::TMemberFunc(_, _, _, _) => mk_ty("c_void"),
    }
}

// ---------------------------------------------------------------- items

/// Every field type refers only to declarations of `d`.
pub open spec fn fields_wf(d: Decls, fields: Seq<FieldInfo>) -> bool {
    forall|k: int| 0 <= k < fields.len() ==> decl_ty_wf(d, #[trigger] fields[k].ty)
}

/// Every method's return and parameter types refer only to declarations of `d`.
pub open spec fn methods_wf(d: Decls, methods: Seq<MethodInfo>) -> bool {
    forall|k: int|
        0 <= k < methods.len() ==> decl_ty_wf(d, #[trigger] methods[k].return_type)
            && args_wf(methods[k].args@, d.comps@.len(), d.enums@.len())
}

/// Every type in the tables of `d` refers only to declarations of `d`.
pub open spec fn decls_wf(d: Decls) -> bool {
    &&& forall|i: int|
        #![trigger d.comps@[i]]
        0 <= i < d.comps@.len() ==> fields_wf(d, d.comps@[i].fields@) && methods_wf(d, d.comps@[i].methods@)
    &&& forall|i: int| #![trigger d.typedefs@[i]] 0 <= i < d.typedefs@.len() ==> decl_ty_wf(d, d.typedefs@[i].ty)
    &&& forall|i: int| #![trigger d.vars@[i]] 0 <= i < d.vars@.len() ==> decl_ty_wf(d, d.vars@[i].ty)
}

/// `pub type name = ty;`
pub open spec fn alias_text(name: Seq<char>, ty: Seq<char>) -> Seq<char> {
    "pub type "@ + name + " = "@ + ty + ";\n"@
}

/// One public field of a struct definition.
pub open spec fn field_line(name: Seq<char>, ty: Seq<char>) -> Seq<char> {
    "    pub "@ + name + ": "@ + ty + ",\n"@
}

/// A struct definition with the given field lines.
pub open spec fn struct_text(name: Seq<char>, body: Seq<char>) -> Seq<char> {
    "pub struct "@ + name + " {\n"@ + body + "}\n"@
}

/// The name of the `n`-th anonymous field.
pub open spec fn unnamed_field_text(n: nat) -> Seq<char> {
    "unnamed_field"@ + decimal(n)
}

/// The field lines of a struct with `fields`, the state afterwards and the number of
/// anonymous fields among them.
pub open spec fn struct_fields_spec(st: GenState, d: Decls, fields: Seq<FieldInfo>) -> (Seq<char>, GenState, nat)
    decreases fields.len(),
{
    if fields.len() == 0 {
        (Seq::empty(), st, 0)
    } else {
        let (body, st1, u) = struct_fields_spec(st, d, fields.drop_last());
        let f = fields.last();
        let (fname, u2) = if f.name@.len() == 0 {
            (unnamed_field_text(u + 1), u + 1)
        } else {
            (rust_type_id_spec(f.name@), u)
        };
        let (fty, st2) = cty_spec(st1, d, f.ty);
        (body + field_line(fname, fty), st2, u2)
    }
}

/// The struct definition for a C struct called `name`, and the state afterwards.
pub open spec fn cstruct_spec(st: GenState, d: Decls, name: Seq<char>, fields: Seq<FieldInfo>) -> (Seq<char>, GenState) {
    let (body, st2, _) = struct_fields_spec(st, d, fields);
    (struct_text(rust_type_id_spec(name), body), st2)
}

/// The body of every accessor of a union: a view of the union's storage.
pub open spec fn union_accessor_body() -> Seq<char> {
    "unsafe { std::cast::transmute(&std::ptr::to_mut_unsafe_ptr(self)) }"@
}

/// The accessor method of one union member.
pub open spec fn union_method_text(name: Seq<char>, ret: Seq<char>) -> Seq<char> {
    "    pub fn "@ + name + "(&mut self) -> "@ + ret + " {\n        "@ + union_accessor_body() + "\n    }\n"@
}

/// The accessor methods of a union with `fields`, the state afterwards and the number of
/// anonymous fields among them.
pub open spec fn union_methods_spec(st: GenState, d: Decls, fields: Seq<FieldInfo>) -> (Seq<char>, GenState, nat)
    decreases fields.len(),
{
    if fields.len() == 0 {
        (Seq::empty(), st, 0)
    } else {
        let (body, st1, u) = union_methods_spec(st, d, fields.drop_last());
        let f = fields.last();
        let (fname, u2) = if f.name@.len() == 0 {
            (unnamed_field_text(u + 1), u + 1)
        } else {
            (rust_id_spec(f.name@).0, u)
        };
        let (fty, st2) = cty_spec(st1, d, f.ty);
        (body + union_method_text(fname, ptr_text(fty, false)), st2, u2)
    }
}

/// A union becomes a struct holding `size` bytes of storage, with one accessor method
/// per member that views the storage as a pointer to that member's type.
pub open spec fn cunion_spec(st: GenState, d: Decls, name: Seq<char>, fields: Seq<FieldInfo>, size: usize) -> (Seq<char>, GenState) {
    let id = rust_type_id_spec(name);
    let data = struct_text(id, field_line("data"@, arr_text("c_uchar"@, size as nat)));
    let (methods, st2, _) = union_methods_spec(st, d, fields);
    (data + "impl "@ + id + " {\n"@ + methods + "}\n"@, st2)
}

/// `pub static name: ty = val;`
pub open spec fn static_text(name: Seq<char>, ty: Seq<char>, val: int) -> Seq<char> {
    "pub static "@ + name + ": "@ + ty + " = "@ + int_text(val) + ";\n"@
}

/// One constant per enum item, of type `ty`.
pub open spec fn enum_items_spec(ty: Seq<char>, items: Seq<EnumItem>) -> Seq<char>
    decreases items.len(),
{
    if items.len() == 0 {
        Seq::empty()
    } else {
        enum_items_spec(ty, items.drop_last())
            + static_text(rust_id_spec(items.last().name@).0, ty, items.last().val as int)
    }
}

/// An enum becomes a type alias of its integer kind and one constant per item.
pub open spec fn cenum_spec(name: Seq<char>, items: Seq<EnumItem>, kind: IKind) -> Seq<char> {
    let ty_id = rust_type_id_spec(name);
    alias_text(rust_type_id_spec(ty_id), int_ty_name(kind)) + enum_items_spec(int_ty_name(kind), items)
}

/// The item that a typedef of `ty` called `name` becomes: the definition itself when
/// `ty` is an anonymous struct, union or enum (which then takes the name), else a
/// type alias.
pub open spec fn ctypedef_spec(st: GenState, d: Decls, name: Seq<char>, ty: Type) -> (Seq<char>, GenState) {
    match ty {
        Type::TComp(i) if st.comp_names[i as int].len() == 0 => {
            let st1 = GenState { comp_names: st.comp_names.update(i as int, name), ..st };
            let ci = d.comps@[i as int];
            if ci.cstruct {
                cstruct_spec(st1, d, name, ci.fields@)
            } else {
                cunion_spec(st1, d, name, ci.fields@, ci.size)
            }
        },
        Type::TEnum(i) if st.enum_names[i as int].len() == 0 => {
            let st1 = GenState { enum_names: st.enum_names.update(i as int, name), ..st };
            let ei = d.enums@[i as int];
            (cenum_spec(name, ei.items@, ei.kind), st1)
        },
        _ => {
            let (t, st2) = cty_spec(st, d, ty);
            (alias_text(rust_type_id_spec(name), t), st2)
        },
    }
}

/// The field line of a struct definition.
pub fn mk_field_line(name: &str, ty: &str) -> (res: String)
    ensures
        res@ == field_line(name@, ty@),
{
    let mut res = String::from_str("    pub ");
    res.append(name);
    res.append(": ");
    res.append(ty);
    res.append(",\n");
    res
}

/// A struct definition with the given field lines.
pub fn mk_struct(name: &str, body: &str) -> (res: String)
    ensures
        res@ == struct_text(name@, body@),
{
    let mut res = String::from_str("pub struct ");
    res.append(name);
    res.append(" {\n");
    res.append(body);
    res.append("}\n");
    res
}

/// The name of the `n`-th anonymous field.
pub fn mk_unnamed_field(n: usize) -> (res: String)
    ensures
        res@ == unnamed_field_text(n as nat),
{
    let mut res = String::from_str("unnamed_field");
    push_decimal(&mut res, n as u64);
    res
}

/// Translates a C struct into a Rust struct definition with the same fields; anonymous
/// fields are called `unnamed_field1`, `unnamed_field2`, ... in order.
pub fn cstruct_to_rs(ctx: &mut GenCtx, decls: &Decls, name: &String, fields: &Vec<FieldInfo>) -> (res: String)
    requires
        state_wf(old(ctx)@, *decls),
        fields_wf(*decls, fields@),
    ensures
        (res@, final(ctx)@) == cstruct_spec(old(ctx)@, *decls, name@, fields@),
        state_wf(final(ctx)@, *decls),
{
    let ghost st0 = ctx@;
    let mut unnamed: usize = 0;
    let mut body = String::new();
    let mut k: usize = 0;
    while k < fields.len()
        invariant
            k <= fields.len(),
            unnamed <= k,
            state_wf(ctx@, *decls),
            fields_wf(*decls, fields@),
            (body@, ctx@, unnamed as nat) == struct_fields_spec(st0, *decls, fields@.take(k as int)),
        decreases fields.len() - k,
    {
        assert(fields@.take(k + 1).drop_last() =~= fields@.take(k as int));
        let f = &fields[k];
        let f_name = if f.name.as_str().is_empty() {
            unnamed = unnamed + 1;
            mk_unnamed_field(unnamed)
        } else {
            rust_type_id(&f.name)
        };
        let f_ty = cty_to_rs(ctx, decls, &f.ty);
        let line = mk_field_line(f_name.as_str(), f_ty.as_str());
        body.append(line.as_str());
        k = k + 1;
    }
    assert(fields@.take(k as int) =~= fields@);
    let id = rust_type_id(name);
    mk_struct(id.as_str(), body.as_str())
}

/// The accessor method of one union member.
pub fn mk_union_method(name: &str, ret: &str) -> (res: String)
    ensures
        res@ == union_method_text(name@, ret@),
{
    let mut res = String::from_str("    pub fn ");
    res.append(name);
    res.append("(&mut self) -> ");
    res.append(ret);
    res.append(" {\n        ");
    res.append("unsafe { std::cast::transmute(&std::ptr::to_mut_unsafe_ptr(self)) }");
    res.append("\n    }\n");
    res
}

/// Translates a C union of `size` bytes into a struct holding that many bytes and an
/// impl with one accessor per member; anonymous members are called `unnamed_field1`, ...
pub fn cunion_to_rs(ctx: &mut GenCtx, decls: &Decls, name: &String, fields: &Vec<FieldInfo>, size: usize) -> (res: String)
    requires
        state_wf(old(ctx)@, *decls),
        fields_wf(*decls, fields@),
    ensures
        (res@, final(ctx)@) == cunion_spec(old(ctx)@, *decls, name@, fields@, size),
        state_wf(final(ctx)@, *decls),
{
    let ghost st0 = ctx@;
    let uchar = int_ty(IKind::IUChar);
    let data_ty = mk_arrty(uchar.as_str(), size);
    let data = mk_field_line("data", data_ty.as_str());
    let union_id = rust_type_id(name);
    let union_def = mk_struct(union_id.as_str(), data.as_str());

    let mut unnamed: usize = 0;
    let mut methods = String::new();
    let mut k: usize = 0;
    while k < fields.len()
        invariant
            k <= fields.len(),
            unnamed <= k,
            state_wf(ctx@, *decls),
            fields_wf(*decls, fields@),
            (methods@, ctx@, unnamed as nat) == union_methods_spec(st0, *decls, fields@.take(k as int)),
        decreases fields.len() - k,
    {
        assert(fields@.take(k + 1).drop_last() =~= fields@.take(k as int));
        let f = &fields[k];
        let f_name = if f.name.as_str().is_empty() {
            unnamed = unnamed + 1;
            mk_unnamed_field(unnamed)
        } else {
            let (n, _) = rust_id(&f.name);
            n
        };
        let f_ty = cty_to_rs(ctx, decls, &f.ty);
        let ret_ty = mk_ptrty(f_ty.as_str(), false);
        let m = mk_union_method(f_name.as_str(), ret_ty.as_str());
        methods.append(m.as_str());
        k = k + 1;
    }
    assert(fields@.take(k as int) =~= fields@);
    let mut res = union_def;
    res.append("impl ");
    res.append(union_id.as_str());
    res.append(" {\n");
    res.append(methods.as_str());
    res.append("}\n");
    res
}

/// `pub static name: ty = val;`
pub fn mk_static(name: &str, ty: &str, val: i64) -> (res: String)
    ensures
        res@ == static_text(name@, ty@, val as int),
{
    let mut res = String::from_str("pub static ");
    res.append(name);
    res.append(": ");
    res.append(ty);
    res.append(" = ");
    push_int(&mut res, val);
    res.append(";\n");
    res
}

/// `pub type name = ty;`
pub fn mk_alias(name: &str, ty: &str) -> (res: String)
    ensures
        res@ == alias_text(name@, ty@),
{
    let mut res = String::from_str("pub type ");
    res.append(name);
    res.append(" = ");
    res.append(ty);
    res.append(";\n");
    res
}

/// Translates a C enum into an alias of its integer type and one constant per item.
pub fn cenum_to_rs(name: &String, items: &Vec<EnumItem>, kind: IKind) -> (res: String)
    ensures
        res@ == cenum_spec(name@, items@, kind),
{
    let ty_id = rust_type_id(name);
    let alias_id = rust_type_id(&ty_id);
    let val_ty = int_ty(kind);
    let mut def = mk_alias(alias_id.as_str(), val_ty.as_str());
    let ghost head = def@;
    let mut k: usize = 0;
    while k < items.len()
        invariant
            k <= items.len(),
            val_ty@ == int_ty_name(kind),
            def@ == head + enum_items_spec(val_ty@, items@.take(k as int)),
        decreases items.len() - k,
    {
        assert(items@.take(k + 1).drop_last() =~= items@.take(k as int));
        let it = &items[k];
        let (id, _) = rust_id(&it.name);
        let cst = mk_static(id.as_str(), val_ty.as_str(), it.val);
        def.append(cst.as_str());
        k = k + 1;
    }
    assert(items@.take(k as int) =~= items@);
    def
}

/// Translates a typedef called `name`: an anonymous struct, union or enum takes the name
/// and is defined in place; anything else becomes a type alias.
pub fn ctypedef_to_rs(ctx: &mut GenCtx, decls: &Decls, name: &String, ty: &Type) -> (res: String)
    requires
        state_wf(old(ctx)@, *decls),
        decl_ty_wf(*decls, *ty),
        decls_wf(*decls),
    ensures
        (res@, final(ctx)@) == ctypedef_spec(old(ctx)@, *decls, name@, *ty),
        state_wf(final(ctx)@, *decls),
{
    match ty {
        Type::TComp(i) => {
            if ctx.comp_names[*i].as_str().is_empty() {
                ctx.comp_names.set(*i, name.clone());
                proof {
                    assert(ctx@.comp_names =~= old(ctx)@.comp_names.update(*i as int, name@));
                }
                let ci = &decls.comps[*i];
                if ci.cstruct {
                    return cstruct_to_rs(ctx, decls, name, &ci.fields);
                } else {
                    return cunion_to_rs(ctx, decls, name, &ci.fields, ci.size);
                }
            }
        },
        Type::TEnum(i) => {
            if ctx.enum_names[*i].as_str().is_empty() {
                ctx.enum_names.set(*i, name.clone());
                proof {
                    assert(ctx@.enum_names =~= old(ctx)@.enum_names.update(*i as int, name@));
                }
                let ei = &decls.enums[*i];
                return cenum_to_rs(name, &ei.items, ei.kind);
            }
        },
        _ => {},
    }
    let rust_name = rust_type_id(name);
    let rust_ty = cty_to_rs(ctx, decls, ty);
    mk_alias(rust_name.as_str(), rust_ty.as_str())
}

// ---------------------------------------------------------------- foreign items

/// The attribute that keeps the C name `name` of a foreign item whose Rust name differs.
pub open spec fn link_name_text(name: Seq<char>) -> Seq<char> {
    "    #[link_name = \""@ + name + "\"]\n"@
}

/// The foreign static for a C global variable, and the state afterwards.
pub open spec fn cvar_spec(st: GenState, d: Decls, name: Seq<char>, ty: Type) -> (Seq<char>, GenState) {
    let (rust_name, mangled) = rust_id_spec(name);
    let (t, st2) = cty_spec(st, d, ty);
    let attr = if mangled { link_name_text(name) } else { Seq::empty() };
    (attr + "    static "@ + rust_name + ": "@ + t + ";\n"@, st2)
}

/// `a, b, c`
pub open spec fn join(parts: Seq<Seq<char>>) -> Seq<char>
    decreases parts.len(),
{
    if parts.len() == 0 {
        Seq::empty()
    } else if parts.len() == 1 {
        parts[0]
    } else {
        join(parts.drop_last()) + ", "@ + parts.last()
    }
}

/// The parameter list of a function with `args`, as text and as names, the state
/// afterwards and the number of anonymous parameters (called `arg1`, `arg2`, ...).
pub open spec fn cargs_spec(st: GenState, d: Decls, args: Seq<(String, Type)>) -> (Seq<Seq<char>>, Seq<Seq<char>>, GenState, nat)
    decreases args.len(),
{
    if args.len() == 0 {
        (Seq::empty(), Seq::empty(), st, 0)
    } else {
        let (decls_text, names, st1, u) = cargs_spec(st, d, args.drop_last());
        let (n, t) = args.last();
        let (arg_name, u2) = if n@.len() == 0 {
            ("arg"@ + decimal(u + 1), u + 1)
        } else {
            (rust_id_spec(n@).0, u)
        };
        let (ty, st2) = cty_spec(st1, d, t);
        (decls_text.push(arg_name + ": "@ + ty), names.push(arg_name), st2, u2)
    }
}

/// The foreign function for a C function, and the state afterwards: the return type is
/// translated first (unless it is `void`), then the parameters.
pub open spec fn cfunc_spec(st: GenState, d: Decls, name: Seq<char>, rty: Type, aty: Seq<(String, Type)>) -> (Seq<char>, GenState) {
    let (ret, st1) = if rty is TVoid { (Seq::empty(), st) } else { cty_spec(st, d, rty) };
    let (args, _, st2, _) = cargs_spec(st1, d, aty);
    let (rust_name, mangled) = rust_id_spec(name);
    let attr = if mangled { link_name_text(name) } else { Seq::empty() };
    let ret_part = if rty is TVoid { Seq::empty() } else { " -> "@ + ret };
    (attr + "    fn "@ + rust_name + "("@ + join(args) + ")"@ + ret_part + ";\n"@, st2)
}

/// The attribute that keeps the C name of a foreign item.
pub fn mk_link_name_attr(name: &str) -> (res: String)
    ensures
        res@ == link_name_text(name@),
{
    let mut res = String::from_str("    #[link_name = \"");
    res.append(name);
    res.append("\"]\n");
    res
}

/// Translates a C global variable into a foreign static.
pub fn cvar_to_rs(ctx: &mut GenCtx, decls: &Decls, name: &String, ty: &Type) -> (res: String)
    requires
        state_wf(old(ctx)@, *decls),
        decl_ty_wf(*decls, *ty),
    ensures
        (res@, final(ctx)@) == cvar_spec(old(ctx)@, *decls, name@, *ty),
        state_wf(final(ctx)@, *decls),
{
    let (rust_name, was_mangled) = rust_id(name);
    let mut res = if was_mangled {
        mk_link_name_attr(name.as_str())
    } else {
        String::new()
    };
    let t = cty_to_rs(ctx, decls, ty);
    res.append("    static ");
    res.append(rust_name.as_str());
    res.append(": ");
    res.append(t.as_str());
    res.append(";\n");
    res
}

/// Joins `parts` with `, `.
pub fn join_parts(parts: &Vec<String>) -> (res: String)
    ensures
        res@ == join(parts@.map_values(|p: String| p@)),
{
    let ghost views = parts@.map_values(|p: String| p@);
    let mut res = String::new();
    let mut k: usize = 0;
    while k < parts.len()
        invariant
            k <= parts.len(),
            views == parts@.map_values(|p: String| p@),
            res@ == join(views.take(k as int)),
        decreases parts.len() - k,
    {
        assert(views.take(k + 1).drop_last() =~= views.take(k as int));
        if k > 0 {
            res.append(", ");
        } else {
            assert(views.take(0) =~= Seq::<Seq<char>>::empty());
        }
        res.append(parts[k].as_str());
        k = k + 1;
    }
    assert(views.take(k as int) =~= views);
    res
}

/// Translates the parameters of a C function; returns the parameter declarations and
/// the parameter names.
pub fn cfunc_args_to_rs(ctx: &mut GenCtx, decls: &Decls, src_args: &Vec<(String, Type)>) -> (res: (Vec<String>, Vec<String>))
    requires
        state_wf(old(ctx)@, *decls),
        args_wf(src_args@, decls.comps@.len(), decls.enums@.len()),
    ensures
        ({
            let (t, n, st, _) = cargs_spec(old(ctx)@, *decls, src_args@);
            &&& res.0@.map_values(|p: String| p@) == t
            &&& res.1@.map_values(|p: String| p@) == n
            &&& final(ctx)@ == st
        }),
        state_wf(final(ctx)@, *decls),
{
    let ghost st0 = ctx@;
    let mut unnamed: usize = 0;
    let mut rs_args: Vec<String> = Vec::new();
    let mut arg_names: Vec<String> = Vec::new();
    let mut k: usize = 0;
    while k < src_args.len()
        invariant
            k <= src_args.len(),
            unnamed <= k,
            state_wf(ctx@, *decls),
            args_wf(src_args@, decls.comps@.len(), decls.enums@.len()),
            ({
                let (t, n, st, u) = cargs_spec(st0, *decls, src_args@.take(k as int));
                &&& rs_args@.map_values(|p: String| p@) == t
                &&& arg_names@.map_values(|p: String| p@) == n
                &&& ctx@ == st
                &&& unnamed as nat == u
            }),
        decreases src_args.len() - k,
    {
        assert(src_args@.take(k + 1).drop_last() =~= src_args@.take(k as int));
        proof { lemma_args_wf_index(src_args@, decls.comps@.len(), decls.enums@.len(), k as int); }
        let (n, t) = &src_args[k];
        let arg_name = if n.as_str().is_empty() {
            unnamed = unnamed + 1;
            let mut a = String::from_str("arg");
            push_decimal(&mut a, unnamed as u64);
            a
        } else {
            let (a, _) = rust_id(n);
            a
        };
        let arg_ty = cty_to_rs(ctx, decls, t);
        let mut decl = arg_name.clone();
        decl.append(": ");
        decl.append(arg_ty.as_str());
        rs_args.push(decl);
        arg_names.push(arg_name);
        assert(rs_args@.map_values(|p: String| p@) =~= cargs_spec(st0, *decls, src_args@.take(k + 1)).0);
        assert(arg_names@.map_values(|p: String| p@) =~= cargs_spec(st0, *decls, src_args@.take(k + 1)).1);
        k = k + 1;
    }
    assert(src_args@.take(k as int) =~= src_args@);
    (rs_args, arg_names)
}

/// Translates a C function into a foreign function declaration.
pub fn cfunc_to_rs(ctx: &mut GenCtx, decls: &Decls, name: &String, rty: &Type, aty: &Vec<(String, Type)>, _var: bool) -> (res: String)
    requires
        state_wf(old(ctx)@, *decls),
        decl_ty_wf(*decls, *rty),
        args_wf(aty@, decls.comps@.len(), decls.enums@.len()),
    ensures
        (res@, final(ctx)@) == cfunc_spec(old(ctx)@, *decls, name@, *rty, aty@),
        state_wf(final(ctx)@, *decls),
{
    let is_void = match rty {
        Type::TVoid => true,
        _ => false,
    };
    let ret = if is_void {
        String::new()
    } else {
        cty_to_rs(ctx, decls, rty)
    };
    let (args, _) = cfunc_args_to_rs(ctx, decls, aty);
    let (rust_name, was_mangled) = rust_id(name);
    let mut res = if was_mangled {
        mk_link_name_attr(name.as_str())
    } else {
        String::new()
    };
    let joined = join_parts(&args);
    res.append("    fn ");
    res.append(rust_name.as_str());
    res.append("(");
    res.append(joined.as_str());
    res.append(")");
    if !is_void {
        res.append(" -> ");
        res.append(ret.as_str());
    }
    res.append(";\n");
    res
}

// ---------------------------------------------------------------- methods and blocks

/// A call of `f` with the given argument expressions.
pub open spec fn fcall_text(f: Seq<char>, args: Seq<Seq<char>>) -> Seq<char> {
    f + "("@ + join(args) + ")"@
}

/// The ` -> ret` part of a signature; nothing for a `void` result.
pub open spec fn ret_part(rty: Type, ret: Seq<char>) -> Seq<char> {
    if rty is TVoid { Seq::empty() } else { " -> "@ + ret }
}

/// A method that forwards to the foreign function of a C++ method; `ret` is the
/// ` -> ...` part of its signature.
pub open spec fn method_text(name: Seq<char>, params: Seq<Seq<char>>, ret: Seq<char>, call: Seq<char>) -> Seq<char> {
    "    pub unsafe fn "@ + name + "("@ + join(seq!["&mut self"@] + params) + ")"@ + ret
        + " {\n        "@ + call + "\n    }\n"@
}

/// The forwarding methods for `methods` of compound declaration `i`, and the state afterwards.
pub open spec fn impl_methods_spec(st: GenState, d: Decls, i: int, methods: Seq<MethodInfo>) -> (Seq<char>, GenState)
    decreases methods.len(),
{
    if methods.len() == 0 {
        (Seq::empty(), st)
    } else {
        let (body, st1) = impl_methods_spec(st, d, i, methods.drop_last());
        let m = methods.last();
        let (params, names, st2, _) = cargs_spec(st1, d, m.args@);
        let (ret, st3) = if m.return_type is TVoid { (Seq::empty(), st2) } else { cty_spec(st2, d, m.return_type) };
        let call = fcall_text(st3.comp_names[i] + "_"@ + m.name@, seq!["self"@] + names);
        (body + method_text(m.name@, params, ret_part(m.return_type, ret), call), st3)
    }
}

/// The impl of a C++ class whose methods forward to the foreign functions
/// `Class_method(self, ...)`, and the state afterwards.
pub open spec fn methods_to_impl_spec(st: GenState, d: Decls, i: int) -> (Seq<char>, GenState) {
    let self_ty = struct_name_spec(st.comp_names[i]);
    let (body, st2) = impl_methods_spec(st, d, i, d.comps@[i].methods@);
    ("impl "@ + self_ty + " {\n"@ + body + "}\n"@, st2)
}

/// A forwarding method with the given parameter list, result part and call.
pub fn mk_method(name: &str, params: &str, ret: &str, call: &str) -> (res: String)
    ensures
        res@ == "    pub unsafe fn "@ + name@ + "("@ + params@ + ")"@ + ret@ + " {\n        "@ + call@ + "\n    }\n"@,
{
    let mut res = String::from_str("    pub unsafe fn ");
    res.append(name);
    res.append("(");
    res.append(params);
    res.append(")");
    res.append(ret);
    res.append(" {\n        ");
    res.append(call);
    res.append("\n    }\n");
    res
}

/// A call of `fn_name` with the given argument expressions.
pub fn mk_fcall(fn_name: &str, args: &Vec<String>) -> (res: String)
    ensures
        res@ == fcall_text(fn_name@, args@.map_values(|p: String| p@)),
{
    let mut res = String::from_str(fn_name);
    res.append("(");
    let joined = join_parts(args);
    res.append(joined.as_str());
    res.append(")");
    res
}

/// `first` followed by `rest`.
fn cons_string(first: &str, rest: Vec<String>) -> (res: Vec<String>)
    ensures
        res@.map_values(|p: String| p@) == seq![first@] + rest@.map_values(|p: String| p@),
{
    let ghost rest0 = rest@;
    let mut res: Vec<String> = Vec::new();
    res.push(String::from_str(first));
    let mut rest = rest;
    res.append(&mut rest);
    assert(res@.map_values(|p: String| p@) =~= seq![first@] + rest0.map_values(|p: String| p@));
    res
}

/// The impl of the C++ class `decls.comps[i]`: one unsafe method per C++ method, which
/// calls the foreign function `Class_method` with `self` and its own parameters.
pub fn methods_to_impl_rs(ctx: &mut GenCtx, decls: &Decls, i: usize) -> (res: String)
    requires
        state_wf(old(ctx)@, *decls),
        decls_wf(*decls),
        i < decls.comps@.len(),
    ensures
        (res@, final(ctx)@) == methods_to_impl_spec(old(ctx)@, *decls, i as int),
        state_wf(final(ctx)@, *decls),
{
    let ghost st0 = ctx@;
    let self_ty = struct_name(ctx.comp_names[i].as_str());
    let ms = &decls.comps[i].methods;
    let mut body = String::new();
    let mut k: usize = 0;
    while k < ms.len()
        invariant
            k <= ms.len(),
            i < decls.comps@.len(),
            *ms == decls.comps@[i as int].methods,
            decls_wf(*decls),
            state_wf(ctx@, *decls),
            (body@, ctx@) == impl_methods_spec(st0, *decls, i as int, ms@.take(k as int)),
        decreases ms.len() - k,
    {
        assert(ms@.take(k + 1).drop_last() =~= ms@.take(k as int));
        let m = &ms[k];
        assert(methods_wf(*decls, decls.comps@[i as int].methods@));
        assert(decl_ty_wf(*decls, ms@[k as int].return_type));
        let (method_args, arg_names) = cfunc_args_to_rs(ctx, decls, &m.args);
        let is_void = match &m.return_type {
            Type::TVoid => true,
            _ => false,
        };
        let ret = if is_void {
            String::new()
        } else {
            cty_to_rs(ctx, decls, &m.return_type)
        };
        let mut f = ctx.comp_names[i].clone();
        f.append("_");
        f.append(m.name.as_str());
        let call_args = cons_string("self", arg_names);
        let call = mk_fcall(f.as_str(), &call_args);
        let params = cons_string("&mut self", method_args);
        let joined = join_parts(&params);
        let rp = if is_void {
            String::new()
        } else {
            concat(" -> ", ret.as_str())
        };
        let text = mk_method(m.name.as_str(), joined.as_str(), rp.as_str(), call.as_str());
        body.append(text.as_str());
        k = k + 1;
    }
    assert(ms@.take(k as int) =~= ms@);
    let mut res = String::from_str("impl ");
    res.append(self_ty.as_str());
    res.append(" {\n");
    res.append(body.as_str());
    res.append("}\n");
    res
}

/// The block of foreign items, with the library to link when one is given.
pub open spec fn extern_text(link: Option<Seq<char>>, items: Seq<char>) -> Seq<char> {
    let attr = match link {
        Some(l) => "#[link_args = \"-l"@ + l + "\"]\n"@,
        None => Seq::empty(),
    };
    attr + "pub extern \"C\" {\n"@ + items + "}\n"@
}

/// The block of foreign items `vars` followed by `funcs`, linked against `link`.
pub fn mk_extern(link: &Option<String>, vars: &str, funcs: &str) -> (res: String)
    ensures
        res@ == extern_text(
            match link {
                Some(l) => Some(l@),
                None => None,
            },
            vars@ + funcs@,
        ),
{
    let mut res = match link {
        Some(l) => {
            let mut a = String::from_str("#[link_args = \"-l");
            a.append(l.as_str());
            a.append("\"]\n");
            a
        },
        None => String::new(),
    };
    res.append("pub extern \"C\" {\n");
    res.append(vars);
    res.append(funcs);
    res.append("}\n");
    res
}

/// A glob import of the module at `path`.
pub open spec fn import_text(path: Seq<Seq<char>>) -> Seq<char> {
    "use "@ + path_text(path) + "::*;\n"@
}

/// The segments of `path` joined by `::`.
pub open spec fn path_text(path: Seq<Seq<char>>) -> Seq<char>
    decreases path.len(),
{
    if path.len() == 0 {
        Seq::empty()
    } else if path.len() == 1 {
        path[0]
    } else {
        path_text(path.drop_last()) + "::"@ + path.last()
    }
}

/// A glob import of the module at `path`.
pub fn mk_import(path: &Vec<String>) -> (res: String)
    ensures
        res@ == import_text(path@.map_values(|p: String| p@)),
{
    let ghost views = path@.map_values(|p: String| p@);
    let mut p = String::new();
    let mut k: usize = 0;
    while k < path.len()
        invariant
            k <= path.len(),
            views == path@.map_values(|p: String| p@),
            p@ == path_text(views.take(k as int)),
        decreases path.len() - k,
    {
        assert(views.take(k + 1).drop_last() =~= views.take(k as int));
        if k > 0 {
            p.append("::");
        } else {
            assert(views.take(0) =~= Seq::<Seq<char>>::empty());
        }
        p.append(path[k].as_str());
        k = k + 1;
    }
    assert(views.take(k as int) =~= views);
    let mut res = String::from_str("use ");
    res.append(p.as_str());
    res.append("::*;\n");
    res
}

// ---------------------------------------------------------------- declaration lists

/// Every index in `g` refers to an entry of the table of its kind.
pub open spec fn global_wf(d: Decls, g: Global) -> bool {
    match g {
        Global::GType(i) => i < d.typedefs@.len(),
        Global::GComp(i) => i < d.comps@.len(),
        Global::GCompDecl(i) => i < d.comps@.len(),
        Global::GEnum(i) => i < d.enums@.len(),
        Global::GEnumDecl(i) => i < d.enums@.len(),
        Global::GVar(i) => i < d.vars@.len(),
        Global::GFunc(i) => i < d.vars@.len(),
        Global::GOther => true,
    }
}

/// Every declaration of `gs` refers to entries of the tables of `d`.
pub open spec fn globals_wf(d: Decls, gs: Seq<Global>) -> bool {
    forall|k: int| 0 <= k < gs.len() ==> global_wf(d, #[trigger] gs[k])
}

/// The current name of the declaration `g` (empty for `GOther`).
pub open spec fn global_name(st: GenState, d: Decls, g: Global) -> Seq<char> {
    match g {
        Global::GType(i) => d.typedefs@[i as int].name@,
        Global::GComp(i) => st.comp_names[i as int],
        Global::GCompDecl(i) => st.comp_names[i as int],
        Global::GEnum(i) => st.enum_names[i as int],
        Global::GEnumDecl(i) => st.enum_names[i as int],
        Global::GVar(i) => d.vars@[i as int].name@,
        Global::GFunc(i) => d.vars@[i as int].name@,
        Global::GOther => Seq::empty(),
    }
}

/// `a` and `b` are declarations of the same kind (`GOther` is of no kind).
pub open spec fn same_kind(a: Global, b: Global) -> bool {
    match (a, b) {
        (Global::GType(_), Global::GType(_)) => true,
        (Global::GComp(_), Global::GComp(_)) => true,
        (Global::GCompDecl(_), Global::GCompDecl(_)) => true,
        (Global::GEnum(_), Global::GEnum(_)) => true,
        (Global::GEnumDecl(_), Global::GEnumDecl(_)) => true,
        (Global::GVar(_), Global::GVar(_)) => true,
        (Global::GFunc(_), Global::GFunc(_)) => true,
        _ => false,
    }
}

/// `b` repeats `a`: the same kind of declaration under the same non-empty name.
pub open spec fn repeats(st: GenState, d: Decls, a: Global, b: Global) -> bool {
    &&& same_kind(a, b)
    &&& global_name(st, d, a).len() > 0
    &&& global_name(st, d, a) == global_name(st, d, b)
}

/// `gs[j]` repeats one of the first `m` declarations.
pub open spec fn repeated_before(st: GenState, d: Decls, gs: Seq<Global>, j: int, m: int) -> bool {
    exists|k: int| 0 <= k < m && k < j && repeats(st, d, #[trigger] gs[k], gs[j])
}

/// `gs[j]`, or `GOther` when it repeats one of the first `m` declarations.
pub open spec fn tagged_upto(st: GenState, d: Decls, gs: Seq<Global>, j: int, m: int) -> Global {
    if repeated_before(st, d, gs, j, m) {
        Global::GOther
    } else {
        gs[j]
    }
}

/// Every declaration that repeats an earlier one (the same kind under the same non-empty
/// name) is replaced by `GOther`; the first of each stays.
pub open spec fn tag_dup_spec(st: GenState, d: Decls, gs: Seq<Global>) -> Seq<Global> {
    Seq::new(gs.len(), |j: int| tagged_upto(st, d, gs, j, j))
}

/// `b` is the anonymous struct, union or enum `a` that the typedef `t` defines.
pub open spec fn defined_by_typedef(st: GenState, d: Decls, a: Global, t: Global) -> bool {
    match (a, t) {
        (Global::GComp(i), Global::GType(ti)) => d.typedefs@[ti as int].ty matches Type::TComp(j)
            && j == i && st.comp_names[i as int].len() == 0,
        (Global::GEnum(i), Global::GType(ti)) => d.typedefs@[ti as int].ty matches Type::TEnum(j)
            && j == i && st.enum_names[i as int].len() == 0,
        _ => false,
    }
}

/// Some typedef among `gs` defines `g`.
pub open spec fn redundant(st: GenState, d: Decls, gs: Seq<Global>, g: Global) -> bool {
    exists|k: int| 0 <= k < gs.len() && defined_by_typedef(st, d, g, #[trigger] gs[k])
}

/// The declarations of `part` that no typedef of `all` defines, in order.
pub open spec fn remove_redundant_spec(st: GenState, d: Decls, all: Seq<Global>, part: Seq<Global>) -> Seq<Global>
    decreases part.len(),
{
    if part.len() == 0 {
        Seq::empty()
    } else {
        let rest = remove_redundant_spec(st, d, all, part.drop_last());
        if redundant(st, d, all, part.last()) {
            rest
        } else {
            rest.push(part.last())
        }
    }
}

/// The current name of the declaration `g`.
pub fn global_to_str(ctx: &GenCtx, decls: &Decls, g: Global) -> (res: String)
    requires
        state_wf(ctx@, *decls),
        global_wf(*decls, g),
    ensures
        res@ == global_name(ctx@, *decls, g),
{
    match g {
        Global::GType(i) => decls.typedefs[i].name.clone(),
        Global::GComp(i) => ctx.comp_names[i].clone(),
        Global::GCompDecl(i) => ctx.comp_names[i].clone(),
        Global::GEnum(i) => ctx.enum_names[i].clone(),
        Global::GEnumDecl(i) => ctx.enum_names[i].clone(),
        Global::GVar(i) => decls.vars[i].name.clone(),
        Global::GFunc(i) => decls.vars[i].name.clone(),
        Global::GOther => String::new(),
    }
}

/// Whether `a` and `b` are declarations of the same kind.
pub fn same_kind_exec(a: Global, b: Global) -> (res: bool)
    ensures
        res == same_kind(a, b),
{
    match (a, b) {
        (Global::GType(_), Global::GType(_)) => true,
        (Global::GComp(_), Global::GComp(_)) => true,
        (Global::GCompDecl(_), Global::GCompDecl(_)) => true,
        (Global::GEnum(_), Global::GEnum(_)) => true,
        (Global::GEnumDecl(_), Global::GEnumDecl(_)) => true,
        (Global::GVar(_), Global::GVar(_)) => true,
        (Global::GFunc(_), Global::GFunc(_)) => true,
        _ => false,
    }
}

/// `GOther` when `g2` repeats `g1`, else `g2`.
pub fn check_dup(ctx: &GenCtx, decls: &Decls, g1: Global, g2: Global) -> (res: Global)
    requires
        state_wf(ctx@, *decls),
        global_wf(*decls, g1),
        global_wf(*decls, g2),
    ensures
        res == if repeats(ctx@, *decls, g1, g2) { Global::GOther } else { g2 },
{
    if same_kind_exec(g1, g2) {
        let n1 = global_to_str(ctx, decls, g1);
        let n2 = global_to_str(ctx, decls, g2);
        if !n1.as_str().is_empty() && n1 == n2 {
            Global::GOther
        } else {
            g2
        }
    } else {
        g2
    }
}

/// One comparison of the duplicate scan: once declaration `i` has its final tag, comparing
/// it with the tag of a later `j` over the first `i` declarations gives the tag of `j` over
/// the first `i + 1`.
proof fn lemma_tag_step(st: GenState, d: Decls, gs: Seq<Global>, i: int, j: int)
    requires
        0 <= i < j < gs.len(),
    ensures
        ({
            let a = tagged_upto(st, d, gs, i, i);
            let b = tagged_upto(st, d, gs, j, i);
            (if repeats(st, d, a, b) { Global::GOther } else { b }) == tagged_upto(st, d, gs, j, i + 1)
        }),
{
    if repeated_before(st, d, gs, j, i) {
        let k: int = choose|k: int| 0 <= k < i && k < j && repeats(st, d, #[trigger] gs[k], gs[j]);
        assert(repeated_before(st, d, gs, j, i + 1)) by {
            assert(0 <= k < i + 1 && k < j && repeats(st, d, gs[k], gs[j]));
        }
    } else if repeated_before(st, d, gs, i, i) {
        let k: int = choose|k: int| 0 <= k < i && k < i && repeats(st, d, #[trigger] gs[k], gs[i]);
        if repeats(st, d, gs[i], gs[j]) {
            assert(repeats(st, d, gs[k], gs[j]));
            assert(repeated_before(st, d, gs, j, i));
        }
        assert forall|k2: int| 0 <= k2 < i + 1 && k2 < j implies !repeats(st, d, #[trigger] gs[k2], gs[j]) by {
            if k2 < i {
                assert(!repeated_before(st, d, gs, j, i) ==> !(0 <= k2 < i && k2 < j && repeats(st, d, gs[k2], gs[j])));
            }
        }
    } else {
        if repeats(st, d, gs[i], gs[j]) {
            assert(repeated_before(st, d, gs, j, i + 1)) by {
                assert(0 <= i < i + 1 && i < j && repeats(st, d, gs[i], gs[j]));
            }
        } else {
            assert forall|k2: int| 0 <= k2 < i + 1 && k2 < j implies !repeats(st, d, #[trigger] gs[k2], gs[j]) by {
                if k2 < i {
                    assert(!repeated_before(st, d, gs, j, i) ==> !(0 <= k2 < i && k2 < j && repeats(st, d, gs[k2], gs[j])));
                }
            }
        }
    }
}

/// Replaces every declaration that repeats an earlier one (the same kind under the same
/// non-empty name) by `GOther`, keeping the first of each.
pub fn tag_dup_decl(ctx: &GenCtx, decls: &Decls, gs: &Vec<Global>) -> (res: Vec<Global>)
    requires
        state_wf(ctx@, *decls),
        globals_wf(*decls, gs@),
    ensures
        res@ == tag_dup_spec(ctx@, *decls, gs@),
{
    let ghost st = ctx@;
    let mut res: Vec<Global> = Vec::new();
    let mut k: usize = 0;
    while k < gs.len()
        invariant
            k <= gs.len(),
            res@ == gs@.take(k as int),
        decreases gs.len() - k,
    {
        res.push(gs[k]);
        k = k + 1;
    }
    assert(res@ =~= gs@);
    let len: usize = res.len();
    proof {
        assert forall|j: int| 0 <= j < len implies res@[j] == tagged_upto(st, *decls, gs@, j, 0) by {
            assert(!repeated_before(st, *decls, gs@, j, 0));
        }
    }
    let mut i: usize = 0;
    while i < len
        invariant
            i <= len,
            len == res@.len(),
            len == gs@.len(),
            state_wf(ctx@, *decls),
            globals_wf(*decls, gs@),
            st == ctx@,
            forall|j: int| 0 <= j < len ==> global_wf(*decls, #[trigger] res@[j]),
            forall|j: int|
                0 <= j < len ==> #[trigger] res@[j] == tagged_upto(st, *decls, gs@, j, if j < i { j } else { i as int }),
        decreases len - i,
    {
        let mut j: usize = i + 1;
        while j < len
            invariant
                i < len,
                i + 1 <= j <= len,
                len == res@.len(),
                len == gs@.len(),
                state_wf(ctx@, *decls),
                globals_wf(*decls, gs@),
                st == ctx@,
                forall|m: int| 0 <= m < len ==> global_wf(*decls, #[trigger] res@[m]),
                forall|m: int|
                    0 <= m < len ==> #[trigger] res@[m] == tagged_upto(
                        st,
                        *decls,
                        gs@,
                        m,
                        if m <= i { if m < i { m } else { i as int } } else if m < j { i + 1 } else { i as int },
                    ),
            decreases len - j,
        {
            proof {
                lemma_tag_step(st, *decls, gs@, i as int, j as int);
            }
            let g2 = check_dup(ctx, decls, res[i], res[j]);
            res.set(j, g2);
            j = j + 1;
        }
        i = i + 1;
    }
    assert(res@ =~= tag_dup_spec(st, *decls, gs@));
    res
}

/// `g` is the anonymous struct, union or enum that the typedef `t` defines.
pub fn check_decl(ctx: &GenCtx, decls: &Decls, a: Global, t: Global) -> (res: bool)
    requires
        state_wf(ctx@, *decls),
        global_wf(*decls, a),
        global_wf(*decls, t),
    ensures
        res == defined_by_typedef(ctx@, *decls, a, t),
{
    match (a, t) {
        (Global::GComp(i), Global::GType(ti)) => match &decls.typedefs[ti].ty {
            Type::TComp(j) => *j == i && ctx.comp_names[i].as_str().is_empty(),
            _ => false,
        },
        (Global::GEnum(i), Global::GType(ti)) => match &decls.typedefs[ti].ty {
            Type::TEnum(j) => *j == i && ctx.enum_names[i].as_str().is_empty(),
            _ => false,
        },
        _ => false,
    }
}

/// Drops the struct, union and enum definitions that a typedef among `gs` also defines
/// (an anonymous one declared through `typedef struct { ... } name;`).
pub fn remove_redundent_decl(ctx: &GenCtx, decls: &Decls, gs: &Vec<Global>) -> (res: Vec<Global>)
    requires
        state_wf(ctx@, *decls),
        globals_wf(*decls, gs@),
    ensures
        res@ == remove_redundant_spec(ctx@, *decls, gs@, gs@),
{
    let mut res: Vec<Global> = Vec::new();
    let mut k: usize = 0;
    while k < gs.len()
        invariant
            k <= gs.len(),
            state_wf(ctx@, *decls),
            globals_wf(*decls, gs@),
            res@ == remove_redundant_spec(ctx@, *decls, gs@, gs@.take(k as int)),
        decreases gs.len() - k,
    {
        assert(gs@.take(k + 1).drop_last() =~= gs@.take(k as int));
        let g = gs[k];
        let mut found = false;
        let mut t: usize = 0;
        while t < gs.len()
            invariant
                t <= gs.len(),
                state_wf(ctx@, *decls),
                globals_wf(*decls, gs@),
                g == gs@[k as int],
                k < gs.len(),
                found == exists|m: int| 0 <= m < t && defined_by_typedef(ctx@, *decls, g, #[trigger] gs@[m]),
            decreases gs.len() - t,
        {
            if check_decl(ctx, decls, g, gs[t]) {
                found = true;
            }
            t = t + 1;
        }
        if !found {
            res.push(g);
        }
        k = k + 1;
    }
    assert(gs@.take(k as int) =~= gs@);
    res
}

// ---------------------------------------------------------------- the whole unit

/// The declarations of `gs` that are functions, in order.
pub open spec fn funcs_of(gs: Seq<Global>) -> Seq<Global>
    decreases gs.len(),
{
    if gs.len() == 0 {
        Seq::empty()
    } else if gs.last() is GFunc {
        funcs_of(gs.drop_last()).push(gs.last())
    } else {
        funcs_of(gs.drop_last())
    }
}

/// The declarations of `gs` that are global variables, in order.
pub open spec fn vars_of(gs: Seq<Global>) -> Seq<Global>
    decreases gs.len(),
{
    if gs.len() == 0 {
        Seq::empty()
    } else if gs.last() is GVar {
        vars_of(gs.drop_last()).push(gs.last())
    } else {
        vars_of(gs.drop_last())
    }
}

/// The declarations of `gs` that define or declare types, in order.
pub open spec fn types_of(gs: Seq<Global>) -> Seq<Global>
    decreases gs.len(),
{
    if gs.len() == 0 {
        Seq::empty()
    } else if gs.last() is GFunc || gs.last() is GVar || gs.last() is GOther {
        types_of(gs.drop_last())
    } else {
        types_of(gs.drop_last()).push(gs.last())
    }
}

/// The foreign function `Class_method` of a C++ method of the class `cname`: it takes a
/// reference to the object, `this_ptr`, before the method's own parameters.
pub open spec fn cmethod_spec(st: GenState, d: Decls, cname: Seq<char>, mname: Seq<char>, rty: Type, aty: Seq<(String, Type)>) -> (Seq<char>, GenState) {
    let name = cname + "_"@ + mname;
    let (ret, st1) = if rty is TVoid { (Seq::empty(), st) } else { cty_spec(st, d, rty) };
    let (args, _, st2, _) = cargs_spec(st1, d, aty);
    let (rust_name, mangled) = rust_id_spec(name);
    let attr = if mangled { link_name_text(name) } else { Seq::empty() };
    let params = seq!["this_ptr: &"@ + cname] + args;
    (attr + "    fn "@ + rust_name + "("@ + join(params) + ")"@ + ret_part(rty, ret) + ";\n"@, st2)
}

/// The foreign function of the C++ method `m` of the class currently called `cname`.
pub fn cmethod_to_rs(ctx: &mut GenCtx, decls: &Decls, cname: &String, m: &MethodInfo) -> (res: String)
    requires
        state_wf(old(ctx)@, *decls),
        decl_ty_wf(*decls, m.return_type),
        args_wf(m.args@, decls.comps@.len(), decls.enums@.len()),
    ensures
        (res@, final(ctx)@) == cmethod_spec(old(ctx)@, *decls, cname@, m.name@, m.return_type, m.args@),
        state_wf(final(ctx)@, *decls),
{
    let mut name = cname.clone();
    name.append("_");
    name.append(m.name.as_str());
    let is_void = match &m.return_type {
        Type::TVoid => true,
        _ => false,
    };
    let ret = if is_void {
        String::new()
    } else {
        cty_to_rs(ctx, decls, &m.return_type)
    };
    let (args, _) = cfunc_args_to_rs(ctx, decls, &m.args);
    let (rust_name, was_mangled) = rust_id(&name);
    let mut res = if was_mangled {
        mk_link_name_attr(name.as_str())
    } else {
        String::new()
    };
    let this = concat("this_ptr: &", cname.as_str());
    let params = cons_string(this.as_str(), args);
    let joined = join_parts(&params);
    res.append("    fn ");
    res.append(rust_name.as_str());
    res.append("(");
    res.append(joined.as_str());
    res.append(")");
    if !is_void {
        res.append(" -> ");
        res.append(ret.as_str());
    }
    res.append(";\n");
    res
}

/// The foreign functions for the C++ methods of compound declaration `i`, named
/// `Class_method`, and the state afterwards.
pub open spec fn comp_methods_spec(st: GenState, d: Decls, i: int, methods: Seq<MethodInfo>) -> (Seq<char>, GenState)
    decreases methods.len(),
{
    if methods.len() == 0 {
        (Seq::empty(), st)
    } else {
        let (fs, st1) = comp_methods_spec(st, d, i, methods.drop_last());
        let m = methods.last();
        let (f, st2) = cmethod_spec(st1, d, st1.comp_names[i], m.name@, m.return_type, m.args@);
        (fs + f, st2)
    }
}

/// What one type declaration contributes: item definitions, foreign functions for
/// methods and impls, and the state afterwards.
pub open spec fn type_decl_spec(st: GenState, d: Decls, g: Global) -> (Seq<char>, Seq<char>, Seq<char>, GenState) {
    match g {
        Global::GType(t) => {
            let (x, st2) = ctypedef_spec(st, d, d.typedefs@[t as int].name@, d.typedefs@[t as int].ty);
            (x, Seq::empty(), Seq::empty(), st2)
        },
        Global::GCompDecl(i) => {
            let st1 = name_comp_spec(st, i as int);
            let n = st1.comp_names[i as int];
            let nm = if d.comps@[i as int].cstruct { struct_name_spec(n) } else { union_name_spec(n) };
            let (x, st2) = ctypedef_spec(st1, d, nm, Type::TVoid);
            (x, Seq::empty(), Seq::empty(), st2)
        },
        Global::GComp(i) => {
            let st1 = name_comp_spec(st, i as int);
            let n = st1.comp_names[i as int];
            let ci = d.comps@[i as int];
            let (x, st2) = if ci.cstruct {
                cstruct_spec(st1, d, struct_name_spec(n), ci.fields@)
            } else {
                cunion_spec(st1, d, union_name_spec(n), ci.fields@, ci.size)
            };
            let (ms, st3) = comp_methods_spec(st2, d, i as int, ci.methods@);
            let (imp, st4) = if ci.methods@.len() == 0 {
                (Seq::empty(), st3)
            } else {
                methods_to_impl_spec(st3, d, i as int)
            };
            (x, ms, imp, st4)
        },
        Global::GEnumDecl(i) => {
            let st1 = name_enum_spec(st, i as int);
            let (x, st2) = ctypedef_spec(st1, d, enum_name_spec(st1.enum_names[i as int]), Type::TVoid);
            (x, Seq::empty(), Seq::empty(), st2)
        },
        Global::GEnum(i) => {
            let st1 = name_enum_spec(st, i as int);
            let ei = d.enums@[i as int];
            (cenum_spec(enum_name_spec(st1.enum_names[i as int]), ei.items@, ei.kind), Seq::empty(), Seq::empty(), st1)
        },
        _ => (Seq::empty(), Seq::empty(), Seq::empty(), st),
    }
}

/// The contributions of the type declarations `gs`, in order, and the state afterwards.
pub open spec fn type_decls_spec(st: GenState, d: Decls, gs: Seq<Global>) -> (Seq<char>, Seq<char>, Seq<char>, GenState)
    decreases gs.len(),
{
    if gs.len() == 0 {
        (Seq::empty(), Seq::empty(), Seq::empty(), st)
    } else {
        let (defs, ms, imps, st1) = type_decls_spec(st, d, gs.drop_last());
        let (x, m, i, st2) = type_decl_spec(st1, d, gs.last());
        (defs + x, ms + m, imps + i, st2)
    }
}

/// The foreign statics for the global variables `vs`, and the state afterwards.
pub open spec fn vars_spec(st: GenState, d: Decls, vs: Seq<Global>) -> (Seq<char>, GenState)
    decreases vs.len(),
{
    if vs.len() == 0 {
        (Seq::empty(), st)
    } else {
        let (xs, st1) = vars_spec(st, d, vs.drop_last());
        match vs.last() {
            Global::GVar(i) => {
                let (x, st2) = cvar_spec(st1, d, d.vars@[i as int].name@, d.vars@[i as int].ty);
                (xs + x, st2)
            },
            _ => (xs, st1),
        }
    }
}

/// The foreign functions for the functions `fs`, and the state afterwards.
pub open spec fn funcs_spec(st: GenState, d: Decls, fs: Seq<Global>) -> (Seq<char>, GenState)
    decreases fs.len(),
{
    if fs.len() == 0 {
        (Seq::empty(), st)
    } else {
        let (xs, st1) = funcs_spec(st, d, fs.drop_last());
        match fs.last() {
            Global::GFunc(i) => match d.vars@[i as int].ty {
                Type::TFunc(r, a, _) => {
                    let (x, st2) = cfunc_spec(st1, d, d.vars@[i as int].name@, *r, a@);
                    (xs + x, st2)
                },
                _ => (xs, st1),
            },
            _ => (xs, st1),
        }
    }
}

/// The first line of every generated file.
pub open spec fn header_text() -> Seq<char> {
    "/* automatically generated by rust-bindgen */\n\n"@
}

/// The state the generator starts from: the declared names and no fresh name handed out.
pub open spec fn initial_state(d: Decls) -> GenState {
    GenState {
        counter: 0,
        comp_names: d.comps@.map_values(|c: crate::types::CompInfo| c.name@),
        enum_names: d.enums@.map_values(|e: crate::types::EnumInfo| e.name@),
    }
}

/// The functions of `gs` that survive the removal of repeated declarations, which are
/// the ones bindings are generated for.
pub open spec fn kept_funcs(d: Decls, gs: Seq<Global>) -> Seq<Global> {
    funcs_of(tag_dup_spec(initial_state(d), d, gs))
}

/// Every kept function declaration has a function type.
pub open spec fn funcs_typed(d: Decls, gs: Seq<Global>) -> bool {
    forall|k: int|
        0 <= k < kept_funcs(d, gs).len() ==> (#[trigger] kept_funcs(d, gs)[k] matches Global::GFunc(i)
            && d.vars@[i as int].ty is TFunc)
}

/// The generated bindings for the declarations `gs`:
/// repeated declarations are dropped, then come the import of the C types, the type
/// definitions (anonymous definitions that a typedef also defines are left to the
/// typedef), one `extern` block with the variables, the functions and the methods'
/// functions (which take the object first), and the impls of the C++ classes that have
/// methods; with the declaration names at the end.
pub open spec fn gen_result(d: Decls, link: Option<Seq<char>>, gs: Seq<Global>) -> (Seq<char>, GenState) {
    let st0 = initial_state(d);
    let uniq = tag_dup_spec(st0, d, gs);
    let tys = remove_redundant_spec(st0, d, types_of(uniq), types_of(uniq));
    let (defs, methods, impls, st1) = type_decls_spec(st0, d, tys);
    let (vars, st2) = vars_spec(st1, d, vars_of(uniq));
    let (funcs, st3) = funcs_spec(st2, d, funcs_of(uniq));
    (
        header_text() + import_text(seq!["std"@, "libc"@]) + defs + extern_text(link, vars + (funcs + methods))
            + impls,
        st3,
    )
}

/// The text of the generated bindings.
pub open spec fn gen_spec(d: Decls, link: Option<Seq<char>>, gs: Seq<Global>) -> Seq<char> {
    gen_result(d, link, gs).0
}

/// The names of the struct, union and enum declarations after generation: anonymous ones
/// carry the name of the typedef that defined them or the fresh `UnnamedN` they were given.
pub open spec fn gen_names(d: Decls, link: Option<Seq<char>>, gs: Seq<Global>) -> GenState {
    gen_result(d, link, gs).1
}

/// `new` is `old` with the struct, union and enum names of `st`, and nothing else changed.
pub open spec fn renamed(old: Decls, new: Decls, st: GenState) -> bool {
    &&& new.comps@.len() == old.comps@.len()
    &&& new.enums@.len() == old.enums@.len()
    &&& new.typedefs == old.typedefs
    &&& new.vars == old.vars
    &&& forall|i: int|
        #![trigger new.comps@[i]]
        0 <= i < new.comps@.len() ==> {
            &&& new.comps@[i].name@ == st.comp_names[i]
            &&& new.comps@[i].cstruct == old.comps@[i].cstruct
            &&& new.comps@[i].fields == old.comps@[i].fields
            &&& new.comps@[i].methods == old.comps@[i].methods
            &&& new.comps@[i].size == old.comps@[i].size
        }
    &&& forall|i: int|
        #![trigger new.enums@[i]]
        0 <= i < new.enums@.len() ==> {
            &&& new.enums@[i].name@ == st.enum_names[i]
            &&& new.enums@[i].items == old.enums@[i].items
            &&& new.enums@[i].kind == old.enums@[i].kind
        }
}

impl GenCtx {
    /// The generator state for `decls`: the declared names and a zero counter.
    pub fn new(decls: &Decls) -> (res: GenCtx)
        ensures
            res@ == initial_state(*decls),
    {
        let mut comp_names: Vec<String> = Vec::new();
        let mut k: usize = 0;
        while k < decls.comps.len()
            invariant
                k <= decls.comps@.len(),
                comp_names@.len() == k,
                forall|m: int| 0 <= m < k ==> #[trigger] comp_names@[m]@ == decls.comps@[m].name@,
            decreases decls.comps.len() - k,
        {
            comp_names.push(decls.comps[k].name.clone());
            k = k + 1;
        }
        let mut enum_names: Vec<String> = Vec::new();
        let mut k: usize = 0;
        while k < decls.enums.len()
            invariant
                k <= decls.enums@.len(),
                enum_names@.len() == k,
                forall|m: int| 0 <= m < k ==> #[trigger] enum_names@[m]@ == decls.enums@[m].name@,
            decreases decls.enums.len() - k,
        {
            enum_names.push(decls.enums[k].name.clone());
            k = k + 1;
        }
        let res = GenCtx { unnamed_ty: 0, comp_names, enum_names };
        assert(res@.comp_names =~= initial_state(*decls).comp_names);
        assert(res@.enum_names =~= initial_state(*decls).enum_names);
        res
    }
}

/// The elements of `funcs_of(gs)` are functions of `gs`.
pub proof fn lemma_funcs_of(gs: Seq<Global>)
    ensures
        forall|k: int| 0 <= k < funcs_of(gs).len() ==> #[trigger] funcs_of(gs)[k] is GFunc && gs.contains(funcs_of(gs)[k]),
    decreases gs.len(),
{
    if gs.len() > 0 {
        lemma_funcs_of(gs.drop_last());
        assert forall|k: int| 0 <= k < funcs_of(gs).len() implies #[trigger] funcs_of(gs)[k] is GFunc && gs.contains(funcs_of(gs)[k]) by {
            if k < funcs_of(gs.drop_last()).len() {
                let j: int = choose|j: int| 0 <= j < gs.drop_last().len() && gs.drop_last()[j] == funcs_of(gs.drop_last())[k];
                assert(gs[j] == funcs_of(gs)[k]);
            } else {
                assert(gs[gs.len() - 1] == funcs_of(gs)[k]);
            }
        }
    }
}

/// The elements of `vars_of(gs)` are variables of `gs`.
pub proof fn lemma_vars_of(gs: Seq<Global>)
    ensures
        forall|k: int| 0 <= k < vars_of(gs).len() ==> #[trigger] vars_of(gs)[k] is GVar && gs.contains(vars_of(gs)[k]),
    decreases gs.len(),
{
    if gs.len() > 0 {
        lemma_vars_of(gs.drop_last());
        assert forall|k: int| 0 <= k < vars_of(gs).len() implies #[trigger] vars_of(gs)[k] is GVar && gs.contains(vars_of(gs)[k]) by {
            if k < vars_of(gs.drop_last()).len() {
                let j: int = choose|j: int| 0 <= j < gs.drop_last().len() && gs.drop_last()[j] == vars_of(gs.drop_last())[k];
                assert(gs[j] == vars_of(gs)[k]);
            } else {
                assert(gs[gs.len() - 1] == vars_of(gs)[k]);
            }
        }
    }
}

/// The elements of `types_of(gs)` are elements of `gs`.
pub proof fn lemma_types_of(gs: Seq<Global>)
    ensures
        forall|k: int| 0 <= k < types_of(gs).len() ==> gs.contains(#[trigger] types_of(gs)[k]),
    decreases gs.len(),
{
    if gs.len() > 0 {
        lemma_types_of(gs.drop_last());
        assert forall|k: int| 0 <= k < types_of(gs).len() implies gs.contains(#[trigger] types_of(gs)[k]) by {
            if k < types_of(gs.drop_last()).len() {
                let j: int = choose|j: int| 0 <= j < gs.drop_last().len() && gs.drop_last()[j] == types_of(gs.drop_last())[k];
                assert(gs[j] == types_of(gs)[k]);
            } else {
                assert(gs[gs.len() - 1] == types_of(gs)[k]);
            }
        }
    }
}

/// The elements of `remove_redundant_spec(.., part)` are elements of `part`.
pub proof fn lemma_remove_redundant_subset(st: GenState, d: Decls, all: Seq<Global>, part: Seq<Global>)
    ensures
        forall|k: int|
            0 <= k < remove_redundant_spec(st, d, all, part).len() ==> part.contains(
                #[trigger] remove_redundant_spec(st, d, all, part)[k],
            ),
    decreases part.len(),
{
    if part.len() > 0 {
        lemma_remove_redundant_subset(st, d, all, part.drop_last());
        let r = remove_redundant_spec(st, d, all, part);
        let r0 = remove_redundant_spec(st, d, all, part.drop_last());
        assert forall|k: int| 0 <= k < r.len() implies part.contains(#[trigger] r[k]) by {
            if k < r0.len() {
                let j: int = choose|j: int| 0 <= j < part.drop_last().len() && part.drop_last()[j] == r0[k];
                assert(part[j] == r[k]);
            } else {
                assert(part[part.len() - 1] == r[k]);
            }
        }
    }
}

/// The removal of repeated declarations keeps every declaration well formed.
pub proof fn lemma_tag_dup_wf(st: GenState, d: Decls, gs: Seq<Global>)
    requires
        globals_wf(d, gs),
    ensures
        globals_wf(d, tag_dup_spec(st, d, gs)),
{
    assert forall|k: int| 0 <= k < tag_dup_spec(st, d, gs).len() implies global_wf(d, #[trigger] tag_dup_spec(st, d, gs)[k]) by {
        assert(global_wf(d, gs[k]));
    }
}

/// The foreign functions for the C++ methods of compound declaration `i`.
pub fn comp_methods_to_rs(ctx: &mut GenCtx, decls: &Decls, i: usize) -> (res: String)
    requires
        state_wf(old(ctx)@, *decls),
        decls_wf(*decls),
        i < decls.comps@.len(),
    ensures
        (res@, final(ctx)@) == comp_methods_spec(old(ctx)@, *decls, i as int, decls.comps@[i as int].methods@),
        state_wf(final(ctx)@, *decls),
{
    let ghost st0 = ctx@;
    let ms = &decls.comps[i].methods;
    let mut res = String::new();
    let mut k: usize = 0;
    while k < ms.len()
        invariant
            k <= ms.len(),
            i < decls.comps@.len(),
            *ms == decls.comps@[i as int].methods,
            decls_wf(*decls),
            state_wf(ctx@, *decls),
            (res@, ctx@) == comp_methods_spec(st0, *decls, i as int, ms@.take(k as int)),
        decreases ms.len() - k,
    {
        assert(ms@.take(k + 1).drop_last() =~= ms@.take(k as int));
        let m = &ms[k];
        assert(methods_wf(*decls, decls.comps@[i as int].methods@));
        assert(decl_ty_wf(*decls, ms@[k as int].return_type));
        let cname = ctx.comp_names[i].clone();
        let f = cmethod_to_rs(ctx, decls, &cname, m);
        res.append(f.as_str());
        k = k + 1;
    }
    assert(ms@.take(k as int) =~= ms@);
    res
}

/// What one type declaration contributes: item definitions, foreign functions for the
/// methods of a C++ class, and the class's impl.
pub fn type_decl_to_rs(ctx: &mut GenCtx, decls: &Decls, g: Global) -> (res: (String, String, String))
    requires
        state_wf(old(ctx)@, *decls),
        decls_wf(*decls),
        global_wf(*decls, g),
    ensures
        (res.0@, res.1@, res.2@, final(ctx)@) == type_decl_spec(old(ctx)@, *decls, g),
        state_wf(final(ctx)@, *decls),
{
    match g {
        Global::GType(t) => {
            let ti = &decls.typedefs[t];
            let x = ctypedef_to_rs(ctx, decls, &ti.name, &ti.ty);
            (x, String::new(), String::new())
        },
        Global::GCompDecl(i) => {
            name_comp(ctx, i);
            let nm = if decls.comps[i].cstruct {
                struct_name(ctx.comp_names[i].as_str())
            } else {
                union_name(ctx.comp_names[i].as_str())
            };
            let x = ctypedef_to_rs(ctx, decls, &nm, &Type::TVoid);
            (x, String::new(), String::new())
        },
        Global::GComp(i) => {
            name_comp(ctx, i);
            let ci = &decls.comps[i];
            assert(fields_wf(*decls, decls.comps@[i as int].fields@));
            let x = if ci.cstruct {
                let nm = struct_name(ctx.comp_names[i].as_str());
                cstruct_to_rs(ctx, decls, &nm, &ci.fields)
            } else {
                let nm = union_name(ctx.comp_names[i].as_str());
                cunion_to_rs(ctx, decls, &nm, &ci.fields, ci.size)
            };
            let ms = comp_methods_to_rs(ctx, decls, i);
            let imp = if ci.methods.len() == 0 {
                String::new()
            } else {
                methods_to_impl_rs(ctx, decls, i)
            };
            (x, ms, imp)
        },
        Global::GEnumDecl(i) => {
            name_enum(ctx, i);
            let nm = enum_name(ctx.enum_names[i].as_str());
            let x = ctypedef_to_rs(ctx, decls, &nm, &Type::TVoid);
            (x, String::new(), String::new())
        },
        Global::GEnum(i) => {
            name_enum(ctx, i);
            let nm = enum_name(ctx.enum_names[i].as_str());
            let ei = &decls.enums[i];
            let x = cenum_to_rs(&nm, &ei.items, ei.kind);
            (x, String::new(), String::new())
        },
        _ => (String::new(), String::new(), String::new()),
    }
}

/// The view of an optional string.
pub open spec fn opt_view(o: Option<String>) -> Option<Seq<char>> {
    match o {
        Some(s) => Some(s@),
        None => None,
    }
}

/// Generates the bindings for the declarations `globs` of a translation unit whose
/// tables are `decls`, to be linked against the library `link`.
fn gen_text(link: &Option<String>, decls: &Decls, globs: &Vec<Global>) -> (res: (String, GenCtx))
    requires
        decls_wf(*decls),
        globals_wf(*decls, globs@),
        funcs_typed(*decls, globs@),
    ensures
        (res.0@, res.1@) == gen_result(*decls, opt_view(*link), globs@),
        state_wf(res.1@, *decls),
{
    let mut ctx = GenCtx::new(decls);
    let ghost st0 = ctx@;
    let uniq_globs = tag_dup_decl(&ctx, decls, globs);
    proof {
        lemma_tag_dup_wf(st0, *decls, globs@);
    }

    let mut fs: Vec<Global> = Vec::new();
    let mut vs: Vec<Global> = Vec::new();
    let mut gs: Vec<Global> = Vec::new();
    let mut k: usize = 0;
    while k < uniq_globs.len()
        invariant
            k <= uniq_globs@.len(),
            fs@ == funcs_of(uniq_globs@.take(k as int)),
            vs@ == vars_of(uniq_globs@.take(k as int)),
            gs@ == types_of(uniq_globs@.take(k as int)),
        decreases uniq_globs.len() - k,
    {
        assert(uniq_globs@.take(k + 1).drop_last() =~= uniq_globs@.take(k as int));
        let g = uniq_globs[k];
        match g {
            Global::GOther => {},
            Global::GFunc(_) => fs.push(g),
            Global::GVar(_) => vs.push(g),
            _ => gs.push(g),
        }
        k = k + 1;
    }
    assert(uniq_globs@.take(k as int) =~= uniq_globs@);
    proof {
        lemma_types_of(uniq_globs@);
        lemma_vars_of(uniq_globs@);
        lemma_funcs_of(uniq_globs@);
        assert forall|j: int| 0 <= j < gs@.len() implies global_wf(*decls, #[trigger] gs@[j]) by {
            let m: int = choose|m: int| 0 <= m < uniq_globs@.len() && uniq_globs@[m] == gs@[j];
            assert(global_wf(*decls, uniq_globs@[m]));
        }
    }
    let gs = remove_redundent_decl(&ctx, decls, &gs);
    proof {
        lemma_remove_redundant_subset(st0, *decls, types_of(uniq_globs@), types_of(uniq_globs@));
    }

    let mut defs = String::new();
    let mut methods = String::new();
    let mut impls = String::new();
    let mut k: usize = 0;
    while k < gs.len()
        invariant
            k <= gs@.len(),
            decls_wf(*decls),
            state_wf(ctx@, *decls),
            forall|j: int| 0 <= j < gs@.len() ==> global_wf(*decls, #[trigger] gs@[j]),
            (defs@, methods@, impls@, ctx@) == type_decls_spec(st0, *decls, gs@.take(k as int)),
        decreases gs.len() - k,
    {
        assert(gs@.take(k + 1).drop_last() =~= gs@.take(k as int));
        let (x, m, i) = type_decl_to_rs(&mut ctx, decls, gs[k]);
        defs.append(x.as_str());
        methods.append(m.as_str());
        impls.append(i.as_str());
        k = k + 1;
    }
    assert(gs@.take(k as int) =~= gs@);
    let ghost st1 = ctx@;

    let mut vars = String::new();
    let mut k: usize = 0;
    while k < vs.len()
        invariant
            k <= vs@.len(),
            decls_wf(*decls),
            state_wf(ctx@, *decls),
            forall|j: int| 0 <= j < vs@.len() ==> global_wf(*decls, #[trigger] vs@[j]),
            (vars@, ctx@) == vars_spec(st1, *decls, vs@.take(k as int)),
        decreases vs.len() - k,
    {
        assert(vs@.take(k + 1).drop_last() =~= vs@.take(k as int));
        match vs[k] {
            Global::GVar(i) => {
                let vi = &decls.vars[i];
                let x = cvar_to_rs(&mut ctx, decls, &vi.name, &vi.ty);
                vars.append(x.as_str());
            },
            _ => {},
        }
        k = k + 1;
    }
    assert(vs@.take(k as int) =~= vs@);
    let ghost st2 = ctx@;

    let mut funcs = String::new();
    let mut k: usize = 0;
    while k < fs.len()
        invariant
            k <= fs@.len(),
            decls_wf(*decls),
            state_wf(ctx@, *decls),
            fs@ == kept_funcs(*decls, globs@),
            funcs_typed(*decls, globs@),
            forall|j: int| 0 <= j < fs@.len() ==> global_wf(*decls, #[trigger] fs@[j]),
            (funcs@, ctx@) == funcs_spec(st2, *decls, fs@.take(k as int)),
        decreases fs.len() - k,
    {
        assert(fs@.take(k + 1).drop_last() =~= fs@.take(k as int));
        match fs[k] {
            Global::GFunc(i) => {
                let vi = &decls.vars[i];
                match &vi.ty {
                    Type::TFunc(r, a, var) => {
                        let x = cfunc_to_rs(&mut ctx, decls, &vi.name, r, a, *var);
                        funcs.append(x.as_str());
                    },
                    _ => {},
                }
            },
            _ => {},
        }
        k = k + 1;
    }
    assert(fs@.take(k as int) =~= fs@);

    let mut path: Vec<String> = Vec::new();
    path.push(String::from_str("std"));
    path.push(String::from_str("libc"));
    let view = mk_import(&path);
    assert(path@.map_values(|p: String| p@) =~= seq!["std"@, "libc"@]);
    funcs.append(methods.as_str());
    let ext = mk_extern(link, vars.as_str(), funcs.as_str());

    let mut res = String::from_str("/* automatically generated by rust-bindgen */\n\n");
    res.append(view.as_str());
    res.append(defs.as_str());
    res.append(ext.as_str());
    res.append(impls.as_str());
    (res, ctx)
}

/// Generates the bindings for the declarations `globs` of a translation unit whose
/// tables are `decls`, to be linked against the library `link`; the anonymous struct,
/// union and enum declarations of `decls` keep the names they were given.
pub fn gen_rs(link: &Option<String>, decls: &mut Decls, globs: &Vec<Global>) -> (res: String)
    requires
        decls_wf(*old(decls)),
        globals_wf(*old(decls), globs@),
        funcs_typed(*old(decls), globs@),
    ensures
        res@ == gen_spec(*old(decls), opt_view(*link), globs@),
        renamed(*old(decls), *final(decls), gen_names(*old(decls), opt_view(*link), globs@)),
{
    let (text, ctx) = gen_text(link, decls, globs);
    let ghost d0 = *decls;
    let mut i: usize = 0;
    while i < decls.comps.len()
        invariant
            i <= decls.comps@.len(),
            decls.comps@.len() == d0.comps@.len(),
            decls.enums == d0.enums,
            decls.typedefs == d0.typedefs,
            decls.vars == d0.vars,
            state_wf(ctx@, d0),
            forall|j: int|
                #![trigger decls.comps@[j]]
                0 <= j < decls.comps@.len() ==> {
                    &&& decls.comps@[j].name@ == (if j < i { ctx@.comp_names[j] } else { d0.comps@[j].name@ })
                    &&& decls.comps@[j].cstruct == d0.comps@[j].cstruct
                    &&& decls.comps@[j].fields == d0.comps@[j].fields
                    &&& decls.comps@[j].methods == d0.comps@[j].methods
                    &&& decls.comps@[j].size == d0.comps@[j].size
                },
        decreases decls.comps.len() - i,
    {
        decls.comps[i].name = ctx.comp_names[i].clone();
        i = i + 1;
    }
    let mut i: usize = 0;
    while i < decls.enums.len()
        invariant
            i <= decls.enums@.len(),
            decls.enums@.len() == d0.enums@.len(),
            decls.comps@.len() == d0.comps@.len(),
            decls.typedefs == d0.typedefs,
            decls.vars == d0.vars,
            state_wf(ctx@, d0),
            forall|j: int|
                #![trigger decls.comps@[j]]
                0 <= j < decls.comps@.len() ==> {
                    &&& decls.comps@[j].name@ == ctx@.comp_names[j]
                    &&& decls.comps@[j].cstruct == d0.comps@[j].cstruct
                    &&& decls.comps@[j].fields == d0.comps@[j].fields
                    &&& decls.comps@[j].methods == d0.comps@[j].methods
                    &&& decls.comps@[j].size == d0.comps@[j].size
                },
            forall|j: int|
                #![trigger decls.enums@[j]]
                0 <= j < decls.enums@.len() ==> {
                    &&& decls.enums@[j].name@ == (if j < i { ctx@.enum_names[j] } else { d0.enums@[j].name@ })
                    &&& decls.enums@[j].items == d0.enums@[j].items
                    &&& decls.enums@[j].kind == d0.enums@[j].kind
                },
        decreases decls.enums.len() - i,
    {
        decls.enums[i].name = ctx.enum_names[i].clone();
        i = i + 1;
    }
    text
}

} // verus!
