//! Properties that hold of every run of the generator.

use vstd::prelude::*;
use crate::gen::{
    cargs_spec, cfunc_spec, cmethod_spec, comp_methods_spec, cstruct_spec, cty_spec, ctypedef_spec,
    cunion_spec, cvar_spec, decl_ty_wf, decls_wf, defined_by_typedef, fields_wf, funcs_of, funcs_spec,
    gen_names, global_wf, globals_wf, impl_methods_spec, initial_state, lemma_funcs_of,
    lemma_tag_dup_wf, methods_to_impl_spec, methods_wf, name_comp_spec, name_enum_spec, redundant,
    remove_redundant_spec, repeated_before, repeats, rust_id_spec, rust_type_id_spec, state_wf,
    struct_fields_spec, tag_dup_spec, tagged_upto, type_decl_spec, type_decls_spec, types_of,
    union_methods_spec, unnamed_spec, unnamed_text, vars_of, vars_spec, GenState,
    global_name,
};
use crate::text::{decimal, digit_char, is_keyword, is_primitive_type_name};
use crate::types::{args_wf, Decls, FieldInfo, Global, IKind, MethodInfo, Type};

verus! {

/// The only reserved word that begins with `_` is `__log_level`.
proof fn lemma_keyword_underscore(s: Seq<char>)
    requires
        is_keyword(s),
        s.len() > 0,
        s[0] == '_',
    ensures
        s == "__log_level"@,
{
    reveal_strlit("self");
    reveal_strlit("static");
    reveal_strlit("as");
    reveal_strlit("break");
    reveal_strlit("const");
    reveal_strlit("copy");
    reveal_strlit("do");
    reveal_strlit("else");
    reveal_strlit("enum");
    reveal_strlit("extern");
    reveal_strlit("false");
    reveal_strlit("fn");
    reveal_strlit("for");
    reveal_strlit("if");
    reveal_strlit("impl");
    reveal_strlit("let");
    reveal_strlit("loop");
    reveal_strlit("match");
    reveal_strlit("mod");
    reveal_strlit("mut");
    reveal_strlit("once");
    reveal_strlit("priv");
    reveal_strlit("pub");
    reveal_strlit("pure");
    reveal_strlit("ref");
    reveal_strlit("return");
    reveal_strlit("struct");
    reveal_strlit("super");
    reveal_strlit("true");
    reveal_strlit("trait");
    reveal_strlit("type");
    reveal_strlit("unsafe");
    reveal_strlit("use");
    reveal_strlit("while");
    reveal_strlit("be");
}

/// `_` followed by `name` is a reserved word only when `name` begins with `_`.
proof fn lemma_escaped_not_keyword(name: Seq<char>)
    requires
        name.len() == 0 || name[0] != '_',
    ensures
        !is_keyword("_"@ + name),
{
    reveal_strlit("_");
    reveal_strlit("__log_level");
    let r = "_"@ + name;
    if is_keyword(r) {
        assert(r[0] == '_');
        lemma_keyword_underscore(r);
        assert(r.len() > 1);
        assert(name[0] == r[1]);
    }
}

/// An escaped identifier is never a reserved word of the target language.
pub proof fn law_rust_id_not_keyword(name: Seq<char>)
    ensures
        !is_keyword(rust_id_spec(name).0),
{
    reveal_strlit("bool");
    if is_keyword(name) || name == "bool"@ {
        if is_keyword(name) && name.len() > 0 && name[0] == '_' {
            lemma_keyword_underscore(name);
            reveal_strlit("__log_level");
            reveal_strlit("_");
            let r = "_"@ + name;
            if is_keyword(r) {
                lemma_keyword_underscore(r);
                assert(r.len() == name.len() + 1);
            }
        } else {
            lemma_escaped_not_keyword(name);
        }
    }
}

/// An escaped type name is neither a reserved word nor the name of a primitive type.
pub proof fn law_rust_type_id_not_reserved(name: Seq<char>)
    ensures
        !is_keyword(rust_type_id_spec(name)),
        !is_primitive_type_name(rust_type_id_spec(name)),
{
    reveal_strlit("_");
    reveal_strlit("bool");
    reveal_strlit("uint");
    reveal_strlit("u8");
    reveal_strlit("u16");
    reveal_strlit("u32");
    reveal_strlit("f32");
    reveal_strlit("f64");
    reveal_strlit("i8");
    reveal_strlit("i16");
    reveal_strlit("i32");
    reveal_strlit("i64");
    reveal_strlit("Self");
    reveal_strlit("str");
    law_rust_id_not_keyword(name);
    if is_primitive_type_name(name) {
        lemma_escaped_not_keyword(name);
        let r = "_"@ + name;
        assert(r[0] == '_');
    } else if is_keyword(name) || name == "bool"@ {
        let r = "_"@ + name;
        assert(r[0] == '_');
    }
}

/// A fresh name is never empty, so a declaration is named at most once.
pub proof fn lemma_unnamed_text_nonempty(n: nat)
    ensures
        unnamed_text(n).len() > 0,
{
    reveal_strlit("Unnamed");
}

/// Translating a type a second time gives the same text and changes nothing: the names
/// that the first translation handed out stay.
pub proof fn law_cty_stable(st: GenState, d: Decls, ty: Type)
    requires
        state_wf(st, d),
        decl_ty_wf(d, ty),
    ensures
        ({
            let (t, st2) = cty_spec(st, d, ty);
            cty_spec(st2, d, ty) == (t, st2)
        }),
    decreases ty,
{
    match ty {
        Type::TPtr(t, _) => law_cty_stable(st, d, *t),
        Type::TArray(t, _) => law_cty_stable(st, d, *t),
        Type::TComp(i) => {
            let (c, n) = unnamed_spec(st.counter, st.comp_names[i as int]);
            lemma_unnamed_text_nonempty(c as nat);
            let st2 = name_comp_spec(st, i as int);
            assert(st2.comp_names[i as int].len() > 0);
            assert(name_comp_spec(st2, i as int) =~= st2) by {
                assert(st2.comp_names.update(i as int, st2.comp_names[i as int]) =~= st2.comp_names);
            }
        },
        Type::TEnum(i) => {
            let (c, n) = unnamed_spec(st.counter, st.enum_names[i as int]);
            lemma_unnamed_text_nonempty(c as nat);
            let st2 = name_enum_spec(st, i as int);
            assert(st2.enum_names[i as int].len() > 0);
            assert(name_enum_spec(st2, i as int) =~= st2) by {
                assert(st2.enum_names.update(i as int, st2.enum_names[i as int]) =~= st2.enum_names);
            }
        },
        _ => {},
    }
}

/// `repeats` is transitive.
proof fn lemma_repeats_trans(st: GenState, d: Decls, a: Global, b: Global, c: Global)
    requires
        repeats(st, d, a, b),
        repeats(st, d, b, c),
    ensures
        repeats(st, d, a, c),
{
}

/// After the removal of repeated declarations, no kept declaration repeats another.
pub proof fn law_tag_dup_unique(st: GenState, d: Decls, gs: Seq<Global>, i: int, j: int)
    requires
        0 <= i < j < gs.len(),
    ensures
        !repeats(st, d, tag_dup_spec(st, d, gs)[i], tag_dup_spec(st, d, gs)[j]),
{
    let t = tag_dup_spec(st, d, gs);
    if t[j] != Global::GOther && t[i] != Global::GOther {
        assert(t[i] == gs[i]);
        assert(t[j] == gs[j]);
        if repeats(st, d, gs[i], gs[j]) {
            assert(repeated_before(st, d, gs, j, j));
        }
    }
}

/// Every declaration is kept or repeats an earlier kept one: the first declaration of each
/// kind and name stays.
pub proof fn law_tag_dup_keeps_first(st: GenState, d: Decls, gs: Seq<Global>, j: int)
    requires
        0 <= j < gs.len(),
    ensures
        exists|k: int|
            0 <= k <= j && #[trigger] tag_dup_spec(st, d, gs)[k] == gs[k] && (k == j || repeats(st, d, gs[k], gs[j])),
    decreases j,
{
    let t = tag_dup_spec(st, d, gs);
    if t[j] == gs[j] {
        assert(t[j] == gs[j]);
    } else {
        let k0: int = choose|k: int| 0 <= k < j && k < j && repeats(st, d, #[trigger] gs[k], gs[j]);
        law_tag_dup_keeps_first(st, d, gs, k0);
        let k: int = choose|k: int|
            0 <= k <= k0 && #[trigger] tag_dup_spec(st, d, gs)[k] == gs[k] && (k == k0 || repeats(st, d, gs[k], gs[k0]));
        if k != k0 {
            lemma_repeats_trans(st, d, gs[k], gs[k0], gs[j]);
        }
        assert(t[k] == gs[k] && repeats(st, d, gs[k], gs[j]));
    }
}

/// Removing repeated declarations a second time changes nothing.
pub proof fn law_tag_dup_idempotent(st: GenState, d: Decls, gs: Seq<Global>)
    ensures
        tag_dup_spec(st, d, tag_dup_spec(st, d, gs)) == tag_dup_spec(st, d, gs),
{
    let t = tag_dup_spec(st, d, gs);
    assert forall|j: int| 0 <= j < t.len() implies #[trigger] tagged_upto(st, d, t, j, j) == t[j] by {
        if repeated_before(st, d, t, j, j) {
            let k: int = choose|k: int| 0 <= k < j && k < j && repeats(st, d, #[trigger] t[k], t[j]);
            law_tag_dup_unique(st, d, gs, k, j);
        }
    }
    assert(tag_dup_spec(st, d, t) =~= t);
}

/// The declarations kept by the removal of redundant definitions are those of `part` that
/// no typedef of `all` defines.
proof fn lemma_remove_redundant_members(st: GenState, d: Decls, all: Seq<Global>, part: Seq<Global>)
    ensures
        forall|g: Global| #[trigger] remove_redundant_spec(st, d, all, part).contains(g) <==> (part.contains(g) && !redundant(st, d, all, g)),
    decreases part.len(),
{
    if part.len() > 0 {
        lemma_remove_redundant_members(st, d, all, part.drop_last());
        let r = remove_redundant_spec(st, d, all, part);
        let r0 = remove_redundant_spec(st, d, all, part.drop_last());
        assert forall|g: Global| #[trigger] r.contains(g) <==> (part.contains(g) && !redundant(st, d, all, g)) by {
            if part.contains(g) {
                let j: int = choose|j: int| 0 <= j < part.len() && part[j] == g;
                if j < part.len() - 1 {
                    assert(part.drop_last()[j] == g);
                }
            }
            if part.drop_last().contains(g) {
                let j: int = choose|j: int| 0 <= j < part.drop_last().len() && part.drop_last()[j] == g;
                assert(part[j] == g);
            }
            if r0.contains(g) && !redundant(st, d, all, part.last()) {
                let j: int = choose|j: int| 0 <= j < r0.len() && r0[j] == g;
                assert(r[j] == g);
            }
            if !redundant(st, d, all, part.last()) {
                assert(r[r.len() - 1] == part.last());
            }
            if r.contains(g) && !redundant(st, d, all, part.last()) {
                let j: int = choose|j: int| 0 <= j < r.len() && r[j] == g;
                if j < r.len() - 1 {
                    assert(r0[j] == g);
                }
            }
        }
    }
}

/// The removal keeps every element of `part` when none of them is redundant.
proof fn lemma_remove_redundant_none(st: GenState, d: Decls, all: Seq<Global>, part: Seq<Global>)
    requires
        forall|k: int| 0 <= k < part.len() ==> !redundant(st, d, all, #[trigger] part[k]),
    ensures
        remove_redundant_spec(st, d, all, part) == part,
    decreases part.len(),
{
    if part.len() > 0 {
        lemma_remove_redundant_none(st, d, all, part.drop_last());
        assert(!redundant(st, d, all, part[part.len() - 1]));
        assert(part.drop_last().push(part.last()) =~= part);
    }
}

/// Dropping the definitions that a typedef also makes, a second time, changes nothing.
pub proof fn law_remove_redundant_idempotent(st: GenState, d: Decls, gs: Seq<Global>)
    ensures
        ({
            let r = remove_redundant_spec(st, d, gs, gs);
            remove_redundant_spec(st, d, r, r) == r
        }),
{
    let r = remove_redundant_spec(st, d, gs, gs);
    lemma_remove_redundant_members(st, d, gs, gs);
    assert forall|k: int| 0 <= k < r.len() implies !redundant(st, d, r, #[trigger] r[k]) by {
        assert(r.contains(r[k]));
        if redundant(st, d, r, r[k]) {
            let m: int = choose|m: int| 0 <= m < r.len() && defined_by_typedef(st, d, r[k], #[trigger] r[m]);
            assert(r.contains(r[m]));
            assert(gs.contains(r[m]));
            let m2: int = choose|m2: int| 0 <= m2 < gs.len() && gs[m2] == r[m];
            assert(defined_by_typedef(st, d, r[k], gs[m2]));
            assert(redundant(st, d, gs, r[k]));
            assert(false);
        }
    }
    lemma_remove_redundant_none(st, d, r, r);
}

/// A typedef is never dropped as redundant.
pub proof fn law_remove_redundant_keeps_typedefs(st: GenState, d: Decls, gs: Seq<Global>, t: usize)
    requires
        gs.contains(Global::GType(t)),
    ensures
        remove_redundant_spec(st, d, gs, gs).contains(Global::GType(t)),
{
    lemma_remove_redundant_members(st, d, gs, gs);
    assert(!redundant(st, d, gs, Global::GType(t)));
}

// ---------------------------------------------------------------- names are never taken back

/// `b` has the same declarations as `a`, and every non-empty name of `a` is unchanged in `b`.
pub open spec fn keeps_names(a: GenState, b: GenState) -> bool {
    &&& b.comp_names.len() == a.comp_names.len()
    &&& b.enum_names.len() == a.enum_names.len()
    &&& forall|i: int|
        0 <= i < a.comp_names.len() && a.comp_names[i].len() > 0 ==> #[trigger] b.comp_names[i] == a.comp_names[i]
    &&& forall|i: int|
        0 <= i < a.enum_names.len() && a.enum_names[i].len() > 0 ==> #[trigger] b.enum_names[i] == a.enum_names[i]
}

proof fn lemma_keeps_trans(a: GenState, b: GenState, c: GenState)
    requires
        keeps_names(a, b),
        keeps_names(b, c),
    ensures
        keeps_names(a, c),
{
    assert forall|i: int| 0 <= i < a.comp_names.len() && a.comp_names[i].len() > 0 implies #[trigger] c.comp_names[i] == a.comp_names[i] by {
        assert(b.comp_names[i] == a.comp_names[i]);
    }
    assert forall|i: int| 0 <= i < a.enum_names.len() && a.enum_names[i].len() > 0 implies #[trigger] c.enum_names[i] == a.enum_names[i] by {
        assert(b.enum_names[i] == a.enum_names[i]);
    }
}

proof fn lemma_keeps_refl(a: GenState)
    ensures
        keeps_names(a, a),
{
}

proof fn lemma_keeps_cty(st: GenState, d: Decls, ty: Type)
    requires
        state_wf(st, d),
        decl_ty_wf(d, ty),
    ensures
        keeps_names(st, cty_spec(st, d, ty).1),
    decreases ty,
{
    match ty {
        Type::TPtr(t, _) => lemma_keeps_cty(st, d, *t),
        Type::TArray(t, _) => lemma_keeps_cty(st, d, *t),
        _ => {},
    }
}

proof fn lemma_keeps_struct_fields(st: GenState, d: Decls, fields: Seq<FieldInfo>)
    requires
        state_wf(st, d),
        fields_wf(d, fields),
    ensures
        keeps_names(st, struct_fields_spec(st, d, fields).1),
    decreases fields.len(),
{
    if fields.len() > 0 {
        lemma_keeps_struct_fields(st, d, fields.drop_last());
        let st1 = struct_fields_spec(st, d, fields.drop_last()).1;
        assert(decl_ty_wf(d, fields[fields.len() - 1].ty));
        lemma_keeps_cty(st1, d, fields.last().ty);
        lemma_keeps_trans(st, st1, cty_spec(st1, d, fields.last().ty).1);
    }
}

proof fn lemma_keeps_union_methods(st: GenState, d: Decls, fields: Seq<FieldInfo>)
    requires
        state_wf(st, d),
        fields_wf(d, fields),
    ensures
        keeps_names(st, union_methods_spec(st, d, fields).1),
    decreases fields.len(),
{
    if fields.len() > 0 {
        lemma_keeps_union_methods(st, d, fields.drop_last());
        let st1 = union_methods_spec(st, d, fields.drop_last()).1;
        assert(decl_ty_wf(d, fields[fields.len() - 1].ty));
        lemma_keeps_cty(st1, d, fields.last().ty);
        lemma_keeps_trans(st, st1, cty_spec(st1, d, fields.last().ty).1);
    }
}

proof fn lemma_keeps_cargs(st: GenState, d: Decls, args: Seq<(String, Type)>)
    requires
        state_wf(st, d),
        args_wf(args, d.comps@.len(), d.enums@.len()),
    ensures
        keeps_names(st, cargs_spec(st, d, args).2),
    decreases args.len(),
{
    if args.len() > 0 {
        lemma_keeps_cargs(st, d, args.drop_last());
        let st1 = cargs_spec(st, d, args.drop_last()).2;
        lemma_keeps_cty(st1, d, args.last().1);
        lemma_keeps_trans(st, st1, cty_spec(st1, d, args.last().1).1);
    }
}

proof fn lemma_keeps_cfunc(st: GenState, d: Decls, name: Seq<char>, rty: Type, aty: Seq<(String, Type)>)
    requires
        state_wf(st, d),
        decl_ty_wf(d, rty),
        args_wf(aty, d.comps@.len(), d.enums@.len()),
    ensures
        keeps_names(st, cfunc_spec(st, d, name, rty, aty).1),
{
    lemma_keeps_cty(st, d, rty);
    let st1 = if rty is TVoid { st } else { cty_spec(st, d, rty).1 };
    lemma_keeps_cargs(st1, d, aty);
    lemma_keeps_trans(st, st1, cargs_spec(st1, d, aty).2);
}

proof fn lemma_keeps_cmethod(st: GenState, d: Decls, cname: Seq<char>, mname: Seq<char>, rty: Type, aty: Seq<(String, Type)>)
    requires
        state_wf(st, d),
        decl_ty_wf(d, rty),
        args_wf(aty, d.comps@.len(), d.enums@.len()),
    ensures
        keeps_names(st, cmethod_spec(st, d, cname, mname, rty, aty).1),
{
    lemma_keeps_cty(st, d, rty);
    let st1 = if rty is TVoid { st } else { cty_spec(st, d, rty).1 };
    lemma_keeps_cargs(st1, d, aty);
    lemma_keeps_trans(st, st1, cargs_spec(st1, d, aty).2);
}

proof fn lemma_keeps_impl_methods(st: GenState, d: Decls, i: int, methods: Seq<MethodInfo>)
    requires
        state_wf(st, d),
        methods_wf(d, methods),
    ensures
        keeps_names(st, impl_methods_spec(st, d, i, methods).1),
    decreases methods.len(),
{
    if methods.len() > 0 {
        lemma_keeps_impl_methods(st, d, i, methods.drop_last());
        let st1 = impl_methods_spec(st, d, i, methods.drop_last()).1;
        let m = methods.last();
        assert(decl_ty_wf(d, methods[methods.len() - 1].return_type));
        lemma_keeps_cargs(st1, d, m.args@);
        let st2 = cargs_spec(st1, d, m.args@).2;
        lemma_keeps_cty(st2, d, m.return_type);
        lemma_keeps_trans(st, st1, st2);
        lemma_keeps_trans(st, st2, cty_spec(st2, d, m.return_type).1);
    }
}

proof fn lemma_keeps_comp_methods(st: GenState, d: Decls, i: int, methods: Seq<MethodInfo>)
    requires
        state_wf(st, d),
        methods_wf(d, methods),
    ensures
        keeps_names(st, comp_methods_spec(st, d, i, methods).1),
    decreases methods.len(),
{
    if methods.len() > 0 {
        lemma_keeps_comp_methods(st, d, i, methods.drop_last());
        let st1 = comp_methods_spec(st, d, i, methods.drop_last()).1;
        let m = methods.last();
        assert(decl_ty_wf(d, methods[methods.len() - 1].return_type));
        lemma_keeps_cmethod(st1, d, st1.comp_names[i], m.name@, m.return_type, m.args@);
        lemma_keeps_trans(st, st1, cmethod_spec(st1, d, st1.comp_names[i], m.name@, m.return_type, m.args@).1);
    }
}

proof fn lemma_keeps_ctypedef(st: GenState, d: Decls, name: Seq<char>, ty: Type)
    requires
        state_wf(st, d),
        decls_wf(d),
        decl_ty_wf(d, ty),
    ensures
        keeps_names(st, ctypedef_spec(st, d, name, ty).1),
{
    match ty {
        Type::TComp(i) => {
            if st.comp_names[i as int].len() == 0 {
                let st1 = GenState { comp_names: st.comp_names.update(i as int, name), ..st };
                let ci = d.comps@[i as int];
                assert(fields_wf(d, ci.fields@));
                assert(keeps_names(st, st1));
                if ci.cstruct {
                    lemma_keeps_struct_fields(st1, d, ci.fields@);
                    lemma_keeps_trans(st, st1, struct_fields_spec(st1, d, ci.fields@).1);
                } else {
                    lemma_keeps_union_methods(st1, d, ci.fields@);
                    lemma_keeps_trans(st, st1, union_methods_spec(st1, d, ci.fields@).1);
                }
            } else {
                lemma_keeps_cty(st, d, ty);
            }
        },
        Type::TEnum(i) => {
            if st.enum_names[i as int].len() > 0 {
                lemma_keeps_cty(st, d, ty);
            }
        },
        _ => lemma_keeps_cty(st, d, ty),
    }
}

proof fn lemma_keeps_type_decl(st: GenState, d: Decls, g: Global)
    requires
        state_wf(st, d),
        decls_wf(d),
        global_wf(d, g),
    ensures
        keeps_names(st, type_decl_spec(st, d, g).3),
{
    match g {
        Global::GType(t) => {
            assert(decl_ty_wf(d, d.typedefs@[t as int].ty));
            lemma_keeps_ctypedef(st, d, d.typedefs@[t as int].name@, d.typedefs@[t as int].ty);
        },
        Global::GCompDecl(i) => {
            let st1 = name_comp_spec(st, i as int);
            let n = st1.comp_names[i as int];
            let nm = if d.comps@[i as int].cstruct { crate::gen::struct_name_spec(n) } else { crate::gen::union_name_spec(n) };
            lemma_keeps_ctypedef(st1, d, nm, Type::TVoid);
            lemma_keeps_trans(st, st1, ctypedef_spec(st1, d, nm, Type::TVoid).1);
        },
        Global::GComp(i) => {
            let st1 = name_comp_spec(st, i as int);
            let n = st1.comp_names[i as int];
            let ci = d.comps@[i as int];
            assert(fields_wf(d, ci.fields@) && methods_wf(d, ci.methods@));
            let st2 = if ci.cstruct {
                lemma_keeps_struct_fields(st1, d, ci.fields@);
                cstruct_spec(st1, d, crate::gen::struct_name_spec(n), ci.fields@).1
            } else {
                lemma_keeps_union_methods(st1, d, ci.fields@);
                cunion_spec(st1, d, crate::gen::union_name_spec(n), ci.fields@, ci.size).1
            };
            lemma_keeps_trans(st, st1, st2);
            lemma_keeps_comp_methods(st2, d, i as int, ci.methods@);
            let st3 = comp_methods_spec(st2, d, i as int, ci.methods@).1;
            lemma_keeps_trans(st, st2, st3);
            lemma_keeps_impl_methods(st3, d, i as int, ci.methods@);
            let st4 = methods_to_impl_spec(st3, d, i as int).1;
            lemma_keeps_trans(st, st3, st4);
        },
        Global::GEnumDecl(i) => {
            let st1 = name_enum_spec(st, i as int);
            let nm = crate::gen::enum_name_spec(st1.enum_names[i as int]);
            lemma_keeps_ctypedef(st1, d, nm, Type::TVoid);
            lemma_keeps_trans(st, st1, ctypedef_spec(st1, d, nm, Type::TVoid).1);
        },
        _ => {},
    }
}

proof fn lemma_keeps_type_decls(st: GenState, d: Decls, gs: Seq<Global>)
    requires
        state_wf(st, d),
        decls_wf(d),
        globals_wf(d, gs),
    ensures
        keeps_names(st, type_decls_spec(st, d, gs).3),
    decreases gs.len(),
{
    if gs.len() > 0 {
        lemma_keeps_type_decls(st, d, gs.drop_last());
        let st1 = type_decls_spec(st, d, gs.drop_last()).3;
        assert(global_wf(d, gs[gs.len() - 1]));
        lemma_keeps_type_decl(st1, d, gs.last());
        lemma_keeps_trans(st, st1, type_decl_spec(st1, d, gs.last()).3);
    }
}

proof fn lemma_keeps_vars(st: GenState, d: Decls, vs: Seq<Global>)
    requires
        state_wf(st, d),
        decls_wf(d),
        globals_wf(d, vs),
    ensures
        keeps_names(st, vars_spec(st, d, vs).1),
    decreases vs.len(),
{
    if vs.len() > 0 {
        lemma_keeps_vars(st, d, vs.drop_last());
        let st1 = vars_spec(st, d, vs.drop_last()).1;
        assert(global_wf(d, vs[vs.len() - 1]));
        match vs.last() {
            Global::GVar(i) => {
                assert(decl_ty_wf(d, d.vars@[i as int].ty));
                lemma_keeps_cty(st1, d, d.vars@[i as int].ty);
                assert(cvar_spec(st1, d, d.vars@[i as int].name@, d.vars@[i as int].ty).1 == cty_spec(st1, d, d.vars@[i as int].ty).1);
                lemma_keeps_trans(st, st1, cty_spec(st1, d, d.vars@[i as int].ty).1);
            },
            _ => {},
        }
    }
}

proof fn lemma_keeps_funcs(st: GenState, d: Decls, fs: Seq<Global>)
    requires
        state_wf(st, d),
        decls_wf(d),
        globals_wf(d, fs),
    ensures
        keeps_names(st, funcs_spec(st, d, fs).1),
    decreases fs.len(),
{
    if fs.len() > 0 {
        lemma_keeps_funcs(st, d, fs.drop_last());
        let st1 = funcs_spec(st, d, fs.drop_last()).1;
        assert(global_wf(d, fs[fs.len() - 1]));
        match fs.last() {
            Global::GFunc(i) => {
                assert(decl_ty_wf(d, d.vars@[i as int].ty));
                match d.vars@[i as int].ty {
                    Type::TFunc(r, a, _) => {
                        lemma_keeps_cfunc(st1, d, d.vars@[i as int].name@, *r, a@);
                        lemma_keeps_trans(st, st1, cfunc_spec(st1, d, d.vars@[i as int].name@, *r, a@).1);
                    },
                    _ => {},
                }
            },
            _ => {},
        }
    }
}

/// Every element of `s` is well formed when every element of `t` is and `s` draws only
/// from `t`.
proof fn lemma_globals_wf_sub(d: Decls, t: Seq<Global>, s: Seq<Global>)
    requires
        globals_wf(d, t),
        forall|k: int| 0 <= k < s.len() ==> t.contains(#[trigger] s[k]),
    ensures
        globals_wf(d, s),
{
    assert forall|k: int| 0 <= k < s.len() implies global_wf(d, #[trigger] s[k]) by {
        assert(t.contains(s[k]));
        let j: int = choose|j: int| 0 <= j < t.len() && t[j] == s[k];
        assert(global_wf(d, t[j]));
    }
}

/// Generation never changes a name that a struct, union or enum already had: only
/// anonymous declarations receive names.
pub proof fn law_gen_keeps_names(d: Decls, link: Option<Seq<char>>, gs: Seq<Global>)
    requires
        decls_wf(d),
        globals_wf(d, gs),
    ensures
        keeps_names(initial_state(d), gen_names(d, link, gs)),
{
    let st0 = initial_state(d);
    let uniq = tag_dup_spec(st0, d, gs);
    lemma_tag_dup_wf(st0, d, gs);
    crate::gen::lemma_types_of(uniq);
    crate::gen::lemma_vars_of(uniq);
    lemma_funcs_of(uniq);
    lemma_globals_wf_sub(d, uniq, types_of(uniq));
    lemma_globals_wf_sub(d, uniq, vars_of(uniq));
    lemma_globals_wf_sub(d, uniq, funcs_of(uniq));
    crate::gen::lemma_remove_redundant_subset(st0, d, types_of(uniq), types_of(uniq));
    let tys = remove_redundant_spec(st0, d, types_of(uniq), types_of(uniq));
    lemma_globals_wf_sub(d, types_of(uniq), tys);
    assert(state_wf(st0, d));
    lemma_keeps_type_decls(st0, d, tys);
    let st1 = type_decls_spec(st0, d, tys).3;
    lemma_keeps_vars(st1, d, vars_of(uniq));
    let st2 = vars_spec(st1, d, vars_of(uniq)).1;
    lemma_keeps_trans(st0, st1, st2);
    lemma_keeps_funcs(st2, d, funcs_of(uniq));
    lemma_keeps_trans(st0, st2, funcs_spec(st2, d, funcs_of(uniq)).1);
}

// ---------------------------------------------------------------- what the generated names are

/// The reserved words of the Rust dialect the bindings are written in.
pub open spec fn reserved_words() -> Set<Seq<char>> {
    set![
        "self"@, "static"@, "as"@, "break"@, "const"@, "copy"@, "do"@, "else"@, "enum"@, "extern"@,
        "false"@, "fn"@, "for"@, "if"@, "impl"@, "let"@, "__log_level"@, "loop"@, "match"@, "mod"@,
        "mut"@, "once"@, "priv"@, "pub"@, "pure"@, "ref"@, "return"@, "struct"@, "super"@, "true"@,
        "trait"@, "type"@, "unsafe"@, "use"@, "while"@, "be"@,
    ]
}

/// The names of the primitive types, which a generated type may not take.
pub open spec fn primitive_type_names() -> Set<Seq<char>> {
    set![
        "bool"@, "uint"@, "u8"@, "u16"@, "u32"@, "f32"@, "f64"@, "i8"@, "i16"@, "i32"@, "i64"@,
        "Self"@, "str"@,
    ]
}

proof fn lemma_reserved_words(s: Seq<char>)
    ensures
        reserved_words().contains(s) <==> is_keyword(s),
        primitive_type_names().contains(s) <==> is_primitive_type_name(s),
{
}

/// Identifiers are escaped exactly when they are reserved words or `bool`, and an escaped
/// identifier is never a reserved word: every parameter, field, static and function name
/// of the bindings is a legal identifier.
pub proof fn law_rust_id_escapes_reserved(name: Seq<char>)
    ensures
        rust_id_spec(name).1 <==> (reserved_words().contains(name) || name == "bool"@),
        !reserved_words().contains(rust_id_spec(name).0),
        !rust_id_spec(name).1 ==> rust_id_spec(name).0 == name,
{
    lemma_reserved_words(name);
    law_rust_id_not_keyword(name);
    lemma_reserved_words(rust_id_spec(name).0);
}

/// An escaped type name is neither a reserved word nor a primitive type's name.
pub proof fn law_rust_type_id_legal(name: Seq<char>)
    ensures
        !reserved_words().contains(rust_type_id_spec(name)),
        !primitive_type_names().contains(rust_type_id_spec(name)),
        primitive_type_names().contains(name) ==> rust_type_id_spec(name) == "_"@ + name,
{
    lemma_reserved_words(name);
    law_rust_type_id_not_reserved(name);
    lemma_reserved_words(rust_type_id_spec(name));
}

/// A name with one of the prefixes `Struct_`, `Union_` or `Enum_` needs no escaping.
proof fn lemma_prefixed_names_legal(n: Seq<char>)
    ensures
        rust_type_id_spec(crate::gen::struct_name_spec(n)) == crate::gen::struct_name_spec(n),
        rust_type_id_spec(crate::gen::union_name_spec(n)) == crate::gen::union_name_spec(n),
        rust_type_id_spec(crate::gen::enum_name_spec(n)) == crate::gen::enum_name_spec(n),
{
    reveal_strlit("Struct_");
    reveal_strlit("Union_");
    reveal_strlit("Enum_");
    reveal_strlit("self");
    reveal_strlit("static");
    reveal_strlit("as");
    reveal_strlit("break");
    reveal_strlit("const");
    reveal_strlit("copy");
    reveal_strlit("do");
    reveal_strlit("else");
    reveal_strlit("enum");
    reveal_strlit("extern");
    reveal_strlit("false");
    reveal_strlit("fn");
    reveal_strlit("for");
    reveal_strlit("if");
    reveal_strlit("impl");
    reveal_strlit("let");
    reveal_strlit("__log_level");
    reveal_strlit("loop");
    reveal_strlit("match");
    reveal_strlit("mod");
    reveal_strlit("mut");
    reveal_strlit("once");
    reveal_strlit("priv");
    reveal_strlit("pub");
    reveal_strlit("pure");
    reveal_strlit("ref");
    reveal_strlit("return");
    reveal_strlit("struct");
    reveal_strlit("super");
    reveal_strlit("true");
    reveal_strlit("trait");
    reveal_strlit("type");
    reveal_strlit("unsafe");
    reveal_strlit("use");
    reveal_strlit("while");
    reveal_strlit("be");
    reveal_strlit("bool");
    reveal_strlit("uint");
    reveal_strlit("u8");
    reveal_strlit("u16");
    reveal_strlit("u32");
    reveal_strlit("f32");
    reveal_strlit("f64");
    reveal_strlit("i8");
    reveal_strlit("i16");
    reveal_strlit("i32");
    reveal_strlit("i64");
    reveal_strlit("Self");
    reveal_strlit("str");
    let a = crate::gen::struct_name_spec(n);
    let b = crate::gen::union_name_spec(n);
    let c = crate::gen::enum_name_spec(n);
    assert(a[0] == 'S' && a[1] == 't' && a.len() >= 7);
    assert(b[0] == 'U' && b.len() >= 6);
    assert(c[0] == 'E' && c.len() >= 5);
}

/// A struct or union is defined under exactly the type name that references to it are
/// translated to (`Struct_` for a struct, `Union_` for a union, after its final name).
pub proof fn law_definition_named_as_references(st: GenState, d: Decls, i: usize)
    requires
        state_wf(st, d),
        i < d.comps@.len(),
    ensures
        ({
            let x = type_decl_spec(st, d, Global::GComp(i)).0;
            let prefix = "pub struct "@ + cty_spec(st, d, Type::TComp(i)).0 + " {\n"@;
            &&& prefix.len() <= x.len()
            &&& x.subrange(0, prefix.len() as int) == prefix
        }),
{
    let st1 = name_comp_spec(st, i as int);
    let n = st1.comp_names[i as int];
    lemma_prefixed_names_legal(n);
    let ci = d.comps@[i as int];
    let x = type_decl_spec(st, d, Global::GComp(i)).0;
    let prefix = "pub struct "@ + cty_spec(st, d, Type::TComp(i)).0 + " {\n"@;
    if ci.cstruct {
        let body = struct_fields_spec(st1, d, ci.fields@).0;
        assert(x =~= prefix + body + "}\n"@);
    } else {
        let id = crate::gen::union_name_spec(n);
        let data = crate::gen::field_line("data"@, crate::gen::arr_text("c_uchar"@, ci.size as nat));
        let ms = union_methods_spec(st1, d, ci.fields@).0;
        assert(x =~= prefix + data + "}\n"@ + "impl "@ + id + " {\n"@ + ms + "}\n"@);
    }
    assert(x.subrange(0, prefix.len() as int) =~= prefix);
}

/// The kind of a declaration.
pub open spec fn decl_kind(g: Global) -> int {
    match g {
        Global::GType(_) => 0,
        Global::GComp(_) => 1,
        Global::GCompDecl(_) => 2,
        Global::GEnum(_) => 3,
        Global::GEnumDecl(_) => 4,
        Global::GVar(_) => 5,
        Global::GFunc(_) => 6,
        Global::GOther => 7,
    }
}

/// A declaration is dropped as a repeat only when an earlier declaration of exactly the
/// same kind has the same non-empty name; a typedef never drops a definition, nor a
/// variable a function.
pub proof fn law_tag_dup_drops_only_same_kind(st: GenState, d: Decls, gs: Seq<Global>, j: int)
    requires
        0 <= j < gs.len(),
        gs[j] != Global::GOther,
        tag_dup_spec(st, d, gs)[j] == Global::GOther,
    ensures
        exists|k: int|
            0 <= k < j && decl_kind(#[trigger] gs[k]) == decl_kind(gs[j]) && global_name(st, d, gs[k]).len() > 0
                && global_name(st, d, gs[k]) == global_name(st, d, gs[j]),
{
    assert(repeated_before(st, d, gs, j, j));
    let k: int = choose|k: int| 0 <= k < j && k < j && repeats(st, d, #[trigger] gs[k], gs[j]);
    assert(decl_kind(gs[k]) == decl_kind(gs[j]));
}

/// Only an anonymous struct, union or enum definition is dropped as redundant, and only
/// when a typedef among `all` defines exactly that declaration: every named definition is
/// generated.
pub proof fn law_remove_redundant_drops_only_anonymous(st: GenState, d: Decls, all: Seq<Global>, part: Seq<Global>, g: Global)
    requires
        part.contains(g),
        !remove_redundant_spec(st, d, all, part).contains(g),
    ensures
        match g {
            Global::GComp(i) => st.comp_names[i as int].len() == 0 && exists|k: int|
                0 <= k < all.len() && (#[trigger] all[k] matches Global::GType(t)
                    && d.typedefs@[t as int].ty matches Type::TComp(j) && j == i),
            Global::GEnum(i) => st.enum_names[i as int].len() == 0 && exists|k: int|
                0 <= k < all.len() && (#[trigger] all[k] matches Global::GType(t)
                    && d.typedefs@[t as int].ty matches Type::TEnum(j) && j == i),
            _ => false,
        },
{
    lemma_remove_redundant_members(st, d, all, part);
    assert(redundant(st, d, all, g));
    let k: int = choose|k: int| 0 <= k < all.len() && defined_by_typedef(st, d, g, #[trigger] all[k]);
    assert(defined_by_typedef(st, d, g, all[k]));
}

/// `t` occurs in `s` at position `p`.
pub open spec fn occurs_at(s: Seq<char>, t: Seq<char>, p: int) -> bool {
    0 <= p && p + t.len() <= s.len() && s.subrange(p, p + t.len()) == t
}

proof fn lemma_union_accessor_in_methods(st: GenState, d: Decls, fields: Seq<FieldInfo>, k: int)
    requires
        0 <= k < fields.len(),
        fields[k].name@.len() > 0,
    ensures
        exists|p: int|
            occurs_at(
                union_methods_spec(st, d, fields).0,
                "    pub fn "@ + rust_id_spec(fields[k].name@).0 + "(&mut self) -> "@,
                p,
            ),
    decreases fields.len(),
{
    let h = "    pub fn "@ + rust_id_spec(fields[k].name@).0 + "(&mut self) -> "@;
    let (body, st1, u) = union_methods_spec(st, d, fields.drop_last());
    let text = union_methods_spec(st, d, fields).0;
    if k < fields.len() - 1 {
        assert(fields.drop_last()[k] == fields[k]);
        lemma_union_accessor_in_methods(st, d, fields.drop_last(), k);
        let p: int = choose|p: int| occurs_at(body, h, p);
        assert(text.subrange(0, body.len() as int) =~= body);
        assert(text.subrange(p, p + h.len()) =~= body.subrange(p, p + h.len()));
        assert(occurs_at(text, h, p));
    } else {
        let (fty, _) = cty_spec(st1, d, fields.last().ty);
        let m = crate::gen::union_method_text(rust_id_spec(fields.last().name@).0, crate::gen::ptr_text(fty, false));
        assert(text =~= body + m);
        assert(text.subrange(body.len() as int, (body.len() + h.len()) as int) =~= h);
        assert(occurs_at(text, h, body.len() as int));
    }
}

/// Every named member of a union gets an accessor named after it, escaped: its name is the
/// member's identifier and never a reserved word (a member `type` gets `_type`).
pub proof fn law_union_accessors_escaped(st: GenState, d: Decls, name: Seq<char>, fields: Seq<FieldInfo>, size: usize, k: int)
    requires
        0 <= k < fields.len(),
        fields[k].name@.len() > 0,
    ensures
        exists|p: int|
            occurs_at(
                cunion_spec(st, d, name, fields, size).0,
                "    pub fn "@ + rust_id_spec(fields[k].name@).0 + "(&mut self) -> "@,
                p,
            ),
        !reserved_words().contains(rust_id_spec(fields[k].name@).0),
{
    law_rust_id_escapes_reserved(fields[k].name@);
    let h = "    pub fn "@ + rust_id_spec(fields[k].name@).0 + "(&mut self) -> "@;
    lemma_union_accessor_in_methods(st, d, fields, k);
    let ms = union_methods_spec(st, d, fields).0;
    let p: int = choose|p: int| occurs_at(ms, h, p);
    let id = rust_type_id_spec(name);
    let pre = crate::gen::struct_text(id, crate::gen::field_line("data"@, crate::gen::arr_text("c_uchar"@, size as nat)))
        + "impl "@ + id + " {\n"@;
    let x = cunion_spec(st, d, name, fields, size).0;
    assert(x =~= pre + ms + "}\n"@);
    assert(x.subrange(pre.len() + p, pre.len() + p + h.len()) =~= ms.subrange(p, p + h.len()));
    assert(occurs_at(x, h, pre.len() + p));
}

proof fn lemma_struct_field_in_body(st: GenState, d: Decls, fields: Seq<FieldInfo>, k: int)
    requires
        0 <= k < fields.len(),
        fields[k].name@.len() > 0,
    ensures
        exists|p: int|
            occurs_at(
                struct_fields_spec(st, d, fields).0,
                "    pub "@ + rust_type_id_spec(fields[k].name@) + ": "@,
                p,
            ),
    decreases fields.len(),
{
    let h = "    pub "@ + rust_type_id_spec(fields[k].name@) + ": "@;
    let (body, st1, u) = struct_fields_spec(st, d, fields.drop_last());
    let text = struct_fields_spec(st, d, fields).0;
    if k < fields.len() - 1 {
        assert(fields.drop_last()[k] == fields[k]);
        lemma_struct_field_in_body(st, d, fields.drop_last(), k);
        let p: int = choose|p: int| occurs_at(body, h, p);
        assert(text.subrange(p, p + h.len()) =~= body.subrange(p, p + h.len()));
        assert(occurs_at(text, h, p));
    } else {
        let (fty, _) = cty_spec(st1, d, fields.last().ty);
        let line = crate::gen::field_line(rust_type_id_spec(fields.last().name@), fty);
        assert(text =~= body + line);
        assert(text.subrange(body.len() as int, (body.len() + h.len()) as int) =~= h);
        assert(occurs_at(text, h, body.len() as int));
    }
}

/// Every named field of a struct is declared under its escaped name, which is neither a
/// reserved word nor a primitive type's name (a field `type` becomes `_type`).
pub proof fn law_struct_fields_escaped(st: GenState, d: Decls, name: Seq<char>, fields: Seq<FieldInfo>, k: int)
    requires
        0 <= k < fields.len(),
        fields[k].name@.len() > 0,
    ensures
        exists|p: int|
            occurs_at(cstruct_spec(st, d, name, fields).0, "    pub "@ + rust_type_id_spec(fields[k].name@) + ": "@, p),
        !reserved_words().contains(rust_type_id_spec(fields[k].name@)),
{
    law_rust_type_id_legal(fields[k].name@);
    let h = "    pub "@ + rust_type_id_spec(fields[k].name@) + ": "@;
    lemma_struct_field_in_body(st, d, fields, k);
    let body = struct_fields_spec(st, d, fields).0;
    let p: int = choose|p: int| occurs_at(body, h, p);
    let pre = "pub struct "@ + rust_type_id_spec(name) + " {\n"@;
    let x = cstruct_spec(st, d, name, fields).0;
    assert(x =~= pre + body + "}\n"@);
    assert(x.subrange(pre.len() + p, pre.len() + p + h.len()) =~= body.subrange(p, p + h.len()));
    assert(occurs_at(x, h, pre.len() + p));
}

/// The parameters of a translated function are named one for one after the C parameters:
/// a named parameter keeps its escaped name, never a reserved word (`self` becomes `_self`).
pub proof fn law_param_names_escaped(st: GenState, d: Decls, args: Seq<(String, Type)>)
    ensures
        cargs_spec(st, d, args).1.len() == args.len(),
        cargs_spec(st, d, args).0.len() == args.len(),
        forall|k: int|
            0 <= k < args.len() && args[k].0@.len() > 0 ==> #[trigger] cargs_spec(st, d, args).1[k]
                == rust_id_spec(args[k].0@).0 && !reserved_words().contains(cargs_spec(st, d, args).1[k]),
    decreases args.len(),
{
    if args.len() > 0 {
        law_param_names_escaped(st, d, args.drop_last());
        let names = cargs_spec(st, d, args).1;
        let names0 = cargs_spec(st, d, args.drop_last()).1;
        assert forall|k: int| 0 <= k < args.len() && args[k].0@.len() > 0 implies #[trigger] names[k]
            == rust_id_spec(args[k].0@).0 && !reserved_words().contains(names[k]) by {
            law_rust_id_escapes_reserved(args[k].0@);
            if k < args.len() - 1 {
                assert(args.drop_last()[k] == args[k]);
                assert(names[k] == names0[k]);
            }
        }
    }
}

/// A foreign item whose C name had to be escaped keeps that C name in a `link_name`
/// attribute; one whose name needed no escaping has none.
pub proof fn law_foreign_items_keep_c_names(st: GenState, d: Decls, name: Seq<char>, ty: Type, rty: Type, aty: Seq<(String, Type)>)
    ensures
        ({
            let attr = crate::gen::link_name_text(name);
            let v = cvar_spec(st, d, name, ty).0;
            let f = cfunc_spec(st, d, name, rty, aty).0;
            &&& reserved_words().contains(name) ==> attr.len() <= v.len() && v.subrange(0, attr.len() as int) == attr
            &&& reserved_words().contains(name) ==> attr.len() <= f.len() && f.subrange(0, attr.len() as int) == attr
            &&& !reserved_words().contains(name) && name != "bool"@ ==> v.subrange(0, 11) == "    static "@
            &&& !reserved_words().contains(name) && name != "bool"@ ==> f.subrange(0, 7) == "    fn "@
        }),
{
    reveal_strlit("    static ");
    reveal_strlit("    fn ");
    law_rust_id_escapes_reserved(name);
    let attr = crate::gen::link_name_text(name);
    let v = cvar_spec(st, d, name, ty).0;
    let f = cfunc_spec(st, d, name, rty, aty).0;
    if rust_id_spec(name).1 {
        assert(v.subrange(0, attr.len() as int) =~= attr);
        assert(f.subrange(0, attr.len() as int) =~= attr);
    } else {
        assert(v.subrange(0, 11) =~= "    static "@);
        assert(f.subrange(0, 7) =~= "    fn "@);
    }
}

/// An anonymous struct, union or enum definition that a typedef among `all` defines is
/// dropped; it is generated once, under the typedef's name.
pub proof fn law_remove_redundant_drops_typedef_defined(st: GenState, d: Decls, all: Seq<Global>, part: Seq<Global>, g: Global, k: int)
    requires
        0 <= k < all.len(),
        match (g, all[k]) {
            (Global::GComp(i), Global::GType(t)) => st.comp_names[i as int].len() == 0
                && (d.typedefs@[t as int].ty matches Type::TComp(j) && j == i),
            (Global::GEnum(i), Global::GType(t)) => st.enum_names[i as int].len() == 0
                && (d.typedefs@[t as int].ty matches Type::TEnum(j) && j == i),
            _ => false,
        },
    ensures
        !remove_redundant_spec(st, d, all, part).contains(g),
{
    lemma_remove_redundant_members(st, d, all, part);
    assert(defined_by_typedef(st, d, g, all[k]));
    assert(redundant(st, d, all, g));
}

/// A joined list begins with its first element.
proof fn lemma_join_starts_with_first(parts: Seq<Seq<char>>)
    requires
        parts.len() > 0,
    ensures
        parts[0].len() <= crate::gen::join(parts).len(),
        crate::gen::join(parts).subrange(0, parts[0].len() as int) == parts[0],
    decreases parts.len(),
{
    if parts.len() > 1 {
        lemma_join_starts_with_first(parts.drop_last());
        let j0 = crate::gen::join(parts.drop_last());
        assert(parts.drop_last()[0] == parts[0]);
        assert(crate::gen::join(parts) =~= j0 + ", "@ + parts.last());
        assert(crate::gen::join(parts).subrange(0, parts[0].len() as int) =~= j0.subrange(0, parts[0].len() as int));
    } else {
        assert(crate::gen::join(parts) == parts[0]);
        assert(parts[0].subrange(0, parts[0].len() as int) =~= parts[0]);
    }
}

/// The foreign function of a C++ method takes a reference to the object, `this_ptr: &Class`,
/// as its first parameter, so that the forwarding call `Class_method(self, ...)` matches it;
/// when the method returns `void` the declaration has no result type.
pub proof fn law_method_function_takes_object(st: GenState, d: Decls, cname: Seq<char>, mname: Seq<char>, rty: Type, aty: Seq<(String, Type)>)
    ensures
        ({
            let f = cmethod_spec(st, d, cname, mname, rty, aty).0;
            let h = "(this_ptr: &"@ + cname;
            &&& exists|p: int| occurs_at(f, h, p)
            &&& rty is TVoid ==> f.len() >= 3 && f.subrange(f.len() - 3, f.len() as int) == ");\n"@
        }),
{
    reveal_strlit(");\n");
    reveal_strlit("(");
    reveal_strlit(")");
    reveal_strlit(";\n");
    let f = cmethod_spec(st, d, cname, mname, rty, aty).0;
    let name = cname + "_"@ + mname;
    let (ret, st1) = if rty is TVoid { (Seq::<char>::empty(), st) } else { cty_spec(st, d, rty) };
    let args = cargs_spec(st1, d, aty).0;
    let (rust_name, mangled) = rust_id_spec(name);
    let attr = if mangled { crate::gen::link_name_text(name) } else { Seq::empty() };
    let this = "this_ptr: &"@ + cname;
    let params = seq![this] + args;
    assert(params[0] == this);
    lemma_join_starts_with_first(params);
    let j = crate::gen::join(params);
    let pre = attr + "    fn "@ + rust_name;
    let h = "(this_ptr: &"@ + cname;
    assert(f =~= pre + "("@ + j + ")"@ + crate::gen::ret_part(rty, ret) + ";\n"@);
    reveal_strlit("(this_ptr: &");
    reveal_strlit("this_ptr: &");
    assert(h =~= "("@ + this);
    assert(f.len() >= pre.len() + h.len());
    assert(f.subrange(pre.len() as int, (pre.len() + h.len()) as int) =~= "("@ + j.subrange(0, this.len() as int));
    assert(f.subrange(pre.len() as int, (pre.len() + h.len()) as int) =~= h);
    assert(occurs_at(f, h, pre.len() as int));
    if rty is TVoid {
        assert(f.subrange(f.len() - 3, f.len() as int) =~= ");\n"@);
    }
}

/// A struct or union definition comes with an impl exactly when the class has methods.
pub proof fn law_impl_only_with_methods(st: GenState, d: Decls, i: usize)
    requires
        i < d.comps@.len(),
    ensures
        (type_decl_spec(st, d, Global::GComp(i)).2.len() == 0) <==> (d.comps@[i as int].methods@.len() == 0),
{
    reveal_strlit("impl ");
    let ci = d.comps@[i as int];
    if ci.methods@.len() > 0 {
        let st1 = name_comp_spec(st, i as int);
        let st2 = if ci.cstruct {
            cstruct_spec(st1, d, crate::gen::struct_name_spec(st1.comp_names[i as int]), ci.fields@).1
        } else {
            cunion_spec(st1, d, crate::gen::union_name_spec(st1.comp_names[i as int]), ci.fields@, ci.size).1
        };
        let st3 = comp_methods_spec(st2, d, i as int, ci.methods@).1;
        let imp = methods_to_impl_spec(st3, d, i as int).0;
        assert(imp.len() >= 5);
    }
}

// ---------------------------------------------------------------- numerals and fresh names

proof fn lemma_digit_char_injective(a: nat, b: nat)
    requires
        a < 10,
        b < 10,
        digit_char(a) == digit_char(b),
    ensures
        a == b,
{
}

proof fn lemma_decimal_first_nonzero(n: nat)
    ensures
        decimal(n).len() >= 1,
        n >= 10 ==> decimal(n)[0] != '0',
    decreases n,
{
    if n >= 10 {
        lemma_decimal_first_nonzero(n / 10);
        assert(decimal(n)[0] == decimal(n / 10)[0]);
    }
}

/// Different numbers have different numerals.
pub proof fn law_decimal_injective(a: nat, b: nat)
    requires
        decimal(a) == decimal(b),
    ensures
        a == b,
    decreases a,
{
    lemma_decimal_first_nonzero(a);
    lemma_decimal_first_nonzero(b);
    if a < 10 && b < 10 {
        assert(decimal(a)[0] == digit_char(a));
        assert(decimal(b)[0] == digit_char(b));
        lemma_digit_char_injective(a, b);
    } else if a >= 10 && b >= 10 {
        let da = decimal(a);
        assert(da.drop_last() =~= decimal(a / 10));
        assert(decimal(b).drop_last() =~= decimal(b / 10));
        law_decimal_injective(a / 10, b / 10);
        assert(da[da.len() - 1] == digit_char(a % 10));
        assert(decimal(b)[decimal(b).len() - 1] == digit_char(b % 10));
        lemma_digit_char_injective(a % 10, b % 10);
    } else if a < 10 {
        assert(decimal(a).len() == 1);
        lemma_decimal_first_nonzero(b / 10);
        assert(decimal(b).len() == decimal(b / 10).len() + 1);
    } else {
        assert(decimal(b).len() == 1);
        lemma_decimal_first_nonzero(a / 10);
        assert(decimal(a).len() == decimal(a / 10).len() + 1);
    }
}

/// Two anonymous declarations named one after the other receive different names.
pub proof fn law_fresh_names_distinct(st: GenState, i: int, j: int)
    requires
        0 <= i < st.comp_names.len(),
        0 <= j < st.comp_names.len(),
        i != j,
        st.comp_names[i].len() == 0,
        st.comp_names[j].len() == 0,
    ensures
        ({
            let st2 = name_comp_spec(name_comp_spec(st, i), j);
            &&& st2.comp_names[i].len() > 0
            &&& st2.comp_names[j].len() > 0
            &&& st2.comp_names[i] != st2.comp_names[j]
        }),
{
    reveal_strlit("Unnamed");
    let st1 = name_comp_spec(st, i);
    let st2 = name_comp_spec(st1, j);
    let c1 = crate::gen::next_counter(st.counter);
    let c2 = crate::gen::next_counter(c1);
    assert(st2.comp_names[i] == unnamed_text(c1 as nat));
    assert(st2.comp_names[j] == unnamed_text(c2 as nat));
    if unnamed_text(c1 as nat) == unnamed_text(c2 as nat) {
        assert(decimal(c1 as nat) =~= unnamed_text(c1 as nat).subrange(7, unnamed_text(c1 as nat).len() as int));
        assert(decimal(c2 as nat) =~= unnamed_text(c2 as nat).subrange(7, unnamed_text(c2 as nat).len() as int));
        law_decimal_injective(c1 as nat, c2 as nat);
    }
}

// ---------------------------------------------------------------- C integer types

/// The unsigned C integer kinds.
pub open spec fn is_unsigned(k: IKind) -> bool {
    k is IUChar || k is IUInt || k is IUShort || k is IULong || k is IULongLong
}

/// Every C integer kind becomes a `c_` type, unsigned exactly when the kind is, and
/// different kinds become different types except `bool`, which is an `int`.
pub proof fn law_int_types(k1: IKind, k2: IKind)
    ensures
        crate::gen::int_ty_name(k1).subrange(0, 2) == "c_"@,
        is_unsigned(k1) <==> crate::gen::int_ty_name(k1)[2] == 'u',
        crate::gen::int_ty_name(k1) == crate::gen::int_ty_name(k2) ==> k1 == k2
            || ((k1 is IBool || k1 is IInt) && (k2 is IBool || k2 is IInt)),
{
    reveal_strlit("c_");
    reveal_strlit("c_int");
    reveal_strlit("c_schar");
    reveal_strlit("c_uchar");
    reveal_strlit("c_uint");
    reveal_strlit("c_short");
    reveal_strlit("c_ushort");
    reveal_strlit("c_long");
    reveal_strlit("c_ulong");
    reveal_strlit("c_longlong");
    reveal_strlit("c_ulonglong");
    let a = crate::gen::int_ty_name(k1);
    let b = crate::gen::int_ty_name(k2);
    assert(a.subrange(0, 2) =~= "c_"@);
    if a == b {
        assert(a.len() == b.len());
        assert(a[2] == b[2]);
        assert(a[3] == b[3]);
    }
}

} // verus!
