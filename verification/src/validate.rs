//! Checks of the conditions that the generator needs of its input, for callers that
//! cannot prove them.

use vstd::prelude::*;
use crate::gen::{
    decl_ty_wf, decls_wf, fields_wf, funcs_of, funcs_typed, gen_names, gen_rs, gen_spec, global_wf,
    globals_wf, initial_state, kept_funcs, lemma_funcs_of, lemma_tag_dup_wf, methods_wf, opt_view,
    renamed, tag_dup_decl, tag_dup_spec, GenCtx,
};
use crate::types::{args_wf, ty_wf, Decls, Global, Type};

verus! {

/// Whether every compound and enum reference inside `ty` is below `nc` and `ne`.
pub fn ty_is_wf(ty: &Type, nc: usize, ne: usize) -> (res: bool)
    ensures
        res == ty_wf(*ty, nc as nat, ne as nat),
    decreases ty,
{
    match ty {
        Type::TPtr(t, _) => ty_is_wf(t, nc, ne),
        Type::TArray(t, _) => ty_is_wf(t, nc, ne),
        Type::TFunc(r, args, _) => ty_is_wf(r, nc, ne) && args_are_wf(args, nc, ne),
        Type::TNamed(ti) => ty_is_wf(&ti.ty, nc, ne),
        Type::TComp(i) => *i < nc,
        Type::TEnum(i) => *i < ne,
        Type::TMemberFunc(r, args, _, _) => ty_is_wf(r, nc, ne) && args_are_wf(args, nc, ne),
        _ => true,
    }
}

/// Whether every parameter type of `args` is well formed.
pub fn args_are_wf(args: &Vec<(String, Type)>, nc: usize, ne: usize) -> (res: bool)
    ensures
        res == args_wf(args@, nc as nat, ne as nat),
    decreases args,
{
    let mut ok = true;
    let mut k: usize = 0;
    while k < args.len()
        invariant
            k <= args.len(),
            ok == args_wf(args@.take(k as int), nc as nat, ne as nat),
        decreases args.len() - k,
    {
        assert(args@.take(k + 1).drop_last() =~= args@.take(k as int));
        assert(args@.take(k + 1).last() == args@[k as int]);
        let t = ty_is_wf(&args[k].1, nc, ne);
        ok = t && ok;
        k = k + 1;
    }
    assert(args@.take(k as int) =~= args@);
    ok
}

/// Whether every type in the tables of `decls` refers only to declarations of `decls`.
pub fn decls_are_wf(decls: &Decls) -> (res: bool)
    ensures
        res == decls_wf(*decls),
{
    let nc: usize = decls.comps.len();
    let ne: usize = decls.enums.len();
    let mut i: usize = 0;
    while i < decls.comps.len()
        invariant
            i <= decls.comps@.len(),
            nc == decls.comps@.len(),
            ne == decls.enums@.len(),
            forall|j: int|
                #![trigger decls.comps@[j]]
                0 <= j < i ==> fields_wf(*decls, decls.comps@[j].fields@) && methods_wf(*decls, decls.comps@[j].methods@),
        decreases decls.comps.len() - i,
    {
        let ci = &decls.comps[i];
        let mut k: usize = 0;
        while k < ci.fields.len()
            invariant
                k <= ci.fields@.len(),
                i < decls.comps@.len(),
                *ci == decls.comps@[i as int],
                nc == decls.comps@.len(),
                ne == decls.enums@.len(),
                forall|m: int| 0 <= m < k ==> ty_wf(#[trigger] ci.fields@[m].ty, nc as nat, ne as nat),
            decreases ci.fields.len() - k,
        {
            if !ty_is_wf(&ci.fields[k].ty, nc, ne) {
                assert(!decl_ty_wf(*decls, ci.fields@[k as int].ty));
                assert(!fields_wf(*decls, decls.comps@[i as int].fields@));
                return false;
            }
            k = k + 1;
        }
        let mut k: usize = 0;
        while k < ci.methods.len()
            invariant
                k <= ci.methods@.len(),
                i < decls.comps@.len(),
                *ci == decls.comps@[i as int],
                nc == decls.comps@.len(),
                ne == decls.enums@.len(),
                forall|m: int|
                    0 <= m < k ==> ty_wf(#[trigger] ci.methods@[m].return_type, nc as nat, ne as nat)
                        && args_wf(ci.methods@[m].args@, nc as nat, ne as nat),
            decreases ci.methods.len() - k,
        {
            if !ty_is_wf(&ci.methods[k].return_type, nc, ne) || !args_are_wf(&ci.methods[k].args, nc, ne) {
                assert(!methods_wf(*decls, decls.comps@[i as int].methods@)) by {
                    assert(!(decl_ty_wf(*decls, ci.methods@[k as int].return_type)
                        && args_wf(ci.methods@[k as int].args@, nc as nat, ne as nat)));
                }
                return false;
            }
            k = k + 1;
        }
        i = i + 1;
    }
    let mut i: usize = 0;
    while i < decls.typedefs.len()
        invariant
            i <= decls.typedefs@.len(),
            nc == decls.comps@.len(),
            ne == decls.enums@.len(),
            forall|j: int| 0 <= j < i ==> ty_wf(#[trigger] decls.typedefs@[j].ty, nc as nat, ne as nat),
        decreases decls.typedefs.len() - i,
    {
        if !ty_is_wf(&decls.typedefs[i].ty, nc, ne) {
            return false;
        }
        i = i + 1;
    }
    let mut i: usize = 0;
    while i < decls.vars.len()
        invariant
            i <= decls.vars@.len(),
            nc == decls.comps@.len(),
            ne == decls.enums@.len(),
            forall|j: int| 0 <= j < i ==> ty_wf(#[trigger] decls.vars@[j].ty, nc as nat, ne as nat),
        decreases decls.vars.len() - i,
    {
        if !ty_is_wf(&decls.vars[i].ty, nc, ne) {
            return false;
        }
        i = i + 1;
    }
    true
}

/// Whether `g` refers to an entry of the table of its kind.
pub fn global_is_wf(decls: &Decls, g: Global) -> (res: bool)
    ensures
        res == global_wf(*decls, g),
{
    match g {
        Global::GType(i) => i < decls.typedefs.len(),
        Global::GComp(i) => i < decls.comps.len(),
        Global::GCompDecl(i) => i < decls.comps.len(),
        Global::GEnum(i) => i < decls.enums.len(),
        Global::GEnumDecl(i) => i < decls.enums.len(),
        Global::GVar(i) => i < decls.vars.len(),
        Global::GFunc(i) => i < decls.vars.len(),
        Global::GOther => true,
    }
}

/// Whether every declaration of `gs` refers to entries of the tables of `decls`.
pub fn globals_are_wf(decls: &Decls, gs: &Vec<Global>) -> (res: bool)
    ensures
        res == globals_wf(*decls, gs@),
{
    let mut k: usize = 0;
    while k < gs.len()
        invariant
            k <= gs@.len(),
            forall|j: int| 0 <= j < k ==> global_wf(*decls, #[trigger] gs@[j]),
        decreases gs.len() - k,
    {
        if !global_is_wf(decls, gs[k]) {
            return false;
        }
        k = k + 1;
    }
    true
}

/// Whether every function declaration that survives the removal of repeated declarations
/// has a function type.
pub fn funcs_are_typed(decls: &Decls, gs: &Vec<Global>) -> (res: bool)
    requires
        globals_wf(*decls, gs@),
    ensures
        res == funcs_typed(*decls, gs@),
{
    let ctx = GenCtx::new(decls);
    let uniq = tag_dup_decl(&ctx, decls, gs);
    let ghost kept = kept_funcs(*decls, gs@);
    let mut fs: Vec<Global> = Vec::new();
    let mut k: usize = 0;
    while k < uniq.len()
        invariant
            k <= uniq@.len(),
            fs@ == funcs_of(uniq@.take(k as int)),
        decreases uniq.len() - k,
    {
        assert(uniq@.take(k + 1).drop_last() =~= uniq@.take(k as int));
        let g = uniq[k];
        match g {
            Global::GFunc(_) => fs.push(g),
            _ => {},
        }
        k = k + 1;
    }
    assert(uniq@.take(k as int) =~= uniq@);
    assert(fs@ == kept);
    proof {
        lemma_tag_dup_wf(initial_state(*decls), *decls, gs@);
        lemma_funcs_of(tag_dup_spec(initial_state(*decls), *decls, gs@));
    }
    let mut k: usize = 0;
    while k < fs.len()
        invariant
            k <= fs@.len(),
            fs@ == kept,
            kept == kept_funcs(*decls, gs@),
            globals_wf(*decls, gs@),
            forall|j: int| 0 <= j < kept.len() ==> #[trigger] kept[j] is GFunc && global_wf(*decls, kept[j]),
            forall|j: int|
                0 <= j < k ==> (#[trigger] kept[j] matches Global::GFunc(i) && i < decls.vars@.len()
                    && decls.vars@[i as int].ty is TFunc),
        decreases fs.len() - k,
    {
        match fs[k] {
            Global::GFunc(i) => {
                if i >= decls.vars.len() {
                    return false;
                }
                match &decls.vars[i].ty {
                    Type::TFunc(_, _, _) => {},
                    _ => {
                        assert(kept_funcs(*decls, gs@)[k as int] == Global::GFunc(i));
                        assert(!(kept_funcs(*decls, gs@)[k as int] matches Global::GFunc(j) && decls.vars@[j as int].ty is TFunc));
                        return false;
                    },
                }
            },
            _ => {
                return false;
            },
        }
        k = k + 1;
    }
    true
}

/// The generated bindings, or `None` when the input is not one the generator accepts: a
/// table index out of range, or a kept function declaration without a function type.
/// When it generates, the anonymous declarations of `decls` keep the names they were given;
/// otherwise `decls` is left as it was.
pub fn gen_rs_checked(link: &Option<String>, decls: &mut Decls, globs: &Vec<Global>) -> (res: Option<String>)
    ensures
        match res {
            Some(text) => decls_wf(*old(decls)) && globals_wf(*old(decls), globs@) && funcs_typed(*old(decls), globs@)
                && text@ == gen_spec(*old(decls), opt_view(*link), globs@)
                && renamed(*old(decls), *final(decls), gen_names(*old(decls), opt_view(*link), globs@)),
            None => !(decls_wf(*old(decls)) && globals_wf(*old(decls), globs@) && funcs_typed(*old(decls), globs@))
                && *final(decls) == *old(decls),
        },
{
    if !decls_are_wf(decls) || !globals_are_wf(decls, globs) {
        return None;
    }
    if !funcs_are_typed(decls, globs) {
        return None;
    }
    Some(gen_rs(link, decls, globs))
}

} // verus!
