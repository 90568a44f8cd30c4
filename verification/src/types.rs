//! The model of parsed C declarations that the generator reads.
//!
//! Compound and enum declarations live in tables of [`Decls`] and are referred to by
//! their index, so that two references to the same declaration are recognised as such.

use vstd::prelude::*;

verus! {

/// The C integer kinds.
#[derive(Clone, Copy, PartialEq, Eq, Debug, Structural)]
pub enum IKind {
    IBool,
    ISChar,
    IUChar,
    IInt,
    IUInt,
    IShort,
    IUShort,
    ILong,
    IULong,
    ILongLong,
    IULongLong,
}

/// The C floating-point kinds.
#[derive(Clone, Copy, PartialEq, Eq, Debug, Structural)]
pub enum FKind {
    FFloat,
    FDouble,
}

/// A C type.
pub enum Type {
    TVoid,
    TInt(IKind),
    TFloat(FKind),
    /// A pointer; the flag is set when the pointee is `const`.
    TPtr(Box<Type>, bool),
    /// An array of the given number of elements.
    TArray(Box<Type>, usize),
    /// A function: return type, named parameters, variadic flag.
    TFunc(Box<Type>, Vec<(String, Type)>, bool),
    /// A reference to a typedef.
    TNamed(Box<TypeInfo>),
    /// A struct or union, by its index in [`Decls::comps`].
    TComp(usize),
    /// An enum, by its index in [`Decls::enums`].
    TEnum(usize),
    /// A C++ member function: return type, named parameters, variadic flag, `const` flag.
    TMemberFunc(Box<Type>, Vec<(String, Type)>, bool, bool),
}

/// A typedef: a name for a type.
pub struct TypeInfo {
    pub name: String,
    pub ty: Type,
}

/// A field of a struct or union.
pub struct FieldInfo {
    pub name: String,
    pub ty: Type,
}

/// A C++ method of a compound type.
pub struct MethodInfo {
    pub name: String,
    pub return_type: Type,
    pub args: Vec<(String, Type)>,
}

/// A struct (`cstruct` set) or a union.
pub struct CompInfo {
    pub cstruct: bool,
    pub name: String,
    pub fields: Vec<FieldInfo>,
    pub methods: Vec<MethodInfo>,
    /// The size in bytes of the type's layout.
    pub size: usize,
}

/// One constant of an enum.
pub struct EnumItem {
    pub name: String,
    pub val: i64,
}

/// An enum, with the integer kind that represents it.
pub struct EnumInfo {
    pub name: String,
    pub items: Vec<EnumItem>,
    pub kind: IKind,
}

/// A global variable or function.
pub struct VarInfo {
    pub name: String,
    pub ty: Type,
}

/// The tables that the declarations of a translation unit refer to.
pub struct Decls {
    pub comps: Vec<CompInfo>,
    pub enums: Vec<EnumInfo>,
    pub typedefs: Vec<TypeInfo>,
    pub vars: Vec<VarInfo>,
}

/// A top-level declaration, by its index in the table of its kind.
#[derive(Clone, Copy, PartialEq, Eq, Debug, Structural)]
pub enum Global {
    /// A typedef, in [`Decls::typedefs`].
    GType(usize),
    /// A struct or union definition, in [`Decls::comps`].
    GComp(usize),
    /// A struct or union forward declaration, in [`Decls::comps`].
    GCompDecl(usize),
    /// An enum definition, in [`Decls::enums`].
    GEnum(usize),
    /// An enum forward declaration, in [`Decls::enums`].
    GEnumDecl(usize),
    /// A global variable, in [`Decls::vars`].
    GVar(usize),
    /// A function, in [`Decls::vars`].
    GFunc(usize),
    /// Anything else; nothing is generated for it.
    GOther,
}

/// Every compound and enum reference inside `ty` is an index into tables of `nc` and `ne` entries.
pub open spec fn ty_wf(ty: Type, nc: nat, ne: nat) -> bool
    decreases ty,
{
    match ty {
        Type::TPtr(t, _) => ty_wf(*t, nc, ne),
        Type::TArray(t, _) => ty_wf(*t, nc, ne),
        Type::TFunc(r, args, _) => ty_wf(*r, nc, ne) && args_wf(args@, nc, ne),
        Type::TNamed(ti) => ty_wf(ti.ty, nc, ne),
        Type::TComp(i) => i < nc,
        Type::TEnum(i) => i < ne,
        Type::TMemberFunc(r, args, _, _) => ty_wf(*r, nc, ne) && args_wf(args@, nc, ne),
        _ => true,
    }
}

/// Every parameter type of `args` is well formed.
pub open spec fn args_wf(args: Seq<(String, Type)>, nc: nat, ne: nat) -> bool
    decreases args,
{
    if args.len() == 0 {
        true
    } else {
        ty_wf(args.last().1, nc, ne) && args_wf(args.drop_last(), nc, ne)
    }
}

/// Each parameter of well-formed `args` has a well-formed type.
pub proof fn lemma_args_wf_index(args: Seq<(String, Type)>, nc: nat, ne: nat, k: int)
    requires
        args_wf(args, nc, ne),
        0 <= k < args.len(),
    ensures
        ty_wf(args[k].1, nc, ne),
    decreases args.len(),
{
    if k < args.len() - 1 {
        lemma_args_wf_index(args.drop_last(), nc, ne, k);
    }
}

} // verus!
