//! A plain model of the parts of Rust syntax that probe generation reads, and the test of
//! whether a type can be produced by `kani::any()`.

use vstd::prelude::*;

use crate::text::str_eq;

verus! {

/// A type as written in a signature, with its rendering as tokens.
#[derive(Debug)]
pub struct TypeNode {
    pub shape: TypeShape,
    /// The type's tokens, rendered as text.
    pub text: String,
}

/// The forms of type that the probeability test tells apart.
#[derive(Debug)]
pub enum TypeShape {
    /// A path type: the identifier of its last segment (`None` for an empty path) and the
    /// type arguments written in angle brackets on that segment.
    Path { name: Option<String>, args: Vec<TypeNode> },
    /// A raw pointer `*const T` or `*mut T`.
    Ptr,
    /// A reference `&T` or `&mut T`.
    Reference,
    /// A tuple type, with its element types.
    Tuple(Vec<TypeNode>),
    /// Any other form of type.
    Other,
}

/// One parameter of a function signature.
#[derive(Debug)]
pub enum ArgNode {
    /// A `self` receiver in any of its forms.
    Receiver,
    /// A typed parameter: its name when the pattern is a plain identifier, and its type.
    Typed { name: Option<String>, ty: TypeNode },
}

/// An attribute: the identifier of the last segment of its path, the tokens of its argument
/// list when it has the form `#[path(...)]`, and, when that list is a comma-separated list of
/// attribute contents (as in `#[cfg_attr(pred, a(...), b)]`), the same of each of them, one
/// level deep.
#[derive(Debug)]
pub struct AttrNode {
    pub name: Option<String>,
    pub list: Option<String>,
    pub inner: Vec<AttrNode>,
}

/// A function signature.
#[derive(Debug)]
pub struct SigNode {
    pub name: String,
    /// The line on which the function's name stands.
    pub line: usize,
    /// Whether the function has a type parameter (lifetimes and const parameters do not count).
    pub has_type_param: bool,
    pub inputs: Vec<ArgNode>,
    /// The return type; `None` for a function that returns unit by omission.
    pub output: Option<TypeNode>,
}

/// A function with its attributes.
#[derive(Debug)]
pub struct FnNode {
    pub attrs: Vec<AttrNode>,
    pub sig: SigNode,
}

/// A top-level or module-level item.
#[derive(Debug)]
pub enum ItemNode {
    /// A free function.
    Fn(FnNode),
    /// A module, with its items when they are written inline.
    Mod(Option<Vec<ItemNode>>),
    /// An `impl` block: the identifier of the last segment of the implemented trait, if any,
    /// the implementing type, and the functions of the block.
    Impl { trait_name: Option<String>, self_ty: TypeNode, fns: Vec<FnNode> },
    /// A trait, with its functions.
    Trait(Vec<FnNode>),
    /// Any other item.
    Other,
}

/// The identifier of a path type's last segment: `NonZero` for `NonZero<u32>`.
pub open spec fn head_of(t: TypeNode) -> Option<Seq<char>> {
    match t.shape {
        TypeShape::Path { name: Some(n), .. } => Some(n@),
        _ => None,
    }
}

/// The types that `kani::any()` can always produce, by the identifier of their last segment.
pub open spec fn is_primitive(n: Seq<char>) -> bool {
    ||| n == "u8"@ || n == "u16"@ || n == "u32"@ || n == "u64"@ || n == "u128"@ || n == "usize"@
    ||| n == "i8"@ || n == "i16"@ || n == "i32"@ || n == "i64"@ || n == "i128"@ || n == "isize"@
    ||| n == "bool"@ || n == "char"@ || n == "NonZero"@ || n == "Option"@ || n == "Alignment"@
    ||| n == "NonZeroU8"@ || n == "NonZeroU16"@ || n == "NonZeroU32"@ || n == "NonZeroU64"@
    ||| n == "NonZeroU128"@ || n == "NonZeroUsize"@
    ||| n == "NonZeroI8"@ || n == "NonZeroI16"@ || n == "NonZeroI32"@ || n == "NonZeroI64"@
    ||| n == "NonZeroI128"@ || n == "NonZeroIsize"@
}

/// The set of names held in `v`.
pub open spec fn name_set(v: Seq<String>) -> Set<Seq<char>> {
    Set::new(|n: Seq<char>| exists|i: int| 0 <= i < v.len() && #[trigger] v[i]@ == n)
}

/// Whether `kani::any()` can produce the type `t`, given the names of the types with a
/// hand-written `kani::Arbitrary`: `Ok` when it can, else the reason why not. Every nested
/// type argument and tuple element must qualify too, and the first one that does not gives
/// the reason.
pub open spec fn probe_check(t: TypeNode, known: Set<Seq<char>>) -> Result<(), Seq<char>>
    decreases t,
{
    match t.shape {
        TypeShape::Path { name, args } => match name {
            None => Err("empty type path"@),
            Some(n) => if !is_primitive(n@) && !known.contains(n@) {
                Err("`"@ + n@ + "` has no kani::Arbitrary this tool can see"@)
            } else {
                probe_all(args@, known)
            },
        },
        TypeShape::Ptr => Err("raw pointer, kani::any() cannot produce a valid one"@),
        TypeShape::Reference => Err("reference, needs a referent to point at"@),
        TypeShape::Tuple(elems) => probe_all(elems@, known),
        TypeShape::Other => Err("unsupported type form `"@ + t.text@ + "`"@),
    }
}

/// [`probe_check`] of each of `ts` in order, stopping at the first reason.
pub open spec fn probe_all(ts: Seq<TypeNode>, known: Set<Seq<char>>) -> Result<(), Seq<char>>
    decreases ts,
{
    if ts.len() == 0 {
        Ok(())
    } else {
        match probe_check(ts[0], known) {
            Err(e) => Err(e),
            Ok(_) => probe_all(ts.drop_first(), known),
        }
    }
}

/// The view of a check's outcome.
pub open spec fn outcome(r: Result<(), String>) -> Result<(), Seq<char>> {
    match r {
        Ok(_) => Ok(()),
        Err(e) => Err(e@),
    }
}

/// Whether `name` is one of the primitive type names (see [`is_primitive`]).
pub fn primitive(name: &str) -> (r: bool)
    ensures
        r == is_primitive(name@),
{
    str_eq(name, "u8") || str_eq(name, "u16") || str_eq(name, "u32") || str_eq(name, "u64")
        || str_eq(name, "u128") || str_eq(name, "usize") || str_eq(name, "i8") || str_eq(
        name,
        "i16",
    ) || str_eq(name, "i32") || str_eq(name, "i64") || str_eq(name, "i128") || str_eq(
        name,
        "isize",
    ) || str_eq(name, "bool") || str_eq(name, "char") || str_eq(name, "NonZero") || str_eq(
        name,
        "Option",
    ) || str_eq(name, "Alignment") || str_eq(name, "NonZeroU8") || str_eq(name, "NonZeroU16")
        || str_eq(name, "NonZeroU32") || str_eq(name, "NonZeroU64") || str_eq(
        name,
        "NonZeroU128",
    ) || str_eq(name, "NonZeroUsize") || str_eq(name, "NonZeroI8") || str_eq(
        name,
        "NonZeroI16",
    ) || str_eq(name, "NonZeroI32") || str_eq(name, "NonZeroI64") || str_eq(
        name,
        "NonZeroI128",
    ) || str_eq(name, "NonZeroIsize")
}

/// Whether `v` holds the name `n`.
pub fn holds_name(v: &Vec<String>, n: &String) -> (r: bool)
    ensures
        r == name_set(v@).contains(n@),
{
    for i in 0..v.len()
        invariant
            forall|j: int| 0 <= j < i ==> v@[j]@ != n@,
    {
        if v[i] == *n {
            assert(name_set(v@).contains(n@) == (exists|j: int| 0 <= j < v@.len() && #[trigger] v@[j]@ == n@));
            return true;
        }
    }
    assert(!name_set(v@).contains(n@));
    false
}

/// Can `kani::any::<ty>()` produce this type? `known` holds the names of the types with a
/// hand-written `kani::Arbitrary`. On `Err`, the reason.
pub fn probeable(ty: &TypeNode, known: &Vec<String>) -> (r: Result<(), String>)
    ensures
        outcome(r) == probe_check(*ty, name_set(known@)),
    decreases ty,
{
    match &ty.shape {
        TypeShape::Path { name, args } => match name {
            None => Err(String::from_str("empty type path")),
            Some(n) => {
                if !primitive(n.as_str()) && !holds_name(known, n) {
                    let mut e = String::from_str("`");
                    e.append(n.as_str());
                    e.append("` has no kani::Arbitrary this tool can see");
                    Err(e)
                } else {
                    probeable_all(args, known)
                }
            },
        },
        TypeShape::Ptr => Err(String::from_str("raw pointer, kani::any() cannot produce a valid one")),
        TypeShape::Reference => Err(String::from_str("reference, needs a referent to point at")),
        TypeShape::Tuple(elems) => probeable_all(elems, known),
        TypeShape::Other => {
            let mut e = String::from_str("unsupported type form `");
            e.append(ty.text.as_str());
            e.append("`");
            Err(e)
        },
    }
}

/// [`probeable`] of each of `ts` in order, stopping at the first reason.
fn probeable_all(ts: &Vec<TypeNode>, known: &Vec<String>) -> (r: Result<(), String>)
    ensures
        outcome(r) == probe_all(ts@, name_set(known@)),
    decreases ts,
{
    let mut i: usize = 0;
    assert(ts@.skip(0) == ts@);
    while i < ts.len()
        invariant
            i <= ts@.len(),
            probe_all(ts@, name_set(known@)) == probe_all(ts@.skip(i as int), name_set(known@)),
        decreases ts@.len() - i,
    {
        assert(ts@.skip(i as int).drop_first() == ts@.skip(i + 1));
        match probeable(&ts[i], known) {
            Err(e) => return Err(e),
            Ok(_) => {},
        }
        i += 1;
    }
    Ok(())
}

} // verus!
