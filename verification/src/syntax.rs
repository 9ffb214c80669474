//! Reading Rust source with `syn`, and the other questions about Rust syntax that probe
//! generation asks of it. Each `syn` value is taken apart one level at a time into the plain
//! model of [`crate::model`]; each step is named, so the model of a file is a function of its
//! text (see [`models_items`]).

use vstd::prelude::*;

use syn::__private::ToTokens;

use crate::model::{ArgNode, AttrNode, FnNode, ItemNode, SigNode, TypeNode, TypeShape};

verus! {

// The `syn` values below are opaque to Verus. Equality of two of them, as the names below use
// it, stands for equality of the syntax they hold, spans aside: a span records where the
// tokens stood among all the text the thread has parsed, and no name below reads one (the line
// of a function's name, which does, is left unnamed: see `sig_line`).

/// `syn::Item`: an item of a parsed file, carried through opaquely.
#[verifier::external_type_specification]
#[verifier::external_body]
pub struct ExSynItem(syn::Item);

/// `syn::ImplItem`: an item of an `impl` block, carried through opaquely.
#[verifier::external_type_specification]
#[verifier::external_body]
pub struct ExSynImplItem(syn::ImplItem);

/// `syn::TraitItem`: an item of a trait, carried through opaquely.
#[verifier::external_type_specification]
#[verifier::external_body]
pub struct ExSynTraitItem(syn::TraitItem);

/// `syn::Attribute`: an attribute, carried through opaquely.
#[verifier::external_type_specification]
#[verifier::external_body]
pub struct ExSynAttribute(syn::Attribute);

/// `syn::Signature`: a function signature, carried through opaquely.
#[verifier::external_type_specification]
#[verifier::external_body]
pub struct ExSynSignature(syn::Signature);

/// `syn::FnArg`: a function parameter, carried through opaquely.
#[verifier::external_type_specification]
#[verifier::external_body]
pub struct ExSynFnArg(syn::FnArg);

/// `syn::Type`: a type, carried through opaquely.
#[verifier::external_type_specification]
#[verifier::external_body]
pub struct ExSynType(syn::Type);

/// `syn::GenericArgument`: a generic argument, carried through opaquely.
#[verifier::external_type_specification]
#[verifier::external_body]
pub struct ExSynGenericArgument(syn::GenericArgument);

/// `syn::Meta`: the contents of an attribute, carried through opaquely.
#[verifier::external_type_specification]
#[verifier::external_body]
pub struct ExSynMeta(syn::Meta);

/// An item taken apart one level.
pub enum ItemParts {
    Fn(Vec<syn::Attribute>, syn::Signature),
    Mod(Option<Vec<syn::Item>>),
    Impl(Option<String>, syn::Type, Vec<syn::ImplItem>),
    Trait(Vec<syn::TraitItem>),
    Other,
}

/// A signature taken apart one level (its line aside, see [`sig_line`]).
pub struct SigParts {
    pub name: String,
    pub type_params: Vec<bool>,
    pub inputs: Vec<syn::FnArg>,
    pub output: Option<syn::Type>,
}

/// A parameter taken apart one level.
pub enum ArgParts {
    Receiver,
    Typed(Option<String>, syn::Type),
}

/// A type taken apart one level.
pub enum TypeParts {
    Path(Option<String>, Vec<syn::GenericArgument>),
    Ptr,
    Reference,
    Tuple(Vec<syn::Type>),
    Other,
}

/// A closure's first binding and body, as [`closure_parts`] describes them.
pub struct ClosureParts {
    pub binding: Option<String>,
    pub body: String,
}

/// What `syn::parse_file` gives for a text: `None` when it is not a Rust file, else its items.
pub uninterp spec fn parsed_file(text: Seq<char>) -> Option<Seq<syn::Item>>;

/// What [`item_parts`] takes out of an item.
pub uninterp spec fn item_parts_of(item: syn::Item) -> ItemParts;

/// What [`impl_item_fn`] takes out of an `impl` item.
pub uninterp spec fn impl_item_fn_of(item: syn::ImplItem) -> Option<(Vec<syn::Attribute>, syn::Signature)>;

/// What [`trait_item_fn`] takes out of a trait item.
pub uninterp spec fn trait_item_fn_of(item: syn::TraitItem) -> Option<(Vec<syn::Attribute>, syn::Signature)>;

/// The contents (`meta` field) of an attribute.
pub uninterp spec fn attr_meta_of(attr: syn::Attribute) -> syn::Meta;

/// What [`meta_parts`] takes out of an attribute's contents.
pub uninterp spec fn meta_parts_of(meta: syn::Meta) -> (Option<String>, Option<String>);

/// What [`meta_args`] reads inside an attribute's list.
pub uninterp spec fn meta_args_of(meta: syn::Meta) -> Seq<syn::Meta>;

/// What [`sig_parts`] takes out of a signature.
pub uninterp spec fn sig_parts_of(sig: syn::Signature) -> SigParts;

/// What [`arg_parts`] takes out of a parameter.
pub uninterp spec fn arg_parts_of(arg: syn::FnArg) -> ArgParts;

/// What [`type_parts`] takes out of a type.
pub uninterp spec fn type_parts_of(ty: syn::Type) -> (TypeParts, String);

/// What [`generic_arg_type`] takes out of a generic argument.
pub uninterp spec fn generic_arg_type_of(arg: syn::GenericArgument) -> Option<syn::Type>;

/// What `syn::parse_str::<syn::ExprClosure>` finds in a text: `None` when the text is not a
/// closure; else the identifier that the closure's first parameter binds (through a type
/// ascription, if any), `None` when it has no such parameter, and the tokens of the
/// closure's body rendered as text.
pub uninterp spec fn closure_parts(text: Seq<char>) -> Option<(Option<Seq<char>>, Seq<char>)>;

/// Whether `syn::parse_str::<syn::Expr>` accepts a text as a Rust expression.
pub uninterp spec fn is_expression(text: Seq<char>) -> bool;


/// Parses a clause with `syn::parse_str::<syn::ExprClosure>` and returns the identifier of
/// its first parameter (looking through a type ascription) and its body's tokens as text.
/// The contract claims only that the outcome is a function of the text.
#[verifier::external_body]
pub(crate) fn parse_closure(text: &str) -> (r: Option<ClosureParts>)
    ensures
        match r {
            Some(c) => closure_parts(text@) == Some((
                match c.binding { Some(b) => Some(b@), None => None::<Seq<char>> },
                c.body@,
            )),
            None => closure_parts(text@) is None,
        },
{
    let c = syn::parse_str::<syn::ExprClosure>(text).ok()?;
    let binding = match c.inputs.first() {
        Some(syn::Pat::Ident(p)) => Some(p.ident.to_string()),
        Some(syn::Pat::Type(t)) => match &*t.pat {
            syn::Pat::Ident(p) => Some(p.ident.to_string()),
            _ => None,
        },
        _ => None,
    };
    Some(ClosureParts { binding, body: c.body.to_token_stream().to_string() })
}

/// Whether `syn::parse_str::<syn::Expr>` accepts the text. The contract claims only that the
/// answer is a function of the text.
#[verifier::external_body]
pub(crate) fn parses_as_expr(text: &str) -> (r: bool)
    ensures
        r == is_expression(text@),
{
    syn::parse_str::<syn::Expr>(text).is_ok()
}

/// `syn::parse_file`: the items of a source text parsed as a Rust file; `None` when it does
/// not parse. The contract claims that the outcome is a function of the text.
#[verifier::external_body]
fn parse_file(text: &str) -> (r: Option<Vec<syn::Item>>)
    ensures
        match r {
            Some(items) => parsed_file(text@) == Some(items@),
            None => parsed_file(text@) is None,
        },
{
    match syn::parse_file(text) {
        Ok(f) => Some(f.items),
        Err(_) => None,
    }
}

/// Tells `syn::Item` variants apart, keeping what the model needs of each (the functions,
/// the inline contents of a module, the trait path's last segment, implementing type and
/// items of an `impl` block, the items of a trait). The contract claims that the outcome is a
/// function of the item.
#[verifier::external_body]
fn item_parts(item: &syn::Item) -> (r: ItemParts)
    ensures
        r == item_parts_of(*item),
{
    match item {
        syn::Item::Fn(f) => ItemParts::Fn(f.attrs.clone(), f.sig.clone()),
        syn::Item::Mod(m) => ItemParts::Mod(m.content.as_ref().map(|c| c.1.clone())),
        syn::Item::Impl(i) => ItemParts::Impl(
            i.trait_.as_ref().and_then(|t| t.1.segments.last()).map(|s| s.ident.to_string()),
            (*i.self_ty).clone(),
            i.items.clone(),
        ),
        syn::Item::Trait(t) => ItemParts::Trait(t.items.clone()),
        _ => ItemParts::Other,
    }
}

/// The attributes and signature of a `syn::ImplItem::Fn`; `None` for other impl items. The
/// contract claims that the outcome is a function of the item.
#[verifier::external_body]
fn impl_item_fn(item: &syn::ImplItem) -> (r: Option<(Vec<syn::Attribute>, syn::Signature)>)
    ensures
        r == impl_item_fn_of(*item),
{
    match item {
        syn::ImplItem::Fn(f) => Some((f.attrs.clone(), f.sig.clone())),
        _ => None,
    }
}

/// The attributes and signature of a `syn::TraitItem::Fn`; `None` for other trait items. The
/// contract claims that the outcome is a function of the item.
#[verifier::external_body]
fn trait_item_fn(item: &syn::TraitItem) -> (r: Option<(Vec<syn::Attribute>, syn::Signature)>)
    ensures
        r == trait_item_fn_of(*item),
{
    match item {
        syn::TraitItem::Fn(f) => Some((f.attrs.clone(), f.sig.clone())),
        _ => None,
    }
}

/// The contents of a `syn::Attribute` (its `meta` field), cloned. The contract claims that
/// the outcome is a function of the attribute.
#[verifier::external_body]
fn attr_meta(attr: &syn::Attribute) -> (r: syn::Meta)
    ensures
        r == attr_meta_of(*attr),
{
    attr.meta.clone()
}

/// The identifier of the last segment of `syn::Meta::path` and, for a `syn::Meta::List`, its
/// tokens as text. The contract claims that the outcome is a function of the meta.
#[verifier::external_body]
fn meta_parts(meta: &syn::Meta) -> (r: (Option<String>, Option<String>))
    ensures
        r == meta_parts_of(*meta),
{
    let name = meta.path().segments.last().map(|s| s.ident.to_string());
    match meta {
        syn::Meta::List(l) => (name, Some(l.tokens.to_string())),
        _ => (name, None),
    }
}

/// The comma-separated attribute contents inside a `syn::Meta::List`, as
/// `syn::MetaList::parse_args_with` reads them with `syn::punctuated::Punctuated::parse_terminated`;
/// empty for another form of meta, or when the list does not read as such. The contract
/// claims that the outcome is a function of the meta.
#[verifier::external_body]
fn meta_args(meta: &syn::Meta) -> (r: Vec<syn::Meta>)
    ensures
        r@ == meta_args_of(*meta),
{
    match meta {
        syn::Meta::List(l) => match l.parse_args_with(syn::punctuated::Punctuated::<syn::Meta, syn::token::Comma>::parse_terminated) {
            Ok(p) => p.into_iter().collect(),
            Err(_) => Vec::new(),
        },
        _ => Vec::new(),
    }
}

/// The name, which generic parameters are type parameters, the parameters and the return
/// type of a `syn::Signature`. The contract claims that the outcome is a function of the
/// signature.
#[verifier::external_body]
fn sig_parts(sig: &syn::Signature) -> (r: SigParts)
    ensures
        r == sig_parts_of(*sig),
{
    SigParts {
        name: sig.ident.to_string(),
        type_params: sig.generics.params.iter().map(|p| matches!(p, syn::GenericParam::Type(_))).collect(),
        inputs: sig.inputs.iter().cloned().collect(),
        output: match &sig.output {
            syn::ReturnType::Default => None,
            syn::ReturnType::Type(_, t) => Some((**t).clone()),
        },
    }
}

/// The line on which a signature's name stands (`proc_macro2::Span::start`). No contract:
/// the line is read through the span, whose meaning rests on the parses the thread has made.
#[verifier::external_body]
fn sig_line(sig: &syn::Signature) -> usize {
    sig.ident.span().start().line
}

/// Tells a `syn::FnArg` receiver from a typed parameter, with the identifier of a
/// `syn::Pat::Ident` pattern and the parameter's type. The contract claims that the outcome
/// is a function of the parameter.
#[verifier::external_body]
fn arg_parts(arg: &syn::FnArg) -> (r: ArgParts)
    ensures
        r == arg_parts_of(*arg),
{
    match arg {
        syn::FnArg::Receiver(_) => ArgParts::Receiver,
        syn::FnArg::Typed(t) => ArgParts::Typed(
            match &*t.pat {
                syn::Pat::Ident(p) => Some(p.ident.to_string()),
                _ => None,
            },
            (*t.ty).clone(),
        ),
    }
}

/// Tells `syn::Type` variants apart, with the last segment of a path type and its
/// angle-bracketed arguments, and the type's tokens as text. The contract claims that the
/// outcome is a function of the type.
#[verifier::external_body]
fn type_parts(ty: &syn::Type) -> (r: (TypeParts, String))
    ensures
        r == type_parts_of(*ty),
{
    let parts = match ty {
        syn::Type::Path(p) => match p.path.segments.last() {
            None => TypeParts::Path(None, Vec::new()),
            Some(s) => TypeParts::Path(Some(s.ident.to_string()), match &s.arguments {
                syn::PathArguments::AngleBracketed(a) => a.args.iter().cloned().collect(),
                _ => Vec::new(),
            }),
        },
        syn::Type::Ptr(_) => TypeParts::Ptr,
        syn::Type::Reference(_) => TypeParts::Reference,
        syn::Type::Tuple(t) => TypeParts::Tuple(t.elems.iter().cloned().collect()),
        _ => TypeParts::Other,
    };
    (parts, ty.to_token_stream().to_string())
}

/// The type of a `syn::GenericArgument::Type`; `None` for other generic arguments. The
/// contract claims that the outcome is a function of the argument.
#[verifier::external_body]
fn generic_arg_type(arg: &syn::GenericArgument) -> (r: Option<syn::Type>)
    ensures
        r == generic_arg_type_of(*arg),
{
    match arg {
        syn::GenericArgument::Type(t) => Some(t.clone()),
        _ => None,
    }
}

/// `n` is the model of the type `ty`, nesting followed `fuel` levels deep: its tokens as text,
/// and its shape, with the models of its type arguments and tuple elements one level less
/// deep; at fuel 0, or for a form the model does not tell apart, [`TypeShape::Other`].
pub open spec fn models_type(n: TypeNode, ty: syn::Type, fuel: nat) -> bool
    decreases fuel, 0nat,
{
    let (parts, text) = type_parts_of(ty);
    &&& n.text == text
    &&& if fuel == 0 {
        n.shape is Other
    } else {
        match parts {
            TypeParts::Path(name, gargs) => match n.shape {
                TypeShape::Path { name: m, args } => m == name && models_args(args@, gargs@, (fuel - 1) as nat),
                _ => false,
            },
            TypeParts::Ptr => n.shape is Ptr,
            TypeParts::Reference => n.shape is Reference,
            TypeParts::Tuple(elems) => match n.shape {
                TypeShape::Tuple(v) => models_types(v@, elems@, (fuel - 1) as nat),
                _ => false,
            },
            TypeParts::Other => n.shape is Other,
        }
    }
}

/// `ns` are the models of the type arguments among the generic arguments `gs`, in order
/// (lifetimes and constants are left out).
pub open spec fn models_args(ns: Seq<TypeNode>, gs: Seq<syn::GenericArgument>, fuel: nat) -> bool
    decreases fuel, gs.len(),
{
    if gs.len() == 0 {
        ns.len() == 0
    } else {
        match generic_arg_type_of(gs.last()) {
            Some(t) => ns.len() > 0 && models_args(ns.drop_last(), gs.drop_last(), fuel) && models_type(ns.last(), t, fuel),
            None => models_args(ns, gs.drop_last(), fuel),
        }
    }
}

/// `ns` are the models of the types `ts`, in order.
pub open spec fn models_types(ns: Seq<TypeNode>, ts: Seq<syn::Type>, fuel: nat) -> bool
    decreases fuel, ts.len(),
{
    if ts.len() == 0 {
        ns.len() == 0
    } else {
        ns.len() == ts.len() && models_types(ns.drop_last(), ts.drop_last(), fuel) && models_type(ns.last(), ts.last(), fuel)
    }
}

/// `a` is the model of the attribute `attr`: the last identifier of its path and its list's
/// tokens, and, one level deep, the same of each attribute content that its list holds.
pub open spec fn models_attr(a: AttrNode, attr: syn::Attribute) -> bool {
    let m = attr_meta_of(attr);
    let args = meta_args_of(m);
    &&& (a.name, a.list) == meta_parts_of(m)
    &&& a.inner@.len() == args.len()
    &&& forall|i: int| #![trigger args[i]] 0 <= i < args.len() ==> (a.inner@[i].name, a.inner@[i].list) == meta_parts_of(args[i]) && a.inner@[i].inner@.len() == 0
}

/// `n` is the model of the parameter `arg`.
pub open spec fn models_input(n: ArgNode, arg: syn::FnArg, fuel: nat) -> bool {
    match arg_parts_of(arg) {
        ArgParts::Receiver => n is Receiver,
        ArgParts::Typed(name, t) => match n {
            ArgNode::Typed { name: m, ty } => m == name && models_type(ty, t, fuel),
            _ => false,
        },
    }
}

/// `n` is the model of the function with attributes `attrs` and signature `sig`: one node per
/// attribute, its name, whether a generic parameter is a type parameter, its parameters and
/// its return type. The line of its name is what the span gives (see [`sig_line`]).
pub open spec fn models_fn(n: FnNode, attrs: Seq<syn::Attribute>, sig: syn::Signature, fuel: nat) -> bool {
    let p = sig_parts_of(sig);
    &&& n.attrs@.len() == attrs.len()
    &&& forall|i: int| 0 <= i < attrs.len() ==> models_attr(#[trigger] n.attrs@[i], attrs[i])
    &&& n.sig.name == p.name
    &&& n.sig.has_type_param == exists|i: int| 0 <= i < p.type_params@.len() && p.type_params@[i]
    &&& n.sig.inputs@.len() == p.inputs@.len()
    &&& forall|i: int| 0 <= i < p.inputs@.len() ==> models_input(#[trigger] n.sig.inputs@[i], p.inputs@[i], fuel)
    &&& match p.output {
        None => n.sig.output is None,
        Some(t) => n.sig.output matches Some(o) && models_type(o, t, fuel),
    }
}

/// `ns` are the models of the functions among the `impl` items `is`, in order.
pub open spec fn models_impl_fns(ns: Seq<FnNode>, is: Seq<syn::ImplItem>, fuel: nat) -> bool
    decreases is.len(),
{
    if is.len() == 0 {
        ns.len() == 0
    } else {
        match impl_item_fn_of(is.last()) {
            Some((attrs, sig)) => ns.len() > 0 && models_impl_fns(ns.drop_last(), is.drop_last(), fuel) && models_fn(ns.last(), attrs@, sig, fuel),
            None => models_impl_fns(ns, is.drop_last(), fuel),
        }
    }
}

/// `ns` are the models of the functions among the trait items `is`, in order.
pub open spec fn models_trait_fns(ns: Seq<FnNode>, is: Seq<syn::TraitItem>, fuel: nat) -> bool
    decreases is.len(),
{
    if is.len() == 0 {
        ns.len() == 0
    } else {
        match trait_item_fn_of(is.last()) {
            Some((attrs, sig)) => ns.len() > 0 && models_trait_fns(ns.drop_last(), is.drop_last(), fuel) && models_fn(ns.last(), attrs@, sig, fuel),
            None => models_trait_fns(ns, is.drop_last(), fuel),
        }
    }
}

/// `ns` are the models of the items `items`, one each, in order, inline modules followed
/// `fuel` levels deep.
pub open spec fn models_items(ns: Seq<ItemNode>, items: Seq<syn::Item>, fuel: nat) -> bool
    decreases fuel, items.len(),
{
    if items.len() == 0 {
        ns.len() == 0
    } else {
        ns.len() == items.len() && models_items(ns.drop_last(), items.drop_last(), fuel) && models_item(ns.last(), items.last(), fuel)
    }
}

/// `n` is the model of the item `item`: a function, a module with the models of its inline
/// items one level less deep (none at fuel 0), an `impl` block with its trait's last
/// identifier, the model of its type and of its functions, a trait with its functions, or
/// another item.
pub open spec fn models_item(n: ItemNode, item: syn::Item, fuel: nat) -> bool
    decreases fuel, 0nat,
{
    match item_parts_of(item) {
        ItemParts::Fn(attrs, sig) => match n {
            ItemNode::Fn(f) => models_fn(f, attrs@, sig, fuel),
            _ => false,
        },
        ItemParts::Mod(None) => n == ItemNode::Mod(None),
        ItemParts::Mod(Some(inner)) => match n {
            ItemNode::Mod(Some(v)) => if fuel == 0 { v@.len() == 0 } else { models_items(v@, inner@, (fuel - 1) as nat) },
            _ => false,
        },
        ItemParts::Impl(tn, st, is) => match n {
            ItemNode::Impl { trait_name, self_ty, fns } => trait_name == tn && models_type(self_ty, st, fuel) && models_impl_fns(fns@, is@, fuel),
            _ => false,
        },
        ItemParts::Trait(is) => match n {
            ItemNode::Trait(fns) => models_trait_fns(fns@, is@, fuel),
            _ => false,
        },
        ItemParts::Other => n is Other,
    }
}

/// `items` are the model of the source text `text`: it is a Rust file, and they model its
/// items, nesting followed as deep as any source goes.
pub open spec fn source_model(text: Seq<char>, items: Seq<ItemNode>) -> bool {
    parsed_file(text) matches Some(parsed) && models_items(items, parsed, usize::MAX as nat)
}

/// Parses a source text and models its items: `None` exactly when the text is not a Rust
/// file; otherwise the model of each item, in order, its nesting followed as deep as the
/// source goes (see [`source_model`]).
pub fn parse_source(text: &str) -> (r: Option<Vec<ItemNode>>)
    ensures
        r is Some <==> parsed_file(text@) is Some,
        r matches Some(items) ==> source_model(text@, items@) && items_within(items@, usize::MAX as nat),
{
    match parse_file(text) {
        None => None,
        Some(items) => Some(item_nodes(&items, usize::MAX)),
    }
}

/// The model of an attribute (see [`models_attr`]).
fn attr_node(attr: &syn::Attribute) -> (r: AttrNode)
    ensures
        models_attr(r, *attr),
{
    let meta = attr_meta(attr);
    let (name, list) = meta_parts(&meta);
    let args = meta_args(&meta);
    let mut inner: Vec<AttrNode> = Vec::new();
    for i in 0..args.len()
        invariant
            inner@.len() == i,
            forall|j: int| 0 <= j < i ==> (#[trigger] inner@[j].name, inner@[j].list) == meta_parts_of(args@[j]) && inner@[j].inner@.len() == 0,
    {
        let (n, l) = meta_parts(&args[i]);
        let e: Vec<AttrNode> = Vec::new();
        assert(e@.len() == 0);
        let ghost before = inner@;
        inner.push(AttrNode { name: n, list: l, inner: e });
        assert(forall|j: int| 0 <= j < i ==> inner@[j] == before[j]);
    }
    let r = AttrNode { name, list, inner };
    assert forall|i: int| #![trigger args@[i]] 0 <= i < args@.len() implies (r.inner@[i].name, r.inner@[i].list) == meta_parts_of(args@[i]) && r.inner@[i].inner@.len() == 0 by {
        assert(r.inner@[i].name == r.inner@[i].name);
    }
    r
}

/// A signature's model from its parts: the function has a type parameter exactly when one of
/// its generic parameters, in `type_params`, is one.
pub fn sig_node(name: String, line: usize, type_params: &Vec<bool>, inputs: Vec<ArgNode>, output: Option<TypeNode>) -> (r: SigNode)
    ensures
        r.name == name,
        r.line == line,
        r.has_type_param == exists|i: int| 0 <= i < type_params@.len() && type_params@[i],
        r.inputs == inputs,
        r.output == output,
{
    let mut has_type_param = false;
    for i in 0..type_params.len()
        invariant
            has_type_param == exists|j: int| 0 <= j < i && type_params@[j],
    {
        if type_params[i] {
            has_type_param = true;
        }
    }
    SigNode { name, line, has_type_param, inputs, output }
}

/// The model of a type follows nesting at most `fuel` levels deep: at fuel 0 it is
/// [`TypeShape::Other`], and above, the type arguments and tuple elements it holds are
/// modeled with one level less.
pub open spec fn type_within(t: TypeNode, fuel: nat) -> bool
    decreases t,
{
    match t.shape {
        TypeShape::Path { args, .. } => fuel > 0 && types_within(args@, (fuel - 1) as nat),
        TypeShape::Tuple(elems) => fuel > 0 && types_within(elems@, (fuel - 1) as nat),
        TypeShape::Ptr | TypeShape::Reference => fuel > 0,
        TypeShape::Other => true,
    }
}

/// [`type_within`] of each of `ts`.
pub open spec fn types_within(ts: Seq<TypeNode>, fuel: nat) -> bool
    decreases ts,
{
    ts.len() == 0 || (types_within(ts.drop_last(), fuel) && type_within(ts.last(), fuel))
}

/// The types of the typed parameters `args` are within `fuel` (see [`type_within`]).
pub open spec fn args_within(args: Seq<ArgNode>, fuel: nat) -> bool
    decreases args.len(),
{
    args.len() == 0 || (args_within(args.drop_last(), fuel) && match args.last() {
        ArgNode::Typed { ty, .. } => type_within(ty, fuel),
        ArgNode::Receiver => true,
    })
}

/// The parameter and return types of `f` are within `fuel` (see [`type_within`]).
pub open spec fn fn_within(f: FnNode, fuel: nat) -> bool {
    &&& args_within(f.sig.inputs@, fuel)
    &&& match f.sig.output {
        Some(t) => type_within(t, fuel),
        None => true,
    }
}

/// [`fn_within`] of each of `fns`.
pub open spec fn fns_within(fns: Seq<FnNode>, fuel: nat) -> bool
    decreases fns.len(),
{
    fns.len() == 0 || (fns_within(fns.drop_last(), fuel) && fn_within(fns.last(), fuel))
}

/// The model of an item follows nesting at most `fuel` levels deep: its types are within
/// `fuel`, and an inline module's items are modeled with one level less, or left out at
/// fuel 0.
pub open spec fn item_within(item: ItemNode, fuel: nat) -> bool
    decreases item,
{
    match item {
        ItemNode::Fn(f) => fn_within(f, fuel),
        ItemNode::Mod(Some(inner)) => if fuel == 0 {
            inner@.len() == 0
        } else {
            items_within(inner@, (fuel - 1) as nat)
        },
        ItemNode::Mod(None) => true,
        ItemNode::Impl { self_ty, fns, .. } => type_within(self_ty, fuel) && fns_within(fns@, fuel),
        ItemNode::Trait(fns) => fns_within(fns@, fuel),
        ItemNode::Other => true,
    }
}

/// [`item_within`] of each of `items`.
pub open spec fn items_within(items: Seq<ItemNode>, fuel: nat) -> bool
    decreases items,
{
    items.len() == 0 || (items_within(items.drop_last(), fuel) && item_within(items.last(), fuel))
}

/// The model of a type (see [`models_type`]). `fuel` bounds the nesting that is followed;
/// callers pass `usize::MAX`, which no source nests to.
fn type_node(ty: &syn::Type, fuel: usize) -> (r: TypeNode)
    ensures
        type_within(r, fuel as nat),
        models_type(r, *ty, fuel as nat),
    decreases fuel,
{
    let (parts, text) = type_parts(ty);
    if fuel == 0 {
        return TypeNode { shape: TypeShape::Other, text };
    }
    let next = fuel - 1;
    let shape = match parts {
        TypeParts::Path(name, gargs) => {
            let mut args: Vec<TypeNode> = Vec::new();
            for i in 0..gargs.len()
                invariant
                    next < fuel,
                    types_within(args@, next as nat),
                    models_args(args@, gargs@.take(i as int), next as nat),
            {
                assert(gargs@.take(i + 1).drop_last() =~= gargs@.take(i as int));
                assert(gargs@.take(i + 1).last() == gargs@[i as int]);
                if let Some(t) = generic_arg_type(&gargs[i]) {
                    let a = type_node(&t, next);
                    let ghost before = args@;
                    args.push(a);
                    assert(args@.drop_last() == before);
                }
            }
            assert(gargs@.take(gargs@.len() as int) =~= gargs@);
            TypeShape::Path { name, args }
        },
        TypeParts::Ptr => TypeShape::Ptr,
        TypeParts::Reference => TypeShape::Reference,
        TypeParts::Tuple(elems) => {
            let mut v: Vec<TypeNode> = Vec::new();
            for i in 0..elems.len()
                invariant
                    next < fuel,
                    v@.len() == i,
                    types_within(v@, next as nat),
                    models_types(v@, elems@.take(i as int), next as nat),
            {
                assert(elems@.take(i + 1).drop_last() =~= elems@.take(i as int));
                assert(elems@.take(i + 1).last() == elems@[i as int]);
                let e = type_node(&elems[i], next);
                let ghost before = v@;
                v.push(e);
                assert(v@.drop_last() == before);
            }
            assert(elems@.take(elems@.len() as int) =~= elems@);
            TypeShape::Tuple(v)
        },
        TypeParts::Other => TypeShape::Other,
    };
    TypeNode { shape, text }
}

/// The model of a function from its attributes and signature (see [`models_fn`]).
fn fn_node(attrs: &Vec<syn::Attribute>, sig: &syn::Signature, fuel: usize) -> (r: FnNode)
    ensures
        r.attrs@.len() == attrs@.len(),
        fn_within(r, fuel as nat),
        models_fn(r, attrs@, *sig, fuel as nat),
{
    let mut anodes: Vec<AttrNode> = Vec::new();
    for i in 0..attrs.len()
        invariant
            anodes@.len() == i,
            forall|j: int| 0 <= j < i ==> models_attr(#[trigger] anodes@[j], attrs@[j]),
    {
        anodes.push(attr_node(&attrs[i]));
    }
    let parts = sig_parts(sig);
    let line = sig_line(sig);
    let mut inputs: Vec<ArgNode> = Vec::new();
    for i in 0..parts.inputs.len()
        invariant
            inputs@.len() == i,
            args_within(inputs@, fuel as nat),
            forall|j: int| 0 <= j < i ==> models_input(#[trigger] inputs@[j], parts.inputs@[j], fuel as nat),
    {
        let a = match arg_parts(&parts.inputs[i]) {
            ArgParts::Receiver => ArgNode::Receiver,
            ArgParts::Typed(name, t) => ArgNode::Typed { name, ty: type_node(&t, fuel) },
        };
        let ghost before = inputs@;
        inputs.push(a);
        assert(inputs@.drop_last() == before);
    }
    let output = match &parts.output {
        Some(t) => Some(type_node(t, fuel)),
        None => None,
    };
    FnNode { attrs: anodes, sig: sig_node(parts.name, line, &parts.type_params, inputs, output) }
}

/// The model of a list of items (see [`models_items`]). `fuel` bounds the nesting of inline
/// modules that is followed, as for [`type_node`].
fn item_nodes(items: &Vec<syn::Item>, fuel: usize) -> (r: Vec<ItemNode>)
    ensures
        r@.len() == items@.len(),
        items_within(r@, fuel as nat),
        models_items(r@, items@, fuel as nat),
    decreases fuel,
{
    let mut out: Vec<ItemNode> = Vec::new();
    for i in 0..items.len()
        invariant
            out@.len() == i,
            items_within(out@, fuel as nat),
            models_items(out@, items@.take(i as int), fuel as nat),
    {
        assert(items@.take(i + 1).drop_last() =~= items@.take(i as int));
        assert(items@.take(i + 1).last() == items@[i as int]);
        let node = match item_parts(&items[i]) {
            ItemParts::Fn(attrs, sig) => ItemNode::Fn(fn_node(&attrs, &sig, fuel)),
            ItemParts::Mod(content) => match content {
                Some(inner) => if fuel == 0 {
                    ItemNode::Mod(Some(Vec::new()))
                } else {
                    ItemNode::Mod(Some(item_nodes(&inner, fuel - 1)))
                },
                None => ItemNode::Mod(None),
            },
            ItemParts::Impl(trait_name, self_ty, iitems) => {
                let mut fns: Vec<FnNode> = Vec::new();
                for j in 0..iitems.len()
                    invariant
                        fns_within(fns@, fuel as nat),
                        models_impl_fns(fns@, iitems@.take(j as int), fuel as nat),
                {
                    assert(iitems@.take(j + 1).drop_last() =~= iitems@.take(j as int));
                    assert(iitems@.take(j + 1).last() == iitems@[j as int]);
                    if let Some((attrs, sig)) = impl_item_fn(&iitems[j]) {
                        let f = fn_node(&attrs, &sig, fuel);
                        let ghost before = fns@;
                        fns.push(f);
                        assert(fns@.drop_last() == before);
                    }
                }
                assert(iitems@.take(iitems@.len() as int) =~= iitems@);
                ItemNode::Impl { trait_name, self_ty: type_node(&self_ty, fuel), fns }
            },
            ItemParts::Trait(titems) => {
                let mut fns: Vec<FnNode> = Vec::new();
                for j in 0..titems.len()
                    invariant
                        fns_within(fns@, fuel as nat),
                        models_trait_fns(fns@, titems@.take(j as int), fuel as nat),
                {
                    assert(titems@.take(j + 1).drop_last() =~= titems@.take(j as int));
                    assert(titems@.take(j + 1).last() == titems@[j as int]);
                    if let Some((attrs, sig)) = trait_item_fn(&titems[j]) {
                        let f = fn_node(&attrs, &sig, fuel);
                        let ghost before = fns@;
                        fns.push(f);
                        assert(fns@.drop_last() == before);
                    }
                }
                assert(titems@.take(titems@.len() as int) =~= titems@);
                ItemNode::Trait(fns)
            },
            ItemParts::Other => ItemNode::Other,
        };
        assert(item_within(node, fuel as nat));
        assert(models_item(node, items@[i as int], fuel as nat));
        let ghost before = out@;
        out.push(node);
        assert(out@.drop_last() == before);
    }
    assert(items@.take(items@.len() as int) =~= items@);
    out
}

} // verus!
