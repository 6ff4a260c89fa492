//! Parsing of source text into items, by the `syn` crate.
//!
//! The syntax tree that `syn` builds is carried through as an opaque value. What
//! the scanner reads of it is handed out item by item, as plain values, and put
//! together into [`Item`]s by verified code.

use crate::syntax::{Attribute, Item, ItemKind, ItemView};
use syn::Item as Node;
use vstd::prelude::*;

verus! {

/// The syntax tree of one file, as `syn` builds it.
#[verifier::external_type_specification]
#[verifier::external_body]
pub struct ExFile(syn::File);

/// What `syn::parse_file` makes of `content`: the top-level items of the file in
/// source order, or `None` where the text is not accepted by the grammar.
pub uninterp spec fn parsed_items(content: Seq<char>) -> Option<Seq<ItemView>>;

/// The top-level items that a syntax tree holds, in source order.
pub uninterp spec fn tree_items(tree: syn::File) -> Seq<ItemView>;

/// Trusted: calls `syn::parse_file`. The outcome depends on the text alone: a tree
/// whose items are those named by [`parsed_items`], or `None` where `syn` reports
/// a parse error.
#[verifier::external_body]
fn parse_tree(content: &str) -> (r: Option<syn::File>)
    ensures
        match r {
            Some(tree) => parsed_items(content@) == Some(tree_items(tree)),
            None => parsed_items(content@) is None,
        },
{
    syn::parse_file(content).ok()
}

/// Trusted: the length of the `items` field of `syn::File`.
#[verifier::external_body]
fn tree_len(tree: &syn::File) -> (n: usize)
    ensures
        n == tree_items(*tree).len(),
{
    tree.items.len()
}

/// Trusted: tells the variants of `syn::Item` apart. The ten kinds that the
/// scanner distinguishes map one to one; every other variant is `Other`.
#[verifier::external_body]
fn tree_item_kind(tree: &syn::File, i: usize) -> (kind: ItemKind)
    requires
        i < tree_items(*tree).len(),
    ensures
        kind == tree_items(*tree)[i as int].kind,
{
    match &tree.items[i] {
        Node::Fn(_) => ItemKind::Function,
        Node::Mod(_) => ItemKind::Module,
        Node::Static(_) => ItemKind::Static,
        Node::Const(_) => ItemKind::Constant,
        Node::Struct(_) => ItemKind::Struct,
        Node::Enum(_) => ItemKind::Enum,
        Node::Union(_) => ItemKind::Union,
        Node::Trait(_) => ItemKind::Trait,
        Node::Impl(_) => ItemKind::Impl,
        Node::ForeignMod(_) => ItemKind::ForeignBlock,
        _ => ItemKind::Other,
    }
}

/// Trusted: the `attrs` field of the item, for the ten kinds that the scanner
/// distinguishes, and no attributes for an item of any other kind. Of each
/// attribute it keeps what `syn::Path::get_ident` returns for its path: the
/// identifier's text where the path is a single plain identifier.
#[verifier::external_body]
fn tree_item_attrs(tree: &syn::File, i: usize) -> (attrs: Vec<Attribute>)
    requires
        i < tree_items(*tree).len(),
    ensures
        attrs.deep_view() == tree_items(*tree)[i as int].attrs,
{
    let attrs = match &tree.items[i] {
        Node::Fn(x) => &x.attrs,
        Node::Mod(x) => &x.attrs,
        Node::Static(x) => &x.attrs,
        Node::Const(x) => &x.attrs,
        Node::Struct(x) => &x.attrs,
        Node::Enum(x) => &x.attrs,
        Node::Union(x) => &x.attrs,
        Node::Trait(x) => &x.attrs,
        Node::Impl(x) => &x.attrs,
        Node::ForeignMod(x) => &x.attrs,
        _ => return Vec::new(),
    };
    attrs.iter().map(|a| Attribute { ident: a.path().get_ident().map(|id| id.to_string()) }).collect()
}

/// Trusted: for a foreign block, the value of the string literal that names its
/// calling convention, as `syn::LitStr::value` gives it; `None` for a block that
/// names none and for an item of any other kind.
#[verifier::external_body]
fn tree_item_abi(tree: &syn::File, i: usize) -> (abi: Option<String>)
    requires
        i < tree_items(*tree).len(),
    ensures
        abi.deep_view() == tree_items(*tree)[i as int].abi,
{
    match &tree.items[i] {
        Node::ForeignMod(x) => x.abi.name.as_ref().map(|name| name.value()),
        _ => None,
    }
}

/// Trusted: for a function, whether its signature carries the `unsafe` token;
/// `false` for an item of any other kind.
#[verifier::external_body]
fn tree_item_unsafety(tree: &syn::File, i: usize) -> (is_unsafe: bool)
    requires
        i < tree_items(*tree).len(),
    ensures
        is_unsafe == tree_items(*tree)[i as int].is_unsafe,
{
    match &tree.items[i] {
        Node::Fn(x) => x.sig.unsafety.is_some(),
        _ => false,
    }
}

/// Parses `content` and returns its top-level items in source order, or `None`
/// where the text does not parse.
pub fn parse_items(content: &str) -> (r: Option<Vec<Item>>)
    ensures
        r.deep_view() == parsed_items(content@),
{
    match parse_tree(content) {
        None => None,
        Some(tree) => {
            let n: usize = tree_len(&tree);
            let mut items: Vec<Item> = Vec::new();
            let mut i: usize = 0;
            while i < n
                invariant
                    n == tree_items(tree).len(),
                    i <= n,
                    items.deep_view() == tree_items(tree).take(i as int),
                decreases n - i,
            {
                let item = Item {
                    kind: tree_item_kind(&tree, i),
                    attrs: tree_item_attrs(&tree, i),
                    abi: tree_item_abi(&tree, i),
                    is_unsafe: tree_item_unsafety(&tree, i),
                };
                assert(item@ == tree_items(tree)[i as int]);
                let ghost before = items.deep_view();
                items.push(item);
                assert(items.deep_view() =~= before.push(item@));
                assert(tree_items(tree).take(i + 1) =~= tree_items(tree).take(i as int).push(
                    tree_items(tree)[i as int],
                ));
                i = i + 1;
            }
            assert(tree_items(tree).take(n as int) =~= tree_items(tree));
            Some(items)
        },
    }
}

} // verus!
