//! The part of a parsed file that the scanner reads: its top-level items, each
//! with its kind, its attributes, and the two qualifiers that matter here.

use crate::text::str_eq;
use vstd::prelude::*;
use vstd::slice::*;

verus! {

/// The kind of a top-level declaration.
#[derive(Clone, Copy, Debug, PartialEq, Eq, Structural)]
pub enum ItemKind {
    Function,
    Module,
    Static,
    Constant,
    Struct,
    Enum,
    Union,
    Trait,
    Impl,
    /// A block of declarations implemented outside the language.
    ForeignBlock,
    /// Any other declaration, such as a type alias or a use declaration.
    Other,
}

impl ItemKind {
    /// Whether the scanner looks at the attributes of items of this kind. It does so
    /// for nine kinds; a foreign block's own attributes and those of the remaining
    /// declarations are not inspected.
    pub open spec fn has_attribute_slot(self) -> bool {
        self != ItemKind::ForeignBlock && self != ItemKind::Other
    }
}

/// An attribute on an item. Only its path is kept, and of the path only what tells
/// a bare name apart from everything else; arguments are ignored.
#[derive(Clone, Debug)]
pub struct Attribute {
    /// The name, when the attribute's path is a single plain identifier, as in
    /// `#[link(name = "m")]`; `None` for a longer path such as `#[a::b]`.
    pub ident: Option<String>,
}

/// Mathematical view of an [`Attribute`].
pub struct AttributeView {
    pub ident: Option<Seq<char>>,
}

impl AttributeView {
    /// The attribute's path is exactly the identifier `name`.
    pub open spec fn is_ident(self, name: Seq<char>) -> bool {
        self.ident == Some(name)
    }
}

impl View for Attribute {
    type V = AttributeView;

    open spec fn view(&self) -> AttributeView {
        AttributeView { ident: self.ident.deep_view() }
    }
}

impl DeepView for Attribute {
    type V = AttributeView;

    open spec fn deep_view(&self) -> AttributeView {
        self.view()
    }
}

impl Attribute {
    /// Whether the attribute's path is exactly the identifier `name`.
    pub fn is_ident(&self, name: &str) -> (r: bool)
        ensures
            r == self@.is_ident(name@),
    {
        match &self.ident {
            Some(ident) => str_eq(ident.as_str(), name),
            None => false,
        }
    }
}

/// A top-level declaration of a parsed file.
#[derive(Clone, Debug)]
pub struct Item {
    pub kind: ItemKind,
    /// The attributes written on the item.
    pub attrs: Vec<Attribute>,
    /// For a foreign block, the calling convention it names, without the quotes;
    /// `None` where none is written. Read for foreign blocks only.
    pub abi: Option<String>,
    /// For a function, whether it is marked unsafe. Read for functions only.
    pub is_unsafe: bool,
}

/// Mathematical view of an [`Item`].
pub struct ItemView {
    pub kind: ItemKind,
    pub attrs: Seq<AttributeView>,
    pub abi: Option<Seq<char>>,
    pub is_unsafe: bool,
}

impl ItemView {
    /// The attributes that the scanner sees on this item: those written on it if
    /// its kind is one of the nine with an attribute slot, none otherwise.
    pub open spec fn visible_attrs(self) -> Seq<AttributeView> {
        if self.kind.has_attribute_slot() {
            self.attrs
        } else {
            Seq::empty()
        }
    }

    /// A foreign block whose calling convention is exactly `C`.
    pub open spec fn is_c_foreign_block(self) -> bool {
        self.kind == ItemKind::ForeignBlock && self.abi == Some("C"@)
    }

    /// A function marked unsafe.
    pub open spec fn is_unsafe_fn(self) -> bool {
        self.kind == ItemKind::Function && self.is_unsafe
    }
}

impl View for Item {
    type V = ItemView;

    open spec fn view(&self) -> ItemView {
        ItemView {
            kind: self.kind,
            attrs: self.attrs.deep_view(),
            abi: self.abi.deep_view(),
            is_unsafe: self.is_unsafe,
        }
    }
}

impl DeepView for Item {
    type V = ItemView;

    open spec fn deep_view(&self) -> ItemView {
        self.view()
    }
}

impl Item {
    /// Whether this is a foreign block whose calling convention is exactly `C`.
    pub fn is_c_foreign_block(&self) -> (r: bool)
        ensures
            r == self@.is_c_foreign_block(),
    {
        match self.kind {
            ItemKind::ForeignBlock => match &self.abi {
                Some(name) => str_eq(name.as_str(), "C"),
                None => false,
            },
            _ => false,
        }
    }

    /// Whether this is a function marked unsafe.
    pub fn is_unsafe_fn(&self) -> (r: bool)
        ensures
            r == self@.is_unsafe_fn(),
    {
        match self.kind {
            ItemKind::Function => self.is_unsafe,
            _ => false,
        }
    }
}

/// The attribute list of an item, by its kind: the attributes written on it for the
/// nine kinds with an attribute slot, the empty list for every other kind.
pub fn get_attrs(item: &Item) -> (attrs: &[Attribute])
    ensures
        attrs.deep_view() == item@.visible_attrs(),
        item@.kind.has_attribute_slot() ==> attrs@ == item.attrs@,
        !item@.kind.has_attribute_slot() ==> attrs@.len() == 0,
{
    match item.kind {
        ItemKind::Function
        | ItemKind::Module
        | ItemKind::Static
        | ItemKind::Constant
        | ItemKind::Struct
        | ItemKind::Enum
        | ItemKind::Union
        | ItemKind::Trait
        | ItemKind::Impl => {
            let attrs = item.attrs.as_slice();
            assert(attrs.deep_view() =~= item.attrs.deep_view());
            attrs
        },
        ItemKind::ForeignBlock | ItemKind::Other => {
            let attrs: &[Attribute] = &[];
            assert(attrs.deep_view() =~= Seq::<AttributeView>::empty());
            attrs
        },
    }
}

} // verus!
