use rust_ffi_metrics::parse::parse_items;
use rust_ffi_metrics::syntax::{get_attrs, Attribute, Item, ItemKind};

fn attr(name: &str) -> Attribute {
    Attribute { ident: Some(name.to_string()) }
}

fn item(kind: ItemKind, attrs: Vec<Attribute>) -> Item {
    Item { kind, attrs, abi: None, is_unsafe: false }
}

fn idents(attrs: &[Attribute]) -> Vec<Option<String>> {
    attrs.iter().map(|a| a.ident.clone()).collect()
}

fn foreign(abi: &str, body: &str) -> String {
    format!("{}tern {} {{ {} }}", "ex", abi, body)
}

#[test]
fn attribute_is_ident_matches_the_whole_name() {
    assert!(attr("link").is_ident("link"));
    assert!(!attr("link").is_ident("no_mangle"));
    assert!(!attr("link_name").is_ident("link"));
    assert!(!attr("").is_ident("link"));
    assert!(!Attribute { ident: None }.is_ident("link"));
}

#[test]
fn nine_kinds_expose_their_attributes() {
    let kinds = [
        ItemKind::Function,
        ItemKind::Module,
        ItemKind::Static,
        ItemKind::Constant,
        ItemKind::Struct,
        ItemKind::Enum,
        ItemKind::Union,
        ItemKind::Trait,
        ItemKind::Impl,
    ];
    for kind in kinds {
        let it = item(kind, vec![attr("link"), attr("inline")]);
        assert_eq!(
            idents(get_attrs(&it)),
            vec![Some("link".to_string()), Some("inline".to_string())],
            "{:?}",
            kind
        );
    }
}

#[test]
fn other_kinds_expose_no_attributes() {
    for kind in [ItemKind::ForeignBlock, ItemKind::Other] {
        let it = item(kind, vec![attr("link")]);
        assert!(get_attrs(&it).is_empty(), "{:?}", kind);
    }
}

#[test]
fn c_foreign_block_needs_kind_and_exact_name() {
    let mut it = item(ItemKind::ForeignBlock, vec![]);
    assert!(!it.is_c_foreign_block());
    it.abi = Some("C".to_string());
    assert!(it.is_c_foreign_block());
    it.abi = Some("c".to_string());
    assert!(!it.is_c_foreign_block());
    it.abi = Some("C-unwind".to_string());
    assert!(!it.is_c_foreign_block());
    it.abi = Some("system".to_string());
    assert!(!it.is_c_foreign_block());
    let mut f = item(ItemKind::Function, vec![]);
    f.abi = Some("C".to_string());
    assert!(!f.is_c_foreign_block());
}

#[test]
fn unsafe_fn_needs_kind_and_qualifier() {
    let mut f = item(ItemKind::Function, vec![]);
    assert!(!f.is_unsafe_fn());
    f.is_unsafe = true;
    assert!(f.is_unsafe_fn());
    let mut t = item(ItemKind::Trait, vec![]);
    t.is_unsafe = true;
    assert!(!t.is_unsafe_fn());
}

#[test]
fn text_that_does_not_parse_gives_none() {
    assert!(parse_items("fn main( {").is_none());
    assert!(parse_items("struct").is_none());
    assert!(parse_items("let x = 1;").is_none());
}

#[test]
fn empty_text_parses_to_no_items() {
    assert_eq!(parse_items("").unwrap().len(), 0);
    assert_eq!(parse_items("// only a comment\n").unwrap().len(), 0);
}

#[test]
fn every_kind_is_told_apart() {
    let src = format!(
        "{}\n{}\n{}\n{}\n{}\n{}\n{}\n{}\n{}\n{}\n{}\n{}\n",
        "fn f() {}",
        "mod m {}",
        "static S: u8 = 0;",
        "const C: u8 = 0;",
        "struct T;",
        "enum E { A }",
        "union U { a: u8 }",
        "trait R {}",
        "impl R for T {}",
        foreign("\"C\"", "fn g();"),
        "type A = u8;",
        "use std::fmt;",
    );
    let items = parse_items(&src).unwrap();
    let kinds: Vec<ItemKind> = items.iter().map(|i| i.kind).collect();
    assert_eq!(
        kinds,
        vec![
            ItemKind::Function,
            ItemKind::Module,
            ItemKind::Static,
            ItemKind::Constant,
            ItemKind::Struct,
            ItemKind::Enum,
            ItemKind::Union,
            ItemKind::Trait,
            ItemKind::Impl,
            ItemKind::ForeignBlock,
            ItemKind::Other,
            ItemKind::Other,
        ]
    );
}

#[test]
fn items_come_in_source_order() {
    let items = parse_items("struct A;\nfn b() {}\nstruct C;\n").unwrap();
    let kinds: Vec<ItemKind> = items.iter().map(|i| i.kind).collect();
    assert_eq!(kinds, vec![ItemKind::Struct, ItemKind::Function, ItemKind::Struct]);
}

#[test]
fn attributes_keep_their_single_identifier() {
    let items =
        parse_items("#[no_mangle]\n#[inline(always)]\n#[doc = \"x\"]\npub fn f() {}\n").unwrap();
    assert_eq!(items.len(), 1);
    assert_eq!(
        idents(&items[0].attrs),
        vec![Some("no_mangle".to_string()), Some("inline".to_string()), Some("doc".to_string())]
    );
}

#[test]
fn longer_attribute_paths_have_no_identifier() {
    let items = parse_items("#[a::link]\n#[::link]\n#[link]\nstruct S;\n").unwrap();
    assert_eq!(idents(&items[0].attrs), vec![None, None, Some("link".to_string())]);
}

#[test]
fn attributes_of_items_without_a_model_are_dropped() {
    let items = parse_items("#[link(name = \"m\")]\nuse std::fmt;\n").unwrap();
    assert_eq!(items[0].kind, ItemKind::Other);
    assert!(items[0].attrs.is_empty());
}

#[test]
fn foreign_block_keeps_attributes_and_abi() {
    let src = format!("#[link(name = \"m\")]\n{}\n", foreign("\"C\"", "fn cos(x: f64) -> f64;"));
    let items = parse_items(&src).unwrap();
    assert_eq!(items.len(), 1);
    assert_eq!(items[0].kind, ItemKind::ForeignBlock);
    assert_eq!(items[0].abi, Some("C".to_string()));
    assert_eq!(idents(&items[0].attrs), vec![Some("link".to_string())]);
    assert!(!items[0].is_unsafe);
}

#[test]
fn abi_literal_is_unquoted_and_unescaped() {
    let items = parse_items(&foreign("\"system\"", "")).unwrap();
    assert_eq!(items[0].abi, Some("system".to_string()));
    let items = parse_items(&foreign("r\"C\"", "")).unwrap();
    assert_eq!(items[0].abi, Some("C".to_string()));
    let items = parse_items(&foreign("\"\\x43\"", "")).unwrap();
    assert_eq!(items[0].abi, Some("C".to_string()));
}

#[test]
fn foreign_block_without_a_name_has_no_abi() {
    let items = parse_items(&foreign("", "fn g();")).unwrap();
    assert_eq!(items[0].kind, ItemKind::ForeignBlock);
    assert_eq!(items[0].abi, None);
}

#[test]
fn only_functions_carry_unsafety() {
    let items =
        parse_items("unsafe fn f() {}\nfn g() {}\nunsafe trait T {}\nunsafe impl T for u8 {}\n")
            .unwrap();
    let flags: Vec<bool> = items.iter().map(|i| i.is_unsafe).collect();
    assert_eq!(flags, vec![true, false, false, false]);
    assert!(items.iter().all(|i| i.abi.is_none()));
}

#[test]
fn nested_items_are_not_top_level() {
    let items = parse_items("mod m {\n    #[no_mangle]\n    pub unsafe fn f() {}\n}\n").unwrap();
    assert_eq!(items.len(), 1);
    assert_eq!(items[0].kind, ItemKind::Module);
    assert!(items[0].attrs.is_empty());
    assert!(!items[0].is_unsafe);
}

#[test]
fn byte_order_mark_and_shebang_are_accepted() {
    assert_eq!(parse_items("\u{feff}fn main() {}\n").unwrap().len(), 1);
    assert_eq!(parse_items("#!/usr/bin/env run\nfn main() {}\n").unwrap().len(), 1);
}

#[test]
fn raw_identifier_keeps_its_prefix() {
    let items = parse_items("#[r#link]\nstruct S;\n").unwrap();
    assert_eq!(idents(&items[0].attrs), vec![Some("r#link".to_string())]);
    assert!(!items[0].attrs[0].is_ident("link"));
}
