use rust_ffi_metrics::scan::{
    analyze_file, analyze_source, count_attrs_named, scan_file, scan_item, scan_items,
    ConstructCounts, FileSignals,
};
use rust_ffi_metrics::syntax::{Attribute, Item, ItemKind};

fn named(name: &str) -> Attribute {
    Attribute { ident: Some(name.to_string()) }
}

fn plain(kind: ItemKind, attrs: Vec<Attribute>) -> Item {
    Item { kind, attrs, abi: None, is_unsafe: false }
}

fn c_block() -> Item {
    Item { kind: ItemKind::ForeignBlock, attrs: vec![], abi: Some("C".to_string()), is_unsafe: false }
}

fn unsafe_fn(attrs: Vec<Attribute>) -> Item {
    Item { kind: ItemKind::Function, attrs, abi: None, is_unsafe: true }
}

fn counts(extern_c: usize, link_attr: usize, no_mangle: usize, unsafe_fn_count: usize) -> ConstructCounts {
    ConstructCounts { extern_c, link_attr, no_mangle, unsafe_fn_count }
}

fn foreign(abi: &str, body: &str) -> String {
    format!("{}tern {} {{ {} }}", "ex", abi, body)
}

#[test]
fn zero_counts_are_all_zero() {
    assert_eq!(ConstructCounts::zero(), counts(0, 0, 0, 0));
}

#[test]
fn checked_plus_adds_each_counter() {
    assert_eq!(counts(1, 2, 3, 4).checked_plus(&counts(10, 20, 30, 40)), Some(counts(11, 22, 33, 44)));
    assert_eq!(counts(0, 0, 0, 0).checked_plus(&counts(0, 0, 0, 0)), Some(counts(0, 0, 0, 0)));
}

#[test]
fn checked_plus_reports_overflow_of_any_counter() {
    let max = usize::MAX;
    assert_eq!(counts(max, 0, 0, 0).checked_plus(&counts(1, 0, 0, 0)), None);
    assert_eq!(counts(0, max, 0, 0).checked_plus(&counts(0, 1, 0, 0)), None);
    assert_eq!(counts(0, 0, max, 0).checked_plus(&counts(0, 0, 1, 0)), None);
    assert_eq!(counts(0, 0, 0, max).checked_plus(&counts(0, 0, 0, 1)), None);
    assert_eq!(counts(max, max, max, max).checked_plus(&counts(0, 0, 0, 0)), Some(counts(max, max, max, max)));
}

#[test]
fn attributes_are_counted_by_exact_name() {
    let attrs = vec![
        named("link"),
        named("no_mangle"),
        named("link"),
        named("link_name"),
        Attribute { ident: None },
    ];
    assert_eq!(count_attrs_named(&attrs, "link"), 2);
    assert_eq!(count_attrs_named(&attrs, "no_mangle"), 1);
    assert_eq!(count_attrs_named(&attrs, "inline"), 0);
    assert_eq!(count_attrs_named(&[], "link"), 0);
}

#[test]
fn an_item_contributes_each_signal_it_carries() {
    assert_eq!(scan_item(&c_block()), counts(1, 0, 0, 0));
    assert_eq!(scan_item(&unsafe_fn(vec![])), counts(0, 0, 0, 1));
    assert_eq!(scan_item(&unsafe_fn(vec![named("no_mangle")])), counts(0, 0, 1, 1));
    assert_eq!(
        scan_item(&plain(ItemKind::Static, vec![named("link"), named("no_mangle"), named("link")])),
        counts(0, 2, 1, 0)
    );
    assert_eq!(scan_item(&plain(ItemKind::Function, vec![])), counts(0, 0, 0, 0));
    assert_eq!(scan_item(&plain(ItemKind::Other, vec![named("link")])), counts(0, 0, 0, 0));
}

#[test]
fn a_foreign_blocks_own_attributes_are_not_scanned() {
    let mut block = c_block();
    block.attrs = vec![named("link"), named("no_mangle")];
    assert_eq!(scan_item(&block), counts(1, 0, 0, 0));
}

#[test]
fn a_foreign_block_with_another_convention_is_no_signal() {
    let mut block = c_block();
    block.abi = Some("system".to_string());
    assert_eq!(scan_item(&block), counts(0, 0, 0, 0));
    block.abi = None;
    assert_eq!(scan_item(&block), counts(0, 0, 0, 0));
}

#[test]
fn items_add_up() {
    let items = vec![
        c_block(),
        unsafe_fn(vec![named("no_mangle")]),
        plain(ItemKind::Struct, vec![named("link")]),
        c_block(),
        plain(ItemKind::Module, vec![named("link"), named("link")]),
    ];
    assert_eq!(scan_items(&items), Some(counts(2, 3, 1, 1)));
    assert_eq!(scan_items(&[]), Some(counts(0, 0, 0, 0)));
}

#[test]
fn the_order_of_items_does_not_matter() {
    let a = vec![c_block(), unsafe_fn(vec![named("link")]), plain(ItemKind::Enum, vec![named("no_mangle")])];
    let b = vec![plain(ItemKind::Enum, vec![named("no_mangle")]), c_block(), unsafe_fn(vec![named("link")])];
    assert_eq!(scan_items(&a), scan_items(&b));
}

#[test]
fn signals_of_text_without_a_parse() {
    let text = b"bad ( text\nunsafe { x }\n";
    let signals = scan_file(text, None).unwrap();
    assert_eq!(
        signals,
        FileSignals {
            lines: 2,
            extern_c: 0,
            link_attr: 0,
            no_mangle: 0,
            unsafe_count: 1,
            unsafe_fn_count: 0,
            has_ffi: true,
        }
    );
}

#[test]
fn signals_combine_text_and_items() {
    let items = vec![c_block(), plain(ItemKind::Function, vec![named("no_mangle")])];
    let signals = scan_file(b"line one\nline two\nline three", Some(&items[..])).unwrap();
    assert_eq!(
        signals,
        FileSignals {
            lines: 3,
            extern_c: 1,
            link_attr: 0,
            no_mangle: 1,
            unsafe_count: 0,
            unsafe_fn_count: 0,
            has_ffi: true,
        }
    );
}

#[test]
fn any_single_trigger_flags_the_file() {
    assert!(scan_file(b"", Some(&[c_block()][..])).unwrap().has_ffi);
    assert!(scan_file(b"", Some(&[unsafe_fn(vec![])][..])).unwrap().has_ffi);
    assert!(scan_file(b"", Some(&[plain(ItemKind::Struct, vec![named("link")])][..])).unwrap().has_ffi);
    assert!(scan_file(b"", Some(&[plain(ItemKind::Struct, vec![named("no_mangle")])][..])).unwrap().has_ffi);
    assert!(scan_file(b"unsafe", Some(&[][..])).unwrap().has_ffi);
    assert!(scan_file(b"unsafe", None).unwrap().has_ffi);
    assert!(!scan_file(b"safe", Some(&[plain(ItemKind::Struct, vec![named("derive")])][..])).unwrap().has_ffi);
    assert!(!scan_file(b"", None).unwrap().has_ffi);
}

#[test]
fn single_c_foreign_block_counts_once() {
    let src = format!("{}\n", foreign("\"C\"", "fn puts(s: *const u8) -> i32;"));
    let signals = analyze_source(&src).unwrap();
    assert_eq!(signals.extern_c, 1);
    assert_eq!(signals.link_attr, 0);
    assert_eq!(signals.no_mangle, 0);
    assert_eq!(signals.unsafe_fn_count, 0);
    assert_eq!(signals.unsafe_count, 0);
    assert_eq!(signals.lines, 1);
    assert!(signals.has_ffi);
}

#[test]
fn plain_entry_point_has_no_signal() {
    let signals = analyze_source("fn main() {\n    println!(\"hi\");\n}\n").unwrap();
    assert_eq!(
        signals,
        FileSignals {
            lines: 3,
            extern_c: 0,
            link_attr: 0,
            no_mangle: 0,
            unsafe_count: 0,
            unsafe_fn_count: 0,
            has_ffi: false,
        }
    );
}

#[test]
fn unsafe_block_text_inside_a_comment_is_counted() {
    let signals = analyze_source("// never write unsafe { } here\nfn main() {}\n").unwrap();
    assert_eq!(signals.unsafe_count, 1);
    assert_eq!(signals.unsafe_fn_count, 0);
    assert_eq!(signals.extern_c, 0);
    assert_eq!(signals.link_attr, 0);
    assert_eq!(signals.no_mangle, 0);
    assert!(signals.has_ffi);
}

#[test]
fn source_with_every_signal() {
    let src = format!(
        "{}\n{}\n{}\n{}\n{}\n",
        "#[link(name = \"m\")]\nstruct Lib;",
        foreign("\"C\"", "fn cos(x: f64) -> f64;"),
        "#[no_mangle]\npub unsafe fn entry() {}",
        "fn user() { unsafe { entry() } }",
        "#[no_mangle]\npub static FLAG: u8 = 0;",
    );
    let signals = analyze_source(&src).unwrap();
    assert_eq!(
        signals,
        FileSignals {
            lines: 8,
            extern_c: 1,
            link_attr: 1,
            no_mangle: 2,
            unsafe_count: 1,
            unsafe_fn_count: 1,
            has_ffi: true,
        }
    );
}

#[test]
fn link_attribute_on_a_foreign_block_is_not_counted() {
    let src = format!("#[link(name = \"m\")]\n{}\n", foreign("\"C\"", "fn cos(x: f64) -> f64;"));
    let signals = analyze_source(&src).unwrap();
    assert_eq!(signals.extern_c, 1);
    assert_eq!(signals.link_attr, 0);
}

#[test]
fn text_that_does_not_parse_keeps_its_text_signals() {
    let signals = analyze_source("fn broken( {\n  unsafe { }\n#[no_mangle]\n").unwrap();
    assert_eq!(
        signals,
        FileSignals {
            lines: 3,
            extern_c: 0,
            link_attr: 0,
            no_mangle: 0,
            unsafe_count: 1,
            unsafe_fn_count: 0,
            has_ffi: true,
        }
    );
}

#[test]
fn text_that_does_not_parse_and_names_nothing_unsafe_is_not_flagged() {
    let signals = analyze_source("fn broken( {\n").unwrap();
    assert_eq!(signals.lines, 1);
    assert!(!signals.has_ffi);
}

#[test]
fn nested_signals_are_seen_only_in_the_text() {
    let src = "mod m {\n    #[no_mangle]\n    pub unsafe fn f() {}\n}\n";
    let signals = analyze_source(src).unwrap();
    assert_eq!(signals.no_mangle, 0);
    assert_eq!(signals.unsafe_fn_count, 0);
    assert_eq!(signals.lines, 4);
    assert!(signals.has_ffi);
}

#[test]
fn bytes_are_analyzed_as_their_text() {
    let src = "#[no_mangle]\npub fn f() {}\n";
    assert_eq!(analyze_file(src.as_bytes()), analyze_source(src));
    assert_eq!(analyze_file(src.as_bytes()).unwrap().no_mangle, 1);
}

#[test]
fn bytes_that_are_not_text_are_analyzed_as_empty() {
    let mut bytes = b"#[no_mangle]\npub unsafe fn f() {}\n".to_vec();
    bytes.push(0xff);
    assert_eq!(
        analyze_file(&bytes),
        Some(FileSignals {
            lines: 0,
            extern_c: 0,
            link_attr: 0,
            no_mangle: 0,
            unsafe_count: 0,
            unsafe_fn_count: 0,
            has_ffi: false,
        })
    );
}

#[test]
fn analysis_is_repeatable() {
    let src = format!("{}\nunsafe fn f() {{}}\n", foreign("\"C\"", ""));
    assert_eq!(analyze_source(&src), analyze_source(&src));
}
