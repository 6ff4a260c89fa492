//! The construct scanner: what one file contributes to the audit.
//!
//! Structural signals come from the parsed items; the line count and the two
//! `unsafe` heuristics come from the raw text and do not depend on whether the
//! text parses.

use crate::parse::{parse_items, parsed_items};
use crate::syntax::{get_attrs, Attribute, AttributeView, Item, ItemView};
use crate::text::{
    contains, count_lines, count_unsafe_blocks, decode_text, decoded, lemma_line_count_bound,
    lemma_occurrences_before_bound, lemma_unsafe_block_mentions_unsafe, line_count,
    mentions_unsafe, occurrences, unsafe_block_pattern, unsafe_word_pattern,
};
use vstd::prelude::*;
use vstd::string::*;
use vstd::utf8::*;

verus! {

/// Counts of the structural signals found among a sequence of items.
#[derive(Clone, Copy, Debug, PartialEq, Eq, Structural)]
pub struct ConstructCounts {
    /// Foreign blocks whose calling convention is `C`.
    pub extern_c: usize,
    /// Attributes named `link`.
    pub link_attr: usize,
    /// Attributes named `no_mangle`.
    pub no_mangle: usize,
    /// Functions marked unsafe.
    pub unsafe_fn_count: usize,
}

/// Mathematical view of [`ConstructCounts`], with unbounded counters.
pub struct ConstructCountsView {
    pub extern_c: nat,
    pub link_attr: nat,
    pub no_mangle: nat,
    pub unsafe_fn_count: nat,
}

impl ConstructCountsView {
    /// No signal at all.
    pub open spec fn zero() -> ConstructCountsView {
        ConstructCountsView { extern_c: 0, link_attr: 0, no_mangle: 0, unsafe_fn_count: 0 }
    }

    /// Counter by counter sum.
    pub open spec fn plus(self, other: ConstructCountsView) -> ConstructCountsView {
        ConstructCountsView {
            extern_c: self.extern_c + other.extern_c,
            link_attr: self.link_attr + other.link_attr,
            no_mangle: self.no_mangle + other.no_mangle,
            unsafe_fn_count: self.unsafe_fn_count + other.unsafe_fn_count,
        }
    }

    /// Every counter can be held in a `usize`.
    pub open spec fn fits(self) -> bool {
        &&& self.extern_c <= usize::MAX
        &&& self.link_attr <= usize::MAX
        &&& self.no_mangle <= usize::MAX
        &&& self.unsafe_fn_count <= usize::MAX
    }

    /// At least one structural signal was found.
    pub open spec fn any(self) -> bool {
        self.extern_c > 0 || self.link_attr > 0 || self.no_mangle > 0 || self.unsafe_fn_count > 0
    }

    /// No counter of `self` exceeds the same counter of `other`.
    pub open spec fn le(self, other: ConstructCountsView) -> bool {
        &&& self.extern_c <= other.extern_c
        &&& self.link_attr <= other.link_attr
        &&& self.no_mangle <= other.no_mangle
        &&& self.unsafe_fn_count <= other.unsafe_fn_count
    }
}

impl View for ConstructCounts {
    type V = ConstructCountsView;

    open spec fn view(&self) -> ConstructCountsView {
        ConstructCountsView {
            extern_c: self.extern_c as nat,
            link_attr: self.link_attr as nat,
            no_mangle: self.no_mangle as nat,
            unsafe_fn_count: self.unsafe_fn_count as nat,
        }
    }
}

/// Number of attributes in `attrs` whose path is exactly the identifier `name`.
pub open spec fn count_ident(attrs: Seq<AttributeView>, name: Seq<char>) -> nat
    decreases attrs.len(),
{
    if attrs.len() == 0 {
        0
    } else {
        count_ident(attrs.drop_last(), name) + if attrs.last().is_ident(name) {
            1nat
        } else {
            0nat
        }
    }
}

/// What a single item contributes: one for a `C` foreign block, one for an unsafe
/// function, and one for each `link` and each `no_mangle` attribute that the
/// scanner sees on the item.
pub open spec fn item_counts(item: ItemView) -> ConstructCountsView {
    ConstructCountsView {
        extern_c: if item.is_c_foreign_block() {
            1
        } else {
            0
        },
        link_attr: count_ident(item.visible_attrs(), "link"@),
        no_mangle: count_ident(item.visible_attrs(), "no_mangle"@),
        unsafe_fn_count: if item.is_unsafe_fn() {
            1
        } else {
            0
        },
    }
}

/// The structural signals of a sequence of items: the sum of what each contributes.
pub open spec fn construct_counts(items: Seq<ItemView>) -> ConstructCountsView
    decreases items.len(),
{
    if items.len() == 0 {
        ConstructCountsView::zero()
    } else {
        construct_counts(items.drop_last()).plus(item_counts(items.last()))
    }
}

/// The signals of a prefix never exceed those of the whole sequence.
pub proof fn lemma_construct_counts_prefix(items: Seq<ItemView>, k: int)
    requires
        0 <= k <= items.len(),
    ensures
        construct_counts(items.take(k)).le(construct_counts(items)),
    decreases items.len(),
{
    if k == items.len() {
        assert(items.take(k) =~= items);
    } else {
        assert(items.drop_last().take(k) =~= items.take(k));
        lemma_construct_counts_prefix(items.drop_last(), k);
    }
}

/// The signals of a sequence of items are those of the sequence without its
/// `k`-th item, plus what that item contributes.
pub proof fn lemma_construct_counts_remove(items: Seq<ItemView>, k: int)
    requires
        0 <= k < items.len(),
    ensures
        construct_counts(items) == construct_counts(items.remove(k)).plus(item_counts(items[k])),
    decreases items.len(),
{
    if k == items.len() - 1 {
        assert(items.remove(k) =~= items.drop_last());
    } else {
        let front = items.drop_last();
        lemma_construct_counts_remove(front, k);
        assert(front.remove(k) =~= items.remove(k).drop_last());
        assert(items.remove(k).last() == items.last());
    }
}

/// The signals of a sequence of items do not depend on the order in which the
/// items are visited.
pub proof fn lemma_construct_counts_any_order(a: Seq<ItemView>, b: Seq<ItemView>)
    requires
        a.to_multiset() == b.to_multiset(),
    ensures
        construct_counts(a) == construct_counts(b),
    decreases a.len(),
{
    a.to_multiset_ensures();
    b.to_multiset_ensures();
    if a.len() == 0 {
        assert(b.len() == 0);
    } else {
        let item = a.last();
        assert(a[a.len() - 1] == item);
        assert(a.contains(item));
        assert(a.to_multiset().count(item) > 0);
        assert(b.to_multiset().count(item) > 0);
        assert(b.contains(item));
        let k = choose|k: int| 0 <= k < b.len() && b[k] == item;
        assert(a.drop_last() =~= a.remove(a.len() - 1));
        assert(a.drop_last().to_multiset() =~= b.remove(k).to_multiset());
        lemma_construct_counts_any_order(a.drop_last(), b.remove(k));
        lemma_construct_counts_remove(b, k);
    }
}

impl ConstructCounts {
    /// The counts of an empty sequence of items.
    pub fn zero() -> (r: ConstructCounts)
        ensures
            r@ == ConstructCountsView::zero(),
    {
        ConstructCounts { extern_c: 0, link_attr: 0, no_mangle: 0, unsafe_fn_count: 0 }
    }

    /// Counter by counter sum, or `None` where a sum cannot be held in a `usize`.
    pub fn checked_plus(&self, other: &ConstructCounts) -> (r: Option<ConstructCounts>)
        ensures
            match r {
                Some(sum) => sum@ == self@.plus(other@),
                None => !self@.plus(other@).fits(),
            },
    {
        let extern_c = match self.extern_c.checked_add(other.extern_c) {
            Some(n) => n,
            None => { return None; },
        };
        let link_attr = match self.link_attr.checked_add(other.link_attr) {
            Some(n) => n,
            None => { return None; },
        };
        let no_mangle = match self.no_mangle.checked_add(other.no_mangle) {
            Some(n) => n,
            None => { return None; },
        };
        let unsafe_fn_count = match self.unsafe_fn_count.checked_add(other.unsafe_fn_count) {
            Some(n) => n,
            None => { return None; },
        };
        Some(ConstructCounts { extern_c, link_attr, no_mangle, unsafe_fn_count })
    }
}

/// Counts the attributes in `attrs` whose path is exactly the identifier `name`.
pub fn count_attrs_named(attrs: &[Attribute], name: &str) -> (count: usize)
    ensures
        count == count_ident(attrs.deep_view(), name@),
{
    let n: usize = attrs.len();
    let mut count: usize = 0;
    let mut j: usize = 0;
    while j < n
        invariant
            n == attrs@.len(),
            j <= n,
            count <= j,
            count == count_ident(attrs.deep_view().take(j as int), name@),
        decreases n - j,
    {
        let ghost views = attrs.deep_view();
        assert(views.take(j + 1).drop_last() =~= views.take(j as int));
        assert(views.take(j + 1).last() == attrs@[j as int]@);
        if attrs[j].is_ident(name) {
            count = count + 1;
        }
        j = j + 1;
    }
    assert(attrs.deep_view().take(n as int) =~= attrs.deep_view());
    count
}

/// Scans one item.
pub fn scan_item(item: &Item) -> (counts: ConstructCounts)
    ensures
        counts@ == item_counts(item@),
{
    let attrs = get_attrs(item);
    ConstructCounts {
        extern_c: if item.is_c_foreign_block() {
            1
        } else {
            0
        },
        link_attr: count_attrs_named(attrs, "link"),
        no_mangle: count_attrs_named(attrs, "no_mangle"),
        unsafe_fn_count: if item.is_unsafe_fn() {
            1
        } else {
            0
        },
    }
}

/// Scans the top-level items of a file. The result is `None` exactly when a
/// counter would exceed `usize::MAX`.
pub fn scan_items(items: &[Item]) -> (r: Option<ConstructCounts>)
    ensures
        match r {
            Some(counts) => counts@ == construct_counts(items.deep_view()),
            None => !construct_counts(items.deep_view()).fits(),
        },
{
    let n: usize = items.len();
    let mut total = ConstructCounts::zero();
    let mut i: usize = 0;
    while i < n
        invariant
            n == items@.len(),
            i <= n,
            total@ == construct_counts(items.deep_view().take(i as int)),
        decreases n - i,
    {
        let ghost views = items.deep_view();
        assert(views.take(i + 1).drop_last() =~= views.take(i as int));
        assert(views.take(i + 1).last() == items@[i as int]@);
        let found = scan_item(&items[i]);
        match total.checked_plus(&found) {
            Some(sum) => {
                total = sum;
            },
            None => {
                proof {
                    lemma_construct_counts_prefix(views, i + 1);
                }
                return None;
            },
        }
        i = i + 1;
    }
    assert(items.deep_view().take(n as int) =~= items.deep_view());
    Some(total)
}

/// What one file contributes to the repository's totals.
#[derive(Clone, Copy, Debug, PartialEq, Eq, Structural)]
pub struct FileSignals {
    /// Lines of text.
    pub lines: usize,
    /// Foreign blocks whose calling convention is `C`.
    pub extern_c: usize,
    /// Attributes named `link`.
    pub link_attr: usize,
    /// Attributes named `no_mangle`.
    pub no_mangle: usize,
    /// Places in the raw text where `unsafe {` stands.
    pub unsafe_count: usize,
    /// Functions marked unsafe.
    pub unsafe_fn_count: usize,
    /// Whether any signal, structural or textual, was found in the file.
    pub has_ffi: bool,
}

/// Mathematical view of [`FileSignals`], with unbounded counters.
pub struct FileSignalsView {
    pub lines: nat,
    pub extern_c: nat,
    pub link_attr: nat,
    pub no_mangle: nat,
    pub unsafe_count: nat,
    pub unsafe_fn_count: nat,
    pub has_ffi: bool,
}

impl FileSignalsView {
    /// Every counter can be held in a `usize`.
    pub open spec fn fits(self) -> bool {
        &&& self.lines <= usize::MAX
        &&& self.extern_c <= usize::MAX
        &&& self.link_attr <= usize::MAX
        &&& self.no_mangle <= usize::MAX
        &&& self.unsafe_count <= usize::MAX
        &&& self.unsafe_fn_count <= usize::MAX
    }
}

impl View for FileSignals {
    type V = FileSignalsView;

    open spec fn view(&self) -> FileSignalsView {
        FileSignalsView {
            lines: self.lines as nat,
            extern_c: self.extern_c as nat,
            link_attr: self.link_attr as nat,
            no_mangle: self.no_mangle as nat,
            unsafe_count: self.unsafe_count as nat,
            unsafe_fn_count: self.unsafe_fn_count as nat,
            has_ffi: self.has_ffi,
        }
    }
}

/// The signals of a file with raw text `text`, given the outcome of parsing it:
/// its items, or `None` where it does not parse.
///
/// Lines and the `unsafe {` count are taken from the text whatever the outcome. A
/// file that does not parse contributes no structural signal. The file is flagged
/// when any structural signal is found or the word `unsafe` stands anywhere in the
/// text.
pub open spec fn signals_of(text: Seq<u8>, items: Option<Seq<ItemView>>) -> FileSignalsView {
    let found = match items {
        Some(items) => construct_counts(items),
        None => ConstructCountsView::zero(),
    };
    FileSignalsView {
        lines: line_count(text),
        extern_c: found.extern_c,
        link_attr: found.link_attr,
        no_mangle: found.no_mangle,
        unsafe_count: occurrences(text, unsafe_block_pattern()),
        unsafe_fn_count: found.unsafe_fn_count,
        has_ffi: found.any() || contains(text, unsafe_word_pattern()),
    }
}

/// The signals of a file whose text is `content`.
pub open spec fn source_signals(content: Seq<char>) -> FileSignalsView {
    signals_of(encode_utf8(content), parsed_items(content))
}

/// The signals of a file whose raw bytes are `bytes`.
pub open spec fn file_signals(bytes: Seq<u8>) -> FileSignalsView {
    source_signals(decoded(bytes))
}

/// Neither count drawn from the text exceeds the length of the text, so the signals
/// of a file that can be held in memory fit exactly when its structural counts do.
pub proof fn lemma_text_signals_fit(text: Seq<u8>, items: Option<Seq<ItemView>>)
    requires
        text.len() <= usize::MAX,
    ensures
        signals_of(text, items).lines <= text.len(),
        signals_of(text, items).unsafe_count <= text.len(),
        signals_of(text, items).fits() <==> (items matches Some(s) ==> construct_counts(s).fits()),
{
    lemma_line_count_bound(text);
    lemma_occurrences_before_bound(text, unsafe_block_pattern(), text.len() as int);
}

/// A file in which any signal is counted is flagged: a structural signal flags it
/// by definition, and a counted `unsafe {` brings the word `unsafe` with it.
pub proof fn lemma_counted_signal_flags_file(text: Seq<u8>, items: Option<Seq<ItemView>>)
    ensures
        signals_of(text, items).unsafe_count > 0 ==> signals_of(text, items).has_ffi,
        signals_of(text, items).extern_c > 0 ==> signals_of(text, items).has_ffi,
        signals_of(text, items).link_attr > 0 ==> signals_of(text, items).has_ffi,
        signals_of(text, items).no_mangle > 0 ==> signals_of(text, items).has_ffi,
        signals_of(text, items).unsafe_fn_count > 0 ==> signals_of(text, items).has_ffi,
{
    lemma_unsafe_block_mentions_unsafe(text);
}

/// A file's line count and its `unsafe {` count do not depend on whether it parses.
pub proof fn lemma_text_signals_ignore_parse(
    text: Seq<u8>,
    a: Option<Seq<ItemView>>,
    b: Option<Seq<ItemView>>,
)
    ensures
        signals_of(text, a).lines == signals_of(text, b).lines == line_count(text),
        signals_of(text, a).unsafe_count == signals_of(text, b).unsafe_count,
{
}

/// Puts together the signals of one file from its raw text and the outcome of
/// parsing it. The result is `None` exactly when a counter would exceed
/// `usize::MAX`.
pub fn scan_file(text: &[u8], items: Option<&[Item]>) -> (r: Option<FileSignals>)
    ensures
        match r {
            Some(signals) => signals@ == signals_of(text@, items.deep_view()),
            None => !signals_of(text@, items.deep_view()).fits(),
        },
        r is Some <==> (items.deep_view() matches Some(views) ==> construct_counts(views).fits()),
{
    proof {
        vstd::slice::axiom_spec_len(text);
        lemma_text_signals_fit(text@, items.deep_view());
    }
    let found = match items {
        Some(items) => match scan_items(items) {
            Some(counts) => counts,
            None => { return None; },
        },
        None => ConstructCounts::zero(),
    };
    let textual = mentions_unsafe(text);
    let structural = found.extern_c > 0 || found.link_attr > 0 || found.no_mangle > 0
        || found.unsafe_fn_count > 0;
    Some(
        FileSignals {
            lines: count_lines(text),
            extern_c: found.extern_c,
            link_attr: found.link_attr,
            no_mangle: found.no_mangle,
            unsafe_count: count_unsafe_blocks(text),
            unsafe_fn_count: found.unsafe_fn_count,
            has_ffi: structural || textual,
        },
    )
}

/// Analyzes one file given as text: parses it and scans text and items. The result
/// is `None` exactly when the text parses and a count over its items would exceed
/// `usize::MAX`.
pub fn analyze_source(content: &str) -> (r: Option<FileSignals>)
    ensures
        match r {
            Some(signals) => signals@ == source_signals(content@),
            None => !source_signals(content@).fits(),
        },
        r is Some <==> (parsed_items(content@) matches Some(items) ==> construct_counts(
            items,
        ).fits()),
{
    let parsed = parse_items(content);
    match &parsed {
        Some(items) => {
            let items = items.as_slice();
            assert(items.deep_view() =~= parsed.deep_view()->0);
            scan_file(content.as_bytes(), Some(items))
        },
        None => scan_file(content.as_bytes(), None),
    }
}

/// Analyzes one file given as raw bytes. Bytes that are not valid UTF-8 are
/// analyzed as the empty text. The result is `None` exactly when the text parses
/// and a count over its items would exceed `usize::MAX`.
pub fn analyze_file(bytes: &[u8]) -> (r: Option<FileSignals>)
    ensures
        match r {
            Some(signals) => signals@ == file_signals(bytes@),
            None => !file_signals(bytes@).fits(),
        },
        r is Some <==> (parsed_items(decoded(bytes@)) matches Some(items) ==> construct_counts(
            items,
        ).fits()),
{
    analyze_source(decode_text(bytes))
}

} // verus!
