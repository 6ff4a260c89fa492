//! The aggregator and the classifier: repository-wide totals over the files of a
//! run, and the verdict drawn from them.

use crate::scan::{analyze_file, file_signals, FileSignals, FileSignalsView};
use vstd::prelude::*;

verus! {

/// The verdict on a repository.
#[derive(Clone, Copy, Debug, PartialEq, Eq, Structural)]
pub enum Classification {
    /// The repository declares or exports foreign symbols.
    InteropRelated,
    /// It does neither.
    Pure,
}

impl Classification {
    /// The verdict as it is written in a report.
    pub open spec fn label_text(self) -> Seq<char> {
        match self {
            Classification::InteropRelated => "interop-related"@,
            Classification::Pure => "pure"@,
        }
    }

    /// The verdict as it is written in a report: `interop-related` or `pure`.
    pub fn label(&self) -> (text: &'static str)
        ensures
            text@ == self.label_text(),
    {
        match self {
            Classification::InteropRelated => "interop-related",
            Classification::Pure => "pure",
        }
    }
}

/// The classification rule. It reads three counters and nothing else: a repository
/// is interop-related exactly when it has a `C` foreign block, a `link` attribute
/// or a `no_mangle` attribute. Unsafe code, however much of it, does not count.
pub open spec fn classify(extern_c: nat, link_attr: nat, no_mangle: nat) -> Classification {
    if extern_c > 0 || link_attr > 0 || no_mangle > 0 {
        Classification::InteropRelated
    } else {
        Classification::Pure
    }
}

/// One matched file as the aggregator sees it: its signals and its depth below the
/// root of the traversal.
pub struct FileRecord {
    pub signals: FileSignalsView,
    pub depth: nat,
}

/// The record of a file with the given signals at the given depth.
pub open spec fn file_record(signals: FileSignalsView, depth: nat) -> FileRecord {
    FileRecord { signals, depth }
}

/// Repository-wide totals of one run.
#[derive(Clone, Copy, Debug, PartialEq, Eq, Structural)]
pub struct RepoStats {
    /// Lines of text over all matched files.
    pub total_lines: usize,
    /// Foreign blocks whose calling convention is `C`.
    pub extern_c: usize,
    /// Attributes named `link`.
    pub link_attr: usize,
    /// Attributes named `no_mangle`.
    pub no_mangle: usize,
    /// Places in raw text where `unsafe {` stands.
    pub unsafe_count: usize,
    /// Functions marked unsafe.
    pub unsafe_fn_count: usize,
    /// Matched files in which any signal was found.
    pub ffi_file_count: usize,
    /// Greatest depth of a matched file; 0 when no file matched.
    pub max_depth: usize,
}

/// Mathematical view of [`RepoStats`], with unbounded counters.
pub struct RepoStatsView {
    pub total_lines: nat,
    pub extern_c: nat,
    pub link_attr: nat,
    pub no_mangle: nat,
    pub unsafe_count: nat,
    pub unsafe_fn_count: nat,
    pub ffi_file_count: nat,
    pub max_depth: nat,
}

impl RepoStatsView {
    /// The totals of a run that matched no file.
    pub open spec fn zero() -> RepoStatsView {
        RepoStatsView {
            total_lines: 0,
            extern_c: 0,
            link_attr: 0,
            no_mangle: 0,
            unsafe_count: 0,
            unsafe_fn_count: 0,
            ffi_file_count: 0,
            max_depth: 0,
        }
    }

    /// The totals after one more file: every counter grows by the file's own, the
    /// flagged-file count grows by one if the file is flagged, and the depth is the
    /// greater of the two.
    pub open spec fn absorb(self, file: FileRecord) -> RepoStatsView {
        RepoStatsView {
            total_lines: self.total_lines + file.signals.lines,
            extern_c: self.extern_c + file.signals.extern_c,
            link_attr: self.link_attr + file.signals.link_attr,
            no_mangle: self.no_mangle + file.signals.no_mangle,
            unsafe_count: self.unsafe_count + file.signals.unsafe_count,
            unsafe_fn_count: self.unsafe_fn_count + file.signals.unsafe_fn_count,
            ffi_file_count: self.ffi_file_count + if file.signals.has_ffi {
                1nat
            } else {
                0nat
            },
            max_depth: if file.depth > self.max_depth {
                file.depth
            } else {
                self.max_depth
            },
        }
    }

    /// Every total can be held in a `usize`.
    pub open spec fn fits(self) -> bool {
        &&& self.total_lines <= usize::MAX
        &&& self.extern_c <= usize::MAX
        &&& self.link_attr <= usize::MAX
        &&& self.no_mangle <= usize::MAX
        &&& self.unsafe_count <= usize::MAX
        &&& self.unsafe_fn_count <= usize::MAX
        &&& self.ffi_file_count <= usize::MAX
        &&& self.max_depth <= usize::MAX
    }

    /// No total of `self` exceeds the same total of `other`.
    pub open spec fn le(self, other: RepoStatsView) -> bool {
        &&& self.total_lines <= other.total_lines
        &&& self.extern_c <= other.extern_c
        &&& self.link_attr <= other.link_attr
        &&& self.no_mangle <= other.no_mangle
        &&& self.unsafe_count <= other.unsafe_count
        &&& self.unsafe_fn_count <= other.unsafe_fn_count
        &&& self.ffi_file_count <= other.ffi_file_count
        &&& self.max_depth <= other.max_depth
    }

    /// The verdict that these totals give.
    pub open spec fn classification(self) -> Classification {
        classify(self.extern_c, self.link_attr, self.no_mangle)
    }
}

impl View for RepoStats {
    type V = RepoStatsView;

    open spec fn view(&self) -> RepoStatsView {
        RepoStatsView {
            total_lines: self.total_lines as nat,
            extern_c: self.extern_c as nat,
            link_attr: self.link_attr as nat,
            no_mangle: self.no_mangle as nat,
            unsafe_count: self.unsafe_count as nat,
            unsafe_fn_count: self.unsafe_fn_count as nat,
            ffi_file_count: self.ffi_file_count as nat,
            max_depth: self.max_depth as nat,
        }
    }
}

/// The totals of a run over `files`.
pub open spec fn summarize(files: Seq<FileRecord>) -> RepoStatsView
    decreases files.len(),
{
    if files.len() == 0 {
        RepoStatsView::zero()
    } else {
        summarize(files.drop_last()).absorb(files.last())
    }
}

/// The sum of the line counts of `files`.
pub open spec fn total_lines(files: Seq<FileRecord>) -> nat
    decreases files.len(),
{
    if files.len() == 0 {
        0
    } else {
        total_lines(files.drop_last()) + files.last().signals.lines
    }
}

impl RepoStats {
    /// The totals of a run that matched no file.
    pub fn new() -> (stats: RepoStats)
        ensures
            stats@ == RepoStatsView::zero(),
    {
        RepoStats {
            total_lines: 0,
            extern_c: 0,
            link_attr: 0,
            no_mangle: 0,
            unsafe_count: 0,
            unsafe_fn_count: 0,
            ffi_file_count: 0,
            max_depth: 0,
        }
    }

    /// Classifies the totals: interop-related exactly when at least one of
    /// `extern_c`, `link_attr` and `no_mangle` is not zero.
    pub fn classification(&self) -> (verdict: Classification)
        ensures
            verdict == self@.classification(),
            verdict == Classification::InteropRelated <==> (self.extern_c > 0 || self.link_attr > 0
                || self.no_mangle > 0),
    {
        if self.extern_c > 0 || self.link_attr > 0 || self.no_mangle > 0 {
            Classification::InteropRelated
        } else {
            Classification::Pure
        }
    }

    /// The totals after one more file with the given signals at the given depth,
    /// or `None` exactly when a total would exceed `usize::MAX`.
    pub fn checked_absorb(&self, signals: &FileSignals, depth: usize) -> (r: Option<RepoStats>)
        ensures
            match r {
                Some(stats) => stats@ == self@.absorb(file_record(signals@, depth as nat)),
                None => !self@.absorb(file_record(signals@, depth as nat)).fits(),
            },
    {
        let total_lines = match self.total_lines.checked_add(signals.lines) {
            Some(n) => n,
            None => { return None; },
        };
        let extern_c = match self.extern_c.checked_add(signals.extern_c) {
            Some(n) => n,
            None => { return None; },
        };
        let link_attr = match self.link_attr.checked_add(signals.link_attr) {
            Some(n) => n,
            None => { return None; },
        };
        let no_mangle = match self.no_mangle.checked_add(signals.no_mangle) {
            Some(n) => n,
            None => { return None; },
        };
        let unsafe_count = match self.unsafe_count.checked_add(signals.unsafe_count) {
            Some(n) => n,
            None => { return None; },
        };
        let unsafe_fn_count = match self.unsafe_fn_count.checked_add(signals.unsafe_fn_count) {
            Some(n) => n,
            None => { return None; },
        };
        let flagged: usize = if signals.has_ffi {
            1
        } else {
            0
        };
        let ffi_file_count = match self.ffi_file_count.checked_add(flagged) {
            Some(n) => n,
            None => { return None; },
        };
        let max_depth = if depth > self.max_depth {
            depth
        } else {
            self.max_depth
        };
        Some(
            RepoStats {
                total_lines,
                extern_c,
                link_attr,
                no_mangle,
                unsafe_count,
                unsafe_fn_count,
                ffi_file_count,
                max_depth,
            },
        )
    }
}


/// One more file turns the totals of a run into the totals of the longer run.
pub proof fn lemma_summarize_push(files: Seq<FileRecord>, file: FileRecord)
    ensures
        summarize(files.push(file)) == summarize(files).absorb(file),
{
    assert(files.push(file).drop_last() =~= files);
}

/// It does not matter which of two files is absorbed first.
pub proof fn lemma_absorb_commutes(totals: RepoStatsView, first: FileRecord, second: FileRecord)
    ensures
        totals.absorb(first).absorb(second) == totals.absorb(second).absorb(first),
{
}

/// The totals of a run are those of the run without its `k`-th file, with that
/// file absorbed last.
pub proof fn lemma_summarize_remove(files: Seq<FileRecord>, k: int)
    requires
        0 <= k < files.len(),
    ensures
        summarize(files) == summarize(files.remove(k)).absorb(files[k]),
    decreases files.len(),
{
    if k == files.len() - 1 {
        assert(files.remove(k) =~= files.drop_last());
    } else {
        let front = files.drop_last();
        lemma_summarize_remove(front, k);
        assert(front.remove(k) =~= files.remove(k).drop_last());
        assert(files.remove(k).last() == files.last());
        lemma_absorb_commutes(summarize(front.remove(k)), files[k], files.last());
    }
}

/// The totals of the first `k` files of a run never exceed the totals of the run.
pub proof fn lemma_summarize_prefix(files: Seq<FileRecord>, k: int)
    requires
        0 <= k <= files.len(),
    ensures
        summarize(files.take(k)).le(summarize(files)),
    decreases files.len(),
{
    if k == files.len() {
        assert(files.take(k) =~= files);
    } else {
        assert(files.drop_last().take(k) =~= files.take(k));
        lemma_summarize_prefix(files.drop_last(), k);
    }
}

/// The totals of two runs taken together are the sums of their totals, with the
/// greater of the two depths.
pub proof fn lemma_summarize_concat(a: Seq<FileRecord>, b: Seq<FileRecord>)
    ensures
        summarize(a + b).total_lines == summarize(a).total_lines + summarize(b).total_lines,
        summarize(a + b).extern_c == summarize(a).extern_c + summarize(b).extern_c,
        summarize(a + b).link_attr == summarize(a).link_attr + summarize(b).link_attr,
        summarize(a + b).no_mangle == summarize(a).no_mangle + summarize(b).no_mangle,
        summarize(a + b).unsafe_count == summarize(a).unsafe_count + summarize(b).unsafe_count,
        summarize(a + b).unsafe_fn_count == summarize(a).unsafe_fn_count + summarize(
            b,
        ).unsafe_fn_count,
        summarize(a + b).ffi_file_count == summarize(a).ffi_file_count + summarize(
            b,
        ).ffi_file_count,
        summarize(a + b).max_depth == if summarize(a).max_depth >= summarize(b).max_depth {
            summarize(a).max_depth
        } else {
            summarize(b).max_depth
        },
    decreases b.len(),
{
    if b.len() == 0 {
        assert(a + b =~= a);
    } else {
        assert((a + b).drop_last() =~= a + b.drop_last());
        assert((a + b).last() == b.last());
        lemma_summarize_concat(a, b.drop_last());
    }
}

/// The line total of a run is the exact sum of the line counts of its files. Each
/// file's line count is that of its text, whether or not the text parses.
pub proof fn lemma_total_lines_is_sum(files: Seq<FileRecord>)
    ensures
        summarize(files).total_lines == total_lines(files),
    decreases files.len(),
{
    if files.len() > 0 {
        lemma_total_lines_is_sum(files.drop_last());
    }
}

/// No more files are flagged than were matched.
pub proof fn lemma_flagged_files_bound(files: Seq<FileRecord>)
    ensures
        summarize(files).ffi_file_count <= files.len(),
    decreases files.len(),
{
    if files.len() > 0 {
        lemma_flagged_files_bound(files.drop_last());
    }
}

/// The depth total of a run is the greatest depth among its files: no file lies
/// deeper, some file lies that deep, and it is 0 when no file matched.
pub proof fn lemma_max_depth_is_greatest(files: Seq<FileRecord>)
    ensures
        files.len() == 0 ==> summarize(files).max_depth == 0,
        forall|i: int| 0 <= i < files.len() ==> (#[trigger] files[i]).depth <= summarize(
            files,
        ).max_depth,
        files.len() > 0 ==> exists|i: int|
            0 <= i < files.len() && (#[trigger] files[i]).depth == summarize(files).max_depth,
    decreases files.len(),
{
    if files.len() > 0 {
        let front = files.drop_last();
        lemma_max_depth_is_greatest(front);
        assert forall|i: int| 0 <= i < files.len() implies (#[trigger] files[i]).depth
            <= summarize(files).max_depth by {
            if i < front.len() {
                assert(front[i] == files[i]);
            }
        }
        if files.last().depth > summarize(front).max_depth || front.len() == 0 {
            assert(files[files.len() - 1].depth == summarize(files).max_depth);
        } else {
            let i = choose|i: int|
                0 <= i < front.len() && (#[trigger] front[i]).depth == summarize(front).max_depth;
            assert(files[i].depth == summarize(files).max_depth);
        }
    }
}

/// The verdict reads the three interop counters only: totals that agree on them
/// get the same verdict, whatever their unsafe counters are. It is
/// `InteropRelated` exactly when one of the three is not zero.
pub proof fn lemma_classification_reads_three_counters(a: RepoStatsView, b: RepoStatsView)
    ensures
        a.classification() == Classification::InteropRelated <==> (a.extern_c > 0 || a.link_attr
            > 0 || a.no_mangle > 0),
        a.classification() == Classification::Pure <==> (a.extern_c == 0 && a.link_attr == 0
            && a.no_mangle == 0),
        (a.extern_c == b.extern_c && a.link_attr == b.link_attr && a.no_mangle == b.no_mangle)
            ==> a.classification() == b.classification(),
{
}

/// The totals of a run depend on which files were matched, not on the order in
/// which they were visited.
pub proof fn lemma_summarize_any_order(a: Seq<FileRecord>, b: Seq<FileRecord>)
    requires
        a.to_multiset() == b.to_multiset(),
    ensures
        summarize(a) == summarize(b),
    decreases a.len(),
{
    a.to_multiset_ensures();
    b.to_multiset_ensures();
    if a.len() == 0 {
        assert(b.len() == 0);
    } else {
        let file = a.last();
        assert(a[a.len() - 1] == file);
        assert(a.contains(file));
        assert(a.to_multiset().count(file) > 0);
        assert(b.to_multiset().count(file) > 0);
        assert(b.contains(file));
        let k = choose|k: int| 0 <= k < b.len() && b[k] == file;
        assert(a.drop_last() =~= a.remove(a.len() - 1));
        assert(a.drop_last().to_multiset() =~= b.remove(k).to_multiset());
        lemma_summarize_any_order(a.drop_last(), b.remove(k));
        lemma_summarize_remove(b, k);
    }
}

/// Two runs over the same files, visited in any order, end with identical totals
/// and the same verdict.
pub proof fn lemma_runs_agree(
    a: Seq<FileRecord>,
    b: Seq<FileRecord>,
    first: RepoStats,
    second: RepoStats,
)
    requires
        a.to_multiset() == b.to_multiset(),
        first@ == summarize(a),
        second@ == summarize(b),
    ensures
        first == second,
        first@.classification() == second@.classification(),
{
    lemma_summarize_any_order(a, b);
}

/// The running totals of one run, together with the files recorded so far.
///
/// The totals always equal [`summarize`] of the recorded files, so everything
/// proved of `summarize` holds in every state of a run.
pub struct Aggregator {
    stats: RepoStats,
    seen: Ghost<Seq<FileRecord>>,
}

impl Aggregator {
    #[verifier::type_invariant]
    spec fn consistent(&self) -> bool {
        self.stats@ == summarize(self.seen@)
    }

    /// The files recorded so far, in the order in which they were recorded.
    pub closed spec fn history(&self) -> Seq<FileRecord> {
        self.seen@
    }

    /// An aggregator that has recorded no file.
    pub fn new() -> (agg: Aggregator)
        ensures
            agg.history() == Seq::<FileRecord>::empty(),
    {
        Aggregator { stats: RepoStats::new(), seen: Ghost(Seq::empty()) }
    }

    /// The totals over the files recorded so far. In every state of a run the line
    /// total is the exact sum of the recorded files' line counts, and no more files
    /// are flagged than were recorded.
    pub fn stats(&self) -> (stats: RepoStats)
        ensures
            stats@ == summarize(self.history()),
            stats@.total_lines == total_lines(self.history()),
            stats.ffi_file_count <= self.history().len(),
    {
        proof {
            use_type_invariant(self);
            lemma_total_lines_is_sum(self.seen@);
            lemma_flagged_files_bound(self.seen@);
        }
        self.stats
    }

    /// Records one file with the given signals at the given depth. Returns `false`,
    /// and records nothing, exactly when a total would exceed `usize::MAX`.
    pub fn record(&mut self, signals: &FileSignals, depth: usize) -> (ok: bool)
        ensures
            ok <==> summarize(
                old(self).history().push(file_record(signals@, depth as nat)),
            ).fits(),
            ok ==> final(self).history() == old(self).history().push(
                file_record(signals@, depth as nat),
            ),
            !ok ==> final(self).history() == old(self).history(),
    {
        proof {
            use_type_invariant(&*self);
            lemma_summarize_push(self.seen@, file_record(signals@, depth as nat));
        }
        match self.stats.checked_absorb(signals, depth) {
            Some(stats) => {
                let ghost seen = self.seen@.push(file_record(signals@, depth as nat));
                *self = Aggregator { stats, seen: Ghost(seen) };
                true
            },
            None => false,
        }
    }

    /// Analyzes the raw bytes of one file found at the given depth and records it.
    /// Returns `false`, and records nothing, exactly when a total would exceed
    /// `usize::MAX`.
    pub fn record_file(&mut self, bytes: &[u8], depth: usize) -> (ok: bool)
        ensures
            ok <==> summarize(
                old(self).history().push(file_record(file_signals(bytes@), depth as nat)),
            ).fits(),
            ok ==> final(self).history() == old(self).history().push(
                file_record(file_signals(bytes@), depth as nat),
            ),
            !ok ==> final(self).history() == old(self).history(),
    {
        match analyze_file(bytes) {
            Some(signals) => self.record(&signals, depth),
            None => {
                proof {
                    lemma_summarize_push(
                        self.seen@,
                        file_record(file_signals(bytes@), depth as nat),
                    );
                }
                false
            },
        }
    }
}

/// A matched file as the enumerator hands it over.
#[derive(Clone, Debug)]
pub struct SourceFile {
    /// The file's raw bytes; empty where the file could not be read.
    pub bytes: Vec<u8>,
    /// The file's depth below the root of the traversal; the root itself is 0.
    pub depth: usize,
}

impl SourceFile {
    /// What the file contributes to a run.
    pub open spec fn record(self) -> FileRecord {
        file_record(file_signals(self.bytes@), self.depth as nat)
    }
}

/// The records of a sequence of matched files.
pub open spec fn repo_records(files: Seq<SourceFile>) -> Seq<FileRecord> {
    Seq::new(files.len(), |i: int| files[i].record())
}

/// Analyzes every file of a run and returns the totals, or `None` exactly when a
/// total would exceed `usize::MAX`.
///
/// The totals are those of [`summarize`]: the line total is the exact sum of the
/// files' line counts, no more files are flagged than were given, and the depth is
/// the greatest among them, 0 for no file.
pub fn analyze_repo(files: &[SourceFile]) -> (r: Option<RepoStats>)
    ensures
        match r {
            Some(stats) => {
                &&& stats@ == summarize(repo_records(files@))
                &&& stats@.total_lines == total_lines(repo_records(files@))
                &&& stats.ffi_file_count <= files@.len()
                &&& files@.len() == 0 ==> stats.max_depth == 0
                &&& forall|i: int| 0 <= i < files@.len() ==> (#[trigger] files@[i]).depth
                    <= stats.max_depth
                &&& files@.len() > 0 ==> exists|i: int|
                    0 <= i < files@.len() && (#[trigger] files@[i]).depth == stats.max_depth
            },
            None => !summarize(repo_records(files@)).fits(),
        },
{
    let ghost records = repo_records(files@);
    let n: usize = files.len();
    let mut agg = Aggregator::new();
    let mut i: usize = 0;
    while i < n
        invariant
            n == files@.len(),
            i <= n,
            records == repo_records(files@),
            agg.history() == records.take(i as int),
        decreases n - i,
    {
        assert(records.take(i + 1) =~= records.take(i as int).push(records[i as int]));
        let file = &files[i];
        if !agg.record_file(file.bytes.as_slice(), file.depth) {
            proof {
                lemma_summarize_prefix(records, i + 1);
            }
            return None;
        }
        i = i + 1;
    }
    let stats = agg.stats();
    proof {
        assert(records.take(n as int) =~= records);
        lemma_max_depth_is_greatest(records);
        assert forall|i: int| 0 <= i < files@.len() implies (#[trigger] files@[i]).depth
            <= stats.max_depth by {
            assert(records[i].depth == files@[i].depth);
        }
        if files@.len() > 0 {
            let i = choose|i: int|
                0 <= i < records.len() && (#[trigger] records[i]).depth == summarize(
                    records,
                ).max_depth;
            assert(files@[i].depth == stats.max_depth);
        }
    }
    Some(stats)
}

} // verus!
