//! Converts sparse per-line events (diagnostics, change hunks) into dense
//! per-line intensity arrays with one entry per buffer line.

use vstd::prelude::*;

verus! {

/// Space reserved up front for a typical buffer; a performance hint only.
pub const LINE_CAPACITY: usize = 500;

/// A per-line intensity value: `0` means no signal, larger values are
/// ordinal severity / recency codes.
pub type Highlight = u64;

/// One intensity entry per buffer line, 0-indexed.
pub type Highlights = Vec<Highlight>;

/// Anything that can report a dense per-line intensity snapshot.
pub trait Highlighter {
    /// The intensity sequence that `highlight` returns.
    spec fn hl_model(&self) -> Seq<Highlight>;

    fn highlight(&self) -> (r: Highlights)
        ensures
            r@ == self.hl_model(),
    ;
}

/// Severity of a diagnostic; `Clear` means no diagnostic on the line.
#[derive(Debug, Clone, Copy, PartialEq, Eq, Structural)]
pub enum DiagnosticLevel {
    Clear,
    Warning,
    Danger,
}

impl Default for DiagnosticLevel {
    fn default() -> (r: Self)
        ensures
            r == DiagnosticLevel::Clear,
    {
        DiagnosticLevel::Clear
    }
}

/// The numeric code that `highlight` reports for a diagnostic level.
pub open spec fn level_code(l: DiagnosticLevel) -> Highlight {
    match l {
        DiagnosticLevel::Clear => 0,
        DiagnosticLevel::Warning => 1,
        DiagnosticLevel::Danger => 2,
    }
}

pub open spec fn level_codes(v: Seq<DiagnosticLevel>) -> Seq<Highlight> {
    v.map_values(|l: DiagnosticLevel| level_code(l))
}

/// A single-line annotation supplied by the host editor.
#[derive(Debug)]
pub struct Diagnostic {
    /// 0-based index of the line the annotation targets.
    pub i: usize,
    pub text: String,
    pub level: DiagnosticLevel,
}

/// One diagnostic applied to the dense array: it overwrites its line when
/// the line is in range and changes nothing otherwise.
pub open spec fn apply_diag(v: Seq<DiagnosticLevel>, d: Diagnostic) -> Seq<DiagnosticLevel> {
    if d.i < v.len() {
        v.update(d.i as int, d.level)
    } else {
        v
    }
}

/// The dense diagnostic array after syncing `diags` against a buffer of
/// `len` lines: every line starts at `Clear`, then each in-range diagnostic
/// overwrites its line in input order, so the last one targeting a line
/// wins; out-of-range diagnostics are silently dropped.
pub open spec fn diag_fold(len: nat, diags: Seq<Diagnostic>) -> Seq<DiagnosticLevel>
    decreases diags.len(),
{
    if diags.len() == 0 {
        Seq::new(len, |i: int| DiagnosticLevel::Clear)
    } else {
        apply_diag(diag_fold(len, diags.drop_last()), diags.last())
    }
}

pub proof fn lemma_diag_fold_len(len: nat, diags: Seq<Diagnostic>)
    ensures
        diag_fold(len, diags).len() == len,
    decreases diags.len(),
{
    if diags.len() > 0 {
        lemma_diag_fold_len(len, diags.drop_last());
    }
}

/// Tracks the per-line diagnostic levels of the last sync.
#[derive(Debug)]
pub struct DiagnosticsHighlighter {
    values: Vec<DiagnosticLevel>,
}

impl View for DiagnosticsHighlighter {
    type V = Seq<DiagnosticLevel>;

    closed spec fn view(&self) -> Seq<DiagnosticLevel> {
        self.values@
    }
}

impl Default for DiagnosticsHighlighter {
    fn default() -> (r: Self)
        ensures
            r@ == Seq::<DiagnosticLevel>::empty(),
    {
        DiagnosticsHighlighter { values: Vec::with_capacity(LINE_CAPACITY) }
    }
}

impl DiagnosticsHighlighter {
    /// Fully replaces the dense array: exactly `len` entries afterwards,
    /// regardless of the previous state.
    pub fn sync(&mut self, len: usize, diags: Vec<Diagnostic>)
        ensures
            final(self)@ == diag_fold(len as nat, diags@),
            final(self)@.len() == len,
    {
        self.values.clear();
        let mut i: usize = 0;
        while i < len
            invariant
                i <= len,
                self.values@ =~= Seq::new(i as nat, |k: int| DiagnosticLevel::Clear),
            decreases len - i,
        {
            self.values.push(DiagnosticLevel::Clear);
            i += 1;
        }
        assert(self.values@ =~= diag_fold(len as nat, diags@.take(0)));
        let mut d: usize = 0;
        while d < diags.len()
            invariant
                d <= diags.len(),
                self.values@.len() == len,
                self.values@ == diag_fold(len as nat, diags@.take(d as int)),
            decreases diags.len() - d,
        {
            let line = diags[d].i;
            if line < len {
                let level = diags[d].level;
                self.values[line] = level;
            }
            proof {
                assert(diags@.take(d + 1).drop_last() =~= diags@.take(d as int));
                assert(diags@.take(d + 1).last() == diags@[d as int]);
            }
            d += 1;
        }
        proof {
            assert(diags@.take(diags@.len() as int) =~= diags@);
        }
    }
}

impl Highlighter for DiagnosticsHighlighter {
    open spec fn hl_model(&self) -> Seq<Highlight> {
        level_codes(self@)
    }

    fn highlight(&self) -> (r: Highlights) {
        let mut r: Highlights = Vec::new();
        let mut i: usize = 0;
        while i < self.values.len()
            invariant
                i <= self.values.len(),
                r@.len() == i,
                forall|k: int| 0 <= k < i ==> r@[k] == level_code(self.values@[k]),
            decreases self.values.len() - i,
        {
            let code: Highlight = match self.values[i] {
                DiagnosticLevel::Clear => 0,
                DiagnosticLevel::Warning => 1,
                DiagnosticLevel::Danger => 2,
            };
            r.push(code);
            i += 1;
        }
        proof {
            assert(r@ =~= level_codes(self@));
        }
        r
    }
}

/// The last in-range diagnostic that targets a line decides its level and
/// its reported code.
pub proof fn lemma_last_diagnostic_wins(len: nat, diags: Seq<Diagnostic>, k: int)
    requires
        0 <= k < diags.len(),
        diags[k].i < len,
        forall|j: int| k < j < diags.len() ==> diags[j].i != diags[k].i,
    ensures
        diag_fold(len, diags)[diags[k].i as int] == diags[k].level,
        level_codes(diag_fold(len, diags))[diags[k].i as int] == level_code(diags[k].level),
    decreases diags.len(),
{
    lemma_diag_fold_len(len, diags);
    lemma_diag_fold_len(len, diags.drop_last());
    if k == diags.len() - 1 {
    } else {
        lemma_last_diagnostic_wins(len, diags.drop_last(), k);
    }
}

/// A contiguous run of `len` changed lines beginning at line `i`.
#[derive(Debug)]
pub struct Change {
    /// 0-based index of the first changed line.
    pub i: usize,
    /// Number of lines in the run.
    pub len: usize,
}

/// One change hunk applied to the dense array: every line of the run that
/// is in range is marked; overlapping hunks are idempotent.
pub open spec fn apply_change(v: Seq<bool>, c: Change) -> Seq<bool> {
    Seq::new(v.len(), |j: int| if c.i <= j < c.i + c.len { true } else { v[j] })
}

/// The dense changed-line array after syncing `changes` against a buffer
/// of `len` lines: every line starts unmarked, then each hunk marks its run.
pub open spec fn change_fold(len: nat, changes: Seq<Change>) -> Seq<bool>
    decreases changes.len(),
{
    if changes.len() == 0 {
        Seq::new(len, |i: int| false)
    } else {
        apply_change(change_fold(len, changes.drop_last()), changes.last())
    }
}

pub open spec fn bool_codes(v: Seq<bool>) -> Seq<Highlight> {
    v.map_values(|b: bool| if b { 1u64 } else { 0u64 })
}

/// Tracks which lines the last sync marked as changed.
#[derive(Debug)]
pub struct ChangeHighlighter {
    values: Vec<bool>,
}

impl View for ChangeHighlighter {
    type V = Seq<bool>;

    closed spec fn view(&self) -> Seq<bool> {
        self.values@
    }
}

impl Default for ChangeHighlighter {
    fn default() -> (r: Self)
        ensures
            r@ == Seq::<bool>::empty(),
    {
        ChangeHighlighter { values: Vec::with_capacity(LINE_CAPACITY) }
    }
}

impl ChangeHighlighter {
    /// Fully replaces the dense array: exactly `len` entries afterwards,
    /// regardless of the previous state.
    pub fn sync(&mut self, len: usize, changes: Vec<Change>)
        requires
            forall|k: int|
                0 <= k < changes@.len() ==> (#[trigger] changes@[k]).i + changes@[k].len
                    <= usize::MAX,
        ensures
            final(self)@ == change_fold(len as nat, changes@),
            final(self)@.len() == len,
    {
        self.values.clear();
        let mut i: usize = 0;
        while i < len
            invariant
                i <= len,
                self.values@ =~= Seq::new(i as nat, |k: int| false),
            decreases len - i,
        {
            self.values.push(false);
            i += 1;
        }
        assert(self.values@ =~= change_fold(len as nat, changes@.take(0)));
        let mut c: usize = 0;
        while c < changes.len()
            invariant
                c <= changes.len(),
                self.values@.len() == len,
                self.values@ == change_fold(len as nat, changes@.take(c as int)),
                forall|k: int|
                    0 <= k < changes@.len() ==> (#[trigger] changes@[k]).i + changes@[k].len
                        <= usize::MAX,
            decreases changes.len() - c,
        {
            let ghost prev = self.values@;
            let start = changes[c].i;
            let end = start + changes[c].len;
            let mut j = start;
            while j < end
                invariant
                    start <= j <= end,
                    self.values@.len() == len,
                    forall|q: int|
                        0 <= q < len ==> self.values@[q] == (if start <= q < j {
                            true
                        } else {
                            prev[q]
                        }),
            decreases end - j,
            {
                if j < len {
                    self.values[j] = true;
                }
                j += 1;
            }
            proof {
                assert(self.values@ =~= apply_change(prev, changes@[c as int]));
                assert(changes@.take(c + 1).drop_last() =~= changes@.take(c as int));
                assert(changes@.take(c + 1).last() == changes@[c as int]);
            }
            c += 1;
        }
        proof {
            assert(changes@.take(changes@.len() as int) =~= changes@);
        }
    }
}

impl Highlighter for ChangeHighlighter {
    open spec fn hl_model(&self) -> Seq<Highlight> {
        bool_codes(self@)
    }

    fn highlight(&self) -> (r: Highlights) {
        let mut r: Highlights = Vec::new();
        let mut i: usize = 0;
        while i < self.values.len()
            invariant
                i <= self.values.len(),
                r@.len() == i,
                forall|k: int|
                    0 <= k < i ==> r@[k] == (if self.values@[k] {
                        1u64
                    } else {
                        0u64
                    }),
            decreases self.values.len() - i,
        {
            let code: Highlight = if self.values[i] {
                1
            } else {
                0
            };
            r.push(code);
            i += 1;
        }
        proof {
            assert(r@ =~= bool_codes(self@));
        }
        r
    }
}

/// After a sync with an empty change list, every line reports intensity `0`.
pub proof fn lemma_sync_no_changes_all_zero(len: nat)
    ensures
        bool_codes(change_fold(len, Seq::<Change>::empty())) == Seq::new(len, |i: int| 0u64),
{
    assert(bool_codes(change_fold(len, Seq::<Change>::empty())) =~= Seq::new(
        len,
        |i: int| 0u64,
    ));
}

/// A diagnostic whose line is outside the buffer has no effect at all.
pub proof fn lemma_out_of_range_diagnostic_dropped(len: nat, diags: Seq<Diagnostic>, k: int)
    requires
        0 <= k < diags.len(),
        diags[k].i >= len,
    ensures
        diag_fold(len, diags) == diag_fold(len, diags.remove(k)),
    decreases diags.len(),
{
    lemma_diag_fold_len(len, diags.drop_last());
    if k == diags.len() - 1 {
        assert(diags.remove(k) =~= diags.drop_last());
    } else {
        lemma_out_of_range_diagnostic_dropped(len, diags.drop_last(), k);
        assert(diags.drop_last().remove(k) =~= diags.remove(k).drop_last());
        assert(diags.remove(k).last() == diags.last());
    }
}

} // verus!
