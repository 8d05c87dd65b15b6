//! The picomap stage: aggregates a dense intensity array into
//! half-character blocks, downsamples it to a fixed number of display
//! rows, and renders each row as one short string with an overlay marker.

use vstd::prelude::*;
use vstd::arithmetic::div_mod::{
    lemma_div_is_ordered, lemma_div_pos_is_pos, lemma_multiply_divide_le, lemma_multiply_divide_lt,
};
use vstd::arithmetic::mul::{
    lemma_mul_inequality, lemma_mul_nonnegative, lemma_mul_strict_inequality,
    lemma_mul_upper_bound,
};
use crate::highlighter::{Highlight, Highlights};

verus! {

/// Which of the two source half-lines folded into a display position
/// carry signal: the previous line (`Top`), the current line (`Bottom`),
/// both (`Full`) or neither (`Empty`).
#[derive(Debug, Clone, Copy, PartialEq, Eq, Structural)]
pub enum Block {
    Empty,
    Top,
    Bottom,
    Full,
}

impl Block {
    pub open spec fn has_top(self) -> bool {
        self == Block::Top || self == Block::Full
    }

    pub open spec fn has_bottom(self) -> bool {
        self == Block::Bottom || self == Block::Full
    }

    /// The block with exactly the given halves.
    pub open spec fn from_halves(top: bool, bottom: bool) -> Block {
        if top && bottom {
            Block::Full
        } else if top {
            Block::Top
        } else if bottom {
            Block::Bottom
        } else {
            Block::Empty
        }
    }

    /// The combination of two blocks keeps every half that either carries.
    pub open spec fn union_spec(self, other: Block) -> Block {
        Block::from_halves(
            self.has_top() || other.has_top(),
            self.has_bottom() || other.has_bottom(),
        )
    }

    /// Combines two blocks; the explicit OR of the two half flags.
    pub fn union(self, other: Block) -> (r: Block)
        ensures
            r == self.union_spec(other),
    {
        let top = self == Block::Top || self == Block::Full || other == Block::Top || other
            == Block::Full;
        let bottom = self == Block::Bottom || self == Block::Full || other == Block::Bottom
            || other == Block::Full;
        if top && bottom {
            Block::Full
        } else if top {
            Block::Top
        } else if bottom {
            Block::Bottom
        } else {
            Block::Empty
        }
    }

    /// The glyph a block is rendered as.
    pub open spec fn glyph_spec(self) -> char {
        match self {
            Block::Full => '▌',
            Block::Top => '▘',
            Block::Bottom => '▖',
            Block::Empty => ' ',
        }
    }

    pub fn glyph(self) -> (c: char)
        ensures
            c == self.glyph_spec(),
    {
        match self {
            Block::Full => '▌',
            Block::Top => '▘',
            Block::Bottom => '▖',
            Block::Empty => ' ',
        }
    }
}

/// The aggregated entry for line `i` of a dense intensity array. Entry 0
/// only reflects line 0 itself. For `i >= 1` the flags say whether the
/// previous line (`Top`) and/or the current line (`Bottom`) carry signal,
/// and the intensity is the current line's where it is non-zero, else the
/// previous line's.
pub open spec fn line_entry(h: Seq<Highlight>, i: int) -> (Block, Highlight) {
    if i == 0 {
        if h[0] > 0 {
            (Block::Full, h[0])
        } else {
            (Block::Empty, 0u64)
        }
    } else {
        let prev = h[i - 1];
        let curr = h[i];
        (
            Block::from_halves(prev > 0, curr > 0),
            if curr > 0 {
                curr
            } else if prev > 0 {
                prev
            } else {
                0u64
            },
        )
    }
}

/// The aggregated line of a dense intensity array, entry by entry.
pub open spec fn line_of(h: Seq<Highlight>) -> Seq<(Block, Highlight)> {
    Seq::new(h.len(), |i: int| line_entry(h, i))
}

/// An aggregated line: one `(flags, intensity)` pair per buffer line.
#[derive(Debug)]
pub struct Line {
    values: Vec<(Block, Highlight)>,
}

impl View for Line {
    type V = Seq<(Block, Highlight)>;

    closed spec fn view(&self) -> Seq<(Block, Highlight)> {
        self.values@
    }
}

impl Line {
    /// Aggregates a non-empty dense intensity array pairwise into blocks.
    pub fn new(highlights: &[Highlight]) -> (r: Line)
        requires
            highlights@.len() >= 1,
        ensures
            r@ == line_of(highlights@),
            r@.len() == highlights@.len(),
    {
        let len = highlights.len();
        let mut values: Vec<(Block, Highlight)> = Vec::with_capacity(len);
        let first = if highlights[0] > 0 {
            (Block::Full, highlights[0])
        } else {
            (Block::Empty, 0u64)
        };
        values.push(first);
        let mut i: usize = 1;
        while i < len
            invariant
                1 <= i <= len,
                len == highlights@.len(),
                values@.len() == i,
                forall|k: int| 0 <= k < i ==> values@[k] == line_entry(highlights@, k),
            decreases len - i,
        {
            let prev = highlights[i - 1];
            let curr = highlights[i];
            let mut block = Block::Empty;
            let mut hl: Highlight = 0;
            if prev > 0 {
                block = block.union(Block::Top);
                hl = prev;
            }
            if curr > 0 {
                block = block.union(Block::Bottom);
                hl = curr;
            }
            values.push((block, hl));
            i += 1;
        }
        proof {
            assert(values@ =~= line_of(highlights@));
        }
        Line { values }
    }

    /// Number of aggregated entries.
    pub fn len(&self) -> (n: usize)
        ensures
            n == self@.len(),
    {
        self.values.len()
    }

    /// The entry at position `i`.
    pub fn get(&self, i: usize) -> (e: (Block, Highlight))
        requires
            i < self@.len(),
        ensures
            e == self@[i as int],
    {
        self.values[i]
    }
}

/// Aggregating an all-zero intensity array yields only `(Empty, 0)` pairs.
pub proof fn lemma_line_of_blank(h: Seq<Highlight>)
    requires
        forall|i: int| 0 <= i < h.len() ==> h[i] == 0,
    ensures
        line_of(h) == Seq::new(h.len(), |i: int| (Block::Empty, 0u64)),
{
    assert(line_of(h) =~= Seq::new(h.len(), |i: int| (Block::Empty, 0u64)));
}

/// The first input index of output row `i` when a `len`-entry line is
/// shown as `height` rows: the floor of `i * len / height`.
pub open spec fn row_offset(len: int, height: int, i: int) -> int {
    i * len / height
}

pub proof fn lemma_row_offset_bounds(len: int, height: int, i: int)
    requires
        1 <= len,
        1 <= height,
        0 <= i,
    ensures
        0 <= row_offset(len, height, i),
        i <= height ==> row_offset(len, height, i) <= len,
        i < height ==> row_offset(len, height, i) < len,
{
    lemma_mul_nonnegative(i, len);
    lemma_div_pos_is_pos(i * len, height);
    if i <= height {
        lemma_mul_inequality(i, height, len);
        lemma_multiply_divide_le(i * len, height, len);
    }
    if i < height {
        lemma_mul_strict_inequality(i, height, len);
        lemma_multiply_divide_lt(i * len, height, len);
    }
}

pub proof fn lemma_row_offset_mono(len: int, height: int, i: int, j: int)
    requires
        0 <= len,
        1 <= height,
        0 <= i <= j,
    ensures
        row_offset(len, height, i) <= row_offset(len, height, j),
{
    lemma_mul_inequality(i, j, len);
    lemma_div_is_ordered(i * len, j * len, height);
}

/// OR-fold of the flags of input entries `[off, j)`, seeded with the flags
/// at `off` (so an empty window still reports the flags at `off`).
pub open spec fn fold_flags(l: Seq<(Block, Highlight)>, off: int, j: int) -> Block
    decreases j - off,
{
    if j <= off {
        l[off].0
    } else {
        fold_flags(l, off, j - 1).union_spec(l[j - 1].0)
    }
}

/// Max-fold of the intensities of input entries `[off, j)`, seeded with
/// the intensity at `off`.
pub open spec fn fold_intensity(l: Seq<(Block, Highlight)>, off: int, j: int) -> Highlight
    decreases j - off,
{
    if j <= off {
        l[off].1
    } else {
        let m = fold_intensity(l, off, j - 1);
        if l[j - 1].1 > m {
            l[j - 1].1
        } else {
            m
        }
    }
}

/// Row `i` of the downsampled line before run smoothing: the OR of all
/// flags and the max of all intensities beneath the row, so no signal is
/// lost to averaging.
pub open spec fn scaled_row(l: Seq<(Block, Highlight)>, height: int, i: int) -> (Block, Highlight) {
    let off = row_offset(l.len() as int, height, i);
    let lim = row_offset(l.len() as int, height, i + 1);
    (fold_flags(l, off, lim), fold_intensity(l, off, lim))
}

pub open spec fn scaled_rows(l: Seq<(Block, Highlight)>, height: int) -> Seq<(Block, Highlight)> {
    Seq::new(height as nat, |i: int| scaled_row(l, height, i))
}

/// The flags the smoothing pass compares row `i` against: the flags of
/// row `i - 1` before any promotion; for row 1 that is the seed, the
/// flags of the unscaled input's first entry.
pub open spec fn prev_flags(rows: Seq<(Block, Highlight)>, seed: Block, i: int) -> Block {
    if i == 1 {
        seed
    } else {
        rows[i - 1].0
    }
}

/// Row `i` after run smoothing: a `Bottom` row right after another
/// `Bottom` row continues a block from above, so it is promoted to
/// `Full`. Only this forward pass runs; `Top` runs are deliberately left
/// as they are, an asymmetry this renderer keeps on purpose.
pub open spec fn smoothed_row(rows: Seq<(Block, Highlight)>, seed: Block, i: int) -> (
    Block,
    Highlight,
) {
    if i >= 1 && rows[i].0 == Block::Bottom && prev_flags(rows, seed, i) == Block::Bottom {
        (Block::Full, rows[i].1)
    } else {
        rows[i]
    }
}

pub open spec fn smoothed(rows: Seq<(Block, Highlight)>, seed: Block) -> Seq<(Block, Highlight)> {
    Seq::new(rows.len(), |i: int| smoothed_row(rows, seed, i))
}

/// The downsampled line: `height` fold rows, then forward run smoothing
/// seeded with the input's first flags.
pub open spec fn scale_spec(l: Seq<(Block, Highlight)>, height: int) -> Seq<(Block, Highlight)> {
    smoothed(scaled_rows(l, height), l[0].0)
}

impl Line {
    /// Downsamples the line into exactly `height` rows: each output row
    /// ORs the flags and maxes the intensities of its input window, and
    /// runs of two `Bottom` rows are smoothed into a solid block.
    ///
    /// Degenerate geometry (an empty line or zero height) must be handled
    /// by the caller before scaling.
    pub fn scale(&self, height: usize) -> (r: Line)
        requires
            self@.len() >= 1,
            height >= 1,
        ensures
            r@ == scale_spec(self@, height as int),
            r@.len() == height,
    {
        let len = self.values.len();
        let ghost l = self.values@;
        let mut result: Vec<(Block, Highlight)> = Vec::with_capacity(height);
        let mut i: usize = 0;
        while i < height
            invariant
                i <= height,
                1 <= height,
                l == self@,
                len == l.len(),
                1 <= len,
                result@.len() == i,
                forall|k: int| 0 <= k < i ==> result@[k] == scaled_row(l, height as int, k),
            decreases height - i,
        {
            proof {
                lemma_row_offset_bounds(len as int, height as int, i as int);
                lemma_row_offset_bounds(len as int, height as int, i as int + 1);
                lemma_row_offset_mono(len as int, height as int, i as int, i as int + 1);
                lemma_mul_upper_bound(i as int, u64::MAX as int, len as int, u64::MAX as int);
                lemma_mul_upper_bound(
                    i as int + 1,
                    u64::MAX as int,
                    len as int,
                    u64::MAX as int,
                );
            }
            let offset = (((i as u128) * (len as u128)) / (height as u128)) as usize;
            let limit = (((i as u128 + 1) * (len as u128)) / (height as u128)) as usize;
            assert(offset == row_offset(len as int, height as int, i as int));
            assert(limit == row_offset(len as int, height as int, i as int + 1));
            let seed_pair = self.values[offset];
            let mut block = seed_pair.0;
            let mut hl = seed_pair.1;
            let mut j = offset;
            while j < limit
                invariant
                    offset <= j <= limit,
                    limit <= len,
                    l == self@,
                    len == l.len(),
                    block == fold_flags(l, offset as int, j as int),
                    hl == fold_intensity(l, offset as int, j as int),
                decreases limit - j,
            {
                let p = self.values[j];
                block = block.union(p.0);
                if p.1 > hl {
                    hl = p.1;
                }
                j += 1;
            }
            result.push((block, hl));
            i += 1;
        }
        let ghost rows0 = result@;
        let ghost seed = l[0].0;
        proof {
            assert(rows0 =~= scaled_rows(l, height as int));
        }
        let mut prev_block = self.values[0].0;
        let mut s: usize = 1;
        while s < height
            invariant
                1 <= s <= height,
                rows0.len() == height,
                result@.len() == height,
                seed == l[0].0,
                prev_block == prev_flags(rows0, seed, s as int),
                forall|k: int| 0 <= k < s ==> result@[k] == smoothed_row(rows0, seed, k),
                forall|k: int| s <= k < height ==> result@[k] == rows0[k],
            decreases height - s,
        {
            let b = result[s].0;
            if prev_block == b && b == Block::Bottom {
                let val = result[s].1;
                result[s] = (Block::Full, val);
            }
            prev_block = b;
            s += 1;
        }
        proof {
            assert(result@ =~= smoothed(rows0, seed));
        }
        Line { values: result }
    }
}

/// When the target height equals the line's length, every fold window is
/// a single entry, so the fold pass returns the line unchanged.
proof fn lemma_scaled_rows_identity(l: Seq<(Block, Highlight)>)
    requires
        l.len() >= 1,
    ensures
        scaled_rows(l, l.len() as int) == l,
{
    let n = l.len() as int;
    assert forall|i: int| 0 <= i < n implies scaled_row(l, n, i) == l[i] by {
        vstd::arithmetic::div_mod::lemma_div_multiples_vanish(i, n);
        vstd::arithmetic::div_mod::lemma_div_multiples_vanish(i + 1, n);
        vstd::arithmetic::mul::lemma_mul_is_commutative(i, n);
        vstd::arithmetic::mul::lemma_mul_is_commutative(i + 1, n);
        assert(row_offset(n, n, i) == i);
        assert(row_offset(n, n, i + 1) == i + 1);
        assert(fold_flags(l, i, i + 1) == fold_flags(l, i, i).union_spec(l[i].0));
        assert(fold_flags(l, i, i) == l[i].0);
        assert(fold_intensity(l, i, i) == l[i].1);
        assert(fold_intensity(l, i, i + 1) == l[i].1);
    }
    assert(scaled_rows(l, n) =~= l);
}

/// Scaling is idempotent at the line's own length: after one scaling pass
/// at `height == len`, a second pass at the same height returns the rows
/// unchanged — the fold windows are single entries and the smoothing pass
/// finds no `Bottom` run left to promote.
pub proof fn lemma_scale_idempotent(l: Seq<(Block, Highlight)>)
    requires
        l.len() >= 1,
    ensures
        scale_spec(scale_spec(l, l.len() as int), l.len() as int) == scale_spec(
            l,
            l.len() as int,
        ),
{
    let n = l.len() as int;
    let seed = l[0].0;
    lemma_scaled_rows_identity(l);
    let s = scale_spec(l, n);
    assert(s == smoothed(l, seed));
    assert(s.len() == n);
    assert(smoothed_row(l, seed, 0) == l[0]);
    assert(s[0] == l[0]);
    lemma_scaled_rows_identity(s);
    assert(scale_spec(s, n) == smoothed(s, seed));
    assert forall|j: int| 0 <= j < n implies smoothed_row(s, seed, j) == s[j] by {
        if j >= 1 && s[j].0 == Block::Bottom {
            assert(s[j] == smoothed_row(l, seed, j));
            assert(l[j].0 == Block::Bottom);
            assert(prev_flags(l, seed, j) != Block::Bottom);
            if j >= 2 {
                assert(s[j - 1] == smoothed_row(l, seed, j - 1));
                assert(s[j - 1].0 != Block::Bottom);
            }
            assert(prev_flags(s, seed, j) != Block::Bottom);
        }
    }
    assert(smoothed(s, seed) =~= s);
}

/// A directionless line-number range for overlays; `top` may be
/// numerically greater than `bottom`.
#[derive(Debug, Clone, Copy)]
pub struct Frame {
    pub top: u64,
    pub bottom: u64,
}

impl Default for Frame {
    fn default() -> (r: Self)
        ensures
            r.top == 0 && r.bottom == 0,
    {
        Frame { top: 0, bottom: 0 }
    }
}

impl Frame {
    /// The lower end of the normalized range.
    pub open spec fn lo(self) -> int {
        if self.top <= self.bottom {
            self.top as int
        } else {
            self.bottom as int
        }
    }

    /// The upper end of the normalized range.
    pub open spec fn hi(self) -> int {
        if self.top <= self.bottom {
            self.bottom as int
        } else {
            self.top as int
        }
    }

    /// Whether the normalized range intersects the window of output row
    /// `i`: its low end lies before the floor of the next row's start and
    /// its high end at or past the floor of this row's start.
    pub open spec fn contains_spec(self, i: int, len: int, height: int) -> bool {
        self.lo() < row_offset(len, height, i + 1) && self.hi() >= row_offset(len, height, i)
    }

    pub fn contains(&self, i: u64, len: usize, height: u64) -> (r: bool)
        requires
            height >= 1,
        ensures
            r == self.contains_spec(i as int, len as int, height as int),
    {
        let top = if self.top <= self.bottom {
            self.top
        } else {
            self.bottom
        };
        let bottom = if self.top <= self.bottom {
            self.bottom
        } else {
            self.top
        };
        proof {
            lemma_mul_upper_bound(i as int, u64::MAX as int, len as int, u64::MAX as int);
            lemma_mul_upper_bound(i as int + 1, u64::MAX as int + 1, len as int, u64::MAX as int);
        }
        let off = ((i as u128) * (len as u128)) / (height as u128);
        let lim = ((i as u128 + 1) * (len as u128)) / (height as u128);
        (top as u128) < lim && (bottom as u128) >= off
    }
}

/// The overlay state of one render: the cursor line, the visible
/// viewport, and the selection range while one is active. Recomputed on
/// every sync or resize, never persisted.
#[derive(Debug, Clone, Copy)]
pub struct Modifier {
    pub cursor: u64,
    pub visible_frame: Frame,
    pub select_frame: Option<Frame>,
}

impl Default for Modifier {
    fn default() -> (r: Self)
        ensures
            r.cursor == 0,
            r.visible_frame.top == 0 && r.visible_frame.bottom == 0,
            r.select_frame is None,
    {
        Modifier { cursor: 0, visible_frame: Frame::default(), select_frame: None }
    }
}

impl Modifier {
    pub fn new(cursor: u64, visible_frame: Frame) -> (r: Modifier)
        ensures
            r.cursor == cursor,
            r.visible_frame == visible_frame,
            r.select_frame is None,
    {
        Modifier { cursor, visible_frame, select_frame: None }
    }

    /// Whether the cursor lies in the window of output row `i`: at or
    /// past the floor of the window's start and strictly before its exact
    /// end, `(i + 1) * len / height`.
    pub open spec fn cursor_in_row(self, i: int, len: int, height: int) -> bool {
        row_offset(len, height, i) <= self.cursor && self.cursor * height < (i + 1) * len
    }

    pub open spec fn select_hit(self, i: int, len: int, height: int) -> bool {
        match self.select_frame {
            Some(f) => f.contains_spec(i, len, height),
            None => false,
        }
    }

    /// The marker of output row `i`, in priority order: cursor, then
    /// selection, then visible viewport, then blank.
    pub open spec fn to_char_spec(self, i: int, len: int, height: int) -> char {
        if self.cursor_in_row(i, len, height) {
            'c'
        } else if self.select_hit(i, len, height) {
            's'
        } else if self.visible_frame.contains_spec(i, len, height) {
            'v'
        } else {
            ' '
        }
    }

    pub fn to_char(&self, i: u64, len: usize, height: u64) -> (c: char)
        requires
            height >= 1,
        ensures
            c == self.to_char_spec(i as int, len as int, height as int),
    {
        proof {
            lemma_mul_upper_bound(i as int, u64::MAX as int, len as int, u64::MAX as int);
            lemma_mul_upper_bound(i as int + 1, u64::MAX as int + 1, len as int, u64::MAX as int);
            lemma_mul_upper_bound(
                self.cursor as int,
                u64::MAX as int,
                height as int,
                u64::MAX as int,
            );
        }
        let off = ((i as u128) * (len as u128)) / (height as u128);
        let cur = self.cursor as u128;
        if off <= cur && cur * (height as u128) < (i as u128 + 1) * (len as u128) {
            return 'c';
        }
        if let Some(frame) = &self.select_frame {
            if frame.contains(i, len, height) {
                return 's';
            }
        }
        if self.visible_frame.contains(i, len, height) {
            return 'v';
        }
        ' '
    }
}

/// The cursor outranks both frames: whenever it lies in a row's window,
/// that row's marker is `'c'`, whatever the selection or viewport say.
pub proof fn lemma_cursor_marker_wins(m: Modifier, i: int, len: int, height: int)
    requires
        m.cursor_in_row(i, len, height),
    ensures
        m.to_char_spec(i, len, height) == 'c',
{
}

/// The character of a single decimal digit.
pub open spec fn digit_char(d: nat) -> char {
    if d == 0 {
        '0'
    } else if d == 1 {
        '1'
    } else if d == 2 {
        '2'
    } else if d == 3 {
        '3'
    } else if d == 4 {
        '4'
    } else if d == 5 {
        '5'
    } else if d == 6 {
        '6'
    } else if d == 7 {
        '7'
    } else if d == 8 {
        '8'
    } else {
        '9'
    }
}

/// The decimal digit characters of `n`, most significant first.
pub open spec fn dec_digits(n: nat) -> Seq<char>
    decreases n,
{
    if n < 10 {
        seq![digit_char(n)]
    } else {
        dec_digits(n / 10).push(digit_char(n % 10))
    }
}

/// `n` in decimal, zero-padded on the left to at least two digits.
pub open spec fn padded2(n: nat) -> Seq<char> {
    if n < 10 {
        seq!['0', digit_char(n)]
    } else {
        dec_digits(n)
    }
}

fn digit_of(d: u64) -> (c: char)
    requires
        d < 10,
    ensures
        c == digit_char(d as nat),
{
    if d == 0 {
        '0'
    } else if d == 1 {
        '1'
    } else if d == 2 {
        '2'
    } else if d == 3 {
        '3'
    } else if d == 4 {
        '4'
    } else if d == 5 {
        '5'
    } else if d == 6 {
        '6'
    } else if d == 7 {
        '7'
    } else if d == 8 {
        '8'
    } else {
        '9'
    }
}

/// Relies on String::push: appends the given character to the end of the
/// string.
#[verifier::external_body]
fn push_char(s: &mut String, c: char)
    ensures
        final(s)@ == old(s)@.push(c),
{
    s.push(c)
}

fn push_decimal(s: &mut String, n: u64)
    ensures
        final(s)@ == old(s)@ + dec_digits(n as nat),
    decreases n,
{
    if n < 10 {
        push_char(s, digit_of(n));
        proof {
            assert(old(s)@ + dec_digits(n as nat) =~= old(s)@.push(digit_char(n as nat)));
        }
    } else {
        push_decimal(s, n / 10);
        push_char(s, digit_of(n % 10));
        proof {
            assert(old(s)@ + dec_digits(n as nat) =~= (old(s)@ + dec_digits((n / 10) as nat)).push(
                digit_char((n % 10) as nat),
            ));
        }
    }
}

fn push_padded2(s: &mut String, n: u64)
    ensures
        final(s)@ == old(s)@ + padded2(n as nat),
{
    if n < 10 {
        push_char(s, '0');
        push_char(s, digit_of(n));
        proof {
            assert(old(s)@ + padded2(n as nat) =~= old(s)@.push('0').push(digit_char(n as nat)));
        }
    } else {
        push_decimal(s, n);
    }
}

/// One render call's inputs: the dense change and diagnostic intensity
/// arrays and the overlay state. Consumed by a single render; nothing is
/// kept between calls.
pub struct Picomap {
    pub changes: Highlights,
    pub diags: Highlights,
    pub modifier: Modifier,
}

impl Default for Picomap {
    fn default() -> (r: Self)
        ensures
            r.changes@ == Seq::<Highlight>::empty(),
            r.diags@ == Seq::<Highlight>::empty(),
            r.modifier.cursor == 0,
            r.modifier.visible_frame.top == 0 && r.modifier.visible_frame.bottom == 0,
            r.modifier.select_frame is None,
    {
        Picomap {
            changes: Highlights::default(),
            diags: Highlights::default(),
            modifier: Modifier::default(),
        }
    }
}

/// The characters of output row `i`: the change glyph, the diagnostic
/// glyph, both intensities as two-digit numbers, then the overlay marker.
pub open spec fn row_chars(
    changes: Seq<Highlight>,
    diags: Seq<Highlight>,
    m: Modifier,
    i: int,
    len: int,
    height: int,
) -> Seq<char> {
    let cl = scale_spec(line_of(changes), height);
    let dl = scale_spec(line_of(diags), height);
    seq![cl[i].0.glyph_spec(), dl[i].0.glyph_spec()] + padded2(cl[i].1 as nat) + padded2(
        dl[i].1 as nat,
    ) + seq![m.to_char_spec(i, len, height)]
}

impl Picomap {
    pub fn new(changes: Highlights, diags: Highlights, modifier: Modifier) -> (r: Picomap)
        ensures
            r.changes == changes,
            r.diags == diags,
            r.modifier == modifier,
    {
        Picomap { changes, diags, modifier }
    }

    /// Renders one string per output row: exactly `height` rows for a
    /// non-empty buffer and a positive height, no rows otherwise.
    pub fn to_strings(&self, len: usize, height: u64) -> (r: Vec<String>)
        requires
            len > 0 && height > 0 ==> self.changes@.len() >= 1 && self.diags@.len() >= 1 && height
                <= usize::MAX as u64,
        ensures
            len == 0 || height == 0 ==> r@.len() == 0,
            len > 0 && height > 0 ==> r@.len() == height && (forall|k: int|
                0 <= k < height ==> r@[k]@ == row_chars(
                    self.changes@,
                    self.diags@,
                    self.modifier,
                    k,
                    len as int,
                    height as int,
                )),
    {
        if len == 0 || height == 0 {
            let empty: Vec<String> = Vec::new();
            return empty;
        }
        let mut result: Vec<String> = Vec::with_capacity(height as usize);
        let change_line = Line::new(self.changes.as_slice()).scale(height as usize);
        let diag_line = Line::new(self.diags.as_slice()).scale(height as usize);
        let mut i: u64 = 0;
        while i < height
            invariant
                i <= height,
                1 <= height,
                1 <= len,
                height <= usize::MAX as u64,
                change_line@ == scale_spec(line_of(self.changes@), height as int),
                change_line@.len() == height,
                diag_line@ == scale_spec(line_of(self.diags@), height as int),
                diag_line@.len() == height,
                result@.len() == i,
                forall|k: int|
                    0 <= k < i ==> result@[k]@ == row_chars(
                        self.changes@,
                        self.diags@,
                        self.modifier,
                        k,
                        len as int,
                        height as int,
                    ),
            decreases height - i,
        {
            let change = change_line.get(i as usize);
            let diag = diag_line.get(i as usize);
            let mut s = String::new();
            push_char(&mut s, change.0.glyph());
            push_char(&mut s, diag.0.glyph());
            push_padded2(&mut s, change.1);
            push_padded2(&mut s, diag.1);
            push_char(&mut s, self.modifier.to_char(i, len, height));
            proof {
                assert(s@ =~= row_chars(
                    self.changes@,
                    self.diags@,
                    self.modifier,
                    i as int,
                    len as int,
                    height as int,
                ));
            }
            result.push(s);
            i += 1;
        }
        result
    }
}

} // verus!
