//! The screen buffer and the operations that describe its mutations.
use vstd::prelude::*;
use crate::text::chars_of;

verus! {

/// An RGB colour.
#[derive(Clone, Copy, Debug, PartialEq, Eq, Structural)]
pub struct TerminalColor {
    pub r: u8,
    pub g: u8,
    pub b: u8,
}

impl TerminalColor {
    pub fn from_rgb(r: u8, g: u8, b: u8) -> (c: Self)
        ensures
            c == (TerminalColor { r, g, b }),
    {
        TerminalColor { r, g, b }
    }

    pub fn black() -> (c: Self)
        ensures
            c == (TerminalColor { r: 0, g: 0, b: 0 }),
    {
        Self::from_rgb(0, 0, 0)
    }

    pub fn red() -> (c: Self)
        ensures
            c == (TerminalColor { r: 255, g: 0, b: 0 }),
    {
        Self::from_rgb(255, 0, 0)
    }

    pub fn green() -> (c: Self)
        ensures
            c == (TerminalColor { r: 0, g: 255, b: 0 }),
    {
        Self::from_rgb(0, 255, 0)
    }

    pub fn blue() -> (c: Self)
        ensures
            c == (TerminalColor { r: 100, g: 150, b: 255 }),
    {
        Self::from_rgb(100, 150, 255)
    }

    pub fn light_gray() -> (c: Self)
        ensures
            c == (TerminalColor { r: 211, g: 211, b: 211 }),
    {
        Self::from_rgb(211, 211, 211)
    }

    pub fn white() -> (c: Self)
        ensures
            c == (TerminalColor { r: 255, g: 255, b: 255 }),
    {
        Self::from_rgb(255, 255, 255)
    }

    pub fn gold() -> (c: Self)
        ensures
            c == (TerminalColor { r: 255, g: 215, b: 0 }),
    {
        Self::from_rgb(255, 215, 0)
    }

    pub fn gray() -> (c: Self)
        ensures
            c == (TerminalColor { r: 128, g: 128, b: 128 }),
    {
        Self::from_rgb(128, 128, 128)
    }
}

/// Text attributes of a cell.
#[derive(Clone, Copy, Debug, PartialEq, Eq, Structural)]
pub struct CellAttr {
    pub bold: bool,
    pub underline: bool,
}

impl Default for CellAttr {
    fn default() -> (a: Self)
        ensures
            a == (CellAttr { bold: false, underline: false }),
    {
        CellAttr { bold: false, underline: false }
    }
}

/// One character position: its glyph, colours and attributes.
#[derive(Clone, Copy, Debug, PartialEq, Eq, Structural)]
pub struct Cell {
    pub ch: char,
    pub fg: TerminalColor,
    pub bg: TerminalColor,
    pub attrs: CellAttr,
}

/// A cell on a black background, without attributes.
pub open spec fn plain_cell(ch: char, fg: TerminalColor) -> Cell {
    Cell {
        ch,
        fg,
        bg: TerminalColor { r: 0, g: 0, b: 0 },
        attrs: CellAttr { bold: false, underline: false },
    }
}

impl Cell {
    pub fn new(ch: char, fg: TerminalColor) -> (c: Self)
        ensures
            c == plain_cell(ch, fg),
    {
        Cell { ch, fg, bg: TerminalColor::black(), attrs: CellAttr::default() }
    }
}

/// A row of cells, left to right.
#[derive(Clone, Debug, PartialEq, Eq)]
pub struct Line {
    pub cells: Vec<Cell>,
}

impl View for Line {
    type V = Seq<Cell>;

    open spec fn view(&self) -> Seq<Cell> {
        self.cells@
    }
}

/// The characters that a row of cells shows.
pub open spec fn text_of(cells: Seq<Cell>) -> Seq<char> {
    cells.map_values(|c: Cell| c.ch)
}

/// The row that shows `s` in colour `fg`, one plain cell per character.
pub open spec fn line_of(s: Seq<char>, fg: TerminalColor) -> Seq<Cell> {
    s.map_values(|c: char| plain_cell(c, fg))
}

impl Default for Line {
    fn default() -> (l: Self)
        ensures
            l@ == Seq::<Cell>::empty(),
    {
        Line { cells: Vec::new() }
    }
}

impl Line {
    pub fn new() -> (l: Self)
        ensures
            l@ == Seq::<Cell>::empty(),
    {
        Line { cells: Vec::new() }
    }

    pub fn from_string(s: &str, fg: TerminalColor) -> (l: Self)
        ensures
            l@ == line_of(s@, fg),
    {
        let cs = chars_of(s);
        let mut cells: Vec<Cell> = Vec::new();
        let mut i: usize = 0;
        while i < cs.len()
            invariant
                i <= cs@.len(),
                cells@ == line_of(cs@.subrange(0, i as int), fg),
            decreases cs@.len() - i,
        {
            cells.push(Cell::new(cs[i], fg));
            i += 1;
            assert(cells@ =~= line_of(cs@.subrange(0, i as int), fg));
        }
        assert(cs@.subrange(0, cs@.len() as int) =~= s@);
        Line { cells }
    }

    /// A line with the same cells.
    pub fn duplicate(&self) -> (l: Self)
        ensures
            l@ == self@,
    {
        let mut cells: Vec<Cell> = Vec::new();
        let mut i: usize = 0;
        while i < self.cells.len()
            invariant
                i <= self@.len(),
                cells@ == self@.subrange(0, i as int),
            decreases self@.len() - i,
        {
            cells.push(self.cells[i]);
            i += 1;
            assert(cells@ =~= self@.subrange(0, i as int));
        }
        assert(cells@ =~= self@);
        Line { cells }
    }
}

/// A logical cursor position.
#[derive(Clone, Copy, Debug, PartialEq, Eq, Structural)]
pub struct Cursor {
    pub row: usize,
    pub col: usize,
}

impl Default for Cursor {
    fn default() -> (c: Self)
        ensures
            c == (Cursor { row: 0, col: 0 }),
    {
        Cursor { row: 0, col: 0 }
    }
}

/// Bookkeeping flags of a screen.
#[derive(Clone, Copy, Debug, PartialEq, Eq, Structural)]
pub struct ScreenMeta {
    pub dirty: bool,
}

/// Which rows an operation may have affected.
#[derive(Clone, Debug, PartialEq, Eq)]
pub enum LineImpact {
    /// One row.
    Single(usize),
    /// An explicit set of rows; empty when no row is affected.
    Multi(Vec<usize>),
    /// Any row, including shifts of all of them.
    Unbounded,
}

#[derive(Clone, Debug, PartialEq, Eq)]
pub struct OperationMetadata {
    pub impact: LineImpact,
    pub caused_scroll: bool,
}

/// The record of one screen mutation.
#[derive(Clone, Debug, PartialEq, Eq)]
pub enum ScreenOperation {
    PushLine(Line),
    Clear,
    SetCursor(Cursor),
    UpdateLine(usize, Line),
}

#[derive(Clone, Copy, Debug, PartialEq, Eq, Structural)]
pub enum OperationCategory {
    /// A structural change: may shift the set of visible rows.
    Layout,
    /// Changes the content of rows in place.
    Visual,
    /// Moves the cursor only.
    Cursor,
}

pub open spec fn category_of(op: ScreenOperation) -> OperationCategory {
    match op {
        ScreenOperation::PushLine(_) => OperationCategory::Layout,
        ScreenOperation::Clear => OperationCategory::Layout,
        ScreenOperation::SetCursor(_) => OperationCategory::Cursor,
        ScreenOperation::UpdateLine(_, _) => OperationCategory::Visual,
    }
}

/// Whether `m` is the metadata of `op`: structural operations may touch
/// every row and scroll, a cursor move touches no row, and a row update
/// touches exactly that row.
pub open spec fn is_metadata_of(m: OperationMetadata, op: ScreenOperation) -> bool {
    match op {
        ScreenOperation::PushLine(_) | ScreenOperation::Clear => {
            m.impact is Unbounded && m.caused_scroll
        },
        ScreenOperation::SetCursor(_) => {
            &&& m.impact matches LineImpact::Multi(rows)
            &&& rows@.len() == 0
            &&& !m.caused_scroll
        },
        ScreenOperation::UpdateLine(row, _) => m.impact == LineImpact::Single(row)
            && !m.caused_scroll,
    }
}

impl ScreenOperation {
    pub fn category(&self) -> (c: OperationCategory)
        ensures
            c == category_of(*self),
    {
        match self {
            ScreenOperation::PushLine(_) => OperationCategory::Layout,
            ScreenOperation::Clear => OperationCategory::Layout,
            ScreenOperation::SetCursor(_) => OperationCategory::Cursor,
            ScreenOperation::UpdateLine(_, _) => OperationCategory::Visual,
        }
    }

    pub fn metadata(&self) -> (m: OperationMetadata)
        ensures
            is_metadata_of(m, *self),
    {
        match self {
            ScreenOperation::PushLine(_) => OperationMetadata {
                impact: LineImpact::Unbounded,
                caused_scroll: true,
            },
            ScreenOperation::Clear => OperationMetadata {
                impact: LineImpact::Unbounded,
                caused_scroll: true,
            },
            ScreenOperation::SetCursor(_) => OperationMetadata {
                impact: LineImpact::Multi(Vec::new()),
                caused_scroll: false,
            },
            ScreenOperation::UpdateLine(row, _) => OperationMetadata {
                impact: LineImpact::Single(*row),
                caused_scroll: false,
            },
        }
    }
}

/// The abstract state of a screen: its rows, cursor and dirty flag.
pub struct ScreenView {
    pub lines: Seq<Seq<Cell>>,
    pub cursor: Cursor,
    pub dirty: bool,
}

pub open spec fn empty_screen() -> ScreenView {
    ScreenView { lines: seq![], cursor: Cursor { row: 0, col: 0 }, dirty: false }
}

/// The effect of `op` on a screen. An update of a row past the end appends,
/// as `Screen::update_line` does.
pub open spec fn apply_operation(s: ScreenView, op: ScreenOperation) -> ScreenView {
    match op {
        ScreenOperation::PushLine(l) => ScreenView { lines: s.lines.push(l@), dirty: true, ..s },
        ScreenOperation::Clear => ScreenView {
            lines: seq![],
            cursor: Cursor { row: 0, col: 0 },
            dirty: true,
        },
        ScreenOperation::SetCursor(c) => ScreenView { cursor: c, dirty: true, ..s },
        ScreenOperation::UpdateLine(row, l) => if row < s.lines.len() {
            ScreenView { lines: s.lines.update(row as int, l@), dirty: true, ..s }
        } else {
            ScreenView { lines: s.lines.push(l@), dirty: true, ..s }
        },
    }
}

/// The screen that `ops` build, applied in order from `s`.
pub open spec fn replay(s: ScreenView, ops: Seq<ScreenOperation>) -> ScreenView
    decreases ops.len(),
{
    if ops.len() == 0 {
        s
    } else {
        apply_operation(replay(s, ops.drop_last()), ops.last())
    }
}

pub open spec fn line_views(lines: Seq<Line>) -> Seq<Seq<Cell>> {
    lines.map_values(|l: Line| l@)
}

/// The text buffer: rows of cells, a cursor and a dirty flag. Every mutator
/// returns the operation that describes what it did.
#[derive(Clone, Debug)]
pub struct Screen {
    pub lines: Vec<Line>,
    pub cursor: Cursor,
    pub meta: ScreenMeta,
}

impl View for Screen {
    type V = ScreenView;

    open spec fn view(&self) -> ScreenView {
        ScreenView { lines: line_views(self.lines@), cursor: self.cursor, dirty: self.meta.dirty }
    }
}

impl Default for Screen {
    fn default() -> (s: Self)
        ensures
            s@ == empty_screen(),
    {
        let s = Screen {
            lines: Vec::new(),
            cursor: Cursor::default(),
            meta: ScreenMeta { dirty: false },
        };
        assert(s@.lines =~= Seq::<Seq<Cell>>::empty());
        s
    }
}

impl Screen {
    pub fn new() -> (s: Self)
        ensures
            s@ == empty_screen(),
    {
        Self::default()
    }

    pub fn push_line(&mut self, line: Line) -> (op: ScreenOperation)
        ensures
            op == ScreenOperation::PushLine(line),
            final(self)@ == apply_operation(old(self)@, op),
    {
        let copy = line.duplicate();
        self.lines.push(copy);
        self.meta.dirty = true;
        assert(self@.lines =~= old(self)@.lines.push(line@));
        ScreenOperation::PushLine(line)
    }

    pub fn clear(&mut self) -> (op: ScreenOperation)
        ensures
            op == ScreenOperation::Clear,
            final(self)@ == apply_operation(old(self)@, op),
            final(self).lines@.len() == 0,
            final(self).cursor == (Cursor { row: 0, col: 0 }),
    {
        self.lines.clear();
        self.cursor = Cursor::default();
        self.meta.dirty = true;
        assert(self@.lines =~= Seq::<Seq<Cell>>::empty());
        ScreenOperation::Clear
    }

    pub fn set_cursor(&mut self, cursor: Cursor) -> (op: ScreenOperation)
        ensures
            op == ScreenOperation::SetCursor(cursor),
            final(self)@ == apply_operation(old(self)@, op),
    {
        self.cursor = cursor;
        self.meta.dirty = true;
        ScreenOperation::SetCursor(cursor)
    }

    /// Replaces row `row`; a row at or past the end is appended instead.
    pub fn update_line(&mut self, row: usize, line: Line) -> (op: ScreenOperation)
        ensures
            row < old(self).lines@.len() ==> op == ScreenOperation::UpdateLine(row, line),
            row >= old(self).lines@.len() ==> op == ScreenOperation::PushLine(line),
            final(self)@ == apply_operation(old(self)@, op),
    {
        if row < self.lines.len() {
            let copy = line.duplicate();
            self.lines.set(row, copy);
            self.meta.dirty = true;
            assert(self@.lines =~= old(self)@.lines.update(row as int, line@));
            ScreenOperation::UpdateLine(row, line)
        } else {
            self.push_line(line)
        }
    }
}

/// What the worker reports to the presentation side.
#[derive(Clone, Debug)]
pub enum ShellEvent {
    Operation(ScreenOperation),
    Notification(String),
}

/// A configured keyboard shortcut.
#[derive(Clone, Debug)]
pub struct Shortcut {
    pub key: String,
    pub cmd: String,
}

/// Replaying the operations that a run of screen mutators returned, from an
/// empty screen, rebuilds the screen that the run left. `states[i]` is the
/// screen before the `i`-th mutation and `ops[i]` what it returned.
pub proof fn lemma_replay_rebuilds(states: Seq<ScreenView>, ops: Seq<ScreenOperation>)
    requires
        states.len() == ops.len() + 1,
        states[0] == empty_screen(),
        forall|i: int| 0 <= i < ops.len() ==> states[i + 1] == apply_operation(states[i], ops[i]),
    ensures
        replay(empty_screen(), ops) == states.last(),
    decreases ops.len(),
{
    if ops.len() > 0 {
        let n = ops.len() - 1;
        lemma_replay_rebuilds(states.subrange(0, n + 1), ops.subrange(0, n));
        assert(ops.drop_last() =~= ops.subrange(0, n));
    }
}

} // verus!
