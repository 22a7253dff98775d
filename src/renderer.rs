//! The per-row render cache. It keeps, for each screen row, the draw
//! primitives built for it, drops entries as classified operations arrive, and
//! tells the drawing pass which rows to rebuild.
use vstd::prelude::*;
use crate::types::{category_of, OperationCategory, ScreenOperation, LineImpact};

verus! {

/// Counters of what the renderer has seen. `dirty_line_count` counts rows
/// reported changed since the last frame, `usize::MAX` meaning all of them.
#[derive(Clone, Copy, Debug, PartialEq, Eq, Structural)]
pub struct RenderMetrics {
    pub structural_ops: usize,
    pub visual_ops: usize,
    pub cursor_ops: usize,
    pub dirty_line_count: usize,
}

impl Default for RenderMetrics {
    fn default() -> (m: Self)
        ensures
            m == (RenderMetrics { structural_ops: 0, visual_ops: 0, cursor_ops: 0, dirty_line_count: 0 }),
    {
        RenderMetrics { structural_ops: 0, visual_ops: 0, cursor_ops: 0, dirty_line_count: 0 }
    }
}

/// The draw primitives built for one row.
pub struct LineRenderCache<S> {
    pub line_index: usize,
    pub shapes: Vec<S>,
}

/// The pixel geometry that cached primitives depend on: the viewport's size
/// and the scroll origin. Each coordinate is given by the bit pattern of its
/// floating-point value, so that any change of it is a change here.
#[derive(Clone, Copy, Debug, PartialEq, Eq, Structural)]
pub struct FrameGeometry {
    pub width_bits: u32,
    pub height_bits: u32,
    pub origin_x_bits: u32,
    pub origin_y_bits: u32,
}

/// Which rows hold a cached entry.
pub open spec fn presence<S>(cache: Seq<Option<LineRenderCache<S>>>) -> Seq<bool> {
    cache.map_values(|e: Option<LineRenderCache<S>>| e is Some)
}

pub open spec fn all_absent(n: nat) -> Seq<bool> {
    Seq::new(n, |i: int| false)
}

pub open spec fn all_present(n: nat) -> Seq<bool> {
    Seq::new(n, |i: int| true)
}

/// The row that an operation alone may have changed, for a row update.
pub open spec fn single_row(op: ScreenOperation) -> Option<usize> {
    match op {
        ScreenOperation::UpdateLine(row, _) => Some(row),
        _ => None,
    }
}

/// The entries left after a visual operation: only the updated row's entry
/// is dropped; any impact wider than one row drops them all.
pub open spec fn after_visual(p: Seq<bool>, op: ScreenOperation) -> Seq<bool> {
    match single_row(op) {
        Some(row) => if row < p.len() {
            p.update(row as int, false)
        } else {
            p
        },
        None => all_absent(p.len()),
    }
}

/// The entries left after `op`: a structural operation drops every entry, a
/// visual one as `after_visual` says, and a cursor move none.
pub open spec fn after_operation(p: Seq<bool>, op: ScreenOperation) -> Seq<bool> {
    match category_of(op) {
        OperationCategory::Layout => all_absent(p.len()),
        OperationCategory::Visual => after_visual(p, op),
        OperationCategory::Cursor => p,
    }
}

/// The entries at the start of a frame of `rows` rows and geometry `g`: all
/// are dropped if the geometry changed or caching is off, then the cache is
/// cut or padded with absent entries to one per row.
pub open spec fn prepared(
    p: Seq<bool>,
    last: FrameGeometry,
    caching: bool,
    g: FrameGeometry,
    rows: nat,
) -> Seq<bool> {
    let q = if g != last || !caching {
        all_absent(p.len())
    } else {
        p
    };
    if rows <= q.len() {
        q.subrange(0, rows as int)
    } else {
        q + all_absent((rows - q.len()) as nat)
    }
}

pub open spec fn saturating_inc_spec(n: usize) -> usize {
    if n == usize::MAX {
        n
    } else {
        (n + 1) as usize
    }
}

/// `c` has `n` entries, none of them present.
pub open spec fn cleared<S>(c: Seq<Option<LineRenderCache<S>>>, n: nat) -> bool {
    &&& c.len() == n
    &&& forall|i: int| 0 <= i < n ==> #[trigger] c[i] is None
}

/// `new` is the cache `old` after a visual operation: a row update drops
/// that row's entry, if there is one, and keeps every other entry as it
/// was; any wider impact drops every entry.
pub open spec fn visual_kept<S>(
    old: Seq<Option<LineRenderCache<S>>>,
    new: Seq<Option<LineRenderCache<S>>>,
    op: ScreenOperation,
) -> bool {
    match single_row(op) {
        Some(row) => if row < old.len() {
            new == old.update(row as int, None)
        } else {
            new == old
        },
        None => cleared(new, old.len()),
    }
}

/// The dirty-row count after a visual operation: one more for a row
/// update, unchanged for an operation that touches no row, and all rows
/// otherwise.
pub open spec fn dirty_after_visual(d: usize, op: ScreenOperation) -> usize {
    match op {
        ScreenOperation::UpdateLine(_, _) => saturating_inc_spec(d),
        ScreenOperation::SetCursor(_) => d,
        _ => usize::MAX,
    }
}

/// The row cache and its bookkeeping.
pub struct TerminalRenderer<S> {
    pub metrics: RenderMetrics,
    pub screen_cache: Vec<Option<LineRenderCache<S>>>,
    pub last_geometry: FrameGeometry,
    pub cursor_optimization_mode: bool,
}

fn saturating_inc(n: usize) -> (r: usize)
    ensures
        r == if n == usize::MAX { n } else { (n + 1) as usize },
{
    if n == usize::MAX {
        n
    } else {
        n + 1
    }
}

impl<S> TerminalRenderer<S> {
    pub fn new() -> (r: Self)
        ensures
            r.metrics == (RenderMetrics { structural_ops: 0, visual_ops: 0, cursor_ops: 0, dirty_line_count: 0 }),
            r.screen_cache@.len() == 0,
            r.last_geometry == (FrameGeometry { width_bits: 0, height_bits: 0, origin_x_bits: 0, origin_y_bits: 0 }),
            r.cursor_optimization_mode,
    {
        TerminalRenderer {
            metrics: RenderMetrics::default(),
            screen_cache: Vec::new(),
            last_geometry: FrameGeometry { width_bits: 0, height_bits: 0, origin_x_bits: 0, origin_y_bits: 0 },
            cursor_optimization_mode: true,
        }
    }

    fn discard_all(&mut self)
        ensures
            presence(final(self).screen_cache@) == all_absent(old(self).screen_cache@.len()),
            cleared(final(self).screen_cache@, old(self).screen_cache@.len()),
            final(self).metrics == old(self).metrics,
            final(self).last_geometry == old(self).last_geometry,
            final(self).cursor_optimization_mode == old(self).cursor_optimization_mode,
    {
        let n = self.screen_cache.len();
        let mut i: usize = 0;
        while i < n
            invariant
                n == self.screen_cache@.len(),
                n == old(self).screen_cache@.len(),
                i <= n,
                forall|j: int| 0 <= j < i ==> self.screen_cache@[j] is None,
                self.metrics == old(self).metrics,
                self.last_geometry == old(self).last_geometry,
                self.cursor_optimization_mode == old(self).cursor_optimization_mode,
            decreases n - i,
        {
            self.screen_cache.set(i, None);
            i += 1;
        }
        assert(presence(self.screen_cache@) =~= all_absent(n as nat));
    }

    /// A structural change: every cached row is dropped and all rows count
    /// as dirty.
    pub fn on_structural_change(&mut self)
        ensures
            presence(final(self).screen_cache@) == all_absent(old(self).screen_cache@.len()),
            cleared(final(self).screen_cache@, old(self).screen_cache@.len()),
            final(self).metrics == (RenderMetrics {
                structural_ops: if old(self).metrics.structural_ops == usize::MAX {
                    usize::MAX
                } else {
                    (old(self).metrics.structural_ops + 1) as usize
                },
                dirty_line_count: usize::MAX,
                ..old(self).metrics
            }),
            final(self).last_geometry == old(self).last_geometry,
            final(self).cursor_optimization_mode == old(self).cursor_optimization_mode,
    {
        self.metrics.structural_ops = saturating_inc(self.metrics.structural_ops);
        self.metrics.dirty_line_count = usize::MAX;
        self.discard_all();
    }

    /// A visual change: a row update drops that row's entry alone; any wider
    /// impact drops every entry.
    pub fn on_visual_change(&mut self, op: &ScreenOperation)
        ensures
            presence(final(self).screen_cache@) == after_visual(presence(old(self).screen_cache@), *op),
            visual_kept(old(self).screen_cache@, final(self).screen_cache@, *op),
            final(self).metrics == (RenderMetrics {
                visual_ops: saturating_inc_spec(old(self).metrics.visual_ops),
                dirty_line_count: dirty_after_visual(old(self).metrics.dirty_line_count, *op),
                ..old(self).metrics
            }),
            final(self).last_geometry == old(self).last_geometry,
            final(self).cursor_optimization_mode == old(self).cursor_optimization_mode,
    {
        self.metrics.visual_ops = saturating_inc(self.metrics.visual_ops);
        let metadata = op.metadata();
        match metadata.impact {
            LineImpact::Single(row) => {
                self.metrics.dirty_line_count = saturating_inc(self.metrics.dirty_line_count);
                if row < self.screen_cache.len() {
                    self.screen_cache.set(row, None);
                    assert(presence(self.screen_cache@) =~= presence(old(self).screen_cache@).update(
                        row as int,
                        false,
                    ));
                }
            },
            LineImpact::Multi(rows) => {
                if self.metrics.dirty_line_count != usize::MAX {
                    if rows.len() <= usize::MAX - self.metrics.dirty_line_count {
                        self.metrics.dirty_line_count = self.metrics.dirty_line_count + rows.len();
                    } else {
                        self.metrics.dirty_line_count = usize::MAX;
                    }
                }
                self.discard_all();
            },
            LineImpact::Unbounded => {
                self.metrics.dirty_line_count = usize::MAX;
                self.discard_all();
            },
        }
    }

    /// A cursor move: the cursor is drawn as an overlay, so no entry is
    /// dropped.
    pub fn on_cursor_change(&mut self)
        ensures
            final(self).screen_cache@ == old(self).screen_cache@,
            final(self).metrics == (RenderMetrics {
                cursor_ops: if old(self).metrics.cursor_ops == usize::MAX {
                    usize::MAX
                } else {
                    (old(self).metrics.cursor_ops + 1) as usize
                },
                ..old(self).metrics
            }),
            final(self).last_geometry == old(self).last_geometry,
            final(self).cursor_optimization_mode == old(self).cursor_optimization_mode,
    {
        self.metrics.cursor_ops = saturating_inc(self.metrics.cursor_ops);
    }

    /// Routes an operation by its category.
    pub fn on_operation(&mut self, op: &ScreenOperation)
        ensures
            presence(final(self).screen_cache@) == after_operation(presence(old(self).screen_cache@), *op),
            match category_of(*op) {
                OperationCategory::Layout => {
                    &&& cleared(final(self).screen_cache@, old(self).screen_cache@.len())
                    &&& final(self).metrics == (RenderMetrics {
                        structural_ops: saturating_inc_spec(old(self).metrics.structural_ops),
                        dirty_line_count: usize::MAX,
                        ..old(self).metrics
                    })
                },
                OperationCategory::Visual => {
                    &&& visual_kept(old(self).screen_cache@, final(self).screen_cache@, *op)
                    &&& final(self).metrics == (RenderMetrics {
                        visual_ops: saturating_inc_spec(old(self).metrics.visual_ops),
                        dirty_line_count: dirty_after_visual(old(self).metrics.dirty_line_count, *op),
                        ..old(self).metrics
                    })
                },
                OperationCategory::Cursor => {
                    &&& final(self).screen_cache@ == old(self).screen_cache@
                    &&& final(self).metrics == (RenderMetrics {
                        cursor_ops: saturating_inc_spec(old(self).metrics.cursor_ops),
                        ..old(self).metrics
                    })
                },
            },
            final(self).last_geometry == old(self).last_geometry,
            final(self).cursor_optimization_mode == old(self).cursor_optimization_mode,
    {
        match op.category() {
            OperationCategory::Layout => self.on_structural_change(),
            OperationCategory::Visual => self.on_visual_change(op),
            OperationCategory::Cursor => self.on_cursor_change(),
        }
    }

    /// Starts a frame of `rows` rows drawn at geometry `g`.
    pub fn begin_frame(&mut self, g: FrameGeometry, rows: usize)
        ensures
            presence(final(self).screen_cache@) == prepared(
                presence(old(self).screen_cache@),
                old(self).last_geometry,
                old(self).cursor_optimization_mode,
                g,
                rows as nat,
            ),
            final(self).screen_cache@.len() == rows,
            g == old(self).last_geometry && old(self).cursor_optimization_mode ==> forall|i: int|
                0 <= i < rows && i < old(self).screen_cache@.len() ==> #[trigger] final(self).screen_cache@[i]
                    == old(self).screen_cache@[i],
            forall|i: int|
                0 <= i < rows && (i >= old(self).screen_cache@.len() || g != old(self).last_geometry
                    || !old(self).cursor_optimization_mode) ==> #[trigger] final(self).screen_cache@[i] is None,
            final(self).last_geometry == g,
            final(self).cursor_optimization_mode == old(self).cursor_optimization_mode,
            final(self).metrics == old(self).metrics,
    {
        if g != self.last_geometry || !self.cursor_optimization_mode {
            self.discard_all();
        }
        self.last_geometry = g;
        let ghost mid = presence(self.screen_cache@);
        let ghost kept = self.screen_cache@;
        if rows <= self.screen_cache.len() {
            self.screen_cache.truncate(rows);
            assert(presence(self.screen_cache@) =~= mid.subrange(0, rows as int));
        } else {
            let ghost n0 = self.screen_cache@.len();
            assert(mid + all_absent(0) =~= mid);
            while self.screen_cache.len() < rows
                invariant
                    n0 <= self.screen_cache@.len() <= rows,
                    presence(self.screen_cache@) == mid + all_absent((self.screen_cache@.len() - n0) as nat),
                    mid.len() == n0,
                    kept.len() == n0,
                    forall|i: int| 0 <= i < n0 ==> #[trigger] self.screen_cache@[i] == kept[i],
                    forall|i: int| n0 <= i < self.screen_cache@.len() ==> #[trigger] self.screen_cache@[i] is None,
                    self.last_geometry == g,
                    self.cursor_optimization_mode == old(self).cursor_optimization_mode,
                    self.metrics == old(self).metrics,
                decreases rows - self.screen_cache@.len(),
            {
                let ghost before = self.screen_cache@;
                self.screen_cache.push(None);
                assert(presence(self.screen_cache@) =~= presence(before).push(false));
                assert(presence(self.screen_cache@) =~= mid + all_absent((self.screen_cache@.len() - n0) as nat));
            }
        }
    }

    /// The rows without a cached entry, in increasing order: those that the
    /// drawing pass must build.
    pub fn rows_to_build(&self) -> (r: Vec<usize>)
        ensures
            forall|k: int| 0 <= k < r@.len() ==> r@[k] < self.screen_cache@.len() && self.screen_cache@[r@[k] as int] is None,
            forall|k: int, l: int| 0 <= k < l < r@.len() ==> r@[k] < r@[l],
            forall|i: int| 0 <= i < self.screen_cache@.len() && self.screen_cache@[i] is None ==> r@.contains(i as usize),
    {
        let mut r: Vec<usize> = Vec::new();
        let mut i: usize = 0;
        while i < self.screen_cache.len()
            invariant
                i <= self.screen_cache@.len(),
                forall|k: int| 0 <= k < r@.len() ==> r@[k] < i && self.screen_cache@[r@[k] as int] is None,
                forall|k: int, l: int| 0 <= k < l < r@.len() ==> r@[k] < r@[l],
                forall|j: int| 0 <= j < i && self.screen_cache@[j] is None ==> r@.contains(j as usize),
            decreases self.screen_cache@.len() - i,
        {
            if self.screen_cache[i].is_none() {
                let ghost before = r@;
                r.push(i);
                assert forall|j: int| 0 <= j < i + 1 && self.screen_cache@[j] is None implies r@.contains(j as usize) by {
                    if j < i {
                        let k = choose|k: int| 0 <= k < before.len() && before[k] == j as usize;
                        assert(r@[k] == j as usize);
                    } else {
                        assert(r@[r@.len() - 1] == i);
                    }
                }
            }
            i += 1;
        }
        r
    }

    /// Stores the primitives built for `row`.
    pub fn store_row(&mut self, row: usize, shapes: Vec<S>)
        requires
            row < old(self).screen_cache@.len(),
        ensures
            final(self).screen_cache@ == old(self).screen_cache@.update(row as int, Some(LineRenderCache { line_index: row, shapes })),
            final(self).metrics == old(self).metrics,
            final(self).last_geometry == old(self).last_geometry,
            final(self).cursor_optimization_mode == old(self).cursor_optimization_mode,
    {
        self.screen_cache.set(row, Some(LineRenderCache { line_index: row, shapes }));
    }

    /// Ends a frame: no row counts as dirty any more.
    pub fn end_frame(&mut self)
        ensures
            final(self).screen_cache@ == old(self).screen_cache@,
            final(self).metrics == (RenderMetrics { dirty_line_count: 0, ..old(self).metrics }),
            final(self).last_geometry == old(self).last_geometry,
            final(self).cursor_optimization_mode == old(self).cursor_optimization_mode,
    {
        self.metrics.dirty_line_count = 0;
    }
}

/// A structural operation leaves no row cached; a row update leaves every
/// row but the updated one as it was.
pub proof fn lemma_invalidation(p: Seq<bool>, op: ScreenOperation)
    ensures
        category_of(op) == OperationCategory::Layout ==> forall|i: int| 0 <= i < p.len() ==> !#[trigger] after_operation(p, op)[i],
        op matches ScreenOperation::UpdateLine(r, _) ==> {
            &&& after_operation(p, op).len() == p.len()
            &&& (r < p.len() ==> !after_operation(p, op)[r as int])
            &&& forall|i: int| 0 <= i < p.len() && i != r ==> #[trigger] after_operation(p, op)[i] == p[i]
        },
{
}

/// Drawing twice with nothing in between rebuilds no row the second time:
/// once every row of a frame is built, the next frame at the same geometry
/// and row count finds them all cached.
pub proof fn lemma_second_pass_hits(p: Seq<bool>, last: FrameGeometry, g: FrameGeometry, rows: nat)
    ensures
        prepared(p, last, true, g, rows).len() == rows,
        prepared(all_present(rows), g, true, g, rows) == all_present(rows),
{
    assert(prepared(all_present(rows), g, true, g, rows) =~= all_present(rows));
}

} // verus!
