//! Text-table rendering of per-period summaries: one row per period, one
//! column per category, each cell padded to its column's width.

use vstd::prelude::*;

use crate::date::{spec_date_text, Period};
use crate::entry::{spec_amount_text, spec_cat_name, Amount, Category, CATEGORY_COUNT};
use crate::summary::Summary;

verus! {

/// `n` spaces.
pub open spec fn spec_spaces(n: nat) -> Seq<char>
    decreases n,
{
    if n == 0 {
        Seq::empty()
    } else {
        spec_spaces((n - 1) as nat) + " "@
    }
}

fn push_spaces(s: &mut String, n: usize)
    ensures
        final(s)@ == old(s)@ + spec_spaces(n as nat),
{
    let mut i: usize = 0;
    proof {
        assert(s@ =~= old(s)@ + spec_spaces(0));
    }
    while i < n
        invariant
            i <= n,
            s@ == old(s)@ + spec_spaces(i as nat),
        decreases n - i,
    {
        s.append(" ");
        i = i + 1;
        proof {
            assert(s@ =~= old(s)@ + spec_spaces(i as nat));
        }
    }
}

/// A piece of text and the width it counts for when laid out.
#[derive(Debug)]
pub struct BoxFmt {
    pub width: usize,
    pub text: String,
}

/// One laid-out cell: a leading space, the text padded to `width` (on the
/// left when right-aligned, on the right otherwise), and a closing ` |`.
pub open spec fn spec_box_write(b: BoxFmt, width: int, right: bool) -> Seq<char> {
    let pad = spec_spaces(
        if width >= b.width {
            (width - b.width) as nat
        } else {
            0
        },
    );
    if right {
        " "@ + pad + b.text@ + " |"@
    } else {
        " "@ + b.text@ + pad + " |"@
    }
}

impl BoxFmt {
    /// Wrap a text; it counts for its own length.
    pub fn from(text: String) -> (r: BoxFmt)
        ensures
            r.text@ == text@,
            r.width == text@.len(),
    {
        let width = text.as_str().unicode_len();
        BoxFmt { text, width }
    }

    /// A cell for an amount: its decimal rendering, counting the two cent
    /// digits as free; zero amounts stay blank.
    pub fn amount(a: Amount) -> (r: BoxFmt)
        ensures
            a.0 != 0 ==> r.text@ == spec_amount_text(a.0 as int) && r.width == (
            if spec_amount_text(a.0 as int).len() >= 2 {
                spec_amount_text(a.0 as int).len() - 2
            } else {
                0
            }),
            a.0 == 0 ==> r.text@ == Seq::<char>::empty() && r.width == 0,
    {
        if a.nonzero() {
            let text = a.render();
            let l = text.as_str().unicode_len();
            let width = if l >= 2 {
                l - 2
            } else {
                0
            };
            BoxFmt { text, width }
        } else {
            let r = BoxFmt::from(String::new());
            proof {
                assert(r.text@ =~= Seq::<char>::empty());
            }
            r
        }
    }

    /// A cell for a period.
    pub fn period(p: Period) -> (r: BoxFmt)
        requires
            p.0.wf(),
            p.1.wf(),
        ensures
            r.text@ == spec_date_text(p.0) + " to "@ + spec_date_text(p.1),
            r.width == r.text@.len(),
    {
        BoxFmt::from(p.text())
    }

    /// A cell for a category's name.
    pub fn category(c: Category) -> (r: BoxFmt)
        ensures
            r.text@ == spec_cat_name(c),
            r.width == r.text@.len(),
    {
        BoxFmt::from(c.name())
    }

    /// Lay the cell out into `out` at the given width.
    pub fn write(&self, out: &mut String, width: usize, right: bool)
        ensures
            final(out)@ == old(out)@ + spec_box_write(*self, width as int, right),
    {
        out.append(" ");
        if right {
            push_spaces(out, width.saturating_sub(self.width));
            out.append(self.text.as_str());
        } else {
            out.append(self.text.as_str());
            push_spaces(out, width.saturating_sub(self.width));
        }
        out.append(" |");
        proof {
            assert(out@ =~= old(out)@ + spec_box_write(*self, width as int, right));
        }
    }
}

/// Saturated widening of a cell width to a column width.
pub open spec fn sat3(w: int) -> int {
    if w + 3 <= usize::MAX {
        w + 3
    } else {
        usize::MAX as int
    }
}

/// A column: its label, its cells in row order, and the width that fits them
/// all.
#[derive(Debug)]
pub struct ColFmt {
    pub width: usize,
    pub label: BoxFmt,
    pub boxes: Vec<BoxFmt>,
}

impl ColFmt {
    /// A column with a label and no cells yet.
    pub fn with_label(label: BoxFmt) -> (r: ColFmt)
        ensures
            r.width == sat3(label.width as int),
            r.label == label,
            r.boxes@ == Seq::<BoxFmt>::empty(),
    {
        let width = label.width.saturating_add(3);
        let r = ColFmt { width, label, boxes: Vec::new() };
        proof {
            assert(r.boxes@ =~= Seq::<BoxFmt>::empty());
        }
        r
    }

    /// Add a cell, widening the column to fit it.
    pub fn push(&mut self, b: BoxFmt)
        ensures
            final(self).label == old(self).label,
            final(self).width == if sat3(b.width as int) > old(self).width {
                sat3(b.width as int)
            } else {
                old(self).width as int
            },
            final(self).boxes@ == old(self).boxes@.push(b),
    {
        let w = b.width.saturating_add(3);
        if w > self.width {
            self.width = w;
        }
        self.boxes.push(b);
    }

    /// Lay the column's label out.
    pub fn write_label(&self, out: &mut String)
        ensures
            final(out)@ == old(out)@ + spec_box_write(self.label, self.width as int, true),
    {
        self.label.write(out, self.width, true)
    }

    /// Lay one of the column's cells out.
    pub fn write_item(&self, out: &mut String, idx: usize, right: bool)
        requires
            idx < self.boxes@.len(),
        ensures
            final(out)@ == old(out)@ + spec_box_write(self.boxes@[idx as int], self.width as int, right),
    {
        self.boxes[idx].write(out, self.width, right)
    }

    /// How many cells the column holds.
    pub fn len(&self) -> (n: usize)
        ensures
            n == self.boxes@.len(),
    {
        self.boxes.len()
    }
}

/// The labels of the columns of a grid, laid out left to right.
pub open spec fn spec_cols_labels(cols: Seq<ColFmt>) -> Seq<char>
    decreases cols.len(),
{
    if cols.len() == 0 {
        Seq::empty()
    } else {
        spec_cols_labels(cols.drop_last()) + spec_box_write(
            cols.last().label,
            cols.last().width as int,
            true,
        )
    }
}

/// Row `idx` of the columns of a grid, laid out left to right.
pub open spec fn spec_cols_row(cols: Seq<ColFmt>, idx: int) -> Seq<char>
    decreases cols.len(),
{
    if cols.len() == 0 {
        Seq::empty()
    } else {
        spec_cols_row(cols.drop_last(), idx) + spec_box_write(
            cols.last().boxes@[idx],
            cols.last().width as int,
            true,
        )
    }
}

/// A grid of labeled columns, with one label cell per row.
#[derive(Debug)]
pub struct GridFmt {
    pub labels: ColFmt,
    pub columns: Vec<ColFmt>,
}

/// The whole grid laid out: a header line of column labels, then one line
/// per row with its label on the left.
pub open spec fn spec_grid_render(g: GridFmt) -> Seq<char> {
    spec_box_write(g.labels.label, g.labels.width as int, true) + spec_cols_labels(g.columns@)
        + "\n"@ + spec_grid_rows(g, g.labels.boxes@.len() as int)
}

/// The first `upto` rows of the grid, each ended by a newline.
pub open spec fn spec_grid_rows(g: GridFmt, upto: int) -> Seq<char>
    decreases upto,
{
    if upto <= 0 {
        Seq::empty()
    } else {
        spec_grid_rows(g, upto - 1) + spec_box_write(
            g.labels.boxes@[upto - 1],
            g.labels.width as int,
            false,
        ) + spec_cols_row(g.columns@, upto - 1) + "\n"@
    }
}

impl GridFmt {
    /// A grid with the given columns, an unlabeled label column, and no rows.
    pub fn with_columns(columns: Vec<ColFmt>) -> (r: GridFmt)
        ensures
            r.columns@ == columns@,
            r.labels.label.text@ == Seq::<char>::empty(),
            r.labels.label.width == 0,
            r.labels.width == 3,
            r.labels.boxes@ == Seq::<BoxFmt>::empty(),
    {
        let empty_box = BoxFmt::from(String::new());
        proof {
            assert(empty_box.text@ =~= Seq::<char>::empty());
        }
        GridFmt { labels: ColFmt::with_label(empty_box), columns }
    }

    /// Add a row: its label, and one cell per column.
    pub fn push_line(&mut self, label: BoxFmt, boxes: Vec<BoxFmt>)
        requires
            boxes@.len() == old(self).columns@.len(),
        ensures
            final(self).labels.label == old(self).labels.label,
            final(self).labels.width == if sat3(label.width as int) > old(self).labels.width {
                sat3(label.width as int)
            } else {
                old(self).labels.width as int
            },
            final(self).labels.boxes@ == old(self).labels.boxes@.push(label),
            final(self).columns@.len() == old(self).columns@.len(),
            forall|j: int|
                0 <= j < old(self).columns@.len() ==> {
                    let oc = old(self).columns@[j];
                    let nc = #[trigger] final(self).columns@[j];
                    nc.label == oc.label && nc.boxes@ == oc.boxes@.push(boxes@[j]) && nc.width == (
                    if sat3(boxes@[j].width as int) > oc.width {
                        sat3(boxes@[j].width as int)
                    } else {
                        oc.width as int
                    })
                },
    {
        self.labels.push(label);
        let ghost lab = self.labels;
        let mut boxes = boxes;
        let ghost orig_boxes = boxes@;
        let mut i: usize = 0;
        proof {
            assert(boxes@ =~= orig_boxes.skip(0));
        }
        while i < self.columns.len()
            invariant
                i <= self.columns@.len(),
                self.labels == lab,
                orig_boxes.len() == old(self).columns@.len(),
                self.columns@.len() == old(self).columns@.len(),
                boxes@ == orig_boxes.skip(i as int),
                forall|j: int|
                    i <= j < self.columns@.len() ==> (#[trigger] self.columns@[j]) == old(
                        self,
                    ).columns@[j],
                forall|j: int|
                    0 <= j < i ==> {
                        let oc = old(self).columns@[j];
                        let nc = #[trigger] self.columns@[j];
                        nc.label == oc.label && nc.boxes@ == oc.boxes@.push(orig_boxes[j])
                            && nc.width == (if sat3(orig_boxes[j].width as int) > oc.width {
                            sat3(orig_boxes[j].width as int)
                        } else {
                            oc.width as int
                        })
                    },
            decreases self.columns.len() - i,
        {
            proof {
                assert(boxes@[0] == orig_boxes[i as int]);
                assert(boxes@.remove(0) =~= orig_boxes.skip(i as int + 1));
            }
            let b = boxes.remove(0);
            let mut col = self.columns.remove(i);
            col.push(b);
            self.columns.insert(i, col);
            i = i + 1;
        }
    }

    /// Lay the whole grid out as text.
    pub fn render(&self) -> (r: String)
        requires
            forall|j: int|
                0 <= j < self.columns@.len() ==> (#[trigger] self.columns@[j]).boxes@.len()
                    == self.labels.boxes@.len(),
        ensures
            r@ == spec_grid_render(*self),
    {
        let mut out = String::new();
        self.labels.write_label(&mut out);
        let mut j: usize = 0;
        proof {
            assert(self.columns@.take(0) =~= Seq::<ColFmt>::empty());
            assert(out@ =~= Seq::<char>::empty() + spec_box_write(
                self.labels.label,
                self.labels.width as int,
                true,
            ));
        }
        while j < self.columns.len()
            invariant
                j <= self.columns@.len(),
                out@ == spec_box_write(self.labels.label, self.labels.width as int, true)
                    + spec_cols_labels(self.columns@.take(j as int)),
            decreases self.columns.len() - j,
        {
            self.columns[j].write_label(&mut out);
            j = j + 1;
            proof {
                assert(self.columns@.take(j as int).drop_last() =~= self.columns@.take(
                    j as int - 1,
                ));
                assert(self.columns@.take(j as int).last() == self.columns@[j - 1]);
                assert(out@ =~= spec_box_write(self.labels.label, self.labels.width as int, true)
                    + spec_cols_labels(self.columns@.take(j as int)));
            }
        }
        out.append("\n");
        proof {
            assert(self.columns@.take(self.columns@.len() as int) =~= self.columns@);
            assert(spec_grid_rows(*self, 0) == Seq::<char>::empty());
            assert(out@ =~= spec_box_write(self.labels.label, self.labels.width as int, true)
                + spec_cols_labels(self.columns@) + "\n"@ + spec_grid_rows(*self, 0));
        }
        let mut idx: usize = 0;
        let n = self.labels.len();
        while idx < n
            invariant
                idx <= n,
                n == self.labels.boxes@.len(),
                forall|k: int|
                    0 <= k < self.columns@.len() ==> (#[trigger] self.columns@[k]).boxes@.len()
                        == self.labels.boxes@.len(),
                out@ == spec_box_write(self.labels.label, self.labels.width as int, true)
                    + spec_cols_labels(self.columns@) + "\n"@ + spec_grid_rows(
                    *self,
                    idx as int,
                ),
            decreases n - idx,
        {
            self.labels.write_item(&mut out, idx, false);
            let mut j: usize = 0;
            let ghost row_start = out@;
            while j < self.columns.len()
                invariant
                    j <= self.columns@.len(),
                    idx < self.labels.boxes@.len(),
                    forall|k: int|
                        0 <= k < self.columns@.len() ==> (#[trigger] self.columns@[k]).boxes@.len()
                            == self.labels.boxes@.len(),
                    out@ == row_start + spec_cols_row(self.columns@.take(j as int), idx as int),
                decreases self.columns.len() - j,
            {
                self.columns[j].write_item(&mut out, idx, true);
                j = j + 1;
                proof {
                    assert(self.columns@.take(j as int).drop_last() =~= self.columns@.take(
                        j as int - 1,
                    ));
                    assert(self.columns@.take(j as int).last() == self.columns@[j - 1]);
                    assert(out@ =~= row_start + spec_cols_row(
                        self.columns@.take(j as int),
                        idx as int,
                    ));
                }
            }
            out.append("\n");
            idx = idx + 1;
            proof {
                assert(self.columns@.take(self.columns@.len() as int) =~= self.columns@);
                assert(out@ =~= spec_box_write(self.labels.label, self.labels.width as int, true)
                    + spec_cols_labels(self.columns@) + "\n"@ + spec_grid_rows(
                    *self,
                    idx as int,
                ));
            }
        }
        out
    }
}

/// Tabular presentation of a slice of per-period summaries.
pub struct Table<'d> {
    pub data: &'d [Summary],
}

/// The cell of an amount: its decimal rendering, blank when zero.
pub open spec fn amount_cell_ok(b: BoxFmt, a: Amount) -> bool {
    if a.0 != 0 {
        b.text@ == spec_amount_text(a.0 as int)
    } else {
        b.text@ == Seq::<char>::empty()
    }
}

/// The label cell of a period.
pub open spec fn period_cell_ok(b: BoxFmt, p: Period) -> bool {
    b.text@ == spec_date_text(p.0) + " to "@ + spec_date_text(p.1)
}

impl<'d> Table<'d> {
    /// Wrap data to lay out.
    pub fn from(data: &'d [Summary]) -> (r: Table<'d>)
        ensures
            r.data == data,
    {
        Table { data }
    }

    /// Build the grid: one labeled column per category, one row per summary,
    /// each row labeled by its period and holding its per-category amounts.
    pub fn to_formatter(&self) -> (r: GridFmt)
        requires
            forall|i: int| 0 <= i < self.data@.len() ==> (#[trigger] self.data@[i]).wf(),
        ensures
            r.columns@.len() == CATEGORY_COUNT,
            r.labels.boxes@.len() == self.data@.len(),
            forall|j: int|
                0 <= j < CATEGORY_COUNT ==> (#[trigger] r.columns@[j]).label.text@
                    == spec_cat_name(crate::entry::spec_cat_of_index(j)),
            forall|k: int|
                0 <= k < self.data@.len() ==> period_cell_ok(
                    #[trigger] r.labels.boxes@[k],
                    self.data@[k].period,
                ),
            forall|j: int|
                0 <= j < CATEGORY_COUNT ==> (#[trigger] r.columns@[j]).boxes@.len()
                    == self.data@.len(),
            forall|j: int, k: int|
                0 <= j < CATEGORY_COUNT && 0 <= k < self.data@.len() ==> amount_cell_ok(
                    #[trigger] r.columns@[j].boxes@[k],
                    self.data@[k].amounts@[j],
                ),
    {
        let mut cols: Vec<ColFmt> = Vec::new();
        let mut i: usize = 0;
        while i < CATEGORY_COUNT
            invariant
                i <= CATEGORY_COUNT,
                cols@.len() == i,
                forall|j: int| 0 <= j < i ==> (#[trigger] cols@[j]).boxes@.len() == 0,
                forall|j: int|
                    0 <= j < i ==> (#[trigger] cols@[j]).label.text@ == spec_cat_name(
                        crate::entry::spec_cat_of_index(j),
                    ),
            decreases CATEGORY_COUNT - i,
        {
            let c = match Category::from_usize(i) {
                Some(c) => c,
                None => Category::Home,
            };
            cols.push(ColFmt::with_label(BoxFmt::category(c)));
            i = i + 1;
        }
        let mut grid = GridFmt::with_columns(cols);
        let n = table_slice_len(self.data);
        let mut k: usize = 0;
        while k < n
            invariant
                k <= n,
                n == self.data@.len(),
                forall|i2: int| 0 <= i2 < self.data@.len() ==> (#[trigger] self.data@[i2]).wf(),
                grid.columns@.len() == CATEGORY_COUNT,
                grid.labels.boxes@.len() == k,
                forall|j: int|
                    0 <= j < CATEGORY_COUNT ==> (#[trigger] grid.columns@[j]).label.text@
                        == spec_cat_name(crate::entry::spec_cat_of_index(j)),
                forall|k2: int|
                    0 <= k2 < k ==> period_cell_ok(
                        #[trigger] grid.labels.boxes@[k2],
                        self.data@[k2].period,
                    ),
                forall|j: int|
                    0 <= j < CATEGORY_COUNT ==> (#[trigger] grid.columns@[j]).boxes@.len() == k,
                forall|j: int, k2: int|
                    0 <= j < CATEGORY_COUNT && 0 <= k2 < k ==> amount_cell_ok(
                        #[trigger] grid.columns@[j].boxes@[k2],
                        self.data@[k2].amounts@[j],
                    ),
            decreases n - k,
        {
            let sum = table_slice_index(self.data, k);
            let mut boxes: Vec<BoxFmt> = Vec::new();
            let mut j: usize = 0;
            while j < CATEGORY_COUNT
                invariant
                    j <= CATEGORY_COUNT,
                    boxes@.len() == j,
                    sum.wf(),
                    sum == self.data@[k as int],
                    k < self.data@.len(),
                    forall|j2: int|
                        0 <= j2 < j ==> amount_cell_ok(
                            #[trigger] boxes@[j2],
                            sum.amounts@[j2],
                        ),
                decreases CATEGORY_COUNT - j,
            {
                boxes.push(BoxFmt::amount(sum.amounts[j]));
                j = j + 1;
            }
            grid.push_line(BoxFmt::period(sum.period()), boxes);
            k = k + 1;
        }
        grid
    }
}

fn table_slice_len(s: &[Summary]) -> (n: usize)
    ensures
        n == s@.len(),
{
    s.len()
}

fn table_slice_index(s: &[Summary], i: usize) -> (r: &Summary)
    requires
        i < s@.len(),
    ensures
        *r == s@[i as int],
{
    &s[i]
}

} // verus!
