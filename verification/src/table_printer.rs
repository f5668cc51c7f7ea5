//! Tables drawn with box characters, for the terminal.

use crate::text::{
    centered, display_width, left_aligned, push_centered, push_left_aligned, push_repeated,
    push_right_aligned, repeated, right_aligned, str_width, texts,
};
use crate::wrap::{wrapped, wrapper};
use vstd::prelude::*;
use vstd::string::*;

verus! {

/// What a column holds: its name and its cells, from the top.
pub struct ColumnView {
    pub name: Seq<char>,
    pub cells: Seq<Seq<char>>,
}

/// What a table holds.
pub struct TableView {
    pub title: Option<Seq<char>>,
    pub header: Option<Seq<char>>,
    pub footer: Option<Seq<char>>,
    pub columns: Seq<ColumnView>,
    /// What stands in a cell that a column is too short for.
    pub fill: Seq<char>,
}

/// One column of a table.
#[derive(Debug)]
struct Column {
    name: String,
    cells: Vec<String>,
}

impl View for Column {
    type V = ColumnView;

    closed spec fn view(&self) -> ColumnView {
        ColumnView { name: self.name@, cells: texts(self.cells@) }
    }
}

/// A table under construction: an optional title, header and footer, and columns of text.
#[derive(Debug)]
pub struct TablePrinter {
    title: Option<String>,
    header: Option<String>,
    footer: Option<String>,
    columns: Vec<Column>,
    fill: String,
}

/// The characters of an optional text.
pub open spec fn optional_text(text: Option<String>) -> Option<Seq<char>> {
    match text {
        Some(text) => Some(text@),
        None => None,
    }
}

impl View for TablePrinter {
    type V = TableView;

    closed spec fn view(&self) -> TableView {
        TableView {
            title: optional_text(self.title),
            header: optional_text(self.header),
            footer: optional_text(self.footer),
            columns: Seq::new(self.columns@.len(), |i: int| self.columns@[i]@),
            fill: self.fill@,
        }
    }
}

/// The table without title, header, footer and columns, with nothing to fill short columns.
pub open spec fn empty_table() -> TableView {
    TableView {
        title: None,
        header: None,
        footer: None,
        columns: Seq::empty(),
        fill: Seq::empty(),
    }
}

/// `cells` with one more cell in each of the first columns, as far as `row` reaches: cell `i`
/// of `row` goes to column `i`.
pub open spec fn with_row(columns: Seq<ColumnView>, row: Seq<Seq<char>>) -> Seq<ColumnView> {
    Seq::new(
        columns.len(),
        |i: int|
            if i < row.len() {
                ColumnView { name: columns[i].name, cells: columns[i].cells.push(row[i]) }
            } else {
                columns[i]
            },
    )
}

impl TablePrinter {
    /// A table without title, header, footer and columns.
    pub fn new() -> (table: TablePrinter)
        ensures
            table@ == empty_table(),
    {
        let table = TablePrinter {
            title: None,
            header: None,
            footer: None,
            columns: Vec::new(),
            fill: String::new(),
        };
        assert(table@.columns =~= Seq::empty());
        table
    }

    /// The table with `title` above it.
    pub fn with_title(self, title: String) -> (table: TablePrinter)
        ensures
            table@ == (TableView { title: Some(title@), ..self@ }),
    {
        TablePrinter { title: Some(title), ..self }
    }

    /// The table with `header` between the title and the columns.
    pub fn with_header(self, header: String) -> (table: TablePrinter)
        ensures
            table@ == (TableView { header: Some(header@), ..self@ }),
    {
        TablePrinter { header: Some(header), ..self }
    }

    /// The table with `footer` below the columns.
    pub fn with_footer(self, footer: String) -> (table: TablePrinter)
        ensures
            table@ == (TableView { footer: Some(footer@), ..self@ }),
    {
        TablePrinter { footer: Some(footer), ..self }
    }

    /// The table with `fill_string` for the cells that a column is too short for.
    pub fn with_fill(self, fill_string: &str) -> (table: TablePrinter)
        ensures
            table@ == (TableView { fill: fill_string@, ..self@ }),
    {
        TablePrinter { fill: fill_string.to_owned(), ..self }
    }

    /// The table with one more column at the right, named `col_name` and holding `col_vals`
    /// from the top.
    pub fn with_column(self, col_name: &str, col_vals: &[String]) -> (table: TablePrinter)
        ensures
            table@ == (TableView {
                columns: self@.columns.push(
                    ColumnView { name: col_name@, cells: texts(col_vals@) },
                ),
                ..self@
            }),
    {
        let mut cells: Vec<String> = Vec::new();
        let mut i: usize = 0;
        while i < col_vals.len()
            invariant
                i <= col_vals.len(),
                cells@.len() == i,
                forall|j: int| 0 <= j < i ==> #[trigger] cells@[j]@ == col_vals@[j]@,
            decreases col_vals.len() - i,
        {
            cells.push(col_vals[i].clone());
            i = i + 1;
        }
        assert(texts(cells@) =~= texts(col_vals@));
        let mut table = self;
        let ghost before = table@;
        let column = Column { name: col_name.to_owned(), cells };
        table.columns.push(column);
        assert(table@.columns =~= before.columns.push(column@));
        table
    }

    /// Adds a row at the bottom: value `i` of `row_vals` goes to column `i`. Values beyond the
    /// last column are dropped, and a column beyond the last value gets none.
    pub fn add_row(&mut self, row_vals: Vec<String>)
        ensures
            final(self)@ == (TableView {
                columns: with_row(old(self)@.columns, texts(row_vals@)),
                ..old(self)@
            }),
    {
        let mut i: usize = 0;
        let ghost before = self@;
        while i < self.columns.len() && i < row_vals.len()
            invariant
                i <= row_vals@.len(),
                i <= self.columns@.len(),
                self.columns@.len() == before.columns.len(),
                self@.title == before.title,
                self@.header == before.header,
                self@.footer == before.footer,
                self@.fill == before.fill,
                self@.columns.len() == before.columns.len(),
                forall|j: int|
                    0 <= j < before.columns.len() ==> #[trigger] self@.columns[j] == (if j < i {
                        ColumnView {
                            name: before.columns[j].name,
                            cells: before.columns[j].cells.push(row_vals@[j]@),
                        }
                    } else {
                        before.columns[j]
                    }),
            decreases row_vals.len() - i,
        {
            let ghost earlier = self.columns@;
            let ghost shown = self@;
            assert(shown.columns[i as int] == before.columns[i as int]);
            assert(forall|j: int|
                0 <= j < earlier.len() ==> #[trigger] shown.columns[j] == earlier[j]@);
            let val = row_vals[i].clone();
            self.columns[i].cells.push(val);
            assert(self.columns@[i as int].cells@ == earlier[i as int].cells@.push(val));
            assert(texts(self.columns@[i as int].cells@) =~= texts(earlier[i as int].cells@).push(
                val@,
            ));
            assert(forall|j: int|
                0 <= j < earlier.len() && j != i ==> self.columns@[j] == earlier[j]);
            assert(self.columns@[i as int].name == earlier[i as int].name);
            assert forall|j: int| 0 <= j < before.columns.len() implies #[trigger] self@.columns[j]
                == (if j < i + 1 {
                ColumnView {
                    name: before.columns[j].name,
                    cells: before.columns[j].cells.push(row_vals@[j]@),
                }
            } else {
                before.columns[j]
            }) by {
                assert(shown.columns[j] == earlier[j]@);
                if j != i {
                    assert(self.columns@[j] == earlier[j]);
                }
            }
            i = i + 1;
        }
        assert forall|j: int| 0 <= j < before.columns.len() implies #[trigger] self@.columns[j]
            == with_row(before.columns, texts(row_vals@))[j] by {}
        assert(self@.columns =~= with_row(before.columns, texts(row_vals@)));
    }
}

/// The width of a cell that holds `text`: the columns that the text takes, and a space at
/// either side.
pub open spec fn cell_width(text: Seq<char>) -> int {
    display_width(text) as int + 2
}

/// The larger of two numbers.
pub open spec fn larger(a: int, b: int) -> int {
    if a >= b {
        a
    } else {
        b
    }
}

/// The width that a column needs for its name and its first `n` cells.
pub open spec fn column_width(column: ColumnView, n: int) -> int
    decreases n,
{
    if n <= 0 {
        cell_width(column.name)
    } else {
        larger(column_width(column, n - 1), cell_width(column.cells[n - 1]))
    }
}

/// The width that each column needs for what it holds.
pub open spec fn base_widths(columns: Seq<ColumnView>) -> Seq<int> {
    Seq::new(columns.len(), |i: int| column_width(columns[i], columns[i].cells.len() as int))
}

/// The sum of the first `n` of `widths`.
pub open spec fn sum_widths(widths: Seq<int>, n: int) -> int
    decreases n,
{
    if n <= 0 {
        0
    } else {
        sum_widths(widths, n - 1) + widths[n - 1]
    }
}

/// The width of the columns side by side, with one character between neighbours.
pub open spec fn total_width(widths: Seq<int>) -> int {
    sum_widths(widths, widths.len() as int) + widths.len() - 1
}

/// The least of the first `n` of `widths`, which are not none.
pub open spec fn least_width(widths: Seq<int>, n: int) -> int
    decreases n,
{
    if n <= 1 {
        widths[0]
    } else if widths[n - 1] < least_width(widths, n - 1) {
        widths[n - 1]
    } else {
        least_width(widths, n - 1)
    }
}

/// `widths` with every column narrower than `level` widened to `level`.
pub open spec fn leveled(widths: Seq<int>, level: int) -> Seq<int> {
    Seq::new(widths.len(), |i: int| larger(widths[i], level))
}

/// The width that the table is to have at least: `min_width`, and room for the title with a
/// space at either side.
pub open spec fn target_width(table: TableView, min_width: int) -> int {
    match table.title {
        Some(title) => larger(min_width, cell_width(title)),
        None => min_width,
    }
}

/// Whether `level` is the level up to which the narrowest columns are widened so that the
/// columns are as wide as `target`: the least level, from the narrowest column on, at which
/// they are.
pub open spec fn is_fill_level(base: Seq<int>, target: int, level: int) -> bool {
    &&& level >= least_width(base, base.len() as int)
    &&& total_width(leveled(base, level)) >= target
    &&& level == least_width(base, base.len() as int) || total_width(leveled(base, level - 1))
        < target
}

/// The level up to which the narrowest columns are widened.
pub open spec fn fill_level(base: Seq<int>, target: int) -> int {
    choose|level: int| is_fill_level(base, target, level)
}

/// The widths of the columns of a table that is to be `min_width` wide at least: what each
/// column needs, the narrowest ones widened, all up to the same level, as far as it takes.
pub open spec fn column_widths(table: TableView, min_width: int) -> Seq<int> {
    leveled(
        base_widths(table.columns),
        fill_level(base_widths(table.columns), target_width(table, min_width)),
    )
}

/// The width of the table between its left and its right border.
pub open spec fn table_width(table: TableView, min_width: int) -> int {
    larger(target_width(table, min_width), total_width(column_widths(table, min_width)))
}

/// A sum of widths of which none is smaller is not smaller.
pub proof fn lemma_sum_monotone(a: Seq<int>, b: Seq<int>, n: int)
    requires
        0 <= n <= a.len(),
        a.len() == b.len(),
        forall|i: int| 0 <= i < n ==> a[i] <= b[i],
    ensures
        sum_widths(a, n) <= sum_widths(b, n),
    decreases n,
{
    if n > 0 {
        lemma_sum_monotone(a, b, n - 1);
    }
}

/// The least width is one of the widths, and none is smaller.
pub proof fn lemma_least_width(widths: Seq<int>, n: int)
    requires
        1 <= n <= widths.len(),
    ensures
        exists|k: int| 0 <= k < n && widths[k] == least_width(widths, n),
        forall|i: int| 0 <= i < n ==> least_width(widths, n) <= widths[i],
    decreases n,
{
    if n > 1 {
        lemma_least_width(widths, n - 1);
        let k = choose|k: int| 0 <= k < n - 1 && widths[k] == least_width(widths, n - 1);
        if widths[n - 1] < least_width(widths, n - 1) {
            assert(widths[n - 1] == least_width(widths, n));
        } else {
            assert(widths[k] == least_width(widths, n));
        }
    } else {
        assert(widths[0] == least_width(widths, n));
    }
}

/// The wider the level, the wider the columns.
pub proof fn lemma_leveled_monotone(base: Seq<int>, low: int, high: int)
    requires
        low <= high,
    ensures
        total_width(leveled(base, low)) <= total_width(leveled(base, high)),
{
    lemma_sum_monotone(leveled(base, low), leveled(base, high), base.len() as int);
}

/// There is one fill level at most.
pub proof fn lemma_fill_level_unique(base: Seq<int>, target: int, a: int, b: int)
    requires
        is_fill_level(base, target, a),
        is_fill_level(base, target, b),
    ensures
        a == b,
{
    if a < b {
        lemma_leveled_monotone(base, a, b - 1);
    } else if b < a {
        lemma_leveled_monotone(base, b, a - 1);
    }
}

/// A sum of widths is no smaller than a sum of fewer of them, where none is negative.
pub proof fn lemma_sum_prefix(widths: Seq<int>, m: int, n: int)
    requires
        0 <= m <= n <= widths.len(),
        forall|i: int| 0 <= i < n ==> widths[i] >= 0,
    ensures
        sum_widths(widths, m) <= sum_widths(widths, n),
    decreases n,
{
    if m < n {
        lemma_sum_prefix(widths, m, n - 1);
    }
}

/// A column is no narrower than any of its cells, and none is narrower than two.
pub proof fn lemma_column_width(column: ColumnView, n: int, k: int)
    requires
        0 <= k <= n,
    ensures
        column_width(column, k) <= column_width(column, n),
        column_width(column, n) >= 2,
    decreases n,
{
    if n > k {
        lemma_column_width(column, n - 1, k);
    } else if n > 0 {
        lemma_column_width(column, n - 1, n - 1);
    }
}

/// The columns widened to `level` are as wide as `level` at least.
pub proof fn lemma_leveled_at_least(base: Seq<int>, level: int)
    requires
        base.len() > 0,
        level >= 0,
        forall|i: int| 0 <= i < base.len() ==> base[i] >= 0,
    ensures
        total_width(leveled(base, level)) >= level,
        total_width(leveled(base, level)) >= total_width(base),
{
    let wide = leveled(base, level);
    lemma_sum_prefix(wide, 1, wide.len() as int);
    assert(sum_widths(wide, 1) == sum_widths(wide, 0) + wide[0]);
    lemma_sum_monotone(base, wide, base.len() as int);
}

/// There is a fill level, at `level` or below it, where the columns widened to `level` are
/// as wide as the target.
pub proof fn lemma_fill_level_exists(base: Seq<int>, target: int, level: int)
    requires
        base.len() > 0,
        level >= least_width(base, base.len() as int),
        total_width(leveled(base, level)) >= target,
    ensures
        is_fill_level(base, target, fill_level(base, target)),
        fill_level(base, target) <= level,
    decreases level - least_width(base, base.len() as int),
{
    if level == least_width(base, base.len() as int) || total_width(leveled(base, level - 1))
        < target {
        assert(is_fill_level(base, target, level));
        lemma_fill_level_unique(base, target, level, fill_level(base, target));
    } else {
        lemma_fill_level_exists(base, target, level - 1);
    }
}

/// The width of a table is no less than its target, than what its columns need, and than any
/// width that the columns have on the way to their fill level.
pub proof fn lemma_table_width_bounds(table: TableView, min_width: int)
    requires
        table.columns.len() > 0,
        min_width >= 0,
    ensures
        table_width(table, min_width) >= target_width(table, min_width),
        table_width(table, min_width) >= total_width(base_widths(table.columns)),
        forall|i: int|
            0 <= i < table.columns.len() ==> table_width(table, min_width) >= (
            #[trigger] base_widths(table.columns)[i]),
        is_fill_level(
            base_widths(table.columns),
            target_width(table, min_width),
            fill_level(base_widths(table.columns), target_width(table, min_width)),
        ),
        forall|level: int|
            least_width(base_widths(table.columns), table.columns.len() as int) <= level
                <= fill_level(base_widths(table.columns), target_width(table, min_width))
                ==> table_width(table, min_width) >= #[trigger] total_width(
                leveled(base_widths(table.columns), level),
            ),
{
    let base = base_widths(table.columns);
    let target = target_width(table, min_width);
    let n = base.len() as int;
    assert forall|i: int| 0 <= i < n implies base[i] >= 2 by {
        lemma_column_width(table.columns[i], table.columns[i].cells.len() as int, 0);
    }
    lemma_least_width(base, n);
    let top = larger(target, least_width(base, n));
    lemma_leveled_at_least(base, top);
    lemma_fill_level_exists(base, target, top);
    let level = fill_level(base, target);
    lemma_leveled_at_least(base, level);
    assert forall|i: int| 0 <= i < n implies total_width(base) >= #[trigger] base[i] by {
        lemma_sum_prefix(base, i + 1, n);
        lemma_sum_prefix(base, 0, i);
    }
    assert forall|lower: int| least_width(base, n) <= lower <= level implies table_width(
        table,
        min_width,
    ) >= #[trigger] total_width(leveled(base, lower)) by {
        lemma_leveled_monotone(base, lower, level);
    }
}

/// The widths as numbers without bound.
pub open spec fn widths_of(widths: Seq<usize>) -> Seq<int> {
    Seq::new(widths.len(), |i: int| widths[i] as int)
}

/// The width of a table and of each of its columns.
#[derive(Debug)]
pub struct Layout {
    /// The width between the left and the right border.
    pub table_width: usize,
    /// The width of each column, from the left.
    pub col_widths: Vec<usize>,
}

/// The width of the columns side by side, or `None` where it does not fit the machine.
fn checked_total(widths: &Vec<usize>) -> (total: Option<usize>)
    requires
        widths@.len() > 0,
    ensures
        total.is_some() <==> total_width(widths_of(widths@)) <= usize::MAX,
        total matches Some(t) ==> t == total_width(widths_of(widths@)),
{
    let ghost all = widths_of(widths@);
    let mut sum: usize = 0;
    let mut i: usize = 0;
    while i < widths.len()
        invariant
            i <= widths.len(),
            all == widths_of(widths@),
            sum == sum_widths(all, i as int),
        decreases widths.len() - i,
    {
        sum = match sum.checked_add(widths[i]) {
            Some(sum) => sum,
            None => {
                proof {
                    lemma_sum_prefix(all, i + 1, all.len() as int);
                }
                return None;
            },
        };
        i = i + 1;
    }
    sum.checked_add(widths.len() - 1)
}

/// The least of the widths.
fn least_of(widths: &Vec<usize>) -> (least: usize)
    requires
        widths@.len() > 0,
    ensures
        least == least_width(widths_of(widths@), widths@.len() as int),
{
    let ghost all = widths_of(widths@);
    let mut least = widths[0];
    let mut i: usize = 1;
    while i < widths.len()
        invariant
            1 <= i <= widths.len(),
            all == widths_of(widths@),
            least == least_width(all, i as int),
        decreases widths.len() - i,
    {
        if widths[i] < least {
            least = widths[i];
        }
        i = i + 1;
    }
    least
}

/// Widens by `step` every column that is `least` wide.
fn widen_narrowest(widths: &mut Vec<usize>, least: usize, step: usize)
    requires
        least + step <= usize::MAX,
    ensures
        widths_of(final(widths)@) == raised(widths_of(old(widths)@), least as int, step as int),
{
    let ghost before = widths_of(widths@);
    let mut i: usize = 0;
    while i < widths.len()
        invariant
            i <= widths.len(),
            least + step <= usize::MAX,
            widths@.len() == before.len(),
            forall|j: int|
                0 <= j < widths@.len() ==> #[trigger] widths@[j] == (if j < i && before[j]
                    == least {
                    least + step
                } else {
                    before[j]
                }),
        decreases widths.len() - i,
    {
        if widths[i] == least {
            widths.set(i, least + step);
        }
        i = i + 1;
    }
    assert(widths_of(widths@) =~= raised(before, least as int, step as int));
}

/// `widths` with every column that is `least` wide widened by `step`.
pub open spec fn raised(widths: Seq<int>, least: int, step: int) -> Seq<int> {
    Seq::new(
        widths.len(),
        |i: int|
            if widths[i] == least {
                least + step
            } else {
                widths[i]
            },
    )
}

/// The number of the first `n` of `widths` that are `least`.
pub open spec fn count_narrowest(widths: Seq<int>, least: int, n: int) -> int
    decreases n,
{
    if n <= 0 {
        0
    } else if widths[n - 1] == least {
        count_narrowest(widths, least, n - 1) + 1
    } else {
        count_narrowest(widths, least, n - 1)
    }
}

/// The number of columns that are `least` wide.
fn count_of(widths: &Vec<usize>, least: usize) -> (count: usize)
    ensures
        count == count_narrowest(widths_of(widths@), least as int, widths@.len() as int),
{
    let ghost all = widths_of(widths@);
    let mut count: usize = 0;
    let mut i: usize = 0;
    while i < widths.len()
        invariant
            i <= widths.len(),
            all == widths_of(widths@),
            count <= i,
            count == count_narrowest(all, least as int, i as int),
        decreases widths.len() - i,
    {
        if widths[i] == least {
            count = count + 1;
        }
        i = i + 1;
    }
    count
}

/// The least width above `least`, or `None` where no column is wider than `least`.
fn next_above(widths: &Vec<usize>, least: usize) -> (next: Option<usize>)
    ensures
        match next {
            Some(next) => next > least && forall|i: int|
                0 <= i < widths@.len() ==> widths@[i] <= least || #[trigger] widths@[i] >= next,
            None => forall|i: int| 0 <= i < widths@.len() ==> #[trigger] widths@[i] <= least,
        },
{
    let mut next: Option<usize> = None;
    let mut i: usize = 0;
    while i < widths.len()
        invariant
            i <= widths.len(),
            match next {
                Some(next) => next > least && forall|j: int|
                    0 <= j < i ==> widths@[j] <= least || #[trigger] widths@[j] >= next,
                None => forall|j: int| 0 <= j < i ==> #[trigger] widths@[j] <= least,
            },
        decreases widths.len() - i,
    {
        let width = widths[i];
        if width > least {
            next = match next {
                Some(next) => if width < next {
                    Some(width)
                } else {
                    Some(next)
                },
                None => Some(width),
            };
        }
        i = i + 1;
    }
    next
}

/// Widening the narrowest columns by `step` adds `step` to the sum for each of them.
pub proof fn lemma_raised_sum(widths: Seq<int>, least: int, step: int, n: int)
    requires
        0 <= n <= widths.len(),
    ensures
        sum_widths(raised(widths, least, step), n) == sum_widths(widths, n) + count_narrowest(
            widths,
            least,
            n,
        ) * step,
    decreases n,
{
    if n > 0 {
        lemma_raised_sum(widths, least, step, n - 1);
        let c = count_narrowest(widths, least, n - 1);
        assert((c + 1) * step == c * step + step) by (nonlinear_arith);
    } else {
        assert(0 * step == 0) by (nonlinear_arith);
    }
}

/// The narrowest of some columns is one of them at least.
pub proof fn lemma_count_narrowest(widths: Seq<int>, n: int)
    requires
        1 <= n <= widths.len(),
    ensures
        count_narrowest(widths, least_width(widths, n), n) >= 1,
        forall|least: int, m: int|
            0 <= m <= widths.len() ==> #[trigger] count_narrowest(widths, least, m) >= 0,
    decreases n,
{
    lemma_count_nonnegative(widths, least_width(widths, n), n);
    assert forall|least: int, m: int| 0 <= m <= widths.len() implies #[trigger] count_narrowest(
        widths,
        least,
        m,
    ) >= 0 by {
        lemma_count_nonnegative(widths, least, m);
    }
    lemma_least_width(widths, n);
    let k = choose|k: int| 0 <= k < n && widths[k] == least_width(widths, n);
    lemma_count_at_least(widths, least_width(widths, n), n, k);
}

/// A count is not negative.
pub proof fn lemma_count_nonnegative(widths: Seq<int>, least: int, n: int)
    ensures
        count_narrowest(widths, least, n) >= 0,
    decreases n,
{
    if n > 0 {
        lemma_count_nonnegative(widths, least, n - 1);
    }
}

/// A column that is `least` wide is counted.
pub proof fn lemma_count_at_least(widths: Seq<int>, least: int, n: int, k: int)
    requires
        0 <= k < n <= widths.len(),
        widths[k] == least,
    ensures
        count_narrowest(widths, least, n) >= 1,
    decreases n,
{
    lemma_count_nonnegative(widths, least, n - 1);
    if k < n - 1 {
        lemma_count_at_least(widths, least, n - 1, k);
    }
}

/// Widening the narrowest of the leveled columns by `step` levels them at `step` above, where
/// no column lies in between.
pub proof fn lemma_raised_is_leveled(base: Seq<int>, level: int, step: int)
    requires
        step >= 0,
        forall|i: int|
            0 <= i < base.len() ==> (#[trigger] leveled(base, level)[i]) == level || leveled(
                base,
                level,
            )[i] >= level + step,
    ensures
        raised(leveled(base, level), level, step) == leveled(base, level + step),
{
    assert forall|i: int| 0 <= i < base.len() implies raised(leveled(base, level), level, step)[i]
        == leveled(base, level + step)[i] by {
        assert(leveled(base, level)[i] == larger(base[i], level));
    }
    assert(raised(leveled(base, level), level, step) =~= leveled(base, level + step));
}

/// The least of the columns widened to `level` is `level`, from the least of them on.
pub proof fn lemma_least_of_leveled(base: Seq<int>, level: int)
    requires
        base.len() > 0,
        level >= least_width(base, base.len() as int),
    ensures
        least_width(leveled(base, level), base.len() as int) == level,
{
    let n = base.len() as int;
    let wide = leveled(base, level);
    lemma_least_width(base, n);
    lemma_least_width(wide, n);
    let k = choose|k: int| 0 <= k < n && base[k] == least_width(base, n);
    assert(wide[k] == level);
    let j = choose|j: int| 0 <= j < n && wide[j] == least_width(wide, n);
    assert(wide[j] >= level);
}

impl TablePrinter {
    /// The width that the column at `index` needs for what it holds, or `None` where it does
    /// not fit the machine.
    fn needed_width(&self, index: usize) -> (width: Option<usize>)
        requires
            index < self@.columns.len(),
        ensures
            width.is_some() <==> base_widths(self@.columns)[index as int] <= usize::MAX,
            width matches Some(w) ==> w == base_widths(self@.columns)[index as int],
    {
        let column = &self.columns[index];
        let ghost shown = self@.columns[index as int];
        assert(shown == column@);
        let mut width: usize = match str_width(column.name.as_str()).checked_add(2) {
            Some(width) => width,
            None => {
                proof {
                    lemma_column_width(shown, shown.cells.len() as int, 0);
                }
                return None;
            },
        };
        let mut i: usize = 0;
        while i < column.cells.len()
            invariant
                i <= column.cells.len(),
                index < self@.columns.len(),
                shown == column@,
                shown == self@.columns[index as int],
                width == column_width(shown, i as int),
            decreases column.cells.len() - i,
        {
            assert(shown.cells[i as int] == column.cells@[i as int]@);
            let cell = match str_width(column.cells[i].as_str()).checked_add(2) {
                Some(cell) => cell,
                None => {
                    proof {
                        lemma_column_width(shown, shown.cells.len() as int, i + 1);
                        assert(column_width(shown, i + 1) >= cell_width(shown.cells[i as int]));
                    }
                    return None;
                },
            };
            if width < cell {
                width = cell;
            }
            i = i + 1;
        }
        Some(width)
    }

    /// The width of the table and of each of its columns, for a table that has a column and is
    /// to be `min_width` wide at least. Each column is as wide as its name and its cells need,
    /// with a space at either side. Where the columns side by side are narrower than
    /// `min_width`, or than the title needs, the narrowest of them are widened, all up to the
    /// same level. `None` where the width of the table does not fit the machine.
    pub fn calculate_widths(&self, min_width: usize) -> (layout: Option<Layout>)
        requires
            self@.columns.len() > 0,
        ensures
            layout.is_some() <==> table_width(self@, min_width as int) <= usize::MAX,
            layout matches Some(l) ==> l.table_width == table_width(self@, min_width as int)
                && widths_of(l.col_widths@) == column_widths(self@, min_width as int),
    {
        let ghost base = base_widths(self@.columns);
        let ghost n = base.len() as int;
        proof {
            lemma_table_width_bounds(self@, min_width as int);
        }
        let title_width: usize = match &self.title {
            Some(title) => match str_width(title.as_str()).checked_add(2) {
                Some(width) => width,
                None => {
                    return None;
                },
            },
            None => 0,
        };
        let target = if min_width > title_width {
            min_width
        } else {
            title_width
        };
        assert(target == target_width(self@, min_width as int));
        let mut widths: Vec<usize> = Vec::new();
        let mut i: usize = 0;
        while i < self.columns.len()
            invariant
                i <= self.columns.len(),
                n == self.columns@.len(),
                base == base_widths(self@.columns),
                widths@.len() == i,
                forall|j: int| 0 <= j < i ==> #[trigger] widths@[j] == base[j],
                forall|j: int|
                    0 <= j < n ==> table_width(self@, min_width as int) >= #[trigger] base[j],
            decreases self.columns.len() - i,
        {
            match self.needed_width(i) {
                Some(width) => {
                    widths.push(width);
                },
                None => {
                    assert(table_width(self@, min_width as int) >= base[i as int]);
                    return None;
                },
            }
            i = i + 1;
        }
        assert(widths_of(widths@) =~= base);
        fill_widths(&widths, target)
    }
}

/// The widths of columns that are to be `target` wide side by side: the narrowest of `base`
/// widened, all up to the same level, as far as it takes.
pub open spec fn filled(base: Seq<int>, target: int) -> Seq<int> {
    leveled(base, fill_level(base, target))
}

/// The width of a table whose columns are `base` wide at least and that is to be `target` wide
/// at least.
pub open spec fn filled_width(base: Seq<int>, target: int) -> int {
    larger(target, total_width(filled(base, target)))
}

/// A copy of the widths.
fn copy_widths(base: &Vec<usize>) -> (widths: Vec<usize>)
    ensures
        widths@ == base@,
{
    let mut widths: Vec<usize> = Vec::new();
    let mut i: usize = 0;
    while i < base.len()
        invariant
            i <= base.len(),
            widths@ == base@.take(i as int),
        decreases base.len() - i,
    {
        widths.push(base[i]);
        i = i + 1;
        assert(widths@ =~= base@.take(i as int));
    }
    assert(base@.take(base@.len() as int) =~= base@);
    widths
}

/// The widths of the columns and of the table, for columns that need the widths `base` in a
/// table that is to be `target` wide at least. Where the columns side by side are narrower
/// than `target`, the narrowest of them are widened, all up to the same level, until they are
/// not. `None` where the width of the table does not fit the machine.
pub fn fill_widths(base: &Vec<usize>, target: usize) -> (layout: Option<Layout>)
    requires
        base@.len() > 0,
    ensures
        layout.is_some() <==> filled_width(widths_of(base@), target as int) <= usize::MAX,
        layout matches Some(l) ==> l.table_width == filled_width(
            widths_of(base@),
            target as int,
        ) && widths_of(l.col_widths@) == filled(widths_of(base@), target as int),
{
    let ghost needed = widths_of(base@);
    let ghost n = needed.len() as int;
    let ghost goal = target as int;
    proof {
        lemma_least_width(needed, n);
        let top = larger(goal, least_width(needed, n));
        lemma_leveled_at_least(needed, top);
        lemma_fill_level_exists(needed, goal, top);
        lemma_leveled_at_least(needed, fill_level(needed, goal));
    }
    let mut widths = copy_widths(base);
    let mut total: usize = match checked_total(&widths) {
        Some(total) => total,
        None => {
            return None;
        },
    };
    let ghost mut level: int = least_width(needed, n);
    proof {
        assert(leveled(needed, level) =~= needed);
    }
    while total < target
        invariant
            n == needed.len(),
            n > 0,
            widths@.len() == n,
            needed == widths_of(base@),
            goal == target,
            level >= least_width(needed, n),
            widths_of(widths@) == leveled(needed, level),
            total == total_width(leveled(needed, level)),
            level == least_width(needed, n) || total_width(leveled(needed, level - 1)) < goal,
            is_fill_level(needed, goal, fill_level(needed, goal)),
        decreases
                (if total < target {
                    target - total
                } else {
                    0
                }),
    {
        let least = least_of(&widths);
        let count = count_of(&widths, least);
        let next = next_above(&widths, least);
        let ghost narrow = widths_of(widths@);
        proof {
            lemma_least_of_leveled(needed, level);
            lemma_least_width(narrow, n);
            lemma_count_narrowest(narrow, n);
            let k = choose|k: int| 0 <= k < n && narrow[k] == least_width(narrow, n);
            lemma_sum_prefix(narrow, k + 1, n);
            lemma_sum_prefix(narrow, 0, k);
            assert(least <= total);
            assert(least == level);
        }
        let need: usize = target - total;
        let mut step: usize = (need - 1) / count + 1;
        proof {
            assert(count * ((need - 1) / (count as int)) <= need - 1) by (nonlinear_arith)
                requires
                    count >= 1,
                    need >= 1,
            ;
            assert(step <= need) by (nonlinear_arith)
                requires
                    step == (need - 1) / (count as int) + 1,
                    count >= 1,
                    need >= 1,
            ;
        }
        match next {
            Some(next) => {
                if next - least < step {
                    step = next - least;
                }
            },
            None => {},
        }
        assert(count * (step - 1) < need) by (nonlinear_arith)
            requires
                count * ((need - 1) / (count as int)) <= need - 1,
                0 <= step - 1 <= (need - 1) / (count as int),
                count >= 1,
        ;
        proof {
            assert forall|i: int| 0 <= i < n implies (#[trigger] leveled(needed, level)[i])
                == level || leveled(needed, level)[i] >= level + step by {
                assert(narrow[i] == widths@[i]);
                assert(narrow[i] >= least);
            }
        }
        widen_narrowest(&mut widths, least, step);
        proof {
            let wide = widths_of(widths@);
            lemma_raised_is_leveled(needed, level, step as int);
            lemma_raised_is_leveled(needed, level, step - 1);
            assert(wide == leveled(needed, level + step));
            lemma_raised_sum(narrow, level, step as int, n);
            lemma_raised_sum(narrow, level, step - 1, n);
            assert(count * step >= 1) by (nonlinear_arith)
                requires
                    count >= 1,
                    step >= 1,
            ;
            // The level below the new one is not enough, so no fill level lies below the new one.
            assert(total_width(leveled(needed, level + step - 1)) < goal);
            if fill_level(needed, goal) < level + step {
                lemma_leveled_monotone(needed, fill_level(needed, goal), level + step - 1);
            }
            lemma_leveled_monotone(needed, level + step, fill_level(needed, goal));
        }
        total = match checked_total(&widths) {
            Some(wider) => wider,
            None => {
                return None;
            },
        };
        proof {
            level = level + step;
        }
    }
    proof {
        assert(is_fill_level(needed, goal, level));
        lemma_fill_level_unique(needed, goal, level, fill_level(needed, goal));
    }
    let table_width = if total > target {
        total
    } else {
        target
    };
    Some(Layout { table_width, col_widths: widths })
}

impl Default for TablePrinter {
    /// A table without title, header, footer and columns.
    fn default() -> (table: TablePrinter)
        ensures
            table@ == empty_table(),
    {
        TablePrinter::new()
    }
}

/// `widths[0]` bars, and for each of the other first `n` widths a joint and that many bars.
pub open spec fn bars(widths: Seq<int>, joint: Seq<char>, n: int) -> Seq<char>
    decreases n,
{
    if n <= 0 {
        Seq::empty()
    } else if n == 1 {
        repeated("\u{2500}"@, widths[0] as nat)
    } else {
        bars(widths, joint, n - 1) + joint + repeated("\u{2500}"@, widths[n - 1] as nat)
    }
}

/// A horizontal line over the columns: a corner, the bars of the columns with a joint between
/// neighbours, a corner, and a line feed.
pub open spec fn column_rule(
    left: Seq<char>,
    widths: Seq<int>,
    joint: Seq<char>,
    right: Seq<char>,
) -> Seq<char> {
    left + bars(widths, joint, widths.len() as int) + right + "\n"@
}

/// A horizontal line over the whole table: a corner, `width` bars, a corner, and a line
/// feed.
pub open spec fn full_rule(left: Seq<char>, width: int, right: Seq<char>) -> Seq<char> {
    left + repeated("\u{2500}"@, width as nat) + right + "\n"@
}

/// The first `n` of `lines`, each between the borders of the table, at the left, and with a
/// line feed.
pub open spec fn boxed_lines(lines: Seq<Seq<char>>, width: int, n: int) -> Seq<char>
    decreases n,
{
    if n <= 0 {
        Seq::empty()
    } else {
        boxed_lines(lines, width, n - 1) + "\u{2502}"@ + left_aligned(lines[n - 1], width)
            + "\u{2502}\n"@
    }
}

/// A text between the borders of the table, broken into lines that fit.
pub open spec fn boxed_text(text: Seq<char>, width: int) -> Seq<char> {
    boxed_lines(wrapped(text, width), width, wrapped(text, width).len() as int)
}

/// The left corner of a line that has something above it, or nothing.
pub open spec fn left_corner(joined: bool) -> Seq<char> {
    if joined {
        "\u{251c}"@
    } else {
        "\u{250c}"@
    }
}

/// The right corner of a line that has something above it, or nothing.
pub open spec fn right_corner(joined: bool) -> Seq<char> {
    if joined {
        "\u{2524}"@
    } else {
        "\u{2510}"@
    }
}

/// The top of the table: an empty line and, where there is a title, the title in the middle
/// of a box that is open below.
pub open spec fn title_block(table: TableView, width: int) -> Seq<char> {
    match table.title {
        Some(title) => "\n"@ + full_rule("\u{250c}"@, width, "\u{2510}"@) + "\u{2502}"@
            + centered(title, width) + "\u{2502}\n"@,
        None => "\n"@,
    }
}

/// The header, where there is one: a line over the whole table, and the text of the header
/// between the borders.
pub open spec fn header_block(table: TableView, width: int) -> Seq<char> {
    match table.header {
        Some(header) => full_rule(
            left_corner(table.title.is_some()),
            width,
            right_corner(table.title.is_some()),
        ) + boxed_text(header, width),
        None => Seq::empty(),
    }
}

/// The names of the first `n` columns, each in the middle of its column, with a border at
/// the left.
pub open spec fn name_cells(columns: Seq<ColumnView>, widths: Seq<int>, n: int) -> Seq<char>
    decreases n,
{
    if n <= 0 {
        Seq::empty()
    } else {
        name_cells(columns, widths, n - 1) + "\u{2502} "@ + centered(
            columns[n - 1].name,
            widths[n - 1] - 2,
        ) + " "@
    }
}

/// The names of the columns: a line over the columns, and the names.
pub open spec fn names_block(table: TableView, widths: Seq<int>) -> Seq<char> {
    column_rule(
        left_corner(table.title.is_some() || table.header.is_some()),
        widths,
        "\u{252C}"@,
        right_corner(table.title.is_some() || table.header.is_some()),
    ) + name_cells(table.columns, widths, table.columns.len() as int) + "\u{2502}\n"@
}

/// The number of cells of the longest of the first `n` columns.
pub open spec fn row_count(columns: Seq<ColumnView>, n: int) -> int
    decreases n,
{
    if n <= 0 {
        0
    } else {
        larger(row_count(columns, n - 1), columns[n - 1].cells.len() as int)
    }
}

/// What stands in row `row` of a column: its cell, or the fill where it has none.
pub open spec fn cell_or_fill(column: ColumnView, fill: Seq<char>, row: int) -> Seq<char> {
    if row < column.cells.len() {
        column.cells[row]
    } else {
        fill
    }
}

/// Row `row` of the first `n` columns: each cell at the right of its column, with a border at
/// the left.
pub open spec fn row_cells(table: TableView, widths: Seq<int>, row: int, n: int) -> Seq<char>
    decreases n,
{
    if n <= 0 {
        Seq::empty()
    } else {
        row_cells(table, widths, row, n - 1) + "\u{2502} "@ + right_aligned(
            cell_or_fill(table.columns[n - 1], table.fill, row),
            widths[n - 1] - 2,
        ) + " "@
    }
}

/// The first `n` rows of the table.
pub open spec fn data_rows(table: TableView, widths: Seq<int>, n: int) -> Seq<char>
    decreases n,
{
    if n <= 0 {
        Seq::empty()
    } else {
        data_rows(table, widths, n - 1) + row_cells(
            table,
            widths,
            n - 1,
            table.columns.len() as int,
        ) + "\u{2502}\n"@
    }
}

/// The cells of the table: a line over the columns, and as many rows as the longest column
/// has cells.
pub open spec fn rows_block(table: TableView, widths: Seq<int>) -> Seq<char> {
    column_rule("\u{251C}"@, widths, "\u{253C}"@, "\u{2524}"@) + data_rows(
        table,
        widths,
        row_count(table.columns, table.columns.len() as int),
    )
}

/// The bottom of the table: a line over the columns and, where there is a footer, its text
/// between the borders and a line over the whole table.
pub open spec fn footer_block(table: TableView, widths: Seq<int>, width: int) -> Seq<char> {
    match table.footer {
        Some(footer) => column_rule("\u{251c}"@, widths, "\u{2534}"@, "\u{2524}"@) + boxed_text(
            footer,
            width,
        ) + full_rule("\u{2514}"@, width, "\u{2518}"@),
        None => column_rule("\u{2514}"@, widths, "\u{2534}"@, "\u{2518}"@),
    }
}

/// The table as text, for columns of the given widths in a table of the given width.
pub open spec fn drawn(table: TableView, widths: Seq<int>, width: int) -> Seq<char> {
    title_block(table, width) + header_block(table, width) + names_block(table, widths)
        + rows_block(table, widths) + footer_block(table, widths, width)
}

/// The table as text, `min_width` wide at least.
pub open spec fn rendered(table: TableView, min_width: int) -> Seq<char> {
    drawn(table, column_widths(table, min_width), table_width(table, min_width))
}

/// Why a table cannot be drawn.
#[derive(Clone, Copy, Debug, PartialEq, Eq, Structural)]
pub enum TableError {
    /// The table has no column.
    NoColumns,
    /// The table is wider than the machine can count.
    TooWide,
}

/// Appends a line over the columns to `builder`.
fn push_column_rule(builder: &mut String, left: &str, widths: &Vec<usize>, joint: &str, right: &str)
    requires
        widths@.len() > 0,
    ensures
        final(builder)@ == old(builder)@ + column_rule(
            left@,
            widths_of(widths@),
            joint@,
            right@,
        ),
{
    let ghost all = widths_of(widths@);
    builder.append(left);
    push_repeated(builder, "\u{2500}", widths[0]);
    let mut i: usize = 1;
    assert(builder@ =~= old(builder)@ + left@ + bars(all, joint@, 1));
    while i < widths.len()
        invariant
            1 <= i <= widths.len(),
            all == widths_of(widths@),
            builder@ == old(builder)@ + left@ + bars(all, joint@, i as int),
        decreases widths.len() - i,
    {
        builder.append(joint);
        push_repeated(builder, "\u{2500}", widths[i]);
        i = i + 1;
        assert(builder@ =~= old(builder)@ + left@ + bars(all, joint@, i as int));
    }
    builder.append(right);
    builder.append("\n");
    assert(builder@ =~= old(builder)@ + column_rule(left@, all, joint@, right@));
}

/// Appends a line over the whole table to `builder`.
fn push_full_rule(builder: &mut String, left: &str, width: usize, right: &str)
    ensures
        final(builder)@ == old(builder)@ + full_rule(left@, width as int, right@),
{
    builder.append(left);
    push_repeated(builder, "\u{2500}", width);
    builder.append(right);
    builder.append("\n");
    assert(builder@ =~= old(builder)@ + full_rule(left@, width as int, right@));
}

/// Appends a text to `builder`, between the borders of the table and broken into lines that
/// fit.
fn push_boxed_text(builder: &mut String, text: &str, width: usize)
    ensures
        final(builder)@ == old(builder)@ + boxed_text(text@, width as int),
{
    let lines = wrapper(text, width);
    let ghost all = texts(lines@);
    let mut i: usize = 0;
    assert(builder@ =~= old(builder)@ + boxed_lines(all, width as int, 0));
    while i < lines.len()
        invariant
            i <= lines.len(),
            all == texts(lines@),
            builder@ == old(builder)@ + boxed_lines(all, width as int, i as int),
        decreases lines.len() - i,
    {
        builder.append("\u{2502}");
        push_left_aligned(builder, lines[i].as_str(), width);
        builder.append("\u{2502}\n");
        i = i + 1;
        assert(builder@ =~= old(builder)@ + boxed_lines(all, width as int, i as int));
    }
}

impl TablePrinter {
    /// Appends the top of the table to `builder`: an empty line and, where there is one, the
    /// title. Returns whether the next line joins something above it.
    fn print_the_title(&self, table_width: usize, builder: &mut String) -> (joined: bool)
        ensures
            final(builder)@ == old(builder)@ + title_block(self@, table_width as int),
            joined == self@.title.is_some(),
    {
        builder.append("\n");
        match &self.title {
            Some(title) => {
                push_full_rule(builder, "\u{250c}", table_width, "\u{2510}");
                builder.append("\u{2502}");
                push_centered(builder, title.as_str(), table_width);
                builder.append("\u{2502}\n");
                assert(builder@ =~= old(builder)@ + title_block(self@, table_width as int));
                true
            },
            None => false,
        }
    }

    /// Appends the header to `builder`, where there is one. Returns whether the next line
    /// joins something above it.
    fn print_the_header(
        &self,
        joined: bool,
        table_width: usize,
        builder: &mut String,
    ) -> (next: bool)
        requires
            joined == self@.title.is_some(),
        ensures
            final(builder)@ == old(builder)@ + header_block(self@, table_width as int),
            next == (self@.title.is_some() || self@.header.is_some()),
    {
        match &self.header {
            Some(header) => {
                if joined {
                    push_full_rule(builder, "\u{251c}", table_width, "\u{2524}");
                } else {
                    push_full_rule(builder, "\u{250c}", table_width, "\u{2510}");
                }
                push_boxed_text(builder, header.as_str(), table_width);
                assert(builder@ =~= old(builder)@ + header_block(self@, table_width as int));
                true
            },
            None => {
                assert(builder@ =~= old(builder)@ + header_block(self@, table_width as int));
                joined
            },
        }
    }

    /// Appends the names of the columns to `builder`.
    fn print_column_names(&self, joined: bool, col_widths: &Vec<usize>, builder: &mut String)
        requires
            self@.columns.len() > 0,
            col_widths@.len() == self@.columns.len(),
            forall|i: int| 0 <= i < col_widths@.len() ==> col_widths@[i] >= 2,
            joined == (self@.title.is_some() || self@.header.is_some()),
        ensures
            final(builder)@ == old(builder)@ + names_block(self@, widths_of(col_widths@)),
    {
        let ghost widths = widths_of(col_widths@);
        if joined {
            push_column_rule(builder, "\u{251c}", col_widths, "\u{252C}", "\u{2524}");
        } else {
            push_column_rule(builder, "\u{250c}", col_widths, "\u{252C}", "\u{2510}");
        }
        let ghost ruled = builder@;
        let mut i: usize = 0;
        assert(builder@ =~= ruled + name_cells(self@.columns, widths, 0));
        while i < self.columns.len()
            invariant
                i <= self.columns.len(),
                col_widths@.len() == self.columns@.len(),
                forall|j: int| 0 <= j < col_widths@.len() ==> col_widths@[j] >= 2,
                widths == widths_of(col_widths@),
                builder@ == ruled + name_cells(self@.columns, widths, i as int),
            decreases self.columns.len() - i,
        {
            assert(self@.columns[i as int].name == self.columns@[i as int].name@);
            builder.append("\u{2502} ");
            push_centered(builder, self.columns[i].name.as_str(), col_widths[i] - 2);
            builder.append(" ");
            i = i + 1;
            assert(builder@ =~= ruled + name_cells(self@.columns, widths, i as int));
        }
        builder.append("\u{2502}\n");
        assert(builder@ =~= old(builder)@ + names_block(self@, widths));
    }

    /// The number of cells of the longest column.
    fn count_rows(&self) -> (rows: usize)
        ensures
            rows == row_count(self@.columns, self@.columns.len() as int),
    {
        let mut rows: usize = 0;
        let mut i: usize = 0;
        while i < self.columns.len()
            invariant
                i <= self.columns.len(),
                rows == row_count(self@.columns, i as int),
            decreases self.columns.len() - i,
        {
            assert(self@.columns[i as int].cells.len() == self.columns@[i as int].cells@.len());
            if self.columns[i].cells.len() > rows {
                rows = self.columns[i].cells.len();
            }
            i = i + 1;
        }
        rows
    }

    /// Appends the cells of the table to `builder`.
    fn print_data_rows(&self, col_widths: &Vec<usize>, builder: &mut String)
        requires
            self@.columns.len() > 0,
            col_widths@.len() == self@.columns.len(),
            forall|i: int| 0 <= i < col_widths@.len() ==> col_widths@[i] >= 2,
        ensures
            final(builder)@ == old(builder)@ + rows_block(self@, widths_of(col_widths@)),
    {
        let ghost widths = widths_of(col_widths@);
        push_column_rule(builder, "\u{251C}", col_widths, "\u{253C}", "\u{2524}");
        let ghost ruled = builder@;
        let num_rows = self.count_rows();
        let mut row: usize = 0;
        assert(builder@ =~= ruled + data_rows(self@, widths, 0));
        while row < num_rows
            invariant
                row <= num_rows,
                col_widths@.len() == self.columns@.len(),
                forall|j: int| 0 <= j < col_widths@.len() ==> col_widths@[j] >= 2,
                widths == widths_of(col_widths@),
                builder@ == ruled + data_rows(self@, widths, row as int),
            decreases num_rows - row,
        {
            let ghost above = builder@;
            let mut i: usize = 0;
            assert(builder@ =~= above + row_cells(self@, widths, row as int, 0));
            while i < self.columns.len()
                invariant
                    i <= self.columns.len(),
                    col_widths@.len() == self.columns@.len(),
                    forall|j: int| 0 <= j < col_widths@.len() ==> col_widths@[j] >= 2,
                    widths == widths_of(col_widths@),
                    builder@ == above + row_cells(self@, widths, row as int, i as int),
                decreases self.columns.len() - i,
            {
                let column = &self.columns[i];
                assert(self@.columns[i as int] == column@);
                builder.append("\u{2502} ");
                if row < column.cells.len() {
                    assert(column@.cells[row as int] == column.cells@[row as int]@);
                    push_right_aligned(builder, column.cells[row].as_str(), col_widths[i] - 2);
                } else {
                    push_right_aligned(builder, self.fill.as_str(), col_widths[i] - 2);
                }
                builder.append(" ");
                i = i + 1;
                assert(builder@ =~= above + row_cells(self@, widths, row as int, i as int));
            }
            builder.append("\u{2502}\n");
            row = row + 1;
            assert(builder@ =~= ruled + data_rows(self@, widths, row as int));
        }
        assert(builder@ =~= old(builder)@ + rows_block(self@, widths));
    }

    /// Appends the bottom of the table to `builder`.
    fn print_the_footer(&self, table_width: usize, col_widths: &Vec<usize>, builder: &mut String)
        requires
            self@.columns.len() > 0,
            col_widths@.len() == self@.columns.len(),
        ensures
            final(builder)@ == old(builder)@ + footer_block(
                self@,
                widths_of(col_widths@),
                table_width as int,
            ),
    {
        match &self.footer {
            Some(footer) => {
                push_column_rule(builder, "\u{251c}", col_widths, "\u{2534}", "\u{2524}");
                push_boxed_text(builder, footer.as_str(), table_width);
                push_full_rule(builder, "\u{2514}", table_width, "\u{2518}");
                assert(builder@ =~= old(builder)@ + footer_block(
                    self@,
                    widths_of(col_widths@),
                    table_width as int,
                ));
            },
            None => {
                push_column_rule(builder, "\u{2514}", col_widths, "\u{2534}", "\u{2518}");
            },
        }
    }

    /// What `print_with_min_width` returns.
    pub open spec fn printed(
        table: TableView,
        min_width: int,
        text: Result<String, TableError>,
    ) -> bool {
        if table.columns.len() == 0 {
            text == Err::<String, TableError>(TableError::NoColumns)
        } else if table_width(table, min_width) > usize::MAX {
            text == Err::<String, TableError>(TableError::TooWide)
        } else {
            text matches Ok(drawing) && drawing@ == rendered(table, min_width)
        }
    }

    /// The table as text, as wide as its columns need: see `print_with_min_width`.
    pub fn print(self) -> (text: Result<String, TableError>)
        ensures
            TablePrinter::printed(self@, 0, text),
    {
        self.print_with_min_width(0)
    }

    /// The table as text, `min_width` wide at least between its borders: an empty line; the
    /// title, if any, in the middle of a box; the header, if any, broken into lines; the
    /// names of the columns, each in the middle of its column; the rows, each cell at the
    /// right of its column, and the fill where a column has no cell; and the footer, if any,
    /// broken into lines. A table without columns cannot be drawn, nor one that is too wide
    /// for the machine.
    pub fn print_with_min_width(self, min_width: usize) -> (text: Result<String, TableError>)
        ensures
            TablePrinter::printed(self@, min_width as int, text),
    {
        if self.columns.len() == 0 {
            return Err(TableError::NoColumns);
        }
        let layout = match self.calculate_widths(min_width) {
            Some(layout) => layout,
            None => {
                return Err(TableError::TooWide);
            },
        };
        proof {
            let base = base_widths(self@.columns);
            assert forall|i: int| 0 <= i < layout.col_widths@.len() implies layout.col_widths@[i]
                >= 2 by {
                lemma_column_width(self@.columns[i], self@.columns[i].cells.len() as int, 0);
                assert(widths_of(layout.col_widths@)[i] >= base[i]);
            }
        }
        let mut builder = String::new();
        let joined = self.print_the_title(layout.table_width, &mut builder);
        let joined = self.print_the_header(joined, layout.table_width, &mut builder);
        self.print_column_names(joined, &layout.col_widths, &mut builder);
        self.print_data_rows(&layout.col_widths, &mut builder);
        self.print_the_footer(layout.table_width, &layout.col_widths, &mut builder);
        assert(builder@ =~= rendered(self@, min_width as int));
        Ok(builder)
    }
}

} // verus!
