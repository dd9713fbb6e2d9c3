//! Placement of the items table of an invoice page. Lengths are in
//! thousandths of a point; `y` grows down the page from its top edge.
//! Columns are placed by measured text widths, never by character counts,
//! because the font is proportional.

use vstd::prelude::*;

use crate::metrics::{FontMetrics, wrapped_lines, scaled, text_units, wrap_text};

verus! {

/// The height of a line of body text.
pub const LINE_HEIGHT: u128 = 14000;

/// The size of body text, in points.
pub const TEXT_SIZE: u16 = 10;

/// The size of the grand total, in points.
pub const TOTAL_SIZE: u16 = 14;

/// The left margin of the page.
pub const LEFT: u128 = 56693;

/// The right boundary of the text area.
pub const RIGHT: u128 = 538583;

/// The space between two columns.
pub const COLUMN_GAP: u128 = 8000;

/// The texts of one row of the items table.
#[derive(Debug, Clone, PartialEq, Eq)]
pub struct ItemTexts {
    pub quantity: String,
    pub description: String,
    pub unit_price: String,
    pub total: String,
}

/// Where the parts of one row stand.
#[derive(Debug, Clone, PartialEq, Eq)]
pub struct RowLayout {
    pub y: u128,
    pub height: u128,
    pub quantity_x: u128,
    pub description_lines: Vec<String>,
    pub unit_price_x: u128,
    pub total_x: u128,
}

/// The columns and rows of the items table.
#[derive(Debug, Clone, PartialEq, Eq)]
pub struct TableLayout {
    /// Where the column headings stand.
    pub top: u128,
    /// The right edge of the quantity column.
    pub quantity_right: u128,
    pub description_x: u128,
    pub description_width: u128,
    /// The right edge of the unit price column.
    pub price_right: u128,
    /// The `x` of the two column headings.
    pub price_heading_x: u128,
    pub total_heading_x: u128,
    pub rows: Vec<RowLayout>,
    /// Where the rule under the table stands.
    pub rule_y: u128,
    pub grand_total_x: u128,
    pub grand_total_y: u128,
}

/// The width of `s` in body text.
pub open spec fn body_width(f: FontMetrics, s: Seq<char>) -> int {
    scaled(f, text_units(f, s), TEXT_SIZE)
}

/// The widest of `texts` in body text, and at least `floor`.
pub open spec fn widest(f: FontMetrics, texts: Seq<Seq<char>>, floor: int) -> int
    decreases texts.len(),
{
    if texts.len() == 0 {
        floor
    } else {
        let w = body_width(f, texts.last());
        let rest = widest(f, texts.drop_last(), floor);
        if w > rest {
            w
        } else {
            rest
        }
    }
}

pub open spec fn quantities(rows: Seq<ItemTexts>) -> Seq<Seq<char>> {
    rows.map_values(|r: ItemTexts| r.quantity@)
}

pub open spec fn unit_prices(rows: Seq<ItemTexts>) -> Seq<Seq<char>> {
    rows.map_values(|r: ItemTexts| r.unit_price@)
}

pub open spec fn totals(rows: Seq<ItemTexts>) -> Seq<Seq<char>> {
    rows.map_values(|r: ItemTexts| r.total@)
}

/// `x` less `y`, or zero.
pub open spec fn minus(x: int, y: int) -> u128 {
    if x - y < 0 {
        0
    } else if x - y > u128::MAX {
        u128::MAX
    } else {
        (x - y) as u128
    }
}

/// `x` plus `y`, or the largest `u128`.
pub open spec fn plus(x: int, y: int) -> u128 {
    if x + y > u128::MAX {
        u128::MAX
    } else if x + y < 0 {
        0
    } else {
        (x + y) as u128
    }
}

/// Whether `t` places the rows `rows`, whose headings are `price_heading`
/// and `total_heading`, from `top` down: columns as wide as their widest
/// text, right-aligned texts that end at their column's right edge,
/// descriptions wrapped to their column, one line of height per line of
/// description (at least one per row), then the rule and the grand total.
pub open spec fn is_table_layout(
    t: TableLayout,
    f: FontMetrics,
    rows: Seq<ItemTexts>,
    price_heading: Seq<char>,
    total_heading: Seq<char>,
    grand_total: Seq<char>,
    top: u128,
) -> bool {
    let total_w = widest(f, totals(rows), body_width(f, total_heading));
    let price_w = widest(f, unit_prices(rows), body_width(f, price_heading));
    let qty_w = widest(f, quantities(rows), 0);
    &&& t.top == top
    &&& t.price_right == minus(RIGHT as int, total_w + COLUMN_GAP)
    &&& t.quantity_right == plus(LEFT as int, qty_w)
    &&& t.description_x == plus(t.quantity_right as int, COLUMN_GAP as int)
    &&& t.description_width == minus(minus(t.price_right as int, price_w + COLUMN_GAP) as int, t.description_x as int)
    &&& t.price_heading_x == minus(t.price_right as int, body_width(f, price_heading))
    &&& t.total_heading_x == minus(RIGHT as int, body_width(f, total_heading))
    &&& t.rows@.len() == rows.len()
    &&& forall|i: int| 0 <= i < rows.len() ==> {
        let r = #[trigger] t.rows@[i];
        let lines = r.description_lines@.len();
        &&& r.y == (if i == 0 {
            plus(top as int, LINE_HEIGHT as int)
        } else {
            plus(t.rows@[i - 1].y as int, t.rows@[i - 1].height as int)
        })
        &&& r.height == plus(0, (if lines == 0 { 1 } else { lines }) * LINE_HEIGHT)
        &&& r.quantity_x == minus(t.quantity_right as int, body_width(f, rows[i].quantity@))
        &&& r.unit_price_x == minus(t.price_right as int, body_width(f, rows[i].unit_price@))
        &&& r.total_x == minus(RIGHT as int, body_width(f, rows[i].total@))
        &&& r.description_lines@.map_values(|l: String| l@) == wrapped_lines(
            f,
            rows[i].description@,
            TEXT_SIZE,
            t.description_width,
        )
    }
    &&& t.rule_y == (if rows.len() == 0 {
        plus(top as int, LINE_HEIGHT as int)
    } else {
        plus(t.rows@[rows.len() - 1].y as int, t.rows@[rows.len() - 1].height as int)
    })
    &&& t.grand_total_y == plus(t.rule_y as int, LINE_HEIGHT as int)
    &&& t.grand_total_x == minus(RIGHT as int, scaled(f, text_units(f, grand_total), TOTAL_SIZE))
}

fn sub_or_zero(x: u128, y: u128) -> (r: u128)
    ensures
        r == minus(x as int, y as int),
{
    x.saturating_sub(y)
}

fn add_or_max(x: u128, y: u128) -> (r: u128)
    ensures
        r == plus(x as int, y as int),
{
    x.saturating_add(y)
}

/// The widest of `texts` in body text, at least `floor`.
fn widest_of(f: &FontMetrics, texts: &Vec<String>, floor: u128) -> (r: u128)
    requires
        f.units_per_em > 0,
    ensures
        r == widest(*f, texts@.map_values(|s: String| s@), floor as int),
{
    let ghost tv = texts@.map_values(|s: String| s@);
    let mut best = floor;
    let mut i: usize = 0;
    while i < texts.len()
        invariant
            f.units_per_em > 0,
            tv == texts@.map_values(|s: String| s@),
            i <= texts@.len(),
            best == widest(*f, tv.subrange(0, i as int), floor as int),
        decreases texts@.len() - i,
    {
        let w = f.measure(texts[i].as_str(), TEXT_SIZE);
        proof {
            let t = tv.subrange(0, i + 1);
            assert(t.drop_last() =~= tv.subrange(0, i as int));
            assert(t.last() == texts@[i as int]@);
        }
        if w > best {
            best = w;
        }
        i = i + 1;
    }
    proof {
        assert(tv.subrange(0, texts@.len() as int) =~= tv);
    }
    best
}


/// The texts of one column of `rows`: 0 the quantities, 1 the unit prices,
/// otherwise the totals.
pub open spec fn column(rows: Seq<ItemTexts>, col: u8) -> Seq<Seq<char>> {
    if col == 0 {
        quantities(rows)
    } else if col == 1 {
        unit_prices(rows)
    } else {
        totals(rows)
    }
}

fn column_texts(rows: &Vec<ItemTexts>, col: u8) -> (r: Vec<String>)
    ensures
        r@.map_values(|s: String| s@) == column(rows@, col),
{
    let mut out: Vec<String> = Vec::new();
    let mut i: usize = 0;
    while i < rows.len()
        invariant
            i <= rows@.len(),
            out@.len() == i,
            forall|j: int| 0 <= j < i ==> (#[trigger] out@[j])@ == column(rows@, col)[j],
        decreases rows@.len() - i,
    {
        let t = if col == 0 {
            rows[i].quantity.clone()
        } else if col == 1 {
            rows[i].unit_price.clone()
        } else {
            rows[i].total.clone()
        };
        out.push(t);
        i = i + 1;
    }
    proof {
        assert(out@.map_values(|s: String| s@) =~= column(rows@, col));
    }
    out
}

/// Whether `placed` holds the first rows of the table placed from `top`
/// down with the given columns.
pub open spec fn rows_placed(
    placed: Seq<RowLayout>,
    f: FontMetrics,
    rows: Seq<ItemTexts>,
    top: u128,
    quantity_right: u128,
    price_right: u128,
    description_width: u128,
) -> bool {
    forall|i: int| 0 <= i < placed.len() ==> {
        let r = #[trigger] placed[i];
        let lines = r.description_lines@.len();
        &&& r.y == (if i == 0 {
            plus(top as int, LINE_HEIGHT as int)
        } else {
            plus(placed[i - 1].y as int, placed[i - 1].height as int)
        })
        &&& r.height == plus(0, (if lines == 0 { 1 } else { lines }) * LINE_HEIGHT)
        &&& r.quantity_x == minus(quantity_right as int, body_width(f, rows[i].quantity@))
        &&& r.unit_price_x == minus(price_right as int, body_width(f, rows[i].unit_price@))
        &&& r.total_x == minus(RIGHT as int, body_width(f, rows[i].total@))
        &&& r.description_lines@.map_values(|l: String| l@) == wrapped_lines(
            f,
            rows[i].description@,
            TEXT_SIZE,
            description_width,
        )
    }
}

fn place_rows(
    f: &FontMetrics,
    rows: &Vec<ItemTexts>,
    top: u128,
    quantity_right: u128,
    price_right: u128,
    description_width: u128,
) -> (r: Vec<RowLayout>)
    requires
        f.units_per_em > 0,
    ensures
        r@.len() == rows@.len(),
        rows_placed(r@, *f, rows@, top, quantity_right, price_right, description_width),
{
    let mut placed: Vec<RowLayout> = Vec::new();
    let mut y = add_or_max(top, LINE_HEIGHT);
    let mut k: usize = 0;
    while k < rows.len()
        invariant
            f.units_per_em > 0,
            k <= rows@.len(),
            placed@.len() == k,
            y == (if k == 0 {
                plus(top as int, LINE_HEIGHT as int)
            } else {
                plus(placed@[k - 1].y as int, placed@[k - 1].height as int)
            }),
            rows_placed(placed@, *f, rows@, top, quantity_right, price_right, description_width),
        decreases rows@.len() - k,
    {
        let row = &rows[k];
        let lines = wrap_text(row.description.as_str(), f, TEXT_SIZE, description_width);
        let count = lines.len();
        let height = (if count == 0 {
            1
        } else {
            count
        }) as u128;
        proof {
            assert(height * LINE_HEIGHT <= 0xffff_ffff_ffff_ffff * LINE_HEIGHT) by (nonlinear_arith)
                requires
                    height <= 0xffff_ffff_ffff_ffff,
            ;
        }
        let r = RowLayout {
            y,
            height: height * LINE_HEIGHT,
            quantity_x: sub_or_zero(quantity_right, f.measure(row.quantity.as_str(), TEXT_SIZE)),
            description_lines: lines,
            unit_price_x: sub_or_zero(price_right, f.measure(row.unit_price.as_str(), TEXT_SIZE)),
            total_x: sub_or_zero(RIGHT, f.measure(row.total.as_str(), TEXT_SIZE)),
        };
        y = add_or_max(y, r.height);
        placed.push(r);
        k = k + 1;
    }
    placed
}

/// Places the items table from `top` down (see `is_table_layout`): a first
/// pass measures the widest text of each column, a second wraps the
/// descriptions and places the rows.
pub fn layout_table(
    f: &FontMetrics,
    rows: &Vec<ItemTexts>,
    price_heading: &str,
    total_heading: &str,
    grand_total: &str,
    top: u128,
) -> (r: TableLayout)
    requires
        f.units_per_em > 0,
    ensures
        is_table_layout(r, *f, rows@, price_heading@, total_heading@, grand_total@, top),
{
    let qtys = column_texts(rows, 0);
    let prices = column_texts(rows, 1);
    let sums = column_texts(rows, 2);
    let total_w = widest_of(f, &sums, f.measure(total_heading, TEXT_SIZE));
    let price_w = widest_of(f, &prices, f.measure(price_heading, TEXT_SIZE));
    let qty_w = widest_of(f, &qtys, 0);
    let price_right = sub_or_zero(RIGHT, add_or_max(total_w, COLUMN_GAP));
    let quantity_right = add_or_max(LEFT, qty_w);
    let description_x = add_or_max(quantity_right, COLUMN_GAP);
    let description_width = sub_or_zero(
        sub_or_zero(price_right, add_or_max(price_w, COLUMN_GAP)),
        description_x,
    );
    let placed = place_rows(f, rows, top, quantity_right, price_right, description_width);
    let n = placed.len();
    let rule_y = if n == 0 {
        add_or_max(top, LINE_HEIGHT)
    } else {
        add_or_max(placed[n - 1].y, placed[n - 1].height)
    };
    let grand_total_y = add_or_max(rule_y, LINE_HEIGHT);
    let t = TableLayout {
        top,
        quantity_right,
        description_x,
        description_width,
        price_right,
        price_heading_x: sub_or_zero(price_right, f.measure(price_heading, TEXT_SIZE)),
        total_heading_x: sub_or_zero(RIGHT, f.measure(total_heading, TEXT_SIZE)),
        rows: placed,
        rule_y,
        grand_total_x: sub_or_zero(RIGHT, f.measure(grand_total, TOTAL_SIZE)),
        grand_total_y,
    };
    t
}

} // verus!
