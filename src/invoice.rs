//! Invoices: their items, what each item costs, the grand total, and the
//! payment descriptor that the QR code carries.

use vstd::prelude::*;
use vstd::string::*;

use crate::amount::{Amount, MAX_MANTISSA, MAX_SCALE, decimal_parse_of, div3_nearest, lemma_pow10_adds, pow10};
use crate::payment_method::after_first;
use crate::text::{
    decimal, decimal_text, find, find_char, lemma_find_bounds, parse_u32, parse_u32_spec,
    push_char, push_text, slice_text,
};
use crate::address::postal_code_splittable;
use crate::date::{Date, date_text};
use crate::entity::EntityType;
use crate::entity::eu::{Entity, info_lines_spec};
use crate::iban::{Iban, ToBankAccountNumber, bank_account_spec, paper_format};
use crate::layout::{ItemTexts, LINE_HEIGHT, LEFT, TableLayout, is_table_layout, layout_table, plus};
use crate::metrics::FontMetrics;
use crate::money::{
    Currency, MoneyFormat, create_accounting_from_currency, is_format_for, money_text,
    plain_amount_text, plain_text,
};
use crate::payment_method::{PaymentMethod, name_spec};
use crate::time::{Time, parse_time_spec};
use fast_qr::convert::Builder;


verus! {

#[derive(Debug, Clone, Copy, PartialEq, Eq)]
pub enum InvoiceError {
    /// An amount left the range of a 96-bit decimal.
    InvalidAmount,
}

/// What an item counts: time worked, pieces, or a unit of its own.
#[derive(Debug, Clone, PartialEq, Eq)]
pub enum InvoiceItemType {
    Hours(Time),
    Quantity(u32),
    Other(String),
}

/// The item type that a text names: a duration `hours:minutes`, else a
/// count, else a unit of its own.
pub open spec fn is_item_type_of(t: InvoiceItemType, s: Seq<char>) -> bool {
    match parse_time_spec(s) {
        Ok(time) => t == InvoiceItemType::Hours(time),
        Err(_) => match parse_u32_spec(s) {
            Some(q) => t == InvoiceItemType::Quantity(q),
            None => t matches InvoiceItemType::Other(o) && o@ == s,
        },
    }
}

/// The text of an item type: `"<h> hod"` followed directly by `"<m> min"`
/// when there are minutes; `"<n> ks"`; or the unit itself.
pub open spec fn item_type_text(t: InvoiceItemType) -> Seq<char> {
    match t {
        InvoiceItemType::Hours(time) => decimal(time.0 as nat) + " hod"@ + if time.1 > 0 {
            decimal(time.1 as nat) + " min"@
        } else {
            Seq::empty()
        },
        InvoiceItemType::Quantity(q) => decimal(q as nat) + " ks"@,
        InvoiceItemType::Other(o) => o@,
    }
}

/// The hundredths of an hour in `minutes`, rounded to the nearest.
pub open spec fn hundredths_of_hour(minutes: int) -> int {
    div3_nearest(minutes * 5)
}

/// A number of hundredths as a decimal with no trailing zeros after the
/// point: `150` is `1.5`, `200` is `2`, `133` is `1.33`.
pub open spec fn hundredths_text(v: nat) -> Seq<char> {
    let whole = decimal(v / 100);
    let f = v % 100;
    if f == 0 {
        whole
    } else if f % 10 == 0 {
        whole + seq!['.'] + decimal(f / 10)
    } else if f < 10 {
        whole + seq!['.', '0'] + decimal(f)
    } else {
        whole + seq!['.'] + decimal(f)
    }
}

/// The quantity column of an item: hours as a decimal number and `" hod"`,
/// a count and `" ks"`, or the unit itself.
pub open spec fn quantity_label_spec(t: InvoiceItemType) -> Seq<char> {
    match t {
        InvoiceItemType::Hours(time) => hundredths_text(hundredths_of_hour(time.total_minutes()) as nat)
            + " hod"@,
        InvoiceItemType::Quantity(q) => decimal(q as nat) + " ks"@,
        InvoiceItemType::Other(o) => o@,
    }
}

impl InvoiceItemType {
    /// Reads an item type: `hours:minutes`, else a count, else any other
    /// text as a unit of its own.
    pub fn parse(value: &str) -> (r: InvoiceItemType)
        ensures
            is_item_type_of(r, value@),
    {
        match Time::parse(value) {
            Ok(time) => InvoiceItemType::Hours(time),
            Err(_) => match parse_u32(value) {
                Some(q) => InvoiceItemType::Quantity(q),
                None => InvoiceItemType::Other(value.to_owned()),
            },
        }
    }

    /// The item type as text.
    pub fn text(&self) -> (r: String)
        ensures
            r@ == item_type_text(*self),
    {
        match self {
            InvoiceItemType::Hours(time) => {
                let mut r = decimal_text(time.hours() as u128);
                push_text(&mut r, " hod");
                if time.minutes() > 0 {
                    let m = decimal_text(time.minutes() as u128);
                    push_text(&mut r, m.as_str());
                    push_text(&mut r, " min");
                }
                proof {
                    assert(r@ =~= item_type_text(*self));
                }
                r
            },
            InvoiceItemType::Quantity(q) => {
                let mut r = decimal_text(*q as u128);
                push_text(&mut r, " ks");
                r
            },
            InvoiceItemType::Other(o) => o.clone(),
        }
    }

    /// The label in the quantity column of the items table.
    pub fn quantity_label(&self) -> (r: String)
        ensures
            r@ == quantity_label_spec(*self),
    {
        match self {
            InvoiceItemType::Hours(time) => {
                let minutes: u64 = time.hours() as u64 * 60 + time.minutes() as u64;
                let n = minutes * 5;
                let v = if n % 3 == 2 {
                    n / 3 + 1
                } else {
                    n / 3
                };
                let mut r = decimal_text((v / 100) as u128);
                let f = v % 100;
                if f != 0 {
                    push_char(&mut r, '.');
                    if f % 10 == 0 {
                        let d = decimal_text((f / 10) as u128);
                        push_text(&mut r, d.as_str());
                    } else {
                        if f < 10 {
                            push_char(&mut r, '0');
                        }
                        let d = decimal_text(f as u128);
                        push_text(&mut r, d.as_str());
                    }
                }
                push_text(&mut r, " hod");
                proof {
                    assert(time.total_minutes() == minutes);
                    assert(hundredths_of_hour(minutes as int) == v);
                    assert(r@ =~= quantity_label_spec(*self));
                }
                r
            },
            InvoiceItemType::Quantity(q) => {
                let mut r = decimal_text(*q as u128);
                push_text(&mut r, " ks");
                r
            },
            InvoiceItemType::Other(o) => o.clone(),
        }
    }
}

impl std::str::FromStr for InvoiceItemType {
    type Err = String;

    fn from_str(value: &str) -> Result<InvoiceItemType, String> {
        Ok(InvoiceItemType::parse(value))
    }
}

/// One line of an invoice.
#[derive(Debug, Clone, PartialEq, Eq)]
pub struct InvoiceItem {
    pub item_type: InvoiceItemType,
    pub description: String,
    pub price_per_unit: Amount,
}

/// The price of an item as mantissa and scale: the price per unit times the
/// hours (to two more decimal places, rounded to the nearest), times the
/// count, or once; `None` when it leaves the range of a 96-bit decimal (an
/// amount never has more than `MAX_SCALE` places).
pub open spec fn price_of(item: InvoiceItem) -> Option<(int, nat)> {
    let m = item.price_per_unit.m();
    let s = item.price_per_unit.s();
    match item.item_type {
        InvoiceItemType::Hours(time) => {
            let x = div3_nearest(m * time.total_minutes() * 5);
            if s + 2 <= MAX_SCALE && -MAX_MANTISSA <= x <= MAX_MANTISSA {
                Some((x, s + 2))
            } else {
                None
            }
        },
        InvoiceItemType::Quantity(q) => {
            if s <= MAX_SCALE && -MAX_MANTISSA <= m * q <= MAX_MANTISSA {
                Some((m * q, s))
            } else {
                None
            }
        },
        InvoiceItemType::Other(_) => if s <= MAX_SCALE {
            Some((m, s))
        } else {
            None
        },
    }
}

/// The fields of an item line `<type> <price per unit> <description...>`.
pub open spec fn type_field(s: Seq<char>) -> Seq<char> {
    s.subrange(0, find(s, ' ', 0))
}

pub open spec fn after_type(s: Seq<char>) -> Seq<char> {
    after_first(s, ' ')
}

pub open spec fn price_field(s: Seq<char>) -> Seq<char> {
    let r = after_type(s);
    r.subrange(0, find(r, ' ', 0))
}

pub open spec fn description_field(s: Seq<char>) -> Seq<char> {
    after_first(after_type(s), ' ')
}

impl InvoiceItem {
    pub fn new(item_type: InvoiceItemType, description: String, price_per_unit: Amount) -> (r: InvoiceItem)
        ensures
            r == (InvoiceItem { item_type, description, price_per_unit }),
    {
        InvoiceItem { item_type, description, price_per_unit }
    }

    /// The price of the item (see `price_of`).
    pub fn price(&self) -> (r: Result<Amount, InvoiceError>)
        ensures
            r is Ok <==> price_of(*self) is Some,
            r matches Ok(a) ==> price_of(*self) == Some((a.m(), a.s())),
            r matches Err(e) ==> e == InvoiceError::InvalidAmount,
    {
        let _ = self.price_per_unit.scale();
        let p = match &self.item_type {
            InvoiceItemType::Hours(time) => {
                let minutes: u64 = time.hours() as u64 * 60 + time.minutes() as u64;
                self.price_per_unit.checked_mul_minutes(minutes)
            },
            InvoiceItemType::Quantity(q) => self.price_per_unit.checked_mul_count(*q),
            InvoiceItemType::Other(_) => Some(self.price_per_unit),
        };
        match p {
            Some(a) => Ok(a),
            None => Err(InvoiceError::InvalidAmount),
        }
    }

    /// Reads an item from `<type> <price per unit> <description...>`.
    pub fn parse(value: &str) -> (r: Result<InvoiceItem, String>)
        ensures
            r is Ok <==> (find(value@, ' ', 0) < value@.len() && decimal_parse_of(
                price_field(value@),
            ) is Some),
            r matches Ok(item) ==> is_item_type_of(item.item_type, type_field(value@))
                && item.description@ == description_field(value@) && decimal_parse_of(
                price_field(value@),
            ) == Some((item.price_per_unit.m() as i128, item.price_per_unit.s() as u32)),
            r matches Err(e) ==> e@ == (if find(value@, ' ', 0) < value@.len() {
                "Invalid price"@
            } else {
                "No price per unit"@
            }),
    {
        let n = value.unicode_len();
        let first_space = find_char(value, ' ', 0);
        proof {
            lemma_find_bounds(value@, ' ', 0);
        }
        if first_space >= n {
            return Err("No price per unit".to_owned());
        }
        let type_text = slice_text(value, 0, first_space);
        let rest = slice_text(value, first_space + 1, n);
        let m = rest.as_str().unicode_len();
        let second_space = find_char(rest.as_str(), ' ', 0);
        proof {
            lemma_find_bounds(rest@, ' ', 0);
        }
        let price_text = slice_text(rest.as_str(), 0, second_space);
        let description = crate::payment_method::text_after_first(rest.as_str(), ' ');
        let item_type = InvoiceItemType::parse(type_text.as_str());
        match Amount::parse(price_text.as_str()) {
            Some(price) => Ok(InvoiceItem { item_type, description, price_per_unit: price }),
            None => Err("Invalid price".to_owned()),
        }
    }
}

impl std::str::FromStr for InvoiceItem {
    type Err = String;

    fn from_str(value: &str) -> Result<InvoiceItem, String> {
        InvoiceItem::parse(value)
    }
}


/// The larger of two numbers of lines, as a height.
fn tallest(a: usize, b: usize) -> (r: u128)
    ensures
        r == taller(a as int, b as int),
{
    let m = if a > b {
        a
    } else {
        b
    };
    proof {
        assert(m * LINE_HEIGHT <= 0xffff_ffff_ffff_ffff * LINE_HEIGHT) by (nonlinear_arith)
            requires
                m <= 0xffff_ffff_ffff_ffff,
        ;
    }
    m as u128 * LINE_HEIGHT
}

/// The exact sum of two amounts given as mantissa and scale, at the larger scale.
pub open spec fn add_parts(a: (int, nat), b: (int, nat)) -> (int, nat) {
    let s = if a.1 >= b.1 { a.1 } else { b.1 };
    (a.0 * pow10((s - a.1) as nat) + b.0 * pow10((s - b.1) as nat), s)
}

/// The value of an amount given as mantissa and scale, in units of `10^-28`.
pub open spec fn units_of(a: (int, nat)) -> int {
    a.0 * pow10((MAX_SCALE - a.1) as nat)
}

/// The grand total of `items`, added up in order; `None` when a price or a
/// partial sum leaves the range of a 96-bit decimal.
pub open spec fn total_of(items: Seq<InvoiceItem>) -> Option<(int, nat)>
    decreases items.len(),
{
    if items.len() == 0 {
        Some((0, 0))
    } else {
        match (total_of(items.drop_last()), price_of(items.last())) {
            (Some(t), Some(p)) => {
                let r = add_parts(t, p);
                if -MAX_MANTISSA <= r.0 <= MAX_MANTISSA {
                    Some(r)
                } else {
                    None
                }
            },
            _ => None,
        }
    }
}

/// The sum of the values of the prices of `items`, in units of `10^-28`.
pub open spec fn price_units_sum(items: Seq<InvoiceItem>) -> int
    decreases items.len(),
{
    if items.len() == 0 {
        0
    } else {
        price_units_sum(items.drop_last()) + match price_of(items.last()) {
            Some(p) => units_of(p),
            None => 0,
        }
    }
}

proof fn lemma_add_parts_units(a: (int, nat), b: (int, nat))
    requires
        a.1 <= MAX_SCALE,
        b.1 <= MAX_SCALE,
    ensures
        units_of(add_parts(a, b)) == units_of(a) + units_of(b),
        add_parts(a, b).1 <= MAX_SCALE,
{
    let s = if a.1 >= b.1 { a.1 } else { b.1 };
    let t = (MAX_SCALE - s) as nat;
    let ka = (s - a.1) as nat;
    let kb = (s - b.1) as nat;
    lemma_pow10_adds(ka, t);
    lemma_pow10_adds(kb, t);
    assert(ka + t == (MAX_SCALE - a.1) as nat);
    assert(kb + t == (MAX_SCALE - b.1) as nat);
    let pa = pow10(ka);
    let pb = pow10(kb);
    let pt = pow10(t);
    assert((a.0 * pa + b.0 * pb) * pt == a.0 * (pa * pt) + b.0 * (pb * pt)) by (nonlinear_arith);
}

proof fn lemma_total_none_extends(items: Seq<InvoiceItem>, k: int)
    requires
        0 <= k <= items.len(),
        total_of(items.subrange(0, k)) is None,
    ensures
        total_of(items) is None,
    decreases items.len() - k,
{
    if k < items.len() {
        let next = items.subrange(0, k + 1);
        assert(next.drop_last() =~= items.subrange(0, k));
        lemma_total_none_extends(items, k + 1);
    } else {
        assert(items.subrange(0, k) =~= items);
    }
}

/// The grand total is the sum of the item prices: when it is in range, its
/// value is the sum of the values of the prices.
pub proof fn lemma_total_is_sum_of_prices(items: Seq<InvoiceItem>)
    requires
        total_of(items) is Some,
    ensures
        units_of(total_of(items).unwrap()) == price_units_sum(items),
        total_of(items).unwrap().1 <= MAX_SCALE,
        forall|i: int| 0 <= i < items.len() ==> (#[trigger] price_of(items[i])) is Some,
    decreases items.len(),
{
    if items.len() > 0 {
        let rest = items.drop_last();
        assert(total_of(rest) is Some);
        lemma_total_is_sum_of_prices(rest);
        let p = price_of(items.last()).unwrap();
        lemma_add_parts_units(total_of(rest).unwrap(), p);
        assert forall|i: int| 0 <= i < items.len() implies (#[trigger] price_of(items[i])) is Some by {
            if i < items.len() - 1 {
                assert(items[i] == rest[i]);
            }
        }
    }
}

proof fn lemma_price_units_sum_remove(items: Seq<InvoiceItem>, j: int)
    requires
        0 <= j < items.len(),
    ensures
        price_units_sum(items) == price_units_sum(items.remove(j)) + match price_of(items[j]) {
            Some(p) => units_of(p),
            None => 0,
        },
    decreases items.len(),
{
    if j < items.len() - 1 {
        let rest = items.drop_last();
        lemma_price_units_sum_remove(rest, j);
        assert(items.remove(j).drop_last() =~= rest.remove(j));
        assert(items.remove(j).last() == items.last());
        assert(rest[j] == items[j]);
    } else {
        assert(items.remove(j) =~= items.drop_last());
    }
}

proof fn lemma_price_units_sum_permutation(a: Seq<InvoiceItem>, b: Seq<InvoiceItem>)
    requires
        a.to_multiset() == b.to_multiset(),
    ensures
        price_units_sum(a) == price_units_sum(b),
    decreases a.len(),
{
    a.to_multiset_ensures();
    b.to_multiset_ensures();
    if a.len() > 0 {
        let x = a.last();
        let rest = a.drop_last();
        assert(a =~= rest.push(x));
        rest.to_multiset_ensures();
        assert(a.to_multiset() =~= rest.to_multiset().insert(x));
        assert(b.to_multiset().count(x) > 0);
        assert(b.contains(x));
        let j = choose|j: int| 0 <= j < b.len() && b[j] == x;
        let b2 = b.remove(j);
        assert(b2.to_multiset() =~= b.to_multiset().remove(x));
        assert(rest.to_multiset() =~= a.to_multiset().remove(x));
        lemma_price_units_sum_permutation(rest, b2);
        lemma_price_units_sum_remove(b, j);
    }
}

/// The grand total does not depend on the order of the items: two lists of
/// the same items whose totals are both in range have totals of equal value.
pub proof fn lemma_total_independent_of_order(a: Seq<InvoiceItem>, b: Seq<InvoiceItem>)
    requires
        a.to_multiset() == b.to_multiset(),
        total_of(a) is Some,
        total_of(b) is Some,
    ensures
        units_of(total_of(a).unwrap()) == units_of(total_of(b).unwrap()),
{
    lemma_total_is_sum_of_prices(a);
    lemma_total_is_sum_of_prices(b);
    lemma_price_units_sum_permutation(a, b);
}

/// The payment descriptor for the given fields, in the short payment
/// descriptor format.
pub uninterp spec fn spayd_text_of(fields: Seq<(Seq<char>, Seq<char>)>) -> Seq<char>;

/// Relies on `spayd::Spayd::new_v1_0` and its `Display`: `SPD*1.0`, then
/// `*key:value` for each field in the order of the keys, with `*`, `%`, control
/// and non-ASCII characters percent-encoded.
#[verifier::external_body]
fn spayd_text(fields: &Vec<(String, String)>) -> (r: String)
    ensures
        r@ == spayd_text_of(fields@.map_values(|f: (String, String)| (f.0@, f.1@))),
{
    spayd::Spayd::new_v1_0(fields.clone()).to_string()
}

/// The SVG drawing of a QR code that encodes `text`, if it fits in one.
pub uninterp spec fn qr_svg_of(text: Seq<char>) -> Option<Seq<char>>;

/// Relies on `fast_qr::qr::QRBuilder::build` (encodes the text; fails when it
/// does not fit in a QR code) and `fast_qr::convert::svg::SvgBuilder::to_str`
/// (draws it in SVG with rounded modules, a transparent background and no
/// margin).
#[verifier::external_body]
fn qr_svg(text: &str) -> (r: Option<String>)
    ensures
        r is Some <==> qr_svg_of(text@) is Some,
        r matches Some(svg) ==> qr_svg_of(text@) == Some(svg@),
{
    match fast_qr::qr::QRBuilder::new(text).build() {
        Ok(qr) => Some(
            fast_qr::convert::svg::SvgBuilder::default()
                .shape(fast_qr::convert::Shape::RoundedSquare)
                .background_color([255, 255, 255, 0])
                .margin(0)
                .to_str(&qr),
        ),
        Err(_) => None,
    }
}

/// An invoice.
#[derive(Debug)]
pub struct Invoice {
    number: Amount,
    contractor: Entity,
    client: Entity,
    iban: Iban,
    payment_method: PaymentMethod,
    items: Vec<InvoiceItem>,
    date: Date,
    due_date: Date,
    currency: Currency,
    note: Option<String>,
}

/// The fields of the payment descriptor for a bank transfer with variable
/// symbol `vs`: account, amount at the currency's decimal places, currency
/// code and variable symbol.
pub open spec fn payment_fields_spec(iban: Seq<char>, total: Amount, currency: Currency, vs: Seq<char>) -> Seq<(Seq<char>, Seq<char>)> {
    seq![
        ("ACC"@, iban),
        ("AM"@, plain_text(total.m(), total.s(), currency.exponent as nat)),
        ("CC"@, currency.code@),
        ("X-VS"@, vs),
    ]
}

/// A block of lines whose first line stands at `(x, y)`.
#[derive(Debug, Clone, PartialEq, Eq)]
pub struct Block {
    pub x: u128,
    pub y: u128,
    pub lines: Vec<String>,
}

/// The top of the text area.
pub const TOP: u128 = 56693;

/// The middle of the page, where the right column begins.
pub const MIDDLE: u128 = 297638;

/// The height of the heading.
pub const HEADING_HEIGHT: u128 = 40000;

/// The space between two stages of the page.
pub const BLOCK_GAP: u128 = 20000;

/// Where a note stands: near the bottom of the page.
pub const FOOTER_Y: u128 = 785197;

/// A page of an invoice, laid out: blocks of text, the items table, the grand
/// total, and the QR code for a bank transfer.
#[derive(Debug, Clone)]
pub struct InvoicePage {
    pub heading: Block,
    pub contractor: Block,
    pub client: Block,
    pub payment: Block,
    pub dates: Block,
    pub rows: Vec<ItemTexts>,
    pub table: TableLayout,
    pub grand_total: String,
    pub total: Amount,
    pub qr: Option<String>,
    pub qr_y: u128,
    pub note: Option<String>,
}

/// The lines of the payment block.
pub open spec fn payment_lines_spec(account: Seq<char>, m: PaymentMethod) -> Seq<Seq<char>> {
    seq!["Bankovní účet "@ + account] + match m {
        PaymentMethod::BankTransfer(vs) => seq!["Variabilní symbol "@ + vs@],
        _ => Seq::empty(),
    } + seq!["Způsob platby "@ + name_spec(m)]
}

/// The lines of the dates block.
pub open spec fn dates_lines_spec(date: Date, due_date: Date) -> Seq<Seq<char>> {
    seq!["Datum vystavení "@ + date_text(date), "Datum splatnosti "@ + date_text(due_date)]
}

/// The texts of the row of `item` in the items table.
pub open spec fn row_texts_match(r: ItemTexts, item: InvoiceItem, f: MoneyFormat) -> bool {
    &&& r.quantity@ == quantity_label_spec(item.item_type)
    &&& r.description@ == item.description@
    &&& r.unit_price@ == money_text(f, item.price_per_unit.m(), item.price_per_unit.s())
    &&& price_of(item) matches Some(p) && r.total@ == money_text(f, p.0, p.1)
}

/// The larger of two numbers of lines, as a height.
pub open spec fn taller(a: int, b: int) -> int {
    (if a > b { a } else { b }) * LINE_HEIGHT
}

impl Invoice {
    #[verifier::type_invariant]
    spec fn well_formed(self) -> bool {
        &&& self.due_date.ordinal() >= self.date.ordinal()
        &&& self.currency.exponent <= MAX_SCALE
    }

    pub closed spec fn items_spec(self) -> Seq<InvoiceItem> {
        self.items@
    }

    pub closed spec fn currency_spec(self) -> Currency {
        self.currency
    }

    pub closed spec fn payment_method_spec(self) -> PaymentMethod {
        self.payment_method
    }

    pub closed spec fn iban_spec(self) -> Seq<char> {
        self.iban@
    }

    pub closed spec fn contractor_spec(self) -> Entity {
        self.contractor
    }

    pub closed spec fn client_spec(self) -> Entity {
        self.client
    }

    pub closed spec fn date_spec(self) -> Date {
        self.date
    }

    pub closed spec fn due_date_spec(self) -> Date {
        self.due_date
    }

    pub closed spec fn note_spec(self) -> Option<String> {
        self.note
    }

    pub closed spec fn number_spec(self) -> Amount {
        self.number
    }

    /// What the page needs of the invoice's data: postal codes that can be
    /// split after their third character, and an IBAN long enough to hold a
    /// bank code.
    pub open spec fn printable(self) -> bool {
        &&& postal_code_splittable(self.contractor_spec().address.postal_code@)
        &&& postal_code_splittable(self.client_spec().address.postal_code@)
        &&& paper_format(self.iban_spec()).len() >= 9
    }

    /// An invoice; it falls due on or after the day it is issued.
    pub fn new(
        number: Amount,
        contractor: Entity,
        client: Entity,
        iban: Iban,
        payment_method: PaymentMethod,
        items: Vec<InvoiceItem>,
        date: Date,
        due_date: Date,
        currency: Currency,
        note: Option<String>,
    ) -> (r: Invoice)
        requires
            due_date.ordinal() >= date.ordinal(),
            currency.exponent <= MAX_SCALE,
        ensures
            r.items_spec() == items@,
            r.currency_spec() == currency,
            r.payment_method_spec() == payment_method,
            r.iban_spec() == iban@,
            r.contractor_spec() == contractor,
            r.client_spec() == client,
            r.date_spec() == date,
            r.due_date_spec() == due_date,
            r.note_spec() == note,
            r.number_spec() == number,
    {
        Invoice {
            number,
            contractor,
            client,
            iban,
            payment_method,
            items,
            date,
            due_date,
            currency,
            note,
        }
    }

    /// The grand total: the sum of the prices of all items, exact; zero when
    /// there are none.
    pub fn items_sum(&self) -> (r: Result<Amount, InvoiceError>)
        ensures
            r is Ok <==> total_of(self.items_spec()) is Some,
            r matches Ok(a) ==> total_of(self.items_spec()) == Some((a.m(), a.s())),
            r matches Err(e) ==> e == InvoiceError::InvalidAmount,
    {
        let n = self.items.len();
        let ghost items = self.items@;
        let mut total = Amount::zero();
        let mut i: usize = 0;
        while i < n
            invariant
                n == items.len(),
                items == self.items_spec(),
                i <= n,
                total_of(items.subrange(0, i as int)) == Some((total.m(), total.s())),
            decreases n - i,
        {
            let ghost prefix = items.subrange(0, i + 1);
            proof {
                assert(prefix.drop_last() =~= items.subrange(0, i as int));
                assert(prefix.last() == items[i as int]);
            }
            let p = match self.items[i].price() {
                Ok(p) => p,
                Err(e) => {
                    proof {
                        lemma_total_none_extends(items, i + 1);
                    }
                    return Err(e);
                },
            };
            total = match total.checked_add(&p) {
                Some(t) => t,
                None => {
                    proof {
                        lemma_total_none_extends(items, i + 1);
                    }
                    return Err(InvoiceError::InvalidAmount);
                },
            };
            i = i + 1;
        }
        proof {
            assert(items.subrange(0, n as int) =~= items);
        }
        Ok(total)
    }

    /// The texts of the items table, one row per item; fails when a price
    /// leaves the range of a 96-bit decimal.
    pub fn item_rows(&self, f: &MoneyFormat) -> (r: Result<Vec<ItemTexts>, InvoiceError>)
        requires
            f.exponent <= MAX_SCALE,
        ensures
            r is Ok <==> forall|i: int|
                0 <= i < self.items_spec().len() ==> (#[trigger] price_of(self.items_spec()[i])) is Some,
            r matches Ok(rows) ==> rows@.len() == self.items_spec().len() && forall|i: int|
                0 <= i < rows@.len() ==> row_texts_match(#[trigger] rows@[i], self.items_spec()[i], *f),
    {
        let mut rows: Vec<ItemTexts> = Vec::new();
        let mut i: usize = 0;
        while i < self.items.len()
            invariant
                f.exponent <= MAX_SCALE,
                i <= self.items@.len(),
                self.items@ == self.items_spec(),
                rows@.len() == i,
                forall|j: int| 0 <= j < i ==> (#[trigger] price_of(self.items@[j])) is Some,
                forall|j: int| 0 <= j < i ==> row_texts_match(#[trigger] rows@[j], self.items@[j], *f),
            decreases self.items@.len() - i,
        {
            let item = &self.items[i];
            let price = match item.price() {
                Ok(p) => p,
                Err(e) => return Err(e),
            };
            rows.push(
                ItemTexts {
                    quantity: item.item_type.quantity_label(),
                    description: item.description.clone(),
                    unit_price: f.format_money(&item.price_per_unit),
                    total: f.format_money(&price),
                },
            );
            i = i + 1;
        }
        Ok(rows)
    }

    /// Lays out the page from top to bottom: the heading; the contractor and
    /// the client side by side, the taller block deciding where the next
    /// stage begins; payment details beside the dates, likewise; the items
    /// table and the grand total; the QR code for a bank transfer, and the
    /// note near the bottom of the page. Fails only when an amount leaves
    /// the range of a 96-bit decimal.
    pub fn layout(&self, font: &FontMetrics) -> (r: Result<InvoicePage, InvoiceError>)
        requires
            self.printable(),
            font.units_per_em > 0,
        ensures
            r is Ok <==> total_of(self.items_spec()) is Some,
            r matches Ok(p) ==> {
                let f_ok = forall|g: MoneyFormat| #[trigger]
                    is_format_for(g, self.currency_spec()) ==> p.grand_total@ == money_text(
                        g,
                        p.total.m(),
                        p.total.s(),
                    ) && forall|i: int|
                        0 <= i < p.rows@.len() ==> row_texts_match(
                            #[trigger] p.rows@[i],
                            self.items_spec()[i],
                            g,
                        );
                &&& total_of(self.items_spec()) == Some((p.total.m(), p.total.s()))
                &&& f_ok
                &&& p.rows@.len() == self.items_spec().len()
                &&& p.heading.y == TOP && p.heading.x == MIDDLE
                &&& p.heading.lines@.map_values(|l: String| l@) == seq![
                    "Faktura "@ + plain_text(
                        self.number_spec().m(),
                        self.number_spec().s(),
                        self.number_spec().s(),
                    ),
                ]
                &&& p.contractor.x == LEFT && p.client.x == MIDDLE
                &&& p.contractor.y == TOP + HEADING_HEIGHT && p.client.y == p.contractor.y
                &&& p.contractor.lines@.map_values(|l: String| l@) == info_lines_spec(
                    self.contractor_spec(),
                    "DODAVATEL"@,
                )
                &&& p.client.lines@.map_values(|l: String| l@) == info_lines_spec(
                    self.client_spec(),
                    "ODBĚRATEL"@,
                )
                &&& p.payment.x == LEFT && p.dates.x == MIDDLE
                &&& p.payment.y == plus(
                    p.contractor.y as int,
                    taller(p.contractor.lines@.len() as int, p.client.lines@.len() as int)
                        + BLOCK_GAP,
                ) && p.dates.y == p.payment.y
                &&& p.payment.lines@.map_values(|l: String| l@) == payment_lines_spec(
                    bank_account_spec(paper_format(self.iban_spec())),
                    self.payment_method_spec(),
                )
                &&& p.dates.lines@.map_values(|l: String| l@) == dates_lines_spec(
                    self.date_spec(),
                    self.due_date_spec(),
                )
                &&& is_table_layout(
                    p.table,
                    *font,
                    p.rows@,
                    "CENA ZA MJ"@,
                    "CELKEM"@,
                    p.grand_total@,
                    plus(
                        p.payment.y as int,
                        taller(p.payment.lines@.len() as int, p.dates.lines@.len() as int)
                            + BLOCK_GAP,
                    ),
                )
                &&& p.qr_y == plus(p.table.grand_total_y as int, LINE_HEIGHT + BLOCK_GAP)
                &&& (!(self.payment_method_spec() is BankTransfer) ==> p.qr is None)
                &&& (self.payment_method_spec() matches PaymentMethod::BankTransfer(vs) ==> {
                    let d = spayd_text_of(
                        payment_fields_spec(self.iban_spec(), p.total, self.currency_spec(), vs@),
                    );
                    &&& p.qr is Some <==> qr_svg_of(d) is Some
                    &&& p.qr matches Some(svg) ==> qr_svg_of(d) == Some(svg@)
                })
                &&& p.note == self.note_spec()
            },
    {
        proof {
            use_type_invariant(self);
        }
        let total = match self.items_sum() {
            Ok(t) => t,
            Err(e) => return Err(e),
        };
        proof {
            lemma_total_is_sum_of_prices(self.items_spec());
        }
        let f = create_accounting_from_currency(&self.currency);
        let rows = match self.item_rows(&f) {
            Ok(r) => r,
            Err(e) => return Err(e),
        };
        let grand_total = f.format_money(&total);

        let mut heading_lines: Vec<String> = Vec::new();
        let mut title = String::new();
        push_text(&mut title, "Faktura ");
        let number = plain_amount_text(&self.number, self.number.scale());
        push_text(&mut title, number.as_str());
        heading_lines.push(title);
        proof {
            assert(heading_lines@.map_values(|l: String| l@) =~= seq![
                "Faktura "@ + plain_text(
                    self.number_spec().m(),
                    self.number_spec().s(),
                    self.number_spec().s(),
                ),
            ]);
        }
        let heading = Block { x: MIDDLE, y: TOP, lines: heading_lines };

        let entities_y = TOP + HEADING_HEIGHT;
        let contractor = Block {
            x: LEFT,
            y: entities_y,
            lines: self.contractor.info_lines(EntityType::Contractor.label()),
        };
        let client = Block {
            x: MIDDLE,
            y: entities_y,
            lines: self.client.info_lines(EntityType::Client.label()),
        };
        let entities_h = tallest(contractor.lines.len(), client.lines.len());
        let payment_y = entities_y.saturating_add(entities_h.saturating_add(BLOCK_GAP));

        let mut payment_lines: Vec<String> = Vec::new();
        let mut account = String::new();
        push_text(&mut account, "Bankovní účet ");
        let number_text = self.iban.to_bank_account_number();
        push_text(&mut account, number_text.as_str());
        payment_lines.push(account);
        match &self.payment_method {
            PaymentMethod::BankTransfer(vs) => {
                let mut line = String::new();
                push_text(&mut line, "Variabilní symbol ");
                push_text(&mut line, vs.as_str());
                payment_lines.push(line);
            },
            _ => {},
        }
        let mut method = String::new();
        push_text(&mut method, "Způsob platby ");
        push_text(&mut method, self.payment_method.name());
        payment_lines.push(method);
        proof {
            assert(payment_lines@.map_values(|l: String| l@) =~= payment_lines_spec(
                bank_account_spec(paper_format(self.iban_spec())),
                self.payment_method_spec(),
            ));
        }
        let payment = Block { x: LEFT, y: payment_y, lines: payment_lines };

        let mut date_lines: Vec<String> = Vec::new();
        let mut issued = String::new();
        push_text(&mut issued, "Datum vystavení ");
        let d1 = self.date.format();
        push_text(&mut issued, d1.as_str());
        date_lines.push(issued);
        let mut due = String::new();
        push_text(&mut due, "Datum splatnosti ");
        let d2 = self.due_date.format();
        push_text(&mut due, d2.as_str());
        date_lines.push(due);
        proof {
            assert(date_lines@.map_values(|l: String| l@) =~= dates_lines_spec(
                self.date_spec(),
                self.due_date_spec(),
            ));
        }
        let dates = Block { x: MIDDLE, y: payment_y, lines: date_lines };

        let details_h = tallest(payment.lines.len(), dates.lines.len());
        let table_top = payment_y.saturating_add(details_h.saturating_add(BLOCK_GAP));
        let table = layout_table(font, &rows, "CENA ZA MJ", "CELKEM", grand_total.as_str(), table_top);
        let qr_y = table.grand_total_y.saturating_add(LINE_HEIGHT + BLOCK_GAP);
        let qr = self.qr_code(&total);
        let page = InvoicePage {
            heading,
            contractor,
            client,
            payment,
            dates,
            rows,
            table,
            grand_total,
            total,
            qr,
            qr_y,
            note: self.note.clone(),
        };
        proof {
            assert forall|g: MoneyFormat| #[trigger]
                is_format_for(g, self.currency_spec()) implies page.grand_total@ == money_text(
                g,
                page.total.m(),
                page.total.s(),
            ) && forall|i: int|
                0 <= i < page.rows@.len() ==> row_texts_match(
                    #[trigger] page.rows@[i],
                    self.items_spec()[i],
                    g,
                ) by {
                assert(g.symbol@ == f.symbol@);
                assert forall|i: int| 0 <= i < page.rows@.len() implies row_texts_match(
                    #[trigger] page.rows@[i],
                    self.items_spec()[i],
                    g,
                ) by {
                    assert(row_texts_match(page.rows@[i], self.items_spec()[i], f));
                }
            }
        }
        Ok(page)
    }

    /// The fields of the payment descriptor, for a bank transfer.
    pub fn payment_fields(&self, total: &Amount) -> (r: Option<Vec<(String, String)>>)
        ensures
            r is Some <==> self.payment_method_spec() is BankTransfer,
            r matches Some(f) ==> (self.payment_method_spec() matches PaymentMethod::BankTransfer(vs)
                && f@.map_values(|x: (String, String)| (x.0@, x.1@)) == payment_fields_spec(
                self.iban_spec(),
                *total,
                self.currency_spec(),
                vs@,
            )),
    {
        proof {
            use_type_invariant(self);
        }
        match &self.payment_method {
            PaymentMethod::BankTransfer(vs) => {
                let mut f: Vec<(String, String)> = Vec::new();
                f.push(("ACC".to_owned(), self.iban.electronic_str().to_owned()));
                f.push(("AM".to_owned(), plain_amount_text(total, self.currency.exponent)));
                f.push(("CC".to_owned(), self.currency.code().to_owned()));
                f.push(("X-VS".to_owned(), vs.clone()));
                proof {
                    assert(f@.map_values(|x: (String, String)| (x.0@, x.1@)) =~= payment_fields_spec(
                        self.iban_spec(),
                        *total,
                        self.currency_spec(),
                        vs@,
                    ));
                }
                Some(f)
            },
            _ => None,
        }
    }

    /// The payment descriptor that the QR code carries, for a bank transfer.
    pub fn payment_descriptor(&self, total: &Amount) -> (r: Option<String>)
        ensures
            r is Some <==> self.payment_method_spec() is BankTransfer,
            r matches Some(t) ==> (self.payment_method_spec() matches PaymentMethod::BankTransfer(vs)
                && t@ == spayd_text_of(
                payment_fields_spec(self.iban_spec(), *total, self.currency_spec(), vs@),
            )),
    {
        match self.payment_fields(total) {
            Some(f) => Some(spayd_text(&f)),
            None => None,
        }
    }

    /// The QR code, in SVG, that carries the payment descriptor: only for a
    /// bank transfer, and only if the descriptor fits in a QR code.
    pub fn qr_code(&self, total: &Amount) -> (r: Option<String>)
        ensures
            !(self.payment_method_spec() is BankTransfer) ==> r is None,
            self.payment_method_spec() matches PaymentMethod::BankTransfer(vs) ==> {
                let d = spayd_text_of(
                    payment_fields_spec(self.iban_spec(), *total, self.currency_spec(), vs@),
                );
                &&& r is Some <==> qr_svg_of(d) is Some
                &&& r matches Some(svg) ==> qr_svg_of(d) == Some(svg@)
            },
    {
        match self.payment_descriptor(total) {
            Some(d) => qr_svg(d.as_str()),
            None => None,
        }
    }
}

} // verus!
