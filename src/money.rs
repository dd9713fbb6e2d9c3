//! Currencies and the text in which an amount of money is printed.

use vstd::prelude::*;
use vstd::string::*;

use crate::amount::{Amount, MAX_MANTISSA, MAX_SCALE, lemma_pow10_positive, pow10, pow10_exec};
use crate::text::{
    decimal, decimal_text, lemma_repeat_len, push_char, push_text, repeat,
    repeat_text, same_text, slice_text,
};

verus! {

/// Whether `code` is an ISO 4217 code that the currency table knows.
pub uninterp spec fn iso_known(code: Seq<char>) -> bool;

/// The symbol that the currency table gives for `code`.
pub uninterp spec fn iso_symbol(code: Seq<char>) -> Seq<char>;

/// The number of decimal places that the currency table gives for `code`.
pub uninterp spec fn iso_exponent(code: Seq<char>) -> Option<u16>;

/// Relies on `iso_currency::Currency::from_code` (the currency of an ISO 4217
/// code, if the table has it) and on that currency's `symbol` and `exponent`.
#[verifier::external_body]
fn iso_lookup(code: &str) -> (r: Option<(String, Option<u16>)>)
    ensures
        r is Some <==> iso_known(code@),
        r matches Some((s, e)) ==> s@ == iso_symbol(code@) && e == iso_exponent(code@),
        r matches Some((_, Some(x))) ==> x <= 4,
{
    match iso_currency::Currency::from_code(code) {
        Some(c) => Some((c.symbol().to_string(), c.exponent())),
        None => None,
    }
}

/// A currency: its ISO 4217 code, its symbol and its number of decimal places.
#[derive(Debug, Clone, PartialEq, Eq)]
pub struct Currency {
    pub code: String,
    pub symbol: String,
    pub exponent: u32,
}

/// The number of decimal places to print: the table's, or two where it has none.
pub open spec fn exponent_or_default(e: Option<u16>) -> u32 {
    match e {
        Some(x) => x as u32,
        None => 2,
    }
}

impl Currency {
    /// The currency of an ISO 4217 code, if the currency table knows it.
    pub fn from_code(code: &str) -> (r: Option<Currency>)
        ensures
            r is Some <==> iso_known(code@),
            r matches Some(c) ==> c.code@ == code@ && c.symbol@ == iso_symbol(code@)
                && c.exponent == exponent_or_default(iso_exponent(code@)) && c.exponent <= 4,
    {
        match iso_lookup(code) {
            None => None,
            Some((symbol, e)) => {
                let exponent: u32 = match e {
                    Some(x) => x as u32,
                    None => 2,
                };
                Some(Currency { code: code.to_owned(), symbol, exponent })
            },
        }
    }

    pub fn code(&self) -> (r: &str)
        ensures
            r@ == self.code@,
    {
        self.code.as_str()
    }
}

/// Where the symbol and the minus sign stand around the number.
#[derive(Debug, Clone, Copy, PartialEq, Eq)]
pub enum Pattern {
    /// `{value} {symbol}`
    ValueSpaceSymbol,
    /// `{symbol}{value}`
    SymbolValue,
    /// `-{value} {symbol}`
    MinusValueSpaceSymbol,
    /// `-{symbol}{value}`
    MinusSymbolValue,
}

pub open spec fn apply_pattern(p: Pattern, value: Seq<char>, symbol: Seq<char>) -> Seq<char> {
    match p {
        Pattern::ValueSpaceSymbol => value + seq![' '] + symbol,
        Pattern::SymbolValue => symbol + value,
        Pattern::MinusValueSpaceSymbol => seq!['-'] + value + seq![' '] + symbol,
        Pattern::MinusSymbolValue => seq!['-'] + symbol + value,
    }
}

/// The rules by which amounts of one currency are printed.
#[derive(Debug, Clone, PartialEq, Eq)]
pub struct MoneyFormat {
    pub symbol: String,
    pub exponent: u32,
    pub decimal_separator: char,
    pub thousand_separator: char,
    pub positive: Pattern,
    pub negative: Pattern,
    pub zero: Pattern,
}

/// The rules for a currency: the symbol after the number, a decimal comma and
/// a space between thousands; the euro and the dollar put the symbol first,
/// and separate as their countries do (`€1.234,50`, `$1,234.50`).
pub open spec fn is_format_for(f: MoneyFormat, c: Currency) -> bool {
    &&& f.symbol@ == c.symbol@
    &&& f.exponent == c.exponent
    &&& if c.code@ == "EUR"@ {
        &&& f.decimal_separator == ','
        &&& f.thousand_separator == '.'
        &&& f.positive == Pattern::SymbolValue
        &&& f.zero == Pattern::SymbolValue
        &&& f.negative == Pattern::MinusSymbolValue
    } else if c.code@ == "USD"@ {
        &&& f.decimal_separator == '.'
        &&& f.thousand_separator == ','
        &&& f.positive == Pattern::SymbolValue
        &&& f.zero == Pattern::SymbolValue
        &&& f.negative == Pattern::MinusSymbolValue
    } else {
        &&& f.decimal_separator == ','
        &&& f.thousand_separator == ' '
        &&& f.positive == Pattern::ValueSpaceSymbol
        &&& f.zero == Pattern::ValueSpaceSymbol
        &&& f.negative == Pattern::MinusValueSpaceSymbol
    }
}

pub open spec fn abs(m: int) -> nat {
    if m < 0 {
        (-m) as nat
    } else {
        m as nat
    }
}

/// `x / 10^k` rounded to the nearest integer, ties to the even one.
pub open spec fn round_half_even(x: nat, k: nat) -> nat {
    let d = pow10(k);
    let q = x / d;
    let r = x % d;
    if k == 0 {
        x
    } else if r > d / 2 || (r == d / 2 && q % 2 == 1) {
        (q + 1) as nat
    } else {
        q as nat
    }
}

/// The digits of `|m| / 10^s` at `e` decimal places, without the decimal
/// point and possibly without leading zeros.
pub open spec fn scaled_digits(m: int, s: nat, e: nat) -> Seq<char> {
    if s >= e {
        decimal(round_half_even(abs(m), (s - e) as nat))
    } else {
        decimal(abs(m)) + repeat('0', (e - s) as nat)
    }
}

/// Whether `m / 10^s` is zero once rounded to `e` decimal places.
pub open spec fn rounds_to_zero(m: int, s: nat, e: nat) -> bool {
    if s >= e {
        round_half_even(abs(m), (s - e) as nat) == 0
    } else {
        m == 0
    }
}

/// `t`, with zeros in front to make it at least `n` long.
pub open spec fn zero_padded(t: Seq<char>, n: nat) -> Seq<char> {
    if t.len() >= n {
        t
    } else {
        repeat('0', (n - t.len()) as nat) + t
    }
}

/// The first `j` digits of `t`, with `sep` before each digit (but the first)
/// that has a multiple of three digits after it.
pub open spec fn grouped_prefix(t: Seq<char>, j: int, sep: char) -> Seq<char>
    decreases j,
{
    if j <= 0 {
        Seq::empty()
    } else {
        grouped_prefix(t, j - 1, sep) + (if j - 1 > 0 && (t.len() - (j - 1)) % 3 == 0 {
            seq![sep]
        } else {
            Seq::empty()
        }) + seq![t[j - 1]]
    }
}

/// The number, without sign or symbol: whole part in groups of three, then
/// the decimal separator and exactly `e` decimal digits.
pub open spec fn value_text(m: int, s: nat, e: nat, dec: char, th: char) -> Seq<char> {
    let p = zero_padded(scaled_digits(m, s, e), e + 1);
    let k = p.len() - e;
    grouped_prefix(p.subrange(0, k), k, th) + if e > 0 {
        seq![dec] + p.subrange(k, p.len() as int)
    } else {
        Seq::empty()
    }
}

/// The text of `m / 10^s` under the rules `f`: rounded to `f.exponent`
/// places, ties to even; the zero pattern when that gives zero, the negative
/// one below zero, the positive one above.
pub open spec fn money_text(f: MoneyFormat, m: int, s: nat) -> Seq<char> {
    let e = f.exponent as nat;
    let v = value_text(m, s, e, f.decimal_separator, f.thousand_separator);
    if rounds_to_zero(m, s, e) {
        apply_pattern(f.zero, v, f.symbol@)
    } else if m < 0 {
        apply_pattern(f.negative, v, f.symbol@)
    } else {
        apply_pattern(f.positive, v, f.symbol@)
    }
}


/// The rules for printing amounts of `c`.
pub fn create_accounting_from_currency(c: &Currency) -> (r: MoneyFormat)
    ensures
        is_format_for(r, *c),
{
    let code = c.code.as_str();
    if same_text(code, "EUR") {
        MoneyFormat {
            symbol: c.symbol.clone(),
            exponent: c.exponent,
            decimal_separator: ',',
            thousand_separator: '.',
            positive: Pattern::SymbolValue,
            negative: Pattern::MinusSymbolValue,
            zero: Pattern::SymbolValue,
        }
    } else if same_text(code, "USD") {
        MoneyFormat {
            symbol: c.symbol.clone(),
            exponent: c.exponent,
            decimal_separator: '.',
            thousand_separator: ',',
            positive: Pattern::SymbolValue,
            negative: Pattern::MinusSymbolValue,
            zero: Pattern::SymbolValue,
        }
    } else {
        MoneyFormat {
            symbol: c.symbol.clone(),
            exponent: c.exponent,
            decimal_separator: ',',
            thousand_separator: ' ',
            positive: Pattern::ValueSpaceSymbol,
            negative: Pattern::MinusValueSpaceSymbol,
            zero: Pattern::ValueSpaceSymbol,
        }
    }
}

/// `x / 10^k` rounded to the nearest integer, ties to the even one.
fn round_half_even_exec(x: u128, k: u32) -> (r: u128)
    requires
        k <= MAX_SCALE,
    ensures
        r == round_half_even(x as nat, k as nat),
{
    if k == 0 {
        return x;
    }
    let d = pow10_exec(k) as u128;
    proof {
        lemma_pow10_positive(k as nat);
    }
    let q = x / d;
    let rem = x % d;
    if rem > d / 2 || (rem == d / 2 && q % 2 == 1) {
        proof {
            assert(q < x || d == 1 || x == 0 || q + 1 <= u128::MAX) by (nonlinear_arith)
                requires
                    q == x / d,
                    d >= 10,
            ;
        }
        q + 1
    } else {
        q
    }
}

/// The digits of the amount, without leading zeros, at `e` decimal places.
fn scaled_digits_exec(m: i128, s: u32, e: u32) -> (r: String)
    requires
        -MAX_MANTISSA <= m <= MAX_MANTISSA,
        s <= MAX_SCALE,
        e <= MAX_SCALE,
    ensures
        r@ == scaled_digits(m as int, s as nat, e as nat),
{
    let x: u128 = if m < 0 {
        (-m) as u128
    } else {
        m as u128
    };
    if s >= e {
        decimal_text(round_half_even_exec(x, s - e))
    } else {
        let mut r = decimal_text(x);
        let zeros = repeat_text('0', (e - s) as usize);
        push_text(&mut r, zeros.as_str());
        r
    }
}

/// Whether the amount rounds to zero at `e` decimal places.
fn rounds_to_zero_exec(m: i128, s: u32, e: u32) -> (r: bool)
    requires
        -MAX_MANTISSA <= m <= MAX_MANTISSA,
        s <= MAX_SCALE,
        e <= MAX_SCALE,
    ensures
        r == rounds_to_zero(m as int, s as nat, e as nat),
{
    let x: u128 = if m < 0 {
        (-m) as u128
    } else {
        m as u128
    };
    if s >= e {
        round_half_even_exec(x, s - e) == 0
    } else {
        m == 0
    }
}

/// The digits of the amount at `e` decimal places, with zeros in front to
/// make at least `e + 1` of them.
fn padded_digits(m: i128, s: u32, e: u32) -> (r: String)
    requires
        -MAX_MANTISSA <= m <= MAX_MANTISSA,
        s <= MAX_SCALE,
        e <= MAX_SCALE,
    ensures
        r@ == zero_padded(scaled_digits(m as int, s as nat, e as nat), e as nat + 1),
        r@.len() >= e + 1,
{
    let digits = scaled_digits_exec(m, s, e);
    let len = digits.as_str().unicode_len();
    let mut p = String::new();
    if len < e as usize + 1 {
        let zeros = repeat_text('0', e as usize + 1 - len);
        push_text(&mut p, zeros.as_str());
    }
    push_text(&mut p, digits.as_str());
    proof {
        lemma_repeat_len('0', (e + 1 - len) as nat);
        assert(p@ =~= zero_padded(digits@, e as nat + 1));
    }
    p
}

/// The amount at `e` decimal places, rounded with ties to even, with `.`
/// before the decimals, no grouping, and `-` in front when it is below zero
/// and does not round to zero: `525.00`.
pub open spec fn plain_text(m: int, s: nat, e: nat) -> Seq<char> {
    let p = zero_padded(scaled_digits(m, s, e), e + 1);
    let k = p.len() - e;
    (if m < 0 && !rounds_to_zero(m, s, e) {
        seq!['-']
    } else {
        Seq::empty()
    }) + p.subrange(0, k) + if e > 0 {
        seq!['.'] + p.subrange(k, p.len() as int)
    } else {
        Seq::empty()
    }
}

/// The amount at `e` decimal places in plain form (see `plain_text`).
pub fn plain_amount_text(amount: &Amount, e: u32) -> (r: String)
    requires
        e <= MAX_SCALE,
    ensures
        r@ == plain_text(amount.m(), amount.s(), e as nat),
{
    let m = amount.mantissa();
    let s = amount.scale();
    let p = padded_digits(m, s, e);
    let plen = p.as_str().unicode_len();
    let k = plen - e as usize;
    let mut r = String::new();
    if m < 0 && !rounds_to_zero_exec(m, s, e) {
        push_char(&mut r, '-');
    }
    let whole = slice_text(p.as_str(), 0, k);
    push_text(&mut r, whole.as_str());
    if e > 0 {
        push_char(&mut r, '.');
        let frac = slice_text(p.as_str(), k, plen);
        push_text(&mut r, frac.as_str());
    }
    proof {
        assert(r@ =~= plain_text(amount.m(), amount.s(), e as nat));
    }
    r
}

/// `t` in groups of three digits separated by `sep`.
fn grouped(t: &str, sep: char) -> (r: String)
    ensures
        r@ == grouped_prefix(t@, t@.len() as int, sep),
{
    let n = t.unicode_len();
    let mut r = String::new();
    let mut j: usize = 0;
    while j < n
        invariant
            n == t@.len(),
            j <= n,
            r@ == grouped_prefix(t@, j as int, sep),
        decreases n - j,
    {
        if j > 0 && (n - j) % 3 == 0 {
            push_char(&mut r, sep);
        }
        push_char(&mut r, t.get_char(j));
        proof {
            let sep_part = if j > 0 && (t@.len() - j) % 3 == 0 {
                seq![sep]
            } else {
                Seq::<char>::empty()
            };
            assert(r@ =~= grouped_prefix(t@, j as int, sep) + sep_part + seq![t@[j as int]]);
        }
        j = j + 1;
    }
    r
}

fn push_pattern(r: &mut String, p: Pattern, value: &str, symbol: &str)
    ensures
        final(r)@ == old(r)@ + apply_pattern(p, value@, symbol@),
{
    match p {
        Pattern::ValueSpaceSymbol => {
            push_text(r, value);
            push_char(r, ' ');
            push_text(r, symbol);
        },
        Pattern::SymbolValue => {
            push_text(r, symbol);
            push_text(r, value);
        },
        Pattern::MinusValueSpaceSymbol => {
            push_char(r, '-');
            push_text(r, value);
            push_char(r, ' ');
            push_text(r, symbol);
        },
        Pattern::MinusSymbolValue => {
            push_char(r, '-');
            push_text(r, symbol);
            push_text(r, value);
        },
    }
    proof {
        assert(final(r)@ =~= old(r)@ + apply_pattern(p, value@, symbol@));
    }
}

impl MoneyFormat {
    /// The number of `amount` without sign or symbol.
    fn value_text_exec(&self, amount: &Amount) -> (r: String)
        requires
            self.exponent <= MAX_SCALE,
        ensures
            r@ == value_text(
                amount.m(),
                amount.s(),
                self.exponent as nat,
                self.decimal_separator,
                self.thousand_separator,
            ),
    {
        let e = self.exponent;
        let p = padded_digits(amount.mantissa(), amount.scale(), e);
        let plen = p.as_str().unicode_len();
        let k = plen - e as usize;
        let whole = slice_text(p.as_str(), 0, k);
        let mut r = grouped(whole.as_str(), self.thousand_separator);
        if e > 0 {
            push_char(&mut r, self.decimal_separator);
            let frac = slice_text(p.as_str(), k, plen);
            push_text(&mut r, frac.as_str());
        }
        proof {
            let tail = if e > 0 {
                seq![self.decimal_separator] + p@.subrange(k as int, plen as int)
            } else {
                Seq::<char>::empty()
            };
            assert(r@ =~= grouped_prefix(whole@, k as int, self.thousand_separator) + tail);
        }
        r
    }

    /// The text of `amount`, rounded to `exponent` decimal places with ties
    /// to even, in the pattern that its sign calls for.
    pub fn format_money(&self, amount: &Amount) -> (r: String)
        requires
            self.exponent <= MAX_SCALE,
        ensures
            r@ == money_text(*self, amount.m(), amount.s()),
    {
        let v = self.value_text_exec(amount);
        let zero = rounds_to_zero_exec(amount.mantissa(), amount.scale(), self.exponent);
        let p = if zero {
            self.zero
        } else if amount.mantissa() < 0 {
            self.negative
        } else {
            self.positive
        };
        let mut r = String::new();
        push_pattern(&mut r, p, v.as_str(), self.symbol.as_str());
        proof {
            assert(r@ =~= money_text(*self, amount.m(), amount.s()));
        }
        r
    }
}

/// The text of `amount` in `currency`.
pub fn format(amount: &Amount, currency: &Currency) -> (r: String)
    requires
        currency.exponent <= MAX_SCALE,
    ensures
        forall|f: MoneyFormat| #[trigger]
            is_format_for(f, *currency) ==> r@ == money_text(f, amount.m(), amount.s()),
{
    let f = create_accounting_from_currency(currency);
    let r = f.format_money(amount);
    proof {
        assert forall|g: MoneyFormat| #[trigger]
            is_format_for(g, *currency) implies r@ == money_text(g, amount.m(), amount.s()) by {
            assert(g.symbol@ == f.symbol@);
        }
    }
    r
}


/// An amount of zero, at any number of decimal places, is printed in the
/// zero pattern, as a single `0` followed by the decimal separator and as many
/// zeros as the currency has decimal places.
pub proof fn lemma_zero_uses_zero_pattern(f: MoneyFormat, c: Currency, s: nat)
    requires
        is_format_for(f, c),
    ensures
        money_text(f, 0, s) == apply_pattern(
            f.zero,
            seq!['0'] + if f.exponent > 0 {
                seq![f.decimal_separator] + repeat('0', f.exponent as nat)
            } else {
                Seq::empty()
            },
            f.symbol@,
        ),
{
    let e = f.exponent as nat;
    let dec = f.decimal_separator;
    let th = f.thousand_separator;
    let d = scaled_digits(0, s, e);
    if s >= e {
        let k = (s - e) as nat;
        if k > 0 {
            lemma_pow10_positive(k);
            assert(pow10(k) == 10 * pow10((k - 1) as nat));
            lemma_pow10_positive((k - 1) as nat);
        }
        assert(round_half_even(0, k) == 0);
        assert(decimal(0) == seq!['0']);
        assert(rounds_to_zero(0, s, e));
    }
    lemma_repeat_len('0', e);
    lemma_repeat_len('0', (e + 1) as nat);
    lemma_repeat_len('0', (e - s) as nat);
    lemma_repeat_len('0', (e + 1 - d.len()) as nat);
    assert(decimal(0) == seq!['0']);
    let p = zero_padded(d, e + 1);
    assert(p =~= repeat('0', e + 1));
    let k = p.len() - e;
    assert(k == 1);
    assert(p.subrange(0, 1) =~= seq!['0']);
    assert(grouped_prefix(seq!['0'], 0, th) =~= Seq::<char>::empty());
    assert(grouped_prefix(seq!['0'], 1, th) =~= seq!['0']);
    assert(p.subrange(1, p.len() as int) =~= repeat('0', e));
    assert(value_text(0, s, e, dec, th) =~= seq!['0'] + if e > 0 {
        seq![dec] + repeat('0', e)
    } else {
        Seq::empty()
    });
}

/// A negative amount that does not round to zero is printed as a minus sign
/// followed by the text of its absolute value.
pub proof fn lemma_negative_is_minus_positive(f: MoneyFormat, c: Currency, m: int, s: nat)
    requires
        is_format_for(f, c),
        m < 0,
        !rounds_to_zero(m, s, f.exponent as nat),
    ensures
        money_text(f, m, s) == seq!['-'] + money_text(f, -m, s),
{
    let e = f.exponent as nat;
    assert(abs(m) == abs(-m));
    assert(scaled_digits(m, s, e) == scaled_digits(-m, s, e));
    assert(value_text(m, s, e, f.decimal_separator, f.thousand_separator) == value_text(
        -m,
        s,
        e,
        f.decimal_separator,
        f.thousand_separator,
    ));
    assert(!rounds_to_zero(-m, s, e));
    let v = value_text(m, s, e, f.decimal_separator, f.thousand_separator);
    assert(apply_pattern(f.negative, v, f.symbol@) =~= seq!['-'] + apply_pattern(
        f.positive,
        v,
        f.symbol@,
    ));
}

} // verus!
