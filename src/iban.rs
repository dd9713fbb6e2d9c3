//! International bank account numbers, and the Czech account number that
//! the printed form of a Czech IBAN contains.

use vstd::prelude::*;
use vstd::string::*;

use crate::text::{push_char, push_text, slice_text};

verus! {

/// The electronic form (no spaces, upper case) of the IBAN that `s` spells,
/// if `s` is a valid IBAN.
pub uninterp spec fn iban_parse_of(s: Seq<char>) -> Option<Seq<char>>;

/// An ASCII letter or digit.
pub open spec fn is_ascii_alphanumeric(c: char) -> bool {
    ('0' <= c && c <= '9') || ('A' <= c && c <= 'Z') || ('a' <= c && c <= 'z')
}

/// Relies on `iban::Iban`'s `FromStr` (accepts the electronic or the
/// printed form of a valid IBAN) and on `IbanLike::electronic_str` (the IBAN
/// without spaces, its letters in upper case, at most 34 characters).
#[verifier::external_body]
fn parse_electronic(s: &str) -> (r: Option<String>)
    ensures
        r is Some <==> iban_parse_of(s@) is Some,
        r matches Some(e) ==> iban_parse_of(s@) == Some(e@),
        r matches Some(e) ==> 4 <= e@.len() <= 34 && forall|i: int|
            0 <= i < e@.len() ==> is_ascii_alphanumeric(#[trigger] e@[i]),
{
    match s.parse::<iban::Iban>() {
        Ok(i) => Some(iban::IbanLike::electronic_str(&i).to_string()),
        Err(_) => None,
    }
}

/// The first `j` characters of `e` in groups of four separated by spaces.
pub open spec fn paper_prefix(e: Seq<char>, j: int) -> Seq<char>
    decreases j,
{
    if j <= 0 {
        Seq::empty()
    } else {
        paper_prefix(e, j - 1) + (if j - 1 > 0 && (j - 1) % 4 == 0 {
            seq![' ']
        } else {
            Seq::empty()
        }) + seq![e[j - 1]]
    }
}

/// The printed form of an IBAN: groups of four characters separated by spaces.
pub open spec fn paper_format(e: Seq<char>) -> Seq<char> {
    paper_prefix(e, e.len() as int)
}

/// `s` without its spaces.
pub open spec fn without_spaces(s: Seq<char>) -> Seq<char>
    decreases s.len(),
{
    if s.len() == 0 {
        Seq::empty()
    } else {
        without_spaces(s.drop_last()) + if s.last() == ' ' {
            Seq::empty()
        } else {
            seq![s.last()]
        }
    }
}

/// `s` without its leading zeros.
pub open spec fn without_leading_zeros(s: Seq<char>) -> Seq<char>
    decreases s.len(),
{
    if s.len() > 0 && s[0] == '0' {
        without_leading_zeros(s.subrange(1, s.len() as int))
    } else {
        s
    }
}

/// The Czech account number in the printed form `p` of an IBAN: the
/// characters from the tenth on, without spaces or leading zeros, then `/`
/// and the bank code, the characters from the sixth to the ninth.
pub open spec fn bank_account_spec(p: Seq<char>) -> Seq<char> {
    without_leading_zeros(without_spaces(p.subrange(9, p.len() as int))) + seq!['/']
        + p.subrange(5, 9)
}

/// A valid IBAN.
#[derive(Debug, Clone, PartialEq, Eq)]
pub struct Iban {
    electronic: String,
}

impl View for Iban {
    type V = Seq<char>;

    /// The electronic form.
    closed spec fn view(&self) -> Seq<char> {
        self.electronic@
    }
}

impl Iban {
    /// The IBAN that `s` spells in electronic or printed form, if it is valid.
    pub fn parse(s: &str) -> (r: Option<Iban>)
        ensures
            r is Some <==> iban_parse_of(s@) is Some,
            r matches Some(i) ==> iban_parse_of(s@) == Some(i@),
    {
        match parse_electronic(s) {
            Some(e) => Some(Iban { electronic: e }),
            None => None,
        }
    }

    /// The IBAN without spaces.
    pub fn electronic_str(&self) -> (r: &str)
        ensures
            r@ == self@,
    {
        self.electronic.as_str()
    }

    /// The IBAN in groups of four characters separated by spaces.
    pub fn to_paper(&self) -> (r: String)
        ensures
            r@ == paper_format(self@),
    {
        let e = self.electronic.as_str();
        let n = e.unicode_len();
        let mut r = String::new();
        let mut j: usize = 0;
        while j < n
            invariant
                n == e@.len(),
                e@ == self@,
                j <= n,
                r@ == paper_prefix(e@, j as int),
            decreases n - j,
        {
            if j > 0 && j % 4 == 0 {
                push_char(&mut r, ' ');
            }
            push_char(&mut r, e.get_char(j));
            proof {
                let sep = if j > 0 && j % 4 == 0 {
                    seq![' ']
                } else {
                    Seq::<char>::empty()
                };
                assert(r@ =~= paper_prefix(e@, j as int) + sep + seq![e@[j as int]]);
            }
            j = j + 1;
        }
        r
    }
}

/// Drops the spaces of `s`.
fn remove_spaces(s: &str) -> (r: String)
    ensures
        r@ == without_spaces(s@),
{
    let n = s.unicode_len();
    let mut r = String::new();
    let mut i: usize = 0;
    while i < n
        invariant
            n == s@.len(),
            i <= n,
            r@ == without_spaces(s@.subrange(0, i as int)),
        decreases n - i,
    {
        let c = s.get_char(i);
        if c != ' ' {
            push_char(&mut r, c);
        }
        proof {
            let t = s@.subrange(0, i + 1);
            assert(t.drop_last() =~= s@.subrange(0, i as int));
            assert(t.last() == c);
            if c == ' ' {
                assert(r@ =~= without_spaces(t));
            } else {
                assert(r@ =~= without_spaces(t));
            }
        }
        i = i + 1;
    }
    proof {
        assert(s@.subrange(0, n as int) =~= s@);
    }
    r
}

/// Drops the leading zeros of `s`.
fn trim_leading_zeros(s: &str) -> (r: String)
    ensures
        r@ == without_leading_zeros(s@),
{
    let n = s.unicode_len();
    let mut i: usize = 0;
    proof {
        assert(s@.subrange(0, n as int) =~= s@);
    }
    while i < n && s.get_char(i) == '0'
        invariant
            n == s@.len(),
            i <= n,
            without_leading_zeros(s@) == without_leading_zeros(s@.subrange(i as int, n as int)),
        decreases n - i,
    {
        proof {
            let t = s@.subrange(i as int, n as int);
            assert(t.subrange(1, t.len() as int) =~= s@.subrange(i + 1, n as int));
        }
        i = i + 1;
    }
    slice_text(s, i, n)
}

/// Reads the account number in the domestic form of an account that an IBAN
/// designates.
pub trait ToBankAccountNumber {
    spec fn printed(&self) -> Seq<char>;

    fn to_bank_account_number(&self) -> (r: String)
        requires
            self.printed().len() >= 9,
        ensures
            r@ == bank_account_spec(self.printed()),
    ;
}

impl ToBankAccountNumber for Iban {
    open spec fn printed(&self) -> Seq<char> {
        paper_format(self@)
    }

    /// `"<account number>/<bank code>"`, read from the printed form.
    fn to_bank_account_number(&self) -> (r: String) {
        let value = self.to_paper();
        let v = value.as_str();
        let n = v.unicode_len();
        let bank_code = slice_text(v, 5, 9);
        let rest = slice_text(v, 9, n);
        let compact = remove_spaces(rest.as_str());
        let mut r = trim_leading_zeros(compact.as_str());
        push_char(&mut r, '/');
        push_text(&mut r, bank_code.as_str());
        proof {
            assert(r@ =~= bank_account_spec(self.printed()));
        }
        r
    }
}

} // verus!
