//! United States taxpayer identifiers.

use vstd::prelude::*;
use vstd::string::*;

use crate::text::{is_digit, slice_text};

verus! {

/// A United States taxpayer identifier of either kind.
pub enum Vat {
    Tin(Tin),
    Ein(Ein),
}

#[derive(Debug, Clone, Copy, PartialEq, Eq)]
pub enum Error {
    Invalid,
}

impl Error {
    /// The message shown to a user.
    pub fn message(&self) -> &'static str {
        match self {
            Error::Invalid => "Invalid TIN/EIN",
        }
    }
}

/// Digits, with a dash exactly at each of the positions `dashes` lists.
pub open spec fn digits_and_dashes(s: Seq<char>, dashes: Set<int>) -> bool {
    forall|i: int|
        0 <= i < s.len() ==> if dashes.contains(i) {
            #[trigger] s[i] == '-'
        } else {
            is_digit(s[i])
        }
}

/// The shape of a taxpayer identification number: `DDD-DD-DDDD`.
pub open spec fn is_tin(s: Seq<char>) -> bool {
    s.len() == 11 && digits_and_dashes(s, set![3int, 6int])
}

/// The shape of an employer identification number: `DD-DDDDDDD`.
pub open spec fn is_ein(s: Seq<char>) -> bool {
    s.len() == 10 && digits_and_dashes(s, set![2int])
}

/// Whether `s` has length `n`, with dashes at `d1` and `d2` and digits
/// elsewhere (`d2 == d1` for a single dash).
fn check_shape(s: &str, n: usize, d1: usize, d2: usize) -> (r: bool)
    ensures
        r == (s@.len() == n && forall|i: int|
            0 <= i < s@.len() ==> if i == d1 || i == d2 {
                #[trigger] s@[i] == '-'
            } else {
                is_digit(s@[i])
            }),
{
    if s.unicode_len() != n {
        return false;
    }
    let mut i: usize = 0;
    while i < n
        invariant
            n == s@.len(),
            i <= n,
            forall|j: int|
                0 <= j < i ==> if j == d1 || j == d2 {
                    #[trigger] s@[j] == '-'
                } else {
                    is_digit(s@[j])
                },
        decreases n - i,
    {
        let c = s.get_char(i);
        if i == d1 || i == d2 {
            if c != '-' {
                return false;
            }
        } else if !('0' <= c && c <= '9') {
            return false;
        }
        i = i + 1;
    }
    true
}

/// A taxpayer identification number.
pub struct Tin(String);

impl View for Tin {
    type V = Seq<char>;

    closed spec fn view(&self) -> Seq<char> {
        self.0@
    }
}

impl Tin {
    /// Accepts exactly the texts of the shape `DDD-DD-DDDD`.
    pub fn parse(s: &str) -> (r: Result<Tin, Error>)
        ensures
            r is Ok <==> is_tin(s@),
            r matches Ok(t) ==> t@ == s@,
    {
        let ok = check_shape(s, 11, 3, 6);
        proof {
            if ok != is_tin(s@) {
                if ok {
                    assert(digits_and_dashes(s@, set![3int, 6int]));
                } else {
                    assert(is_tin(s@));
                    assert forall|i: int| 0 <= i < s@.len() implies if i == 3 || i == 6 {
                        #[trigger] s@[i] == '-'
                    } else {
                        is_digit(s@[i])
                    } by {
                        assert(set![3int, 6int].contains(i) == (i == 3 || i == 6));
                    }
                }
            }
        }
        if ok {
            Ok(Tin(slice_text(s, 0, 11)))
        } else {
            Err(Error::Invalid)
        }
    }

    pub fn get(&self) -> (r: &str)
        ensures
            r@ == self@,
    {
        self.0.as_str()
    }
}

/// An employer identification number.
pub struct Ein(String);

impl View for Ein {
    type V = Seq<char>;

    closed spec fn view(&self) -> Seq<char> {
        self.0@
    }
}

impl Ein {
    /// Accepts exactly the texts of the shape `DD-DDDDDDD`.
    pub fn parse(s: &str) -> (r: Result<Ein, Error>)
        ensures
            r is Ok <==> is_ein(s@),
            r matches Ok(t) ==> t@ == s@,
    {
        let ok = check_shape(s, 10, 2, 2);
        proof {
            if ok != is_ein(s@) {
                if ok {
                    assert(digits_and_dashes(s@, set![2int]));
                } else {
                    assert(is_ein(s@));
                    assert forall|i: int| 0 <= i < s@.len() implies if i == 2 || i == 2 {
                        #[trigger] s@[i] == '-'
                    } else {
                        is_digit(s@[i])
                    } by {
                        assert(set![2int].contains(i) == (i == 2));
                    }
                }
            }
        }
        if ok {
            Ok(Ein(slice_text(s, 0, 10)))
        } else {
            Err(Error::Invalid)
        }
    }

    pub fn get(&self) -> (r: &str)
        ensures
            r@ == self@,
    {
        self.0.as_str()
    }
}

impl std::str::FromStr for Tin {
    type Err = Error;

    fn from_str(s: &str) -> Result<Tin, Error> {
        Tin::parse(s)
    }
}

impl std::str::FromStr for Ein {
    type Err = Error;

    fn from_str(s: &str) -> Result<Ein, Error> {
        Ein::parse(s)
    }
}

} // verus!
