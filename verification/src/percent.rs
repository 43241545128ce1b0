use crate::text::{
    all_digits, decimal, format_decimal, lemma_parse_decimal, parse_unsigned, read_unsigned,
    unsigned_digits,
};
use vstd::prelude::*;
use vstd::string::*;

verus! {

/// What a rejected percentage is answered with.
pub const INVALID_PERCENT: &'static str = "Percent must be a number between 1 and 99";

/// A battery charge level in percent. A level that was read from text lies
/// between 1 and 99; the level 0 is kept free to mark what is no level at all.
#[derive(Clone, Copy, Debug, PartialEq, Eq, Structural)]
pub struct Percent(pub u8);

/// The level that the text `s` denotes: an unsigned decimal number between 1
/// and 99. `None` for any other text.
pub open spec fn percent_of(s: Seq<char>) -> Option<Percent> {
    match parse_unsigned(s, 99) {
        Some(n) => if n >= 1 {
            Some(Percent(n as u8))
        } else {
            None
        },
        None => None,
    }
}

impl Percent {
    /// Whether this is a level that charging can be limited to.
    pub open spec fn valid(self) -> bool {
        1 <= self.0 <= 99
    }

    /// The decimal notation of the level.
    pub open spec fn text(self) -> Seq<char> {
        decimal(self.0 as nat)
    }

    /// Reads a level from its decimal notation and rejects everything that is
    /// not a number between 1 and 99.
    pub fn from_str(s: &str) -> (r: Result<Percent, String>)
        ensures
            match percent_of(s@) {
                Some(p) => r == Ok::<Percent, String>(p),
                None => r is Err && r->Err_0@ == INVALID_PERCENT@,
            },
            r matches Ok(p) ==> p.valid(),
    {
        match read_unsigned(s, 99) {
            Some(n) => {
                if n >= 1 {
                    Ok(Percent(n as u8))
                } else {
                    Err(INVALID_PERCENT.to_owned())
                }
            },
            None => Err(INVALID_PERCENT.to_owned()),
        }
    }

    /// Writes the level in decimal notation.
    pub fn to_string(&self) -> (s: String)
        ensures
            s@ == self.text(),
    {
        format_decimal(self.0 as u64)
    }
}

/// Every level between 1 and 99 is read back from its decimal notation, and
/// the notation of any other number is rejected.
pub proof fn lemma_percent_of_decimal(n: nat)
    ensures
        1 <= n <= 99 ==> percent_of(decimal(n)) == Some(Percent(n as u8)),
        n == 0 || n >= 100 ==> percent_of(decimal(n)) is None,
{
    lemma_parse_decimal(n, 99);
}

/// Text that holds anything but decimal digits behind an optional plus sign
/// denotes no level, and neither does text without a digit.
pub proof fn lemma_percent_of_other(s: Seq<char>)
    requires
        unsigned_digits(s).len() == 0 || !all_digits(unsigned_digits(s)),
    ensures
        percent_of(s) is None,
{
}

/// A level that is read from text is valid, and its own notation denotes it.
pub proof fn lemma_percent_of_valid(s: Seq<char>)
    ensures
        percent_of(s) matches Some(p) ==> p.valid() && percent_of(p.text()) == Some(p),
{
    if let Some(p) = percent_of(s) {
        lemma_percent_of_decimal(p.0 as nat);
    }
}

} // verus!
