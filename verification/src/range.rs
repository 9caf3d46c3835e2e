//! Splitting a numeric-range argument of the form `min..max` into its
//! two sides, and the errors such parsing reports. Turning each side
//! into a number is the configuration layer's business; this core only
//! owes it the exact split and the exact error messages.

use vstd::prelude::*;
use vstd::string::StrSliceExecFns;
use vstd::string::StringExecFns;

verus! {

/// Why a range string was rejected. A side that is not a number carries
/// the number parser's message.
#[derive(PartialEq, Eq, Debug)]
pub enum RangeParseError {
    MissingLeft,
    MissingRight,
    MissingDelimiter,
    InvalidFloat(String),
}

impl RangeParseError {
    /// The exact message each rejection prints.
    pub open spec fn message(&self) -> Seq<char> {
        match self {
            RangeParseError::MissingLeft => "missing left-hand side of range"@,
            RangeParseError::MissingRight => "missing right-hand side of range"@,
            RangeParseError::MissingDelimiter => "missing '..' delimiter"@,
            RangeParseError::InvalidFloat(msg) => "invalid float: "@ + msg@,
        }
    }

    pub fn to_string(&self) -> (r: String)
        ensures
            r@ == self.message(),
    {
        match self {
            RangeParseError::MissingLeft => "missing left-hand side of range".to_owned(),
            RangeParseError::MissingRight => "missing right-hand side of range".to_owned(),
            RangeParseError::MissingDelimiter => "missing '..' delimiter".to_owned(),
            RangeParseError::InvalidFloat(msg) => {
                let mut r = "invalid float: ".to_owned();
                r.append(msg.as_str());
                r
            },
        }
    }
}

/// The `..` delimiter stands at character position `i` of `s`.
pub open spec fn delim_at(s: Seq<char>, i: int) -> bool {
    0 <= i && i + 2 <= s.len() && s[i] == '.' && s[i + 1] == '.'
}

/// Splits `min..max` at the first `..` into the text before and after
/// it; without any `..` the string is rejected. Either side may come
/// out empty — whether it is a number is the caller's question.
pub fn split_range(s: &str) -> (r: Result<(String, String), RangeParseError>)
    ensures
        (r is Ok) == exists|i: int| delim_at(s@, i),
        r matches Ok(p) ==> exists|i: int|
            #[trigger] delim_at(s@, i) && (forall|j: int| 0 <= j < i ==> !delim_at(s@, j)) && p.0@
                == s@.take(i) && p.1@ == s@.skip(i + 2),
        r matches Err(e) ==> e == RangeParseError::MissingDelimiter,
{
    let len = s.unicode_len();
    let mut i: usize = 0;
    while i < len && i + 1 < len
        invariant
            len == s@.len(),
            i <= len,
            forall|j: int| 0 <= j < i ==> !delim_at(s@, j),
        decreases len - i,
    {
        if s.get_char(i) == '.' && s.get_char(i + 1) == '.' {
            let left = s.substring_char(0, i).to_owned();
            let right = s.substring_char(i + 2, len).to_owned();
            proof {
                assert(delim_at(s@, i as int));
                assert(left@ =~= s@.take(i as int));
                assert(right@ =~= s@.skip(i as int + 2));
            }
            return Ok((left, right));
        }
        i = i + 1;
    }
    proof {
        assert forall|j: int| !delim_at(s@, j) by {
            if 0 <= j && j + 2 <= s@.len() {
                assert(!delim_at(s@, j));
            }
        }
    }
    Err(RangeParseError::MissingDelimiter)
}

} // verus!
