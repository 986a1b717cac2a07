//! The post-id range filter: a closed interval of `u64` whose ends default
//! to `0` and `u64::MAX`, parsed from a `start~end` literal.
use vstd::prelude::*;
use vstd::string::*;

use crate::strutil::all_digits;
use crate::strutil::dec_str;
use crate::strutil::dec_val;
use crate::strutil::find_char;
use crate::strutil::find_spec;
use crate::strutil::is_digit;
use crate::strutil::lemma_dec_str_digits;
use crate::strutil::lemma_find_sep;
use crate::strutil::parse_u64;
use crate::strutil::u64_to_string;

verus! {

/// An inclusive interval of post ids. A post is in range iff
/// `start <= id <= end`.
#[derive(Debug, Clone, Copy, PartialEq, Eq, Structural)]
pub struct Range {
    pub start: u64,
    pub end: u64,
}

/// Where an id lies relative to a `Range`: before its start, inside it, or
/// after its end. Listing pages sorted by descending id may stop scraping
/// early at the first `Below` id.
#[derive(Debug, Clone, Copy, PartialEq, Eq, Structural)]
pub enum IdOrder {
    Below,
    Inside,
    Above,
}

/// The failure cases of parsing a range literal.
#[derive(Debug, Clone, Copy, PartialEq, Eq, Structural)]
pub enum RangeParseError {
    /// The literal holds no separator.
    MissingSeparator,
    /// A nonempty part is not a decimal number that fits in a `u64`.
    BadNumber,
}

/// A numeric bound read from one side of the separator: the given default
/// when the side is empty, its decimal value when it is a fitting decimal
/// number, nothing otherwise.
pub open spec fn bound_of(part: Seq<char>, default: u64) -> Option<u64> {
    if part.len() == 0 {
        Some(default)
    } else if all_digits(part) && dec_val(part) <= u64::MAX {
        Some(dec_val(part) as u64)
    } else {
        None
    }
}

/// The range denoted by a literal: the parts before and after the first
/// separator give the start (default `0`) and end (default `u64::MAX`).
/// Nothing is denoted when the separator is absent or a part is malformed.
pub open spec fn range_of_literal(s: Seq<char>) -> Option<Range> {
    match find_spec(s, '~') {
        None => None,
        Some(j) => match (bound_of(s.take(j), 0), bound_of(s.skip(j + 1), u64::MAX)) {
            (Some(start), Some(end)) => Some(Range { start, end }),
            _ => None,
        },
    }
}

/// The canonical literal of a range: a defaulted end is left empty.
pub open spec fn literal_of_range(r: Range) -> Seq<char> {
    if r.start == 0 && r.end == u64::MAX {
        seq!['~']
    } else if r.start == 0 {
        seq!['~'] + dec_str(r.end as int)
    } else if r.end == u64::MAX {
        dec_str(r.start as int) + seq!['~']
    } else {
        dec_str(r.start as int) + seq!['~'] + dec_str(r.end as int)
    }
}

impl Range {
    /// Whether `value` lies in the interval.
    pub fn contains(&self, value: u64) -> (r: bool)
        ensures
            r == (self.start <= value <= self.end),
    {
        self.start <= value && value <= self.end
    }

    /// Orders `value` against the interval: below its start, inside it, or
    /// above its end.
    pub fn cmp_id(&self, value: u64) -> (r: IdOrder)
        ensures
            r == IdOrder::Below <==> value < self.start,
            r == IdOrder::Inside <==> self.start <= value <= self.end,
            r == IdOrder::Above <==> (self.start <= value && value > self.end),
    {
        if value < self.start {
            IdOrder::Below
        } else if value <= self.end {
            IdOrder::Inside
        } else {
            IdOrder::Above
        }
    }

    /// Parses a `start~end` literal. An empty part leaves that end at its
    /// default; a literal without the separator, or with a part that is not
    /// a fitting decimal number, is rejected.
    pub fn from_str(s: &str) -> (r: Result<Range, RangeParseError>)
        ensures
            match r {
                Ok(rg) => range_of_literal(s@) == Some(rg),
                Err(e) => range_of_literal(s@) is None && ((e == RangeParseError::MissingSeparator)
                    <==> find_spec(s@, '~') is None),
            },
    {
        let n = s.unicode_len();
        let j = match find_char(s, '~') {
            None => {
                return Err(RangeParseError::MissingSeparator);
            },
            Some(j) => j,
        };
        let left = s.substring_char(0, j);
        let right = s.substring_char(j + 1, n);
        proof {
            assert(left@ =~= s@.take(j as int));
            assert(right@ =~= s@.skip(j as int + 1));
        }
        let start: u64 = if left.unicode_len() == 0 {
            0
        } else {
            match parse_u64(left) {
                Some(v) => v,
                None => {
                    return Err(RangeParseError::BadNumber);
                },
            }
        };
        let end: u64 = if right.unicode_len() == 0 {
            u64::MAX
        } else {
            match parse_u64(right) {
                Some(v) => v,
                None => {
                    return Err(RangeParseError::BadNumber);
                },
            }
        };
        Ok(Range { start, end })
    }

    /// Renders the canonical literal of the interval, leaving defaulted ends
    /// empty.
    pub fn to_literal(&self) -> (r: String)
        ensures
            r@ == literal_of_range(*self),
    {
        proof {
            reveal_strlit("~");
            assert("~"@ =~= seq!['~']);
        }
        let mut out = String::new();
        if self.start == 0 && self.end == u64::MAX {
            out.append("~");
        } else if self.start == 0 {
            out.append("~");
            let e = u64_to_string(self.end);
            out.append(e.as_str());
        } else if self.end == u64::MAX {
            let s = u64_to_string(self.start);
            out.append(s.as_str());
            out.append("~");
        } else {
            let s = u64_to_string(self.start);
            out.append(s.as_str());
            out.append("~");
            let e = u64_to_string(self.end);
            out.append(e.as_str());
        }
        out
    }
}


/// Parsing inverts rendering: the canonical literal of any range denotes
/// that range again.
pub proof fn lemma_literal_round_trip(r: Range)
    ensures
        range_of_literal(literal_of_range(r)) == Some(r),
{
    let lit = literal_of_range(r);
    if r.start == 0 && r.end == u64::MAX {
        lemma_find_sep(Seq::empty(), Seq::empty(), '~');
        assert(Seq::<char>::empty() + seq!['~'] + Seq::<char>::empty() =~= lit);
        assert(lit.take(0) =~= Seq::<char>::empty());
        assert(lit.skip(1) =~= Seq::<char>::empty());
    } else if r.start == 0 {
        let b = dec_str(r.end as int);
        lemma_dec_str_digits(r.end as int);
        lemma_find_sep(Seq::empty(), b, '~');
        assert(Seq::<char>::empty() + seq!['~'] + b =~= lit);
        assert(lit.take(0) =~= Seq::<char>::empty());
        assert(lit.skip(1) =~= b);
    } else if r.end == u64::MAX {
        let a = dec_str(r.start as int);
        lemma_dec_str_digits(r.start as int);
        assert(forall|i: int| 0 <= i < a.len() ==> #[trigger] a[i] != '~') by {
            assert(forall|i: int|
                0 <= i < a.len() ==> is_digit(#[trigger] a[i]) && (a[i] as u32) <= 57);
        }
        lemma_find_sep(a, Seq::empty(), '~');
        assert(a + seq!['~'] + Seq::<char>::empty() =~= lit);
        assert(lit.take(a.len() as int) =~= a);
        assert(lit.skip(a.len() as int + 1) =~= Seq::<char>::empty());
    } else {
        let a = dec_str(r.start as int);
        let b = dec_str(r.end as int);
        lemma_dec_str_digits(r.start as int);
        lemma_dec_str_digits(r.end as int);
        assert(forall|i: int| 0 <= i < a.len() ==> #[trigger] a[i] != '~') by {
            assert(forall|i: int|
                0 <= i < a.len() ==> is_digit(#[trigger] a[i]) && (a[i] as u32) <= 57);
        }
        lemma_find_sep(a, b, '~');
        assert(a + seq!['~'] + b =~= lit);
        assert(lit.take(a.len() as int) =~= a);
        assert(lit.skip(a.len() as int + 1) =~= b);
    }
}

impl Default for Range {
    /// The unbounded interval: every id is in range.
    fn default() -> (r: Self)
        ensures
            r.start == 0 && r.end == u64::MAX,
    {
        Range { start: 0, end: u64::MAX }
    }
}

} // verus!
