//! The quote record itself and the parsing of textual ids.

use vstd::prelude::*;

verus! {

/// Mathematical value of a quote record: the id as an unbounded integer and
/// the two text fields as character sequences.
pub struct QuoteV {
    pub id: int,
    pub quote: Seq<char>,
    pub author: Seq<char>,
}

/// The sole persisted entity. The id is assigned externally, unique and
/// stable; the body is text; the author may be empty but is never absent.
#[derive(Debug)]
pub struct Quote {
    pub id: i64,
    pub quote: String,
    pub author: String,
}

impl View for Quote {
    type V = QuoteV;

    open spec fn view(&self) -> QuoteV {
        QuoteV { id: self.id as int, quote: self.quote@, author: self.author@ }
    }
}

impl Clone for Quote {
    fn clone(&self) -> (r: Self)
        ensures
            r == *self,
    {
        Quote { id: self.id, quote: self.quote.clone(), author: self.author.clone() }
    }
}

/// A quote record in the shape the import source and the JSON API use.
#[derive(Debug)]
pub struct JsonQuote {
    pub id: i64,
    pub quote: String,
    pub author: String,
}

impl View for JsonQuote {
    type V = QuoteV;

    open spec fn view(&self) -> QuoteV {
        QuoteV { id: self.id as int, quote: self.quote@, author: self.author@ }
    }
}

impl Clone for JsonQuote {
    fn clone(&self) -> (r: Self)
        ensures
            r == *self,
    {
        JsonQuote { id: self.id, quote: self.quote.clone(), author: self.author.clone() }
    }
}

impl JsonQuote {
    /// Copies a stored quote into the wire shape, field for field.
    pub fn new(quote: &Quote) -> (r: Self)
        ensures
            r@ == quote@,
    {
        Self { id: quote.id, quote: quote.quote.clone(), author: quote.author.clone() }
    }

    /// Copies a wire-shaped record into the stored shape, field for field.
    pub fn to_quote(&self) -> (q: Quote)
        ensures
            q@ == self@,
    {
        Quote { id: self.id, quote: self.quote.clone(), author: self.author.clone() }
    }
}

/// A decimal digit.
pub open spec fn is_dec_digit(c: char) -> bool {
    48 <= c as int <= 57
}

/// The numeric value of one digit character.
pub open spec fn digit_value(c: char) -> int {
    c as int - 48
}

/// Whether every character of the sequence is a decimal digit.
pub open spec fn all_dec_digits(s: Seq<char>) -> bool {
    forall|i: int| 0 <= i < s.len() ==> is_dec_digit(#[trigger] s[i])
}

/// The value a sequence of decimal digits denotes, most significant first.
pub open spec fn digits_value(s: Seq<char>) -> int
    decreases s.len(),
{
    if s.len() == 0 {
        0
    } else {
        digits_value(s.drop_last()) * 10 + digit_value(s.last())
    }
}

/// The id a piece of text denotes: an optional sign, then one or more
/// decimal digits, with a value in the signed 64-bit range. Anything else
/// denotes no id at all.
pub open spec fn parsed_id(s: Seq<char>) -> Option<int> {
    let negative = s.len() > 0 && s[0] == '-';
    let digits = if s.len() > 0 && (s[0] == '-' || s[0] == '+') {
        s.subrange(1, s.len() as int)
    } else {
        s
    };
    if digits.len() == 0 || !all_dec_digits(digits) {
        None
    } else {
        let v = if negative {
            -digits_value(digits)
        } else {
            digits_value(digits)
        };
        if i64::MIN <= v <= i64::MAX {
            Some(v)
        } else {
            None
        }
    }
}

proof fn lemma_all_dec_digits_drop_last(s: Seq<char>)
    requires
        s.len() > 0,
        all_dec_digits(s),
    ensures
        all_dec_digits(s.drop_last()),
{
    assert forall|i: int|
        0 <= i < s.drop_last().len() implies is_dec_digit(#[trigger] s.drop_last()[i]) by {
        assert(s.drop_last()[i] == s[i]);
    }
}

proof fn lemma_digits_value_nonneg(s: Seq<char>)
    requires
        all_dec_digits(s),
    ensures
        digits_value(s) >= 0,
    decreases s.len(),
{
    if s.len() > 0 {
        lemma_all_dec_digits_drop_last(s);
        lemma_digits_value_nonneg(s.drop_last());
        assert(is_dec_digit(s.last()));
    }
}

proof fn lemma_digits_value_prefix(s: Seq<char>, m: int)
    requires
        all_dec_digits(s),
        0 <= m <= s.len(),
    ensures
        digits_value(s.subrange(0, m)) <= digits_value(s),
    decreases s.len(),
{
    if m == s.len() {
        assert(s.subrange(0, m) =~= s);
    } else {
        let d = s.drop_last();
        lemma_all_dec_digits_drop_last(s);
        lemma_digits_value_nonneg(d);
        assert(is_dec_digit(s.last()));
        lemma_digits_value_prefix(d, m);
        assert(s.subrange(0, m) =~= d.subrange(0, m));
    }
}

/// Parses a textual id exactly as the read path understands it: an
/// optional sign and one or more decimal digits, rejected when malformed
/// or out of the signed 64-bit range.
pub fn parse_id(s: &str) -> (r: Option<i64>)
    ensures
        match r {
            Some(v) => parsed_id(s@) == Some(v as int),
            None => parsed_id(s@) is None,
        },
{
    let n = s.unicode_len();
    let mut start: usize = 0;
    let mut negative = false;
    if n > 0 {
        let c0 = s.get_char(0);
        if c0 == '-' {
            negative = true;
            start = 1;
        } else if c0 == '+' {
            start = 1;
        }
    }
    if start >= n {
        // empty input, or a lone sign with no digits
        return None;
    }
    let ghost digits: Seq<char> = s@.subrange(start as int, n as int);
    proof {
        if start == 0 {
            assert(digits =~= s@);
        }
    }
    let mut acc: u64 = 0;
    let mut k: usize = start;
    while k < n
        invariant
            n == s@.len(),
            start <= k <= n,
            start < n,
            start == 0 || start == 1,
            digits == s@.subrange(start as int, n as int),
            negative == (s@.len() > 0 && s@[0] == '-'),
            (start == 1) == (s@.len() > 0 && (s@[0] == '-' || s@[0] == '+')),
            all_dec_digits(s@.subrange(start as int, k as int)),
            acc as int == digits_value(s@.subrange(start as int, k as int)),
            acc <= 0x8000_0000_0000_0000u64,
        decreases n - k,
    {
        let c = s.get_char(k);
        let cv = c as u32;
        let ghost pref: Seq<char> = s@.subrange(start as int, k as int);
        let ghost pref1: Seq<char> = s@.subrange(start as int, k as int + 1);
        proof {
            assert(pref1.drop_last() =~= pref);
            assert(pref1.last() == s@[k as int]);
            assert(digits[k - start] == s@[k as int]);
        }
        if cv < 48 || cv > 57 {
            proof {
                assert(!is_dec_digit(digits[k - start]));
                assert(!all_dec_digits(digits));
            }
            return None;
        }
        let d = cv - 48;
        proof {
            assert(is_dec_digit(s@[k as int]));
            assert(d as int == digit_value(s@[k as int]));
            assert(digits_value(pref1) == acc as int * 10 + d as int);
        }
        let next: u128 = (acc as u128) * 10 + (d as u128);
        if next > 0x8000_0000_0000_0000u128 {
            proof {
                // the digits seen so far already outgrow the 64-bit range,
                // and further digits only grow the value
                let pdigits = if s@.len() > 0 && (s@[0] == '-' || s@[0] == '+') {
                    s@.subrange(1, s@.len() as int)
                } else {
                    s@
                };
                assert(pdigits == digits);
                if all_dec_digits(pdigits) {
                    assert(pref1 =~= digits.subrange(0, k as int + 1 - start as int));
                    lemma_digits_value_prefix(digits, k as int + 1 - start as int);
                    assert(digits_value(pdigits) > 0x8000_0000_0000_0000);
                    let v = if negative {
                        -digits_value(pdigits)
                    } else {
                        digits_value(pdigits)
                    };
                    assert(!(i64::MIN <= v <= i64::MAX));
                }
                assert(parsed_id(s@) is None);
            }
            return None;
        }
        acc = next as u64;
        k += 1;
        proof {
            assert(s@.subrange(start as int, k as int) == pref1);
            assert forall|i: int|
                0 <= i < pref1.len() implies is_dec_digit(#[trigger] pref1[i]) by {
                if i < pref.len() {
                    assert(pref1[i] == pref[i]);
                }
            }
        }
    }
    proof {
        assert(s@.subrange(start as int, k as int) == digits);
        lemma_digits_value_nonneg(digits);
    }
    if negative {
        if acc == 0x8000_0000_0000_0000u64 {
            Some(i64::MIN)
        } else {
            Some(-(acc as i64))
        }
    } else {
        if acc > 0x7FFF_FFFF_FFFF_FFFFu64 {
            // the magnitude just exceeds the largest positive id
            None
        } else {
            Some(acc as i64)
        }
    }
}

} // verus!
