//! Validated book identifiers.
//!
//! An [`Isbn`] holds the digit values of an ISBN-10 or ISBN-13 whose check
//! digit has been verified.  Hyphens and spaces are accepted as separators on
//! input; the canonical form is the bare digit string, with `X` standing for
//! the value ten in the last place of an ISBN-10.

use vstd::prelude::*;

verus! {

/// The mathematical value of an [`Isbn`]: which length it has, and its digits.
#[verifier::ext_equal]
pub struct IsbnView {
    pub thirteen: bool,
    pub digits: Seq<u8>,
}

/// The digit weighted sum of an ISBN-10 candidate: position `i` (from zero)
/// weighs `10 - i`.  A valid ISBN-10 has a sum divisible by eleven.
pub open spec fn weighted_sum_10(digits: Seq<u8>) -> int
    decreases digits.len(),
{
    if digits.len() == 0 {
        0
    } else {
        weighted_sum_10(digits.drop_last()) + digits.last() * (10 - (digits.len() - 1))
    }
}

/// The digit weighted sum of an ISBN-13 candidate: even positions weigh one,
/// odd positions weigh three.  A valid ISBN-13 has a sum divisible by ten.
pub open spec fn weighted_sum_13(digits: Seq<u8>) -> int
    decreases digits.len(),
{
    if digits.len() == 0 {
        0
    } else {
        weighted_sum_13(digits.drop_last()) + digits.last() * (
        if (digits.len() - 1) % 2 == 0 {
            1int
        } else {
            3int
        })
    }
}

/// Ten digit values, the last possibly ten (written `X`), with a valid check.
pub open spec fn valid_isbn10_digits(digits: Seq<u8>) -> bool {
    &&& digits.len() == 10
    &&& forall|i: int| 0 <= i < 9 ==> #[trigger] digits[i] <= 9
    &&& digits[9] <= 10
    &&& weighted_sum_10(digits) % 11 == 0
}

/// Thirteen digit values with a valid check digit.
pub open spec fn valid_isbn13_digits(digits: Seq<u8>) -> bool {
    &&& digits.len() == 13
    &&& forall|i: int| 0 <= i < 13 ==> #[trigger] digits[i] <= 9
    &&& weighted_sum_13(digits) % 10 == 0
}

impl IsbnView {
    /// A well-formed identifier: digits of the stated kind with a valid check.
    pub open spec fn wf(self) -> bool {
        if self.thirteen {
            valid_isbn13_digits(self.digits)
        } else {
            valid_isbn10_digits(self.digits)
        }
    }
}

/// The characters that an ISBN string may use as separators.
pub open spec fn is_isbn_separator(c: char) -> bool {
    c == '-' || c == ' '
}

/// The candidate with every separator dropped, order kept.
pub open spec fn strip_separators(s: Seq<char>) -> Seq<char>
    decreases s.len(),
{
    if s.len() == 0 {
        Seq::empty()
    } else {
        let rest = strip_separators(s.drop_last());
        if is_isbn_separator(s.last()) {
            rest
        } else {
            rest.push(s.last())
        }
    }
}

/// The value of one ISBN character: a decimal digit, or ten for `X`/`x`.
pub open spec fn isbn_char_value(c: char) -> Option<u8> {
    if '0' <= c && c <= '9' {
        Some((c as u8 - 48) as u8)
    } else if c == 'X' || c == 'x' {
        Some(10u8)
    } else {
        None
    }
}

/// The digit values of a separator-free candidate, provided every character
/// is a digit — with `X` allowed only in the last place of a ten-character
/// candidate.
pub open spec fn isbn_digit_values(t: Seq<char>) -> Option<Seq<u8>>
    decreases t.len(),
{
    if t.len() == 0 {
        Some(Seq::empty())
    } else {
        match (isbn_digit_values(t.drop_last()), isbn_char_value(t.last())) {
            (Some(d), Some(v)) => Some(d.push(v)),
            _ => None,
        }
    }
}

/// What parsing an ISBN string yields: separators are dropped, the rest must
/// be ten or thirteen digits with a valid check.
pub open spec fn spec_parse_isbn(s: Seq<char>) -> Option<IsbnView> {
    let t = strip_separators(s);
    match isbn_digit_values(t) {
        Some(d) => if valid_isbn13_digits(d) {
            Some(IsbnView { thirteen: true, digits: d })
        } else if valid_isbn10_digits(d) {
            Some(IsbnView { thirteen: false, digits: d })
        } else {
            None
        },
        None => None,
    }
}

/// A validated ISBN-10 or ISBN-13.
#[derive(Debug, PartialEq, Eq)]
pub struct Isbn {
    thirteen: bool,
    digits: Vec<u8>,
}

impl View for Isbn {
    type V = IsbnView;

    closed spec fn view(&self) -> IsbnView {
        IsbnView { thirteen: self.thirteen, digits: self.digits@ }
    }
}

/// The canonical character of one digit value: `0` to `9`, and `X` for any
/// larger value (a well-formed identifier only ever holds ten there).
pub open spec fn spec_digit_char(d: u8) -> char {
    if d >= 10 {
        'X'
    } else {
        (48 + d) as char
    }
}

/// The canonical separator-free text of an identifier.
pub open spec fn spec_canonical(v: IsbnView) -> Seq<char> {
    v.digits.map_values(|d: u8| spec_digit_char(d))
}

impl Isbn {
    /// Parses an ISBN string; `Err` keeps the raw input.
    ///
    /// Succeeds exactly when the input, less separators, is ten or thirteen
    /// digits with a valid check digit.
    pub fn parse(s: &str) -> (r: Result<Isbn, crate::recon::ReconError>)
        ensures
            match r {
                Ok(i) => spec_parse_isbn(s@) == Some(i@) && i@.wf(),
                Err(e) => spec_parse_isbn(s@) is None && e@
                    == crate::recon::ErrView::ISBNParse(s@),
            },
    {
        let chars = crate::strutil::str_to_chars(s);
        let mut t: Vec<char> = Vec::new();
        let n = chars.len();
        for i in 0..n
            invariant
                n == chars.len(),
                chars@ == s@,
                t@ == strip_separators(chars@.take(i as int)),
        {
            let c = chars[i];
            proof {
                assert(chars@.take(i + 1).drop_last() =~= chars@.take(i as int));
                assert(chars@.take(i + 1).last() == chars@[i as int]);
            }
            if !(c == '-' || c == ' ') {
                t.push(c);
            }
        }
        proof {
            assert(chars@.take(n as int) =~= chars@);
        }
        // Turn the characters into digit values, rejecting anything that is
        // not a digit (or `X` for ten).
        let mut d: Vec<u8> = Vec::new();
        let m = t.len();
        let mut bad: bool = false;
        for i in 0..m
            invariant
                m == t.len(),
                !bad ==> isbn_digit_values(t@.take(i as int)) == Some(d@),
                bad ==> isbn_digit_values(t@) is None,
        {
            proof {
                assert(t@.take(i + 1).drop_last() =~= t@.take(i as int));
                assert(t@.take(i + 1).last() == t@[i as int]);
            }
            if !bad {
                let c = t[i];
                if '0' <= c && c <= '9' {
                    d.push((c as u32 - 48) as u8);
                } else if c == 'X' || c == 'x' {
                    d.push(10);
                } else {
                    bad = true;
                    proof {
                        lemma_digit_values_prefix_none(t@, i + 1);
                        assert(t@.take(t@.len() as int) =~= t@);
                    }
                }
            }
        }
        proof {
            assert(t@.take(m as int) =~= t@);
        }
        if bad {
            return Err(isbn_error(s));
        }
        // Check digit validation for either accepted length.
        if d.len() == 13 {
            if check_13(&d) {
                Ok(Isbn { thirteen: true, digits: d })
            } else {
                Err(isbn_error(s))
            }
        } else if d.len() == 10 {
            let mut ok: bool = d[9] <= 10;
            let mut i: usize = 0;
            while i < 9
                invariant
                    i <= 9,
                    d@.len() == 10,
                    ok == (d@[9] <= 10 && forall|j: int| 0 <= j < i ==> #[trigger] d@[j] <= 9),
                decreases 9 - i,
            {
                if d[i] > 9 {
                    ok = false;
                }
                i += 1;
            }
            if ok && check_10(&d) {
                Ok(Isbn { thirteen: false, digits: d })
            } else {
                Err(isbn_error(s))
            }
        } else {
            Err(isbn_error(s))
        }
    }

    /// True for an ISBN-13, false for an ISBN-10.
    pub fn is_thirteen(&self) -> (r: bool)
        ensures
            r == self@.thirteen,
    {
        self.thirteen
    }

    /// The canonical separator-free text: digits, with `X` for the value ten.
    pub fn canonical(&self) -> (r: String)
        ensures
            r@ == spec_canonical(self@),
    {
        let mut out: Vec<char> = Vec::new();
        let n = self.digits.len();
        for i in 0..n
            invariant
                n == self.digits.len(),
                out@ == self.digits@.take(i as int).map_values(|d: u8| spec_digit_char(d)),
        {
            let d = self.digits[i];
            if d >= 10 {
                out.push('X');
            } else {
                out.push((48 + d) as char);
            }
            proof {
                assert(self.digits@.take(i + 1) =~= self.digits@.take(i as int).push(
                    self.digits@[i as int],
                ));
                assert(out@ =~= self.digits@.take(i + 1).map_values(
                    |dd: u8| spec_digit_char(dd),
                ));
            }
        }
        proof {
            assert(self.digits@.take(n as int) =~= self.digits@);
        }
        crate::strutil::chars_to_string(&out)
    }

    /// An owned copy with the same value.
    pub fn duplicate(&self) -> (r: Isbn)
        ensures
            r@ == self@,
    {
        let mut d: Vec<u8> = Vec::new();
        let n = self.digits.len();
        for i in 0..n
            invariant
                n == self.digits.len(),
                d@ == self.digits@.take(i as int),
        {
            d.push(self.digits[i]);
            proof {
                assert(self.digits@.take(i + 1) =~= self.digits@.take(i as int).push(
                    self.digits@[i as int],
                ));
            }
        }
        proof {
            assert(self.digits@.take(n as int) =~= self.digits@);
        }
        Isbn { thirteen: self.thirteen, digits: d }
    }

    /// Value equality, decided on the views.
    pub fn eq_view(&self, other: &Isbn) -> (r: bool)
        ensures
            r == (self@ == other@),
    {
        if self.thirteen != other.thirteen {
            return false;
        }
        if self.digits.len() != other.digits.len() {
            proof {
                assert(self@.digits.len() != other@.digits.len());
            }
            return false;
        }
        let n = self.digits.len();
        for i in 0..n
            invariant
                n == self.digits@.len() == other.digits@.len(),
                self.digits@.take(i as int) == other.digits@.take(i as int),
        {
            if self.digits[i] != other.digits[i] {
                proof {
                    assert(self@.digits != other@.digits);
                }
                return false;
            }
            proof {
                assert(self.digits@.take(i + 1) =~= self.digits@.take(i as int).push(
                    self.digits@[i as int],
                ));
                assert(other.digits@.take(i + 1) =~= other.digits@.take(i as int).push(
                    other.digits@[i as int],
                ));
            }
        }
        proof {
            assert(self.digits@.take(n as int) =~= self.digits@);
            assert(other.digits@.take(n as int) =~= other.digits@);
            assert(self@ =~= other@);
        }
        true
    }
}

/// The per-item failure an unparseable ISBN string turns into.
fn isbn_error(s: &str) -> (e: crate::recon::ReconError)
    ensures
        e@ == crate::recon::ErrView::ISBNParse(s@),
{
    crate::recon::ReconError::ISBNParse(s.to_owned())
}

/// Once one character fails to be a digit, the whole candidate has no digit
/// values.
proof fn lemma_digit_values_prefix_none(t: Seq<char>, i: int)
    requires
        0 <= i <= t.len(),
        isbn_digit_values(t.take(i)) is None,
    ensures
        isbn_digit_values(t) is None,
    decreases t.len() - i,
{
    if i < t.len() {
        assert(t.take(i + 1).drop_last() =~= t.take(i));
        lemma_digit_values_prefix_none(t, i + 1);
    } else {
        assert(t.take(i) =~= t);
    }
}

/// The ISBN-13 check: weighted sum divisible by ten.
fn check_13(d: &Vec<u8>) -> (r: bool)
    requires
        d@.len() == 13,
    ensures
        r == valid_isbn13_digits(d@),
{
    let mut sum: u32 = 0;
    let mut all_small: bool = true;
    let mut i: usize = 0;
    while i < 13
        invariant
            i <= 13,
            d@.len() == 13,
            all_small == (forall|j: int| 0 <= j < i ==> #[trigger] d@[j] <= 9),
            sum == weighted_sum_13(d@.take(i as int)),
            sum <= i * 765,
        decreases 13 - i,
    {
        proof {
            assert(d@.take(i + 1).drop_last() =~= d@.take(i as int));
            assert(d@.take(i + 1).last() == d@[i as int]);
        }
        if d[i] > 9 {
            all_small = false;
        }
        if i % 2 == 0 {
            sum = sum + d[i] as u32;
        } else {
            sum = sum + 3 * (d[i] as u32);
        }
        i += 1;
    }
    proof {
        assert(d@.take(13) =~= d@);
    }
    all_small && sum % 10 == 0
}

/// The ISBN-10 check: weighted sum divisible by eleven.
fn check_10(d: &Vec<u8>) -> (r: bool)
    requires
        d@.len() == 10,
        forall|j: int| 0 <= j < 9 ==> #[trigger] d@[j] <= 9,
        d@[9] <= 10,
    ensures
        r == (weighted_sum_10(d@) % 11 == 0),
{
    let mut sum: u32 = 0;
    let mut i: usize = 0;
    while i < 10
        invariant
            i <= 10,
            d@.len() == 10,
            forall|j: int| 0 <= j < 9 ==> #[trigger] d@[j] <= 9,
            d@[9] <= 10,
            sum == weighted_sum_10(d@.take(i as int)),
            sum <= i * 100,
        decreases 10 - i,
    {
        proof {
            assert(d@.take(i + 1).drop_last() =~= d@.take(i as int));
            assert(d@.take(i + 1).last() == d@[i as int]);
        }
        let di: u32 = d[i] as u32;
        let w: u32 = 10 - i as u32;
        proof {
            assert(di * w <= 100) by (nonlinear_arith)
                requires
                    di <= 10,
                    w <= 10,
            ;
        }
        sum = sum + di * w;
        i += 1;
    }
    proof {
        assert(d@.take(10) =~= d@);
    }
    sum % 11 == 0
}

/// The candidates that parse as identifiers, in order; the rest are dropped.
pub open spec fn kept_isbns(ss: Seq<Seq<char>>) -> Seq<IsbnView>
    decreases ss.len(),
{
    if ss.len() == 0 {
        Seq::empty()
    } else {
        kept_isbns(ss.drop_last()) + (match spec_parse_isbn(ss.last()) {
            Some(v) => seq![v],
            None => Seq::empty(),
        })
    }
}

/// The views of a list of identifiers.
pub open spec fn isbn_list_views(s: Seq<Isbn>) -> Seq<IsbnView> {
    s.map_values(|i: Isbn| i@)
}

} // verus!
