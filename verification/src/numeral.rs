//! Numbers as text: reading decimal numerals and writing them.

use crate::measure::{lemma_pow10_grows, pow10, power_of_ten};
use crate::measure::{Decimal, DecimalView, MAX_PLACES};
use vstd::prelude::*;
use vstd::string::*;

verus! {

broadcast use vstd::string::group_string_axioms;

/// Whether `c` is one of the ten decimal digits.
pub open spec fn is_digit(c: char) -> bool {
    '0' <= c && c <= '9'
}

/// The number that the digit `c` stands for.
pub open spec fn digit_value(c: char) -> nat {
    (c as u32 - '0' as u32) as nat
}

/// The digit that stands for `d`, for `d` below ten.
pub open spec fn digit_char(d: nat) -> char {
    if d == 0 {
        '0'
    } else if d == 1 {
        '1'
    } else if d == 2 {
        '2'
    } else if d == 3 {
        '3'
    } else if d == 4 {
        '4'
    } else if d == 5 {
        '5'
    } else if d == 6 {
        '6'
    } else if d == 7 {
        '7'
    } else if d == 8 {
        '8'
    } else {
        '9'
    }
}

/// The number that a run of digits denotes in base ten. The empty run
/// denotes zero.
pub open spec fn digits_value(s: Seq<char>) -> nat
    decreases s.len(),
{
    if s.len() == 0 {
        0
    } else {
        10 * digits_value(s.drop_last()) + digit_value(s.last())
    }
}

/// The end of the longest run of digits in `s` that starts at `from`.
pub open spec fn digits_end(s: Seq<char>, from: int) -> int
    decreases s.len() - from,
{
    if 0 <= from < s.len() && is_digit(s[from]) {
        digits_end(s, from + 1)
    } else {
        from
    }
}

/// The base-ten digits of `n`, without leading zeros.
pub open spec fn digits_of(n: nat) -> Seq<char>
    decreases n,
{
    if n < 10 {
        seq![digit_char(n)]
    } else {
        digits_of(n / 10).push(digit_char(n % 10))
    }
}

/// A number of tenths written with one digit after the point: `-5` is
/// `-0.5`, `680` is `68.0`.
pub open spec fn tenths_text(t: int) -> Seq<char> {
    let size = (if t < 0 {
        -t
    } else {
        t
    }) as nat;
    let sign = if t < 0 {
        seq!['-']
    } else {
        Seq::<char>::empty()
    };
    sign + digits_of(size / 10) + seq!['.', digit_char(size % 10)]
}

/// The parts of a decimal numeral: an optional minus sign, digits, an
/// optional fraction, an optional exponent.
pub struct Numeral {
    pub negative: bool,
    pub whole: Seq<char>,
    pub fraction: Seq<char>,
    pub exponent_negative: bool,
    pub exponent: Seq<char>,
}

/// Where the parts of a numeral lie in a text, read from the left:
/// the sign ends at `sign_end`, the whole digits at `whole_end`, the
/// fraction at `fraction_end`; the exponent's digits run from
/// `exponent_start` to `end`.
pub struct Layout {
    pub sign_end: int,
    pub whole_end: int,
    pub has_fraction: bool,
    pub fraction_end: int,
    pub has_exponent: bool,
    pub has_exponent_sign: bool,
    pub exponent_start: int,
    pub end: int,
}

/// The layout that reading `s` as a numeral from the left gives.
pub open spec fn layout_of(s: Seq<char>) -> Layout {
    let sign_end: int = if s.len() > 0 && s[0] == '-' {
        1
    } else {
        0
    };
    let whole_end = digits_end(s, sign_end);
    let has_fraction = whole_end < s.len() && s[whole_end] == '.';
    let fraction_end = if has_fraction {
        digits_end(s, whole_end + 1)
    } else {
        whole_end
    };
    let has_exponent = fraction_end < s.len() && (s[fraction_end] == 'e' || s[fraction_end] == 'E');
    let has_exponent_sign = has_exponent && fraction_end + 1 < s.len() && (s[fraction_end + 1]
        == '+' || s[fraction_end + 1] == '-');
    let exponent_start = if has_exponent_sign {
        fraction_end + 2
    } else if has_exponent {
        fraction_end + 1
    } else {
        fraction_end
    };
    let end = if has_exponent {
        digits_end(s, exponent_start)
    } else {
        fraction_end
    };
    Layout {
        sign_end,
        whole_end,
        has_fraction,
        fraction_end,
        has_exponent,
        has_exponent_sign,
        exponent_start,
        end,
    }
}

/// The numeral that the text `s` is, if it is one: the whole text must be
/// used up, and the whole part, a fraction and an exponent each need at
/// least one digit.
pub open spec fn numeral_of(s: Seq<char>) -> Option<Numeral> {
    let l = layout_of(s);
    if l.whole_end > l.sign_end && (l.has_fraction ==> l.fraction_end > l.whole_end + 1) && (
    l.has_exponent ==> l.end > l.exponent_start) && l.end == s.len() {
        Some(
            Numeral {
                negative: l.sign_end == 1,
                whole: s.subrange(l.sign_end, l.whole_end),
                fraction: if l.has_fraction {
                    s.subrange(l.whole_end + 1, l.fraction_end)
                } else {
                    Seq::empty()
                },
                exponent_negative: l.has_exponent_sign && s[l.fraction_end + 1] == '-',
                exponent: s.subrange(l.exponent_start, l.end),
            },
        )
    } else {
        None
    }
}

impl Numeral {
    /// The power of ten by which the digits `whole ++ fraction`, read as an
    /// integer, are multiplied.
    pub open spec fn shift(self) -> int {
        (if self.exponent_negative {
            -(digits_value(self.exponent) as int)
        } else {
            digits_value(self.exponent) as int
        }) - self.fraction.len()
    }

    /// The decimal that the numeral denotes, where it is within the limits
    /// of [`assemble`].
    pub open spec fn decimal(self) -> Option<DecimalView> {
        assemble(self.negative, digits_value(self.whole + self.fraction), self.shift())
    }
}

/// The decimal `digits * 10^shift`, negated where `negative` says so. There
/// is one where it has at most [`MAX_PLACES`] decimal places, the shift
/// moves the point by at most as many digits to the right, and the units fit
/// in 63 bits.
pub open spec fn assemble(negative: bool, digits: nat, shift: int) -> Option<DecimalView> {
    let size = if shift > 0 {
        digits * pow10(shift as nat)
    } else {
        digits as int
    };
    if -(MAX_PLACES as int) <= shift <= MAX_PLACES as int && size <= i64::MAX {
        Some(
            DecimalView {
                units: if negative {
                    -size
                } else {
                    size
                },
                places: if shift < 0 {
                    (-shift) as nat
                } else {
                    0
                },
            },
        )
    } else {
        None
    }
}

/// The decimal that the text `s` denotes, if it is a numeral within the
/// limits of [`assemble`].
pub open spec fn decimal_of_text(s: Seq<char>) -> Option<DecimalView> {
    match numeral_of(s) {
        Some(n) => n.decimal(),
        None => None,
    }
}

/// The number that the text `s` denotes, if it is a run of digits and
/// nothing else, and the number fits in 32 bits.
pub open spec fn u32_of_text(s: Seq<char>) -> Option<u32> {
    if s.len() > 0 && digits_end(s, 0) == s.len() && digits_value(s) <= u32::MAX {
        Some(digits_value(s) as u32)
    } else {
        None
    }
}

/// A run of digits ends within the text, holds digits only, and cannot be
/// made longer.
pub proof fn lemma_digits_end(s: Seq<char>, from: int)
    requires
        0 <= from <= s.len(),
    ensures
        from <= digits_end(s, from) <= s.len(),
        forall|i: int| from <= i < digits_end(s, from) ==> is_digit(#[trigger] s[i]),
        digits_end(s, from) < s.len() ==> !is_digit(s[digits_end(s, from)]),
    decreases s.len() - from,
{
    if from < s.len() && is_digit(s[from]) {
        lemma_digits_end(s, from + 1);
    }
}

/// A text of digits only is one run of digits.
pub proof fn lemma_digits_only(s: Seq<char>, from: int)
    requires
        0 <= from <= s.len(),
        forall|i: int| from <= i < s.len() ==> is_digit(#[trigger] s[i]),
    ensures
        digits_end(s, from) == s.len(),
    decreases s.len() - from,
{
    if from < s.len() {
        lemma_digits_only(s, from + 1);
    }
}

/// The digits written for a number are digits only, and read back as the
/// number.
pub proof fn lemma_digits_read_back(n: nat)
    ensures
        digits_of(n).len() > 0,
        digits_end(digits_of(n), 0) == digits_of(n).len(),
        digits_value(digits_of(n)) == n,
        n <= u32::MAX ==> u32_of_text(digits_of(n)) == Some(n as u32),
    decreases n,
{
    let s = digits_of(n);
    let last = digit_char(n % 10);
    assert(is_digit(last) && digit_value(last) == n % 10);
    if n < 10 {
        assert(s.drop_last() =~= Seq::<char>::empty());
        assert(digits_value(s.drop_last()) == 0);
        assert(s.last() == last);
        lemma_digits_only(s, 0);
    } else {
        let front = digits_of(n / 10);
        lemma_digits_read_back(n / 10);
        lemma_digits_end(front, 0);
        assert(s.drop_last() =~= front);
        assert(s.last() == last);
        assert forall|i: int| 0 <= i < s.len() implies is_digit(#[trigger] s[i]) by {
            if i < front.len() {
                assert(s[i] == front[i]);
            }
        }
        lemma_digits_only(s, 0);
    }
}

/// A text that holds a character outside ASCII is no numeral.
pub proof fn lemma_numeral_is_ascii(s: Seq<char>)
    requires
        numeral_of(s) is Some,
    ensures
        vstd::utf8::is_ascii_chars(s),
{
    let l = layout_of(s);
    lemma_digits_end(s, l.sign_end);
    if l.has_fraction {
        lemma_digits_end(s, l.whole_end + 1);
    }
    if l.has_exponent {
        lemma_digits_end(s, l.exponent_start);
    }
    assert forall|i: int| 0 <= i < s.len() implies '\0' <= #[trigger] s[i] <= '\u{7f}' by {
        if i < l.sign_end {
            assert(s[i] == '-');
        } else if i < l.whole_end {
            assert(is_digit(s[i]));
        } else if i < l.fraction_end {
            if i == l.whole_end {
                assert(s[i] == '.');
            } else {
                assert(is_digit(s[i]));
            }
        } else if i < l.exponent_start {
            if i == l.fraction_end {
                assert(s[i] == 'e' || s[i] == 'E');
            } else {
                assert(s[i] == '+' || s[i] == '-');
            }
        } else {
            assert(is_digit(s[i]));
        }
    }
}

/// The bytes of the ASCII characters that a numeral is made of.
const ZERO: u8 = 48;

const NINE: u8 = 57;

const MINUS: u8 = 45;

const PLUS: u8 = 43;

const POINT: u8 = 46;

const LOWER_E: u8 = 101;

const UPPER_E: u8 = 69;

/// The largest value that scanning keeps exactly; beyond it, only that the
/// limit was passed is kept.
const SCAN_LIMIT: u128 = 1_000_000_000_000_000_000_000_000_000_000;

/// A number as scanning keeps it: itself up to the limit, nothing beyond.
spec fn limited(v: nat) -> Option<u128> {
    if v <= SCAN_LIMIT {
        Some(v as u128)
    } else {
        None
    }
}

/// Whether `bytes` holds, one for one, the characters of the ASCII text `s`.
spec fn spells(bytes: Seq<u8>, s: Seq<char>) -> bool {
    &&& bytes.len() == s.len()
    &&& forall|i: int| 0 <= i < s.len() ==> (#[trigger] bytes[i]) as u32 == s[i] as u32
}

/// An ASCII character is a digit where its byte is one, and the byte gives
/// the digit's value.
proof fn lemma_byte_digit(c: char, b: u8)
    requires
        b as u32 == c as u32,
    ensures
        is_digit(c) <==> ZERO <= b <= NINE,
        is_digit(c) ==> digit_value(c) == b - ZERO,
{
}

/// Reads the run of digits of `s` that starts at `from`, going on from the
/// value `start` of the digits `seen` before it.
fn scan_digits(
    bytes: &[u8],
    from: usize,
    start: Option<u128>,
    Ghost(s): Ghost<Seq<char>>,
    Ghost(seen): Ghost<Seq<char>>,
) -> (r: (usize, Option<u128>))
    requires
        spells(bytes@, s),
        from <= s.len(),
        start == limited(digits_value(seen)),
    ensures
        r.0 == digits_end(s, from as int),
        from <= r.0 <= s.len(),
        r.1 == limited(digits_value(seen + s.subrange(from as int, r.0 as int))),
{
    let mut i: usize = from;
    let mut acc: Option<u128> = start;
    proof {
        assert(seen + s.subrange(from as int, from as int) =~= seen);
    }
    while i < bytes.len() && ZERO <= bytes[i] && bytes[i] <= NINE
        invariant
            spells(bytes@, s),
            from <= i <= s.len(),
            digits_end(s, from as int) == digits_end(s, i as int),
            acc == limited(digits_value(seen + s.subrange(from as int, i as int))),
        decreases s.len() - i,
    {
        let digit: u128 = (bytes[i] - ZERO) as u128;
        proof {
            let before = seen + s.subrange(from as int, i as int);
            let after = seen + s.subrange(from as int, i + 1);
            assert(after.drop_last() =~= before);
            assert(after.last() == s[i as int]);
            lemma_byte_digit(s[i as int], bytes@[i as int]);
            assert(digit == digit_value(s[i as int]));
            assert(digits_value(after) == 10 * digits_value(before) + digit);
        }
        acc = match acc {
            Some(v) => {
                let w: u128 = v * 10 + digit;
                if w <= SCAN_LIMIT {
                    Some(w)
                } else {
                    None
                }
            },
            None => None,
        };
        i = i + 1;
    }
    proof {
        if i < s.len() {
            lemma_byte_digit(s[i as int], bytes@[i as int]);
        }
    }
    (i, acc)
}

/// A byte of an ASCII text is that of a sign, of the point or of an exponent
/// mark where the character is.
proof fn lemma_byte_mark(c: char, b: u8)
    requires
        b as u32 == c as u32,
    ensures
        (b == MINUS) == (c == '-'),
        (b == PLUS) == (c == '+'),
        (b == POINT) == (c == '.'),
        (b == LOWER_E) == (c == 'e'),
        (b == UPPER_E) == (c == 'E'),
{
}

/// What scanning a numeral finds: its sign, the value of its digits and of
/// its exponent, each as far as scanning keeps it, and the length of the
/// fraction.
struct Scan {
    negative: bool,
    digits: Option<u128>,
    fraction_len: usize,
    exponent_negative: bool,
    power: Option<u128>,
}

impl Scan {
    /// Whether the scan is that of the numeral `n`.
    spec fn is_of(self, n: Numeral) -> bool {
        &&& self.negative == n.negative
        &&& self.digits == limited(digits_value(n.whole + n.fraction))
        &&& self.fraction_len == n.fraction.len()
        &&& self.exponent_negative == n.exponent_negative
        &&& self.power == limited(digits_value(n.exponent))
    }
}

/// Scans the text `s`, given as bytes, as a numeral.
fn scan_numeral(bytes: &[u8], Ghost(s): Ghost<Seq<char>>) -> (r: Option<Scan>)
    requires
        spells(bytes@, s),
    ensures
        match numeral_of(s) {
            Some(n) => r is Some && r.unwrap().is_of(n),
            None => r is None,
        },
{
    let ghost none = Seq::<char>::empty();
    proof {
        assert(digits_value(none) == 0);
    }
    let ghost l = layout_of(s);
    let n: usize = bytes.len();
    let negative: bool = n > 0 && bytes[0] == MINUS;
    let sign_end: usize = if negative {
        1
    } else {
        0
    };
    proof {
        if n > 0 {
            lemma_byte_mark(s[0], bytes@[0]);
        }
        assert(sign_end == l.sign_end);
    }
    let (whole_end, whole) = scan_digits(bytes, sign_end, Some(0), Ghost(s), Ghost(none));
    let ghost whole_digits = s.subrange(sign_end as int, whole_end as int);
    proof {
        assert(none + whole_digits =~= whole_digits);
        assert(whole_digits + none =~= whole_digits);
        assert(whole_end == l.whole_end);
    }
    if whole_end == sign_end {
        return None;
    }
    let has_fraction: bool = whole_end < n && bytes[whole_end] == POINT;
    proof {
        if whole_end < n {
            lemma_byte_mark(s[whole_end as int], bytes@[whole_end as int]);
        }
        assert(has_fraction == l.has_fraction);
    }
    let mut fraction_end: usize = whole_end;
    let mut digits: Option<u128> = whole;
    if has_fraction {
        let (end, value) = scan_digits(bytes, whole_end + 1, whole, Ghost(s), Ghost(whole_digits));
        if end == whole_end + 1 {
            return None;
        }
        fraction_end = end;
        digits = value;
    }
    let fraction_len: usize = if has_fraction {
        fraction_end - (whole_end + 1)
    } else {
        0
    };
    let has_exponent: bool = fraction_end < n && (bytes[fraction_end] == LOWER_E
        || bytes[fraction_end] == UPPER_E);
    let has_exponent_sign: bool = has_exponent && fraction_end + 1 < n && (bytes[fraction_end + 1]
        == PLUS || bytes[fraction_end + 1] == MINUS);
    let exponent_negative: bool = has_exponent_sign && bytes[fraction_end + 1] == MINUS;
    proof {
        assert(fraction_end == l.fraction_end);
        if fraction_end < n {
            lemma_byte_mark(s[fraction_end as int], bytes@[fraction_end as int]);
        }
        if fraction_end + 1 < n {
            lemma_byte_mark(s[fraction_end + 1], bytes@[fraction_end + 1]);
        }
        assert(has_exponent == l.has_exponent);
        assert(has_exponent_sign == l.has_exponent_sign);
    }
    let mut end: usize = fraction_end;
    let mut power: Option<u128> = Some(0);
    if has_exponent {
        let exponent_start: usize = if has_exponent_sign {
            fraction_end + 2
        } else {
            fraction_end + 1
        };
        let (stop, value) = scan_digits(bytes, exponent_start, Some(0), Ghost(s), Ghost(none));
        proof {
            assert(none + s.subrange(exponent_start as int, stop as int) =~= s.subrange(
                exponent_start as int,
                stop as int,
            ));
        }
        if stop == exponent_start {
            return None;
        }
        end = stop;
        power = value;
    }
    proof {
        assert(end == l.end);
    }
    if end != n {
        return None;
    }
    proof {
        let numeral = numeral_of(s).unwrap();
        assert(numeral.whole == whole_digits);
        assert(!has_exponent ==> numeral.exponent =~= none);
    }
    Some(Scan { negative, digits, fraction_len, exponent_negative, power })
}

/// The decimal `digits * 10^shift`, negated where `negative` says so, if
/// there is one; the shift is the exponent `power`, negated where
/// `exponent_negative` says so, less `fraction_len`.
fn assemble_decimal(scan: Scan, Ghost(digits): Ghost<nat>, Ghost(power): Ghost<nat>) -> (r: Option<
    Decimal,
>)
    requires
        scan.digits == limited(digits),
        scan.power == limited(power),
    ensures
        match assemble(
            scan.negative,
            digits,
            (if scan.exponent_negative {
                -(power as int)
            } else {
                power as int
            }) - scan.fraction_len,
        ) {
            Some(d) => r is Some && r.unwrap()@ == d,
            None => r is None,
        },
{
    let shift: i128 = match scan.power {
        Some(p) => if scan.exponent_negative {
            -(p as i128) - (scan.fraction_len as i128)
        } else {
            (p as i128) - (scan.fraction_len as i128)
        },
        None => {
            return None;
        },
    };
    if shift < -(MAX_PLACES as i128) || shift > MAX_PLACES as i128 {
        return None;
    }
    proof {
        if shift > 0 {
            lemma_pow10_grows(0, shift as nat);
            assert(digits * pow10(shift as nat) >= digits) by (nonlinear_arith)
                requires
                    pow10(shift as nat) >= 1,
            ;
        }
    }
    let count: u128 = match scan.digits {
        Some(v) => v,
        None => {
            return None;
        },
    };
    if count > i64::MAX as u128 {
        return None;
    }
    let scale: u128 = if shift > 0 {
        power_of_ten(shift as u8) as u128
    } else {
        1
    };
    assert(count * scale <= 0x7fff_ffff_ffff_ffff * 1_000_000_000_000_000_000) by (nonlinear_arith)
        requires
            count <= 0x7fff_ffff_ffff_ffff,
            scale <= 1_000_000_000_000_000_000,
    ;
    let size: u128 = count * scale;
    if size > i64::MAX as u128 {
        return None;
    }
    let units: i64 = if scan.negative {
        -(size as i64)
    } else {
        size as i64
    };
    let places: u8 = if shift < 0 {
        (-shift) as u8
    } else {
        0
    };
    Decimal::new(units, places)
}

/// Reads a decimal numeral: an optional minus sign, digits, an optional
/// fraction and an optional exponent, as in `-12.5` or `1.25e+01`.
///
/// The result is the decimal that the text denotes; there is none where the
/// text is no such numeral or the number is outside the limits of
/// [`assemble`].
pub fn parse_decimal(text: &str) -> (r: Option<Decimal>)
    ensures
        match decimal_of_text(text@) {
            Some(d) => r is Some && r.unwrap()@ == d,
            None => r is None,
        },
{
    if !text.is_ascii() {
        proof {
            if numeral_of(text@) is Some {
                lemma_numeral_is_ascii(text@);
            }
        }
        return None;
    }
    let bytes = text.as_bytes();
    proof {
        vstd::utf8::is_ascii_chars_encode_utf8(text@);
        assert(spells(bytes@, text@));
    }
    match scan_numeral(bytes, Ghost(text@)) {
        Some(scan) => {
            let ghost n = numeral_of(text@).unwrap();
            assemble_decimal(
                scan,
                Ghost(digits_value(n.whole + n.fraction)),
                Ghost(digits_value(n.exponent)),
            )
        },
        None => None,
    }
}

/// Reads an unsigned number written as digits and nothing else.
///
/// The result is the number; there is none where the text is empty, holds
/// anything but digits, or the number does not fit in 32 bits.
pub fn parse_u32(text: &str) -> (r: Option<u32>)
    ensures
        r == u32_of_text(text@),
{
    if !text.is_ascii() {
        proof {
            let s = text@;
            lemma_digits_end(s, 0);
            if digits_end(s, 0) == s.len() {
                assert forall|i: int| 0 <= i < s.len() implies '\0' <= #[trigger] s[i]
                    <= '\u{7f}' by {
                    assert(is_digit(s[i]));
                }
            }
        }
        return None;
    }
    let bytes = text.as_bytes();
    let ghost s = text@;
    let ghost none = Seq::<char>::empty();
    proof {
        vstd::utf8::is_ascii_chars_encode_utf8(s);
        assert(spells(bytes@, s));
        assert(digits_value(none) == 0);
    }
    let (end, value) = scan_digits(bytes, 0, Some(0), Ghost(s), Ghost(none));
    proof {
        assert(none + s.subrange(0, end as int) =~= s.subrange(0, end as int));
        if end == s.len() {
            assert(s.subrange(0, end as int) =~= s);
        }
    }
    if end == 0 || end != bytes.len() {
        return None;
    }
    match value {
        Some(v) => if v <= u32::MAX as u128 {
            Some(v as u32)
        } else {
            None
        },
        None => None,
    }
}

/// The text of one digit.
fn digit_text(d: u8) -> (r: &'static str)
    requires
        d < 10,
    ensures
        r@ == seq![digit_char(d as nat)],
{
    let r = match d {
        0 => "0",
        1 => "1",
        2 => "2",
        3 => "3",
        4 => "4",
        5 => "5",
        6 => "6",
        7 => "7",
        8 => "8",
        _ => "9",
    };
    proof {
        reveal_strlit("0");
        reveal_strlit("1");
        reveal_strlit("2");
        reveal_strlit("3");
        reveal_strlit("4");
        reveal_strlit("5");
        reveal_strlit("6");
        reveal_strlit("7");
        reveal_strlit("8");
        reveal_strlit("9");
        assert(r@ =~= seq![digit_char(d as nat)]);
    }
    r
}

/// Appends the base-ten digits of `n` to `out`.
pub fn push_digits(out: &mut String, n: u128)
    ensures
        final(out)@ == old(out)@ + digits_of(n as nat),
    decreases n,
{
    if n >= 10 {
        push_digits(out, n / 10);
    }
    out.append(digit_text((n % 10) as u8));
    proof {
        if n >= 10 {
            assert(final(out)@ =~= old(out)@ + digits_of(n as nat));
        } else {
            assert(final(out)@ =~= old(out)@ + digits_of(n as nat));
        }
    }
}

/// Appends a number of tenths to `out`, written with one digit after the
/// point.
pub fn push_tenths(out: &mut String, t: i128)
    ensures
        final(out)@ == old(out)@ + tenths_text(t as int),
{
    let size: u128 = if t < 0 {
        out.append("-");
        (-(t + 1)) as u128 + 1
    } else {
        t as u128
    };
    push_digits(out, size / 10);
    out.append(".");
    out.append(digit_text((size % 10) as u8));
    proof {
        reveal_strlit("-");
        reveal_strlit(".");
        assert(final(out)@ =~= old(out)@ + tenths_text(t as int));
    }
}

} // verus!
