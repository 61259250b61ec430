//! Amounts as decimal text. A decimal is read exactly as it is written:
//! its digits are the units and the digits after the point are the places.
//! Nothing is ever rounded.

use vstd::prelude::*;
use vstd::string::{StrSliceExecFns, StringExecFns};
use crate::decimal::{fits, Decimal};
use crate::text::{decimal_digits, decimal_text, digit_char};

verus! {

/// The magnitude of the least number of units.
const LEAST_MAGNITUDE: u128 = 170_141_183_460_469_231_731_687_303_715_884_105_728;

/// A tenth of it, rounded down.
const TENTH_OF_LEAST: u128 = 17_014_118_346_046_923_173_168_730_371_588_410_572;

/// The value of a decimal digit, if `c` is one.
pub open spec fn digit_of(c: char) -> Option<int> {
    if c == '0' {
        Some(0int)
    } else if c == '1' {
        Some(1int)
    } else if c == '2' {
        Some(2int)
    } else if c == '3' {
        Some(3int)
    } else if c == '4' {
        Some(4int)
    } else if c == '5' {
        Some(5int)
    } else if c == '6' {
        Some(6int)
    } else if c == '7' {
        Some(7int)
    } else if c == '8' {
        Some(8int)
    } else if c == '9' {
        Some(9int)
    } else {
        None
    }
}

pub open spec fn is_digit(c: char) -> bool {
    digit_of(c) is Some
}

/// The value of a digit; zero for any other character.
pub open spec fn digit_value(c: char) -> int {
    match digit_of(c) {
        Some(d) => d,
        None => 0,
    }
}

pub open spec fn all_digits(s: Seq<char>) -> bool {
    forall|i: int| 0 <= i < s.len() ==> is_digit(#[trigger] s[i])
}

pub open spec fn all_zeros(s: Seq<char>) -> bool {
    forall|i: int| 0 <= i < s.len() ==> #[trigger] s[i] == '0'
}

/// The number that a string of digits writes.
pub open spec fn numeral(s: Seq<char>) -> int
    decreases s.len(),
{
    if s.len() == 0 {
        0
    } else {
        numeral(s.drop_last()) * 10 + digit_value(s.last())
    }
}

/// The number of digits that `s` starts with.
pub open spec fn leading_digits(s: Seq<char>) -> int
    decreases s.len(),
{
    if s.len() > 0 && is_digit(s[0]) {
        1 + leading_digits(s.skip(1))
    } else {
        0
    }
}

/// The unsigned decimal that `body` writes, as its units and its places:
/// one or more digits, and optionally a point followed by digits. The units
/// are all the digits read as one number; the places are as many as there
/// are digits after the point.
pub open spec fn written_magnitude(body: Seq<char>) -> Option<(int, nat)> {
    let p = leading_digits(body);
    if p == 0 {
        None
    } else if p == body.len() {
        Some((numeral(body.take(p)), 0nat))
    } else if body[p] == '.' && all_digits(body.skip(p + 1)) {
        Some((numeral(body.take(p) + body.skip(p + 1)), body.skip(p + 1).len()))
    } else {
        None
    }
}

/// The decimal that a text writes, as its units and its places: an
/// optional minus sign and an unsigned decimal. Any other text writes none.
pub open spec fn decimal_amount(text: Seq<char>) -> Option<(int, nat)> {
    let negative = text.len() > 0 && text[0] == '-';
    let body = if negative {
        text.skip(1)
    } else {
        text
    };
    match written_magnitude(body) {
        Some(m) => Some(
            (
                if negative {
                    -m.0
                } else {
                    m.0
                },
                m.1,
            ),
        ),
        None => None,
    }
}

/// The decimal as the ledger holds it, if its units and its places can be
/// held.
pub open spec fn representable(written: Option<(int, nat)>) -> Option<Decimal> {
    match written {
        Some(w) => if fits(w.0) && w.1 <= 255 {
            Some(Decimal { units: w.0 as i128, places: w.1 as u8 })
        } else {
            None
        },
        None => None,
    }
}

/// `n` zeros.
pub open spec fn zeros(n: nat) -> Seq<char> {
    Seq::new(n, |i: int| '0')
}

/// The digits of `magnitude`, with zeros in front until there is at least
/// one digit more than `places`.
pub open spec fn padded_digits(magnitude: nat, places: nat) -> Seq<char> {
    let digits = decimal_digits(magnitude);
    if digits.len() > places {
        digits
    } else {
        zeros((places + 1 - digits.len()) as nat) + digits
    }
}

/// The digits `padded` with a point before the last `places` of them, of
/// which there are fewer than there are digits; no point for no places.
pub open spec fn pointed(padded: Seq<char>, places: nat) -> Seq<char> {
    let cut = padded.len() - places;
    if places == 0 {
        padded
    } else {
        padded.take(cut) + seq!['.'] + padded.skip(cut)
    }
}

/// The decimal text of an amount: a minus sign where it is negative, the
/// digits of its units, and a point before the last `places` of them.
pub open spec fn amount_decimal(d: Decimal) -> Seq<char> {
    let magnitude = if d.units < 0 {
        (-d.units) as nat
    } else {
        d.units as nat
    };
    let sign = if d.units < 0 {
        seq!['-']
    } else {
        Seq::<char>::empty()
    };
    sign + pointed(padded_digits(magnitude, d.places as nat), d.places as nat)
}

proof fn lemma_leading_digits(s: Seq<char>, j: int)
    requires
        0 <= j <= s.len(),
        forall|k: int| 0 <= k < j ==> is_digit(#[trigger] s[k]),
    ensures
        leading_digits(s) >= j,
        j == s.len() || !is_digit(s[j]) ==> leading_digits(s) == j,
        leading_digits(s) <= s.len(),
    decreases s.len(),
{
    if s.len() > 0 && is_digit(s[0]) {
        let t = s.skip(1);
        if j > 0 {
            assert forall|k: int| 0 <= k < j - 1 implies is_digit(#[trigger] t[k]) by {
                assert(t[k] == s[k + 1]);
            }
            if j < s.len() {
                assert(t[j - 1] == s[j]);
            }
            lemma_leading_digits(t, j - 1);
        } else {
            lemma_leading_digits(t, 0);
        }
    }
}

proof fn lemma_leading_digits_end(s: Seq<char>)
    ensures
        0 <= leading_digits(s) <= s.len(),
        forall|k: int| 0 <= k < leading_digits(s) ==> is_digit(#[trigger] s[k]),
        leading_digits(s) < s.len() ==> !is_digit(s[leading_digits(s)]),
    decreases s.len(),
{
    if s.len() > 0 && is_digit(s[0]) {
        let t = s.skip(1);
        lemma_leading_digits_end(t);
        assert forall|k: int| 0 <= k < leading_digits(s) implies is_digit(#[trigger] s[k]) by {
            if k > 0 {
                assert(s[k] == t[k - 1]);
            }
        }
        if leading_digits(s) < s.len() {
            assert(s[leading_digits(s)] == t[leading_digits(t)]);
        }
    }
}

proof fn lemma_numeral_prefix(s: Seq<char>, j: int)
    requires
        0 <= j <= s.len(),
    ensures
        0 <= numeral(s.take(j)) <= numeral(s),
    decreases s.len() - j,
{
    lemma_numeral_nonnegative(s.take(j));
    if j < s.len() {
        lemma_numeral_prefix(s, j + 1);
        assert(s.take(j + 1).drop_last() =~= s.take(j));
    } else {
        assert(s.take(j) =~= s);
    }
}

proof fn lemma_numeral_nonnegative(s: Seq<char>)
    ensures
        numeral(s) >= 0,
    decreases s.len(),
{
    if s.len() > 0 {
        lemma_numeral_nonnegative(s.drop_last());
    }
}

/// The character of a digit has that digit's value.
proof fn lemma_digit_char(d: int)
    requires
        0 <= d < 10,
    ensures
        digit_of(digit_char(d)) == Some(d),
{
    if d == 0 {
    } else if d == 1 {
    } else if d == 2 {
    } else if d == 3 {
    } else if d == 4 {
    } else if d == 5 {
    } else if d == 6 {
    } else if d == 7 {
    } else if d == 8 {
    } else {
    }
}

/// The numeral of a number is made of digits and writes that number.
proof fn lemma_numeral_of_digits(n: nat)
    ensures
        decimal_digits(n).len() > 0,
        all_digits(decimal_digits(n)),
        numeral(decimal_digits(n)) == n,
    decreases n,
{
    let d = if n < 10 {
        n as int
    } else {
        (n % 10) as int
    };
    lemma_digit_char(d);
    if n < 10 {
        assert(decimal_digits(n).drop_last() =~= Seq::<char>::empty());
        assert(numeral(decimal_digits(n).drop_last()) == 0);
    } else {
        lemma_numeral_of_digits(n / 10);
        assert(decimal_digits(n).drop_last() =~= decimal_digits(n / 10));
    }
}

/// Zeros in front of digits change nothing of the number they write.
proof fn lemma_zeros_in_front(k: nat, s: Seq<char>)
    ensures
        numeral(zeros(k) + s) == numeral(s),
    decreases s.len(), k,
{
    let all = zeros(k) + s;
    if s.len() > 0 {
        assert(all.drop_last() =~= zeros(k) + s.drop_last());
        assert(all.last() == s.last());
        lemma_zeros_in_front(k, s.drop_last());
    } else if k > 0 {
        assert(all.drop_last() =~= zeros((k - 1) as nat) + s);
        assert(all.last() == '0');
        lemma_zeros_in_front((k - 1) as nat, s);
    } else {
        assert(all =~= s);
    }
}

/// The padded digits of a number are digits, more of them than the places,
/// and write the number.
proof fn lemma_padded_digits(magnitude: nat, places: nat)
    ensures
        padded_digits(magnitude, places).len() > places,
        all_digits(padded_digits(magnitude, places)),
        numeral(padded_digits(magnitude, places)) == magnitude,
{
    let digits = decimal_digits(magnitude);
    let padded = padded_digits(magnitude, places);
    lemma_numeral_of_digits(magnitude);
    if digits.len() <= places {
        let pad = (places + 1 - digits.len()) as nat;
        lemma_zeros_in_front(pad, digits);
        assert forall|k: int| 0 <= k < padded.len() implies is_digit(#[trigger] padded[k]) by {
            if k >= pad {
                assert(padded[k] == digits[k - pad]);
            }
        }
    }
}

/// Digits with a point among them are read as the number that the digits
/// write, with the places that follow the point.
proof fn lemma_pointed_is_read(padded: Seq<char>, places: nat)
    requires
        padded.len() > places,
        all_digits(padded),
    ensures
        written_magnitude(pointed(padded, places)) == Some((numeral(padded), places)),
        is_digit(pointed(padded, places)[0]),
{
    let cut = padded.len() - places;
    let body = pointed(padded, places);
    assert(is_digit(padded[0]));
    assert(body[0] == padded[0]);
    assert forall|k: int| 0 <= k < cut implies is_digit(#[trigger] body[k]) by {
        assert(body[k] == padded[k]);
    }
    if places == 0 {
        lemma_leading_digits(body, cut);
        assert(body.take(cut) =~= padded);
    } else {
        assert(body[cut] == '.');
        lemma_leading_digits(body, cut);
        assert(body.take(cut) =~= padded.take(cut));
        assert(body.skip(cut + 1) =~= padded.skip(cut));
        assert(body.take(cut) + body.skip(cut + 1) =~= padded);
        assert forall|k: int| 0 <= k < padded.skip(cut).len() implies is_digit(
            #[trigger] padded.skip(cut)[k],
        ) by {
            assert(padded.skip(cut)[k] == padded[k + cut]);
        }
    }
}

/// The decimal text of an amount is read back as that amount, units and
/// places: writing loses nothing and reading adds nothing.
pub proof fn lemma_written_amount_is_read_back(amount: Decimal)
    ensures
        representable(decimal_amount(amount_decimal(amount))) == Some(amount),
{
    let magnitude = if amount.units < 0 {
        (-amount.units) as nat
    } else {
        amount.units as nat
    };
    let padded = padded_digits(magnitude, amount.places as nat);
    let body = pointed(padded, amount.places as nat);
    let text = amount_decimal(amount);
    lemma_padded_digits(magnitude, amount.places as nat);
    lemma_pointed_is_read(padded, amount.places as nat);
    if amount.units < 0 {
        assert(text =~= seq!['-'] + body);
        assert(text[0] == '-');
        assert(text.skip(1) =~= body);
    } else {
        assert(text =~= body);
        assert(text[0] != '-');
    }
}

/// Reads a decimal digit.
fn read_digit(c: char) -> (d: Option<u128>)
    ensures
        match d {
            Some(v) => digit_of(c) == Some(v as int),
            None => digit_of(c) is None,
        },
{
    if c == '0' {
        Some(0)
    } else if c == '1' {
        Some(1)
    } else if c == '2' {
        Some(2)
    } else if c == '3' {
        Some(3)
    } else if c == '4' {
        Some(4)
    } else if c == '5' {
        Some(5)
    } else if c == '6' {
        Some(6)
    } else if c == '7' {
        Some(7)
    } else if c == '8' {
        Some(8)
    } else if c == '9' {
        Some(9)
    } else {
        None
    }
}

/// Reads the digits that `text` holds from position `start` on, up to the
/// first character that is none, as a continuation of the digits `before`
/// that wrote `so_far`. Answers where they end and the number that all the
/// digits write, or `None` where that number is beyond what can be held.
fn read_digits(text: &str, start: usize, n: usize, so_far: u128, before: Ghost<Seq<char>>) -> (r:
    Option<(usize, u128)>)
    requires
        n == text@.len(),
        start <= n,
        so_far == numeral(before@),
        so_far <= LEAST_MAGNITUDE,
    ensures
        ({
            let run = text@.skip(start as int);
            let p = leading_digits(run);
            &&& 0 <= p <= run.len()
            &&& forall|k: int| 0 <= k < p ==> is_digit(#[trigger] run[k])
            &&& p < run.len() ==> !is_digit(run[p])
            &&& match r {
                Some(found) => found.0 == start + p && found.1 == numeral(before@ + run.take(p))
                    && found.1 <= LEAST_MAGNITUDE,
                None => numeral(before@ + run.take(p)) > LEAST_MAGNITUDE,
            }
        }),
{
    let ghost run = text@.skip(start as int);
    let mut i: usize = start;
    let mut total: u128 = so_far;
    let mut stopped = false;
    proof {
        assert(before@ + run.take(0) =~= before@);
        lemma_leading_digits_end(run);
    }
    while i < n && !stopped
        invariant
            start <= i <= n,
            n == text@.len(),
            run == text@.skip(start as int),
            forall|k: int| 0 <= k < i - start ==> is_digit(#[trigger] run[k]),
            total == numeral(before@ + run.take(i - start)),
            total <= LEAST_MAGNITUDE,
            stopped ==> i < n && !is_digit(run[i - start]),
            0 <= leading_digits(run) <= run.len(),
            forall|k: int| 0 <= k < leading_digits(run) ==> is_digit(#[trigger] run[k]),
            leading_digits(run) < run.len() ==> !is_digit(run[leading_digits(run)]),
        decreases n - i + if stopped { 0int } else { 1int },
    {
        let c = text.get_char(i);
        assert(run[i - start] == c);
        match read_digit(c) {
            Some(d) => {
                proof {
                    let j = i - start;
                    let longer = before@ + run.take(j + 1);
                    assert(longer.drop_last() =~= before@ + run.take(j));
                    assert(longer.last() == c);
                    lemma_leading_digits(run, j + 1);
                    let p = leading_digits(run);
                    let all = before@ + run.take(p);
                    lemma_numeral_prefix(all, before@.len() + j + 1);
                    assert(all.take(before@.len() + j + 1) =~= longer);
                }
                if total > TENTH_OF_LEAST {
                    return None;
                }
                let next = total * 10 + d;
                if next > LEAST_MAGNITUDE {
                    return None;
                }
                total = next;
                i += 1;
            },
            None => {
                stopped = true;
            },
        }
    }
    proof {
        lemma_leading_digits(run, i - start);
    }
    Some((i, total))
}

/// Reads the unsigned decimal that `text` holds from position `start` on.
/// Answers its units and its places, or `None` where there is no decimal
/// or its units are beyond what can be held.
fn read_magnitude(text: &str, start: usize, n: usize) -> (r: Option<(u128, usize)>)
    requires
        n == text@.len(),
        start <= n,
    ensures
        match written_magnitude(text@.skip(start as int)) {
            Some(m) => if m.0 <= LEAST_MAGNITUDE {
                r matches Some(found) && found.0 == m.0 && found.1 == m.1
            } else {
                r is None
            },
            None => r is None,
        },
{
    let ghost body = text@.skip(start as int);
    let ghost p = leading_digits(body);
    proof {
        assert(Seq::<char>::empty() + body.take(p) =~= body.take(p));
        lemma_leading_digits_end(body);
    }
    let (end, whole) = match read_digits(text, start, n, 0, Ghost(Seq::empty())) {
        Some(found) => found,
        None => {
            proof {
                if p < body.len() {
                    lemma_numeral_prefix(body.take(p) + body.skip(p + 1), p);
                    assert((body.take(p) + body.skip(p + 1)).take(p) =~= body.take(p));
                }
            }
            return None;
        },
    };
    if end == start {
        return None;
    }
    if end == n {
        return Some((whole, 0));
    }
    assert(body[p] == text@[end as int]);
    assert(body.skip(p + 1) =~= text@.skip(end + 1));
    if text.get_char(end) != '.' {
        return None;
    }
    let ghost fraction = text@.skip(end + 1);
    match read_digits(text, end + 1, n, whole, Ghost(body.take(p))) {
        Some(found) => {
            if found.0 < n {
                assert(!is_digit(fraction[found.0 - end - 1]));
                return None;
            }
            assert(fraction.take(fraction.len() as int) =~= fraction);
            Some((found.1, n - end - 1))
        },
        None => {
            proof {
                let q = leading_digits(fraction);
                if q == fraction.len() {
                    assert(fraction.take(q) =~= fraction);
                }
            }
            None
        },
    }
}

/// Reads an amount from decimal text, exactly as it is written. `None`
/// where the text is no decimal, or has more units or places than can be
/// held.
pub fn amount_from_decimal(text: &str) -> (r: Option<Decimal>)
    ensures
        r == representable(decimal_amount(text@)),
{
    let n = text.unicode_len();
    let negative = n > 0 && text.get_char(0) == '-';
    let start: usize = if negative {
        1
    } else {
        0
    };
    proof {
        assert(text@.skip(0) =~= text@);
    }
    let (total, places) = match read_magnitude(text, start, n) {
        Some(found) => found,
        None => {
            return None;
        },
    };
    if places > 255 {
        return None;
    }
    if negative {
        if total == LEAST_MAGNITUDE {
            Some(Decimal { units: i128::MIN, places: places as u8 })
        } else {
            Some(Decimal { units: -(total as i128), places: places as u8 })
        }
    } else if total == LEAST_MAGNITUDE {
        None
    } else {
        Some(Decimal { units: total as i128, places: places as u8 })
    }
}

/// Writes an amount as decimal text, with as many places as it has.
pub fn decimal_from_amount(amount: Decimal) -> (text: String)
    ensures
        text@ == amount_decimal(amount),
{
    let magnitude: u128 = if amount.units == i128::MIN {
        LEAST_MAGNITUDE
    } else if amount.units < 0 {
        (-amount.units) as u128
    } else {
        amount.units as u128
    };
    let digits = decimal_text(magnitude);
    let count = digits.as_str().unicode_len();
    let places = amount.places as usize;
    let mut padded = String::new();
    let mut length: usize = count;
    if count <= places {
        let mut added: usize = 0;
        while added < places + 1 - count
            invariant
                count <= places <= 255,
                added <= places + 1 - count,
                padded@ == zeros(added as nat),
            decreases places + 1 - count - added,
        {
            proof {
                reveal_strlit("0");
            }
            padded.append("0");
            added += 1;
            assert(padded@ =~= zeros(added as nat));
        }
        length = places + 1;
    } else {
        assert(padded@ =~= Seq::<char>::empty());
    }
    padded.append(digits.as_str());
    assert(padded@ =~= padded_digits(magnitude as nat, places as nat));
    let mut text = String::new();
    if amount.units < 0 {
        proof {
            reveal_strlit("-");
        }
        text.append("-");
    }
    if places == 0 {
        text.append(padded.as_str());
        assert(text@ =~= amount_decimal(amount));
    } else {
        let cut = length - places;
        proof {
            reveal_strlit(".");
            assert(padded@.subrange(0, cut as int) =~= padded@.take(cut as int));
            assert(padded@.subrange(cut as int, length as int) =~= padded@.skip(cut as int));
        }
        text.append(padded.as_str().substring_char(0, cut));
        text.append(".");
        text.append(padded.as_str().substring_char(cut, length));
        assert(text@ =~= amount_decimal(amount));
    }
    text
}

} // verus!
