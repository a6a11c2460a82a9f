//! What holds of numerals, columns, shapes and big-endian numbers, place by place.
use crate::be::{be_bytes, be_bytes_len, be_value};
use crate::shape::{comma_parts, comma_parts_append, comma_parts_single, is_shape, shape_dims, shape_text};
use crate::text::{all_digits, digits, digits_spell, digits_value, flush_left, flush_right, is_digit, numeral, unsigned_part};
use vstd::arithmetic::div_mod::lemma_div_denominator;
use vstd::arithmetic::power::{lemma_pow0, lemma_pow_positive, pow};
use vstd::prelude::*;

verus! {

/// One more decimal place is one more digit at the end: the numeral of `10 * n + d` is that of
/// `n`, then the digit `d`. Numbers below ten are one digit, so no numeral has a leading zero.
pub proof fn a_place_is_a_digit(n: nat, d: nat)
    requires
        d < 10,
    ensures
        digits(d) == seq![(48 + d) as char],
        n > 0 ==> digits(10 * n + d) == digits(n).push((48 + d) as char),
        n > 0 ==> digits(n)[0] != '0',
    decreases n,
{
    if n >= 10 {
        a_place_is_a_digit(n / 10, n % 10);
        digits_spell(n / 10);
    }
}

/// A text that is set flush left in a column stands at its beginning, blanks fill the rest, and
/// the whole is as wide as the column or, if that is wider, as the text.
pub proof fn flush_left_fills_behind(s: Seq<char>, width: int)
    ensures
        ({
            let set = flush_left(s, width);
            &&& set.len() == if width > s.len() {
                width
            } else {
                s.len() as int
            }
            &&& set.take(s.len() as int) == s
            &&& forall|i: int| s.len() <= i < set.len() ==> #[trigger] set[i] == ' '
        }),
{
    assert(flush_left(s, width).take(s.len() as int) =~= s);
}

/// A text that is set flush right in a column stands at its end, blanks fill the rest, and the
/// whole is as wide as the column or, if that is wider, as the text.
pub proof fn flush_right_fills_before(s: Seq<char>, width: int)
    ensures
        ({
            let set = flush_right(s, width);
            &&& set.len() == if width > s.len() {
                width
            } else {
                s.len() as int
            }
            &&& set.skip(set.len() - s.len()) == s
            &&& forall|i: int| 0 <= i < set.len() - s.len() ==> #[trigger] set[i] == ' '
        }),
{
    let set = flush_right(s, width);
    assert(set.skip(set.len() - s.len()) =~= s);
}

/// A numeral is read place by place: one digit is its own value, and a digit behind a numeral
/// makes ten times its value and that digit, as long as that fits 32 bits. What does not fit
/// stays unread whatever digits follow.
#[verifier::rlimit(40)]
pub proof fn numeral_by_place(s: Seq<char>, c: char)
    requires
        48 <= c as int <= 57,
        forall|i: int| 0 <= i < s.len() ==> 48 <= (#[trigger] s[i]) as int <= 57,
    ensures
        numeral(seq![c]) == Some((c as int - 48) as u32),
        s.len() > 0 ==> numeral(s.push(c)) == match numeral(s) {
            Some(v) => if v * 10 + (c as int - 48) <= u32::MAX {
                Some((v * 10 + (c as int - 48)) as u32)
            } else {
                None
            },
            None => None,
        },
{
    let one = seq![c];
    assert(all_digits(one));
    assert(one.drop_last() =~= Seq::<char>::empty());
    reveal_with_fuel(digits_value, 2);
    assert(unsigned_part(one) == one);
    assert(s.push(c).drop_last() =~= s);
    assert(all_digits(s) && all_digits(s.push(c)));
    if s.len() > 0 {
        assert(s.push(c)[0] == s[0]);
        assert(unsigned_part(s) == s && unsigned_part(s.push(c)) == s.push(c));
    }
}

/// One plus sign may stand before the digits and changes nothing. Nothing, a plus sign alone,
/// and texts with anything but digits behind it are no numerals.
pub proof fn numeral_takes_digits_only(s: Seq<char>, i: int)
    ensures
        numeral(Seq::<char>::empty()) is None,
        numeral(seq!['+']) is None,
        s.len() > 0 && s[0] != '+' ==> numeral(seq!['+'] + s) == numeral(s),
        0 <= i < s.len() && !(48 <= s[i] as int <= 57) && (i > 0 || s[0] != '+') ==> numeral(
            s,
        ) is None,
{
    let signed = seq!['+'] + s;
    assert(signed.skip(1) =~= s);
    assert(seq!['+'].skip(1) =~= Seq::<char>::empty());
    if 0 <= i < s.len() && !(48 <= s[i] as int <= 57) && (i > 0 || s[0] != '+') {
        let body = unsigned_part(s);
        let at = if s[0] == '+' {
            i - 1
        } else {
            i
        };
        assert(body[at] == s[i]);
        assert(!is_digit(body[at]));
    }
}

/// The text of dimensions is their numerals with a comma between each two.
pub proof fn shape_text_by_dimension(dims: Seq<u32>, d: u32)
    ensures
        shape_text(Seq::empty()) == Seq::<char>::empty(),
        shape_text(seq![d]) == digits(d as nat),
        dims.len() > 0 ==> shape_text(dims.push(d)) == shape_text(dims).push(',') + digits(
            d as nat,
        ),
{
    assert(dims.push(d).drop_last() =~= dims);
}

/// A text is read as dimensions part by part: a part without commas is one dimension if it is a
/// numeral, and behind a comma one more.
pub proof fn shape_by_part(s: Seq<char>, part: Seq<char>)
    requires
        forall|i: int| 0 <= i < part.len() ==> #[trigger] part[i] != ',',
    ensures
        is_shape(part) <==> numeral(part) is Some,
        is_shape(part) ==> shape_dims(part) == seq![numeral(part)->0],
        is_shape(s.push(',') + part) <==> is_shape(s) && numeral(part) is Some,
        is_shape(s.push(',') + part) ==> shape_dims(s.push(',') + part) == shape_dims(s).push(
            numeral(part)->0,
        ),
{
    comma_parts_single(part);
    comma_parts_append(s, part);
    let whole = s.push(',') + part;
    let before = comma_parts(s);
    let parts = comma_parts(whole);
    assert(comma_parts(part)[0] == part);
    assert(parts[before.len() as int] == part);
    assert(forall|i: int| 0 <= i < before.len() ==> parts[i] == #[trigger] before[i]);
    if is_shape(part) {
        assert(shape_dims(part) =~= seq![numeral(part)->0]);
    }
    if is_shape(whole) {
        assert forall|i: int| 0 <= i < before.len() implies numeral(#[trigger] before[i]) is Some by {
            assert(numeral(parts[i]) is Some);
        }
    }
    if is_shape(whole) {
        assert(shape_dims(whole) =~= shape_dims(s).push(numeral(part)->0));
    }
}

/// The bytes of a number stand for its places to the base 256, the highest first.
pub proof fn bytes_stand_by_place(v: nat, n: nat, i: int)
    requires
        0 <= i < n,
    ensures
        be_bytes(v, n).len() == n,
        be_bytes(v, n)[i] == (v as int / pow(256, (n - 1 - i) as nat)) % 256,
    decreases n,
{
    be_bytes_len(v, n);
    be_bytes_len(v / 256, (n - 1) as nat);
    if i == n - 1 {
        lemma_pow0(256);
    } else {
        bytes_stand_by_place(v / 256, (n - 1) as nat, i);
        let e = (n - 2 - i) as nat;
        reveal(pow);
        lemma_pow_positive(256, e);
        lemma_div_denominator(v as int, 256, pow(256, e));
        assert(pow(256, (e + 1) as nat) == 256 * pow(256, e));
    }
}

/// One more byte at the end makes 256 times the number and that byte.
pub proof fn a_byte_is_a_place(s: Seq<u8>, b: u8)
    ensures
        be_value(Seq::empty()) == 0,
        be_value(s.push(b)) == be_value(s) * 256 + b,
{
    assert(s.push(b).drop_last() =~= s);
}

} // verus!
