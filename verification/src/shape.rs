//! Tensor shapes: the dimensions, and their text `d0,d1,...` as HTTP headers carry it.
use crate::text::{chars_of, digits, digits_spell, is_digit, numeral, numeral_of_digits, parse_numeral, push_decimal};
use vstd::prelude::*;

verus! {

/// The parts of `s` between its commas. There is one part more than there are commas, so
/// the empty text has one part, which is empty.
pub open spec fn comma_parts(s: Seq<char>) -> Seq<Seq<char>>
    decreases s.len(),
{
    if s.len() == 0 {
        seq![Seq::empty()]
    } else {
        let parts = comma_parts(s.drop_last());
        if s.last() == ',' {
            parts.push(Seq::empty())
        } else {
            parts.drop_last().push(parts.last().push(s.last()))
        }
    }
}

/// Whether `s` is a list of numerals with a comma between each two.
pub open spec fn is_shape(s: Seq<char>) -> bool {
    forall|i: int| 0 <= i < comma_parts(s).len() ==> numeral(#[trigger] comma_parts(s)[i]) is Some
}

/// The dimensions that the text of a shape lists.
pub open spec fn shape_dims(s: Seq<char>) -> Seq<u32>
    recommends
        is_shape(s),
{
    comma_parts(s).map_values(|part: Seq<char>| numeral(part)->0)
}

/// The text of a shape: the numerals of its dimensions, with a comma between each two.
pub open spec fn shape_text(dims: Seq<u32>) -> Seq<char>
    decreases dims.len(),
{
    if dims.len() == 0 {
        Seq::empty()
    } else if dims.len() == 1 {
        digits(dims[0] as nat)
    } else {
        shape_text(dims.drop_last()).push(',') + digits(dims.last() as nat)
    }
}

/// A text has at least one part.
pub proof fn comma_parts_not_empty(s: Seq<char>)
    ensures
        comma_parts(s).len() > 0,
    decreases s.len(),
{
    if s.len() > 0 {
        comma_parts_not_empty(s.drop_last());
    }
}

/// A part without commas, appended behind a comma, is the new last part.
pub(crate) proof fn comma_parts_append(s: Seq<char>, part: Seq<char>)
    requires
        forall|i: int| 0 <= i < part.len() ==> #[trigger] part[i] != ',',
    ensures
        comma_parts(s.push(',') + part) == comma_parts(s).push(part),
    decreases part.len(),
{
    let t = s.push(',') + part;
    if part.len() == 0 {
        assert(t =~= s.push(','));
        assert(t.drop_last() =~= s);
        assert(part =~= Seq::<char>::empty());
    } else {
        comma_parts_append(s, part.drop_last());
        assert(t.drop_last() =~= s.push(',') + part.drop_last());
        assert(t.last() == part.last());
        let parts = comma_parts(t.drop_last());
        assert(parts.drop_last() =~= comma_parts(s));
        assert(part.drop_last().push(part.last()) =~= part);
    }
}

/// A text without commas is its own only part.
pub(crate) proof fn comma_parts_single(part: Seq<char>)
    requires
        forall|i: int| 0 <= i < part.len() ==> #[trigger] part[i] != ',',
    ensures
        comma_parts(part) == seq![part],
    decreases part.len(),
{
    if part.len() == 0 {
        assert(part =~= Seq::<char>::empty());
    } else {
        comma_parts_single(part.drop_last());
        assert(part.drop_last().push(part.last()) =~= part);
        assert(comma_parts(part) =~= seq![part]);
    }
}

proof fn digits_hold_no_comma(n: u32)
    ensures
        forall|i: int| 0 <= i < digits(n as nat).len() ==> #[trigger] digits(n as nat)[i] != ',',
{
    digits_spell(n as nat);
    assert forall|i: int| 0 <= i < digits(n as nat).len() implies #[trigger] digits(n as nat)[i]
        != ',' by {
        assert(is_digit(digits(n as nat)[i]));
    }
}

proof fn comma_parts_of_shape_text(dims: Seq<u32>)
    requires
        dims.len() > 0,
    ensures
        comma_parts(shape_text(dims)) == dims.map_values(|d: u32| digits(d as nat)),
    decreases dims.len(),
{
    digits_hold_no_comma(dims.last());
    if dims.len() == 1 {
        comma_parts_single(digits(dims[0] as nat));
    } else {
        comma_parts_of_shape_text(dims.drop_last());
        comma_parts_append(shape_text(dims.drop_last()), digits(dims.last() as nat));
    }
    assert(comma_parts(shape_text(dims)) =~= dims.map_values(|d: u32| digits(d as nat)));
}

/// The text of a shape of one or more dimensions lists exactly those dimensions.
pub proof fn shape_dims_of_shape_text(dims: Seq<u32>)
    requires
        dims.len() > 0,
    ensures
        is_shape(shape_text(dims)),
        shape_dims(shape_text(dims)) == dims,
{
    comma_parts_of_shape_text(dims);
    let parts = comma_parts(shape_text(dims));
    assert forall|i: int| 0 <= i < parts.len() implies numeral(#[trigger] parts[i]) == Some(
        dims[i],
    ) by {
        numeral_of_digits(dims[i]);
    }
    assert(shape_dims(shape_text(dims)) =~= dims);
}

/// The text of a shape of no dimensions is empty, and the empty text is no shape.
pub proof fn empty_text_is_no_shape()
    ensures
        shape_text(Seq::<u32>::empty()) == Seq::<char>::empty(),
        !is_shape(Seq::<char>::empty()),
{
    let parts = comma_parts(Seq::<char>::empty());
    assert(parts[0] == Seq::<char>::empty());
    assert(numeral(parts[0]) is None);
}

/// Reads the dimensions that `text` lists, or `None` where it is no shape.
pub fn parse_shape(text: &str) -> (dims: Option<Vec<u32>>)
    ensures
        dims is Some <==> is_shape(text@),
        dims matches Some(d) ==> d@ == shape_dims(text@),
{
    let chars = chars_of(text);
    let mut dims: Vec<u32> = Vec::new();
    let mut start: usize = 0;
    let mut i: usize = 0;
    let ghost s = text@;
    while i < chars.len()
        invariant
            s == text@,
            chars@ == s,
            start <= i <= s.len(),
            comma_parts(s.take(i as int)).len() == dims@.len() + 1,
            comma_parts(s.take(i as int)).last() =~= s.subrange(start as int, i as int),
            forall|j: int|
                0 <= j < dims@.len() ==> numeral(#[trigger] comma_parts(s.take(i as int))[j])
                    == Some(dims@[j]),
        decreases s.len() - i,
    {
        proof {
            assert(s.take(i + 1).drop_last() =~= s.take(i as int));
            assert(s.take(i + 1).last() == s[i as int]);
            assert(s.subrange(start as int, i + 1) =~= s.subrange(start as int, i as int).push(
                s[i as int],
            ));
        }
        if chars[i] == ',' {
            match parse_numeral(&chars, start, i) {
                Some(d) => {
                    dims.push(d);
                    start = i + 1;
                },
                None => {
                    proof {
                        parts_stay(s, i as int, dims@.len() as int);
                        assert(numeral(comma_parts(s)[dims@.len() as int]) is None);
                    }
                    return None;
                },
            }
        }
        i = i + 1;
    }
    assert(s.take(i as int) =~= s);
    match parse_numeral(&chars, start, i) {
        Some(d) => {
            dims.push(d);
            assert(dims@ =~= shape_dims(s));
            Some(dims)
        },
        None => {
            assert(numeral(comma_parts(s)[dims@.len() as int]) is None);
            None
        },
    }
}

/// The part that ends at a comma stays as it is, whatever follows.
proof fn parts_stay(s: Seq<char>, at: int, part: int)
    requires
        0 <= at < s.len(),
        s[at] == ',',
        0 <= part < comma_parts(s.take(at)).len(),
    ensures
        part < comma_parts(s).len() - 1,
        comma_parts(s)[part] == comma_parts(s.take(at))[part],
    decreases s.len(),
{
    comma_parts_not_empty(s.drop_last());
    if at == s.len() - 1 {
        assert(s.drop_last() =~= s.take(at));
    } else {
        assert(s.drop_last().take(at) =~= s.take(at));
        parts_stay(s.drop_last(), at, part);
    }
}

/// The text of a shape.
pub fn format_shape(dims: &Vec<u32>) -> (text: String)
    ensures
        text@ == shape_text(dims@),
{
    let mut text = String::new();
    let mut i: usize = 0;
    while i < dims.len()
        invariant
            i <= dims@.len(),
            text@ == shape_text(dims@.take(i as int)),
        decreases dims@.len() - i,
    {
        proof {
            let t = dims@.take(i + 1);
            assert(t.drop_last() =~= dims@.take(i as int));
            assert(t.last() == dims@[i as int]);
        }
        if i > 0 {
            text.push(',');
        }
        push_decimal(&mut text, dims[i] as u128);
        assert(i == 0 ==> text@ =~= digits(dims@[0] as nat));
        i = i + 1;
    }
    assert(dims@.take(i as int) =~= dims@);
    text
}

} // verus!
