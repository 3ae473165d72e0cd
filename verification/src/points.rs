//! The points of curves, as their text forms show them: for each coordinate a number, and a
//! counter of the multiples of the field's modulus that the number may hold.
use vstd::prelude::*;

use crate::numbers;
use crate::numbers::Limbs;
use crate::qualified;

verus! {

/// The greatest counter of a coordinate with which the arithmetic of points keeps to its own
/// limit. A product of two coordinates of the second group may count 67108863 moduli, and only
/// the first factor is reduced for that, to counters of one. The second factor can be the sum of
/// a coordinate and another that was negated twice. With this counter the product then counts
/// at most 39845888 moduli, and with the next one more than it may.
pub const COUNTER_LIMIT: u64 = 262144;

/// The modulus of the field of coordinates.
pub open spec fn field_modulus() -> int {
    0x25236482_40000001BA344D_80000000086121_000000000013A7_00000000000013int
}

/// The order of the groups of points.
pub open spec fn group_order() -> int {
    0x25236482_40000001BA344D_8000000007FF9F_800000000010A1_0000000000000Dint
}

/// The counter of a coordinate is within its limit, and its number below that many moduli.
pub open spec fn coordinate_is_bounded(coordinate: (int, int)) -> bool {
    &&& 1 <= coordinate.0 <= COUNTER_LIMIT
    &&& 0 <= coordinate.1 < coordinate.0 * field_modulus()
}

/// The counter of a coordinate is not negative, and its number can be written, in at most
/// seventy hexadecimal digits.
pub open spec fn coordinate_fits(coordinate: (int, int)) -> bool {
    &&& 0 <= coordinate.0
    &&& numbers::fits(coordinate.1)
}

/// Each coordinate of a point can be written.
pub open spec fn fits(point: Seq<(int, int)>) -> bool {
    forall|i: int| 0 <= i < point.len() ==> coordinate_fits(#[trigger] point[i])
}

/// Each coordinate of a point is bounded.
pub open spec fn is_bounded(point: Seq<(int, int)>) -> bool {
    forall|i: int| 0 <= i < point.len() ==> coordinate_is_bounded(#[trigger] point[i])
}

/// A point that is bounded can be written.
pub proof fn lemma_bounded_fits(point: Seq<(int, int)>)
    requires
        is_bounded(point),
    ensures
        fits(point),
{
    assert forall|i: int| 0 <= i < point.len() implies coordinate_fits(#[trigger] point[i]) by {
        let (counter, number) = point[i];
        assert(coordinate_is_bounded(point[i]));
        assert(counter * field_modulus() <= COUNTER_LIMIT * field_modulus()) by (nonlinear_arith)
            requires
                counter <= COUNTER_LIMIT,
                field_modulus() > 0,
        ;
    }
}

/// The coordinate that two words of a text show: the counter in decimal digits, and the number
/// in hexadecimal ones.
pub open spec fn coordinate_at(words: Seq<Seq<char>>, i: int) -> Option<(int, int)> {
    match (numbers::number_in(words[2 * i], 10), numbers::number_in(words[2 * i + 1], 16)) {
        (Some(counter), Some(number)) => Some((counter, number)),
        _ => None,
    }
}

/// The point that a text shows: the coordinates, with a space between any two words.
pub open spec fn point_of(text: Seq<char>) -> Option<Seq<(int, int)>> {
    let words = qualified::pieces(text, ' ');
    if words.len() % 2 == 0 && forall|i: int|
        0 <= i < words.len() / 2 ==> #[trigger] coordinate_at(words, i) is Some {
        Some(Seq::new(words.len() / 2, |i: int| coordinate_at(words, i)->0))
    } else {
        None
    }
}

/// A text shows a point that is bounded.
pub open spec fn shows_bounded(text: Seq<char>) -> bool {
    point_of(text) matches Some(point) && is_bounded(point)
}

/// Each text of a list shows a point.
pub open spec fn texts_show_points(texts: Seq<String>) -> bool {
    forall|i: int| 0 <= i < texts.len() ==> point_of((#[trigger] texts[i])@) is Some
}

/// The points that the texts of a list show.
pub open spec fn points_shown(texts: Seq<String>) -> Set<Seq<(int, int)>> {
    texts.map_values(|text: String| point_of(text@)->0).to_set()
}

/// The words of a list.
pub open spec fn words_of(words: Seq<Vec<char>>) -> Seq<Seq<char>> {
    words.map_values(|word: Vec<char>| word@)
}

/// The words of a text, between its spaces.
fn words(text: &str) -> (res: Vec<Vec<char>>)
    ensures
        words_of(res@) == qualified::pieces(text@, ' '),
{
    let chars = numbers::characters(text);
    let mut words: Vec<Vec<char>> = Vec::new();
    let mut word: Vec<char> = Vec::new();
    let mut i: usize = 0;
    proof {
        assert(chars@.take(0) =~= seq![]);
        assert(words_of(words@).push(word@) =~= seq![seq![]]);
    }
    while i < chars.len()
        invariant
            i <= chars.len(),
            words_of(words@).push(word@) == qualified::pieces(chars@.take(i as int), ' '),
        decreases chars.len() - i,
    {
        let c = chars[i];
        let ghost before = words_of(words@).push(word@);
        proof {
            assert(chars@.take(i + 1).drop_last() =~= chars@.take(i as int));
            assert(before.drop_last() =~= words_of(words@));
            assert(before.last() == word@);
        }
        if c == ' ' {
            words.push(word);
            word = Vec::new();
            proof {
                assert(words_of(words@) =~= before);
                assert(word@ =~= seq![]);
            }
        } else {
            word.push(c);
        }
        i += 1;
    }
    words.push(word);
    proof {
        assert(chars@.take(chars@.len() as int) =~= chars@);
        assert(words_of(words@) =~= words_of(words@.drop_last()).push(words@.last()@));
    }
    words
}

/// The modulus of the field of coordinates.
fn modulus() -> (res: Limbs)
    ensures
        res.well_formed(),
        res.value() == field_modulus(),
{
    Limbs {
        w0: 0x13,
        w1: 0x13A7,
        w2: 0x80000000086121,
        w3: 0x40000001BA344D,
        w4: 0x25236482,
    }
}

/// The order of the groups of points.
pub fn order() -> (res: Limbs)
    ensures
        res.well_formed(),
        res.value() == group_order(),
{
    Limbs {
        w0: 0xD,
        w1: 0x800000000010A1,
        w2: 0x8000000007FF9F,
        w3: 0x40000001BA344D,
        w4: 0x25236482,
    }
}

/// Whether two words show a coordinate that is bounded.
fn words_are_bounded(counter: &Vec<char>, number: &Vec<char>) -> (res: bool)
    ensures
        res == (numbers::number_in(counter@, 10) matches Some(c) && numbers::number_in(
            number@,
            16,
        ) matches Some(n) && coordinate_is_bounded((c, n))),
{
    let c = match numbers::decimal_up_to(counter, COUNTER_LIMIT) {
        Some(c) => c,
        None => {
            return false;
        },
    };
    let m = modulus();
    assert(m.value() * c <= field_modulus() * COUNTER_LIMIT) by (nonlinear_arith)
        requires
            m.value() == field_modulus(),
            field_modulus() > 0,
            0 <= c <= COUNTER_LIMIT,
    ;
    let bound = m.times(c);
    match numbers::hexadecimal(number) {
        Some(n) => {
            proof {
                if numbers::number_in(number@, 16) is Some {
                    numbers::lemma_prefix_is_number(number@, 16, 0);
                }
                vstd::arithmetic::mul::lemma_mul_is_commutative(c as int, field_modulus());
            }
            c >= 1 && n.less_than(&bound)
        },
        None => {
            proof {
                vstd::arithmetic::mul::lemma_mul_is_commutative(c as int, field_modulus());
            }
            false
        },
    }
}

/// Whether a text shows a point that is bounded.
pub fn text_is_bounded(text: &str) -> (res: bool)
    ensures
        res == shows_bounded(text@),
{
    let list = words(text);
    let ghost all = qualified::pieces(text@, ' ');
    if list.len() % 2 != 0 {
        return false;
    }
    let mut i: usize = 0;
    while i < list.len() / 2
        invariant
            i <= list.len() / 2,
            list.len() % 2 == 0,
            words_of(list@) == all,
            all == qualified::pieces(text@, ' '),
            forall|j: int|
                0 <= j < i ==> (#[trigger] coordinate_at(all, j) matches Some(c)
                    && coordinate_is_bounded(c)),
        decreases list.len() / 2 - i,
    {
        assert(list@[2 * i]@ == all[2 * i]);
        assert(list@[2 * i + 1]@ == all[2 * i + 1]);
        if !words_are_bounded(&list[2 * i], &list[2 * i + 1]) {
            proof {
                if let Some(point) = point_of(text@) {
                    assert(coordinate_at(all, i as int) is Some);
                    assert(point[i as int] == coordinate_at(all, i as int)->0);
                    assert(!coordinate_is_bounded(point[i as int]));
                }
            }
            return false;
        }
        i += 1;
    }
    proof {
        assert(point_of(text@) is Some);
        let point = point_of(text@)->0;
        assert forall|j: int| 0 <= j < point.len() implies coordinate_is_bounded(
            #[trigger] point[j],
        ) by {
            assert(point[j] == coordinate_at(all, j)->0);
        }
    }
    true
}

/// Whether each text of a list shows a point that is bounded.
pub fn texts_are_bounded(texts: &Vec<String>) -> (res: bool)
    ensures
        res == (forall|i: int| 0 <= i < texts@.len() ==> shows_bounded((#[trigger] texts@[i])@)),
{
    let mut i: usize = 0;
    while i < texts.len()
        invariant
            i <= texts.len(),
            forall|j: int| 0 <= j < i ==> shows_bounded((#[trigger] texts@[j])@),
        decreases texts.len() - i,
    {
        if !text_is_bounded(texts[i].as_str()) {
            assert(!shows_bounded(texts@[i as int]@));
            return false;
        }
        i += 1;
    }
    true
}

/// The points that texts show are bounded exactly where each text shows one that is.
pub(crate) proof fn lemma_points_shown(texts: Seq<String>)
    requires
        texts_show_points(texts),
    ensures
        (forall|i: int| 0 <= i < texts.len() ==> shows_bounded((#[trigger] texts[i])@)) <==> (
        forall|point: Seq<(int, int)>| #[trigger]
            points_shown(texts).contains(point) ==> is_bounded(point)),
{
    let shown = texts.map_values(|text: String| point_of(text@)->0);
    assert forall|i: int|
        0 <= i < texts.len() && (forall|point: Seq<(int, int)>| #[trigger]
            points_shown(texts).contains(point) ==> is_bounded(point)) implies shows_bounded(
        (#[trigger] texts[i])@,
    ) by {
        assert(shown.contains(shown[i]));
        assert(points_shown(texts).contains(shown[i]));
    }
    assert forall|point: Seq<(int, int)>|
        (forall|i: int| 0 <= i < texts.len() ==> shows_bounded((#[trigger] texts[i])@))
            && #[trigger] points_shown(texts).contains(point) implies is_bounded(point) by {
        assert(shown.contains(point));
        let i = choose|i: int| 0 <= i < shown.len() && shown[i] == point;
        assert(shows_bounded(texts[i]@));
    }
}

/// Whether a number and the power of another add up to a multiple of the order of the groups.
pub fn index_number_vanishes(number: &Limbs, base: &Limbs, exponent: u32) -> (res: bool)
    requires
        number.well_formed(),
        base.well_formed(),
        number.value() < group_order(),
        base.value() < group_order(),
    ensures
        res == ((number.value() + vstd::arithmetic::power::pow(base.value(), exponent as nat))
            % group_order() == 0),
{
    let order = order();
    let ghost power = vstd::arithmetic::power::pow(base.value(), exponent as nat);
    let rest = base.power_remainder(exponent, &order);
    proof {
        vstd::arithmetic::div_mod::lemma_add_mod_noop_right(number.value(), power, group_order());
        vstd::arithmetic::div_mod::lemma_mod_bound(power, group_order());
    }
    number.sum_remainder(&rest, &order).is_zero()
}

} // verus!
