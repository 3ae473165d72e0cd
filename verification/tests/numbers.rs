use indy_credx_issuer::numbers::{characters, decimal_up_to, hexadecimal, hexadecimal_below, Limbs};
use indy_credx_issuer::points::{
    index_number_vanishes, order, text_is_bounded, texts_are_bounded,
};

const MODULUS: &str = "2523648240000001BA344D80000000086121000000000013A700000000000013";
const BELOW_MODULUS: &str = "2523648240000001BA344D80000000086121000000000013A700000000000012";
const ORDER: &str = "2523648240000001BA344D8000000007FF9F800000000010A10000000000000D";

fn hex(text: &str) -> Limbs {
    hexadecimal(&characters(text)).unwrap()
}

fn parts(n: &Limbs) -> [u64; 5] {
    [n.w0, n.w1, n.w2, n.w3, n.w4]
}

#[test]
fn decimal_numbers_are_read() {
    let read = |text: &str| decimal_up_to(&characters(text), 1000);
    assert_eq!(read("0"), Some(0));
    assert_eq!(read("0999"), Some(999));
    assert_eq!(read("1000"), Some(1000));
    assert_eq!(read("1001"), None);
    assert_eq!(read("99999999999999999999999999"), None);
    assert_eq!(read("1a"), None);
    assert_eq!(read("-1"), None);
}

#[test]
fn hexadecimal_numbers_are_read() {
    assert_eq!(parts(&hex("1F")), [31, 0, 0, 0, 0]);
    assert_eq!(parts(&hex("aBc")), [0xABC, 0, 0, 0, 0]);
    assert_eq!(parts(&hex("100000000000000")), [0, 1, 0, 0, 0]);
    assert_eq!(
        parts(&hex(MODULUS)),
        [0x13, 0x13A7, 0x80000000086121, 0x40000001BA344D, 0x25236482],
    );
    let greatest = "F".repeat(70);
    assert_eq!(parts(&hex(&greatest)), [0xFFFFFFFFFFFFFF; 5]);
    assert!(hexadecimal(&characters(&format!("0{}", greatest))).is_some());
    assert!(hexadecimal(&characters(&format!("1{}", "0".repeat(70)))).is_none());
    assert!(hexadecimal(&characters("12G")).is_none());
}

#[test]
fn large_numbers_are_compared_multiplied_added_and_taken_away() {
    let (a, b) = (hex(BELOW_MODULUS), hex(MODULUS));
    assert!(a.less_than(&b) && !b.less_than(&a) && !a.less_than(&a));
    assert!(hex("FFFFFFFFFFFFFF").less_than(&hex("100000000000000")));
    assert_eq!(
        parts(&b.times(2)),
        parts(&hex("4A46C9048000000374689B0000000010C2420000000000274E00000000000026")),
    );
    assert_eq!(parts(&a.plus(&hex("1"))), parts(&b));
    assert_eq!(parts(&b.minus(&a)), [1, 0, 0, 0, 0]);
    assert_eq!(parts(&hex("FFFFFFFFFFFFFF").plus(&hex("1"))), [0, 1, 0, 0, 0]);
    assert_eq!(parts(&hex(&format!("1{}", "0".repeat(56))).minus(&hex("1"))), [
        0xFFFFFFFFFFFFFF,
        0xFFFFFFFFFFFFFF,
        0xFFFFFFFFFFFFFF,
        0xFFFFFFFFFFFFFF,
        0,
    ]);
    assert!(a.minus(&a).is_zero() && !a.is_zero());
}

#[test]
fn large_numbers_are_halved() {
    let (half, odd) = hex("300000000000001").halved();
    assert_eq!(parts(&half), [0x80000000000000, 1, 0, 0, 0]);
    assert!(odd);
    let (half, odd) = half.halved();
    assert_eq!(parts(&half), [0xC0000000000000, 0, 0, 0, 0]);
    assert!(!odd);
}

#[test]
fn remainders_are_computed() {
    let m = order();
    let last = m.minus(&hex("1"));
    assert_eq!(parts(&last.sum_remainder(&hex("5"), &m)), [4, 0, 0, 0, 0]);
    assert_eq!(parts(&last.product_remainder(&last, &m)), [1, 0, 0, 0, 0]);
    assert_eq!(parts(&hex("7").product_remainder(&hex("0"), &m)), [0; 5]);
    assert_eq!(parts(&hex("2").power_remainder(10, &m)), [1024, 0, 0, 0, 0]);
    assert_eq!(parts(&hex("2").power_remainder(0, &m)), [1, 0, 0, 0, 0]);
    assert_eq!(
        parts(&hex("3").power_remainder(1000, &m)),
        parts(&hex("13775C9F5376C0429E251C22D1EF5E552C751AE44C539400FFCD06533A2AE777")),
    );
    assert_eq!(
        parts(&last.power_remainder(4294967295, &m)),
        parts(&last),
    );
}

#[test]
fn numbers_below_a_bound_are_read() {
    assert!(hexadecimal_below(ORDER, &order()).is_none());
    assert!(hexadecimal_below(BELOW_MODULUS, &hex(MODULUS)).is_some());
    assert_eq!(parts(&hexadecimal_below("10", &order()).unwrap()), [16, 0, 0, 0, 0]);
    assert_eq!(parts(&hex(ORDER)), parts(&order()));
}

#[test]
fn coordinates_are_bounded_by_their_counters() {
    let bounded = |counter: &str, number: &str| text_is_bounded(&format!("{} {}", counter, number));
    assert!(bounded("1", BELOW_MODULUS));
    assert!(!bounded("1", MODULUS));
    assert!(bounded("2", MODULUS));
    assert!(bounded("262144", MODULUS));
    assert!(!bounded("262145", MODULUS));
    assert!(!bounded("2000000000", "1"));
    assert!(!bounded("0", "0"));
    assert!(!bounded("1", &"F".repeat(80)));
    assert!(bounded("1", &"0".repeat(80)));
}

#[test]
fn texts_that_show_no_point_are_not_bounded() {
    assert!(text_is_bounded("1 0A 2 0B"));
    assert!(!text_is_bounded("1 0A 2"));
    assert!(!text_is_bounded("1 0A 0 0B"));
    assert!(!text_is_bounded("1 0A x 0B"));
    assert!(!text_is_bounded("1 0A 2 0X"));
    assert!(!text_is_bounded(""));
}

#[test]
fn lists_of_texts_are_bounded_where_each_is() {
    let list = |texts: &[&str]| texts.iter().map(|text| text.to_string()).collect::<Vec<String>>();
    assert!(texts_are_bounded(&list(&[])));
    assert!(texts_are_bounded(&list(&["1 0A", "2 0B"])));
    assert!(!texts_are_bounded(&list(&["1 0A", "0 0B"])));
}

#[test]
fn powers_that_add_up_to_the_order_vanish() {
    let vanishes = |number: &str, base: &str, exponent: u32| {
        index_number_vanishes(&hex(number), &hex(base), exponent)
    };
    assert!(vanishes("0", "0", 3));
    assert!(!vanishes("0", "2", 3));
    let rest = "2523648240000001BA344D8000000007FF9F800000000010A100000000000005";
    assert!(vanishes(rest, "2", 3));
    assert!(!vanishes(rest, "2", 4));
    assert!(!vanishes(rest, "8", 3));
}
