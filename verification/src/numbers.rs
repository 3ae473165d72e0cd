//! Numbers in decimal and hexadecimal digits, as the text forms of keys and points hold them.
use vstd::prelude::*;

verus! {

// ---- digits ----

/// The number that a digit stands for, in bases up to sixteen.
pub open spec fn digit_value(c: char) -> Option<int> {
    if '0' <= c <= '9' {
        Some(c as int - '0' as int)
    } else if 'a' <= c <= 'f' {
        Some(c as int - 'a' as int + 10)
    } else if 'A' <= c <= 'F' {
        Some(c as int - 'A' as int + 10)
    } else {
        None
    }
}

/// The number that a word stands for in a base, where all its characters are digits.
pub open spec fn number_in(word: Seq<char>, base: int) -> Option<int>
    decreases word.len(),
{
    if word.len() == 0 {
        Some(0)
    } else {
        match (number_in(word.drop_last(), base), digit_value(word.last())) {
            (Some(n), Some(d)) => if d < base {
                Some(n * base + d)
            } else {
                None
            },
            _ => None,
        }
    }
}

/// The number that a digit stands for.
fn digit_of(c: char) -> (res: Option<u64>)
    ensures
        res is Some <==> digit_value(c) is Some,
        res matches Some(d) ==> digit_value(c) == Some(d as int) && d < 16,
{
    if '0' <= c && c <= '9' {
        Some(c as u64 - '0' as u64)
    } else if 'a' <= c && c <= 'f' {
        Some(c as u64 - 'a' as u64 + 10)
    } else if 'A' <= c && c <= 'F' {
        Some(c as u64 - 'A' as u64 + 10)
    } else {
        None
    }
}

/// What begins a number is a number, and not greater.
pub(crate) proof fn lemma_prefix_is_number(word: Seq<char>, base: int, i: int)
    requires
        base >= 1,
        0 <= i <= word.len(),
        number_in(word, base) is Some,
    ensures
        number_in(word.take(i), base) is Some,
        0 <= number_in(word.take(i), base)->0 <= number_in(word, base)->0,
    decreases word.len(),
{
    if i == word.len() {
        assert(word.take(i) =~= word);
        if word.len() > 0 {
            lemma_prefix_is_number(word.drop_last(), base, i - 1);
            assert(word.drop_last().take(i - 1) =~= word.drop_last());
            let n = number_in(word.drop_last(), base)->0;
            assert(n * base >= 0) by (nonlinear_arith)
                requires
                    n >= 0,
                    base >= 1,
            ;
        }
    } else {
        lemma_prefix_is_number(word.drop_last(), base, i);
        assert(word.drop_last().take(i) =~= word.take(i));
        let n = number_in(word.drop_last(), base)->0;
        assert(n * base >= n) by (nonlinear_arith)
            requires
                n >= 0,
                base >= 1,
        ;
    }
}

/// Reads a number in decimal digits, where it is not above a limit.
pub fn decimal_up_to(word: &Vec<char>, limit: u64) -> (res: Option<u64>)
    requires
        limit <= 0xffff_ffff,
    ensures
        res is Some <==> (number_in(word@, 10) matches Some(n) && n <= limit),
        res matches Some(n) ==> number_in(word@, 10) == Some(n as int),
{
    let mut n: u64 = 0;
    let mut i: usize = 0;
    assert(word@.take(0) =~= seq![]);
    while i < word.len()
        invariant
            i <= word.len(),
            n <= limit,
            limit <= 0xffff_ffff,
            number_in(word@.take(i as int), 10) == Some(n as int),
        decreases word.len() - i,
    {
        proof {
            if number_in(word@, 10) is Some {
                lemma_prefix_is_number(word@, 10, i + 1);
            }
            assert(word@.take(i + 1).drop_last() =~= word@.take(i as int));
        }
        match digit_of(word[i]) {
            Some(d) => {
                if d >= 10 || n * 10 + d > limit {
                    return None;
                }
                n = n * 10 + d;
            },
            None => {
                return None;
            },
        }
        i += 1;
    }
    assert(word@.take(word@.len() as int) =~= word@);
    Some(n)
}

// ---- large numbers ----

/// Two to the power of 56, by which the limbs of a large number count.
pub const LIMB: u64 = 0x100_0000_0000_0000;

/// A number below two to the power of 280, in five limbs, the least first.
#[derive(Debug, Clone, Copy)]
pub struct Limbs {
    pub w0: u64,
    pub w1: u64,
    pub w2: u64,
    pub w3: u64,
    pub w4: u64,
}

/// What lies above all numbers in five limbs.
pub open spec fn limbs_end() -> int {
    0x1_00000000_00000000_00000000_00000000_00000000_00000000_00000000_00000000_000000int
}

/// A number is not negative and can be written in five limbs, or seventy hexadecimal digits.
pub open spec fn fits(n: int) -> bool {
    0 <= n < limbs_end()
}

impl Limbs {
    /// Each limb is in its range.
    pub open spec fn well_formed(self) -> bool {
        &&& self.w0 < LIMB
        &&& self.w1 < LIMB
        &&& self.w2 < LIMB
        &&& self.w3 < LIMB
        &&& self.w4 < LIMB
    }

    /// The number.
    pub open spec fn value(self) -> int {
        self.w0 + self.w1 * 0x1_00000000_000000int + self.w2
            * 0x1_00000000_000000_00000000_000000int + self.w3
            * 0x1_00000000_000000_00000000_000000_00000000_000000int + self.w4
            * 0x1_00000000_000000_00000000_000000_00000000_000000_00000000_000000int
    }

    /// Whether a number is less than another.
    pub fn less_than(&self, other: &Limbs) -> (res: bool)
        requires
            self.well_formed(),
            other.well_formed(),
        ensures
            res == (self.value() < other.value()),
    {
        if self.w4 != other.w4 {
            self.w4 < other.w4
        } else if self.w3 != other.w3 {
            self.w3 < other.w3
        } else if self.w2 != other.w2 {
            self.w2 < other.w2
        } else if self.w1 != other.w1 {
            self.w1 < other.w1
        } else {
            self.w0 < other.w0
        }
    }

    /// Sixteen times the number, and a digit; `None` where that does not fit.
    fn shifted(&self, d: u64) -> (res: Option<Limbs>)
        requires
            self.well_formed(),
            d < 16,
        ensures
            res is Some <==> self.value() * 16 + d < limbs_end(),
            res matches Some(n) ==> n.well_formed() && n.value() == self.value() * 16 + d,
    {
        let t0: u64 = self.w0 * 16 + d;
        let t1: u64 = self.w1 * 16 + t0 / LIMB;
        let t2: u64 = self.w2 * 16 + t1 / LIMB;
        let t3: u64 = self.w3 * 16 + t2 / LIMB;
        let t4: u64 = self.w4 * 16 + t3 / LIMB;
        let n = Limbs { w0: t0 % LIMB, w1: t1 % LIMB, w2: t2 % LIMB, w3: t3 % LIMB, w4: t4 };
        assert(n.value() == self.value() * 16 + d);
        if t4 < LIMB {
            Some(n)
        } else {
            None
        }
    }

    /// A small multiple of a number, where that fits.
    pub fn times(&self, factor: u64) -> (res: Limbs)
        requires
            self.well_formed(),
            factor <= 0xffff_ffff,
            self.value() * factor < limbs_end(),
        ensures
            res.well_formed(),
            res.value() == self.value() * factor,
    {
        let f: u128 = factor as u128;
        let base: u128 = LIMB as u128;
        proof {
            lemma_products_fit(self.w0, factor);
            lemma_products_fit(self.w1, factor);
            lemma_products_fit(self.w2, factor);
            lemma_products_fit(self.w3, factor);
            lemma_products_fit(self.w4, factor);
        }
        let t0: u128 = self.w0 as u128 * f;
        let t1: u128 = self.w1 as u128 * f + t0 / base;
        let t2: u128 = self.w2 as u128 * f + t1 / base;
        let t3: u128 = self.w3 as u128 * f + t2 / base;
        let t4: u128 = self.w4 as u128 * f + t3 / base;
        proof {
            lemma_times(*self, factor as int);
        }
        assert(t4 < LIMB);
        Limbs {
            w0: (t0 % base) as u64,
            w1: (t1 % base) as u64,
            w2: (t2 % base) as u64,
            w3: (t3 % base) as u64,
            w4: t4 as u64,
        }
    }

    /// Whether a number is zero.
    pub fn is_zero(&self) -> (res: bool)
        requires
            self.well_formed(),
        ensures
            res == (self.value() == 0),
    {
        self.w0 == 0 && self.w1 == 0 && self.w2 == 0 && self.w3 == 0 && self.w4 == 0
    }

    /// The sum of two numbers, where that fits.
    pub fn plus(&self, other: &Limbs) -> (res: Limbs)
        requires
            self.well_formed(),
            other.well_formed(),
            self.value() + other.value() < limbs_end(),
        ensures
            res.well_formed(),
            res.value() == self.value() + other.value(),
    {
        let t0: u64 = self.w0 + other.w0;
        let t1: u64 = self.w1 + other.w1 + t0 / LIMB;
        let t2: u64 = self.w2 + other.w2 + t1 / LIMB;
        let t3: u64 = self.w3 + other.w3 + t2 / LIMB;
        let t4: u64 = self.w4 + other.w4 + t3 / LIMB;
        let n = Limbs { w0: t0 % LIMB, w1: t1 % LIMB, w2: t2 % LIMB, w3: t3 % LIMB, w4: t4 };
        assert(n.value() == self.value() + other.value());
        n
    }

    /// What is left of a number when another is taken away, where that is not greater.
    pub fn minus(&self, other: &Limbs) -> (res: Limbs)
        requires
            self.well_formed(),
            other.well_formed(),
            other.value() <= self.value(),
        ensures
            res.well_formed(),
            res.value() == self.value() - other.value(),
    {
        // Each limb borrows from the next one, which is given back where it is not needed.
        let t0: u64 = LIMB + self.w0 - other.w0;
        let t1: u64 = LIMB - 1 + self.w1 - other.w1 + t0 / LIMB;
        let t2: u64 = LIMB - 1 + self.w2 - other.w2 + t1 / LIMB;
        let t3: u64 = LIMB - 1 + self.w3 - other.w3 + t2 / LIMB;
        let t4: u64 = LIMB - 1 + self.w4 - other.w4 + t3 / LIMB;
        assert(t4 >= LIMB) by {
            let low = t0 % LIMB + (t1 % LIMB) * 0x1_00000000_000000int + (t2 % LIMB)
                * 0x1_00000000_000000_00000000_000000int + (t3 % LIMB)
                * 0x1_00000000_000000_00000000_000000_00000000_000000int;
            let top = 0x1_00000000_000000_00000000_000000_00000000_000000_00000000_000000int;
            assert(low + t4 * top == self.value() - other.value() + LIMB * top);
            assert(low < top);
        }
        Limbs { w0: t0 % LIMB, w1: t1 % LIMB, w2: t2 % LIMB, w3: t3 % LIMB, w4: t4 - LIMB }
    }

    /// Half of a number, and whether one is left over.
    pub fn halved(&self) -> (res: (Limbs, bool))
        requires
            self.well_formed(),
        ensures
            res.0.well_formed(),
            self.value() == 2 * res.0.value() + (if res.1 {
                1int
            } else {
                0
            }),
    {
        let n = Limbs {
            w0: (self.w0 + (self.w1 % 2) * LIMB) / 2,
            w1: (self.w1 + (self.w2 % 2) * LIMB) / 2,
            w2: (self.w2 + (self.w3 % 2) * LIMB) / 2,
            w3: (self.w3 + (self.w4 % 2) * LIMB) / 2,
            w4: self.w4 / 2,
        };
        (n, self.w0 % 2 == 1)
    }

    /// What is left of a sum when it is divided by a modulus.
    pub fn sum_remainder(&self, other: &Limbs, modulus: &Limbs) -> (res: Limbs)
        requires
            self.well_formed(),
            other.well_formed(),
            modulus.well_formed(),
            self.value() < modulus.value(),
            other.value() < modulus.value(),
            2 * modulus.value() <= limbs_end(),
        ensures
            res.well_formed(),
            res.value() == (self.value() + other.value()) % modulus.value(),
    {
        let sum = self.plus(other);
        proof {
            lemma_value_is_natural(*self);
            lemma_value_is_natural(*other);
            let (n, m) = (sum.value(), modulus.value());
            if n < m {
                vstd::arithmetic::div_mod::lemma_small_mod(n as nat, m as nat);
            } else {
                vstd::arithmetic::div_mod::lemma_mod_sub_multiples_vanish(n, m);
                vstd::arithmetic::div_mod::lemma_small_mod((n - m) as nat, m as nat);
            }
        }
        if sum.less_than(modulus) {
            sum
        } else {
            sum.minus(modulus)
        }
    }

    /// What is left of a product when it is divided by a modulus.
    pub fn product_remainder(&self, other: &Limbs, modulus: &Limbs) -> (res: Limbs)
        requires
            self.well_formed(),
            other.well_formed(),
            modulus.well_formed(),
            self.value() < modulus.value(),
            2 * modulus.value() <= limbs_end(),
        ensures
            res.well_formed(),
            res.value() == (self.value() * other.value()) % modulus.value(),
    {
        let ghost m = modulus.value();
        let mut sum = Limbs { w0: 0, w1: 0, w2: 0, w3: 0, w4: 0 };
        let mut factor = *self;
        let mut rest = *other;
        proof {
            lemma_value_is_natural(*self);
        }
        while !rest.is_zero()
            invariant
                sum.well_formed(),
                factor.well_formed(),
                rest.well_formed(),
                modulus.well_formed(),
                m == modulus.value(),
                2 * m <= limbs_end(),
                sum.value() < m,
                factor.value() < m,
                (sum.value() + factor.value() * rest.value()) % m == (self.value() * other.value())
                    % m,
            decreases rest.value(),
        {
            let (half, odd) = rest.halved();
            proof {
                lemma_value_is_natural(sum);
                lemma_value_is_natural(factor);
                lemma_value_is_natural(half);
                lemma_halved_product(
                    sum.value(),
                    factor.value(),
                    half.value(),
                    if odd {
                        1
                    } else {
                        0
                    },
                    m,
                );
                vstd::arithmetic::div_mod::lemma_small_mod(sum.value() as nat, m as nat);
            }
            if odd {
                sum = sum.sum_remainder(&factor, modulus);
            }
            factor = factor.sum_remainder(&factor, modulus);
            rest = half;
        }
        proof {
            lemma_value_is_natural(sum);
            vstd::arithmetic::div_mod::lemma_small_mod(sum.value() as nat, m as nat);
        }
        sum
    }

    /// What is left of a power when it is divided by a modulus.
    pub fn power_remainder(&self, exponent: u32, modulus: &Limbs) -> (res: Limbs)
        requires
            self.well_formed(),
            modulus.well_formed(),
            self.value() < modulus.value(),
            1 < modulus.value(),
            2 * modulus.value() <= limbs_end(),
        ensures
            res.well_formed(),
            res.value() == vstd::arithmetic::power::pow(self.value(), exponent as nat)
                % modulus.value(),
    {
        let ghost m = modulus.value();
        let ghost power = vstd::arithmetic::power::pow(self.value(), exponent as nat);
        let mut product = Limbs { w0: 1, w1: 0, w2: 0, w3: 0, w4: 0 };
        let mut base = *self;
        let mut rest: u32 = exponent;
        assert(product.value() * power == power) by {
            vstd::arithmetic::mul::lemma_mul_basics(power);
        }
        while rest != 0
            invariant
                product.well_formed(),
                base.well_formed(),
                modulus.well_formed(),
                m == modulus.value(),
                2 * m <= limbs_end(),
                product.value() < m,
                base.value() < m,
                (product.value() * vstd::arithmetic::power::pow(base.value(), rest as nat)) % m
                    == power % m,
            decreases rest,
        {
            proof {
                lemma_value_is_natural(product);
                lemma_value_is_natural(base);
                lemma_halved_power(
                    product.value(),
                    base.value(),
                    (rest / 2) as nat,
                    (rest % 2) as nat,
                    m,
                );
                vstd::arithmetic::div_mod::lemma_small_mod(product.value() as nat, m as nat);
            }
            if rest % 2 == 1 {
                product = product.product_remainder(&base, modulus);
            }
            base = base.product_remainder(&base, modulus);
            rest = rest / 2;
        }
        proof {
            lemma_value_is_natural(product);
            vstd::arithmetic::power::lemma_pow0(base.value());
            vstd::arithmetic::div_mod::lemma_small_mod(product.value() as nat, m as nat);
        }
        product
    }
}

/// The number of limbs in their ranges is not negative, and fits.
proof fn lemma_value_is_natural(n: Limbs)
    requires
        n.well_formed(),
    ensures
        0 <= n.value() < limbs_end(),
{
}

/// A product with a number that is written as twice another, and a bit.
proof fn lemma_halved_product(sum: int, factor: int, half: int, bit: int, m: int)
    requires
        m > 0,
        bit == 0 || bit == 1,
    ensures
        (sum + factor * (2 * half + bit)) % m == ((sum + bit * factor) % m + ((factor + factor) % m)
            * half) % m,
{
    let doubled = factor + factor;
    let first = sum + bit * factor;
    assert(factor * (2 * half + bit) == doubled * half + bit * factor) by (nonlinear_arith)
        requires
            doubled == factor + factor,
    ;
    vstd::arithmetic::div_mod::lemma_mul_mod_noop_left(doubled, half, m);
    vstd::arithmetic::div_mod::lemma_add_mod_noop(first, doubled * half, m);
    vstd::arithmetic::div_mod::lemma_add_mod_noop_right(first % m, doubled * half, m);
    vstd::arithmetic::div_mod::lemma_add_mod_noop_right(first % m, (doubled % m) * half, m);
}

/// A product with a power whose exponent is written as twice another, and a bit.
proof fn lemma_halved_power(product: int, base: int, half: nat, bit: nat, m: int)
    requires
        m > 0,
        bit == 0 || bit == 1,
    ensures
        (product * vstd::arithmetic::power::pow(base, 2 * half + bit)) % m == ((if bit == 1 {
            (product * base) % m
        } else {
            product
        }) * vstd::arithmetic::power::pow((base * base) % m, half)) % m,
{
    let square = vstd::arithmetic::power::pow(base * base, half);
    let reduced = vstd::arithmetic::power::pow((base * base) % m, half);
    let first = if bit == 1 {
        product * base
    } else {
        product
    };
    vstd::arithmetic::power::lemma_pow_adds(base, 2 * half, bit);
    vstd::arithmetic::power::lemma_pow_multiplies(base, 2, half);
    vstd::arithmetic::power::lemma_square_is_pow2(base);
    vstd::arithmetic::power::lemma_pow0(base);
    vstd::arithmetic::power::lemma_pow1(base);
    assert(product * vstd::arithmetic::power::pow(base, 2 * half + bit) == first * square) by {
        if bit == 1 {
            vstd::arithmetic::mul::lemma_mul_is_commutative(square, base);
            vstd::arithmetic::mul::lemma_mul_is_associative(product, base, square);
        }
    }
    vstd::arithmetic::power::lemma_pow_mod_noop(base * base, half, m);
    vstd::arithmetic::div_mod::lemma_mul_mod_noop_right(first, square, m);
    vstd::arithmetic::div_mod::lemma_mul_mod_noop_right(first, reduced, m);
    vstd::arithmetic::div_mod::lemma_mul_mod_noop_left(first, reduced, m);
}

proof fn lemma_products_fit(limb: u64, factor: u64)
    requires
        limb < LIMB,
        factor <= 0xffff_ffff,
    ensures
        0 <= limb * factor < 0x1_0000_0000_0000_0000_0000_0000,
{
    assert(0 <= limb * factor < 0x1_0000_0000_0000_0000_0000_0000) by (nonlinear_arith)
        requires
            limb < 0x100_0000_0000_0000,
            factor <= 0xffff_ffff,
    ;
}

proof fn lemma_times(n: Limbs, factor: int)
    ensures
        n.value() * factor == n.w0 * factor + (n.w1 * factor) * 0x1_00000000_000000int + (n.w2
            * factor) * 0x1_00000000_000000_00000000_000000int + (n.w3 * factor)
            * 0x1_00000000_000000_00000000_000000_00000000_000000int + (n.w4 * factor)
            * 0x1_00000000_000000_00000000_000000_00000000_000000_00000000_000000int,
{
    let (a, b, c, d, e) = (n.w0 as int, n.w1 as int, n.w2 as int, n.w3 as int, n.w4 as int);
    let p1 = 0x1_00000000_000000int;
    let p2 = 0x1_00000000_000000_00000000_000000int;
    let p3 = 0x1_00000000_000000_00000000_000000_00000000_000000int;
    let p4 = 0x1_00000000_000000_00000000_000000_00000000_000000_00000000_000000int;
    vstd::arithmetic::mul::lemma_mul_is_distributive_add_other_way(
        factor,
        a + b * p1 + c * p2 + d * p3,
        e * p4,
    );
    vstd::arithmetic::mul::lemma_mul_is_distributive_add_other_way(
        factor,
        a + b * p1 + c * p2,
        d * p3,
    );
    vstd::arithmetic::mul::lemma_mul_is_distributive_add_other_way(factor, a + b * p1, c * p2);
    vstd::arithmetic::mul::lemma_mul_is_distributive_add_other_way(factor, a, b * p1);
    lemma_factors_swap(b, p1, factor);
    lemma_factors_swap(c, p2, factor);
    lemma_factors_swap(d, p3, factor);
    lemma_factors_swap(e, p4, factor);
}

proof fn lemma_factors_swap(a: int, b: int, c: int)
    ensures
        (a * b) * c == (a * c) * b,
{
    vstd::arithmetic::mul::lemma_mul_is_associative(a, b, c);
    vstd::arithmetic::mul::lemma_mul_is_commutative(b, c);
    vstd::arithmetic::mul::lemma_mul_is_associative(a, c, b);
}

/// Reads a number in hexadecimal digits, where it fits.
pub fn hexadecimal(word: &Vec<char>) -> (res: Option<Limbs>)
    ensures
        res is Some <==> (number_in(word@, 16) matches Some(n) && n < limbs_end()),
        res matches Some(n) ==> n.well_formed() && number_in(word@, 16) == Some(n.value()),
{
    let mut n = Limbs { w0: 0, w1: 0, w2: 0, w3: 0, w4: 0 };
    let mut i: usize = 0;
    assert(word@.take(0) =~= seq![]);
    while i < word.len()
        invariant
            i <= word.len(),
            n.well_formed(),
            number_in(word@.take(i as int), 16) == Some(n.value()),
        decreases word.len() - i,
    {
        proof {
            if number_in(word@, 16) is Some {
                lemma_prefix_is_number(word@, 16, i + 1);
            }
            assert(word@.take(i + 1).drop_last() =~= word@.take(i as int));
        }
        match digit_of(word[i]) {
            Some(d) => {
                match n.shifted(d) {
                    Some(next) => {
                        n = next;
                    },
                    None => {
                        return None;
                    },
                }
            },
            None => {
                return None;
            },
        }
        i += 1;
    }
    assert(word@.take(word@.len() as int) =~= word@);
    Some(n)
}

/// The characters of a text.
pub fn characters(text: &str) -> (res: Vec<char>)
    ensures
        res@ == text@,
{
    let mut chars: Vec<char> = Vec::new();
    for c in iter: text.chars()
        invariant
            iter.seq() == text@,
            chars@ == text@.take(iter.index() as int),
    {
        proof {
            assert(text@.take(iter.index() + 1) =~= text@.take(iter.index() as int).push(c));
        }
        chars.push(c);
    }
    assert(text@.take(text@.len() as int) =~= text@);
    chars
}

/// Reads a number in hexadecimal digits, where it is below another.
pub fn hexadecimal_below(text: &str, bound: &Limbs) -> (res: Option<Limbs>)
    requires
        bound.well_formed(),
    ensures
        res is Some <==> (number_in(text@, 16) matches Some(n) && n < bound.value()),
        res matches Some(n) ==> n.well_formed() && number_in(text@, 16) == Some(n.value()),
        number_in(text@, 16) matches Some(n) ==> n >= 0,
{
    proof {
        if number_in(text@, 16) is Some {
            lemma_prefix_is_number(text@, 16, 0);
        }
    }
    let chars = characters(text);
    match hexadecimal(&chars) {
        Some(n) => if n.less_than(bound) {
            Some(n)
        } else {
            None
        },
        None => None,
    }
}

} // verus!
