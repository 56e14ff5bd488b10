use polymarket_arb_bot::decimal::{Decimal, MAX_COEFFICIENT};
use polymarket_arb_bot::sizing::round_down;
use std::str::FromStr;

fn dec(text: &str) -> Decimal {
    let d = rust_decimal::Decimal::from_str(text).unwrap();
    Decimal::new(d.mantissa(), d.scale()).unwrap()
}

fn show(d: Decimal) -> String {
    rust_decimal::Decimal::from_i128_with_scale(d.mantissa(), d.scale()).to_string()
}

fn outside(coefficient: i128, places: u32) -> rust_decimal::Decimal {
    rust_decimal::Decimal::from_i128_with_scale(coefficient, places)
}

struct Numbers(u64);

impl Numbers {
    fn next(&mut self) -> u64 {
        self.0 ^= self.0 << 13;
        self.0 ^= self.0 >> 7;
        self.0 ^= self.0 << 17;
        self.0
    }

    fn wide(&mut self, bits: u32) -> i128 {
        let raw = ((self.next() as u128) << 64 | self.next() as u128) >> (128 - bits);
        raw as i128
    }

    fn below(&mut self, n: u64) -> u32 {
        (self.next() % n) as u32
    }
}

#[test]
fn parts_are_kept_and_bounded() {
    let d = Decimal::new(-12345, 3).unwrap();
    assert_eq!((d.mantissa(), d.scale()), (-12345, 3));
    assert!(Decimal::new(MAX_COEFFICIENT, 28).is_some());
    assert!(Decimal::new(-MAX_COEFFICIENT, 0).is_some());
    assert!(Decimal::new(MAX_COEFFICIENT + 1, 0).is_none());
    assert!(Decimal::new(-MAX_COEFFICIENT - 1, 0).is_none());
    assert!(Decimal::new(0, 29).is_none());
    assert_eq!(Decimal::from_integer(u64::MAX).mantissa(), u64::MAX as i128);
}

#[test]
fn the_greater_and_the_lesser() {
    assert_eq!(show(dec("1.5").max(dec("1.25"))), "1.5");
    assert_eq!(show(dec("1.5").min(dec("1.25"))), "1.25");
    assert_eq!(show(dec("1.50").max(dec("1.5"))), "1.50");
    assert_eq!(show(dec("1.50").min(dec("1.5"))), "1.50");
    assert_eq!(show(dec("-2").max(dec("-3"))), "-2");
    assert_eq!(show(dec("0.0000000000000000000000000001").min(dec("7"))), "0.0000000000000000000000000001");
}

#[test]
fn numbers_are_rounded_down() {
    assert_eq!(show(round_down(dec("3.14159"), 2)), "3.14");
    assert_eq!(show(round_down(dec("3.999"), 0)), "3");
    assert_eq!(show(round_down(dec("5"), 2)), "5");
    assert_eq!(show(round_down(dec("0.009"), 2)), "0");
    assert_eq!(show(round_down(dec("-1.001"), 2)), "-1.01");
    assert_eq!(show(round_down(dec("-1.5"), 0)), "-2");
    assert_eq!(show(round_down(dec("12.3456789"), 7)), "12.3456789");
    assert_eq!(show(round_down(dec("1.23456789012345678901"), 19)), "1.234567890123456789");
    let once = round_down(dec("7.7777"), 3);
    let twice = round_down(once, 3);
    assert_eq!(show(once), "7.777");
    assert_eq!(show(twice), "7.777");
}

#[test]
fn exact_sums_and_differences_come_out_exact() {
    let mut numbers = Numbers(0x1234_5678_9abc_def1);
    for _ in 0..20_000 {
        let places = numbers.below(29);
        let bits_a = 1 + numbers.below(95);
        let a = numbers.wide(bits_a);
        let bits_b = 1 + numbers.below(95);
        let b = numbers.wide(bits_b);
        assert_eq!(outside(a, places) + outside(b, places), outside(a + b, places));
        assert_eq!(outside(a, places) - outside(b, places), outside(a - b, places));
    }
    for _ in 0..20_000 {
        let up = numbers.below(29);
        let a = numbers.wide(95);
        let most = MAX_COEFFICIENT / 10i128.pow(up);
        let b = numbers.wide(96) % (most + 1);
        let padded = outside(b * 10i128.pow(up), up);
        assert_eq!(outside(a, 0) - padded, outside(a - b, 0));
        if a + b <= MAX_COEFFICIENT {
            assert_eq!(outside(a, 0) + padded, outside(a + b, 0));
        } else {
            assert_eq!(outside(a, 0).checked_add(padded), None);
        }
    }
}

#[test]
fn exact_products_come_out_exact() {
    let mut numbers = Numbers(0xfeed_beef_1234_0001);
    for _ in 0..20_000 {
        let bits = 1 + numbers.below(95);
        let a = numbers.wide(bits);
        let b = numbers.wide(96 - bits);
        let up = numbers.below(20);
        let room = MAX_COEFFICIENT / 10i128.pow(up);
        let a = a % (room + 1);
        let places_a = up + numbers.below(29 - up as u64);
        let places_b = numbers.below((28 - (places_a - up) + 1) as u64);
        let product = outside(a * 10i128.pow(up), places_a) * outside(b, places_b);
        assert_eq!(product, outside(a * b, places_a - up + places_b));
    }
}

#[test]
fn exact_quotients_come_out_exact() {
    let mut numbers = Numbers(0x0dd_ba11_0dd_ba11);
    for _ in 0..20_000 {
        let bits = 1 + numbers.below(95);
        let quotient = numbers.wide(bits);
        let divisor = 1 + numbers.wide(96 - bits);
        if quotient * divisor > MAX_COEFFICIENT {
            continue;
        }
        let places_q = numbers.below(29);
        let places_d = numbers.below((29 - places_q) as u64);
        let dividend = outside(quotient * divisor, places_q + places_d);
        assert_eq!(dividend / outside(divisor, places_d), outside(quotient, places_q));
    }
    for _ in 0..20_000 {
        let n = numbers.wide(96);
        let exponent = numbers.below(20);
        assert_eq!(outside(n, 0) / outside(10i128.pow(exponent), 0), outside(n, exponent));
    }
}

#[test]
fn the_order_of_a_sum_matters_only_for_the_places_of_zero() {
    let mut numbers = Numbers(0xc0ff_ee00_c0ff_ee01);
    for _ in 0..40_000 {
        let bits_a = 1 + numbers.below(96);
        let a = numbers.wide(bits_a) * if numbers.below(2) == 0 { 1 } else { -1 };
        let bits_b = 1 + numbers.below(96);
        let b = numbers.wide(bits_b) * if numbers.below(2) == 0 { 1 } else { -1 };
        let (x, y) = (outside(a, numbers.below(29)), outside(b, numbers.below(29)));
        match (x.checked_add(y), y.checked_add(x)) {
            (Some(one), Some(other)) => {
                assert_eq!(one, other);
                if !one.is_zero() {
                    assert_eq!((one.mantissa(), one.scale()), (other.mantissa(), other.scale()));
                }
            }
            (one, other) => assert_eq!(one, other),
        }
    }
    let (x, y) = (outside(0, 0), outside(0, 2));
    assert_eq!((x.checked_add(y).unwrap().scale(), y.checked_add(x).unwrap().scale()), (2, 0));
}

/// Ten parts in `2^96` of a number, rounded down.
fn slight(number: i128) -> i128 {
    ((number.abs() >> 90) * 10) >> 6
}

#[test]
fn rounded_sums_are_hardly_off() {
    let mut numbers = Numbers(0xabcd_ef01_2345_6789);
    for _ in 0..40_000 {
        let low = numbers.below(20);
        let up = numbers.below(9);
        let a = numbers.wide(96) * if numbers.below(2) == 0 { 1 } else { -1 };
        let b = numbers.wide(96);
        let exact = a * 10i128.pow(up) + b;
        let places = low + up;
        for (x, y, exact) in [
            (outside(a, low), outside(b, places), exact),
            (outside(a, low), outside(-b, places), exact - 2 * b),
        ] {
            let in_range = exact.abs() / 10i128.pow(places) < MAX_COEFFICIENT;
            for sum in [x.checked_add(y), x.checked_sub(-y)] {
                assert!(!in_range || sum.is_some());
                if let Some(sum) = sum {
                    let rounded = sum.mantissa() * 10i128.pow(places - sum.scale());
                    assert!((rounded - exact).abs() <= slight(rounded));
                }
            }
        }
    }
}

#[test]
fn rounded_products_are_hardly_off() {
    let mut numbers = Numbers(0x0bad_cafe_0bad_cafe);
    for _ in 0..40_000 {
        let bits = 1 + numbers.below(96);
        let (a, b) = (numbers.wide(bits), numbers.wide(29));
        let places_a = numbers.below(29);
        let places_b = numbers.below(10);
        let places = places_a + places_b;
        let product = outside(a, places_a).checked_mul(outside(b, places_b));
        assert!((a * b) / 10i128.pow(places) >= MAX_COEFFICIENT || product.is_some());
        if let Some(product) = product {
            let step = 10i128.pow(places - product.scale().min(places));
            let rounded = product.mantissa() * step;
            let least = 10i128.pow(places.max(28) - 28);
            assert!((rounded - a * b).abs() <= slight(rounded).max(least));
        }
    }
}

#[test]
fn rounded_quotients_are_hardly_off() {
    let mut numbers = Numbers(0x7777_1234_7777_1235);
    for _ in 0..40_000 {
        let bits = 1 + numbers.below(96);
        let (a, b) = (numbers.wide(bits), 1 + numbers.wide(30));
        let quotient = outside(a, 0).checked_div(outside(b, 0)).unwrap();
        let rounded = quotient.mantissa() * b;
        let error = (rounded - a * 10i128.pow(quotient.scale())).abs();
        let least = error.checked_mul(10i128.pow(28 - quotient.scale())).map_or(false, |e| e <= b);
        assert!(error <= slight(rounded) || least);
    }
    for _ in 0..40_000 {
        let places = numbers.below(29);
        let (a, b) = (numbers.wide(96), 1 + numbers.wide(96));
        let in_range = a / b < MAX_COEFFICIENT / 10i128.pow(places);
        let quotient = outside(a, 0).checked_div(outside(b, places));
        assert!(!in_range || quotient.is_some());
    }
    assert_eq!(outside(MAX_COEFFICIENT, 0).checked_div(outside(1, 0)), Some(outside(MAX_COEFFICIENT, 0)));
    assert_eq!(outside(2, 0).checked_div(outside(9, 1)).unwrap().to_string(), "2.2222222222222222222222222222");
    let close = outside(2, 0).checked_div(dec_outside("1.0000000000000000000000000001")).unwrap();
    assert_eq!(close.to_string(), "1.9999999999999999999999999998");
    let half = 39_000_000_000_000_000_000_000_000_001;
    let stripped = outside(2 * half + 1, 0).checked_div(outside(half, 0)).unwrap();
    assert_eq!((stripped.mantissa(), stripped.scale()), (2_000_000_000_000_000_000_000, 21));
}

fn dec_outside(text: &str) -> rust_decimal::Decimal {
    rust_decimal::Decimal::from_str(text).unwrap()
}

#[test]
fn plain_numerals_are_read_as_they_stand() {
    let mut numbers = Numbers(0x2468_ace0_1357_9bdf);
    for _ in 0..40_000 {
        let count = 1 + numbers.below(28);
        let digits: String = (0..count).map(|_| char::from(b'0' + numbers.below(10) as u8)).collect();
        let mut text = digits.clone();
        let mut places = 0;
        if numbers.below(3) > 0 {
            places = numbers.below(count as u64 + 1);
            text.insert((count - places) as usize, '.');
        }
        let mut coefficient: i128 = digits.parse().unwrap();
        if numbers.below(2) == 0 {
            text.insert(0, '-');
            coefficient = -coefficient;
        }
        let read = dec_outside(&text);
        assert_eq!((read.mantissa(), read.scale()), (coefficient, places));
    }
}

#[test]
fn large_products_and_zero_divisors_are_refused() {
    assert_eq!(outside(MAX_COEFFICIENT, 0).checked_mul(outside(2, 0)), None);
    assert_eq!(outside(1 << 48, 0).checked_mul(outside(1 << 48, 0)), None);
    assert_eq!(outside(MAX_COEFFICIENT, 0).checked_mul(outside(11, 1)), None);
    assert_eq!(outside(1, 0).checked_div(outside(0, 5)), None);
}

#[test]
fn floors_are_whole_and_below() {
    let mut numbers = Numbers(0x5151_5151_5151_5151);
    for _ in 0..20_000 {
        let n = numbers.wide(96) * if numbers.below(2) == 0 { 1 } else { -1 };
        let places = numbers.below(29);
        let floor = outside(n, places).floor();
        assert_eq!(floor.scale(), 0);
        assert_eq!(floor.mantissa(), n.div_euclid(10i128.pow(places)));
    }
}
