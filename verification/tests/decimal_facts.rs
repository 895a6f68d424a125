use byte_unit::decimal::Decimal;
use rust_decimal::prelude::ToPrimitive;

const MAX: i128 = 79_228_162_514_264_337_593_543_950_335;

struct Numbers(u64);

impl Numbers {
    fn next(&mut self) -> u64 {
        self.0 = self.0.wrapping_mul(6364136223846793005).wrapping_add(1442695040888963407);
        self.0 >> 11
    }

    fn mantissa(&mut self) -> i128 {
        let bits = self.next() % 97;
        let raw = ((self.next() as u128) << 64 | self.next() as u128) & ((1u128 << 96) - 1);
        let m = (if bits == 0 { 0 } else { raw >> (96 - bits) }) as i128;
        match self.next() % 8 {
            0 => 0,
            1 => -m,
            2 => m - m % 10,
            3 => m - m % 1000,
            _ => m,
        }
    }

    fn scale(&mut self) -> u32 {
        match self.next() % 4 {
            0 => 0,
            1 => (self.next() % 4) as u32,
            _ => (self.next() % 29) as u32,
        }
    }

    fn decimal(&mut self) -> (i128, u32) {
        (self.mantissa(), self.scale())
    }
}

fn outside(d: (i128, u32)) -> rust_decimal::Decimal {
    rust_decimal::Decimal::from_i128_with_scale(d.0, d.1)
}

fn pair(d: rust_decimal::Decimal) -> (i128, u32) {
    (d.mantissa(), d.scale())
}

fn pow10(n: u32) -> i128 {
    10i128.pow(n)
}

#[test]
fn products_that_fit_are_exact() {
    let mut numbers = Numbers(1);
    let mut exact = 0;
    let mut none = 0;
    for _ in 0..200000 {
        let a = numbers.decimal();
        let b = numbers.decimal();
        let got = outside(a).checked_mul(outside(b)).map(pair);
        let product = a.0.checked_mul(b.0);
        let fits = matches!(product, Some(p) if -MAX <= p && p <= MAX);
        if a.1 + b.1 <= 28 && fits {
            let p = product.unwrap();
            let expected = if p == 0 { (0, 0) } else { (p, a.1 + b.1) };
            assert_eq!(Some(expected), got, "{a:?} * {b:?}");
            exact += 1;
        } else if a.1 + b.1 == 0 {
            assert_eq!(None, got, "{a:?} * {b:?}");
            none += 1;
        }
    }
    assert!(exact > 1000);
    assert!(none > 1000);
}

#[test]
fn sums_that_fit_are_exact() {
    let mut numbers = Numbers(2);
    let mut exact = 0;
    let mut none = 0;
    for _ in 0..200000 {
        let a = numbers.decimal();
        let b = numbers.decimal();
        let got = outside(a).checked_add(outside(b)).map(pair);
        if a.0 == 0 {
            assert_eq!(Some(b), got, "{a:?} + {b:?}");
        } else if b.0 == 0 {
            assert_eq!(Some(a), got, "{a:?} + {b:?}");
        } else if a.0 > 0 && b.0 > 0 {
            let scale = a.1.max(b.1);
            let aligned = a
                .0
                .checked_mul(pow10(scale - a.1))
                .and_then(|x| b.0.checked_mul(pow10(scale - b.1)).and_then(|y| x.checked_add(y)));
            match aligned {
                Some(sum) if sum <= MAX => {
                    assert_eq!(Some((sum, scale)), got, "{a:?} + {b:?}");
                    exact += 1;
                },
                _ => {
                    if a.1 + b.1 == 0 {
                        assert_eq!(None, got, "{a:?} + {b:?}");
                        none += 1;
                    }
                },
            }
        }
    }
    for _ in 0..10000 {
        let a = MAX - (numbers.next() % 1000) as i128;
        let b = (numbers.next() % 2000) as i128;
        let got = outside((a, 0)).checked_add(outside((b, 0))).map(pair);
        if b == 0 || a + b <= MAX {
            assert_eq!(Some((a + b, 0)), got, "{a} + {b}");
        } else {
            assert_eq!(None, got, "{a} + {b}");
            none += 1;
        }
        let got = outside((b, 0)).checked_add(outside((a, 0))).map(pair);
        assert_eq!(if a + b <= MAX { Some((a + b, 0)) } else { None }, got, "{b} + {a}");
    }
    assert!(exact > 1000);
    assert!(none > 100);
}

#[test]
fn digits_are_added_at_their_places() {
    let mut numbers = Numbers(3);
    for _ in 0..50000 {
        let mut value: (i128, u32) = ((numbers.next() % 1000) as i128, 0);
        let mut exact = value;
        for place in 1..=28u32 {
            let digit = (numbers.next() % 10) as i128;
            let next = match exact.0.checked_mul(10).map(|x| x + digit) {
                Some(x) if x <= MAX => x,
                _ => break,
            };
            exact = (next, place);
            let got = outside(value).checked_add(outside((digit, place))).map(pair).unwrap();
            assert_eq!(outside(exact), outside(got));
            assert!(got.1 <= place);
            if value.0 != 0 && digit != 0 {
                assert_eq!(exact, got);
            }
            value = got;
        }
    }
}

#[test]
fn integer_parts_and_roundings() {
    let mut numbers = Numbers(4);
    for _ in 0..200000 {
        let a = numbers.decimal();
        let p = pow10(a.1);
        let size = a.0.abs();
        let sign = if a.0 < 0 { -1 } else { 1 };

        assert_eq!((sign * (size / p), 0), pair(outside(a).trunc()), "trunc {a:?}");

        let ceiling = -((-a.0).div_euclid(p));
        assert_eq!((ceiling, 0), pair(outside(a).ceil()), "ceil {a:?}");

        let whole = size / p;
        let rest = size % p;
        let up = 2 * rest > p || (2 * rest == p && whole % 2 == 1);
        let nearest = if up { whole + 1 } else { whole };
        assert_eq!((sign * nearest, 0), pair(outside(a).round()), "round {a:?}");

        let expected = if a.0 < 0 { None } else { Some((size / p) as u128) };
        assert_eq!(expected, outside(a).to_u128(), "to_u128 {a:?}");

        let mut normal = a;
        if normal.0 == 0 {
            normal = (0, 0);
        }
        while normal.1 > 0 && normal.0 % 10 == 0 {
            normal = (normal.0 / 10, normal.1 - 1);
        }
        assert_eq!(normal, pair(outside(a).normalize()), "normalize {a:?}");

        let mut text = String::new();
        if a.0 < 0 {
            text.push('-');
        }
        text.push_str(&format!("{}", size / p));
        if a.1 > 0 {
            text.push('.');
            text.push_str(&format!("{:0width$}", size % p, width = a.1 as usize));
        }
        assert_eq!(text, outside(a).to_string(), "text {a:?}");
        let d = Decimal::try_from_i128_with_scale(a.0, a.1).unwrap();
        assert_eq!(text, d.to_string(), "text {a:?}");
    }
}

#[test]
fn equal_decimals_are_the_same_number() {
    let mut numbers = Numbers(5);
    let mut equal = 0;
    for i in 0..200000 {
        let a = numbers.decimal();
        let b = if i % 3 == 0 {
            let extra = (numbers.next() % 5) as u32;
            match a.0.checked_mul(pow10(extra)) {
                Some(m) if m.abs() <= MAX && a.1 + extra <= 28 => (m, a.1 + extra),
                _ => numbers.decimal(),
            }
        } else {
            numbers.decimal()
        };
        let left = a.0.checked_mul(pow10(b.1));
        let right = b.0.checked_mul(pow10(a.1));
        let same = match (left, right) {
            (Some(x), Some(y)) => x == y,
            _ => {
                let scale = a.1.min(b.1);
                let x = a.0.checked_mul(pow10(b.1 - scale));
                let y = b.0.checked_mul(pow10(a.1 - scale));
                matches!((x, y), (Some(x), Some(y)) if x == y)
            },
        };
        assert_eq!(same, outside(a) == outside(b), "{a:?} == {b:?}");
        let x = Decimal::try_from_i128_with_scale(a.0, a.1).unwrap();
        let y = Decimal::try_from_i128_with_scale(b.0, b.1).unwrap();
        assert_eq!(same, x == y, "{a:?} == {b:?}");
        if same {
            equal += 1;
        }
    }
    assert!(equal > 1000);
}
