use algebra::complexification::Complex;
use algebra::f_p::{is_prime, solve_equation, MOD};
use algebra::identities::{Identity, Zero};
use algebra::integer::Integer;
use algebra::inverse::Inverse;
use algebra::matrix::Matrix;
use algebra::modint::ModInt;
use algebra::polynomial::Polynomial;
use algebra::quadratic_extension::QuadExt;
use algebra::quadratic_field::QuadField;
use algebra::quadratic_integer::QuadInt;
use algebra::rational_number::RationalNumber;
use algebra::text::Textual;

fn ints(v: &[i64]) -> Vec<Integer> {
    v.iter().map(|&x| Integer::new(x)).collect()
}

fn int_matrix(rows: &[&[i64]]) -> Matrix<Integer> {
    let mut m = Matrix::<Integer>::new(rows.len(), rows[0].len());
    for (i, row) in rows.iter().enumerate() {
        for (j, &x) in row.iter().enumerate() {
            m.change_entry(i, j, Integer::new(x));
        }
    }
    m
}

fn matrix_values(m: &Matrix<Integer>) -> Vec<Vec<i64>> {
    (0..m.rows())
        .map(|i| (0..m.columns()).map(|j| m.entry(i, j).to_int()).collect())
        .collect()
}

#[test]
fn integer_arithmetic_wraps() {
    assert_eq!(Integer::new(i64::MAX) + Integer::new(1), Integer::new(i64::MIN));
    assert_eq!(Integer::new(i64::MIN) - Integer::new(1), Integer::new(i64::MAX));
    assert_eq!(Integer::new(6) * Integer::new(-7), Integer::new(-42));
    let mut x = Integer::new(5);
    x += Integer::new(2);
    x *= Integer::new(3);
    x -= Integer::new(1);
    assert_eq!(x.to_int(), 20);
}

#[test]
fn integer_text() {
    assert_eq!(Integer::new(42).to_string(), "42");
    assert_eq!(Integer::new(-5).to_string(), "(-5)");
    assert_eq!(Integer::new(0).to_string(), "0");
}

#[test]
fn integer_units() {
    assert_eq!(Integer::new(1).inverse(), Some(Integer::new(1)));
    assert_eq!(Integer::new(0).inverse(), None);
    assert_eq!(Integer::new(-2).inverse(), None);
}

#[test]
fn modint_reduces_on_construction() {
    assert_eq!(ModInt::<7>::new(20).to_int(), 6);
    assert_eq!(ModInt::<7>::new(7).to_int(), 0);
    assert_eq!(ModInt::<1>::new(5).to_int(), 0);
    assert!(ModInt::<{ u64::MAX }>::new(u64::MAX).to_int() < u64::MAX);
}

#[test]
fn modint_arithmetic() {
    assert_eq!(ModInt::<7>::new(5) + ModInt::<7>::new(4), ModInt::<7>::new(2));
    assert_eq!(ModInt::<7>::new(3) - ModInt::<7>::new(5), ModInt::<7>::new(5));
    assert_eq!(ModInt::<7>::new(3) * ModInt::<7>::new(5), ModInt::<7>::new(1));
    let mut x = ModInt::<7>::new(6);
    x += ModInt::<7>::new(6);
    assert_eq!(x.to_int(), 5);
    x -= ModInt::<7>::new(6);
    assert_eq!(x.to_int(), 6);
    x *= ModInt::<7>::new(6);
    assert_eq!(x.to_int(), 1);
}

#[test]
fn modint_product_near_the_limit() {
    let a = ModInt::<{ u64::MAX }>::new(u64::MAX - 1);
    assert_eq!((a * a).to_int(), 1);
    assert_eq!((a + a).to_int(), u64::MAX - 2);
}

#[test]
fn modint_power() {
    assert_eq!(ModInt::<13>::new(2).modpow(10).to_int(), 10);
    assert_eq!(ModInt::<13>::new(5).modpow(0).to_int(), 1);
    assert_eq!(ModInt::<1>::new(5).modpow(0).to_int(), 0);
    assert_eq!(ModInt::<1_000_000_007>::new(3).modpow(1_000_000_006).to_int(), 1);
}

#[test]
fn modint_inverse_times_value_is_one() {
    for a in 1..13u64 {
        let x = ModInt::<13>::new(a);
        assert_eq!(x.inverse().unwrap() * x, ModInt::<13>::identity());
    }
    assert_eq!(ModInt::<13>::new(0).inverse(), None);
    assert_eq!(ModInt::<12>::new(4).inverse(), None);
}

#[test]
fn rational_canonical_forms() {
    assert_eq!(RationalNumber::new(5, 0).to_string(), "(1) / (0)");
    assert_eq!(RationalNumber::new(0, 7).to_string(), "(0) / (1)");
    assert_eq!(RationalNumber::new(-10, 30).to_string(), "(-1) / (3)");
    assert_eq!(RationalNumber::new(12, 18).to_string(), "(2) / (3)");
    assert_eq!(RationalNumber::new(i64::MIN, 2).to_string(), "(-4611686018427387904) / (1)");
}

#[test]
fn rational_scaling_keeps_value() {
    for k in 1..6i64 {
        assert_eq!(RationalNumber::new(6, 4), RationalNumber::new(k * 6, (k as u64) * 4));
        assert_eq!(RationalNumber::new(-7, 21), RationalNumber::new(k * -7, (k as u64) * 21));
    }
}

#[test]
fn rational_inverse_and_negation() {
    assert_eq!(RationalNumber::new(-2, 3).inverse(), Some(RationalNumber::new(-3, 2)));
    assert_eq!(RationalNumber::new(4, 6).inverse(), Some(RationalNumber::new(3, 2)));
    assert_eq!(RationalNumber::new(0, 5).inverse(), None);
    assert_eq!(RationalNumber::new(5, 0).inverse(), Some(RationalNumber::new(0, 1)));
    assert_eq!(RationalNumber::new(-1, 1u64 << 63).inverse(), Some(RationalNumber::new(i64::MIN, 1)));
    assert_eq!(-RationalNumber::new(1, 2), RationalNumber::new(-1, 2));
    let mut x = RationalNumber::new(1, 2);
    x += RationalNumber::new(1, 3);
    assert_eq!(x, RationalNumber::new(5, 6));
    x -= RationalNumber::new(1, 6);
    assert_eq!(x, RationalNumber::new(2, 3));
    x *= RationalNumber::new(3, 4);
    assert_eq!(x, RationalNumber::new(1, 2));
}

#[test]
fn zero_is_neutral_and_absorbing() {
    let i = Integer::new(-17);
    assert_eq!(i + Integer::zero(), i);
    assert_eq!(i * Integer::zero(), Integer::zero());
    let m = ModInt::<11>::new(9);
    assert_eq!(m + ModInt::<11>::zero(), m);
    assert_eq!(m * ModInt::<11>::zero(), ModInt::<11>::zero());
    let r = RationalNumber::new(-3, 7);
    assert_eq!(r + RationalNumber::zero(), r);
    assert_eq!(r * RationalNumber::zero(), RationalNumber::zero());
    let q = QuadInt::<0, 0>::new(3, -4);
    assert_eq!(q + QuadInt::zero(), q);
    assert_eq!(q * QuadInt::zero(), QuadInt::zero());
    // 1 + i in Z[i]
    let g = QuadInt::<0, { u64::MAX }>::new(1, 1);
    assert_eq!(g + QuadInt::zero(), g);
    assert_eq!(g * QuadInt::zero(), QuadInt::zero());
    assert_eq!(g * QuadInt::identity(), g);
    // 1/2 + 1/3 x in Q(sqrt 2)
    let f = QuadField::<0, 2>::new(RationalNumber::new(1, 2), RationalNumber::new(1, 3));
    assert_eq!(f + QuadField::zero(), f);
    assert_eq!(f * QuadField::zero(), QuadField::zero());
    assert_eq!(f * QuadField::identity(), f);
    let c = Complex::new(Integer::new(2), Integer::new(-3));
    assert_eq!(c + Complex::zero(), c);
    assert_eq!(c * Complex::zero(), Complex::zero());
}

#[test]
fn quadratic_extension_operands_of_different_rings_give_zero() {
    let a = QuadExt::new(Integer::new(1), Integer::new(2), Integer::new(0), Integer::new(-1));
    let b = QuadExt::new(Integer::new(1), Integer::new(2), Integer::new(1), Integer::new(-1));
    let z = QuadExt::new(Integer::new(0), Integer::new(0), Integer::new(0), Integer::new(0));
    assert_eq!(a * b, z);
    assert_eq!(a + b, z);
    let r = QuadExt::new(
        RationalNumber::new(1, 2),
        RationalNumber::new(1, 3),
        RationalNumber::zero(),
        RationalNumber::new(2, 1),
    );
    let r2 = QuadExt::new(
        RationalNumber::new(1, 4),
        RationalNumber::new(1, 3),
        RationalNumber::zero(),
        RationalNumber::new(2, 1),
    );
    // (1/2 + 1/3 x)^2 with x^2 = 2: 1/4 + 2/9 + 1/3 x
    let sq = QuadExt::new(
        RationalNumber::new(17, 36),
        RationalNumber::new(1, 3),
        RationalNumber::zero(),
        RationalNumber::new(2, 1),
    );
    assert_eq!(r * r, sq);
    assert_eq!(r - r2, QuadExt::new(
        RationalNumber::new(1, 4),
        RationalNumber::zero(),
        RationalNumber::zero(),
        RationalNumber::new(2, 1),
    ));
}

#[test]
fn quadratic_integer_with_b() {
    // x^2 = x + 1: (2 + 3x)(1 + x) = 2 + 5x + 3x^2 = 5 + 8x
    let x = QuadInt::<1, 1>::new(2, 3);
    let y = QuadInt::<1, 1>::new(1, 1);
    assert_eq!(x * y, QuadInt::<1, 1>::new(5, 8));
    assert_eq!(x - y, QuadInt::<1, 1>::new(1, 2));
    assert_eq!(-x, QuadInt::<1, 1>::new(-2, -3));
    // x^2 = -2x - 3: x * x = -3 - 2x
    let z = QuadInt::<{ (-2i64) as u64 }, { (-3i64) as u64 }>::new(0, 1);
    assert_eq!(z * z, QuadInt::new(-3, -2));
}

#[test]
fn quadratic_texts() {
    let f = QuadField::<0, 2>::new(RationalNumber::new(1, 2), RationalNumber::new(-1, 3));
    assert_eq!(f.to_string(), "[((1) / (2)) + ((-1) / (3))x]");
    let e = QuadExt::new(
        ModInt::<11>::new(3),
        ModInt::<11>::new(6),
        ModInt::<11>::new(0),
        ModInt::<11>::new(10),
    );
    assert_eq!(e.to_string(), "[(3 mod 11) + (6 mod 11)x]");
    assert_eq!(QuadInt::<0, { u64::MAX }>::new(-1, 2).to_string(), "[-1 + 2x]");
}

#[test]
fn quadratic_field_sqrt2_square() {
    // (1 + x)^2 = 3 + 2x in Q(sqrt 2)
    let a = QuadField::<0, 2>::new(RationalNumber::new(1, 1), RationalNumber::new(1, 1));
    let b = QuadField::<0, 2>::new(RationalNumber::new(3, 1), RationalNumber::new(2, 1));
    assert_eq!(a * a, b);
    assert_eq!(a - a, QuadField::zero());
    // b = -1, c = 1, so x^2 = -x + 1
    let x = QuadField::<{ u64::MAX }, 1>::new(RationalNumber::zero(), RationalNumber::identity());
    assert_eq!(x * x, QuadField::new(RationalNumber::new(1, 1), RationalNumber::new(-1, 1)));
}

#[test]
fn complex_arithmetic() {
    let a = Complex::new(Integer::new(1), Integer::new(2));
    let b = Complex::new(Integer::new(3), Integer::new(4));
    assert_eq!(a * b, Complex::new(Integer::new(-5), Integer::new(10)));
    assert_eq!(a + b, Complex::new(Integer::new(4), Integer::new(6)));
    assert_eq!(a - b, Complex::new(Integer::new(-2), Integer::new(-2)));
    let r = Complex::new(RationalNumber::new(1, 2), RationalNumber::new(-1, 3));
    assert_eq!(-r, Complex::new(RationalNumber::new(-1, 2), RationalNumber::new(1, 3)));
    assert_eq!(a * Complex::identity(), a);
    assert_eq!(a.to_string(), "[(1) + (2)i]");
}

#[test]
fn polynomial_text_edge_cases() {
    assert_eq!(Polynomial::new(&ints(&[0, 0])).to_string(), "0");
    assert_eq!(Polynomial::new(&ints(&[])).to_string(), "0");
    assert_eq!(Polynomial::new(&ints(&[1, 1, 1])).to_string(), "1 + x + x^2");
    assert_eq!(Polynomial::new(&ints(&[0, -3, -3])).to_string(), "(-3)x + (-3)x^2");
}

#[test]
fn polynomial_equality_ignores_trailing_zeros() {
    assert_eq!(Polynomial::new(&ints(&[1, 2])), Polynomial::new(&ints(&[1, 2, 0, 0])));
    assert_ne!(Polynomial::new(&ints(&[1, 2])), Polynomial::new(&ints(&[1, 3])));
    assert_ne!(Polynomial::new(&ints(&[1, 2])), Polynomial::new(&ints(&[1, 2, 0, 1])));
    assert_eq!(Polynomial::new(&ints(&[])), Polynomial::new(&ints(&[0])));
}

#[test]
fn polynomial_evaluate_and_derivative() {
    let f = Polynomial::new(&ints(&[1, 2, 3]));
    assert_eq!(f.evaluate(Integer::new(2)), Integer::new(17));
    let g = Polynomial::new(&ints(&[2, 2, 3, -1]));
    assert_eq!(g.derivative(), Polynomial::new(&ints(&[2, 6, -3, 0])));
    assert_eq!(g.derivative().coefficients().len(), 3);
    let mut v = vec![ModInt::<7>::new(1)];
    v.extend((0..6).map(|_| ModInt::<7>::new(0)));
    v.push(ModInt::<7>::new(1));
    let h = Polynomial::new(&v);
    assert_eq!(h.derivative(), Polynomial::new(&vec![ModInt::<7>::new(0)]));
    assert_eq!(Polynomial::new(&ints(&[5])).derivative().coefficients().len(), 0);
}

#[test]
fn polynomial_product_with_empty() {
    let p = Polynomial::new(&ints(&[])) * Polynomial::new(&ints(&[1, 2]));
    assert_eq!(p.coefficients().len(), 0);
    let q = Polynomial::new(&ints(&[1, 1])) * Polynomial::new(&ints(&[1, 1]));
    assert_eq!(q.coefficients(), &ints(&[1, 2, 1]));
}

#[test]
fn roots_over_f103() {
    let f = Polynomial::new(&vec![
        ModInt::<MOD>::new(4),
        ModInt::<MOD>::new(95),
        ModInt::<MOD>::new(3),
        ModInt::<MOD>::new(1),
    ]);
    let roots: Vec<u64> = solve_equation(f).iter().map(|x| x.to_int()).collect();
    assert_eq!(roots, vec![1, 25, 74]);
    let g = Polynomial::new(&vec![ModInt::<MOD>::new(102), ModInt::<MOD>::new(0), ModInt::<MOD>::new(1)]);
    let roots: Vec<u64> = solve_equation(g).iter().map(|x| x.to_int()).collect();
    assert_eq!(roots, vec![1, 102]);
}

#[test]
fn small_primes() {
    let primes: Vec<u64> = (0..30).filter(|&n| is_prime(n)).collect();
    assert_eq!(primes, vec![2, 3, 5, 7, 11, 13, 17, 19, 23, 29]);
    assert!(is_prime(4_294_967_291));
    assert!(!is_prime(4_294_967_297));
}

#[test]
fn matrix_construction_and_updates() {
    let mut m = Matrix::<Integer>::new(2, 3);
    assert_eq!(matrix_values(&m), vec![vec![0, 0, 0], vec![0, 0, 0]]);
    m.change_entry(1, 2, Integer::new(5));
    m.add_to_entry(1, 2, Integer::new(4));
    m.add_to_entry(0, 0, Integer::new(-1));
    assert_eq!(matrix_values(&m), vec![vec![-1, 0, 0], vec![0, 0, 9]]);
    let id = Matrix::new_id(Integer::new(0), Integer::new(1), 3);
    assert_eq!(matrix_values(&id), vec![vec![1, 0, 0], vec![0, 1, 0], vec![0, 0, 1]]);
}

#[test]
fn matrix_product() {
    let a = int_matrix(&[&[1, 2, 3], &[4, 5, 6]]);
    let b = int_matrix(&[&[7, 8], &[9, 10], &[11, 12]]);
    let c = Matrix::mul(&a, &b, Integer::new(0));
    assert_eq!(matrix_values(&c), vec![vec![58, 64], vec![139, 154]]);
    let mut d = a.clone();
    d.mul_ch(&b, Integer::new(0));
    assert_eq!(matrix_values(&d), vec![vec![58, 64], vec![139, 154]]);
    assert_eq!(d.columns(), 2);
}

#[test]
fn matrix_incompatible_product_is_empty() {
    let a = int_matrix(&[&[1, 2, 3], &[4, 5, 6]]);
    let c = Matrix::mul(&a, &a, Integer::new(0));
    assert_eq!(c.rows(), 0);
    assert_eq!(c.columns(), 0);
    let mut d = a.clone();
    d.mul_ch(&a, Integer::new(0));
    assert_eq!(matrix_values(&d), matrix_values(&a));
    let p = Matrix::mat_pow(&a, 3, Integer::new(0), Integer::new(1));
    assert_eq!((p.rows(), p.columns()), (0, 0));
}

#[test]
fn matrix_power() {
    let fib = int_matrix(&[&[1, 1], &[1, 0]]);
    let p = Matrix::mat_pow(&fib, 10, Integer::new(0), Integer::new(1));
    assert_eq!(matrix_values(&p), vec![vec![89, 55], vec![55, 34]]);
    let z = Matrix::mat_pow(&fib, 0, Integer::new(0), Integer::new(1));
    assert_eq!(matrix_values(&z), vec![vec![1, 0], vec![0, 1]]);
    let a = int_matrix(&[&[2, -1, 0], &[1, 3, 1], &[0, 1, -2]]);
    let a_cubed = Matrix::mat_pow(&a, 3, Integer::new(0), Integer::new(1));
    let a_fourth = Matrix::mat_pow(&a, 4, Integer::new(0), Integer::new(1));
    let a_seventh = Matrix::mat_pow(&a, 7, Integer::new(0), Integer::new(1));
    assert_eq!(matrix_values(&Matrix::mul(&a_cubed, &a_fourth, Integer::new(0))), matrix_values(&a_seventh));
}
