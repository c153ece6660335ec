use cairo_rs::bignum::BigNum;
use cairo_rs::relocatable::Relocatable;
use cairo_rs::utils::{from_relocatable_to_indexes, is_subsequence, to_field_element};
use num_bigint::{BigInt, Sign};

const PRIME: &str = "3618502788666131213697322783095070105623107215331596699973092056135872020481";

fn big(s: &str) -> BigNum {
    let (sign, digits) = BigInt::parse_bytes(s.as_bytes(), 10).unwrap().to_u32_digits();
    BigNum { negative: sign == Sign::Minus, digits }
}

fn int_of(b: &BigNum) -> BigInt {
    BigInt::new(if b.negative { Sign::Minus } else { Sign::Plus }, b.digits.clone())
}

fn normalized(n: &str, p: &str) -> BigInt {
    int_of(&to_field_element(big(n), big(p)))
}

#[test]
fn to_field_element_no_change_a() {
    assert_eq!(normalized("1", PRIME), BigInt::from(1));
}

#[test]
fn to_field_element_no_change_b() {
    let n = "1455766198400600346948407886553099278761386236477570128859274086228078567108";
    assert_eq!(normalized(n, PRIME), BigInt::parse_bytes(n.as_bytes(), 10).unwrap());
}

#[test]
fn to_field_element_num_to_negative_a() {
    assert_eq!(
        normalized(
            "3270867057177188607814717243084834301278723532952411121381966378910183338911",
            PRIME
        ),
        BigInt::parse_bytes(
            b"-347635731488942605882605540010235804344383682379185578591125677225688681570",
            10
        )
        .unwrap()
    );
}

#[test]
fn to_field_element_num_to_negative_b() {
    assert_eq!(
        normalized(
            "3333324623402098338894983297253618187074385014448599840723759915876610845540",
            PRIME
        ),
        BigInt::parse_bytes(
            b"-285178165264032874802339485841451918548722200882996859249332140259261174941",
            10
        )
        .unwrap()
    );
}

#[test]
fn normalize_small_prime_range() {
    // P = 7: representatives lie in -3..=3
    assert_eq!(normalized("4", "7"), BigInt::from(-3));
    assert_eq!(normalized("3", "7"), BigInt::from(3));
    assert_eq!(normalized("10", "7"), BigInt::from(3));
    assert_eq!(normalized("0", "7"), BigInt::from(0));
}

#[test]
fn normalize_negative_input() {
    assert_eq!(normalized("-7", "7"), BigInt::from(0));
    assert_eq!(normalized("-4", "7"), BigInt::from(3));
    assert_eq!(normalized("-10", "7"), BigInt::from(-3));
    assert_eq!(normalized("-1", PRIME), BigInt::from(-1));
}

#[test]
fn normalize_even_modulus_upper_half() {
    // P = 2: representatives are 0 and 1
    assert_eq!(normalized("1", "2"), BigInt::from(1));
    assert_eq!(normalized("-1", "2"), BigInt::from(1));
    assert_eq!(normalized("4", "2"), BigInt::from(0));
}

#[test]
fn subsequence_in_order() {
    assert!(is_subsequence(&[1, 3, 5], &[1, 2, 3, 4, 5]));
    assert!(is_subsequence::<u32>(&[], &[1, 2]));
    assert!(is_subsequence::<u32>(&[], &[]));
}

#[test]
fn subsequence_out_of_order_or_missing() {
    assert!(!is_subsequence(&[3, 1], &[1, 2, 3]));
    assert!(!is_subsequence(&[1, 1], &[1, 2, 3]));
    assert!(!is_subsequence(&[1], &[]));
}

#[test]
fn relocatable_to_indexes() {
    let r = Relocatable { segment_index: 4, offset: 9 };
    assert_eq!(from_relocatable_to_indexes(r), (4, 9));
}
