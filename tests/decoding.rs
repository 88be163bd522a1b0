use pairing_vectors::decimal::{check_literal, LiteralFault};
use pairing_vectors::scalar::Scalar;
use pairing_vectors::tower::{arity_of, decode, FieldElement, ParseFault, RawValue};

fn text(s: &str) -> RawValue {
    RawValue::Text(s.to_string())
}

fn pair(a: &str, b: &str) -> RawValue {
    RawValue::Items(vec![text(a), text(b)])
}

fn fp12(base: u64) -> RawValue {
    let fp6 = |k: u64| {
        RawValue::Items(
            (0..3)
                .map(|i| {
                    let n = base + 6 * k + 2 * i;
                    pair(&n.to_string(), &(n + 1).to_string())
                })
                .collect(),
        )
    };
    RawValue::Items(vec![fp6(0), fp6(1)])
}

fn leaves(e: &FieldElement, out: &mut Vec<String>) {
    match e {
        FieldElement::Leaf(s) => out.push(s.clone()),
        FieldElement::Node(w) => w.iter().for_each(|c| leaves(c, out)),
    }
}

#[test]
fn literals_are_checked() {
    assert_eq!(check_literal("0"), Ok(()));
    assert_eq!(check_literal("1234567890"), Ok(()));
    assert_eq!(check_literal(""), Err(LiteralFault::Empty));
    assert_eq!(check_literal("00"), Err(LiteralFault::LeadingZero));
    assert_eq!(check_literal("012"), Err(LiteralFault::LeadingZero));
    assert_eq!(check_literal("-1"), Err(LiteralFault::NotADigit(0)));
    assert_eq!(check_literal("12 3"), Err(LiteralFault::NotADigit(2)));
    assert_eq!(check_literal("0x1"), Err(LiteralFault::NotADigit(1)));
}

#[test]
fn arities_follow_the_tower() {
    assert_eq!(arity_of(1), 2);
    assert_eq!(arity_of(2), 3);
    assert_eq!(arity_of(3), 2);
}

#[test]
fn a_degree_twelve_element_decodes_in_order() {
    let e = decode(&fp12(100), 3).unwrap();
    let mut got = Vec::new();
    leaves(&e, &mut got);
    let want: Vec<String> = (100..112).map(|n: u64| n.to_string()).collect();
    assert_eq!(got, want);
}

#[test]
fn depth_zero_takes_a_literal_only() {
    assert!(matches!(decode(&text("42"), 0), Ok(FieldElement::Leaf(s)) if s == "42"));
    let err = decode(&pair("1", "2"), 0).unwrap_err();
    assert_eq!(err.fault, ParseFault::ExpectedLiteral);
    assert!(err.path.is_empty());
}

#[test]
fn a_literal_where_a_tuple_belongs_is_refused() {
    let err = decode(&text("7"), 1).unwrap_err();
    assert_eq!(err.fault, ParseFault::ExpectedTuple);
}

#[test]
fn wrong_arity_is_reported_with_counts() {
    let raw = RawValue::Items(vec![pair("1", "2"), pair("3", "4")]);
    let err = decode(&raw, 2).unwrap_err();
    assert_eq!(err.fault, ParseFault::WrongArity { expected: 3, found: 2 });
    assert!(err.path.is_empty());
}

#[test]
fn the_first_fault_in_reading_order_is_reported() {
    let raw = RawValue::Items(vec![pair("1", "2"), pair("3", "x"), pair("y", "6")]);
    let err = decode(&raw, 2).unwrap_err();
    assert_eq!(err.path, vec![1, 1]);
    assert_eq!(err.fault, ParseFault::NotALiteral(LiteralFault::NotADigit(0)));
}

#[test]
fn rendering_then_decoding_gives_the_same_leaves() {
    let e = decode(&fp12(7), 3).unwrap();
    let back = decode(&e.to_raw(3), 3).unwrap();
    let (mut a, mut b) = (Vec::new(), Vec::new());
    leaves(&e, &mut a);
    leaves(&back, &mut b);
    assert_eq!(a, b);
    let leaf = decode(&text("8444461749428370424248824938781546531375899335154063827935233455917409239041"), 0).unwrap();
    assert!(matches!(decode(&leaf.to_raw(0), 0), Ok(FieldElement::Leaf(s)) if s.len() == 76));
}

#[test]
fn decoding_twice_gives_the_same_element() {
    let raw = fp12(1);
    let (mut a, mut b) = (Vec::new(), Vec::new());
    leaves(&decode(&raw, 3).unwrap(), &mut a);
    leaves(&decode(&raw, 3).unwrap(), &mut b);
    assert_eq!(a, b);
}

#[test]
fn scalar_equality_and_zero() {
    let zero = Scalar { le: vec![0u8; 32] };
    let mut one_bytes = vec![0u8; 32];
    one_bytes[0] = 1;
    let one = Scalar { le: one_bytes.clone() };
    let mut high = vec![0u8; 32];
    high[31] = 1;
    let high = Scalar { le: high };
    assert!(zero.is_zero());
    assert!(!one.is_zero());
    assert!(!high.is_zero());
    assert!(one.same(&Scalar { le: one_bytes }));
    assert!(!one.same(&high));
}
