use ark_bls12_377::{Fq, Fq2, Fr, G1Projective, G2Projective};
use ark_ec::Group;
use ark_ff::{Field, PrimeField};
use pairing_vectors::fixture::{decode_fixture, FixtureError, RawFixture, Section};
use pairing_vectors::identities::{check_fixture, verify, Operand, VerifyError, Violation};
use pairing_vectors::tower::{ParseFault, RawValue};

fn text(s: &str) -> RawValue {
    RawValue::Text(s.to_string())
}

fn fr_text(x: Fr) -> String {
    x.into_bigint().to_string()
}

fn fq_text(x: Fq) -> String {
    x.into_bigint().to_string()
}

fn fq2_raw(x: Fq2) -> RawValue {
    RawValue::Items(vec![text(&fq_text(x.c0)), text(&fq_text(x.c1))])
}

fn g1_raw(p: G1Projective) -> RawValue {
    RawValue::Items(vec![text(&fq_text(p.x)), text(&fq_text(p.y)), text(&fq_text(p.z))])
}

fn g2_raw(p: G2Projective) -> RawValue {
    RawValue::Items(vec![fq2_raw(p.x), fq2_raw(p.y), fq2_raw(p.z)])
}

fn gt_raw() -> RawValue {
    let pair = |a: &str, b: &str| RawValue::Items(vec![text(a), text(b)]);
    let fp6 = || RawValue::Items(vec![pair("1", "0"), pair("0", "0"), pair("0", "0")]);
    RawValue::Items(vec![fp6(), fp6()])
}

/// Scalars in fixture order vkx, vky, vkz, a1, b1, c1, a2, b2, c2, with c1
/// and c2 chosen so that both relations hold.
fn consistent_scalars() -> [Fr; 9] {
    let (vkx, vky, vkz) = (Fr::from(3u64), Fr::from(5u64), Fr::from(7u64));
    let (a1, b1, a2, b2) = (Fr::from(11u64), Fr::from(13u64), Fr::from(17u64), Fr::from(19u64));
    let inv = vkz.inverse().unwrap();
    let c1 = (a1 * b1 - vkx * vky) * inv;
    let c2 = (a2 * b2 - vkx * vky) * inv;
    [vkx, vky, vkz, a1, b1, c1, a2, b2, c2]
}

/// A fixture whose points are the generator multiples of `points`, and whose
/// scalar entries are `scalars`.
fn fixture_from(scalars: [Fr; 9], points: [Fr; 9]) -> RawFixture {
    let [vkx, vky, vkz, a1, b1, c1, a2, b2, c2] = points;
    let g1 = |s: Fr| g1_raw(G1Projective::generator() * s);
    let g2 = |s: Fr| g2_raw(G2Projective::generator() * s);
    RawFixture {
        fr: scalars.iter().map(|s| text(&fr_text(*s))).collect(),
        g1: vec![g1(a1), g1(c1), g1(a2), g1(c2), g1(vkx)],
        g2: vec![g2(b1), g2(b2), g2(vky), g2(vkz)],
        gt: vec![gt_raw()],
    }
}

fn consistent_fixture() -> RawFixture {
    fixture_from(consistent_scalars(), consistent_scalars())
}

#[test]
fn consistent_fixture_verifies() {
    assert!(matches!(check_fixture(&consistent_fixture()), Ok(())));
}

#[test]
fn decoded_vector_verifies_and_keeps_positions() {
    let raw = consistent_fixture();
    let tv = decode_fixture(&raw).unwrap();
    let s = consistent_scalars();
    assert_eq!(tv.fr.vkx, fr_text(s[0]));
    assert_eq!(tv.fr.c1, fr_text(s[5]));
    assert_eq!(tv.fr.c2, fr_text(s[8]));
    let vkx_point = G1Projective::generator() * s[0];
    assert_eq!(tv.g1.vkx.x, fq_text(vkx_point.x));
    let vkz_point = G2Projective::generator() * s[2];
    assert_eq!(tv.g2.vkz.z.c1, fq_text(vkz_point.z.c1));
    assert!(matches!(verify(&tv), Ok(())));
}

#[test]
fn decoding_twice_gives_equal_vectors() {
    let raw = consistent_fixture();
    let t1 = decode_fixture(&raw).unwrap();
    let t2 = decode_fixture(&raw).unwrap();
    assert_eq!(t1.fr.a1, t2.fr.a1);
    assert_eq!(t1.g1.c2.y, t2.g1.c2.y);
    assert_eq!(t1.g2.b2.x.c0, t2.g2.b2.x.c0);
    assert_eq!(format!("{:?}", t1), format!("{:?}", t2));
}

#[test]
fn perturbed_c1_fails_the_scalar_check() {
    let mut scalars = consistent_scalars();
    scalars[5] += Fr::from(1u64);
    let raw = fixture_from(scalars, consistent_scalars());
    assert!(matches!(
        check_fixture(&raw),
        Err(VerifyError::IdentityViolation(Violation::Scalar(Operand::C1)))
    ));
}

#[test]
fn perturbed_c2_fails_the_scalar_check() {
    let mut scalars = consistent_scalars();
    scalars[8] += Fr::from(1u64);
    let raw = fixture_from(scalars, scalars);
    assert!(matches!(
        check_fixture(&raw),
        Err(VerifyError::IdentityViolation(Violation::Scalar(Operand::C2)))
    ));
}

#[test]
fn doubled_a1_point_fails_the_correspondence_check() {
    let mut raw = consistent_fixture();
    let a1 = consistent_scalars()[3];
    raw.g1[0] = g1_raw(G1Projective::generator() * a1 * Fr::from(2u64));
    assert!(matches!(
        check_fixture(&raw),
        Err(VerifyError::IdentityViolation(Violation::Correspondence(Operand::A1)))
    ));
}

#[test]
fn wrong_vkz_point_fails_the_correspondence_check() {
    let mut raw = consistent_fixture();
    raw.g2[3] = g2_raw(G2Projective::generator() * Fr::from(8u64));
    assert!(matches!(
        check_fixture(&raw),
        Err(VerifyError::IdentityViolation(Violation::Correspondence(Operand::Vkz)))
    ));
}

#[test]
fn zero_vkz_is_not_invertible() {
    let mut scalars = consistent_scalars();
    scalars[2] = Fr::from(0u64);
    let raw = fixture_from(scalars, scalars);
    assert!(matches!(check_fixture(&raw), Err(VerifyError::NotInvertible)));
}

#[test]
fn vkz_equal_to_the_modulus_is_not_invertible() {
    let mut raw = consistent_fixture();
    raw.fr[2] = text(&Fr::MODULUS.to_string());
    assert!(matches!(check_fixture(&raw), Err(VerifyError::NotInvertible)));
}

#[test]
fn g2_entry_with_two_coordinates_is_a_schema_error() {
    let mut raw = consistent_fixture();
    if let RawValue::Items(coords) = &mut raw.g2[1] {
        coords.pop();
    }
    assert!(matches!(
        check_fixture(&raw),
        Err(VerifyError::Fixture(FixtureError::PointShape { section: Section::G2, entry: 1, found: 2 }))
    ));
}

#[test]
fn short_sequences_are_schema_errors() {
    let mut raw = consistent_fixture();
    raw.fr.pop();
    assert!(matches!(
        decode_fixture(&raw),
        Err(FixtureError::MissingEntries { section: Section::Fr, expected: 9, found: 8 })
    ));
    let mut raw = consistent_fixture();
    raw.g1.truncate(4);
    assert!(matches!(
        decode_fixture(&raw),
        Err(FixtureError::MissingEntries { section: Section::G1, expected: 5, found: 4 })
    ));
    let mut raw = consistent_fixture();
    raw.g2.clear();
    assert!(matches!(
        decode_fixture(&raw),
        Err(FixtureError::MissingEntries { section: Section::G2, expected: 4, found: 0 })
    ));
    let mut raw = consistent_fixture();
    raw.gt.clear();
    assert!(matches!(
        decode_fixture(&raw),
        Err(FixtureError::MissingEntries { section: Section::Gt, expected: 1, found: 0 })
    ));
}

#[test]
fn text_in_place_of_a_point_is_a_schema_error() {
    let mut raw = consistent_fixture();
    raw.g1[3] = text("5");
    assert!(matches!(
        decode_fixture(&raw),
        Err(FixtureError::PointShape { section: Section::G1, entry: 3, found: 0 })
    ));
}

#[test]
fn schema_errors_come_before_parse_errors() {
    let mut raw = consistent_fixture();
    raw.fr[0] = text("x");
    raw.g2[2] = RawValue::Items(vec![]);
    assert!(matches!(
        decode_fixture(&raw),
        Err(FixtureError::PointShape { section: Section::G2, entry: 2, found: 0 })
    ));
}

#[test]
fn malformed_scalar_is_a_parse_error() {
    let mut raw = consistent_fixture();
    raw.fr[4] = text("12a4");
    match decode_fixture(&raw) {
        Err(FixtureError::Parse { section: Section::Fr, entry: 4, error }) => {
            assert!(error.path.is_empty());
            assert_eq!(error.fault, ParseFault::NotALiteral(pairing_vectors::decimal::LiteralFault::NotADigit(2)));
        }
        other => panic!("unexpected {:?}", other),
    }
}

#[test]
fn malformed_g2_coordinate_reports_its_path() {
    let mut raw = consistent_fixture();
    if let RawValue::Items(coords) = &mut raw.g2[3] {
        coords[2] = RawValue::Items(vec![text("1"), text("2"), text("3")]);
    }
    match decode_fixture(&raw) {
        Err(FixtureError::Parse { section: Section::G2, entry: 3, error }) => {
            assert_eq!(error.path, vec![2]);
            assert_eq!(error.fault, ParseFault::WrongArity { expected: 2, found: 3 });
        }
        other => panic!("unexpected {:?}", other),
    }
}

#[test]
fn malformed_gt_leaf_reports_its_path() {
    let mut raw = consistent_fixture();
    if let RawValue::Items(halves) = &mut raw.gt[0] {
        if let RawValue::Items(fp2s) = &mut halves[1] {
            fp2s[2] = RawValue::Items(vec![text("4"), text("01")]);
        }
    }
    match decode_fixture(&raw) {
        Err(FixtureError::Parse { section: Section::Gt, entry: 0, error }) => {
            assert_eq!(error.path, vec![1, 2, 1]);
            assert_eq!(error.fault, ParseFault::NotALiteral(pairing_vectors::decimal::LiteralFault::LeadingZero));
        }
        other => panic!("unexpected {:?}", other),
    }
}

#[test]
fn extra_entries_are_ignored() {
    let mut raw = consistent_fixture();
    raw.fr.push(text("not read"));
    raw.gt.push(text("not read either"));
    assert!(matches!(check_fixture(&raw), Ok(())));
}

#[test]
fn the_first_short_section_is_reported() {
    let mut raw = consistent_fixture();
    raw.g2.pop();
    raw.fr.truncate(2);
    assert!(matches!(
        decode_fixture(&raw),
        Err(FixtureError::MissingEntries { section: Section::Fr, expected: 9, found: 2 })
    ));
}

#[test]
fn the_first_misshapen_point_is_reported() {
    let mut raw = consistent_fixture();
    raw.g2[0] = RawValue::Items(vec![text("1")]);
    raw.g1[4] = RawValue::Items(vec![text("1"), text("2"), text("3"), text("4")]);
    assert!(matches!(
        decode_fixture(&raw),
        Err(FixtureError::PointShape { section: Section::G1, entry: 4, found: 4 })
    ));
}

#[test]
fn the_first_malformed_entry_is_reported() {
    let mut raw = consistent_fixture();
    raw.gt[0] = text("1");
    if let RawValue::Items(coords) = &mut raw.g1[2] {
        coords[1] = text("");
    }
    raw.fr[7] = text("+5");
    match decode_fixture(&raw) {
        Err(FixtureError::Parse { section: Section::Fr, entry: 7, error }) => {
            assert_eq!(error.fault, ParseFault::NotALiteral(pairing_vectors::decimal::LiteralFault::NotADigit(0)));
        }
        other => panic!("unexpected {:?}", other),
    }
    raw.fr[7] = text("5");
    match decode_fixture(&raw) {
        Err(FixtureError::Parse { section: Section::G1, entry: 2, error }) => {
            assert_eq!(error.path, vec![1]);
            assert_eq!(error.fault, ParseFault::NotALiteral(pairing_vectors::decimal::LiteralFault::Empty));
        }
        other => panic!("unexpected {:?}", other),
    }
}
