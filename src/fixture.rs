use vstd::prelude::*;

use crate::decimal::{is_literal, literal_value};
use crate::scalar::scalar_modulus;
use crate::tower::{
    base_modulus, decode, decode_items, decodes_to, field_equal, first_error, first_item_error,
    leaf_text, lemma_decode_deterministic, FieldElement, ParseError, RawValue,
};

verus! {

/// The four sequences of a fixture.
#[derive(Clone, Copy, Debug, PartialEq, Eq, Structural)]
pub enum Section {
    Fr,
    G1,
    G2,
    Gt,
}

/// How many entries of each sequence the positional mapping reads.
pub open spec fn required(section: Section) -> nat {
    match section {
        Section::Fr => 9,
        Section::G1 => 5,
        Section::G2 => 4,
        Section::Gt => 1,
    }
}

/// A fixture before decoding: scalar literals, G1 and G2 points as sequences of
/// three coordinates, and elements of the target group.
#[derive(Debug)]
pub struct RawFixture {
    pub fr: Vec<RawValue>,
    pub g1: Vec<RawValue>,
    pub g2: Vec<RawValue>,
    pub gt: Vec<RawValue>,
}

/// An element of Fp2 as two literals of the base field.
#[derive(Debug)]
pub struct Fp2Literal {
    pub c0: String,
    pub c1: String,
}

/// A point of G1 in projective coordinates over the base field.
#[derive(Debug)]
pub struct G1Point {
    pub x: String,
    pub y: String,
    pub z: String,
}

/// A point of G2 in projective coordinates over Fp2.
#[derive(Debug)]
pub struct G2Point {
    pub x: Fp2Literal,
    pub y: Fp2Literal,
    pub z: Fp2Literal,
}

/// The nine scalars of a fixture, by name.
#[derive(Debug)]
pub struct Scalars {
    pub vkx: String,
    pub vky: String,
    pub vkz: String,
    pub a1: String,
    pub b1: String,
    pub c1: String,
    pub a2: String,
    pub b2: String,
    pub c2: String,
}

/// The five G1 points of a fixture, by name.
#[derive(Debug)]
pub struct G1Points {
    pub a1: G1Point,
    pub c1: G1Point,
    pub a2: G1Point,
    pub c2: G1Point,
    pub vkx: G1Point,
}

/// The four G2 points of a fixture, by name.
#[derive(Debug)]
pub struct G2Points {
    pub b1: G2Point,
    pub b2: G2Point,
    pub vky: G2Point,
    pub vkz: G2Point,
}

/// One decoded fixture.
#[derive(Debug)]
pub struct TestVector {
    pub fr: Scalars,
    pub g1: G1Points,
    pub g2: G2Points,
    /// The first element of the target group; later ones are not read.
    pub gt: FieldElement,
}

/// Why a fixture cannot be read.
#[derive(Debug)]
pub enum FixtureError {
    /// A sequence holds fewer entries than the mapping reads.
    MissingEntries { section: Section, expected: usize, found: usize },
    /// A point entry does not hold three coordinates (a text counts as none).
    PointShape { section: Section, entry: usize, found: usize },
    /// A literal or a tuple inside an entry is malformed; for a point the path
    /// starts with the coordinate's index.
    Parse { section: Section, entry: usize, error: ParseError },
}

impl FixtureError {
    /// Whether the fixture breaks the schema, rather than a literal or a tuple.
    pub open spec fn is_schema(&self) -> bool {
        !(self is Parse)
    }
}

/// The entries of one sequence.
pub open spec fn entries(raw: RawFixture, section: Section) -> Seq<RawValue> {
    match section {
        Section::Fr => raw.fr@,
        Section::G1 => raw.g1@,
        Section::G2 => raw.g2@,
        Section::Gt => raw.gt@,
    }
}

/// The coordinates of a point entry; none for a text.
pub open spec fn coordinates(raw: RawValue) -> Seq<RawValue> {
    match raw {
        RawValue::Items(v) => v@,
        RawValue::Text(_) => Seq::empty(),
    }
}

/// Every sequence is long enough for the mapping.
pub open spec fn counts_ok(raw: RawFixture) -> bool {
    forall|s: Section| #[trigger] entries(raw, s).len() >= required(s)
}

/// Every sequence is long enough, and every point that is read has three
/// coordinates.
pub open spec fn schema_ok(raw: RawFixture) -> bool {
    &&& counts_ok(raw)
    &&& forall|i: int| 0 <= i < 5 ==> #[trigger] coordinates(raw.g1@[i]).len() == 3
    &&& forall|i: int| 0 <= i < 4 ==> #[trigger] coordinates(raw.g2@[i]).len() == 3
}

/// The first fault inside entry `i` of a section, as the tower decoder finds it:
/// a scalar at depth 0, the coordinates of a G1 point at depth 0 and of a G2
/// point at depth 1, a target-group element at depth 3.
pub open spec fn entry_error(raw: RawFixture, section: Section, i: int) -> Option<
    (Seq<usize>, crate::tower::ParseFault),
> {
    match section {
        Section::Fr => first_error(raw.fr@[i], 0),
        Section::G1 => first_item_error(coordinates(raw.g1@[i]), 0, 0),
        Section::G2 => first_item_error(coordinates(raw.g2@[i]), 1, 0),
        Section::Gt => first_error(raw.gt@[i], 3),
    }
}

/// The position of a section in reading order.
pub open spec fn rank(s: Section) -> nat {
    match s {
        Section::Fr => 0,
        Section::G1 => 1,
        Section::G2 => 2,
        Section::Gt => 3,
    }
}

/// Entry `i` of section `s` is read before entry `j` of section `t`.
pub open spec fn comes_before(s: Section, i: int, t: Section, j: int) -> bool {
    rank(s) < rank(t) || (s == t && i < j)
}

/// Entry `i` of a point section has three coordinates; other sections have no
/// shape to check.
pub open spec fn shape_ok_at(raw: RawFixture, s: Section, i: int) -> bool {
    (s == Section::G1 || s == Section::G2) ==> coordinates(entries(raw, s)[i]).len() == 3
}

/// No entry that the mapping reads holds a malformed literal or tuple.
pub open spec fn parses_ok(raw: RawFixture) -> bool {
    forall|s: Section, i: int| 0 <= i < required(s) ==> #[trigger] entry_error(raw, s, i) is None
}

/// `raw` is the text `s` and that text is a literal.
pub open spec fn text_literal(raw: RawValue, s: String) -> bool {
    raw matches RawValue::Text(t) && is_literal(t@) && t@ == s@
}

/// `raw` is the pair of literals of `f`.
pub open spec fn fp2_literal(raw: RawValue, f: Fp2Literal) -> bool {
    raw matches RawValue::Items(v) && v@.len() == 2 && text_literal(v@[0], f.c0) && text_literal(
        v@[1],
        f.c1,
    )
}

/// `raw` holds the coordinates of `p`.
pub open spec fn g1_point_of(raw: RawValue, p: G1Point) -> bool {
    let c = coordinates(raw);
    &&& c.len() == 3
    &&& text_literal(c[0], p.x)
    &&& text_literal(c[1], p.y)
    &&& text_literal(c[2], p.z)
}

/// `raw` holds the coordinates of `p`.
pub open spec fn g2_point_of(raw: RawValue, p: G2Point) -> bool {
    let c = coordinates(raw);
    &&& c.len() == 3
    &&& fp2_literal(c[0], p.x)
    &&& fp2_literal(c[1], p.y)
    &&& fp2_literal(c[2], p.z)
}

/// `tv` is what `raw` holds under the positional mapping: scalars in the order
/// vkx, vky, vkz, a1, b1, c1, a2, b2, c2; G1 points a1, c1, a2, c2, vkx; G2
/// points b1, b2, vky, vkz; the first target-group element.
pub open spec fn decoded_from(raw: RawFixture, tv: TestVector) -> bool {
    &&& text_literal(raw.fr@[0], tv.fr.vkx)
    &&& text_literal(raw.fr@[1], tv.fr.vky)
    &&& text_literal(raw.fr@[2], tv.fr.vkz)
    &&& text_literal(raw.fr@[3], tv.fr.a1)
    &&& text_literal(raw.fr@[4], tv.fr.b1)
    &&& text_literal(raw.fr@[5], tv.fr.c1)
    &&& text_literal(raw.fr@[6], tv.fr.a2)
    &&& text_literal(raw.fr@[7], tv.fr.b2)
    &&& text_literal(raw.fr@[8], tv.fr.c2)
    &&& g1_point_of(raw.g1@[0], tv.g1.a1)
    &&& g1_point_of(raw.g1@[1], tv.g1.c1)
    &&& g1_point_of(raw.g1@[2], tv.g1.a2)
    &&& g1_point_of(raw.g1@[3], tv.g1.c2)
    &&& g1_point_of(raw.g1@[4], tv.g1.vkx)
    &&& g2_point_of(raw.g2@[0], tv.g2.b1)
    &&& g2_point_of(raw.g2@[1], tv.g2.b2)
    &&& g2_point_of(raw.g2@[2], tv.g2.vky)
    &&& g2_point_of(raw.g2@[3], tv.g2.vkz)
    &&& decodes_to(raw.gt@[0], 3, tv.gt)
}

/// Two literals denote the same residue modulo `m`.
pub open spec fn same_residue(s: String, t: String, m: nat) -> bool {
    literal_value(s@) % m == literal_value(t@) % m
}

/// Two G1 points have field-equal coordinates.
pub open spec fn same_g1(p: G1Point, q: G1Point) -> bool {
    let m = base_modulus();
    same_residue(p.x, q.x, m) && same_residue(p.y, q.y, m) && same_residue(p.z, q.z, m)
}

/// Two elements of Fp2 are field-equal.
pub open spec fn same_fp2(f: Fp2Literal, g: Fp2Literal) -> bool {
    same_residue(f.c0, g.c0, base_modulus()) && same_residue(f.c1, g.c1, base_modulus())
}

/// Two G2 points have field-equal coordinates.
pub open spec fn same_g2(p: G2Point, q: G2Point) -> bool {
    same_fp2(p.x, q.x) && same_fp2(p.y, q.y) && same_fp2(p.z, q.z)
}

/// Two test vectors agree, name by name, as field elements.
pub open spec fn field_equal_vectors(t1: TestVector, t2: TestVector) -> bool {
    let (f, g, r) = (t1.fr, t2.fr, scalar_modulus());
    &&& same_residue(f.vkx, g.vkx, r) && same_residue(f.vky, g.vky, r)
    &&& same_residue(f.vkz, g.vkz, r) && same_residue(f.a1, g.a1, r)
    &&& same_residue(f.b1, g.b1, r) && same_residue(f.c1, g.c1, r)
    &&& same_residue(f.a2, g.a2, r) && same_residue(f.b2, g.b2, r)
    &&& same_residue(f.c2, g.c2, r)
    &&& same_g1(t1.g1.a1, t2.g1.a1) && same_g1(t1.g1.c1, t2.g1.c1)
    &&& same_g1(t1.g1.a2, t2.g1.a2) && same_g1(t1.g1.c2, t2.g1.c2)
    &&& same_g1(t1.g1.vkx, t2.g1.vkx)
    &&& same_g2(t1.g2.b1, t2.g2.b1) && same_g2(t1.g2.b2, t2.g2.b2)
    &&& same_g2(t1.g2.vky, t2.g2.vky) && same_g2(t1.g2.vkz, t2.g2.vkz)
    &&& field_equal(t1.gt, t2.gt, 3)
}

/// Decoding is deterministic: any two test vectors decoded from one fixture
/// are field-equal, name by name.
pub proof fn lemma_fixture_deterministic(raw: RawFixture, t1: TestVector, t2: TestVector)
    requires
        decoded_from(raw, t1),
        decoded_from(raw, t2),
    ensures
        field_equal_vectors(t1, t2),
{
    lemma_decode_deterministic(raw.gt@[0], 3, t1.gt, t2.gt);
}

/// The number of coordinates of a point entry.
fn coordinate_count(raw: &RawValue) -> (r: usize)
    ensures
        r == coordinates(*raw).len(),
{
    match raw {
        RawValue::Items(v) => v.len(),
        RawValue::Text(_) => 0,
    }
}

/// The coordinates of a point entry that has three.
fn coordinate_items(raw: &RawValue) -> (r: &Vec<RawValue>)
    requires
        coordinates(*raw).len() == 3,
    ensures
        r@ == coordinates(*raw),
{
    match raw {
        RawValue::Items(v) => v,
        RawValue::Text(_) => unreached(),
    }
}

/// The two literals of a decoded element of Fp2.
fn fp2_of(Ghost(raw): Ghost<RawValue>, e: &FieldElement) -> (r: Fp2Literal)
    requires
        decodes_to(raw, 1, *e),
    ensures
        fp2_literal(raw, r),
{
    match e {
        FieldElement::Node(w) => {
            proof {
                let v = coordinates(raw);
                assert(crate::tower::all_decode(v, w@, 0, 0));
                assert(crate::tower::all_decode(v, w@, 0, 1));
                assert(decodes_to(v[0], 0, w@[0]));
                assert(decodes_to(v[1], 0, w@[1]));
            }
            Fp2Literal { c0: leaf_text(&w[0]), c1: leaf_text(&w[1]) }
        },
        FieldElement::Leaf(_) => unreached(),
    }
}

/// Decodes a scalar entry.
fn scalar_at(raw: &RawValue) -> (r: Result<String, ParseError>)
    ensures
        r is Ok <==> first_error(*raw, 0) is None,
        r matches Ok(s) ==> text_literal(*raw, s),
        r matches Err(err) ==> first_error(*raw, 0) == Some((err.path@, err.fault)),
{
    match decode(raw, 0) {
        Ok(e) => Ok(leaf_text(&e)),
        Err(err) => Err(err),
    }
}

/// Decodes a G1 point entry with three coordinates.
fn g1_point_at(raw: &RawValue) -> (r: Result<G1Point, ParseError>)
    requires
        coordinates(*raw).len() == 3,
    ensures
        r is Ok <==> first_item_error(coordinates(*raw), 0, 0) is None,
        r matches Ok(p) ==> g1_point_of(*raw, p),
        r matches Err(err) ==> first_item_error(coordinates(*raw), 0, 0) == Some(
            (err.path@, err.fault),
        ),
{
    let c = decode_items(coordinate_items(raw), 0)?;
    proof {
        let v = coordinates(*raw);
        assert(decodes_to(v[0], 0, c@[0]));
        assert(decodes_to(v[1], 0, c@[1]));
        assert(decodes_to(v[2], 0, c@[2]));
    }
    Ok(G1Point { x: leaf_text(&c[0]), y: leaf_text(&c[1]), z: leaf_text(&c[2]) })
}

/// Decodes a G2 point entry with three coordinates.
fn g2_point_at(raw: &RawValue) -> (r: Result<G2Point, ParseError>)
    requires
        coordinates(*raw).len() == 3,
    ensures
        r is Ok <==> first_item_error(coordinates(*raw), 1, 0) is None,
        r matches Ok(p) ==> g2_point_of(*raw, p),
        r matches Err(err) ==> first_item_error(coordinates(*raw), 1, 0) == Some(
            (err.path@, err.fault),
        ),
{
    let c = decode_items(coordinate_items(raw), 1)?;
    let ghost v = coordinates(*raw);
    proof {
        assert(decodes_to(v[0], 1, c@[0]));
        assert(decodes_to(v[1], 1, c@[1]));
        assert(decodes_to(v[2], 1, c@[2]));
    }
    Ok(
        G2Point {
            x: fp2_of(Ghost(v[0]), &c[0]),
            y: fp2_of(Ghost(v[1]), &c[1]),
            z: fp2_of(Ghost(v[2]), &c[2]),
        },
    )
}

/// Decodes scalar entry `i`.
fn scalar_entry(raw: &RawFixture, i: usize) -> (r: Result<String, FixtureError>)
    requires
        i < 9 <= raw.fr@.len(),
    ensures
        r is Ok <==> entry_error(*raw, Section::Fr, i as int) is None,
        r matches Ok(s) ==> text_literal(raw.fr@[i as int], s),
        r matches Err(e) ==> e matches FixtureError::Parse { section, entry, error } && section
            == Section::Fr && entry == i && entry_error(*raw, Section::Fr, i as int) == Some(
            (error.path@, error.fault),
        ),
{
    match scalar_at(&raw.fr[i]) {
        Ok(s) => Ok(s),
        Err(error) => Err(FixtureError::Parse { section: Section::Fr, entry: i, error }),
    }
}

/// Decodes G1 point entry `i`, whose shape has been checked.
fn g1_entry(raw: &RawFixture, i: usize) -> (r: Result<G1Point, FixtureError>)
    requires
        i < 5 <= raw.g1@.len(),
        coordinates(raw.g1@[i as int]).len() == 3,
    ensures
        r is Ok <==> entry_error(*raw, Section::G1, i as int) is None,
        r matches Ok(p) ==> g1_point_of(raw.g1@[i as int], p),
        r matches Err(e) ==> e matches FixtureError::Parse { section, entry, error } && section
            == Section::G1 && entry == i && entry_error(*raw, Section::G1, i as int) == Some(
            (error.path@, error.fault),
        ),
{
    match g1_point_at(&raw.g1[i]) {
        Ok(p) => Ok(p),
        Err(error) => Err(FixtureError::Parse { section: Section::G1, entry: i, error }),
    }
}

/// Decodes G2 point entry `i`, whose shape has been checked.
fn g2_entry(raw: &RawFixture, i: usize) -> (r: Result<G2Point, FixtureError>)
    requires
        i < 4 <= raw.g2@.len(),
        coordinates(raw.g2@[i as int]).len() == 3,
    ensures
        r is Ok <==> entry_error(*raw, Section::G2, i as int) is None,
        r matches Ok(p) ==> g2_point_of(raw.g2@[i as int], p),
        r matches Err(e) ==> e matches FixtureError::Parse { section, entry, error } && section
            == Section::G2 && entry == i && entry_error(*raw, Section::G2, i as int) == Some(
            (error.path@, error.fault),
        ),
{
    match g2_point_at(&raw.g2[i]) {
        Ok(p) => Ok(p),
        Err(error) => Err(FixtureError::Parse { section: Section::G2, entry: i, error }),
    }
}

/// Assembles the named test vector from a raw fixture by the positional
/// mapping. Schema faults (a short sequence, a point without three
/// coordinates) are reported before any literal is read; then the first
/// malformed entry in the order scalars, G1, G2, target group.
pub fn decode_fixture(raw: &RawFixture) -> (r: Result<TestVector, FixtureError>)
    ensures
        (r matches Err(e) && e.is_schema()) <==> !schema_ok(*raw),
        (r matches Err(e) && e is MissingEntries) <==> !counts_ok(*raw),
        r is Ok <==> schema_ok(*raw) && parses_ok(*raw),
        r matches Ok(tv) ==> decoded_from(*raw, tv),
        r matches Err(FixtureError::MissingEntries { section, expected, found }) ==> expected
            == required(section) && found == entries(*raw, section).len() && found < expected,
        r matches Err(FixtureError::PointShape { section, entry, found }) ==> ((section
            == Section::G1 && entry < 5) || (section == Section::G2 && entry < 4)) && found
            == coordinates(entries(*raw, section)[entry as int]).len() && found != 3,
        r matches Err(FixtureError::Parse { section, entry, error }) ==> entry < required(section)
            && entry_error(*raw, section, entry as int) == Some((error.path@, error.fault)),
        r matches Err(FixtureError::MissingEntries { section, expected, found }) ==> forall|
            s: Section,
        | rank(s) < rank(section) ==> #[trigger] entries(*raw, s).len() >= required(s),
        r matches Err(FixtureError::PointShape { section, entry, found }) ==> counts_ok(*raw)
            && forall|s: Section, i: int|
            0 <= i < required(s) && comes_before(s, i, section, entry as int) ==> #[trigger] shape_ok_at(
                *raw,
                s,
                i,
            ),
        r matches Err(FixtureError::Parse { section, entry, error }) ==> forall|s: Section, i: int|
            0 <= i < required(s) && comes_before(s, i, section, entry as int) ==> #[trigger] entry_error(
                *raw,
                s,
                i,
            ) is None,
{
    if raw.fr.len() < 9 {
        assert(entries(*raw, Section::Fr).len() < required(Section::Fr));
        return Err(
            FixtureError::MissingEntries { section: Section::Fr, expected: 9, found: raw.fr.len() },
        );
    }
    if raw.g1.len() < 5 {
        assert(entries(*raw, Section::G1).len() < required(Section::G1));
        return Err(
            FixtureError::MissingEntries { section: Section::G1, expected: 5, found: raw.g1.len() },
        );
    }
    if raw.g2.len() < 4 {
        assert(entries(*raw, Section::G2).len() < required(Section::G2));
        return Err(
            FixtureError::MissingEntries { section: Section::G2, expected: 4, found: raw.g2.len() },
        );
    }
    if raw.gt.len() < 1 {
        assert(entries(*raw, Section::Gt).len() < required(Section::Gt));
        return Err(
            FixtureError::MissingEntries { section: Section::Gt, expected: 1, found: raw.gt.len() },
        );
    }
    assert forall|s: Section| #[trigger] entries(*raw, s).len() >= required(s) by {}
    assert(counts_ok(*raw));
    let mut i: usize = 0;
    while i < 5
        invariant
            counts_ok(*raw),
            raw.g1@.len() >= 5,
            i <= 5,
            forall|j: int| 0 <= j < i ==> #[trigger] coordinates(raw.g1@[j]).len() == 3,
        decreases 5 - i,
    {
        let n = coordinate_count(&raw.g1[i]);
        if n != 3 {
            return Err(FixtureError::PointShape { section: Section::G1, entry: i, found: n });
        }
        i = i + 1;
    }
    let mut i: usize = 0;
    while i < 4
        invariant
            counts_ok(*raw),
            raw.g2@.len() >= 4,
            i <= 4,
            forall|j: int| 0 <= j < 5 ==> #[trigger] coordinates(raw.g1@[j]).len() == 3,
            forall|j: int| 0 <= j < i ==> #[trigger] coordinates(raw.g2@[j]).len() == 3,
        decreases 4 - i,
    {
        let n = coordinate_count(&raw.g2[i]);
        if n != 3 {
            return Err(FixtureError::PointShape { section: Section::G2, entry: i, found: n });
        }
        i = i + 1;
    }
    let mut frs: Vec<String> = Vec::new();
    let mut i: usize = 0;
    while i < 9
        invariant
            schema_ok(*raw),
            raw.fr@.len() >= 9,
            i <= 9,
            frs@.len() == i,
            forall|j: int| 0 <= j < i ==> text_literal(raw.fr@[j], #[trigger] frs@[j]),
            forall|j: int| 0 <= j < i ==> #[trigger] entry_error(*raw, Section::Fr, j) is None,
        decreases 9 - i,
    {
        frs.push(scalar_entry(raw, i)?);
        i = i + 1;
    }
    let mut g1s: Vec<G1Point> = Vec::new();
    let mut i: usize = 0;
    while i < 5
        invariant
            schema_ok(*raw),
            raw.g1@.len() >= 5,
            i <= 5,
            g1s@.len() == i,
            forall|j: int| 0 <= j < 9 ==> #[trigger] entry_error(*raw, Section::Fr, j) is None,
            forall|j: int| 0 <= j < i ==> g1_point_of(raw.g1@[j], #[trigger] g1s@[j]),
            forall|j: int| 0 <= j < i ==> #[trigger] entry_error(*raw, Section::G1, j) is None,
        decreases 5 - i,
    {
        g1s.push(g1_entry(raw, i)?);
        i = i + 1;
    }
    let mut g2s: Vec<G2Point> = Vec::new();
    let mut i: usize = 0;
    while i < 4
        invariant
            schema_ok(*raw),
            raw.g2@.len() >= 4,
            i <= 4,
            g2s@.len() == i,
            forall|j: int| 0 <= j < 9 ==> #[trigger] entry_error(*raw, Section::Fr, j) is None,
            forall|j: int| 0 <= j < 5 ==> #[trigger] entry_error(*raw, Section::G1, j) is None,
            forall|j: int| 0 <= j < i ==> g2_point_of(raw.g2@[j], #[trigger] g2s@[j]),
            forall|j: int| 0 <= j < i ==> #[trigger] entry_error(*raw, Section::G2, j) is None,
        decreases 4 - i,
    {
        g2s.push(g2_entry(raw, i)?);
        i = i + 1;
    }
    let gt = match decode(&raw.gt[0], 3) {
        Ok(e) => e,
        Err(error) => {
            return Err(FixtureError::Parse { section: Section::Gt, entry: 0, error });
        },
    };
    let ghost (fv, g1v, g2v) = (frs@, g1s@, g2s@);
    let c2 = take_last(&mut frs);
    let b2 = take_last(&mut frs);
    let a2 = take_last(&mut frs);
    let c1 = take_last(&mut frs);
    let b1 = take_last(&mut frs);
    let a1 = take_last(&mut frs);
    let vkz = take_last(&mut frs);
    let vky = take_last(&mut frs);
    let vkx = take_last(&mut frs);
    let fr = Scalars { vkx, vky, vkz, a1, b1, c1, a2, b2, c2 };
    let g1_vkx = take_last(&mut g1s);
    let g1_c2 = take_last(&mut g1s);
    let g1_a2 = take_last(&mut g1s);
    let g1_c1 = take_last(&mut g1s);
    let g1_a1 = take_last(&mut g1s);
    let g1 = G1Points { a1: g1_a1, c1: g1_c1, a2: g1_a2, c2: g1_c2, vkx: g1_vkx };
    let g2_vkz = take_last(&mut g2s);
    let g2_vky = take_last(&mut g2s);
    let g2_b2 = take_last(&mut g2s);
    let g2_b1 = take_last(&mut g2s);
    let g2 = G2Points { b1: g2_b1, b2: g2_b2, vky: g2_vky, vkz: g2_vkz };
    proof {
        assert(fr.vkx == fv[0] && fr.vky == fv[1] && fr.vkz == fv[2] && fr.a1 == fv[3]);
        assert(fr.b1 == fv[4] && fr.c1 == fv[5] && fr.a2 == fv[6] && fr.b2 == fv[7]);
        assert(fr.c2 == fv[8]);
        assert(g1.a1 == g1v[0] && g1.c1 == g1v[1] && g1.a2 == g1v[2] && g1.c2 == g1v[3]);
        assert(g1.vkx == g1v[4]);
        assert(g2.b1 == g2v[0] && g2.b2 == g2v[1] && g2.vky == g2v[2] && g2.vkz == g2v[3]);
        assert forall|s: Section, k: int| 0 <= k < required(s) implies #[trigger] entry_error(
            *raw,
            s,
            k,
        ) is None by {
            if s == Section::Gt {
                assert(k == 0);
            }
        }
    }
    Ok(TestVector { fr, g1, g2, gt })
}

/// Removes and returns the last item.
fn take_last<T>(v: &mut Vec<T>) -> (r: T)
    requires
        old(v)@.len() > 0,
    ensures
        r == old(v)@.last(),
        final(v)@ == old(v)@.drop_last(),
{
    match v.pop() {
        Some(x) => x,
        None => unreached(),
    }
}

} // verus!
