use vstd::prelude::*;

use crate::decimal::{check_literal, is_literal, literal_fault, literal_value, LiteralFault};

verus! {

/// The deepest level of the tower Fp, Fp2, Fp6, Fp12.
pub const MAX_DEPTH: usize = 3;

/// The characteristic of the base field of BLS12-377, written in 64-bit limbs.
pub open spec fn base_modulus() -> nat {
    let b = crate::scalar::limb_base();
    ((((0x01ae3a4617c510ea * b + 0xc63b05c06ca1493b) * b + 0x1a22d9f300f5138f) * b
        + 0x1ef3622fba094800) * b + 0x170b5d4430000000) * b + 0x8508c00000000001
}

/// How many elements of the level below make one element at `depth`:
/// Fp2 is a pair over Fp, Fp6 a triple over Fp2, Fp12 a pair over Fp6.
pub open spec fn arity(depth: nat) -> nat {
    if depth == 2 {
        3
    } else {
        2
    }
}

/// Untrusted nested text as it comes from a fixture: a string, or a sequence.
#[derive(Debug)]
pub enum RawValue {
    Text(String),
    Items(Vec<RawValue>),
}

/// An element of the tower at some depth: a literal of the base field, or the
/// coefficients over the level below.
#[derive(Debug)]
pub enum FieldElement {
    Leaf(String),
    Node(Vec<FieldElement>),
}

/// What went wrong at one position of nested text.
#[derive(Clone, Copy, Debug, PartialEq, Eq, Structural)]
pub enum ParseFault {
    /// The text is not an integer literal.
    NotALiteral(LiteralFault),
    /// A sequence stands where a literal belongs.
    ExpectedLiteral,
    /// A literal stands where a sequence belongs.
    ExpectedTuple,
    /// A sequence has the wrong number of coefficients for its depth.
    WrongArity { expected: usize, found: usize },
}

/// A fault and where it sits: the indices taken from the outermost sequence
/// down to the faulty value.
#[derive(Debug)]
pub struct ParseError {
    pub path: Vec<usize>,
    pub fault: ParseFault,
}

/// `e` is what `raw` decodes to at `depth`: every leaf is a literal, copied as it
/// stands, and every sequence has the arity of its level.
pub open spec fn decodes_to(raw: RawValue, depth: nat, e: FieldElement) -> bool
    decreases depth, 1nat, 0nat,
{
    if depth == 0 {
        match (raw, e) {
            (RawValue::Text(s), FieldElement::Leaf(t)) => is_literal(s@) && t@ == s@,
            _ => false,
        }
    } else {
        match (raw, e) {
            (RawValue::Items(v), FieldElement::Node(w)) => {
                &&& v@.len() == arity(depth)
                &&& w@.len() == arity(depth)
                &&& all_decode(v@, w@, (depth - 1) as nat, 0)
            },
            _ => false,
        }
    }
}

/// From index `i` on, each item of `v` decodes at `depth` to the item of `w` at
/// the same index.
pub open spec fn all_decode(v: Seq<RawValue>, w: Seq<FieldElement>, depth: nat, i: nat) -> bool
    decreases depth + 1, 0nat, v.len() - i,
{
    if i >= v.len() || i >= w.len() {
        true
    } else {
        decodes_to(v[i as int], depth, w[i as int]) && all_decode(v, w, depth, i + 1)
    }
}

/// The first fault met when decoding `raw` at `depth`, in reading order, with
/// its path; `None` where `raw` decodes.
pub open spec fn first_error(raw: RawValue, depth: nat) -> Option<(Seq<usize>, ParseFault)>
    decreases depth, 1nat, 0nat,
{
    if depth == 0 {
        match raw {
            RawValue::Text(s) => match literal_fault(s@) {
                Some(f) => Some((Seq::empty(), ParseFault::NotALiteral(f))),
                None => None,
            },
            RawValue::Items(_) => Some((Seq::empty(), ParseFault::ExpectedLiteral)),
        }
    } else {
        match raw {
            RawValue::Text(_) => Some((Seq::empty(), ParseFault::ExpectedTuple)),
            RawValue::Items(v) => if v@.len() != arity(depth) {
                Some(
                    (
                        Seq::empty(),
                        ParseFault::WrongArity {
                            expected: arity(depth) as usize,
                            found: v@.len() as usize,
                        },
                    ),
                )
            } else {
                first_item_error(v@, (depth - 1) as nat, 0)
            },
        }
    }
}

/// The first fault among the items of `v` from index `i` on, each decoded at
/// `depth`, with the item's index put in front of its path.
pub open spec fn first_item_error(v: Seq<RawValue>, depth: nat, i: nat) -> Option<
    (Seq<usize>, ParseFault),
>
    decreases depth + 1, 0nat, v.len() - i,
{
    if i >= v.len() {
        None
    } else {
        match first_error(v[i as int], depth) {
            Some(inner) => Some((seq![i as usize] + inner.0, inner.1)),
            None => first_item_error(v, depth, i + 1),
        }
    }
}

/// Every leaf of `a` equals the leaf of `b` at the same place, as elements of
/// the base field.
pub open spec fn field_equal(a: FieldElement, b: FieldElement, depth: nat) -> bool
    decreases depth, 1nat, 0nat,
{
    if depth == 0 {
        match (a, b) {
            (FieldElement::Leaf(s), FieldElement::Leaf(t)) => literal_value(s@) % base_modulus()
                == literal_value(t@) % base_modulus(),
            _ => false,
        }
    } else {
        match (a, b) {
            (FieldElement::Node(v), FieldElement::Node(w)) => {
                &&& v@.len() == w@.len()
                &&& all_equal(v@, w@, (depth - 1) as nat, 0)
            },
            _ => false,
        }
    }
}

/// From index `i` on, the items of `v` and `w` are field-equal at `depth`.
pub open spec fn all_equal(v: Seq<FieldElement>, w: Seq<FieldElement>, depth: nat, i: nat) -> bool
    decreases depth + 1, 0nat, v.len() - i,
{
    if i >= v.len() || i >= w.len() {
        true
    } else {
        field_equal(v[i as int], w[i as int], depth) && all_equal(v, w, depth, i + 1)
    }
}

/// Item-wise decoding from index `i` on follows from decoding at each index.
proof fn lemma_all_decode(v: Seq<RawValue>, w: Seq<FieldElement>, depth: nat, i: nat)
    requires
        forall|j: int| i <= j < v.len() && j < w.len() ==> #[trigger] decodes_to(v[j], depth, w[j]),
    ensures
        all_decode(v, w, depth, i),
    decreases v.len() - i,
{
    if i < v.len() && i < w.len() {
        assert(decodes_to(v[i as int], depth, w[i as int]));
        lemma_all_decode(v, w, depth, i + 1);
    }
}

/// The arity of a tower level.
pub fn arity_of(depth: usize) -> (r: usize)
    ensures
        r == arity(depth as nat),
{
    if depth == 2 {
        3
    } else {
        2
    }
}

/// Decodes nested text into an element of the tower at `depth`, or reports the
/// first fault in reading order with its position.
pub fn decode(raw: &RawValue, depth: usize) -> (r: Result<FieldElement, ParseError>)
    requires
        depth <= MAX_DEPTH,
    ensures
        r is Ok <==> first_error(*raw, depth as nat) is None,
        r matches Ok(e) ==> decodes_to(*raw, depth as nat, e),
        r matches Err(err) ==> first_error(*raw, depth as nat) == Some((err.path@, err.fault)),
    decreases depth, 0nat,
{
    if depth == 0 {
        match raw {
            RawValue::Text(s) => match check_literal(s.as_str()) {
                Ok(()) => Ok(FieldElement::Leaf(s.clone())),
                Err(f) => Err(ParseError { path: Vec::new(), fault: ParseFault::NotALiteral(f) }),
            },
            RawValue::Items(_) => Err(ParseError { path: Vec::new(), fault: ParseFault::ExpectedLiteral }),
        }
    } else {
        match raw {
            RawValue::Text(_) => Err(ParseError { path: Vec::new(), fault: ParseFault::ExpectedTuple }),
            RawValue::Items(v) => {
                let n = arity_of(depth);
                if v.len() != n {
                    return Err(
                        ParseError {
                            path: Vec::new(),
                            fault: ParseFault::WrongArity { expected: n, found: v.len() },
                        },
                    );
                }
                match decode_items(v, depth - 1) {
                    Ok(out) => Ok(FieldElement::Node(out)),
                    Err(e) => Err(e),
                }
            },
        }
    }
}

/// Decodes each item of `v` at `depth`, in order, stopping at the first fault;
/// the fault's path starts with the index of its item.
pub fn decode_items(v: &Vec<RawValue>, depth: usize) -> (r: Result<Vec<FieldElement>, ParseError>)
    requires
        depth < MAX_DEPTH,
    ensures
        r is Ok <==> first_item_error(v@, depth as nat, 0) is None,
        r matches Ok(out) ==> out@.len() == v@.len() && all_decode(v@, out@, depth as nat, 0)
            && forall|j: int|
            0 <= j < v@.len() ==> #[trigger] decodes_to(v@[j], depth as nat, out@[j]),
        r matches Err(err) ==> first_item_error(v@, depth as nat, 0) == Some(
            (err.path@, err.fault),
        ),
    decreases depth, 1nat,
{
    let mut out: Vec<FieldElement> = Vec::new();
    let mut i: usize = 0;
    while i < v.len()
        invariant
            depth < MAX_DEPTH,
            i <= v@.len(),
            out@.len() == i,
            first_item_error(v@, depth as nat, 0) == first_item_error(v@, depth as nat, i as nat),
            forall|j: int| 0 <= j < i ==> #[trigger] decodes_to(v@[j], depth as nat, out@[j]),
        decreases v@.len() - i,
    {
        match decode(&v[i], depth) {
            Ok(e) => {
                out.push(e);
            },
            Err(err) => {
                let mut path = err.path;
                path.insert(0, i);
                proof {
                    assert(path@ =~= seq![i] + err.path@);
                    assert(first_item_error(v@, depth as nat, i as nat) == Some((path@, err.fault)));
                }
                return Err(ParseError { path, fault: err.fault });
            },
        }
        i = i + 1;
    }
    proof {
        lemma_all_decode(v@, out@, depth as nat, 0);
    }
    Ok(out)
}

/// The text of a leaf.
pub fn leaf_text(e: &FieldElement) -> (s: String)
    requires
        e is Leaf,
    ensures
        *e == FieldElement::Leaf(s),
{
    match e {
        FieldElement::Leaf(s) => s.clone(),
        FieldElement::Node(_) => unreached(),
    }
}

/// `e` has the shape of its depth and every leaf is a literal.
pub open spec fn wf_element(e: FieldElement, depth: nat) -> bool
    decreases depth, 1nat, 0nat,
{
    if depth == 0 {
        e matches FieldElement::Leaf(s) && is_literal(s@)
    } else {
        e matches FieldElement::Node(w) && w@.len() == arity(depth) && all_wf(
            w@,
            (depth - 1) as nat,
            0,
        )
    }
}

/// From index `i` on, every item of `w` is well formed at `depth`.
pub open spec fn all_wf(w: Seq<FieldElement>, depth: nat, i: nat) -> bool
    decreases depth + 1, 0nat, w.len() - i,
{
    if i >= w.len() {
        true
    } else {
        wf_element(w[i as int], depth) && all_wf(w, depth, i + 1)
    }
}

proof fn lemma_all_wf_at(w: Seq<FieldElement>, depth: nat, i: nat, j: int)
    requires
        all_wf(w, depth, i),
        i <= j < w.len(),
    ensures
        wf_element(w[j], depth),
    decreases j - i,
{
    if j > i {
        lemma_all_wf_at(w, depth, i + 1, j);
    }
}

impl FieldElement {
    /// The element written back as nested text: each leaf as its literal.
    pub fn to_raw(&self, depth: usize) -> (r: RawValue)
        requires
            depth <= MAX_DEPTH,
            wf_element(*self, depth as nat),
        ensures
            decodes_to(r, depth as nat, *self),
        decreases depth,
    {
        match self {
            FieldElement::Leaf(s) => RawValue::Text(s.clone()),
            FieldElement::Node(w) => {
                let mut items: Vec<RawValue> = Vec::new();
                let mut i: usize = 0;
                while i < w.len()
                    invariant
                        *self == FieldElement::Node(*w),
                        1 <= depth <= MAX_DEPTH,
                        wf_element(*self, depth as nat),
                        i <= w@.len(),
                        items@.len() == i,
                        forall|j: int|
                            0 <= j < i ==> #[trigger] decodes_to(
                                items@[j],
                                (depth - 1) as nat,
                                w@[j],
                            ),
                    decreases w@.len() - i,
                {
                    proof {
                        lemma_all_wf_at(w@, (depth - 1) as nat, 0, i as int);
                    }
                    items.push(w[i].to_raw(depth - 1));
                    i = i + 1;
                }
                proof {
                    lemma_all_decode(items@, w@, (depth - 1) as nat, 0);
                }
                RawValue::Items(items)
            },
        }
    }
}

/// Text that decodes to an element has no fault.
proof fn lemma_decodes_without_error(raw: RawValue, depth: nat, e: FieldElement)
    requires
        decodes_to(raw, depth, e),
    ensures
        first_error(raw, depth) is None,
    decreases depth, 1nat, 0nat,
{
    if depth > 0 {
        match (raw, e) {
            (RawValue::Items(v), FieldElement::Node(w)) => {
                lemma_items_without_error(v@, w@, (depth - 1) as nat, 0);
            },
            _ => {},
        }
    }
}

proof fn lemma_items_without_error(v: Seq<RawValue>, w: Seq<FieldElement>, depth: nat, i: nat)
    requires
        v.len() == w.len(),
        all_decode(v, w, depth, i),
    ensures
        first_item_error(v, depth, i) is None,
    decreases depth + 1, 0nat, v.len() - i,
{
    if i < v.len() {
        lemma_decodes_without_error(v[i as int], depth, w[i as int]);
        lemma_items_without_error(v, w, depth, i + 1);
    }
}

/// Two elements that one text decodes to are field-equal.
pub proof fn lemma_decode_deterministic(raw: RawValue, depth: nat, e1: FieldElement, e2: FieldElement)
    requires
        decodes_to(raw, depth, e1),
        decodes_to(raw, depth, e2),
    ensures
        field_equal(e1, e2, depth),
    decreases depth, 1nat, 0nat,
{
    if depth > 0 {
        match (raw, e1, e2) {
            (RawValue::Items(v), FieldElement::Node(w1), FieldElement::Node(w2)) => {
                lemma_items_deterministic(v@, w1@, w2@, (depth - 1) as nat, 0);
            },
            _ => {},
        }
    }
}

proof fn lemma_items_deterministic(
    v: Seq<RawValue>,
    w1: Seq<FieldElement>,
    w2: Seq<FieldElement>,
    depth: nat,
    i: nat,
)
    requires
        v.len() == w1.len() == w2.len(),
        all_decode(v, w1, depth, i),
        all_decode(v, w2, depth, i),
    ensures
        all_equal(w1, w2, depth, i),
    decreases depth + 1, 0nat, v.len() - i,
{
    if i < v.len() {
        lemma_decode_deterministic(v[i as int], depth, w1[i as int], w2[i as int]);
        lemma_items_deterministic(v, w1, w2, depth, i + 1);
    }
}

/// The text of an element decodes without fault, and whatever it decodes to
/// is field-equal to the element.
pub proof fn lemma_round_trip(e: FieldElement, raw: RawValue, depth: nat, back: FieldElement)
    requires
        decodes_to(raw, depth, e),
        decodes_to(raw, depth, back),
    ensures
        first_error(raw, depth) is None,
        field_equal(e, back, depth),
{
    lemma_decodes_without_error(raw, depth, e);
    lemma_decode_deterministic(raw, depth, e, back);
}

} // verus!
