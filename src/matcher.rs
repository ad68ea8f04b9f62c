//! Extraction types and the sequence matcher.
//!
//! A route is a sequence of [`Pattern`]s. Matching it against a sequence of
//! path segments succeeds only when both have the same length and every
//! segment satisfies the pattern at its position; the result then holds one
//! typed [`Value`] per position.
use vstd::prelude::*;

verus! {

/// The numeric value of a string of decimal digits.
pub open spec fn digits_value(s: Seq<char>) -> nat
    decreases s.len(),
{
    if s.len() == 0 {
        0
    } else {
        digits_value(s.drop_last()) * 10 + (s.last() as nat - '0' as nat) as nat
    }
}

pub open spec fn is_digit(c: char) -> bool {
    '0' <= c && c <= '9'
}

pub open spec fn all_digits(s: Seq<char>) -> bool {
    forall|i: int| 0 <= i < s.len() ==> is_digit(#[trigger] s[i])
}

/// The unsigned 32-bit number that `s` spells in base 10: `s` must be a
/// non-empty run of ASCII digits whose value fits in 32 bits.
pub open spec fn spec_parse_u32(s: Seq<char>) -> Option<u32> {
    if s.len() > 0 && all_digits(s) && digits_value(s) <= u32::MAX {
        Some(digits_value(s) as u32)
    } else {
        None
    }
}

/// Conversion of a path segment into a typed value.
pub trait Extract<'p>: Sized {
    spec fn spec_from_str(s: &'p str) -> Option<Self>;

    fn from_str(s: &'p str) -> (r: Option<Self>)
        ensures
            r == Self::spec_from_str(s),
    ;
}

impl<'p> Extract<'p> for &'p str {
    open spec fn spec_from_str(s: &'p str) -> Option<&'p str> {
        Some(s)
    }

    fn from_str(s: &'p str) -> (r: Option<&'p str>) {
        Some(s)
    }
}

const U32_CAP: u64 = 4294967296;

proof fn lemma_step_capped(v: nat, d: nat)
    requires
        d < 10,
    ensures
        (if v < U32_CAP { v } else { U32_CAP as nat }) * 10 + d >= U32_CAP <==> v * 10 + d >= U32_CAP,
{
    if v >= U32_CAP {
        assert(v * 10 + d >= U32_CAP) by (nonlinear_arith)
            requires
                v >= U32_CAP,
        ;
    }
}

impl<'p> Extract<'p> for u32 {
    open spec fn spec_from_str(s: &'p str) -> Option<u32> {
        spec_parse_u32(s@)
    }

    fn from_str(s: &'p str) -> (r: Option<u32>) {
        let n = s.unicode_len();
        if n == 0 {
            return None;
        }
        // `acc` holds the value read so far, capped at 2^32.
        let mut acc: u64 = 0;
        let mut i: usize = 0;
        while i < n
            invariant
                n == s@.len(),
                i <= n,
                all_digits(s@.take(i as int)),
                acc == if digits_value(s@.take(i as int)) < U32_CAP {
                    digits_value(s@.take(i as int))
                } else {
                    U32_CAP as nat
                },
            decreases n - i,
        {
            let c = s.get_char(i);
            if !('0' <= c && c <= '9') {
                assert(!all_digits(s@));
                return None;
            }
            let d = (c as u32 - '0' as u32) as u64;
            proof {
                let t = s@.take(i + 1);
                assert(t.drop_last() =~= s@.take(i as int));
                lemma_step_capped(digits_value(s@.take(i as int)), d as nat);
                assert(all_digits(t)) by {
                    assert forall|j: int| 0 <= j < t.len() implies is_digit(#[trigger] t[j]) by {
                        if j < i {
                            assert(t[j] == s@.take(i as int)[j]);
                        }
                    }
                }
            }
            acc = acc * 10 + d;
            if acc >= U32_CAP {
                acc = U32_CAP;
            }
            i += 1;
        }
        assert(s@.take(n as int) =~= s@);
        if acc < U32_CAP {
            Some(acc as u32)
        } else {
            None
        }
    }
}

/// The built-in extraction types.
#[derive(Clone, Copy, Debug, PartialEq, Eq, Structural)]
pub enum AsType {
    Str,
    U32,
}

/// A value extracted from a path segment, or declared by a literal pattern.
#[derive(Clone, Copy, Debug, PartialEq, Eq)]
pub enum Value<'p> {
    Str(&'p str),
    U32(u32),
}

impl<'p> Value<'p> {
    pub open spec fn spec_as_type(self) -> AsType {
        match self {
            Value::Str(_) => AsType::Str,
            Value::U32(_) => AsType::U32,
        }
    }

    /// The extraction type of this value.
    pub fn as_type(&self) -> (r: AsType)
        ensures
            r == self.spec_as_type(),
    {
        match self {
            Value::Str(_) => AsType::Str,
            Value::U32(_) => AsType::U32,
        }
    }
}

/// Equality of values: same type, and same characters or same number.
pub open spec fn same_value<'a, 'p>(a: Value<'a>, b: Value<'p>) -> bool {
    match (a, b) {
        (Value::Str(x), Value::Str(y)) => x@ == y@,
        (Value::U32(m), Value::U32(n)) => m == n,
        _ => false,
    }
}

/// The value that `s` parses to as type `t`, if it parses.
pub open spec fn parse_as<'p>(t: AsType, s: &'p str) -> Option<Value<'p>> {
    match t {
        AsType::Str => Some(Value::Str(s)),
        AsType::U32 => match spec_parse_u32(s@) {
            Some(n) => Some(Value::U32(n)),
            None => None,
        },
    }
}

/// Parses `s` as a value of type `t`.
pub fn parse_value<'p>(t: AsType, s: &'p str) -> (r: Option<Value<'p>>)
    ensures
        r == parse_as(t, s),
{
    match t {
        AsType::Str => match <&'p str as Extract<'p>>::from_str(s) {
            Some(x) => Some(Value::Str(x)),
            None => None,
        },
        AsType::U32 => match <u32 as Extract<'p>>::from_str(s) {
            Some(n) => Some(Value::U32(n)),
            None => None,
        },
    }
}

/// One position of a route.
#[derive(Clone, Copy, Debug, PartialEq, Eq)]
pub enum Pattern<'a> {
    /// The segment must parse as the value's type and equal the value.
    Literal(Value<'a>),
    /// The segment must parse as the given type.
    Variable(AsType),
}

/// A route position with its text as characters.
pub enum RouteElement {
    StrLiteral(Seq<char>),
    U32Literal(u32),
    Variable(AsType),
}

impl<'a> Pattern<'a> {
    pub open spec fn spec_view(self) -> RouteElement {
        match self {
            Pattern::Literal(Value::Str(s)) => RouteElement::StrLiteral(s@),
            Pattern::Literal(Value::U32(n)) => RouteElement::U32Literal(n),
            Pattern::Variable(t) => RouteElement::Variable(t),
        }
    }
}

impl<'a> Pattern<'a> {
    /// The extraction type of this position.
    pub open spec fn spec_as_type(self) -> AsType {
        match self {
            Pattern::Literal(v) => v.spec_as_type(),
            Pattern::Variable(t) => t,
        }
    }
}

pub open spec fn route_views<'a>(s: Seq<Pattern<'a>>) -> Seq<RouteElement> {
    s.map_values(|p: Pattern<'a>| p.spec_view())
}

/// A literal pattern that matches exactly `value`.
pub fn literal<'a>(value: Value<'a>) -> (r: Pattern<'a>)
    ensures
        r == Pattern::Literal(value),
{
    Pattern::Literal(value)
}

/// A variable pattern that captures a segment of type `t`.
pub fn variable<'a>(t: AsType) -> (r: Pattern<'a>)
    ensures
        r == Pattern::<'a>::Variable(t),
{
    Pattern::Variable(t)
}

/// What one pattern makes of one segment: the extracted value, or `None`.
pub open spec fn match_element<'a, 'p>(p: Pattern<'a>, seg: &'p str) -> Option<Value<'p>> {
    match p {
        Pattern::Literal(v) => match parse_as(v.spec_as_type(), seg) {
            Some(x) => if same_value(v, x) {
                Some(x)
            } else {
                None
            },
            None => None,
        },
        Pattern::Variable(t) => parse_as(t, seg),
    }
}

/// Whether every position of the route accepts its segment.
pub open spec fn all_match<'a, 'p>(pats: Seq<Pattern<'a>>, segs: Seq<&'p str>) -> bool {
    pats.len() == segs.len() && forall|i: int|
        0 <= i < pats.len() ==> (#[trigger] match_element(pats[i], segs[i])) is Some
}

/// The result of matching a route against segments: one value per position
/// when the lengths agree and every position matches, `None` otherwise.
pub open spec fn match_route<'a, 'p>(pats: Seq<Pattern<'a>>, segs: Seq<&'p str>) -> Option<
    Seq<Value<'p>>,
> {
    if all_match(pats, segs) {
        Some(Seq::new(pats.len(), |i: int| match_element(pats[i], segs[i])->0))
    } else {
        None
    }
}

/// Matches `path` against the route `patterns`.
pub fn extract<'a, 'p>(path: &[&'p str], patterns: &[Pattern<'a>]) -> (r: Option<Vec<Value<'p>>>)
    ensures
        r matches Some(v) ==> match_route(patterns@, path@) == Some(v@),
        r is None <==> match_route(patterns@, path@) is None,
        path@.len() != patterns@.len() ==> r is None,
{
    let n = patterns.len();
    if path.len() != n {
        return None;
    }
    let mut values: Vec<Value<'p>> = Vec::new();
    let mut i: usize = 0;
    while i < n
        invariant
            n == patterns@.len() == path@.len(),
            i <= n,
            values@.len() == i,
            forall|j: int|
                0 <= j < i ==> match_element(patterns@[j], path@[j]) == Some(#[trigger] values@[j]),
        decreases n - i,
    {
        let seg = path[i];
        let v = match patterns[i] {
            Pattern::Literal(lit) => match parse_value(lit.as_type(), seg) {
                Some(x) => {
                    if !equal_values(&lit, &x) {
                        assert(match_element(patterns@[i as int], path@[i as int]) is None);
                        return None;
                    }
                    x
                },
                None => {
                    assert(match_element(patterns@[i as int], path@[i as int]) is None);
                    return None;
                },
            },
            Pattern::Variable(t) => match parse_value(t, seg) {
                Some(x) => x,
                None => {
                    assert(match_element(patterns@[i as int], path@[i as int]) is None);
                    return None;
                },
            },
        };
        values.push(v);
        i += 1;
    }
    assert forall|j: int| 0 <= j < n implies (#[trigger] match_element(patterns@[j], path@[j])) is Some by {
        assert(match_element(patterns@[j], path@[j]) == Some(values@[j]));
    }
    assert(values@ =~= Seq::new(n as nat, |i: int| match_element(patterns@[i], path@[i])->0));
    Some(values)
}

/// Whether two values have the same type and content.
pub fn equal_values<'a, 'p>(a: &Value<'a>, b: &Value<'p>) -> (r: bool)
    ensures
        r == same_value(*a, *b),
{
    match (a, b) {
        (Value::Str(x), Value::Str(y)) => crate::text::str_eq(x, y),
        (Value::U32(m), Value::U32(n)) => *m == *n,
        _ => false,
    }
}

/// A route never matches a sequence of segments of another length.
pub proof fn lemma_length_mismatch<'a, 'p>(pats: Seq<Pattern<'a>>, segs: Seq<&'p str>)
    requires
        pats.len() != segs.len(),
    ensures
        match_route(pats, segs) is None,
{
}

/// In a successful match, a literal position yields a value equal to the
/// literal's declared value, and a segment that does not parse to that value
/// makes the whole match fail.
pub proof fn lemma_literal_yields_declared<'a, 'p>(
    pats: Seq<Pattern<'a>>,
    segs: Seq<&'p str>,
    i: int,
    v: Value<'a>,
)
    requires
        0 <= i < pats.len(),
        pats[i] == Pattern::Literal(v),
    ensures
        match_route(pats, segs) matches Some(r) ==> same_value(v, r[i]) && r[i] == parse_as(
            v.spec_as_type(),
            segs[i],
        )->0,
        !(parse_as(v.spec_as_type(), segs[i]) matches Some(x) && same_value(v, x)) ==> match_route(
            pats,
            segs,
        ) is None,
{
    if match_route(pats, segs) is Some {
        assert(match_element(pats[i], segs[i]) is Some);
    }
    if !(parse_as(v.spec_as_type(), segs[i]) matches Some(x) && same_value(v, x)) {
        if pats.len() == segs.len() {
            assert(match_element(pats[i], segs[i]) is None);
        }
    }
}

/// A `u32` variable accepts exactly the non-empty runs of ASCII digits whose
/// value is at most 4294967295, and yields that value.
pub proof fn lemma_u32_variable<'p>(seg: &'p str)
    ensures
        match_element(Pattern::<'p>::Variable(AsType::U32), seg) == if seg@.len() > 0 && all_digits(
            seg@,
        ) && digits_value(seg@) <= 4294967295 {
            Some(Value::U32(digits_value(seg@) as u32))
        } else {
            None
        },
{
}

/// Matching is a function of the route and the segments alone: two matches
/// of the same route against the same segments have the same outcome.
pub proof fn lemma_match_deterministic<'a, 'p>(
    pats: Seq<Pattern<'a>>,
    segs: Seq<&'p str>,
    r1: Option<Seq<Value<'p>>>,
    r2: Option<Seq<Value<'p>>>,
)
    requires
        r1 == match_route(pats, segs),
        r2 == match_route(pats, segs),
    ensures
        r1 == r2,
{
}

/// A successful match yields one value per position of the route, each of
/// the type that its position declares.
pub proof fn lemma_result_shape<'a, 'p>(pats: Seq<Pattern<'a>>, segs: Seq<&'p str>)
    ensures
        match_route(pats, segs) matches Some(r) ==> r.len() == pats.len() && r.len() == segs.len()
            && forall|i: int| 0 <= i < r.len() ==> (#[trigger] r[i]).spec_as_type() == pats[i].spec_as_type(),
{
    if let Some(r) = match_route(pats, segs) {
        assert forall|i: int| 0 <= i < r.len() implies (#[trigger] r[i]).spec_as_type() == pats[i].spec_as_type() by {
            assert(match_element(pats[i], segs[i]) is Some);
        }
    }
}

} // verus!
