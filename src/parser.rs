//! The route-spec grammar and its compiler.
//!
//! ```text
//! patterns = pattern , { "/" , pattern } ;
//! pattern  = literal | variable ;
//! literal  = ident , [ ":" , type ] ;
//! variable = "{" , type , "}" ;
//! type     = "str" | "u32" ;          (* ASCII case-insensitive *)
//! ident    = one or more characters other than "/", "{", "}", ":" ;
//! ```
//!
//! [`parse`] turns the text into a syntax tree of [`Pattern`]s;
//! [`gen_extractor`] turns that tree into a route of matcher patterns,
//! reading `u32` literals as numbers.
use vstd::prelude::*;
use crate::matcher::{self, route_views, spec_parse_u32, AsType, Extract, RouteElement, Value};
use crate::text::{split, split_char, split_once, split_once_char};

verus! {

/// Why a route spec was rejected. `index` is the position of the offending
/// pattern, counting from zero.
#[derive(Clone, Copy, Debug, PartialEq, Eq, Structural)]
pub enum ExtractorParserError {
    /// Two slashes in a row, or a slash at either end, or no text at all.
    EmptySegment { index: usize },
    /// A variable that does not end with `}`.
    UnterminatedVariable { index: usize },
    /// A literal whose text is empty or holds `{` or `}`.
    InvalidIdent { index: usize },
    /// A type name other than `str` and `u32`.
    UnknownType { index: usize },
    /// A `u32` literal whose text is not a 32-bit decimal number.
    InvalidLiteral { index: usize },
}

/// One pattern of a route spec, as written.
#[derive(Clone, Copy, Debug, PartialEq, Eq)]
#[allow(inconsistent_fields)]
pub enum Pattern<'a> {
    Literal { lit: &'a str, as_type: Option<AsType> },
    Variable { as_type: AsType },
}

/// The patterns of a route spec, in order.
#[derive(Clone, Debug, PartialEq, Eq)]
pub struct Patterns<'a>(pub Vec<Pattern<'a>>);

/// A pattern of a route spec, with its text as characters.
pub enum SyntaxPattern {
    Literal(Seq<char>, Option<AsType>),
    Variable(AsType),
}

impl<'a> Pattern<'a> {
    pub open spec fn spec_view(self) -> SyntaxPattern {
        match self {
            Pattern::Literal { lit, as_type } => SyntaxPattern::Literal(lit@, as_type),
            Pattern::Variable { as_type } => SyntaxPattern::Variable(as_type),
        }
    }
}

pub open spec fn syntax_views<'a>(s: Seq<Pattern<'a>>) -> Seq<SyntaxPattern> {
    s.map_values(|p: Pattern<'a>| p.spec_view())
}

pub open spec fn is_letter(c: char, lower: char, upper: char) -> bool {
    c == lower || c == upper
}

/// The type that a type name denotes, ignoring ASCII case.
pub open spec fn spec_type(t: Seq<char>) -> Option<AsType> {
    if t.len() == 3 && is_letter(t[0], 's', 'S') && is_letter(t[1], 't', 'T') && is_letter(
        t[2],
        'r',
        'R',
    ) {
        Some(AsType::Str)
    } else if t.len() == 3 && is_letter(t[0], 'u', 'U') && t[1] == '3' && t[2] == '2' {
        Some(AsType::U32)
    } else {
        None
    }
}

pub open spec fn is_ident_char(c: char) -> bool {
    c != '/' && c != '{' && c != '}' && c != ':'
}

pub open spec fn is_ident(s: Seq<char>) -> bool {
    s.len() > 0 && forall|i: int| 0 <= i < s.len() ==> is_ident_char(#[trigger] s[i])
}

/// What one `/`-separated piece of a route spec denotes.
pub open spec fn parse_segment_spec(seg: Seq<char>, index: usize) -> Result<
    SyntaxPattern,
    ExtractorParserError,
> {
    if seg.len() == 0 {
        Err(ExtractorParserError::EmptySegment { index })
    } else if seg[0] == '{' {
        if seg.len() < 2 || seg.last() != '}' {
            Err(ExtractorParserError::UnterminatedVariable { index })
        } else {
            match spec_type(seg.subrange(1, seg.len() - 1)) {
                Some(t) => Ok(SyntaxPattern::Variable(t)),
                None => Err(ExtractorParserError::UnknownType { index }),
            }
        }
    } else {
        match split_once(seg, ':') {
            Some((id, ty)) => if !is_ident(id) {
                Err(ExtractorParserError::InvalidIdent { index })
            } else {
                match spec_type(ty) {
                    Some(t) => Ok(SyntaxPattern::Literal(id, Some(t))),
                    None => Err(ExtractorParserError::UnknownType { index }),
                }
            },
            None => if !is_ident(seg) {
                Err(ExtractorParserError::InvalidIdent { index })
            } else {
                Ok(SyntaxPattern::Literal(seg, None))
            },
        }
    }
}

/// The patterns of a sequence of pieces, or the error of the first bad one.
pub open spec fn parse_segments_spec(segs: Seq<Seq<char>>) -> Result<
    Seq<SyntaxPattern>,
    ExtractorParserError,
>
    decreases segs.len(),
{
    if segs.len() == 0 {
        Ok(Seq::empty())
    } else {
        match parse_segments_spec(segs.drop_last()) {
            Err(e) => Err(e),
            Ok(ps) => match parse_segment_spec(segs.last(), (segs.len() - 1) as usize) {
                Err(e) => Err(e),
                Ok(p) => Ok(ps.push(p)),
            },
        }
    }
}

/// The syntax tree of a route spec, or why it is rejected.
pub open spec fn spec_parse(input: Seq<char>) -> Result<Seq<SyntaxPattern>, ExtractorParserError> {
    parse_segments_spec(split(input, '/'))
}

/// Reads a type name, ignoring ASCII case.
fn type_of(t: &str) -> (r: Option<AsType>)
    ensures
        r == spec_type(t@),
{
    if t.unicode_len() != 3 {
        return None;
    }
    let a = t.get_char(0);
    let b = t.get_char(1);
    let c = t.get_char(2);
    if (a == 's' || a == 'S') && (b == 't' || b == 'T') && (c == 'r' || c == 'R') {
        Some(AsType::Str)
    } else if (a == 'u' || a == 'U') && b == '3' && c == '2' {
        Some(AsType::U32)
    } else {
        None
    }
}

/// Whether `s` is a non-empty run of identifier characters.
fn check_ident(s: &str) -> (r: bool)
    ensures
        r == is_ident(s@),
{
    let n = s.unicode_len();
    if n == 0 {
        return false;
    }
    let mut i: usize = 0;
    while i < n
        invariant
            n == s@.len(),
            i <= n,
            forall|j: int| 0 <= j < i ==> is_ident_char(#[trigger] s@[j]),
        decreases n - i,
    {
        let c = s.get_char(i);
        if c == '/' || c == '{' || c == '}' || c == ':' {
            return false;
        }
        i += 1;
    }
    true
}

/// Reads one `/`-separated piece of a route spec.
fn parse_segment<'a>(seg: &'a str, index: usize) -> (r: Result<Pattern<'a>, ExtractorParserError>)
    ensures
        match (r, parse_segment_spec(seg@, index)) {
            (Ok(p), Ok(q)) => p.spec_view() == q,
            (Err(e), Err(f)) => e == f,
            _ => false,
        },
{
    let n = seg.unicode_len();
    if n == 0 {
        return Err(ExtractorParserError::EmptySegment { index });
    }
    if seg.get_char(0) == '{' {
        if n < 2 || seg.get_char(n - 1) != '}' {
            return Err(ExtractorParserError::UnterminatedVariable { index });
        }
        return match type_of(seg.substring_char(1, n - 1)) {
            Some(t) => Ok(Pattern::Variable { as_type: t }),
            None => Err(ExtractorParserError::UnknownType { index }),
        };
    }
    match split_once_char(seg, ':') {
        Some((id, ty)) => {
            if !check_ident(id) {
                return Err(ExtractorParserError::InvalidIdent { index });
            }
            match type_of(ty) {
                Some(t) => Ok(Pattern::Literal { lit: id, as_type: Some(t) }),
                None => Err(ExtractorParserError::UnknownType { index }),
            }
        },
        None => {
            if !check_ident(seg) {
                return Err(ExtractorParserError::InvalidIdent { index });
            }
            Ok(Pattern::Literal { lit: seg, as_type: None })
        },
    }
}

/// Parses a route spec into its patterns, left to right.
pub fn parse<'a>(input: &'a str) -> (r: Result<Patterns<'a>, ExtractorParserError>)
    ensures
        match (r, spec_parse(input@)) {
            (Ok(p), Ok(q)) => syntax_views(p.0@) == q,
            (Err(e), Err(f)) => e == f,
            _ => false,
        },
{
    let segs = split_char(input, '/');
    let ghost all = crate::text::views(segs@);
    let mut patterns: Vec<Pattern<'a>> = Vec::new();
    let mut i: usize = 0;
    proof {
        assert(syntax_views(patterns@) =~= Seq::empty());
        assert(all.take(0).len() == 0);
    }
    while i < segs.len()
        invariant
            i <= segs@.len(),
            all == crate::text::views(segs@),
            all == split(input@, '/'),
            parse_segments_spec(all.take(i as int)) == Ok::<_, ExtractorParserError>(
                syntax_views(patterns@),
            ),
        decreases segs@.len() - i,
    {
        proof {
            assert(all.take(i + 1).drop_last() =~= all.take(i as int));
        }
        let ghost before = patterns@;
        match parse_segment(segs[i], i) {
            Ok(p) => {
                patterns.push(p);
                proof {
                    assert(syntax_views(patterns@) =~= syntax_views(before).push(p.spec_view()));
                }
            },
            Err(e) => {
                proof {
                    lemma_parse_error_sticks(all, i as int);
                }
                return Err(e);
            },
        }
        i += 1;
    }
    assert(all.take(segs@.len() as int) =~= all);
    Ok(Patterns(patterns))
}

/// An error on a prefix of the pieces is the error of the whole.
proof fn lemma_parse_error_sticks(segs: Seq<Seq<char>>, i: int)
    requires
        0 <= i < segs.len(),
        parse_segments_spec(segs.take(i + 1)) is Err,
    ensures
        parse_segments_spec(segs) == parse_segments_spec(segs.take(i + 1)),
    decreases segs.len(),
{
    if segs.len() == i + 1 {
        assert(segs.take(i + 1) =~= segs);
    } else {
        assert(segs.drop_last().take(i + 1) =~= segs.take(i + 1));
        lemma_parse_error_sticks(segs.drop_last(), i);
    }
}

/// The route position that a written pattern denotes; a `u32` literal must
/// read as a 32-bit decimal number.
pub open spec fn lower_spec(p: SyntaxPattern, index: usize) -> Result<RouteElement, ExtractorParserError> {
    match p {
        SyntaxPattern::Literal(lit, Some(AsType::U32)) => match spec_parse_u32(lit) {
            Some(n) => Ok(RouteElement::U32Literal(n)),
            None => Err(ExtractorParserError::InvalidLiteral { index }),
        },
        SyntaxPattern::Literal(lit, _) => Ok(RouteElement::StrLiteral(lit)),
        SyntaxPattern::Variable(t) => Ok(RouteElement::Variable(t)),
    }
}

/// The route positions of written patterns, or the error of the first bad one.
pub open spec fn lower_all_spec(ps: Seq<SyntaxPattern>) -> Result<Seq<RouteElement>, ExtractorParserError>
    decreases ps.len(),
{
    if ps.len() == 0 {
        Ok(Seq::empty())
    } else {
        match lower_all_spec(ps.drop_last()) {
            Err(e) => Err(e),
            Ok(rs) => match lower_spec(ps.last(), (ps.len() - 1) as usize) {
                Err(e) => Err(e),
                Ok(r) => Ok(rs.push(r)),
            },
        }
    }
}

/// The route that a route spec compiles to, or why it is rejected.
pub open spec fn spec_compile(input: Seq<char>) -> Result<Seq<RouteElement>, ExtractorParserError> {
    match spec_parse(input) {
        Err(e) => Err(e),
        Ok(ps) => lower_all_spec(ps),
    }
}

proof fn lemma_lower_error_sticks(ps: Seq<SyntaxPattern>, i: int)
    requires
        0 <= i < ps.len(),
        lower_all_spec(ps.take(i + 1)) is Err,
    ensures
        lower_all_spec(ps) == lower_all_spec(ps.take(i + 1)),
    decreases ps.len(),
{
    if ps.len() == i + 1 {
        assert(ps.take(i + 1) =~= ps);
    } else {
        assert(ps.drop_last().take(i + 1) =~= ps.take(i + 1));
        lemma_lower_error_sticks(ps.drop_last(), i);
    }
}

/// Builds the route that written patterns denote, reading `u32` literals as numbers.
pub fn gen_extractor<'a>(patterns: &Patterns<'a>) -> (r: Result<Vec<matcher::Pattern<'a>>, ExtractorParserError>)
    ensures
        match (r, lower_all_spec(syntax_views(patterns.0@))) {
            (Ok(route), Ok(q)) => route_views(route@) == q,
            (Err(e), Err(f)) => e == f,
            _ => false,
        },
{
    let ps = &patterns.0;
    let ghost all = syntax_views(ps@);
    let mut route: Vec<matcher::Pattern<'a>> = Vec::new();
    let mut i: usize = 0;
    proof {
        assert(route_views(route@) =~= Seq::empty());
        assert(all.take(0).len() == 0);
    }
    while i < ps.len()
        invariant
            i <= ps@.len(),
            ps@ == patterns.0@,
            all == syntax_views(ps@),
            lower_all_spec(all.take(i as int)) == Ok::<_, ExtractorParserError>(route_views(route@)),
        decreases ps@.len() - i,
    {
        proof {
            assert(all.take(i + 1).drop_last() =~= all.take(i as int));
        }
        let element = match ps[i] {
            Pattern::Literal { lit, as_type: Some(AsType::U32) } => match <u32 as Extract<'a>>::from_str(lit) {
                Some(n) => matcher::literal(Value::U32(n)),
                None => {
                    proof {
                        assert(all.take(i + 1).last() == all[i as int]);
                        assert(lower_all_spec(all.take(i + 1)) == Err::<Seq<RouteElement>, _>(
                            ExtractorParserError::InvalidLiteral { index: i },
                        ));
                        lemma_lower_error_sticks(all, i as int);
                    }
                    return Err(ExtractorParserError::InvalidLiteral { index: i });
                },
            },
            Pattern::Literal { lit, as_type: _ } => matcher::literal(Value::Str(lit)),
            Pattern::Variable { as_type } => matcher::variable(as_type),
        };
        let ghost before = route@;
        route.push(element);
        proof {
            assert(route_views(route@) =~= route_views(before).push(element.spec_view()));
        }
        i += 1;
    }
    assert(all.take(ps@.len() as int) =~= all);
    Ok(route)
}

} // verus!
