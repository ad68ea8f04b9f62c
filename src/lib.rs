//! Matching request paths against typed route patterns.
//!
//! A route is written in a compact text form such as `a/1:u32/c:str/{u32}/{str}`
//! and compiled with [`extractor`]. A request path is split into segments with
//! [`path::Path::parse`], and [`matcher::extract`] matches the segments against
//! the route, giving one typed value per position or no match.
use vstd::prelude::*;
use crate::matcher::{route_views, Pattern};
use crate::parser::{gen_extractor, parse, spec_compile, ExtractorParserError};

pub mod matcher;
pub mod parser;
pub mod path;
pub mod text;

verus! {

/// Compiles route text such as `a/{u32}` into a route: [`parse`], then [`gen_extractor`].
pub fn extractor<'a>(route: &'a str) -> (r: Result<Vec<Pattern<'a>>, ExtractorParserError>)
    ensures
        match (r, spec_compile(route@)) {
            (Ok(compiled), Ok(q)) => route_views(compiled@) == q,
            (Err(e), Err(f)) => e == f,
            _ => false,
        },
{
    match parse(route) {
        Ok(patterns) => gen_extractor(&patterns),
        Err(e) => Err(e),
    }
}

} // verus!
