//! Splitting a request path into segments and a raw query string, and
//! looking up keys in the query string.
use vstd::prelude::*;
use crate::text::{split, split_char, split_once, split_once_char, str_eq, views};

verus! {

/// Errors of path parsing. Splitting never fails; the type is kept so that
/// callers can treat parsing as fallible.
#[derive(Clone, Copy, Debug, PartialEq, Eq, Structural)]
pub enum Error {
    PathParseError,
    NotImplemented,
}

/// A request path: its non-empty segments and the raw query after the first `?`.
#[derive(Debug)]
pub struct Path<'p> {
    path: Vec<&'p str>,
    query: Option<Query<'p>>,
}

/// The raw query string of a path, not decoded.
#[derive(Debug)]
pub struct Query<'p> {
    query: &'p str,
}

pub open spec fn non_empty(s: Seq<char>) -> bool {
    s.len() > 0
}

/// The components of `s` between slashes, with the empty ones dropped.
pub open spec fn path_segments(s: Seq<char>) -> Seq<Seq<char>> {
    split(s, '/').filter(|x: Seq<char>| non_empty(x))
}

/// The segments and the raw query that a path string splits into.
pub open spec fn spec_split_path(s: Seq<char>) -> (Seq<Seq<char>>, Option<Seq<char>>) {
    match split_once(s, '?') {
        Some((p, q)) => (path_segments(p), Some(q)),
        None => (path_segments(s), None),
    }
}

impl<'p> Path<'p> {
    pub closed spec fn spec_segments(&self) -> Seq<Seq<char>> {
        views(self.path@)
    }

    pub closed spec fn spec_query(&self) -> Option<Seq<char>> {
        match self.query {
            Some(q) => Some(q.spec_text()),
            None => None,
        }
    }

    /// Splits `path` at its first `?` into segments and a raw query.
    /// Empty segments (from leading, trailing or repeated slashes) are dropped.
    pub fn parse(path: &'p str) -> (r: Result<Self, Error>)
        ensures
            r matches Ok(p) && (p.spec_segments(), p.spec_query()) == spec_split_path(path@),
    {
        let (path_part, query_part) = match split_once_char(path, '?') {
            Some((p, q)) => (p, Some(q)),
            None => (path, None),
        };
        let path_segments = non_empty_segments(path_part);
        let query = match query_part {
            Some(q) => Some(Query { query: q }),
            None => None,
        };
        Ok(Path { path: path_segments, query })
    }

    /// The non-empty segments of the path, in order.
    pub fn segments(&self) -> (r: &[&'p str])
        ensures
            views(r@) == self.spec_segments(),
    {
        self.path.as_slice()
    }

    /// The raw query, if the path had a `?`.
    pub fn query(&self) -> (r: Option<&Query<'p>>)
        ensures
            match r {
                Some(q) => self.spec_query() == Some(q.spec_text()),
                None => self.spec_query() is None,
            },
    {
        match &self.query {
            Some(q) => Some(q),
            None => None,
        }
    }
}

/// The components of `s` between slashes that are not empty, in order.
fn non_empty_segments<'p>(s: &'p str) -> (r: Vec<&'p str>)
    ensures
        views(r@) == path_segments(s@),
{
    let parts = split_char(s, '/');
    let mut out: Vec<&'p str> = Vec::new();
    let mut i: usize = 0;
    let ghost all = views(parts@);
    while i < parts.len()
        invariant
            i <= parts@.len(),
            all == views(parts@),
            views(out@) == all.take(i as int).filter(|x: Seq<char>| non_empty(x)),
        decreases parts@.len() - i,
    {
        let part = parts[i];
        proof {
            assert(all.take(i + 1).drop_last() =~= all.take(i as int));
            assert(all.take(i + 1).last() == part@);
            reveal_with_fuel(Seq::filter, 1);
        }
        let ghost before = out@;
        if part.unicode_len() > 0 {
            out.push(part);
            proof {
                assert(views(out@) =~= views(before).push(part@));
            }
        }
        i += 1;
    }
    assert(all.take(parts@.len() as int) =~= all);
    out
}

/// One entry of a query string: a key alone, or a key with a value.
#[derive(Clone, Copy, Debug, PartialEq, Eq)]
pub enum QueryKV<'p> {
    Key(&'p str),
    KeyValue(&'p str, &'p str),
}

/// The entries of a query string that carry a given key.
#[derive(Clone, Debug, PartialEq, Eq)]
pub enum QueryKeyResult<'p> {
    Absent,
    Single(QueryKV<'p>),
    Multiple(Vec<QueryKV<'p>>),
}

/// The key of a query piece, and its value if it has an `=`.
pub open spec fn piece_kv(piece: Seq<char>) -> (Seq<char>, Option<Seq<char>>) {
    match split_once(piece, '=') {
        Some((k, v)) => (k, Some(v)),
        None => (piece, None),
    }
}

/// The pieces of a raw query whose key is `key`, as key and optional value, in order.
pub open spec fn query_matches(query: Seq<char>, key: Seq<char>) -> Seq<(Seq<char>, Option<Seq<char>>)> {
    split(query, '&').map_values(|p: Seq<char>| piece_kv(p)).filter(
        |kv: (Seq<char>, Option<Seq<char>>)| kv.0 == key,
    )
}

impl<'p> QueryKV<'p> {
    pub open spec fn spec_kv(self) -> (Seq<char>, Option<Seq<char>>) {
        match self {
            QueryKV::Key(k) => (k@, None),
            QueryKV::KeyValue(k, v) => (k@, Some(v@)),
        }
    }
}

pub open spec fn kv_views<'p>(s: Seq<QueryKV<'p>>) -> Seq<(Seq<char>, Option<Seq<char>>)> {
    s.map_values(|kv: QueryKV<'p>| kv.spec_kv())
}

impl<'p> QueryKeyResult<'p> {
    /// The entries held, in order.
    pub open spec fn spec_entries(self) -> Seq<QueryKV<'p>> {
        match self {
            QueryKeyResult::Absent => Seq::empty(),
            QueryKeyResult::Single(kv) => seq![kv],
            QueryKeyResult::Multiple(kvs) => kvs@,
        }
    }

    /// The entries held, in order.
    pub fn into_vec(self) -> (r: Vec<QueryKV<'p>>)
        ensures
            r@ == self.spec_entries(),
    {
        match self {
            QueryKeyResult::Absent => Vec::new(),
            QueryKeyResult::Single(kv) => {
                let mut v = Vec::new();
                v.push(kv);
                proof {
                    assert(v@ =~= seq![kv]);
                }
                v
            },
            QueryKeyResult::Multiple(kvs) => kvs,
        }
    }
}

impl<'p> Query<'p> {
    /// The characters of the raw query text.
    pub closed spec fn spec_text(&self) -> Seq<char> {
        self.query@
    }

    /// A query over the raw text `query`.
    pub fn new(query: &'p str) -> (r: Self)
        ensures
            r.spec_text() == query@,
    {
        Query { query }
    }

    /// The raw query text.
    pub fn as_str(&self) -> (r: &'p str)
        ensures
            r@ == self.spec_text(),
    {
        self.query
    }

    /// The entries for `key`: pieces are separated by `&`, and the first `=`
    /// of a piece separates its key from its value. The result is `Absent` for
    /// no entry, `Single` for one, and `Multiple` for more, in query order.
    pub fn get(&self, key: &str) -> (r: QueryKeyResult<'p>)
        ensures
            kv_views(r.spec_entries()) == query_matches(self.spec_text(), key@),
            r is Absent <==> query_matches(self.spec_text(), key@).len() == 0,
            r is Single <==> query_matches(self.spec_text(), key@).len() == 1,
            r is Multiple <==> query_matches(self.spec_text(), key@).len() >= 2,
    {
        let pieces = split_char(self.query, '&');
        let ghost kvs = views(pieces@).map_values(|p: Seq<char>| piece_kv(p));
        let ghost pred = |kv: (Seq<char>, Option<Seq<char>>)| kv.0 == key@;
        let mut results: Vec<QueryKV<'p>> = Vec::new();
        let mut i: usize = 0;
        while i < pieces.len()
            invariant
                i <= pieces@.len(),
                kvs == views(pieces@).map_values(|p: Seq<char>| piece_kv(p)),
                views(pieces@) == split(self.query@, '&'),
                pred == (|kv: (Seq<char>, Option<Seq<char>>)| kv.0 == key@),
                kv_views(results@) == kvs.take(i as int).filter(pred),
            decreases pieces@.len() - i,
        {
            let piece = pieces[i];
            let kv = match split_once_char(piece, '=') {
                Some((k, v)) => QueryKV::KeyValue(k, v),
                None => QueryKV::Key(piece),
            };
            let k = match kv {
                QueryKV::Key(k) => k,
                QueryKV::KeyValue(k, _) => k,
            };
            proof {
                assert(kvs.take(i + 1).drop_last() =~= kvs.take(i as int));
                assert(kvs.take(i + 1).last() == kv.spec_kv());
                reveal_with_fuel(Seq::filter, 1);
            }
            let ghost before = results@;
            if str_eq(k, key) {
                results.push(kv);
                proof {
                    assert(kv_views(results@) =~= kv_views(before).push(kv.spec_kv()));
                }
            }
            i += 1;
        }
        proof {
            assert(kvs.take(pieces@.len() as int) =~= kvs);
            assert(kvs == query_matches_pieces(self.query@));
        }
        let count = results.len();
        if count == 0 {
            QueryKeyResult::Absent
        } else if count == 1 {
            let kv = results[0];
            proof {
                assert(seq![kv] =~= results@);
            }
            QueryKeyResult::Single(kv)
        } else {
            QueryKeyResult::Multiple(results)
        }
    }
}

spec fn query_matches_pieces(query: Seq<char>) -> Seq<(Seq<char>, Option<Seq<char>>)> {
    split(query, '&').map_values(|p: Seq<char>| piece_kv(p))
}

/// A path without `?` has no query, and no segment of any path is empty.
pub proof fn lemma_split_path_shape(s: Seq<char>)
    ensures
        (forall|j: int| 0 <= j < s.len() ==> s[j] != '?') ==> spec_split_path(s).1 is None,
        forall|k: int|
            0 <= k < spec_split_path(s).0.len() ==> (#[trigger] spec_split_path(s).0[k]).len() > 0,
{
    if forall|j: int| 0 <= j < s.len() ==> s[j] != '?' {
        crate::text::lemma_split_once_absent(s, '?');
    }
    let parts = match split_once(s, '?') {
        Some((p, _)) => p,
        None => s,
    };
    let f = |x: Seq<char>| non_empty(x);
    assert forall|k: int| 0 <= k < path_segments(parts).len() implies (
    #[trigger] path_segments(parts)[k]).len() > 0 by {
        split(parts, '/').lemma_filter_pred(f, k);
    }
}

} // verus!
