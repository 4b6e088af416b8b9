//! The parts of a parsed URL that the library reads, as plain values.
use vstd::prelude::*;
use crate::text::str_eq;

verus! {

/// A URL taken apart: what `url::Url` reports of it.
#[derive(Debug, Clone)]
pub struct UrlParts {
    /// The scheme, without the `:`.
    pub scheme: String,
    /// The user name (empty when there is none).
    pub username: String,
    pub password: Option<String>,
    /// The host, as text.
    pub host: Option<String>,
    /// The port, when one was given and it is not the scheme's default.
    pub port: Option<u16>,
    pub path: String,
    /// The query as decoded `application/x-www-form-urlencoded` pairs, in
    /// order.
    pub query_pairs: Vec<(String, String)>,
    /// The part after `#`.
    pub fragment: Option<String>,
}

/// The view of a [`UrlParts`].
pub struct UrlModel {
    pub scheme: Seq<char>,
    pub username: Seq<char>,
    pub password: Option<Seq<char>>,
    pub host: Option<Seq<char>>,
    pub port: Option<u16>,
    pub path: Seq<char>,
    pub query_pairs: Seq<(Seq<char>, Seq<char>)>,
    pub fragment: Option<Seq<char>>,
}

pub open spec fn opt_str(o: Option<String>) -> Option<Seq<char>> {
    match o {
        Some(s) => Some(s@),
        None => None,
    }
}

pub open spec fn pair_views(v: Seq<(String, String)>) -> Seq<(Seq<char>, Seq<char>)> {
    v.map_values(|p: (String, String)| (p.0@, p.1@))
}

impl View for UrlParts {
    type V = UrlModel;

    open spec fn view(&self) -> UrlModel {
        UrlModel {
            scheme: self.scheme@,
            username: self.username@,
            password: opt_str(self.password),
            host: opt_str(self.host),
            port: self.port,
            path: self.path@,
            query_pairs: pair_views(self.query_pairs@),
            fragment: opt_str(self.fragment),
        }
    }
}

/// The value of the last pair named `key` (what a map built from the pairs
/// in order holds for `key`).
pub open spec fn query_value(pairs: Seq<(Seq<char>, Seq<char>)>, key: Seq<char>) -> Option<Seq<char>>
    decreases pairs.len(),
{
    if pairs.len() == 0 {
        None
    } else if pairs.last().0 == key {
        Some(pairs.last().1)
    } else {
        query_value(pairs.drop_last(), key)
    }
}

/// The value of the last query pair named `key`.
pub fn query_get(pairs: &Vec<(String, String)>, key: &str) -> (r: Option<String>)
    ensures
        opt_str(r) == query_value(pair_views(pairs@), key@),
{
    let mut i = pairs.len();
    assert(pairs@.take(pairs@.len() as int) =~= pairs@);
    while i > 0
        invariant
            i <= pairs@.len(),
            query_value(pair_views(pairs@), key@) == query_value(
                pair_views(pairs@.take(i as int)),
                key@,
            ),
        decreases i,
    {
        proof {
            assert(pair_views(pairs@.take(i as int)).drop_last() =~= pair_views(
                pairs@.take(i - 1),
            ));
        }
        if str_eq(pairs[i - 1].0.as_str(), key) {
            return Some(pairs[i - 1].1.clone());
        }
        i -= 1;
    }
    None
}

} // verus!
