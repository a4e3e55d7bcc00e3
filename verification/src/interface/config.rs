//! Parsing of the server's textual configuration: the API-key list and the
//! CORS allow-list.
use vstd::prelude::*;
use crate::domain::lookup::{first_index, lemma_first_index_is};
use crate::domain::text::{owned, split_on, split_text, trim, trimmed};

verus! {

/// The character is the token/actor separator of an API-key entry.
pub open spec fn is_colon() -> spec_fn(char) -> bool {
    |c: char| c == ':'
}

/// One trimmed API-key entry `token:actor`, both sides trimmed again;
/// an empty entry or one without `:` yields nothing.
pub open spec fn key_pair(t: Seq<char>) -> Option<(Seq<char>, Seq<char>)> {
    if t.len() == 0 {
        None
    } else {
        match first_index(t, is_colon()) {
            Some(k) => Some((trim(t.take(k)), trim(t.skip(k + 1)))),
            None => None,
        }
    }
}

/// The `(token, actor)` pairs of the pieces, in order.
pub open spec fn keys_from(pieces: Seq<Seq<char>>) -> Seq<(Seq<char>, Seq<char>)>
    decreases pieces.len(),
{
    if pieces.len() == 0 {
        Seq::empty()
    } else {
        let rest = keys_from(pieces.drop_last());
        match key_pair(trim(pieces.last())) {
            Some(p) => rest.push(p),
            None => rest,
        }
    }
}

/// The API keys configured by a comma-separated `token:actor` list.
pub open spec fn api_keys_of(raw: Seq<char>) -> Seq<(Seq<char>, Seq<char>)> {
    keys_from(split_on(raw, ','))
}

/// The non-empty trimmed pieces, in order.
pub open spec fn origins_from(pieces: Seq<Seq<char>>) -> Seq<Seq<char>>
    decreases pieces.len(),
{
    if pieces.len() == 0 {
        Seq::empty()
    } else {
        let rest = origins_from(pieces.drop_last());
        if trim(pieces.last()).len() > 0 {
            rest.push(trim(pieces.last()))
        } else {
            rest
        }
    }
}

/// Parse a comma-separated list of `token:actor` entries. Entries are
/// trimmed; empty ones and ones without `:` are skipped. Tokens may repeat:
/// the last entry for a token is the one that counts when authenticating.
/// No list configures no keys.
pub fn parse_api_keys(raw: Option<&str>) -> (r: Vec<(String, String)>)
    ensures
        r@.map_values(|p: (String, String)| (p.0@, p.1@)) == (match raw {
            Some(s) => api_keys_of(s@),
            None => Seq::empty(),
        }),
{
    let text = match raw {
        Some(s) => s,
        None => return Vec::new(),
    };
    let pieces = split_text(text, ',');
    let ghost views = pieces@.map_values(|p: &str| p@);
    let mut out: Vec<(String, String)> = Vec::new();
    let mut i: usize = 0;
    while i < pieces.len()
        invariant
            i <= pieces@.len(),
            views == pieces@.map_values(|p: &str| p@),
            views == split_on(text@, ','),
            out@.map_values(|p: (String, String)| (p.0@, p.1@)) == keys_from(views.take(i as int)),
        decreases pieces@.len() - i,
    {
        assert(views.take(i + 1).drop_last() =~= views.take(i as int));
        assert(views.take(i + 1).last() == pieces@[i as int]@);
        let ghost before = out@;
        let entry = trimmed(pieces[i]);
        let n = entry.unicode_len();
        if n > 0 {
            let mut k: usize = 0;
            while k < n && entry.get_char(k) != ':'
                invariant
                    n == entry@.len(),
                    k <= n,
                    forall|j: int| 0 <= j < k ==> !is_colon()(#[trigger] entry@[j]),
                decreases n - k,
            {
                k += 1;
            }
            if k < n {
                proof {
                    lemma_first_index_is(entry@, is_colon(), k as int);
                }
                let token = trimmed(entry.substring_char(0, k));
                let actor = trimmed(entry.substring_char(k + 1, n));
                assert(entry@.subrange(0, k as int) =~= entry@.take(k as int));
                assert(entry@.subrange(k + 1, n as int) =~= entry@.skip(k + 1));
                out.push((owned(token), owned(actor)));
                assert(out@.map_values(|p: (String, String)| (p.0@, p.1@)) =~= before.map_values(
                    |p: (String, String)| (p.0@, p.1@),
                ).push((token@, actor@)));
            } else {
                assert(!(exists|j: int| 0 <= j < entry@.len() && is_colon()(#[trigger] entry@[j])));
            }
        }
        i += 1;
    }
    assert(views.take(pieces@.len() as int) =~= views);
    out
}

/// Parse the CORS allow-list: no list, or an empty one, allows any origin
/// (`None`); otherwise the comma-separated origins, trimmed, without empty
/// ones.
pub fn parse_cors_origins(raw: Option<&str>) -> (r: Option<Vec<String>>)
    ensures
        match raw {
            None => r is None,
            Some(s) => if s@.len() == 0 {
                r is None
            } else {
                r matches Some(v) && v@.map_values(|o: String| o@) == origins_from(
                    split_on(s@, ','),
                )
            },
        },
{
    let text = match raw {
        Some(s) => s,
        None => return None,
    };
    if text.is_empty() {
        return None;
    }
    let pieces = split_text(text, ',');
    let ghost views = pieces@.map_values(|p: &str| p@);
    let mut out: Vec<String> = Vec::new();
    let mut i: usize = 0;
    while i < pieces.len()
        invariant
            i <= pieces@.len(),
            views == pieces@.map_values(|p: &str| p@),
            views == split_on(text@, ','),
            out@.map_values(|o: String| o@) == origins_from(views.take(i as int)),
        decreases pieces@.len() - i,
    {
        assert(views.take(i + 1).drop_last() =~= views.take(i as int));
        assert(views.take(i + 1).last() == pieces@[i as int]@);
        let ghost before = out@;
        let origin = trimmed(pieces[i]);
        if !origin.is_empty() {
            out.push(owned(origin));
            assert(out@.map_values(|o: String| o@) =~= before.map_values(|o: String| o@).push(
                origin@,
            ));
        }
        i += 1;
    }
    assert(views.take(pieces@.len() as int) =~= views);
    Some(out)
}

} // verus!
