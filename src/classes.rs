//! The classification table: six sets of Wikidata classes, each a seed class
//! with its transitive subclasses, and the membership test on entity ids.
//!
//! A class is kept as the number of its `Q` id. Subclass queries return items
//! only, so every id they can name has such a number.

use vstd::prelude::*;
use std::collections::HashSet;
use crate::text::{parse_u64_spec, chars_of, parse_u64_range};

verus! {

/// The class seeds: territorial entities.
pub const TERRITORIAL_ENTITY: u64 = 56061;
/// Human settlements.
pub const HUMAN_SETTLEMENT: u64 = 486972;
/// Second-level administrative divisions.
pub const SECOND_LEVEL_ADMIN_DIV: u64 = 13220204;
/// Languages.
pub const LANGUAGE: u64 = 34770;

/// The number of a canonical item id: `Q` and a decimal number without
/// leading zeros.
pub open spec fn qid(s: Seq<char>) -> Option<u64> {
    if s.len() >= 2 && s[0] == 'Q' && '1' <= s[1] && s[1] <= '9' {
        parse_u64_spec(s.drop_first())
    } else {
        None
    }
}

/// Whether the entity id `id` names a class of `set`.
pub open spec fn names_class_in(set: Set<u64>, id: Seq<char>) -> bool {
    qid(id) matches Some(n) && set.contains(n)
}

/// The last path segment of the URL `url`, as the `url` crate reads it.
pub uninterp spec fn url_last_segment(url: Seq<char>) -> Option<Seq<char>>;

/// The class named by the last path segment of `url`.
pub open spec fn url_class(url: Seq<char>) -> Option<u64> {
    match url_last_segment(url) {
        Some(seg) => qid(seg),
        None => None,
    }
}

/// Whether some URL among `results` names the class `n`.
pub open spec fn named_in(results: Seq<Vec<String>>, n: u64) -> bool {
    exists|i: int, j: int|
        0 <= i < results.len() && 0 <= j < results[i]@.len() && #[trigger] url_class(
            results[i]@[j]@,
        ) == Some(n)
}

/// The exclusion seeds: lost cities, neighborhoods, former administrative
/// territorial entities, and farms.
pub fn excluded_seeds() -> (r: Vec<u64>)
    ensures
        r@ == seq![2974842u64, 123705u64, 19953632u64, 131596u64],
{
    vec![2974842, 123705, 19953632, 131596]
}

/// The settlement exclusion seeds: urban agglomerations and a culture that
/// is tagged as a settlement.
pub fn excluded_settlement_seeds() -> (r: Vec<u64>)
    ensures
        r@ == seq![159313u64, 106505045u64],
{
    vec![159313, 106505045]
}

/// The number of the canonical item id `id`.
pub fn entity_number(id: &str) -> (r: Option<u64>)
    ensures
        r == qid(id@),
{
    let v = chars_of(id);
    if v.len() >= 2 && v[0] == 'Q' && '1' <= v[1] && v[1] <= '9' {
        assert(v@.drop_first() =~= v@.subrange(1, v@.len() as int));
        parse_u64_range(&v, 1, v.len())
    } else {
        None
    }
}

/// Whether `id` names a class of `set`.
pub fn in_class(set: &HashSet<u64>, id: &str) -> (r: bool)
    ensures
        r == names_class_in(set@, id@),
{
    match entity_number(id) {
        Some(n) => set.contains(&n),
        None => false,
    }
}

/// Relies on url::Url::parse and Url::path_segments: the last segment of the
/// URL's path, where the text parses as a URL with a path.
#[verifier::external_body]
fn last_path_segment(url: &str) -> (r: Option<String>)
    ensures
        match r {
            Some(s) => url_last_segment(url@) == Some(s@),
            None => url_last_segment(url@) is None,
        },
{
    match url::Url::parse(url) {
        Ok(u) => match u.path_segments() {
            Some(segments) => segments.last().map(|s| s.to_string()),
            None => None,
        },
        Err(_) => None,
    }
}

/// The class set of the seeds `seeds`: the seeds themselves and every class
/// that a URL of the subclass query results `results` names.
pub fn class_set(seeds: &Vec<u64>, results: &Vec<Vec<String>>) -> (r: HashSet<u64>)
    ensures
        forall|n: u64| r@.contains(n) <==> (seeds@.contains(n) || named_in(results@, n)),
{
    let mut set: HashSet<u64> = HashSet::new();
    let mut k: usize = 0;
    while k < seeds.len()
        invariant
            k <= seeds@.len(),
            forall|n: u64| set@.contains(n) <==> exists|w: int| 0 <= w < k && #[trigger] seeds@[w] == n,
        decreases seeds@.len() - k,
    {
        set.insert(seeds[k]);
        proof {
            assert forall|n: u64| set@.contains(n) <==> exists|w: int| 0 <= w < k + 1 && #[trigger] seeds@[w] == n by {
                if n == seeds@[k as int] {
                    assert(0 <= k < k + 1);
                }
                if exists|w: int| 0 <= w < k + 1 && #[trigger] seeds@[w] == n {
                    let w = choose|w: int| 0 <= w < k + 1 && #[trigger] seeds@[w] == n;
                    if w < k {
                        assert(exists|w: int| 0 <= w < k && #[trigger] seeds@[w] == n);
                    }
                }
            }
        }
        k = k + 1;
    }
    let mut i: usize = 0;
    while i < results.len()
        invariant
            i <= results@.len(),
            forall|n: u64|
                set@.contains(n) <==> (seeds@.contains(n) || named_in(results@.subrange(0, i as int), n)),
        decreases results@.len() - i,
    {
        let urls = &results[i];
        let mut j: usize = 0;
        while j < urls.len()
            invariant
                i < results@.len(),
                urls == results@[i as int],
                j <= urls@.len(),
                forall|n: u64|
                    set@.contains(n) <==> (seeds@.contains(n) || named_in(
                        results@.subrange(0, i as int),
                        n,
                    ) || exists|w: int| 0 <= w < j && #[trigger] url_class(urls@[w]@) == Some(n)),
            decreases urls@.len() - j,
        {
            let seg = last_path_segment(urls[j].as_str());
            if let Some(s) = seg {
                if let Some(n) = entity_number(s.as_str()) {
                    set.insert(n);
                }
            }
            proof {
                assert forall|n: u64|
                    set@.contains(n) <==> (seeds@.contains(n) || named_in(
                        results@.subrange(0, i as int),
                        n,
                    ) || exists|w: int| 0 <= w < j + 1 && #[trigger] url_class(urls@[w]@) == Some(n)) by {
                    if url_class(urls@[j as int]@) == Some(n) {
                        assert(0 <= j < j + 1);
                    }
                    if exists|w: int| 0 <= w < j + 1 && #[trigger] url_class(urls@[w]@) == Some(n) {
                        let w = choose|w: int| 0 <= w < j + 1 && #[trigger] url_class(urls@[w]@) == Some(n);
                        if w < j {
                            assert(exists|w: int| 0 <= w < j && #[trigger] url_class(urls@[w]@) == Some(n));
                        }
                    }
                }
            }
            j = j + 1;
        }
        proof {
            let pre = results@.subrange(0, i as int);
            let post = results@.subrange(0, i + 1);
            assert forall|n: u64| named_in(post, n) <==> (named_in(pre, n) || exists|w: int| 0 <= w < urls@.len() && #[trigger] url_class(urls@[w]@) == Some(n)) by {
                if named_in(pre, n) {
                    let (a, b) = choose|a: int, b: int| 0 <= a < pre.len() && 0 <= b < pre[a]@.len() && #[trigger] url_class(pre[a]@[b]@) == Some(n);
                    assert(post[a] == pre[a]);
                    assert(url_class(post[a]@[b]@) == Some(n));
                }
                if exists|w: int| 0 <= w < urls@.len() && #[trigger] url_class(urls@[w]@) == Some(n) {
                    let w = choose|w: int| 0 <= w < urls@.len() && #[trigger] url_class(urls@[w]@) == Some(n);
                    assert(post[i as int] == urls);
                    assert(url_class(post[i as int]@[w]@) == Some(n));
                }
                if named_in(post, n) {
                    let (a, b) = choose|a: int, b: int| 0 <= a < post.len() && 0 <= b < post[a]@.len() && #[trigger] url_class(post[a]@[b]@) == Some(n);
                    if a < i {
                        assert(pre[a] == post[a]);
                        assert(url_class(pre[a]@[b]@) == Some(n));
                    } else {
                        assert(post[a] == urls);
                    }
                }
            }
        }
        i = i + 1;
    }
    assert(results@.subrange(0, i as int) =~= results@);
    set
}

/// Identical subclass query results give identical class sets: a set that
/// `class_set` returns is fixed by its seeds and the query results.
pub proof fn class_set_determined(seeds: Seq<u64>, results: Seq<Vec<String>>, a: Set<u64>, b: Set<u64>)
    requires
        forall|n: u64| a.contains(n) <==> (seeds.contains(n) || named_in(results, n)),
        forall|n: u64| b.contains(n) <==> (seeds.contains(n) || named_in(results, n)),
    ensures
        a == b,
{
    assert(a =~= b);
}

/// The classification table. Each set holds the numbers of a seed class and
/// of all its transitive subclasses.
pub struct Classes {
    pub territorial_entities: HashSet<u64>,
    pub human_settlements: HashSet<u64>,
    pub excluded: HashSet<u64>,
    pub excluded_settlements: HashSet<u64>,
    pub second_level_admin_div: HashSet<u64>,
    pub languages: HashSet<u64>,
}

} // verus!
