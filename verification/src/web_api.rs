//! The daemon's local HTTP API: which image URLs it forwards, how catalog
//! search hits are scored and ranked, and where the web-app list is fetched.

use vstd::prelude::*;
use crate::text::{has_prefix, str_starts_with, string_of, push_str};

verus! {

/// An http or https URL.
pub open spec fn is_web_url(u: Seq<char>) -> bool {
    has_prefix(u, "https://"@) || has_prefix(u, "http://"@)
}

/// Whether a URL is an http or https one, the only ones forwarded.
pub fn web_url(u: &str) -> (r: bool)
    ensures
        r == is_web_url(u@),
{
    str_starts_with(u, "https://") || str_starts_with(u, "http://")
}

/// How the API answers a request for a remote image.
#[derive(Clone, Debug, PartialEq, Eq)]
pub enum ImageAnswer {
    /// The image at this URL is fetched and forwarded.
    Forward(String),
    /// 404: there is no image to forward.
    NotFound,
    /// 400: the URL is not an http(s) one.
    BadRequest,
}

/// The answer to `/api/v1/apps/{id}/icon`, given the icon URL the catalog
/// has for the app: its icon is forwarded when it is a web URL, and
/// otherwise (no icon, or a local one) there is none.
pub fn icon_answer(icon_url: Option<String>) -> (r: ImageAnswer)
    ensures
        match icon_url {
            Some(u) => if is_web_url(u@) {
                r matches ImageAnswer::Forward(f) && f@ == u@
            } else {
                r is NotFound
            },
            None => r is NotFound,
        },
{
    match icon_url {
        Some(u) => if web_url(u.as_str()) {
            ImageAnswer::Forward(u)
        } else {
            ImageAnswer::NotFound
        },
        None => ImageAnswer::NotFound,
    }
}

/// The answer to `/api/v1/image?url=..`: only http(s) URLs are forwarded.
pub fn image_answer(url: String) -> (r: ImageAnswer)
    ensures
        if is_web_url(url@) {
            r matches ImageAnswer::Forward(f) && f@ == url@
        } else {
            r is BadRequest
        },
{
    if web_url(url.as_str()) {
        ImageAnswer::Forward(url)
    } else {
        ImageAnswer::BadRequest
    }
}

/// `a - b`, or 0 when `b` is larger.
pub open spec fn sat_sub(a: u32, b: u32) -> u32 {
    if a >= b {
        (a - b) as u32
    } else {
        0
    }
}

/// The larger of two scores.
pub open spec fn max_score(a: u32, b: u32) -> u32 {
    if a >= b {
        a
    } else {
        b
    }
}

/// The score of a catalog entry from the scores of its lower-cased name, id
/// and summary against the query: a hit in the id counts 10 less than one in
/// the name, a hit in the summary 20 less, the best counts, and an entry
/// that scores 0 is no hit.
pub open spec fn spec_entry_score(name_score: u32, id_score: u32, summary_score: u32) -> Option<u32> {
    let best = max_score(
        max_score(name_score, sat_sub(id_score, 10)),
        sat_sub(summary_score, 20),
    );
    if best > 0 {
        Some(best)
    } else {
        None
    }
}

/// The score of a catalog entry from the scores of its name, id and summary.
pub fn entry_score(name_score: u32, id_score: u32, summary_score: u32) -> (r: Option<u32>)
    ensures
        r == spec_entry_score(name_score, id_score, summary_score),
{
    let best = name_score.max(id_score.saturating_sub(10)).max(summary_score.saturating_sub(20));
    if best > 0 {
        Some(best)
    } else {
        None
    }
}

/// `order` lists every position of `scores` once, highest score first, equal
/// scores in their first order.
pub open spec fn is_rank_order(scores: Seq<u32>, order: Seq<usize>) -> bool {
    &&& order.len() == scores.len()
    &&& forall|a: int| 0 <= a < order.len() ==> #[trigger] order[a] < scores.len()
    &&& forall|a: int, b: int|
        0 <= a < b < order.len() ==> scores[order[a] as int] > scores[order[b] as int] || (
        scores[order[a] as int] == scores[order[b] as int] && order[a] < order[b])
}

/// The order search hits are answered in: best score first, hits with equal
/// scores in the order the catalog found them.
pub fn rank_by_score(scores: &Vec<u32>) -> (r: Vec<usize>)
    ensures
        is_rank_order(scores@, r@),
{
    let mut ord: Vec<usize> = Vec::new();
    let mut i: usize = 0;
    while i < scores.len()
        invariant
            0 <= i <= scores@.len(),
            ord@.len() == i,
            forall|a: int| 0 <= a < ord@.len() ==> #[trigger] ord@[a] < i,
            forall|a: int, b: int|
                0 <= a < b < ord@.len() ==> scores@[ord@[a] as int] > scores@[ord@[b] as int] || (
                scores@[ord@[a] as int] == scores@[ord@[b] as int] && ord@[a] < ord@[b]),
        decreases scores@.len() - i,
    {
        let score = scores[i];
        let mut p: usize = 0;
        while p < ord.len() && scores[ord[p]] >= score
            invariant
                0 <= p <= ord@.len(),
                ord@.len() == i,
                i < scores@.len(),
                score == scores@[i as int],
                forall|a: int| 0 <= a < ord@.len() ==> #[trigger] ord@[a] < i,
                forall|q: int| 0 <= q < p ==> scores@[#[trigger] ord@[q] as int] >= score,
            decreases ord@.len() - p,
        {
            p += 1;
        }
        let ghost old_ord = ord@;
        ord.insert(p, i);
        proof {
            assert forall|a: int, b: int| 0 <= a < b < ord@.len() implies scores@[ord@[a] as int]
                > scores@[ord@[b] as int] || (scores@[ord@[a] as int] == scores@[ord@[b] as int]
                && ord@[a] < ord@[b]) by {
                if b < p {
                    assert(ord@[a] == old_ord[a] && ord@[b] == old_ord[b]);
                } else if b == p {
                    assert(ord@[a] == old_ord[a]);
                } else if a < p {
                    assert(ord@[a] == old_ord[a] && ord@[b] == old_ord[b - 1]);
                    assert(scores@[old_ord[p as int] as int] < score);
                } else if a == p {
                    assert(ord@[b] == old_ord[b - 1]);
                    assert(scores@[old_ord[p as int] as int] < score);
                } else {
                    assert(ord@[a] == old_ord[a - 1] && ord@[b] == old_ord[b - 1]);
                }
            }
        }
        i += 1;
    }
    ord
}

/// The forge URL the web-app list for `lang` is fetched from.
pub open spec fn spec_pwas_url(lang: Seq<char>) -> Seq<char> {
    "https://forge.blossomos.org/api/pwas?lang="@ + lang
}

/// The forge URL the web-app list for `lang` is fetched from.
pub fn pwas_url(lang: &str) -> (r: String)
    ensures
        r@ == spec_pwas_url(lang@),
{
    let mut v: Vec<char> = Vec::new();
    push_str(&mut v, "https://forge.blossomos.org/api/pwas?lang=");
    push_str(&mut v, lang);
    string_of(&v)
}

} // verus!
