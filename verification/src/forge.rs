//! The forge home feeds: which app ids they mention, and how a refresh
//! updates the cached feeds.

use vstd::prelude::*;
use crate::text::{
    find_seq, find_char, trim, trim_exec, chars_of, string_of, strings_view, find, find_ch,
    slice_to_vec, str_eq, push_str, lemma_find_from_bounds,
};

verus! {

/// The ids of the `<app ... id="...">` tags in a text, in order (empty ids
/// left out). After an `<app` without an `id="`, or an `id="` without its
/// closing quote, the scan goes on from where it stopped.
pub open spec fn tag_ids(s: Seq<char>) -> Seq<Seq<char>>
    decreases s.len(),
{
    match find_seq(s, "<app"@) {
        None => Seq::empty(),
        Some(p) => if 0 <= p && p + 4 <= s.len() {
            let r1 = s.skip(p + 4);
            match find_seq(r1, "id=\""@) {
                None => tag_ids(r1),
                Some(q) => if 0 <= q && q + 4 <= r1.len() {
                    let r2 = r1.skip(q + 4);
                    match find_char(r2, '"') {
                        None => tag_ids(r2),
                        Some(e) => if 0 <= e < r2.len() {
                            let id = trim(r2.take(e));
                            (if id.len() > 0 {
                                seq![id]
                            } else {
                                Seq::empty()
                            }) + tag_ids(r2.skip(e + 1))
                        } else {
                            Seq::empty()
                        },
                    }
                } else {
                    Seq::empty()
                },
            }
        } else {
            Seq::empty()
        },
    }
}

/// Each element once, in the order of first occurrence.
pub open spec fn dedup(s: Seq<Seq<char>>) -> Seq<Seq<char>>
    decreases s.len(),
{
    if s.len() == 0 {
        s
    } else {
        let r = dedup(s.drop_last());
        if r.contains(s.last()) {
            r
        } else {
            r.push(s.last())
        }
    }
}

/// The ids of the `<app id="...">` tags in a text.
pub fn tag_ids_exec(text: &str) -> (r: Vec<String>)
    ensures
        strings_view(r@) == tag_ids(text@),
{
    let open = chars_of("<app");
    let key = chars_of("id=\"");
    proof {
        reveal_strlit("<app");
        reveal_strlit("id=\"");
    }
    assert(open@.len() == 4 && key@.len() == 4);
    let mut rest: Vec<char> = chars_of(text);
    let mut out: Vec<String> = Vec::new();
    assert(strings_view(out@) =~= Seq::<Seq<char>>::empty());
    assert(strings_view(out@) + tag_ids(rest@) =~= tag_ids(text@));
    loop
        invariant
            open@ == "<app"@,
            key@ == "id=\""@,
            open@.len() == 4,
            key@.len() == 4,
            strings_view(out@) + tag_ids(rest@) == tag_ids(text@),
        decreases rest@.len(),
    {
        let ghost s = rest@;
        let p = match find(&rest, &open) {
            Some(p) => p,
            None => {
                assert(strings_view(out@) + Seq::<Seq<char>>::empty() =~= strings_view(out@));
                return out;
            },
        };
        proof {
            crate::text::lemma_find_from_bounds(s, open@, 0);
        }
        let n = rest.len();
        assert(p + 4 <= n);
        let r1 = slice_to_vec(&rest, p + 4, n);
        assert(r1@ =~= s.skip(p + 4));
        let q = match find(&r1, &key) {
            Some(q) => q,
            None => {
                rest = r1;
                continue;
            },
        };
        proof {
            crate::text::lemma_find_from_bounds(r1@, key@, 0);
        }
        let n1 = r1.len();
        assert(q + 4 <= n1);
        let r2 = slice_to_vec(&r1, q + 4, n1);
        assert(r2@ =~= r1@.skip(q + 4));
        let e = match find_ch(&r2, '"') {
            Some(e) => e,
            None => {
                rest = r2;
                continue;
            },
        };
        proof {
            crate::text::lemma_find_from_bounds(r2@, seq!['"'], 0);
        }
        assert(e < r2@.len());
        let raw = slice_to_vec(&r2, 0, e);
        assert(raw@ =~= r2@.take(e as int));
        let id = trim_exec(&raw);
        let ghost before = strings_view(out@);
        if id.len() > 0 {
            let ids = string_of(&id);
            proof {
                crate::fields::lemma_strings_view_push(out@, ids);
            }
            out.push(ids);
            assert(strings_view(out@) =~= before + seq![id@]);
        } else {
            assert(before + Seq::<Seq<char>>::empty() =~= before);
        }
        let next = slice_to_vec(&r2, e + 1, r2.len());
        assert(next@ =~= r2@.skip(e + 1));
        rest = next;
    }
}

/// What `serde_json::from_str::<Vec<String>>` reads from a text (`None`
/// when it is not a JSON array of strings).
pub uninterp spec fn json_strings(s: Seq<char>) -> Option<Seq<Seq<char>>>;

/// Reads a JSON array of strings with `serde_json::from_str`; the result is
/// named by `json_strings`.
#[verifier::external_body]
fn parse_string_list(s: &str) -> (r: Option<Vec<String>>)
    ensures
        match r {
            Some(v) => json_strings(s@) == Some(strings_view(v@)),
            None => json_strings(s@) is None,
        },
{
    serde_json::from_str::<Vec<String>>(s).ok()
}

pub open spec fn listed(s: Seq<char>) -> Seq<Seq<char>> {
    match json_strings(s) {
        Some(v) => v,
        None => Seq::empty(),
    }
}

/// Every app id the home feeds mention: the `<app id>` tags of all four
/// feeds, the id lists of the top, new and trending feeds, and the ids of
/// the chart entries; each once.
pub open spec fn home_ids(
    top: Seq<char>,
    new: Seq<char>,
    trending: Seq<char>,
    charts: Seq<char>,
    chart_ids: Seq<Seq<char>>,
) -> Seq<Seq<char>> {
    dedup(
        tag_ids(top) + tag_ids(new) + tag_ids(trending) + tag_ids(charts) + listed(top) + listed(
            new,
        ) + listed(trending) + chart_ids,
    )
}

pub(crate) fn add_all_new(out: &mut Vec<String>, items: Vec<String>)
    ensures
        strings_view(final(out)@) == dedup_onto(strings_view(old(out)@), strings_view(items@)),
{
    let ghost all = strings_view(items@);
    let ghost start = strings_view(out@);
    let mut i: usize = 0;
    assert(all.subrange(0, 0) =~= Seq::<Seq<char>>::empty());
    while i < items.len()
        invariant
            0 <= i <= items@.len(),
            all == strings_view(items@),
            strings_view(out@) == dedup_onto(start, all.subrange(0, i as int)),
        decreases items@.len() - i,
    {
        assert(all.subrange(0, i + 1).drop_last() =~= all.subrange(0, i as int));
        let x = &items[i];
        let mut present = false;
        let mut j: usize = 0;
        while j < out.len()
            invariant
                0 <= j <= out@.len(),
                present == strings_view(out@).subrange(0, j as int).contains(x@),
            decreases out@.len() - j,
        {
            assert(strings_view(out@).subrange(0, j + 1).drop_last() =~= strings_view(out@).subrange(0, j as int));
            if str_eq(out[j].as_str(), x.as_str()) {
                present = true;
                assert(strings_view(out@).subrange(0, j + 1).last() == x@);
            }
            j += 1;
        }
        assert(strings_view(out@).subrange(0, j as int) =~= strings_view(out@));
        if !present {
            let c = x.clone();
            proof {
                crate::fields::lemma_strings_view_push(out@, c);
            }
            out.push(c);
        }
        i += 1;
    }
    assert(all.subrange(0, i as int) =~= all);
}

/// `items` added to `acc`, each once, skipping those already there.
pub open spec fn dedup_onto(acc: Seq<Seq<char>>, items: Seq<Seq<char>>) -> Seq<Seq<char>>
    decreases items.len(),
{
    if items.len() == 0 {
        acc
    } else {
        let r = dedup_onto(acc, items.drop_last());
        if r.contains(items.last()) {
            r
        } else {
            r.push(items.last())
        }
    }
}

pub proof fn lemma_dedup_onto(a: Seq<Seq<char>>, b: Seq<Seq<char>>)
    ensures
        dedup_onto(dedup(a), b) == dedup(a + b),
    decreases b.len(),
{
    if b.len() == 0 {
        assert(a + b =~= a);
    } else {
        lemma_dedup_onto(a, b.drop_last());
        assert((a + b).drop_last() =~= a + b.drop_last());
        assert((a + b).last() == b.last());
    }
}

/// Every app id the home feeds mention, each once, in order of first
/// mention; `chart_ids` are the ids of the chart entries.
pub fn collect_home_app_ids(
    top: &str,
    new: &str,
    trending: &str,
    charts: &str,
    chart_ids: Vec<String>,
) -> (r: Vec<String>)
    ensures
        strings_view(r@) == home_ids(top@, new@, trending@, charts@, strings_view(chart_ids@)),
{
    let mut out: Vec<String> = Vec::new();
    let ghost mut acc: Seq<Seq<char>> = Seq::empty();
    assert(strings_view(out@) =~= dedup(acc));
    let parts: [&str; 4] = [top, new, trending, charts];
    let mut k: usize = 0;
    while k < 4
        invariant
            0 <= k <= 4,
            parts@ == seq![top, new, trending, charts],
            strings_view(out@) == dedup(acc),
            acc == (if k == 0 {
                Seq::<Seq<char>>::empty()
            } else if k == 1 {
                tag_ids(top@)
            } else if k == 2 {
                tag_ids(top@) + tag_ids(new@)
            } else if k == 3 {
                tag_ids(top@) + tag_ids(new@) + tag_ids(trending@)
            } else {
                tag_ids(top@) + tag_ids(new@) + tag_ids(trending@) + tag_ids(charts@)
            }),
        decreases 4 - k,
    {
        let ids = tag_ids_exec(parts[k]);
        proof {
            lemma_dedup_onto(acc, strings_view(ids@));
        }
        add_all_new(&mut out, ids);
        proof {
            acc = acc + tag_ids(parts@[k as int]@);
            if k == 0 {
                assert(Seq::<Seq<char>>::empty() + tag_ids(top@) =~= tag_ids(top@));
            }
        }
        k += 1;
    }
    let lists: [&str; 3] = [top, new, trending];
    let mut k2: usize = 0;
    let ghost base = acc;
    while k2 < 3
        invariant
            0 <= k2 <= 3,
            lists@ == seq![top, new, trending],
            strings_view(out@) == dedup(acc),
            acc == (if k2 == 0 {
                base
            } else if k2 == 1 {
                base + listed(top@)
            } else if k2 == 2 {
                base + listed(top@) + listed(new@)
            } else {
                base + listed(top@) + listed(new@) + listed(trending@)
            }),
        decreases 3 - k2,
    {
        let items = match parse_string_list(lists[k2]) {
            Some(v) => v,
            None => Vec::new(),
        };
        assert(strings_view(items@) == listed(lists@[k2 as int]@));
        proof {
            lemma_dedup_onto(acc, strings_view(items@));
        }
        add_all_new(&mut out, items);
        proof {
            acc = acc + listed(lists@[k2 as int]@);
        }
        k2 += 1;
    }
    proof {
        lemma_dedup_onto(acc, strings_view(chart_ids@));
    }
    add_all_new(&mut out, chart_ids);
    out
}

/// The cached forge feeds.
pub struct ForgeFeeds {
    pub top_json: String,
    pub new_json: String,
    pub trending_json: String,
    pub charts_json: String,
    /// Metadata of the apps the feeds mention, as JSON.
    pub app_metadata_json: String,
    /// App id → the remote icon URL the icon proxy fetches.
    pub original_icon_urls: Vec<(String, String)>,
}

impl ForgeFeeds {
    /// Nothing cached.
    pub fn new() -> (r: Self)
        ensures
            r.top_json@.len() == 0,
            r.new_json@.len() == 0,
            r.trending_json@.len() == 0,
            r.charts_json@.len() == 0,
            r.app_metadata_json@.len() == 0,
            r.original_icon_urls@.len() == 0,
    {
        ForgeFeeds {
            top_json: String::new(),
            new_json: String::new(),
            trending_json: String::new(),
            charts_json: String::new(),
            app_metadata_json: String::new(),
            original_icon_urls: Vec::new(),
        }
    }

    /// The feeds are fetched when nothing is cached yet.
    pub fn needs_refresh(&self) -> (r: bool)
        ensures
            r == (self.top_json@.len() == 0),
    {
        chars_of(self.top_json.as_str()).len() == 0
    }

    /// Takes in a refresh: a feed that could not be fetched keeps its cached
    /// text, empty metadata keeps the cached metadata, and the icon URLs are
    /// replaced.
    pub fn apply_refresh(
        &mut self,
        top: Option<String>,
        new: Option<String>,
        trending: Option<String>,
        charts: Option<String>,
        app_metadata_json: String,
        original_icon_urls: Vec<(String, String)>,
    )
        ensures
            final(self).top_json@ == match top {
                Some(v) => v@,
                None => old(self).top_json@,
            },
            final(self).new_json@ == match new {
                Some(v) => v@,
                None => old(self).new_json@,
            },
            final(self).trending_json@ == match trending {
                Some(v) => v@,
                None => old(self).trending_json@,
            },
            final(self).charts_json@ == match charts {
                Some(v) => v@,
                None => old(self).charts_json@,
            },
            final(self).app_metadata_json@ == if app_metadata_json@.len() == 0 {
                old(self).app_metadata_json@
            } else {
                app_metadata_json@
            },
            final(self).original_icon_urls@ == original_icon_urls@,
    {
        if let Some(v) = top {
            self.top_json = v;
        }
        if let Some(v) = new {
            self.new_json = v;
        }
        if let Some(v) = trending {
            self.trending_json = v;
        }
        if let Some(v) = charts {
            self.charts_json = v;
        }
        if chars_of(app_metadata_json.as_str()).len() > 0 {
            self.app_metadata_json = app_metadata_json;
        }
        self.original_icon_urls = original_icon_urls;
    }
}

/// The feed URLs of a forge: top, new, trending and charts, with their sizes.
pub fn feed_urls(base: &str) -> (r: Vec<String>)
    ensures
        strings_view(r@) == seq![
            base@ + "/api/top?limit=12"@,
            base@ + "/api/new?limit=20"@,
            base@ + "/api/trending?limit=12"@,
            base@ + "/api/charts?limit=12"@,
        ],
{
    let paths: [&str; 4] = ["/api/top?limit=12", "/api/new?limit=20", "/api/trending?limit=12", "/api/charts?limit=12"];
    let mut r: Vec<String> = Vec::new();
    let mut i: usize = 0;
    while i < 4
        invariant
            0 <= i <= 4,
            paths@ == seq!["/api/top?limit=12", "/api/new?limit=20", "/api/trending?limit=12", "/api/charts?limit=12"],
            r@.len() == i,
            forall|j: int| 0 <= j < i ==> (#[trigger] r@[j])@ == base@ + paths@[j]@,
        decreases 4 - i,
    {
        let mut v: Vec<char> = Vec::new();
        push_str(&mut v, base);
        push_str(&mut v, paths[i]);
        r.push(string_of(&v));
        i += 1;
    }
    assert(strings_view(r@) =~= seq![
        base@ + "/api/top?limit=12"@,
        base@ + "/api/new?limit=20"@,
        base@ + "/api/trending?limit=12"@,
        base@ + "/api/charts?limit=12"@,
    ]);
    r
}

} // verus!
