//! Reading an application's metainfo (AppStream XML) into a catalog entry:
//! localized names, description markup per locale, license, homepage,
//! content rating, screenshots and the Flathub verification flag.

use vstd::prelude::*;
use crate::xml::{
    XmlElement, XmlNode, attr_of, first_named, trimmed_text, lemma_rest, lemma_prefix,
    attr_exec, find_child, trimmed_text_exec, parse_xml, xml_document,
};
use crate::text::{opt_view, trim, trim_exec, chars_of, string_of, str_eq, push_str, strings_view};
use crate::fields::or_empty;
use crate::appstream::{
    AppStreamEntry, rating_label, max_of, spec_severity, content_rating_label, classify_license,
    spec_license,
};

verus! {

/// The markup of an element, as `<name>children</name>` with text kept and
/// everything but elements and text dropped.
pub open spec fn html_of(e: XmlElement) -> Seq<char>
    decreases e, 1nat,
{
    "<"@ + e.name@ + ">"@ + nodes_html(e.children@) + "</"@ + e.name@ + ">"@
}

/// The markup of a run of nodes.
pub open spec fn nodes_html(ns: Seq<XmlNode>) -> Seq<char>
    decreases ns, 0nat,
{
    if ns.len() == 0 {
        Seq::empty()
    } else {
        nodes_html(ns.drop_last()) + match ns.last() {
            XmlNode::Element(c) => html_of(c),
            XmlNode::Text(t) => t@,
            _ => Seq::empty(),
        }
    }
}

/// The markup of an element.
pub fn html_exec(e: &XmlElement) -> (r: Vec<char>)
    ensures
        r@ == html_of(*e),
    decreases e, 1nat,
{
    let inner = nodes_html_exec(&e.children);
    let mut r: Vec<char> = Vec::new();
    push_str(&mut r, "<");
    push_str(&mut r, e.name.as_str());
    push_str(&mut r, ">");
    crate::text::push_all(&mut r, &inner);
    push_str(&mut r, "</");
    push_str(&mut r, e.name.as_str());
    push_str(&mut r, ">");
    proof {
        reveal_strlit("<");
        reveal_strlit(">");
        reveal_strlit("</");
    }
    assert(r@ =~= html_of(*e));
    r
}

/// The markup of a run of nodes.
pub fn nodes_html_exec(ns: &Vec<XmlNode>) -> (r: Vec<char>)
    ensures
        r@ == nodes_html(ns@),
    decreases ns, 0nat,
{
    let mut acc: Vec<char> = Vec::new();
    let mut i: usize = 0;
    while i < ns.len()
        invariant
            0 <= i <= ns@.len(),
            acc@ == nodes_html(ns@.subrange(0, i as int)),
        decreases ns@.len() - i,
    {
        proof {
            lemma_prefix(ns@, i as int);
        }
        match &ns[i] {
            XmlNode::Element(c) => {
                proof {
                    assert(decreases_to!(ns => ns@));
                    assert(decreases_to!(ns@ => ns@[i as int]));
                }
                let h = html_exec(c);
                crate::text::push_all(&mut acc, &h);
            },
            XmlNode::Text(t) => {
                push_str(&mut acc, t.as_str());
            },
            _ => {
                assert(acc@ =~= acc@ + Seq::<char>::empty());
            },
        }
        i += 1;
    }
    assert(ns@.subrange(0, i as int) =~= ns@);
    acc
}


/// Descriptions by locale: (locale, markup) pairs.
pub open spec fn lm_view(v: Seq<(String, String)>) -> Seq<(Seq<char>, Seq<char>)> {
    v.map_values(|p: (String, String)| (p.0@, p.1@))
}

/// The markup stored for a locale (the last entry for it).
pub open spec fn lm_get(m: Seq<(Seq<char>, Seq<char>)>, k: Seq<char>) -> Option<Seq<char>>
    decreases m.len(),
{
    if m.len() == 0 {
        None
    } else if m.last().0 == k {
        Some(m.last().1)
    } else {
        lm_get(m.drop_last(), k)
    }
}

/// The entries for other locales.
pub open spec fn lm_without(m: Seq<(Seq<char>, Seq<char>)>, k: Seq<char>) -> Seq<(Seq<char>, Seq<char>)>
    decreases m.len(),
{
    if m.len() == 0 {
        m
    } else if m.last().0 == k {
        lm_without(m.drop_last(), k)
    } else {
        lm_without(m.drop_last(), k).push(m.last())
    }
}

/// Stores markup for a locale, replacing what was there.
pub open spec fn lm_set(m: Seq<(Seq<char>, Seq<char>)>, k: Seq<char>, v: Seq<char>) -> Seq<
    (Seq<char>, Seq<char>),
> {
    lm_without(m, k).push((k, v))
}

/// Stores markup for a locale unless it already has some.
pub open spec fn lm_set_if_absent(m: Seq<(Seq<char>, Seq<char>)>, k: Seq<char>, v: Seq<char>) -> Seq<
    (Seq<char>, Seq<char>),
> {
    if lm_get(m, k) is Some {
        m
    } else {
        m.push((k, v))
    }
}

/// Markup that is only whitespace.
pub open spec fn blank(h: Seq<char>) -> bool {
    trim(h).len() == 0
}

/// The locale of a paragraph: its `lang` attribute, or the default `C`.
pub open spec fn lang_or_default(e: XmlElement) -> Seq<char> {
    match attr_of(e, "lang"@) {
        Some(l) => l,
        None => "C"@,
    }
}

/// The paragraphs of a description grouped by locale, each locale's markup
/// joined in document order.
pub open spec fn para_groups(ns: Seq<XmlNode>) -> Seq<(Seq<char>, Seq<char>)>
    decreases ns.len(),
{
    if ns.len() == 0 {
        Seq::empty()
    } else {
        let g = para_groups(ns.drop_last());
        match ns.last() {
            XmlNode::Element(p) => {
                let l = lang_or_default(p);
                lm_set(g, l, or_empty(lm_get(g, l)) + html_of(p))
            },
            _ => g,
        }
    }
}

/// Adds the non-blank groups for locales that have no markup yet.
pub open spec fn merge_absent(
    m: Seq<(Seq<char>, Seq<char>)>,
    groups: Seq<(Seq<char>, Seq<char>)>,
) -> Seq<(Seq<char>, Seq<char>)>
    decreases groups.len(),
{
    if groups.len() == 0 {
        m
    } else {
        let m1 = merge_absent(m, groups.drop_last());
        if blank(groups.last().1) {
            m1
        } else {
            lm_set_if_absent(m1, groups.last().0, groups.last().1)
        }
    }
}

/// One `<description>` element: with a `lang` attribute its content is that
/// locale's markup; without one, its paragraphs carry their own locales and
/// only fill locales that have nothing yet.
pub open spec fn apply_desc(m: Seq<(Seq<char>, Seq<char>)>, d: XmlElement) -> Seq<
    (Seq<char>, Seq<char>),
> {
    match attr_of(d, "lang"@) {
        Some(l) => if blank(nodes_html(d.children@)) {
            m
        } else {
            lm_set(m, l, nodes_html(d.children@))
        },
        None => merge_absent(m, para_groups(d.children@)),
    }
}

/// All `<description>` children of a component, in order.
pub open spec fn apply_descs(m: Seq<(Seq<char>, Seq<char>)>, ns: Seq<XmlNode>) -> Seq<
    (Seq<char>, Seq<char>),
>
    decreases ns.len(),
{
    if ns.len() == 0 {
        m
    } else {
        let m1 = apply_descs(m, ns.drop_last());
        match ns.last() {
            XmlNode::Element(d) => if d.name@ == "description"@ {
                apply_desc(m1, d)
            } else {
                m1
            },
            _ => m1,
        }
    }
}

pub proof fn lemma_lm_push(v: Seq<(String, String)>, p: (String, String))
    ensures
        lm_view(v.push(p)) == lm_view(v).push((p.0@, p.1@)),
{
    assert(lm_view(v.push(p)) =~= lm_view(v).push((p.0@, p.1@)));
}

/// The markup stored for a locale.
pub fn lm_get_exec(m: &Vec<(String, String)>, k: &str) -> (r: Option<String>)
    ensures
        opt_view(r) == lm_get(lm_view(m@), k@),
{
    let mut found: Option<String> = None;
    let mut i: usize = 0;
    while i < m.len()
        invariant
            0 <= i <= m@.len(),
            opt_view(found) == lm_get(lm_view(m@.subrange(0, i as int)), k@),
        decreases m@.len() - i,
    {
        assert(lm_view(m@.subrange(0, i + 1)).drop_last() =~= lm_view(m@.subrange(0, i as int)));
        if str_eq(m[i].0.as_str(), k) {
            found = Some(m[i].1.clone());
        }
        i += 1;
    }
    assert(m@.subrange(0, i as int) =~= m@);
    found
}

/// Stores markup for a locale, replacing what was there.
pub fn lm_set_exec(m: Vec<(String, String)>, k: String, v: String) -> (r: Vec<(String, String)>)
    ensures
        lm_view(r@) == lm_set(lm_view(m@), k@, v@),
{
    let mut out: Vec<(String, String)> = Vec::new();
    let mut rest = m;
    let ghost all = rest@;
    let total: usize = rest.len();
    assert(all.len() == total);
    let mut i: usize = 0;
    while rest.len() > 0
        invariant
            rest@ == all.subrange(i as int, all.len() as int),
            i <= all.len(),
            all.len() <= usize::MAX,
            lm_view(out@) == lm_without(lm_view(all.subrange(0, i as int)), k@),
        decreases rest@.len(),
    {
        let p = rest.remove(0);
        assert(rest@ =~= all.subrange(i as int + 1, all.len() as int));
        assert(lm_view(all.subrange(0, i + 1)).drop_last() =~= lm_view(all.subrange(0, i as int)));
        assert(all[i as int] == p);
        if !str_eq(p.0.as_str(), k.as_str()) {
            proof {
                lemma_lm_push(out@, p);
            }
            out.push(p);
        }
        i += 1;
    }
    assert(all.subrange(0, i as int) =~= all);
    let ghost kv = (k@, v@);
    proof {
        lemma_lm_push(out@, (k, v));
    }
    out.push((k, v));
    out
}

/// Stores markup for a locale unless it already has some.
pub fn lm_set_if_absent_exec(m: Vec<(String, String)>, k: String, v: String) -> (r: Vec<(String, String)>)
    ensures
        lm_view(r@) == lm_set_if_absent(lm_view(m@), k@, v@),
{
    if lm_get_exec(&m, k.as_str()).is_some() {
        m
    } else {
        let mut m = m;
        proof {
            lemma_lm_push(m@, (k, v));
        }
        m.push((k, v));
        m
    }
}

fn is_blank(h: &Vec<char>) -> (r: bool)
    ensures
        r == blank(h@),
{
    trim_exec(h).len() == 0
}

/// The paragraphs of a description grouped by locale.
pub fn para_groups_exec(ns: &Vec<XmlNode>) -> (r: Vec<(String, String)>)
    ensures
        lm_view(r@) == para_groups(ns@),
{
    let mut g: Vec<(String, String)> = Vec::new();
    let mut i: usize = 0;
    while i < ns.len()
        invariant
            0 <= i <= ns@.len(),
            lm_view(g@) == para_groups(ns@.subrange(0, i as int)),
        decreases ns@.len() - i,
    {
        proof {
            lemma_prefix(ns@, i as int);
        }
        if let XmlNode::Element(p) = &ns[i] {
            let l = match attr_exec(p, "lang") {
                Some(l) => l,
                None => {
                    proof {
                        reveal_strlit("C");
                    }
                    String::from_str("C")
                },
            };
            let prev = lm_get_exec(&g, l.as_str());
            let mut joined: Vec<char> = match prev {
                Some(t) => chars_of(t.as_str()),
                None => Vec::new(),
            };
            let h = html_exec(p);
            crate::text::push_all(&mut joined, &h);
            g = lm_set_exec(g, l, string_of(&joined));
        }
        i += 1;
    }
    assert(ns@.subrange(0, i as int) =~= ns@);
    g
}

/// Adds the non-blank groups for locales that have no markup yet.
pub fn merge_absent_exec(m: Vec<(String, String)>, groups: Vec<(String, String)>) -> (r: Vec<
    (String, String),
>)
    ensures
        lm_view(r@) == merge_absent(lm_view(m@), lm_view(groups@)),
{
    let ghost m0 = lm_view(m@);
    let ghost all = groups@;
    let mut m = m;
    let mut rest = groups;
    let total: usize = rest.len();
    assert(all.len() == total);
    let mut i: usize = 0;
    assert(lm_view(all.subrange(0, 0)) =~= Seq::<(Seq<char>, Seq<char>)>::empty());
    while rest.len() > 0
        invariant
            rest@ == all.subrange(i as int, all.len() as int),
            i <= all.len(),
            all.len() <= usize::MAX,
            lm_view(m@) == merge_absent(m0, lm_view(all.subrange(0, i as int))),
        decreases rest@.len(),
    {
        let (k, v) = rest.remove(0);
        assert(rest@ =~= all.subrange(i as int + 1, all.len() as int));
        assert(lm_view(all.subrange(0, i + 1)).drop_last() =~= lm_view(all.subrange(0, i as int)));
        assert(all[i as int] == (k, v));
        let vv = chars_of(v.as_str());
        if !is_blank(&vv) {
            m = lm_set_if_absent_exec(m, k, v);
        }
        i += 1;
    }
    assert(all.subrange(0, i as int) =~= all);
    m
}

/// Applies one `<description>` element.
pub fn apply_desc_exec(m: Vec<(String, String)>, d: &XmlElement) -> (r: Vec<(String, String)>)
    ensures
        lm_view(r@) == apply_desc(lm_view(m@), *d),
{
    match attr_exec(d, "lang") {
        Some(l) => {
            let h = nodes_html_exec(&d.children);
            if is_blank(&h) {
                m
            } else {
                lm_set_exec(m, l, string_of(&h))
            }
        },
        None => {
            let g = para_groups_exec(&d.children);
            merge_absent_exec(m, g)
        },
    }
}

/// Applies every `<description>` child of a component.
pub fn apply_descs_exec(m: Vec<(String, String)>, comp: &XmlElement) -> (r: Vec<(String, String)>)
    ensures
        lm_view(r@) == apply_descs(lm_view(m@), comp.children@),
{
    let ghost m0 = lm_view(m@);
    let ns = &comp.children;
    let mut m = m;
    let mut i: usize = 0;
    while i < ns.len()
        invariant
            0 <= i <= ns@.len(),
            ns@ == comp.children@,
            lm_view(m@) == apply_descs(m0, ns@.subrange(0, i as int)),
        decreases ns@.len() - i,
    {
        proof {
            lemma_prefix(ns@, i as int);
        }
        if let XmlNode::Element(d) = &ns[i] {
            if str_eq(d.name.as_str(), "description") {
                m = apply_desc_exec(m, d);
            }
        }
        i += 1;
    }
    assert(ns@.subrange(0, i as int) =~= ns@);
    m
}


/// The child elements with this name, in order.
pub open spec fn named_elements(ns: Seq<XmlNode>, name: Seq<char>) -> Seq<XmlElement>
    decreases ns.len(),
{
    if ns.len() == 0 {
        Seq::empty()
    } else {
        let r = named_elements(ns.drop_last(), name);
        match ns.last() {
            XmlNode::Element(c) => if c.name@ == name {
                r.push(c)
            } else {
                r
            },
            _ => r,
        }
    }
}

/// The components of a document: the `<component>` children of a catalog
/// (`<components>` or `<collection>`), or the root itself when it is a
/// single `<component>`.
pub open spec fn components_of(root: XmlElement) -> Seq<XmlElement> {
    if root.name@ == "components"@ || root.name@ == "collection"@ {
        named_elements(root.children@, "component"@)
    } else if root.name@ == "component"@ {
        seq![root]
    } else {
        Seq::empty()
    }
}

/// A component's id: the trimmed text of its first `<id>`.
pub open spec fn component_id(c: XmlElement) -> Option<Seq<char>> {
    match first_named(c.children@, "id"@) {
        Some(e) => trimmed_text(e),
        None => None,
    }
}

/// The descriptions of every component with this id, applied in order.
pub open spec fn descs_for(comps: Seq<XmlElement>, id: Seq<char>) -> Seq<(Seq<char>, Seq<char>)>
    decreases comps.len(),
{
    if comps.len() == 0 {
        Seq::empty()
    } else {
        let m = descs_for(comps.drop_last(), id);
        if component_id(comps.last()) == Some(id) {
            apply_descs(m, comps.last().children@)
        } else {
            m
        }
    }
}

/// The markup for the first locale that has some, else the default one
/// (`C`), else nothing.
pub open spec fn pick_locale(m: Seq<(Seq<char>, Seq<char>)>, locales: Seq<Seq<char>>) -> Seq<char>
    decreases locales.len(),
{
    if locales.len() == 0 {
        or_empty(lm_get(m, "C"@))
    } else {
        match lm_get(m, locales[0]) {
            Some(v) => v,
            None => pick_locale(m, locales.drop_first()),
        }
    }
}

/// A component's id.
pub fn component_id_exec(c: &XmlElement) -> (r: Option<String>)
    ensures
        opt_view(r) == component_id(*c),
{
    match find_child(c, "id") {
        Some(e) => trimmed_text_exec(e),
        None => None,
    }
}

fn is_catalog_root(root: &XmlElement) -> (r: bool)
    ensures
        r == (root.name@ == "components"@ || root.name@ == "collection"@),
{
    str_eq(root.name.as_str(), "components") || str_eq(root.name.as_str(), "collection")
}

/// The descriptions by locale of the component(s) with this id.
pub fn descriptions_for(root: &XmlElement, id: &str) -> (r: Vec<(String, String)>)
    ensures
        lm_view(r@) == descs_for(components_of(*root), id@),
{
    let mut m: Vec<(String, String)> = Vec::new();
    assert(lm_view(m@) =~= Seq::<(Seq<char>, Seq<char>)>::empty());
    if is_catalog_root(root) {
        let ns = &root.children;
        let mut i: usize = 0;
        while i < ns.len()
            invariant
                0 <= i <= ns@.len(),
                ns@ == root.children@,
                lm_view(m@) == descs_for(named_elements(ns@.subrange(0, i as int), "component"@), id@),
            decreases ns@.len() - i,
        {
            proof {
                lemma_prefix(ns@, i as int);
            }
            if let XmlNode::Element(c) = &ns[i] {
                if str_eq(c.name.as_str(), "component") {
                    let ghost prev = named_elements(ns@.subrange(0, i as int), "component"@);
                    assert(named_elements(ns@.subrange(0, i + 1), "component"@).drop_last() =~= prev);
                    let cid = component_id_exec(c);
                    let same = match &cid {
                        Some(x) => str_eq(x.as_str(), id),
                        None => false,
                    };
                    if same {
                        m = apply_descs_exec(m, c);
                    }
                }
            }
            i += 1;
        }
        assert(ns@.subrange(0, i as int) =~= ns@);
        assert(lm_view(m@) == descs_for(components_of(*root), id@));
    } else if str_eq(root.name.as_str(), "component") {
        assert(seq![*root].drop_last() =~= Seq::<XmlElement>::empty());
        assert(seq![*root].last() == *root);
        assert(components_of(*root) == seq![*root]);
        assert(descs_for(Seq::<XmlElement>::empty(), id@) == Seq::<(Seq<char>, Seq<char>)>::empty());
        let cid = component_id_exec(root);
        let same = match &cid {
            Some(x) => str_eq(x.as_str(), id),
            None => false,
        };
        if same {
            m = apply_descs_exec(m, root);
        }
        assert(lm_view(m@) == descs_for(components_of(*root), id@));
    } else {
        assert(components_of(*root) =~= Seq::<XmlElement>::empty());
    }
    m
}

/// The markup for the first locale that has some, else the default one.
pub fn pick_locale_exec(m: &Vec<(String, String)>, locales: &Vec<String>) -> (r: String)
    ensures
        r@ == pick_locale(lm_view(m@), strings_view(locales@)),
{
    let mut i: usize = 0;
    assert(strings_view(locales@).subrange(0, locales@.len() as int) =~= strings_view(locales@));
    while i < locales.len()
        invariant
            0 <= i <= locales@.len(),
            pick_locale(lm_view(m@), strings_view(locales@)) == pick_locale(
                lm_view(m@),
                strings_view(locales@).subrange(i as int, locales@.len() as int),
            ),
        decreases locales@.len() - i,
    {
        let ghost rest = strings_view(locales@).subrange(i as int, locales@.len() as int);
        assert(rest.drop_first() =~= strings_view(locales@).subrange(i + 1, locales@.len() as int));
        assert(rest[0] == locales@[i as int]@);
        if let Some(v) = lm_get_exec(m, locales[i].as_str()) {
            return v;
        }
        i += 1;
    }
    assert(strings_view(locales@).subrange(i as int, locales@.len() as int) =~= Seq::<Seq<char>>::empty());
    proof {
        reveal_strlit("C");
    }
    match lm_get_exec(m, "C") {
        Some(v) => v,
        None => String::new(),
    }
}

/// The first `<value>` marking Flathub verification.
pub open spec fn first_verified_value(ns: Seq<XmlNode>) -> Option<XmlElement>
    decreases ns.len(),
{
    if ns.len() == 0 {
        None
    } else {
        match ns[0] {
            XmlNode::Element(c) => if c.name@ == "value"@ && attr_of(c, "key"@) == Some(
                "flathub::verification::verified"@,
            ) {
                Some(c)
            } else {
                first_verified_value(ns.drop_first())
            },
            _ => first_verified_value(ns.drop_first()),
        }
    }
}

/// Whether a component's custom data marks it verified by Flathub.
pub open spec fn component_verified(c: XmlElement) -> bool {
    match first_named(c.children@, "custom"@) {
        Some(cu) => match first_verified_value(cu.children@) {
            Some(v) => trimmed_text(v) == Some("true"@),
            None => false,
        },
        None => false,
    }
}

/// The ids of the verified components, in order.
pub open spec fn verified_ids(comps: Seq<XmlElement>) -> Seq<Seq<char>>
    decreases comps.len(),
{
    if comps.len() == 0 {
        Seq::empty()
    } else {
        let r = verified_ids(comps.drop_last());
        match component_id(comps.last()) {
            Some(id) => if component_verified(comps.last()) {
                r.push(id)
            } else {
                r
            },
            None => r,
        }
    }
}

fn find_verified_value(cu: &XmlElement) -> (r: Option<&XmlElement>)
    ensures
        match r {
            Some(v) => first_verified_value(cu.children@) == Some(*v),
            None => first_verified_value(cu.children@) is None,
        },
{
    let ns = &cu.children;
    let mut i: usize = 0;
    assert(ns@.subrange(0, ns@.len() as int) =~= ns@);
    while i < ns.len()
        invariant
            0 <= i <= ns@.len(),
            ns@ == cu.children@,
            first_verified_value(ns@) == first_verified_value(
                ns@.subrange(i as int, ns@.len() as int),
            ),
        decreases ns@.len() - i,
    {
        proof {
            lemma_rest(ns@, i as int);
        }
        if let XmlNode::Element(c) = &ns[i] {
            let is_value = str_eq(c.name.as_str(), "value");
            let key = attr_exec(c, "key");
            let marks = match &key {
                Some(k) => str_eq(k.as_str(), "flathub::verification::verified"),
                None => false,
            };
            if is_value && marks {
                proof {
                    let sub = ns@.subrange(i as int, ns@.len() as int);
                    assert(sub[0] == XmlNode::Element(*c));
                    assert(first_verified_value(sub) == Some(*c));
                }
                return Some(c);
            }
        }
        i += 1;
    }
    assert(ns@.subrange(i as int, ns@.len() as int) =~= Seq::<XmlNode>::empty());
    None
}

/// Whether a component is marked verified by Flathub.
pub fn component_verified_exec(c: &XmlElement) -> (r: bool)
    ensures
        r == component_verified(*c),
{
    match find_child(c, "custom") {
        Some(cu) => match find_verified_value(cu) {
            Some(v) => match trimmed_text_exec(v) {
                Some(t) => {
                    proof {
                        reveal_strlit("true");
                    }
                    str_eq(t.as_str(), "true")
                },
                None => false,
            },
            None => false,
        },
        None => false,
    }
}

/// The ids of the components of a document that Flathub marks verified.
pub fn extract_verifications(root: &XmlElement) -> (r: Vec<String>)
    ensures
        strings_view(r@) == verified_ids(components_of(*root)),
{
    let mut out: Vec<String> = Vec::new();
    assert(strings_view(out@) =~= Seq::<Seq<char>>::empty());
    if is_catalog_root(root) {
        let ns = &root.children;
        let mut i: usize = 0;
        while i < ns.len()
            invariant
                0 <= i <= ns@.len(),
                ns@ == root.children@,
                strings_view(out@) == verified_ids(named_elements(ns@.subrange(0, i as int), "component"@)),
            decreases ns@.len() - i,
        {
            proof {
                lemma_prefix(ns@, i as int);
            }
            if let XmlNode::Element(c) = &ns[i] {
                if str_eq(c.name.as_str(), "component") {
                    let ghost prev = named_elements(ns@.subrange(0, i as int), "component"@);
                    assert(named_elements(ns@.subrange(0, i + 1), "component"@).drop_last() =~= prev);
                    if let Some(id) = component_id_exec(c) {
                        if component_verified_exec(c) {
                            proof {
                                crate::fields::lemma_strings_view_push(out@, id);
                            }
                            out.push(id);
                        }
                    }
                }
            }
            i += 1;
        }
        assert(ns@.subrange(0, i as int) =~= ns@);
        assert(strings_view(out@) == verified_ids(components_of(*root)));
    } else if str_eq(root.name.as_str(), "component") {
        assert(seq![*root].drop_last() =~= Seq::<XmlElement>::empty());
        assert(seq![*root].last() == *root);
        assert(components_of(*root) == seq![*root]);
        assert(verified_ids(Seq::<XmlElement>::empty()) == Seq::<Seq<char>>::empty());
        if let Some(id) = component_id_exec(root) {
            if component_verified_exec(root) {
                proof {
                    crate::fields::lemma_strings_view_push(out@, id);
                }
                out.push(id);
                assert(strings_view(out@) =~= seq![id@]);
                assert(verified_ids(seq![*root]) =~= seq![id@]);
            } else {
                assert(verified_ids(seq![*root]) =~= Seq::<Seq<char>>::empty());
            }
        } else {
            assert(verified_ids(seq![*root]) =~= Seq::<Seq<char>>::empty());
        }
        assert(strings_view(out@) == verified_ids(components_of(*root)));
    } else {
        assert(components_of(*root) =~= Seq::<XmlElement>::empty());
    }
    out
}


/// The text of the last `tag` child without a `lang` attribute (empty if none).
pub open spec fn default_text(ns: Seq<XmlNode>, tag: Seq<char>) -> Seq<char>
    decreases ns.len(),
{
    if ns.len() == 0 {
        Seq::empty()
    } else {
        match ns.last() {
            XmlNode::Element(c) => if c.name@ == tag && attr_of(c, "lang"@) is None {
                or_empty(trimmed_text(c))
            } else {
                default_text(ns.drop_last(), tag)
            },
            _ => default_text(ns.drop_last(), tag),
        }
    }
}

/// The text of the last `tag` child in this locale.
pub open spec fn lang_text(ns: Seq<XmlNode>, tag: Seq<char>, lang: Seq<char>) -> Option<Seq<char>>
    decreases ns.len(),
{
    if ns.len() == 0 {
        None
    } else {
        match ns.last() {
            XmlNode::Element(c) => if c.name@ == tag && attr_of(c, "lang"@) == Some(lang) {
                Some(or_empty(trimmed_text(c)))
            } else {
                lang_text(ns.drop_last(), tag, lang)
            },
            _ => lang_text(ns.drop_last(), tag, lang),
        }
    }
}

/// A translatable field: the text for the first locale that has one, else
/// the untranslated text.
pub open spec fn pick_text(ns: Seq<XmlNode>, tag: Seq<char>, locales: Seq<Seq<char>>) -> Seq<char>
    decreases locales.len(),
{
    if locales.len() == 0 {
        default_text(ns, tag)
    } else {
        match lang_text(ns, tag, locales[0]) {
            Some(t) => t,
            None => pick_text(ns, tag, locales.drop_first()),
        }
    }
}

/// The developer a child names: `<developer_name>`'s text, or the text of
/// the `<name>` inside `<developer>`.
pub open spec fn dev_of(n: XmlNode) -> Option<Seq<char>> {
    match n {
        XmlNode::Element(e) => if e.name@ == "developer_name"@ {
            trimmed_text(e)
        } else if e.name@ == "developer"@ {
            match first_named(e.children@, "name"@) {
                Some(c) => trimmed_text(c),
                None => None,
            }
        } else {
            None
        },
        _ => None,
    }
}

/// The first developer named among the children.
pub open spec fn dev_name(ns: Seq<XmlNode>) -> Option<Seq<char>>
    decreases ns.len(),
{
    if ns.len() == 0 {
        None
    } else {
        match dev_of(ns[0]) {
            Some(x) => Some(x),
            None => dev_name(ns.drop_first()),
        }
    }
}

/// The first `<url type="homepage">`.
pub open spec fn first_homepage(ns: Seq<XmlNode>) -> Option<XmlElement>
    decreases ns.len(),
{
    if ns.len() == 0 {
        None
    } else {
        match ns[0] {
            XmlNode::Element(c) => if c.name@ == "url"@ && attr_of(c, "type"@) == Some("homepage"@) {
                Some(c)
            } else {
                first_homepage(ns.drop_first())
            },
            _ => first_homepage(ns.drop_first()),
        }
    }
}

/// The trimmed texts of the child elements that have text.
pub open spec fn element_texts(ns: Seq<XmlNode>) -> Seq<Seq<char>>
    decreases ns.len(),
{
    if ns.len() == 0 {
        Seq::empty()
    } else {
        let r = element_texts(ns.drop_last());
        match ns.last() {
            XmlNode::Element(c) => match trimmed_text(c) {
                Some(t) => r.push(t),
                None => r,
            },
            _ => r,
        }
    }
}

/// The image URLs of `<screenshot>` children (those with an `<image>` that
/// has text).
pub open spec fn shot_images(ns: Seq<XmlNode>) -> Seq<Seq<char>>
    decreases ns.len(),
{
    if ns.len() == 0 {
        Seq::empty()
    } else {
        let r = shot_images(ns.drop_last());
        match ns.last() {
            XmlNode::Element(c) => if c.name@ == "screenshot"@ {
                match first_named(c.children@, "image"@) {
                    Some(img) => match trimmed_text(img) {
                        Some(t) => r.push(t),
                        None => r,
                    },
                    None => r,
                }
            } else {
                r
            },
            _ => r,
        }
    }
}

/// At most the first five.
pub open spec fn first_five(s: Seq<Seq<char>>) -> Seq<Seq<char>> {
    if s.len() > 5 {
        s.take(5)
    } else {
        s
    }
}

/// The text of an optional element.
pub open spec fn text_in(e: Option<XmlElement>) -> Option<Seq<char>> {
    match e {
        Some(c) => trimmed_text(c),
        None => None,
    }
}

/// The age label of a document's content rating (empty without one).
pub open spec fn rating_of(root: XmlElement) -> Seq<char> {
    match first_named(root.children@, "content_rating"@) {
        Some(r) => rating_label(
            max_of(element_texts(r.children@).map_values(|v: Seq<char>| spec_severity(v))),
        ),
        None => Seq::empty(),
    }
}

/// The screenshots of a document (at most five).
pub open spec fn screenshots_of(root: XmlElement) -> Seq<Seq<char>> {
    match first_named(root.children@, "screenshots"@) {
        Some(ss) => first_five(shot_images(ss.children@)),
        None => Seq::empty(),
    }
}

/// The id whose descriptions a metainfo document carries: its own `<id>`,
/// else the id asked for.
pub open spec fn metainfo_id(root: XmlElement, id: Seq<char>) -> Seq<char> {
    match component_id(root) {
        Some(c) => c,
        None => id,
    }
}

fn default_text_exec(ns: &Vec<XmlNode>, tag: &str) -> (r: String)
    ensures
        r@ == default_text(ns@, tag@),
{
    let mut r = String::new();
    let mut i: usize = 0;
    while i < ns.len()
        invariant
            0 <= i <= ns@.len(),
            r@ == default_text(ns@.subrange(0, i as int), tag@),
        decreases ns@.len() - i,
    {
        proof {
            lemma_prefix(ns@, i as int);
        }
        if let XmlNode::Element(c) = &ns[i] {
            if str_eq(c.name.as_str(), tag) && attr_exec(c, "lang").is_none() {
                r = crate::deeplink::or_empty_string(trimmed_text_exec(c));
            }
        }
        i += 1;
    }
    assert(ns@.subrange(0, i as int) =~= ns@);
    r
}

fn lang_text_exec(ns: &Vec<XmlNode>, tag: &str, lang: &str) -> (r: Option<String>)
    ensures
        opt_view(r) == lang_text(ns@, tag@, lang@),
{
    let mut r: Option<String> = None;
    let mut i: usize = 0;
    while i < ns.len()
        invariant
            0 <= i <= ns@.len(),
            opt_view(r) == lang_text(ns@.subrange(0, i as int), tag@, lang@),
        decreases ns@.len() - i,
    {
        proof {
            lemma_prefix(ns@, i as int);
        }
        if let XmlNode::Element(c) = &ns[i] {
            let matches_lang = match attr_exec(c, "lang") {
                Some(l) => str_eq(l.as_str(), lang),
                None => false,
            };
            if str_eq(c.name.as_str(), tag) && matches_lang {
                r = Some(crate::deeplink::or_empty_string(trimmed_text_exec(c)));
            }
        }
        i += 1;
    }
    assert(ns@.subrange(0, i as int) =~= ns@);
    r
}

/// A translatable field of a document.
pub fn pick_text_exec(ns: &Vec<XmlNode>, tag: &str, locales: &Vec<String>) -> (r: String)
    ensures
        r@ == pick_text(ns@, tag@, strings_view(locales@)),
{
    let mut i: usize = 0;
    assert(strings_view(locales@).subrange(0, locales@.len() as int) =~= strings_view(locales@));
    while i < locales.len()
        invariant
            0 <= i <= locales@.len(),
            pick_text(ns@, tag@, strings_view(locales@)) == pick_text(
                ns@,
                tag@,
                strings_view(locales@).subrange(i as int, locales@.len() as int),
            ),
        decreases locales@.len() - i,
    {
        let ghost rest = strings_view(locales@).subrange(i as int, locales@.len() as int);
        assert(rest.drop_first() =~= strings_view(locales@).subrange(i + 1, locales@.len() as int));
        assert(rest[0] == locales@[i as int]@);
        if let Some(t) = lang_text_exec(ns, tag, locales[i].as_str()) {
            return t;
        }
        i += 1;
    }
    assert(strings_view(locales@).subrange(i as int, locales@.len() as int) =~= Seq::<Seq<char>>::empty());
    default_text_exec(ns, tag)
}

fn dev_of_exec(n: &XmlNode) -> (r: Option<String>)
    ensures
        opt_view(r) == dev_of(*n),
{
    match n {
        XmlNode::Element(e) => if str_eq(e.name.as_str(), "developer_name") {
            trimmed_text_exec(e)
        } else if str_eq(e.name.as_str(), "developer") {
            match find_child(e, "name") {
                Some(c) => trimmed_text_exec(c),
                None => None,
            }
        } else {
            None
        },
        _ => None,
    }
}

/// The developer a document names.
pub fn dev_name_exec(ns: &Vec<XmlNode>) -> (r: Option<String>)
    ensures
        opt_view(r) == dev_name(ns@),
{
    let mut i: usize = 0;
    assert(ns@.subrange(0, ns@.len() as int) =~= ns@);
    while i < ns.len()
        invariant
            0 <= i <= ns@.len(),
            dev_name(ns@) == dev_name(ns@.subrange(i as int, ns@.len() as int)),
        decreases ns@.len() - i,
    {
        proof {
            lemma_rest(ns@, i as int);
        }
        if let Some(d) = dev_of_exec(&ns[i]) {
            return Some(d);
        }
        i += 1;
    }
    assert(ns@.subrange(i as int, ns@.len() as int) =~= Seq::<XmlNode>::empty());
    None
}

fn homepage_exec(ns: &Vec<XmlNode>) -> (r: Option<String>)
    ensures
        opt_view(r) == text_in(first_homepage(ns@)),
{
    let mut i: usize = 0;
    assert(ns@.subrange(0, ns@.len() as int) =~= ns@);
    while i < ns.len()
        invariant
            0 <= i <= ns@.len(),
            first_homepage(ns@) == first_homepage(ns@.subrange(i as int, ns@.len() as int)),
        decreases ns@.len() - i,
    {
        proof {
            lemma_rest(ns@, i as int);
        }
        if let XmlNode::Element(c) = &ns[i] {
            let is_home = match attr_exec(c, "type") {
                Some(t) => str_eq(t.as_str(), "homepage"),
                None => false,
            };
            if str_eq(c.name.as_str(), "url") && is_home {
                proof {
                    let sub = ns@.subrange(i as int, ns@.len() as int);
                    assert(sub[0] == XmlNode::Element(*c));
                    assert(first_homepage(sub) == Some(*c));
                }
                return trimmed_text_exec(c);
            }
        }
        i += 1;
    }
    assert(ns@.subrange(i as int, ns@.len() as int) =~= Seq::<XmlNode>::empty());
    None
}

fn element_texts_exec(ns: &Vec<XmlNode>) -> (r: Vec<String>)
    ensures
        strings_view(r@) == element_texts(ns@),
{
    let mut r: Vec<String> = Vec::new();
    let mut i: usize = 0;
    assert(strings_view(r@) =~= Seq::<Seq<char>>::empty());
    while i < ns.len()
        invariant
            0 <= i <= ns@.len(),
            strings_view(r@) == element_texts(ns@.subrange(0, i as int)),
        decreases ns@.len() - i,
    {
        proof {
            lemma_prefix(ns@, i as int);
        }
        if let XmlNode::Element(c) = &ns[i] {
            if let Some(t) = trimmed_text_exec(c) {
                proof {
                    crate::fields::lemma_strings_view_push(r@, t);
                }
                r.push(t);
            }
        }
        i += 1;
    }
    assert(ns@.subrange(0, i as int) =~= ns@);
    r
}

fn shot_images_exec(ns: &Vec<XmlNode>) -> (r: Vec<String>)
    ensures
        strings_view(r@) == shot_images(ns@),
{
    let mut r: Vec<String> = Vec::new();
    let mut i: usize = 0;
    assert(strings_view(r@) =~= Seq::<Seq<char>>::empty());
    while i < ns.len()
        invariant
            0 <= i <= ns@.len(),
            strings_view(r@) == shot_images(ns@.subrange(0, i as int)),
        decreases ns@.len() - i,
    {
        proof {
            lemma_prefix(ns@, i as int);
        }
        if let XmlNode::Element(c) = &ns[i] {
            if str_eq(c.name.as_str(), "screenshot") {
                if let Some(img) = find_child(c, "image") {
                    if let Some(t) = trimmed_text_exec(img) {
                        proof {
                            crate::fields::lemma_strings_view_push(r@, t);
                        }
                        r.push(t);
                    }
                }
            }
        }
        i += 1;
    }
    assert(ns@.subrange(0, i as int) =~= ns@);
    r
}

fn screenshots_exec(root: &XmlElement) -> (r: Vec<String>)
    ensures
        strings_view(r@) == screenshots_of(*root),
{
    match find_child(root, "screenshots") {
        Some(ss) => {
            let mut all = shot_images_exec(&ss.children);
            let ghost full = all@;
            if all.len() > 5 {
                all.truncate(5);
                assert(strings_view(all@) =~= strings_view(full).take(5));
            }
            all
        },
        None => {
            let r: Vec<String> = Vec::new();
            assert(strings_view(r@) =~= Seq::<Seq<char>>::empty());
            r
        },
    }
}


/// Reads a metainfo document into a catalog entry for `id`: the name and
/// summary in the first of `locales` that has them, the description markup
/// likewise (falling back to the untranslated one), the developer, license
/// (and EULA link), homepage, content rating and up to five screenshots.
pub fn parse_metainfo(id: &str, root: &XmlElement, locales: &Vec<String>) -> (r: AppStreamEntry)
    ensures
        r.id@ == id@,
        r.name@ == pick_text(root.children@, "name"@, strings_view(locales@)),
        r.summary@ == pick_text(root.children@, "summary"@, strings_view(locales@)),
        r.description@ == pick_locale(
            descs_for(components_of(*root), metainfo_id(*root, id@)),
            strings_view(locales@),
        ),
        r.icon_url is None,
        r.remote is None,
        strings_view(r.screenshots@) == screenshots_of(*root),
        (opt_view(r.license), opt_view(r.eula_url)) == spec_license(
            text_in(first_named(root.children@, "project_license"@)),
        ),
        opt_view(r.homepage_url) == text_in(first_homepage(root.children@)),
        r.content_rating@ == rating_of(*root),
        opt_view(r.developer_name) == dev_name(root.children@),
        !r.verified,
        r.categories@.len() == 0,
{
    let name = pick_text_exec(&root.children, "name", locales);
    let summary = pick_text_exec(&root.children, "summary", locales);
    let developer_name = dev_name_exec(&root.children);
    let comp_id = match component_id_exec(root) {
        Some(c) => c,
        None => id.to_string(),
    };
    let descs = descriptions_for(root, comp_id.as_str());
    let description = pick_locale_exec(&descs, locales);
    let license_raw = match find_child(root, "project_license") {
        Some(e) => trimmed_text_exec(e),
        None => None,
    };
    let (license, eula_url) = classify_license(license_raw);
    let homepage_url = homepage_exec(&root.children);
    let content_rating = match find_child(root, "content_rating") {
        Some(rating) => {
            let values = element_texts_exec(&rating.children);
            content_rating_label(&values)
        },
        None => String::new(),
    };
    let screenshots = screenshots_exec(root);
    AppStreamEntry {
        id: id.to_string(),
        name,
        summary,
        description,
        icon_url: None,
        remote: None,
        screenshots,
        license,
        eula_url,
        homepage_url,
        content_rating,
        developer_name,
        verified: false,
        categories: Vec::new(),
    }
}

/// Parses metainfo bytes and reads them into a catalog entry; `None` when
/// they are not well-formed XML.
pub fn parse_metainfo_bytes(id: &str, bytes: &[u8], locales: &Vec<String>) -> (r: Option<
    AppStreamEntry,
>)
    ensures
        match xml_document(bytes@) {
            None => r is None,
            Some(root) => r matches Some(e) && e.id@ == id@ && e.name@ == pick_text(
                root.children@,
                "name"@,
                strings_view(locales@),
            ) && e.summary@ == pick_text(root.children@, "summary"@, strings_view(locales@))
                && e.description@ == pick_locale(
                descs_for(components_of(root), metainfo_id(root, id@)),
                strings_view(locales@),
            ) && strings_view(e.screenshots@) == screenshots_of(root) && (
            opt_view(e.license),
            opt_view(e.eula_url),
            ) == spec_license(text_in(first_named(root.children@, "project_license"@)))
                && opt_view(e.homepage_url) == text_in(first_homepage(root.children@))
                && e.content_rating@ == rating_of(root) && opt_view(e.developer_name) == dev_name(
                root.children@,
            ) && !e.verified && e.icon_url is None && e.remote is None && e.categories@.len()
                == 0,
        },
{
    match parse_xml(bytes) {
        Some(root) => Some(parse_metainfo(id, &root, locales)),
        None => None,
    }
}

/// The Flathub-verified component ids of catalog XML (nothing when it is
/// not well-formed).
pub fn extract_verifications_bytes(bytes: &[u8]) -> (r: Vec<String>)
    ensures
        strings_view(r@) == match xml_document(bytes@) {
            Some(root) => verified_ids(components_of(root)),
            None => Seq::<Seq<char>>::empty(),
        },
{
    match parse_xml(bytes) {
        Some(root) => extract_verifications(&root),
        None => {
            let r: Vec<String> = Vec::new();
            assert(strings_view(r@) =~= Seq::<Seq<char>>::empty());
            r
        },
    }
}

/// The folders an installed app's exported metainfo is looked for in: the
/// system installation's, then (with a home folder) the user's; in each the
/// metainfo folder before the older appdata one.
pub open spec fn metainfo_dirs(home: Option<Seq<char>>) -> Seq<Seq<char>> {
    let system = seq![
        "/var/lib/flatpak/exports/share/metainfo"@,
        "/var/lib/flatpak/exports/share/appdata"@,
    ];
    match home {
        Some(h) => system + seq![
            crate::text::path_join(h, ".local/share/flatpak/exports/share/metainfo"@),
            crate::text::path_join(h, ".local/share/flatpak/exports/share/appdata"@),
        ],
        None => system,
    }
}

/// The files an installed app's metainfo is looked for in, in order: in each
/// folder of `metainfo_dirs`, `<id>.metainfo.xml` then `<id>.appdata.xml`.
pub open spec fn metainfo_candidates_of(id: Seq<char>, home: Option<Seq<char>>) -> Seq<Seq<char>> {
    let dirs = metainfo_dirs(home);
    Seq::new(
        2 * dirs.len(),
        |k: int|
            crate::text::path_join(
                dirs[k / 2],
                id + if k % 2 == 0 {
                    ".metainfo.xml"@
                } else {
                    ".appdata.xml"@
                },
            ),
    )
}

/// The files an installed app's exported metainfo is looked for in, in the
/// order they are tried.
pub fn metainfo_candidates(id: &str, home: &Option<String>) -> (r: Vec<String>)
    ensures
        strings_view(r@) == metainfo_candidates_of(
            id@,
            match home {
                Some(h) => Some(h@),
                None => None,
            },
        ),
{
    let mut dirs: Vec<Vec<char>> = Vec::new();
    dirs.push(chars_of("/var/lib/flatpak/exports/share/metainfo"));
    dirs.push(chars_of("/var/lib/flatpak/exports/share/appdata"));
    match home {
        Some(h) => {
            let hv = chars_of(h.as_str());
            dirs.push(crate::text::path_join_exec(&hv, &chars_of(".local/share/flatpak/exports/share/metainfo")));
            dirs.push(crate::text::path_join_exec(&hv, &chars_of(".local/share/flatpak/exports/share/appdata")));
        },
        None => {},
    }
    let ghost hv: Option<Seq<char>> = match home {
        Some(h) => Some(h@),
        None => None,
    };
    let ghost ds = metainfo_dirs(hv);
    assert(dirs@.map_values(|d: Vec<char>| d@) =~= ds);
    let mut r: Vec<String> = Vec::new();
    let mut i: usize = 0;
    while i < dirs.len()
        invariant
            0 <= i <= dirs@.len(),
            dirs@.len() == ds.len(),
            dirs@.len() <= 4,
            forall|j: int| 0 <= j < dirs@.len() ==> (#[trigger] dirs@[j])@ == ds[j],
            r@.len() == 2 * i,
            forall|k: int|
                0 <= k < 2 * i ==> (#[trigger] r@[k])@ == crate::text::path_join(
                    ds[k / 2],
                    id@ + if k % 2 == 0 {
                        ".metainfo.xml"@
                    } else {
                        ".appdata.xml"@
                    },
                ),
        decreases dirs@.len() - i,
    {
        let mut a: Vec<char> = chars_of(id);
        push_str(&mut a, ".metainfo.xml");
        let mut b: Vec<char> = chars_of(id);
        push_str(&mut b, ".appdata.xml");
        let pa = string_of(&crate::text::path_join_exec(&dirs[i], &a));
        let pb = string_of(&crate::text::path_join_exec(&dirs[i], &b));
        let ghost before = r@;
        r.push(pa);
        r.push(pb);
        proof {
            assert forall|k: int| 0 <= k < 2 * (i + 1) implies (#[trigger] r@[k])@
                == crate::text::path_join(
                ds[k / 2],
                id@ + if k % 2 == 0 {
                    ".metainfo.xml"@
                } else {
                    ".appdata.xml"@
                },
            ) by {
                if k < 2 * i {
                    assert(r@[k] == before[k]);
                } else if k == 2 * i {
                    assert(k / 2 == i as int);
                } else {
                    assert(k / 2 == i as int);
                    assert(k % 2 == 1);
                }
            }
        }
        i += 1;
    }
    assert(strings_view(r@) =~= metainfo_candidates_of(id@, hv));
    r
}

} // verus!
