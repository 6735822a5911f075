//! Reading catalog components with the `appstream` crate: the crate parses a
//! catalog's XML, and each parsed component is copied, field by field, into
//! the plain `CatalogComponent` that the catalog logic works on.

use vstd::prelude::*;
use appstream::enums::{Bundle, ProjectUrl as Url};
use std::io::Read;
use crate::catalog::{
    CatalogComponent, ComponentBundle, ComponentIcon, ProjectLink, Screenshot,
    ShotImage, entry_from_block,
};
use crate::appstream::{AppStreamEntry, extract_component_block, spec_component_block};
use vstd::utf8::{valid_utf8, decode_utf8, encode_utf8};
use crate::catalog::{is_entry_of, lookup_after};
use crate::xml::{xml_document, parse_xml, XmlElement, XmlNode};
use crate::metainfo::{components_of, verified_ids};
use crate::appstream::{extension_of, path_extension};
use crate::text::{str_eq, chars_of, string_of, strings_view, path_join, path_join_exec, opt_view};

verus! {

/// A component as the `appstream` crate parses it.
#[verifier::external_type_specification]
#[verifier::external_body]
pub struct ExAppstreamComponent(appstream::Component);

/// An XML element as the `xmltree` version that `appstream` reads with
/// parses it.
#[verifier::external_type_specification]
#[verifier::external_body]
pub struct ExAppstreamElement(appstream::xmltree::Element);

/// The element child of `x` at `k`, if that child is an element.
pub open spec fn child_element(x: XmlElement, k: int) -> Option<XmlElement> {
    match x.children@[k] {
        XmlNode::Element(e) => Some(e),
        _ => None,
    }
}

/// The child of `x` at `k` is an element named `name`.
pub open spec fn is_child_named(x: XmlElement, k: int, name: Seq<char>) -> bool {
    child_element(x, k) is Some && child_element(x, k)->0.name@ == name
}

/// `x` has an attribute named `name`.
pub open spec fn has_attribute(x: XmlElement, name: Seq<char>) -> bool {
    exists|k: int| 0 <= k < x.attributes@.len() && (#[trigger] x.attributes@[k]).0@ == name
}

/// `x` has a child element named `name`.
pub open spec fn has_child_named(x: XmlElement, name: Seq<char>) -> bool {
    exists|k: int| 0 <= k < x.children@.len() && #[trigger] is_child_named(x, k, name)
}

/// A release artifact the `appstream` crate can build: it has a `type` and
/// a `location`.
pub open spec fn artifact_complete(a: XmlElement) -> bool {
    has_attribute(a, "type"@) && has_child_named(a, "location"@)
}

/// Every element in an `<artifacts>` list is a complete artifact.
pub open spec fn artifacts_complete(x: XmlElement) -> bool {
    forall|k: int|
        0 <= k < x.children@.len() && (#[trigger] child_element(x, k)) is Some ==> artifact_complete(
            child_element(x, k)->0,
        )
}

/// Every `<artifacts>` list of a release is complete.
pub open spec fn release_complete(r: XmlElement) -> bool {
    forall|k: int|
        0 <= k < r.children@.len() && #[trigger] is_child_named(r, k, "artifacts"@)
            ==> artifacts_complete(child_element(r, k)->0)
}

/// Every release of a `<releases>` list is complete.
pub open spec fn releases_complete(x: XmlElement) -> bool {
    forall|k: int|
        0 <= k < x.children@.len() && (#[trigger] child_element(x, k)) is Some ==> release_complete(
            child_element(x, k)->0,
        )
}

/// Every `<releases>` list of a component is complete.
pub open spec fn component_complete(c: XmlElement) -> bool {
    forall|k: int|
        0 <= k < c.children@.len() && #[trigger] is_child_named(c, k, "releases"@)
            ==> releases_complete(child_element(c, k)->0)
}

/// A catalog the `appstream` crate reads without aborting: every artifact
/// of every release of every `<component>` has a `type` and a `location`
/// (the crate stops the program on an artifact without one).
pub open spec fn catalog_readable(root: XmlElement) -> bool {
    forall|k: int|
        0 <= k < root.children@.len() && #[trigger] is_child_named(root, k, "component"@)
            ==> component_complete(child_element(root, k)->0)
}

fn child_is(x: &XmlElement, k: usize, name: &str) -> (r: bool)
    requires
        k < x.children@.len(),
    ensures
        r == is_child_named(*x, k as int, name@),
{
    match &x.children[k] {
        XmlNode::Element(e) => str_eq(e.name.as_str(), name),
        _ => false,
    }
}

fn has_attribute_exec(x: &XmlElement, name: &str) -> (r: bool)
    ensures
        r == has_attribute(*x, name@),
{
    let mut i: usize = 0;
    while i < x.attributes.len()
        invariant
            0 <= i <= x.attributes@.len(),
            forall|k: int| 0 <= k < i ==> (#[trigger] x.attributes@[k]).0@ != name@,
        decreases x.attributes@.len() - i,
    {
        if str_eq(x.attributes[i].0.as_str(), name) {
            return true;
        }
        i += 1;
    }
    false
}

fn has_child_named_exec(x: &XmlElement, name: &str) -> (r: bool)
    ensures
        r == has_child_named(*x, name@),
{
    let mut i: usize = 0;
    while i < x.children.len()
        invariant
            0 <= i <= x.children@.len(),
            forall|k: int| 0 <= k < i ==> !(#[trigger] is_child_named(*x, k, name@)),
        decreases x.children@.len() - i,
    {
        if child_is(x, i, name) {
            return true;
        }
        i += 1;
    }
    false
}

fn artifacts_complete_exec(x: &XmlElement) -> (r: bool)
    ensures
        r == artifacts_complete(*x),
{
    let mut i: usize = 0;
    while i < x.children.len()
        invariant
            0 <= i <= x.children@.len(),
            forall|k: int|
                0 <= k < i && (#[trigger] child_element(*x, k)) is Some ==> artifact_complete(
                    child_element(*x, k)->0,
                ),
        decreases x.children@.len() - i,
    {
        match &x.children[i] {
            XmlNode::Element(a) => {
                assert(child_element(*x, i as int) == Some(*a));
                if !(has_attribute_exec(a, "type") && has_child_named_exec(a, "location")) {
                    return false;
                }
            },
            _ => {
                assert(child_element(*x, i as int) is None);
            },
        }
        i += 1;
    }
    true
}

fn release_complete_exec(r: &XmlElement) -> (ok: bool)
    ensures
        ok == release_complete(*r),
{
    let mut i: usize = 0;
    while i < r.children.len()
        invariant
            0 <= i <= r.children@.len(),
            forall|k: int|
                0 <= k < i && #[trigger] is_child_named(*r, k, "artifacts"@) ==> artifacts_complete(
                    child_element(*r, k)->0,
                ),
        decreases r.children@.len() - i,
    {
        if child_is(r, i, "artifacts") {
            match &r.children[i] {
                XmlNode::Element(a) => {
                    assert(child_element(*r, i as int) == Some(*a));
                    if !artifacts_complete_exec(a) {
                        return false;
                    }
                },
                _ => {},
            }
        }
        i += 1;
    }
    true
}

fn releases_complete_exec(x: &XmlElement) -> (r: bool)
    ensures
        r == releases_complete(*x),
{
    let mut i: usize = 0;
    while i < x.children.len()
        invariant
            0 <= i <= x.children@.len(),
            forall|k: int|
                0 <= k < i && (#[trigger] child_element(*x, k)) is Some ==> release_complete(
                    child_element(*x, k)->0,
                ),
        decreases x.children@.len() - i,
    {
        match &x.children[i] {
            XmlNode::Element(e) => {
                assert(child_element(*x, i as int) == Some(*e));
                if !release_complete_exec(e) {
                    return false;
                }
            },
            _ => {
                assert(child_element(*x, i as int) is None);
            },
        }
        i += 1;
    }
    true
}

fn component_complete_exec(c: &XmlElement) -> (r: bool)
    ensures
        r == component_complete(*c),
{
    let mut i: usize = 0;
    while i < c.children.len()
        invariant
            0 <= i <= c.children@.len(),
            forall|k: int|
                0 <= k < i && #[trigger] is_child_named(*c, k, "releases"@) ==> releases_complete(
                    child_element(*c, k)->0,
                ),
        decreases c.children@.len() - i,
    {
        if child_is(c, i, "releases") {
            match &c.children[i] {
                XmlNode::Element(e) => {
                    assert(child_element(*c, i as int) == Some(*e));
                    if !releases_complete_exec(e) {
                        return false;
                    }
                },
                _ => {},
            }
        }
        i += 1;
    }
    true
}

/// Whether the `appstream` crate reads this catalog document without
/// aborting (see `catalog_readable`).
pub fn is_catalog_readable(root: &XmlElement) -> (r: bool)
    ensures
        r == catalog_readable(*root),
{
    let mut i: usize = 0;
    while i < root.children.len()
        invariant
            0 <= i <= root.children@.len(),
            forall|k: int|
                0 <= k < i && #[trigger] is_child_named(*root, k, "component"@) ==> component_complete(
                    child_element(*root, k)->0,
                ),
        decreases root.children@.len() - i,
    {
        if child_is(root, i, "component") {
            match &root.children[i] {
                XmlNode::Element(e) => {
                    assert(child_element(*root, i as int) == Some(*e));
                    if !component_complete_exec(e) {
                        return false;
                    }
                },
                _ => {},
            }
        }
        i += 1;
    }
    true
}

/// Copies a document into the element type of the `xmltree` version the
/// `appstream` crate reads, node for node (comments and processing
/// instructions, which the crate skips, as empty comments).
#[verifier::external_body]
fn appstream_element_of(x: &XmlElement) -> appstream::xmltree::Element {
    let mut e = appstream::xmltree::Element::new(&x.name);
    e.attributes = x.attributes.iter().cloned().collect();
    e.children = x.children.iter().map(|n| match n {
        XmlNode::Element(c) => appstream::xmltree::XMLNode::Element(appstream_element_of(c)),
        XmlNode::Text(t) => appstream::xmltree::XMLNode::Text(t.clone()),
        XmlNode::CData(t) => appstream::xmltree::XMLNode::CData(t.clone()),
        XmlNode::Other => appstream::xmltree::XMLNode::Comment(String::new()),
    }).collect();
    e
}

/// What `appstream::Collection::try_from` reads from a catalog document,
/// each component copied into plain values (`None` when the crate rejects
/// the document).
pub uninterp spec fn appstream_components(root: XmlElement) -> Option<Seq<CatalogComponent>>;

/// Reads the components of a catalog document with
/// `appstream::Collection::try_from`; the result is named by
/// `appstream_components`. Only a document the crate reads without aborting
/// is handed to it.
#[verifier::external_body]
fn read_collection(root: &XmlElement) -> (r: Option<Vec<CatalogComponent>>)
    requires
        catalog_readable(*root),
    ensures
        match r {
            Some(v) => appstream_components(*root) == Some(v@),
            None => appstream_components(*root) is None,
        },
{
    appstream::Collection::try_from(&appstream_element_of(root)).ok()
        .map(|c| c.components.iter().map(catalog_component).collect())
}

/// The component's id, by `AppId`'s `Display`.
#[verifier::external_body]
fn component_id(c: &appstream::Component) -> String {
    c.id.to_string()
}

/// The component's type, by its variant name (`Debug`).
#[verifier::external_body]
fn component_kind(c: &appstream::Component) -> String {
    format!("{:?}", c.kind)
}

/// The component's names by locale.
#[verifier::external_body]
fn component_name(c: &appstream::Component) -> Vec<(String, String)> {
    c.name.0.iter().map(|(k, v)| (k.clone(), v.clone())).collect()
}

/// The component's summaries by locale, if it has any.
#[verifier::external_body]
fn component_summary(c: &appstream::Component) -> Option<Vec<(String, String)>> {
    c.summary.as_ref().map(|s| s.0.iter().map(|(k, v)| (k.clone(), v.clone())).collect())
}

/// The component's descriptions by locale, if it has any.
#[verifier::external_body]
fn component_description(c: &appstream::Component) -> Option<Vec<(String, String)>> {
    c.description.as_ref().map(|s| s.0.iter().map(|(k, v)| (k.clone(), v.clone())).collect())
}

/// The component's developer names by locale, if it has any.
#[verifier::external_body]
fn component_developer(c: &appstream::Component) -> Option<Vec<(String, String)>> {
    c.developer_name.as_ref().map(|s| s.0.iter().map(|(k, v)| (k.clone(), v.clone())).collect())
}

/// The component's icons, paths and URLs as text.
#[verifier::external_body]
fn component_icons(c: &appstream::Component) -> Vec<ComponentIcon> {
    c.icons.iter().map(|i| match i {
        appstream::enums::Icon::Stock(n) => ComponentIcon::Stock(n.clone()),
        appstream::enums::Icon::Cached { path, width, .. } => ComponentIcon::Cached { path: path.display().to_string(), width: *width },
        appstream::enums::Icon::Remote { url, width, .. } => ComponentIcon::Remote { url: url.to_string(), width: *width },
        appstream::enums::Icon::Local { path, width, .. } => ComponentIcon::Local { path: path.display().to_string(), width: *width },
    }).collect()
}

/// The component's screenshots: each image's URL, and whether it is the
/// source image.
#[verifier::external_body]
fn component_screenshots(c: &appstream::Component) -> Vec<Screenshot> {
    c.screenshots.iter().map(|s| Screenshot {
        images: s.images.iter().map(|i| ShotImage {
            is_source: matches!(i.kind, appstream::enums::ImageKind::Source),
            url: i.url.to_string(),
        }).collect(),
    }).collect()
}

/// The component's project license, by `License`'s `Display`.
#[verifier::external_body]
fn component_license(c: &appstream::Component) -> Option<String> {
    c.project_license.as_ref().map(|l| l.to_string())
}

/// The component's URLs, each with its kind; `Unlisted` stands for a kind
/// that a later version of the non-exhaustive `ProjectUrl` may add.
#[verifier::external_body]
fn component_links(c: &appstream::Component) -> Vec<ProjectLink> {
    c.urls.iter().map(|u| match u {
        Url::Donation(x) => ProjectLink::Donation(x.to_string()),
        Url::Translate(x) => ProjectLink::Translate(x.to_string()),
        Url::Homepage(x) => ProjectLink::Homepage(x.to_string()),
        Url::BugTracker(x) => ProjectLink::BugTracker(x.to_string()),
        Url::Help(x) => ProjectLink::Help(x.to_string()),
        Url::Faq(x) => ProjectLink::Faq(x.to_string()),
        Url::Contact(x) => ProjectLink::Contact(x.to_string()),
        Url::Unknown(x) => ProjectLink::Unknown(x.to_string()),
        _ => ProjectLink::Unlisted,
    }).collect()
}

/// The component's bundles, each with its kind (of a Flatpak only its ref);
/// `Unlisted` stands for a kind that a later version of the non-exhaustive
/// `Bundle` may add.
#[verifier::external_body]
fn component_bundles(c: &appstream::Component) -> Vec<ComponentBundle> {
    c.bundles.iter().map(|b| match b {
        Bundle::Limba(x) => ComponentBundle::Limba(x.clone()),
        Bundle::Flatpak { reference, .. } => ComponentBundle::Flatpak { reference: reference.clone() },
        Bundle::AppImage(x) => ComponentBundle::AppImage(x.clone()),
        Bundle::Snap(x) => ComponentBundle::Snap(x.clone()),
        Bundle::Tarball(x) => ComponentBundle::Tarball(x.clone()),
        _ => ComponentBundle::Unlisted,
    }).collect()
}

/// The component's categories, each as its `Debug` text.
#[verifier::external_body]
fn component_categories(c: &appstream::Component) -> Vec<String> {
    c.categories.iter().map(|cat| format!("{:?}", cat)).collect()
}

/// The attributes of the component's content rating, if it has one, each
/// as its `Debug` text (`ViolenceCartoon(Mild)`).
#[verifier::external_body]
fn component_rating(c: &appstream::Component) -> Option<Vec<String>> {
    c.content_rating.as_ref().map(|r| r.attributes.iter().map(|a| format!("{:?}", a)).collect())
}

/// A parsed component copied, field by field, into plain values.
#[verifier::external_body]
fn catalog_component(c: &appstream::Component) -> CatalogComponent {
    CatalogComponent {
        id: component_id(c), kind: component_kind(c),
        name: component_name(c), summary: component_summary(c),
        description: component_description(c), developer_name: component_developer(c),
        icons: component_icons(c), screenshots: component_screenshots(c),
        project_license: component_license(c), urls: component_links(c),
        content_rating: component_rating(c), bundles: component_bundles(c),
        categories: component_categories(c),
    }
}

/// The components read from a catalog's bytes: those the `appstream` crate
/// reads from the document the bytes hold; none when they are not
/// well-formed XML, when the crate rejects the document, or when an artifact
/// in it lacks a `type` or a `location` (on which the crate would abort).
pub open spec fn parsed_components(bytes: Seq<u8>) -> Seq<CatalogComponent> {
    match xml_document(bytes) {
        Some(root) => if catalog_readable(root) {
            match appstream_components(root) {
                Some(cs) => cs,
                None => Seq::empty(),
            }
        } else {
            Seq::empty()
        },
        None => Seq::empty(),
    }
}

/// The components of a catalog's XML, in the plain form the catalog works
/// on (see `parsed_components`).
pub fn parse_components(bytes: &[u8]) -> (r: Vec<CatalogComponent>)
    ensures
        r@ == parsed_components(bytes@),
{
    let root = match parse_xml(bytes) {
        Some(root) => root,
        None => return Vec::new(),
    };
    if !is_catalog_readable(&root) {
        return Vec::new();
    }
    match read_collection(&root) {
        Some(v) => v,
        None => Vec::new(),
    }
}

/// The catalog entry for `id` read from a whole catalog's XML: the one
/// component block for it is cut out (see `extract_component_block`), read
/// with the `appstream` crate, and its first component becomes the entry
/// (see `entry_from_block`). There is none when the catalog has no block for
/// `id`, or when the crate reads no component from it.
pub fn resolve_from_catalog_bytes(
    xml_bytes: &[u8],
    id: &str,
    remote: Option<String>,
    locales: &Vec<String>,
) -> (r: Option<AppStreamEntry>)
    ensures
        r is Some <==> valid_utf8(xml_bytes@) && spec_component_block(decode_utf8(xml_bytes@), id@)
            is Some && parsed_components(block_bytes(xml_bytes@, id@)).len() > 0,
        r matches Some(e) ==> is_entry_of(
            e,
            parsed_components(block_bytes(xml_bytes@, id@))[0],
            opt_view(remote),
            strings_view(locales@),
            block_desc(block_bytes(xml_bytes@, id@), parsed_components(block_bytes(xml_bytes@, id@))[0].id@),
            block_marked(block_bytes(xml_bytes@, id@), parsed_components(block_bytes(xml_bytes@, id@))[0].id@),
        ),
{
    let block = match extract_component_block(xml_bytes, id) {
        Some(b) => b,
        None => return None,
    };
    assert(block@ == block_bytes(xml_bytes@, id@));
    let comps = parse_components(block.as_slice());
    if comps.len() == 0 {
        return None;
    }
    Some(entry_from_block(block.as_slice(), &comps[0], remote, locales))
}

/// The bytes of the component block for `id` that `extract_component_block`
/// cuts out of a catalog (meaningful when there is one).
pub open spec fn block_bytes(xml_bytes: Seq<u8>, id: Seq<char>) -> Seq<u8> {
    encode_utf8(spec_component_block(decode_utf8(xml_bytes), id)->0)
}

/// The description markup a catalog block holds for the component `id`
/// (none when the block is not well-formed XML).
pub open spec fn block_desc(block: Seq<u8>, id: Seq<char>) -> Option<Seq<(Seq<char>, Seq<char>)>> {
    match xml_document(block) {
        Some(root) => lookup_after(None, components_of(root), id),
        None => None,
    }
}

/// Whether a catalog block marks the component `id` verified.
pub open spec fn block_marked(block: Seq<u8>, id: Seq<char>) -> bool {
    match xml_document(block) {
        Some(root) => verified_ids(components_of(root)).contains(id),
        None => false,
    }
}


/// `order` lists every position of `sizes` once, smallest size first,
/// equal sizes in their first order: a stable sort by size.
pub open spec fn is_size_order(sizes: Seq<u64>, order: Seq<usize>) -> bool {
    &&& order.len() == sizes.len()
    &&& forall|a: int| 0 <= a < order.len() ==> #[trigger] order[a] < sizes.len()
    &&& forall|a: int, b: int|
        0 <= a < b < order.len() ==> sizes[order[a] as int] < sizes[order[b] as int] || (
        sizes[order[a] as int] == sizes[order[b] as int] && order[a] < order[b])
}

/// The order catalogs are read in: smallest file first, so that small
/// remotes are searchable before a large one is parsed.
pub fn smallest_first(sizes: &Vec<u64>) -> (r: Vec<usize>)
    ensures
        is_size_order(sizes@, r@),
{
    let mut ord: Vec<usize> = Vec::new();
    let mut i: usize = 0;
    while i < sizes.len()
        invariant
            0 <= i <= sizes@.len(),
            ord@.len() == i,
            forall|a: int| 0 <= a < ord@.len() ==> #[trigger] ord@[a] < i,
            forall|a: int, b: int|
                0 <= a < b < ord@.len() ==> sizes@[ord@[a] as int] < sizes@[ord@[b] as int] || (
                sizes@[ord@[a] as int] == sizes@[ord@[b] as int] && ord@[a] < ord@[b]),
        decreases sizes@.len() - i,
    {
        let size = sizes[i];
        let mut p: usize = 0;
        while p < ord.len() && sizes[ord[p]] <= size
            invariant
                0 <= p <= ord@.len(),
                ord@.len() == i,
                i < sizes@.len(),
                size == sizes@[i as int],
                forall|a: int| 0 <= a < ord@.len() ==> #[trigger] ord@[a] < i,
                forall|q: int| 0 <= q < p ==> sizes@[#[trigger] ord@[q] as int] <= size,
            decreases ord@.len() - p,
        {
            p += 1;
        }
        let ghost old_ord = ord@;
        ord.insert(p, i);
        proof {
            assert forall|a: int, b: int| 0 <= a < b < ord@.len() implies sizes@[ord@[a] as int]
                < sizes@[ord@[b] as int] || (sizes@[ord@[a] as int] == sizes@[ord@[b] as int]
                && ord@[a] < ord@[b]) by {
                if b < p {
                    assert(ord@[a] == old_ord[a] && ord@[b] == old_ord[b]);
                } else if b == p {
                    assert(ord@[a] == old_ord[a]);
                } else if a < p {
                    assert(ord@[a] == old_ord[a] && ord@[b] == old_ord[b - 1]);
                    assert(sizes@[old_ord[p as int] as int] > size);
                } else if a == p {
                    assert(ord@[b] == old_ord[b - 1]);
                    assert(sizes@[old_ord[p as int] as int] > size);
                } else {
                    assert(ord@[a] == old_ord[a - 1] && ord@[b] == old_ord[b - 1]);
                }
            }
        }
        i += 1;
    }
    ord
}

/// What decompressing some bytes as a gzip stream with
/// `flate2::read::GzDecoder` gives (`None` when they are not one).
pub uninterp spec fn gunzipped(bytes: Seq<u8>) -> Option<Seq<u8>>;

/// Decompresses a gzip stream with `flate2::read::GzDecoder`, reading it to
/// its end; the result is named by `gunzipped`.
#[verifier::external_body]
fn gunzip(bytes: &[u8]) -> (r: Option<Vec<u8>>)
    ensures
        match r {
            Some(v) => gunzipped(bytes@) == Some(v@),
            None => gunzipped(bytes@) is None,
        },
{
    let mut out = Vec::new();
    match flate2::read::GzDecoder::new(bytes).read_to_end(&mut out) {
        Ok(_) => Some(out),
        Err(_) => None,
    }
}

/// The XML of a catalog file from the file's raw contents: a `.gz` file is
/// decompressed (none when that fails), any other is the XML itself.
pub fn catalog_xml(path: &str, raw: Vec<u8>) -> (r: Option<Vec<u8>>)
    ensures
        path_extension(path@) == Some("gz"@) ==> match r {
            Some(v) => gunzipped(raw@) == Some(v@),
            None => gunzipped(raw@) is None,
        },
        path_extension(path@) != Some("gz"@) ==> (r matches Some(v) && v@ == raw@),
{
    let is_gz = match extension_of(path) {
        Some(e) => str_eq(e.as_str(), "gz"),
        None => false,
    };
    proof {
        reveal_strlit("gz");
    }
    if is_gz {
        gunzip(raw.as_slice())
    } else {
        Some(raw)
    }
}

/// The folders the Flatpak catalogs are kept under: the system
/// installation's, then (with a home folder) the user's.
pub open spec fn spec_catalog_roots(home: Option<Seq<char>>) -> Seq<Seq<char>> {
    match home {
        Some(h) => seq![
            "/var/lib/flatpak/appstream"@,
            path_join(h, ".local/share/flatpak/appstream"@),
        ],
        None => seq!["/var/lib/flatpak/appstream"@],
    }
}

/// The folders the Flatpak catalogs are kept under.
pub fn catalog_roots(home: &Option<String>) -> (r: Vec<String>)
    ensures
        strings_view(r@) == spec_catalog_roots(
            match home {
                Some(h) => Some(h@),
                None => None,
            },
        ),
{
    let mut r: Vec<String> = Vec::new();
    r.push(string_of(&chars_of("/var/lib/flatpak/appstream")));
    match home {
        Some(h) => {
            let p = path_join_exec(&chars_of(h.as_str()), &chars_of(".local/share/flatpak/appstream"));
            r.push(string_of(&p));
        },
        None => {},
    }
    proof {
        let hv: Option<Seq<char>> = match home {
            Some(h) => Some(h@),
            None => None,
        };
        assert(strings_view(r@) =~= spec_catalog_roots(hv));
    }
    r
}

/// The catalog file of one architecture folder of a remote
/// (`<remote>/<arch>`): `active/appstream.xml.gz` when it exists, else
/// `active/appstream.xml` when that does, else none.
pub fn active_catalog(arch_dir: &str, gz_exists: bool, xml_exists: bool) -> (r: Option<String>)
    ensures
        r matches Some(p) ==> (gz_exists && p@ == path_join(
            path_join(arch_dir@, "active"@),
            "appstream.xml.gz"@,
        )) || (!gz_exists && xml_exists && p@ == path_join(
            path_join(arch_dir@, "active"@),
            "appstream.xml"@,
        )),
        r is None <==> !gz_exists && !xml_exists,
{
    let base = path_join_exec(&chars_of(arch_dir), &chars_of("active"));
    if gz_exists {
        Some(string_of(&path_join_exec(&base, &chars_of("appstream.xml.gz"))))
    } else if xml_exists {
        Some(string_of(&path_join_exec(&base, &chars_of("appstream.xml"))))
    } else {
        None
    }
}

} // verus!
