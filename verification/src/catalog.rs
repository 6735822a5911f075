//! Catalog components as the AppStream catalogs describe them, how one of
//! them becomes a catalog entry, and the queries over a loaded catalog.

use vstd::prelude::*;
use crate::text::{
    chars_of, string_of, strings_view, opt_view, lowercase, unicode_lowercase, contains_seq, find,
    str_eq, push_str,
};
use crate::fields::{or_empty, lemma_strings_view_push};
use crate::metainfo::{
    lm_view, lm_get, lm_get_exec, pick_locale, pick_locale_exec, apply_descs, apply_descs_exec,
    component_id, component_id_exec, components_of, named_elements, verified_ids,
    extract_verifications,
};
use crate::xml::{XmlElement, XmlNode, xml_document, parse_xml, lemma_prefix};
use crate::appstream::{
    AppStreamEntry, spec_license, classify_license, rating_label, max_of, canonical_id,
    first_ref_id,
};

verus! {

/// How strongly a content rating attribute applies.
#[derive(Clone, Copy, Debug, PartialEq, Eq, Structural)]
pub enum RatingLevel {
    Absent,
    Mild,
    Moderate,
    Intense,
}

/// An icon of a component.
pub enum ComponentIcon {
    /// A themed icon, by name.
    Stock(String),
    /// An icon in the catalog's icon cache.
    Cached { path: String, width: Option<u32> },
    /// An icon to download.
    Remote { url: String, width: Option<u32> },
    /// An icon file on this machine.
    Local { path: String, width: Option<u32> },
}

/// One image of a screenshot; `is_source` marks the unscaled original.
pub struct ShotImage {
    pub is_source: bool,
    pub url: String,
}

/// A screenshot, with its images in catalog order.
pub struct Screenshot {
    pub images: Vec<ShotImage>,
}

/// A link of a project, by kind, with its URL.
pub enum ProjectLink {
    Donation(String),
    Translate(String),
    Homepage(String),
    BugTracker(String),
    Help(String),
    Faq(String),
    Contact(String),
    Unknown(String),
    /// A kind of link the catalog reader does not know.
    Unlisted,
}

/// How a component is shipped.
pub enum ComponentBundle {
    Limba(String),
    /// A Flatpak, with its ref (`app/ID/arch/branch`).
    Flatpak { reference: String },
    AppImage(String),
    Snap(String),
    Tarball(String),
    /// A kind of bundle the catalog reader does not know.
    Unlisted,
}

/// A component of an AppStream catalog: the texts by locale (`C` is the
/// untranslated one) and the other fields the entries are made of.
pub struct CatalogComponent {
    pub id: String,
    /// The component's type, by name (`DesktopApplication`, `Runtime`…).
    pub kind: String,
    pub name: Vec<(String, String)>,
    pub summary: Option<Vec<(String, String)>>,
    pub description: Option<Vec<(String, String)>>,
    pub developer_name: Option<Vec<(String, String)>>,
    pub icons: Vec<ComponentIcon>,
    pub screenshots: Vec<Screenshot>,
    pub project_license: Option<String>,
    pub urls: Vec<ProjectLink>,
    /// The content rating's attributes, each as its kind and level
    /// (`ViolenceCartoon(Mild)`), if it has a rating.
    pub content_rating: Option<Vec<String>>,
    pub bundles: Vec<ComponentBundle>,
    /// The category names.
    pub categories: Vec<String>,
}

/// The severity of a content state, from 0 (absent) to 3 (intense).
pub open spec fn state_severity(s: RatingLevel) -> u8 {
    match s {
        RatingLevel::Absent => 0,
        RatingLevel::Mild => 1,
        RatingLevel::Moderate => 2,
        RatingLevel::Intense => 3,
    }
}

/// The severity of a rating attribute.
pub fn attr_severity(s: RatingLevel) -> (r: u8)
    ensures
        r == state_severity(s),
{
    match s {
        RatingLevel::Absent => 0,
        RatingLevel::Mild => 1,
        RatingLevel::Moderate => 2,
        RatingLevel::Intense => 3,
    }
}

/// Whether a component of this kind is an application: a desktop or a
/// console one (not a runtime, font, add-on…).
pub open spec fn is_app_kind(kind: Seq<char>) -> bool {
    kind == "DesktopApplication"@ || kind == "ConsoleApplication"@
}

/// Whether a component of this kind is an application.
pub fn is_application_kind(kind: &str) -> (r: bool)
    ensures
        r == is_app_kind(kind@),
{
    str_eq(kind, "DesktopApplication") || str_eq(kind, "ConsoleApplication")
}

/// The kinds of content rating attribute the catalog knows.
pub open spec fn known_attributes() -> Seq<Seq<char>> {
    seq![
        "ViolenceCartoon"@, "ViolenceFantasy"@, "ViolenceRealistic"@, "ViolenceBloodshed"@,
        "ViolenceSexual"@, "ViolenceDesecration"@, "ViolenceSlavery"@, "ViolenceWorship"@,
        "DrugsAlcohol"@, "DrugsNarcotics"@, "DrugsTobacco"@, "SexNudity"@, "SexThemes"@,
        "SexHomosexuality"@, "SexProstitution"@, "SexAdultery"@, "SexAppearance"@,
        "LanguageProfanity"@, "LanguageHumor"@, "LanguageDiscrimination"@, "SocialChat"@,
        "SocialInfo"@, "SocialAudio"@, "SocialLocation"@, "SocialContacts"@,
        "MoneyAdvertising"@, "MoneyPurchasing"@, "MoneyGambling"@,
    ]
}

/// The attribute reads `kind(level)` for a known kind.
pub open spec fn rates(t: Seq<char>, level: Seq<char>) -> bool {
    exists|k: int|
        0 <= k < known_attributes().len() && t == #[trigger] known_attributes()[k] + "("@ + level
            + ")"@
}

/// The level a rating attribute states: mild, moderate or intense for a
/// known kind with that level, absent otherwise (also for a kind the
/// catalog does not know).
pub open spec fn spec_attribute_level(t: Seq<char>) -> RatingLevel {
    if rates(t, "Mild"@) {
        RatingLevel::Mild
    } else if rates(t, "Moderate"@) {
        RatingLevel::Moderate
    } else if rates(t, "Intense"@) {
        RatingLevel::Intense
    } else {
        RatingLevel::Absent
    }
}

fn rates_exec(t: &str, level: &str) -> (r: bool)
    ensures
        r == rates(t@, level@),
{
    let known: [&'static str; 28] = [
        "ViolenceCartoon", "ViolenceFantasy", "ViolenceRealistic", "ViolenceBloodshed",
        "ViolenceSexual", "ViolenceDesecration", "ViolenceSlavery", "ViolenceWorship",
        "DrugsAlcohol", "DrugsNarcotics", "DrugsTobacco", "SexNudity", "SexThemes",
        "SexHomosexuality", "SexProstitution", "SexAdultery", "SexAppearance",
        "LanguageProfanity", "LanguageHumor", "LanguageDiscrimination", "SocialChat",
        "SocialInfo", "SocialAudio", "SocialLocation", "SocialContacts",
        "MoneyAdvertising", "MoneyPurchasing", "MoneyGambling",
    ];
    assert(known@.map_values(|k: &str| k@) =~= known_attributes());
    let mut i: usize = 0;
    while i < 28
        invariant
            0 <= i <= 28,
            known@.map_values(|k: &str| k@) == known_attributes(),
            forall|j: int| 0 <= j < i ==> t@ != #[trigger] known_attributes()[j] + "("@ + level@ + ")"@,
        decreases 28 - i,
    {
        let mut v: Vec<char> = chars_of(known[i]);
        crate::text::push_str(&mut v, "(");
        crate::text::push_str(&mut v, level);
        crate::text::push_str(&mut v, ")");
        assert(known@.map_values(|k: &str| k@)[i as int] == known@[i as int]@);
        if crate::text::seq_eq(&chars_of(t), &v) {
            return true;
        }
        i += 1;
    }
    false
}

/// The level a rating attribute (`kind(level)`) states.
pub fn attribute_level(t: &str) -> (r: RatingLevel)
    ensures
        r == spec_attribute_level(t@),
{
    if rates_exec(t, "Mild") {
        RatingLevel::Mild
    } else if rates_exec(t, "Moderate") {
        RatingLevel::Moderate
    } else if rates_exec(t, "Intense") {
        RatingLevel::Intense
    } else {
        RatingLevel::Absent
    }
}

/// The text for the first of `locales` that has one.
pub open spec fn localized_only(m: Seq<(Seq<char>, Seq<char>)>, locales: Seq<Seq<char>>) -> Option<
    Seq<char>,
>
    decreases locales.len(),
{
    if locales.len() == 0 {
        None
    } else {
        match lm_get(m, locales[0]) {
            Some(v) => Some(v),
            None => localized_only(m, locales.drop_first()),
        }
    }
}

/// The text for the first of `locales` that has one, else the untranslated
/// (`C`) text.
pub open spec fn localized(m: Seq<(Seq<char>, Seq<char>)>, locales: Seq<Seq<char>>) -> Option<
    Seq<char>,
> {
    match localized_only(m, locales) {
        Some(v) => Some(v),
        None => lm_get(m, "C"@),
    }
}

fn localized_only_exec(m: &Vec<(String, String)>, locales: &Vec<String>) -> (r: Option<String>)
    ensures
        opt_view(r) == localized_only(lm_view(m@), strings_view(locales@)),
{
    let mut i: usize = 0;
    assert(strings_view(locales@).subrange(0, locales@.len() as int) =~= strings_view(locales@));
    while i < locales.len()
        invariant
            0 <= i <= locales@.len(),
            localized_only(lm_view(m@), strings_view(locales@)) == localized_only(
                lm_view(m@),
                strings_view(locales@).subrange(i as int, locales@.len() as int),
            ),
        decreases locales@.len() - i,
    {
        let ghost rest = strings_view(locales@).subrange(i as int, locales@.len() as int);
        assert(rest.drop_first() =~= strings_view(locales@).subrange(i + 1, locales@.len() as int));
        assert(rest[0] == locales@[i as int]@);
        if let Some(v) = lm_get_exec(m, locales[i].as_str()) {
            return Some(v);
        }
        i += 1;
    }
    assert(strings_view(locales@).subrange(i as int, locales@.len() as int) =~= Seq::<
        Seq<char>,
    >::empty());
    None
}

/// The text of a translatable string for the first of `locales` that has
/// one, else its untranslated text.
pub fn localize(m: &Vec<(String, String)>, locales: &Vec<String>) -> (r: Option<String>)
    ensures
        opt_view(r) == localized(lm_view(m@), strings_view(locales@)),
{
    match localized_only_exec(m, locales) {
        Some(v) => Some(v),
        None => {
            proof {
                reveal_strlit("C");
            }
            lm_get_exec(m, "C")
        },
    }
}

fn localize_or_empty(m: &Option<Vec<(String, String)>>, locales: &Vec<String>) -> (r: String)
    ensures
        r@ == match *m {
            Some(t) => or_empty(localized(lm_view(t@), strings_view(locales@))),
            None => Seq::<char>::empty(),
        },
{
    match m {
        Some(t) => match localize(t, locales) {
            Some(v) => v,
            None => String::new(),
        },
        None => String::new(),
    }
}

/// A remote icon at least 96 pixels wide (or of unknown width).
pub open spec fn wide_enough(w: Option<u32>) -> bool {
    match w {
        Some(x) => x >= 96,
        None => true,
    }
}

/// The URL of the first remote icon that is wide enough.
pub open spec fn first_sharp_remote(icons: Seq<ComponentIcon>) -> Option<Seq<char>>
    decreases icons.len(),
{
    if icons.len() == 0 {
        None
    } else {
        match icons[0] {
            ComponentIcon::Remote { url, width } => if wide_enough(width) {
                Some(url@)
            } else {
                first_sharp_remote(icons.drop_first())
            },
            _ => first_sharp_remote(icons.drop_first()),
        }
    }
}

/// How an icon is referred to: a remote one by its URL, any other by
/// `local:` and its path or name.
pub open spec fn icon_reference(i: ComponentIcon) -> Seq<char> {
    match i {
        ComponentIcon::Remote { url, .. } => url@,
        ComponentIcon::Local { path, .. } => "local:"@ + path@,
        ComponentIcon::Cached { path, .. } => "local:"@ + path@,
        ComponentIcon::Stock(name) => "local:"@ + name@,
    }
}

/// The icon of a component: the first remote one that is wide enough (cached
/// files may not be downloaded yet), else whatever its first icon is.
pub open spec fn spec_icon_url(icons: Seq<ComponentIcon>) -> Option<Seq<char>> {
    match first_sharp_remote(icons) {
        Some(u) => Some(u),
        None => if icons.len() > 0 {
            Some(icon_reference(icons[0]))
        } else {
            None
        },
    }
}

fn icon_reference_exec(i: &ComponentIcon) -> (r: String)
    ensures
        r@ == icon_reference(*i),
{
    let mut v: Vec<char> = Vec::new();
    match i {
        ComponentIcon::Remote { url, .. } => {
            return url.clone();
        },
        ComponentIcon::Local { path, .. } => {
            push_str(&mut v, "local:");
            push_str(&mut v, path.as_str());
        },
        ComponentIcon::Cached { path, .. } => {
            push_str(&mut v, "local:");
            push_str(&mut v, path.as_str());
        },
        ComponentIcon::Stock(name) => {
            push_str(&mut v, "local:");
            push_str(&mut v, name.as_str());
        },
    }
    string_of(&v)
}

/// The icon of a component.
pub fn icon_url_of(icons: &Vec<ComponentIcon>) -> (r: Option<String>)
    ensures
        opt_view(r) == spec_icon_url(icons@),
{
    let mut i: usize = 0;
    assert(icons@.subrange(0, icons@.len() as int) =~= icons@);
    while i < icons.len()
        invariant
            0 <= i <= icons@.len(),
            first_sharp_remote(icons@) == first_sharp_remote(
                icons@.subrange(i as int, icons@.len() as int),
            ),
        decreases icons@.len() - i,
    {
        let ghost rest = icons@.subrange(i as int, icons@.len() as int);
        assert(rest.drop_first() =~= icons@.subrange(i + 1, icons@.len() as int));
        assert(rest[0] == icons@[i as int]);
        if let ComponentIcon::Remote { url, width } = &icons[i] {
            let wide = match width {
                Some(w) => *w >= 96,
                None => true,
            };
            if wide {
                return Some(url.clone());
            }
        }
        i += 1;
    }
    assert(icons@.subrange(i as int, icons@.len() as int) =~= Seq::<ComponentIcon>::empty());
    if icons.len() > 0 {
        Some(icon_reference_exec(&icons[0]))
    } else {
        None
    }
}

/// The URL of the first unscaled image.
pub open spec fn first_source(imgs: Seq<ShotImage>) -> Option<Seq<char>>
    decreases imgs.len(),
{
    if imgs.len() == 0 {
        None
    } else if imgs[0].is_source {
        Some(imgs[0].url@)
    } else {
        first_source(imgs.drop_first())
    }
}

/// The image shown for a screenshot: its unscaled original, else its first
/// image.
pub open spec fn shot_url(imgs: Seq<ShotImage>) -> Option<Seq<char>> {
    match first_source(imgs) {
        Some(u) => Some(u),
        None => if imgs.len() > 0 {
            Some(imgs[0].url@)
        } else {
            None
        },
    }
}

/// The images shown for the screenshots that have one, in order.
pub open spec fn shot_urls(shots: Seq<Screenshot>) -> Seq<Seq<char>>
    decreases shots.len(),
{
    if shots.len() == 0 {
        Seq::empty()
    } else {
        let r = shot_urls(shots.drop_last());
        match shot_url(shots.last().images@) {
            Some(u) => r.push(u),
            None => r,
        }
    }
}

/// At most the first five.
pub open spec fn at_most_five(s: Seq<Seq<char>>) -> Seq<Seq<char>> {
    if s.len() > 5 {
        s.take(5)
    } else {
        s
    }
}

fn shot_url_exec(imgs: &Vec<ShotImage>) -> (r: Option<String>)
    ensures
        opt_view(r) == shot_url(imgs@),
{
    let mut i: usize = 0;
    assert(imgs@.subrange(0, imgs@.len() as int) =~= imgs@);
    while i < imgs.len()
        invariant
            0 <= i <= imgs@.len(),
            first_source(imgs@) == first_source(imgs@.subrange(i as int, imgs@.len() as int)),
        decreases imgs@.len() - i,
    {
        let ghost rest = imgs@.subrange(i as int, imgs@.len() as int);
        assert(rest.drop_first() =~= imgs@.subrange(i + 1, imgs@.len() as int));
        assert(rest[0] == imgs@[i as int]);
        if imgs[i].is_source {
            return Some(imgs[i].url.clone());
        }
        i += 1;
    }
    assert(imgs@.subrange(i as int, imgs@.len() as int) =~= Seq::<ShotImage>::empty());
    if imgs.len() > 0 {
        Some(imgs[0].url.clone())
    } else {
        None
    }
}

/// The images shown for a component's screenshots: one per screenshot that
/// has any, at most five.
pub fn screenshot_urls(shots: &Vec<Screenshot>) -> (r: Vec<String>)
    ensures
        strings_view(r@) == at_most_five(shot_urls(shots@)),
{
    let mut out: Vec<String> = Vec::new();
    let mut i: usize = 0;
    assert(strings_view(out@) =~= at_most_five(shot_urls(shots@.subrange(0, 0))));
    while i < shots.len()
        invariant
            0 <= i <= shots@.len(),
            strings_view(out@) == at_most_five(shot_urls(shots@.subrange(0, i as int))),
        decreases shots@.len() - i,
    {
        let ghost prev = shot_urls(shots@.subrange(0, i as int));
        assert(shots@.subrange(0, i + 1).drop_last() =~= shots@.subrange(0, i as int));
        assert(shots@.subrange(0, i + 1).last() == shots@[i as int]);
        if let Some(u) = shot_url_exec(&shots[i].images) {
            assert(shot_urls(shots@.subrange(0, i + 1)) == prev.push(u@));
            if out.len() < 5 {
                proof {
                    lemma_strings_view_push(out@, u);
                }
                out.push(u);
                assert(strings_view(out@) =~= at_most_five(prev.push(u@)));
            } else {
                assert(at_most_five(prev.push(u@)) =~= at_most_five(prev));
            }
        }
        i += 1;
    }
    assert(shots@.subrange(0, i as int) =~= shots@);
    out
}

/// The first homepage link.
pub open spec fn first_homepage_link(links: Seq<ProjectLink>) -> Option<Seq<char>>
    decreases links.len(),
{
    if links.len() == 0 {
        None
    } else {
        match links[0] {
            ProjectLink::Homepage(u) => Some(u@),
            _ => first_homepage_link(links.drop_first()),
        }
    }
}

fn homepage_of(links: &Vec<ProjectLink>) -> (r: Option<String>)
    ensures
        opt_view(r) == first_homepage_link(links@),
{
    let mut i: usize = 0;
    assert(links@.subrange(0, links@.len() as int) =~= links@);
    while i < links.len()
        invariant
            0 <= i <= links@.len(),
            first_homepage_link(links@) == first_homepage_link(
                links@.subrange(i as int, links@.len() as int),
            ),
        decreases links@.len() - i,
    {
        let ghost rest = links@.subrange(i as int, links@.len() as int);
        assert(rest.drop_first() =~= links@.subrange(i + 1, links@.len() as int));
        assert(rest[0] == links@[i as int]);
        if let ProjectLink::Homepage(u) = &links[i] {
            return Some(u.clone());
        }
        i += 1;
    }
    assert(links@.subrange(i as int, links@.len() as int) =~= Seq::<ProjectLink>::empty());
    None
}

/// The age label of a rating (empty without one): by its most severe
/// attribute.
pub open spec fn levels_label(r: Option<Seq<Seq<char>>>) -> Seq<char> {
    match r {
        Some(ls) => rating_label(
            max_of(ls.map_values(|t: Seq<char>| state_severity(spec_attribute_level(t)))),
        ),
        None => Seq::empty(),
    }
}

/// The age label of a component's content rating.
pub fn rating_label_of(rating: &Option<Vec<String>>) -> (r: String)
    ensures
        r@ == levels_label(
            match *rating {
                Some(v) => Some(strings_view(v@)),
                None => None,
            },
        ),
{
    match rating {
        None => String::new(),
        Some(states) => {
            let ghost sev = strings_view(states@).map_values(
                |t: Seq<char>| state_severity(spec_attribute_level(t)),
            );
            let mut m: u8 = 0;
            let mut i: usize = 0;
            assert(sev.take(0) =~= Seq::<u8>::empty());
            while i < states.len()
                invariant
                    i <= states.len(),
                    sev == strings_view(states@).map_values(
                        |t: Seq<char>| state_severity(spec_attribute_level(t)),
                    ),
                    m == max_of(sev.take(i as int)),
                decreases states.len() - i,
            {
                let s = attr_severity(attribute_level(states[i].as_str()));
                assert(sev.take(i + 1).drop_last() =~= sev.take(i as int));
                assert(sev[i as int] == s);
                if s > m {
                    m = s;
                }
                i = i + 1;
            }
            assert(sev.take(states.len() as int) =~= sev);
            if m == 3 {
                "18+".to_owned()
            } else if m == 2 {
                "12+".to_owned()
            } else if m == 1 {
                "7+".to_owned()
            } else {
                "All ages".to_owned()
            }
        },
    }
}

/// The refs of the Flatpak bundles, in order.
pub open spec fn flatpak_refs(bs: Seq<ComponentBundle>) -> Seq<Seq<char>>
    decreases bs.len(),
{
    if bs.len() == 0 {
        Seq::empty()
    } else {
        let r = flatpak_refs(bs.drop_last());
        match bs.last() {
            ComponentBundle::Flatpak { reference } => r.push(reference@),
            _ => r,
        }
    }
}

fn flatpak_refs_exec(bs: &Vec<ComponentBundle>) -> (r: Vec<String>)
    ensures
        strings_view(r@) == flatpak_refs(bs@),
{
    let mut out: Vec<String> = Vec::new();
    let mut i: usize = 0;
    assert(strings_view(out@) =~= flatpak_refs(bs@.subrange(0, 0)));
    while i < bs.len()
        invariant
            0 <= i <= bs@.len(),
            strings_view(out@) == flatpak_refs(bs@.subrange(0, i as int)),
        decreases bs@.len() - i,
    {
        assert(bs@.subrange(0, i + 1).drop_last() =~= bs@.subrange(0, i as int));
        assert(bs@.subrange(0, i + 1).last() == bs@[i as int]);
        if let ComponentBundle::Flatpak { reference } = &bs[i] {
            let r = reference.clone();
            proof {
                lemma_strings_view_push(out@, r);
            }
            out.push(r);
        }
        i += 1;
    }
    assert(bs@.subrange(0, i as int) =~= bs@);
    out
}

/// The canonical id of a component: the app id of its first Flatpak bundle
/// (catalogs often keep a legacy `.desktop` suffix on the component id),
/// else the component id.
pub open spec fn spec_canonical_id(c: CatalogComponent) -> Seq<char> {
    match first_ref_id(flatpak_refs(c.bundles@)) {
        Some(id) => id,
        None => c.id@,
    }
}

/// The categories, lower-cased.
pub open spec fn lower_categories(cats: Seq<String>) -> Seq<Seq<char>> {
    strings_view(cats).map_values(|s: Seq<char>| unicode_lowercase(s))
}

fn lower_all(cats: &Vec<String>) -> (r: Vec<String>)
    ensures
        strings_view(r@) == lower_categories(cats@),
{
    let mut out: Vec<String> = Vec::new();
    let mut i: usize = 0;
    while i < cats.len()
        invariant
            0 <= i <= cats@.len(),
            strings_view(out@) == lower_categories(cats@).take(i as int),
        decreases cats@.len() - i,
    {
        let l = lowercase(cats[i].as_str());
        proof {
            lemma_strings_view_push(out@, l);
        }
        out.push(l);
        i += 1;
        assert(strings_view(out@) =~= lower_categories(cats@).take(i as int));
    }
    assert(lower_categories(cats@).take(i as int) =~= lower_categories(cats@));
    out
}

/// Per-component description markup by locale, keyed by component id.
pub open spec fn descs_view(d: Seq<(String, Vec<(String, String)>)>) -> Seq<
    (Seq<char>, Seq<(Seq<char>, Seq<char>)>),
> {
    d.map_values(|p: (String, Vec<(String, String)>)| (p.0@, lm_view(p.1@)))
}

/// The description markup of a component id.
pub open spec fn desc_lookup(d: Seq<(Seq<char>, Seq<(Seq<char>, Seq<char>)>)>, id: Seq<char>) -> Option<
    Seq<(Seq<char>, Seq<char>)>,
>
    decreases d.len(),
{
    if d.len() == 0 {
        None
    } else if d[0].0 == id {
        Some(d[0].1)
    } else {
        desc_lookup(d.drop_first(), id)
    }
}

/// The first position of an id among the description maps.
pub open spec fn desc_pos(d: Seq<(Seq<char>, Seq<(Seq<char>, Seq<char>)>)>, id: Seq<char>) -> Option<int>
    decreases d.len(),
{
    if d.len() == 0 {
        None
    } else if d[0].0 == id {
        Some(0)
    } else {
        match desc_pos(d.drop_first(), id) {
            Some(i) => Some(i + 1),
            None => None,
        }
    }
}

proof fn lemma_desc_pos(d: Seq<(Seq<char>, Seq<(Seq<char>, Seq<char>)>)>, id: Seq<char>)
    ensures
        match desc_pos(d, id) {
            Some(i) => 0 <= i < d.len() && d[i].0 == id && desc_lookup(d, id) == Some(d[i].1)
                && forall|j: int| 0 <= j < i ==> d[j].0 != id,
            None => desc_lookup(d, id) is None && forall|j: int| 0 <= j < d.len() ==> d[j].0 != id,
        },
    decreases d.len(),
{
    if d.len() > 0 {
        lemma_desc_pos(d.drop_first(), id);
        if d[0].0 != id {
            assert forall|j: int| 0 <= j < d.len() && d[j].0 == id implies j > 0 && d.drop_first()[j
                - 1].0 == id by {}
        }
    }
}

fn desc_index(d: &Vec<(String, Vec<(String, String)>)>, id: &str) -> (r: Option<usize>)
    ensures
        match r {
            Some(i) => desc_pos(descs_view(d@), id@) == Some(i as int),
            None => desc_pos(descs_view(d@), id@) is None,
        },
{
    let ghost dv = descs_view(d@);
    proof {
        lemma_desc_pos(dv, id@);
    }
    let mut i: usize = 0;
    while i < d.len()
        invariant
            0 <= i <= d@.len(),
            dv == descs_view(d@),
            dv.len() == d@.len(),
            match desc_pos(dv, id@) {
                Some(p) => 0 <= p < dv.len() && dv[p].0 == id@ && forall|j: int|
                    0 <= j < p ==> dv[j].0 != id@,
                None => forall|j: int| 0 <= j < dv.len() ==> dv[j].0 != id@,
            },
            forall|j: int| 0 <= j < i ==> dv[j].0 != id@,
        decreases d@.len() - i,
    {
        assert(dv[i as int].0 == d@[i as int].0@);
        if str_eq(d[i].0.as_str(), id) {
            return Some(i);
        }
        i += 1;
    }
    None
}

/// Whether a component id is marked verified.
fn marked_verified(verified: &Vec<String>, id: &str) -> (r: bool)
    ensures
        r == strings_view(verified@).contains(id@),
{
    let mut i: usize = 0;
    while i < verified.len()
        invariant
            0 <= i <= verified@.len(),
            forall|j: int| 0 <= j < i ==> verified@[j]@ != id@,
        decreases verified@.len() - i,
    {
        if str_eq(verified[i].as_str(), id) {
            assert(strings_view(verified@)[i as int] == id@);
            return true;
        }
        i += 1;
    }
    assert forall|j: int| 0 <= j < strings_view(verified@).len() implies strings_view(
        verified@,
    )[j] != id@ by {
        assert(strings_view(verified@)[j] == verified@[j]@);
    }
    false
}

/// `e` is the catalog entry of component `c` from `remote`, shown in
/// `locales`, where `desc` is the description markup the raw catalog has for
/// the component's id (if it has the id) and `marked` tells whether the raw
/// catalog marks the id verified.
pub open spec fn is_entry_of(
    e: AppStreamEntry,
    c: CatalogComponent,
    remote: Option<Seq<char>>,
    locales: Seq<Seq<char>>,
    desc: Option<Seq<(Seq<char>, Seq<char>)>>,
    marked: bool,
) -> bool {
    &&& e.id@ == spec_canonical_id(c)
    &&& e.name@ == or_empty(localized(lm_view(c.name@), locales))
    &&& e.summary@ == match c.summary {
        Some(s) => or_empty(localized(lm_view(s@), locales)),
        None => Seq::<char>::empty(),
    }
    &&& e.description@ == match desc {
        Some(m) => pick_locale(m, locales),
        None => match c.description {
            Some(d) => or_empty(localized(lm_view(d@), locales)),
            None => Seq::<char>::empty(),
        },
    }
    &&& opt_view(e.icon_url) == spec_icon_url(c.icons@)
    &&& opt_view(e.remote) == remote
    &&& strings_view(e.screenshots@) == at_most_five(shot_urls(c.screenshots@))
    &&& (opt_view(e.license), opt_view(e.eula_url)) == spec_license(opt_view(c.project_license))
    &&& opt_view(e.homepage_url) == first_homepage_link(c.urls@)
    &&& e.content_rating@ == levels_label(
        match c.content_rating {
            Some(v) => Some(strings_view(v@)),
            None => None,
        },
    )
    &&& opt_view(e.developer_name) == match c.developer_name {
        Some(d) => localized(lm_view(d@), locales),
        None => None,
    }
    &&& e.verified == (remote == Some("blossomos"@) || marked)
    &&& strings_view(e.categories@) == lower_categories(c.categories@)
}

/// The catalog entry of a component from `remote`: texts in the first of
/// `locales` that has them (descriptions from the raw catalog's markup when
/// it has the component), the icon, at most five screenshots, the license,
/// homepage and age rating, and whether it is verified.
pub fn component_to_entry(
    c: &CatalogComponent,
    remote: Option<String>,
    locales: &Vec<String>,
    descriptions: &Vec<(String, Vec<(String, String)>)>,
    verifications: &Vec<String>,
) -> (r: AppStreamEntry)
    ensures
        is_entry_of(
            r,
            *c,
            opt_view(remote),
            strings_view(locales@),
            desc_lookup(descs_view(descriptions@), c.id@),
            strings_view(verifications@).contains(c.id@),
        ),
{
    let icon_url = icon_url_of(&c.icons);
    let screenshots = screenshot_urls(&c.screenshots);
    let (license, eula_url) = classify_license(
        match &c.project_license {
            Some(l) => Some(l.clone()),
            None => None,
        },
    );
    let homepage_url = homepage_of(&c.urls);
    let content_rating = rating_label_of(&c.content_rating);
    let description = match desc_index(descriptions, c.id.as_str()) {
        Some(i) => {
            proof {
                lemma_desc_pos(descs_view(descriptions@), c.id@);
            }
            pick_locale_exec(&descriptions[i].1, locales)
        },
        None => {
            proof {
                lemma_desc_pos(descs_view(descriptions@), c.id@);
            }
            localize_or_empty(&c.description, locales)
        },
    };
    let refs = flatpak_refs_exec(&c.bundles);
    let id = canonical_id(&refs, c.id.as_str());
    let from_blossom = match &remote {
        Some(s) => str_eq(s.as_str(), "blossomos"),
        None => false,
    };
    let verified = from_blossom || marked_verified(verifications, c.id.as_str());
    let name = match localize(&c.name, locales) {
        Some(v) => v,
        None => String::new(),
    };
    let summary = localize_or_empty(&c.summary, locales);
    let developer_name = match &c.developer_name {
        Some(d) => localize(d, locales),
        None => None,
    };
    let categories = lower_all(&c.categories);
    AppStreamEntry {
        id,
        name,
        summary,
        description,
        icon_url,
        remote,
        screenshots,
        license,
        eula_url,
        homepage_url,
        content_rating,
        developer_name,
        verified,
        categories,
    }
}


/// The markup of an id left as it was, or none.
pub open spec fn or_empty_map(o: Option<Seq<(Seq<char>, Seq<char>)>>) -> Seq<(Seq<char>, Seq<char>)> {
    match o {
        Some(m) => m,
        None => Seq::empty(),
    }
}

/// The description markup of `id` after a catalog component is read: the
/// component's descriptions applied onto it when the component has this id.
pub open spec fn fold_one(o: Option<Seq<(Seq<char>, Seq<char>)>>, c: XmlElement, id: Seq<char>) -> Option<
    Seq<(Seq<char>, Seq<char>)>,
> {
    if component_id(c) == Some(id) {
        Some(apply_descs(or_empty_map(o), c.children@))
    } else {
        o
    }
}

/// The description markup of `id` after the components are read in order.
pub open spec fn lookup_after(
    o: Option<Seq<(Seq<char>, Seq<char>)>>,
    comps: Seq<XmlElement>,
    id: Seq<char>,
) -> Option<Seq<(Seq<char>, Seq<char>)>>
    decreases comps.len(),
{
    if comps.len() == 0 {
        o
    } else {
        fold_one(lookup_after(o, comps.drop_last(), id), comps.last(), id)
    }
}

proof fn lemma_lookup_update(
    d: Seq<(Seq<char>, Seq<(Seq<char>, Seq<char>)>)>,
    i: int,
    k: Seq<char>,
    v: Seq<(Seq<char>, Seq<char>)>,
    id: Seq<char>,
)
    requires
        0 <= i < d.len(),
        d[i].0 == k,
        forall|j: int| 0 <= j < i ==> d[j].0 != k,
    ensures
        desc_lookup(d.update(i, (k, v)), id) == if id == k {
            Some(v)
        } else {
            desc_lookup(d, id)
        },
    decreases i,
{
    let u = d.update(i, (k, v));
    if i == 0 {
        assert(u.drop_first() =~= d.drop_first());
    } else {
        assert(u.drop_first() =~= d.drop_first().update(i - 1, (k, v)));
        lemma_lookup_update(d.drop_first(), i - 1, k, v, id);
    }
}

proof fn lemma_lookup_push(
    d: Seq<(Seq<char>, Seq<(Seq<char>, Seq<char>)>)>,
    k: Seq<char>,
    v: Seq<(Seq<char>, Seq<char>)>,
    id: Seq<char>,
)
    requires
        desc_lookup(d, k) is None,
    ensures
        desc_lookup(d.push((k, v)), id) == if id == k {
            Some(v)
        } else {
            desc_lookup(d, id)
        },
    decreases d.len(),
{
    let u = d.push((k, v));
    if d.len() == 0 {
        assert(u.drop_first() =~= Seq::<(Seq<char>, Seq<(Seq<char>, Seq<char>)>)>::empty());
    } else {
        assert(u.drop_first() =~= d.drop_first().push((k, v)));
        lemma_lookup_push(d.drop_first(), k, v, id);
    }
}

/// Reads one catalog component's descriptions into the markup by id.
fn fold_component(out: &mut Vec<(String, Vec<(String, String)>)>, c: &XmlElement)
    ensures
        forall|id: Seq<char>|
            #[trigger] desc_lookup(descs_view(final(out)@), id) == fold_one(
                desc_lookup(descs_view(old(out)@), id),
                *c,
                id,
            ),
{
    let cid = match component_id_exec(c) {
        Some(x) => x,
        None => {
            return;
        },
    };
    let ghost d0 = descs_view(out@);
    proof {
        lemma_desc_pos(d0, cid@);
    }
    match desc_index(out, cid.as_str()) {
        Some(i) => {
            let (k, m) = out.remove(i);
            let m2 = apply_descs_exec(m, c);
            out.insert(i, (k, m2));
            proof {
                assert(descs_view(out@) =~= d0.update(i as int, (cid@, lm_view(m2@))));
                assert forall|id: Seq<char>| #[trigger]
                    desc_lookup(descs_view(out@), id) == fold_one(desc_lookup(d0, id), *c, id) by {
                    lemma_lookup_update(d0, i as int, cid@, lm_view(m2@), id);
                }
            }
        },
        None => {
            let m2 = apply_descs_exec(Vec::new(), c);
            proof {
                assert(lm_view(Seq::<(String, String)>::empty()) =~= Seq::<(Seq<char>, Seq<char>)>::empty());
            }
            let ghost v = lm_view(m2@);
            out.push((cid, m2));
            proof {
                assert(descs_view(out@) =~= d0.push((cid@, v)));
                assert forall|id: Seq<char>| #[trigger]
                    desc_lookup(descs_view(out@), id) == fold_one(desc_lookup(d0, id), *c, id) by {
                    lemma_lookup_push(d0, cid@, v, id);
                }
            }
        },
    }
}

/// Reads the per-locale description markup of a catalog's components into
/// `out`, keyed by component id: each component's descriptions are applied
/// onto what its id already has (both the per-description and the
/// per-paragraph `xml:lang` forms).
pub fn extract_descriptions(out: &mut Vec<(String, Vec<(String, String)>)>, root: &XmlElement)
    ensures
        forall|id: Seq<char>|
            #[trigger] desc_lookup(descs_view(final(out)@), id) == lookup_after(
                desc_lookup(descs_view(old(out)@), id),
                components_of(*root),
                id,
            ),
{
    let ghost d0 = descs_view(out@);
    if str_eq(root.name.as_str(), "components") || str_eq(root.name.as_str(), "collection") {
        let ns = &root.children;
        let mut i: usize = 0;
        while i < ns.len()
            invariant
                0 <= i <= ns@.len(),
                ns@ == root.children@,
                forall|id: Seq<char>|
                    #[trigger] desc_lookup(descs_view(out@), id) == lookup_after(
                        desc_lookup(d0, id),
                        named_elements(ns@.subrange(0, i as int), "component"@),
                        id,
                    ),
            decreases ns@.len() - i,
        {
            proof {
                lemma_prefix(ns@, i as int);
            }
            let ghost prev = named_elements(ns@.subrange(0, i as int), "component"@);
            if let XmlNode::Element(c) = &ns[i] {
                if str_eq(c.name.as_str(), "component") {
                    assert(named_elements(ns@.subrange(0, i + 1), "component"@).drop_last() =~= prev);
                    fold_component(out, c);
                }
            }
            i += 1;
        }
        assert(ns@.subrange(0, i as int) =~= ns@);
        assert(components_of(*root) == named_elements(ns@, "component"@));
    } else if str_eq(root.name.as_str(), "component") {
        assert(seq![*root].drop_last() =~= Seq::<XmlElement>::empty());
        assert(seq![*root].last() == *root);
        assert(components_of(*root) == seq![*root]);
        fold_component(out, root);
        assert forall|id: Seq<char>| #[trigger] desc_lookup(descs_view(out@), id) == lookup_after(
            desc_lookup(d0, id),
            components_of(*root),
            id,
        ) by {
            assert(lookup_after(desc_lookup(d0, id), Seq::<XmlElement>::empty(), id) == desc_lookup(d0, id));
        }
    } else {
        assert(components_of(*root) =~= Seq::<XmlElement>::empty());
    }
}


/// The entry of a component read from a catalog block (the block that
/// `extract_component_block` cuts out), with the description markup and the
/// verified mark read from the block's raw XML (none when it is not
/// well-formed).
pub fn entry_from_block(
    block: &[u8],
    component: &CatalogComponent,
    remote: Option<String>,
    locales: &Vec<String>,
) -> (r: AppStreamEntry)
    ensures
        is_entry_of(
            r,
            *component,
            opt_view(remote),
            strings_view(locales@),
            match xml_document(block@) {
                Some(root) => lookup_after(None, components_of(root), component.id@),
                None => None,
            },
            match xml_document(block@) {
                Some(root) => verified_ids(components_of(root)).contains(component.id@),
                None => false,
            },
        ),
{
    let mut descs: Vec<(String, Vec<(String, String)>)> = Vec::new();
    let mut verified: Vec<String> = Vec::new();
    assert(desc_lookup(descs_view(descs@), component.id@) is None);
    assert(strings_view(verified@) =~= Seq::<Seq<char>>::empty());
    match parse_xml(block) {
        Some(root) => {
            extract_descriptions(&mut descs, &root);
            verified = extract_verifications(&root);
        },
        None => {},
    }
    component_to_entry(component, remote, locales, &descs, &verified)
}

/// A loaded catalog: its components with the remote each came from, the
/// locales texts are shown in, the per-locale description markup read from
/// the raw catalogs (by component id) and the ids marked verified.
pub struct AppStreamDb {
    pub components: Vec<(CatalogComponent, Option<String>)>,
    pub locales: Vec<String>,
    pub descriptions: Vec<(String, Vec<(String, String)>)>,
    pub verifications: Vec<String>,
}

/// The applications (desktop and console) among components, in order.
pub open spec fn apps_of(s: Seq<(CatalogComponent, Option<String>)>) -> Seq<
    (CatalogComponent, Option<String>),
>
    decreases s.len(),
{
    if s.len() == 0 {
        s
    } else {
        let r = apps_of(s.drop_last());
        if is_app_kind(s.last().0.kind@) {
            r.push(s.last())
        } else {
            r
        }
    }
}

/// The applications are exactly the desktop and console applications among
/// the components, in catalog order: each of those is among them, and each
/// of them is a component of `s` of one of those kinds.
pub proof fn law_apps_are_applications(s: Seq<(CatalogComponent, Option<String>)>)
    ensures
        forall|i: int|
            0 <= i < s.len() && (s[i].0.kind@ == "DesktopApplication"@ || s[i].0.kind@
                == "ConsoleApplication"@) ==> apps_of(s).contains(#[trigger] s[i]),
        forall|k: int|
            0 <= k < apps_of(s).len() ==> s.contains(#[trigger] apps_of(s)[k]) && (apps_of(s)[k].0.kind@
                == "DesktopApplication"@ || apps_of(s)[k].0.kind@ == "ConsoleApplication"@),
        apps_of(s).len() <= s.len(),
    decreases s.len(),
{
    if s.len() > 0 {
        let p = s.drop_last();
        law_apps_are_applications(p);
        let r = apps_of(p);
        let out = apps_of(s);
        assert forall|i: int|
            0 <= i < s.len() && (s[i].0.kind@ == "DesktopApplication"@ || s[i].0.kind@
                == "ConsoleApplication"@) implies out.contains(#[trigger] s[i]) by {
            if i < s.len() - 1 {
                assert(p[i] == s[i]);
                assert(r.contains(p[i]));
                let w = choose|w: int| 0 <= w < r.len() && r[w] == p[i];
                assert(out[w] == r[w]);
            } else {
                assert(out.last() == s.last());
            }
        }
        assert forall|k: int| 0 <= k < out.len() implies s.contains(#[trigger] out[k]) && (
        out[k].0.kind@ == "DesktopApplication"@ || out[k].0.kind@ == "ConsoleApplication"@) by {
            if k < r.len() {
                assert(out[k] == r[k]);
                assert(p.contains(r[k]));
                let w = choose|w: int| 0 <= w < p.len() && p[w] == r[k];
                assert(s[w] == p[w]);
            } else {
                assert(out[k] == s.last());
                assert(s[s.len() - 1] == s.last());
            }
        }
    }
}

/// Whether a (lower-cased) query matches a text; a missing text is empty.
pub open spec fn text_hit(t: Option<Seq<char>>, q: Seq<char>) -> bool {
    match t {
        Some(s) => contains_seq(unicode_lowercase(s), q),
        None => contains_seq(Seq::empty(), q),
    }
}

/// Whether a lower-cased query matches a component: its id, or its name or
/// summary, untranslated or in the first of `locales` that has one,
/// ignoring case.
pub open spec fn search_hit(c: CatalogComponent, q: Seq<char>, locales: Seq<Seq<char>>) -> bool {
    ||| contains_seq(unicode_lowercase(c.id@), q)
    ||| text_hit(lm_get(lm_view(c.name@), "C"@), q)
    ||| text_hit(localized_only(lm_view(c.name@), locales), q)
    ||| text_hit(
        match c.summary {
            Some(t) => lm_get(lm_view(t@), "C"@),
            None => None,
        },
        q,
    )
    ||| text_hit(
        match c.summary {
            Some(t) => localized_only(lm_view(t@), locales),
            None => None,
        },
        q,
    )
}

/// A component is found by a lower-cased query that occurs, ignoring case,
/// in its id, in its untranslated (`C`) name or summary, or in its name or
/// summary for the first of `locales` that has one; a query that is not
/// empty finds it only so.
pub proof fn law_search_hit_sources(c: CatalogComponent, q: Seq<char>, locales: Seq<Seq<char>>)
    ensures
        contains_seq(unicode_lowercase(c.id@), q) ==> search_hit(c, q, locales),
        lm_get(lm_view(c.name@), "C"@) matches Some(n) && contains_seq(unicode_lowercase(n), q)
            ==> search_hit(c, q, locales),
        localized_only(lm_view(c.name@), locales) matches Some(n) && contains_seq(
            unicode_lowercase(n),
            q,
        ) ==> search_hit(c, q, locales),
        c.summary matches Some(t) && lm_get(lm_view(t@), "C"@) matches Some(d) && contains_seq(
            unicode_lowercase(d),
            q,
        ) ==> search_hit(c, q, locales),
        c.summary matches Some(t) && localized_only(lm_view(t@), locales) matches Some(d)
            && contains_seq(unicode_lowercase(d), q) ==> search_hit(c, q, locales),
        search_hit(c, q, locales) && q.len() > 0 ==> {
            ||| contains_seq(unicode_lowercase(c.id@), q)
            ||| lm_get(lm_view(c.name@), "C"@) matches Some(n) && contains_seq(unicode_lowercase(n), q)
            ||| localized_only(lm_view(c.name@), locales) matches Some(n) && contains_seq(
                unicode_lowercase(n),
                q,
            )
            ||| c.summary matches Some(t) && lm_get(lm_view(t@), "C"@) matches Some(d)
                && contains_seq(unicode_lowercase(d), q)
            ||| c.summary matches Some(t) && localized_only(lm_view(t@), locales) matches Some(d)
                && contains_seq(unicode_lowercase(d), q)
        },
{
    if q.len() > 0 {
        assert(!contains_seq(Seq::<char>::empty(), q));
    }
}

/// The search results are exactly the components that the query finds, each
/// once, in catalog order: every component found is among them, and each of
/// them is a component of `s` that the query finds.
pub proof fn law_search_matches_found(
    s: Seq<(CatalogComponent, Option<String>)>,
    q: Seq<char>,
    locales: Seq<Seq<char>>,
)
    ensures
        forall|i: int|
            0 <= i < s.len() && search_hit(#[trigger] s[i].0, q, locales) ==> search_matches(
                s,
                q,
                locales,
            ).contains(s[i]),
        forall|k: int|
            0 <= k < search_matches(s, q, locales).len() ==> s.contains(
                #[trigger] search_matches(s, q, locales)[k],
            ) && search_hit(search_matches(s, q, locales)[k].0, q, locales),
        search_matches(s, q, locales).len() <= s.len(),
    decreases s.len(),
{
    if s.len() > 0 {
        let p = s.drop_last();
        law_search_matches_found(p, q, locales);
        let r = search_matches(p, q, locales);
        let out = search_matches(s, q, locales);
        assert forall|i: int| 0 <= i < s.len() && search_hit(#[trigger] s[i].0, q, locales) implies out.contains(s[i]) by {
            if i < s.len() - 1 {
                assert(p[i] == s[i]);
                assert(r.contains(p[i]));
                let w = choose|w: int| 0 <= w < r.len() && r[w] == p[i];
                assert(out[w] == r[w]);
            } else {
                assert(out.last() == s.last());
            }
        }
        assert forall|k: int| 0 <= k < out.len() implies s.contains(#[trigger] out[k]) && search_hit(
            out[k].0,
            q,
            locales,
        ) by {
            if k < r.len() {
                assert(out[k] == r[k]);
                assert(p.contains(r[k]));
                let w = choose|w: int| 0 <= w < p.len() && p[w] == r[k];
                assert(s[w] == p[w]);
            } else {
                assert(out[k] == s.last());
                assert(s[s.len() - 1] == s.last());
            }
        }
    }
}

/// Whether a component is in a category, ignoring case.
pub open spec fn in_category(c: CatalogComponent, category: Seq<char>) -> bool {
    exists|j: int|
        0 <= j < c.categories@.len() && #[trigger] unicode_lowercase(c.categories@[j]@)
            == unicode_lowercase(category)
}

/// The first component with this id, with or without a `.desktop` suffix.
pub open spec fn first_with_id(s: Seq<(CatalogComponent, Option<String>)>, id: Seq<char>) -> Option<
    int,
>
    decreases s.len(),
{
    if s.len() == 0 {
        None
    } else if s[0].0.id@ == id || s[0].0.id@ == id + ".desktop"@ {
        Some(0)
    } else {
        match first_with_id(s.drop_first(), id) {
            Some(i) => Some(i + 1),
            None => None,
        }
    }
}

proof fn lemma_first_with_id(s: Seq<(CatalogComponent, Option<String>)>, id: Seq<char>, i: int)
    requires
        0 <= i <= s.len(),
        forall|j: int| 0 <= j < i ==> s[j].0.id@ != id && s[j].0.id@ != id + ".desktop"@,
    ensures
        i < s.len() && (s[i].0.id@ == id || s[i].0.id@ == id + ".desktop"@) ==> first_with_id(s, id)
            == Some(i),
        i == s.len() ==> first_with_id(s, id) is None,
    decreases i,
{
    if i > 0 {
        lemma_first_with_id(s.drop_first(), id, i - 1);
    }
}

proof fn lemma_apps_step(s: Seq<(CatalogComponent, Option<String>)>, i: int)
    requires
        0 <= i < s.len(),
    ensures
        apps_of(s.take(i + 1)) == if is_app_kind(s[i].0.kind@) {
            apps_of(s.take(i)).push(s[i])
        } else {
            apps_of(s.take(i))
        },
{
    assert(s.take(i + 1).drop_last() =~= s.take(i));
    assert(s.take(i + 1).last() == s[i]);
}

/// The components that match a lower-cased query, in order.
pub open spec fn search_matches(
    s: Seq<(CatalogComponent, Option<String>)>,
    q: Seq<char>,
    locales: Seq<Seq<char>>,
) -> Seq<(CatalogComponent, Option<String>)>
    decreases s.len(),
{
    if s.len() == 0 {
        s
    } else {
        let r = search_matches(s.drop_last(), q, locales);
        if search_hit(s.last().0, q, locales) {
            r.push(s.last())
        } else {
            r
        }
    }
}

/// The lookup by id finds the first component whose id is `id`, with or
/// without `.desktop`; it finds none only when no component has such an id.
pub proof fn law_first_with_id(s: Seq<(CatalogComponent, Option<String>)>, id: Seq<char>)
    ensures
        first_with_id(s, id) matches Some(i) ==> 0 <= i < s.len() && (s[i].0.id@ == id || s[i].0.id@
            == id + ".desktop"@) && forall|j: int|
            0 <= j < i ==> #[trigger] s[j].0.id@ != id && s[j].0.id@ != id + ".desktop"@,
        first_with_id(s, id) is None ==> forall|j: int|
            0 <= j < s.len() ==> #[trigger] s[j].0.id@ != id && s[j].0.id@ != id + ".desktop"@,
    decreases s.len(),
{
    if s.len() > 0 {
        let t = s.drop_first();
        law_first_with_id(t, id);
        if !(s[0].0.id@ == id || s[0].0.id@ == id + ".desktop"@) {
            assert forall|j: int| 1 <= j < s.len() implies s[j] == #[trigger] t[j - 1] by {}
            match first_with_id(t, id) {
                Some(i) => {
                    assert forall|j: int| 0 <= j < i + 1 implies #[trigger] s[j].0.id@ != id
                        && s[j].0.id@ != id + ".desktop"@ by {
                        if j > 0 {
                            assert(s[j] == t[j - 1]);
                        }
                    }
                },
                None => {
                    assert forall|j: int| 0 <= j < s.len() implies #[trigger] s[j].0.id@ != id
                        && s[j].0.id@ != id + ".desktop"@ by {
                        if j > 0 {
                            assert(s[j] == t[j - 1]);
                        }
                    }
                },
            }
        }
    }
}

/// The components listed for a category are exactly those in it (ignoring
/// case), in catalog order: every component in the category is listed, and
/// each one listed is a component of `s` in the category.
pub proof fn law_category_matches_found(s: Seq<(CatalogComponent, Option<String>)>, category: Seq<char>)
    ensures
        forall|i: int|
            0 <= i < s.len() && in_category(#[trigger] s[i].0, category) ==> category_matches(
                s,
                category,
            ).contains(s[i]),
        forall|k: int|
            0 <= k < category_matches(s, category).len() ==> s.contains(
                #[trigger] category_matches(s, category)[k],
            ) && in_category(category_matches(s, category)[k].0, category),
    decreases s.len(),
{
    if s.len() > 0 {
        let p = s.drop_last();
        law_category_matches_found(p, category);
        let r = category_matches(p, category);
        let out = category_matches(s, category);
        assert forall|i: int| 0 <= i < s.len() && in_category(#[trigger] s[i].0, category) implies out.contains(s[i]) by {
            if i < s.len() - 1 {
                assert(p[i] == s[i]);
                assert(r.contains(p[i]));
                let w = choose|w: int| 0 <= w < r.len() && r[w] == p[i];
                assert(out[w] == r[w]);
            } else {
                assert(out.last() == s.last());
            }
        }
        assert forall|k: int| 0 <= k < out.len() implies s.contains(#[trigger] out[k]) && in_category(
            out[k].0,
            category,
        ) by {
            if k < r.len() {
                assert(out[k] == r[k]);
                assert(p.contains(r[k]));
                let w = choose|w: int| 0 <= w < p.len() && p[w] == r[k];
                assert(s[w] == p[w]);
            } else {
                assert(out[k] == s.last());
                assert(s[s.len() - 1] == s.last());
            }
        }
    }
}

/// The components in a category, in order.
pub open spec fn category_matches(s: Seq<(CatalogComponent, Option<String>)>, category: Seq<char>) -> Seq<
    (CatalogComponent, Option<String>),
>
    decreases s.len(),
{
    if s.len() == 0 {
        s
    } else {
        let r = category_matches(s.drop_last(), category);
        if in_category(s.last().0, category) {
            r.push(s.last())
        } else {
            r
        }
    }
}

fn text_hit_exec(t: &Option<String>, q: &Vec<char>) -> (r: bool)
    ensures
        r == text_hit(opt_view(*t), q@),
{
    match t {
        Some(x) => {
            let l = lowercase(x.as_str());
            find(&chars_of(l.as_str()), q).is_some()
        },
        None => {
            let e: Vec<char> = Vec::new();
            find(&e, q).is_some()
        },
    }
}

fn search_hit_exec(c: &CatalogComponent, q: &Vec<char>, locales: &Vec<String>) -> (r: bool)
    ensures
        r == search_hit(*c, q@, strings_view(locales@)),
{
    proof {
        reveal_strlit("C");
    }
    let id_l = lowercase(c.id.as_str());
    let by_id = find(&chars_of(id_l.as_str()), q).is_some();
    let name_default = text_hit_exec(&lm_get_exec(&c.name, "C"), q);
    let name_local = text_hit_exec(&localized_only_exec(&c.name, locales), q);
    let (summary_default, summary_local) = match &c.summary {
        Some(t) => (
            text_hit_exec(&lm_get_exec(t, "C"), q),
            text_hit_exec(&localized_only_exec(t, locales), q),
        ),
        None => (text_hit_exec(&None, q), text_hit_exec(&None, q)),
    };
    by_id || name_default || name_local || summary_default || summary_local
}

fn in_category_exec(c: &CatalogComponent, category: &str) -> (r: bool)
    ensures
        r == in_category(*c, category@),
{
    let want = lowercase(category);
    let cats = &c.categories;
    let mut j: usize = 0;
    while j < cats.len()
        invariant
            0 <= j <= cats@.len(),
            cats@ == c.categories@,
            want@ == unicode_lowercase(category@),
            forall|i: int| 0 <= i < j ==> #[trigger] unicode_lowercase(cats@[i]@) != unicode_lowercase(category@),
        decreases cats@.len() - j,
    {
        let l = lowercase(cats[j].as_str());
        if str_eq(l.as_str(), want.as_str()) {
            assert(unicode_lowercase(c.categories@[j as int]@) == unicode_lowercase(category@));
            return true;
        }
        j += 1;
    }
    false
}

impl AppStreamDb {
    /// The applications (desktop and console) among the components, in order.
    pub open spec fn apps(self) -> Seq<(CatalogComponent, Option<String>)> {
        apps_of(self.components@)
    }

    /// `e` is the entry of a component of this catalog shown in `locales`.
    pub open spec fn entry_matches(
        self,
        e: AppStreamEntry,
        p: (CatalogComponent, Option<String>),
        locales: Seq<Seq<char>>,
    ) -> bool {
        is_entry_of(
            e,
            p.0,
            opt_view(p.1),
            locales,
            desc_lookup(descs_view(self.descriptions@), p.0.id@),
            strings_view(self.verifications@).contains(p.0.id@),
        )
    }

    /// An empty catalog whose texts are shown in `locales`.
    pub fn new(locales: Vec<String>) -> (r: Self)
        ensures
            r.components@.len() == 0,
            r.locales == locales,
            r.descriptions@.len() == 0,
            r.verifications@.len() == 0,
    {
        AppStreamDb { components: Vec::new(), locales, descriptions: Vec::new(), verifications: Vec::new() }
    }

    /// Folds in one catalog of a remote: its parsed components (none when it
    /// could not be parsed), and the description markup and verified ids read
    /// from its raw bytes (nothing when they are not well-formed XML).
    pub fn add_catalog(&mut self, remote: &str, components: Vec<CatalogComponent>, bytes: &[u8])
        ensures
            final(self).components@.len() == old(self).components@.len() + components@.len(),
            forall|k: int|
                0 <= k < old(self).components@.len() ==> #[trigger] final(self).components@[k]
                    == old(self).components@[k],
            forall|k: int|
                0 <= k < components@.len() ==> (#[trigger] final(self).components@[old(
                    self,
                ).components@.len() + k]).0 == components@[k] && opt_view(
                    final(self).components@[old(self).components@.len() + k].1,
                ) == Some(remote@),
            final(self).locales == old(self).locales,
            forall|id: Seq<char>|
                #[trigger] desc_lookup(descs_view(final(self).descriptions@), id) == match xml_document(
                    bytes@,
                ) {
                    Some(root) => lookup_after(
                        desc_lookup(descs_view(old(self).descriptions@), id),
                        components_of(root),
                        id,
                    ),
                    None => desc_lookup(descs_view(old(self).descriptions@), id),
                },
            strings_view(final(self).verifications@) == strings_view(old(self).verifications@)
                + match xml_document(bytes@) {
                Some(root) => verified_ids(components_of(root)),
                None => Seq::<Seq<char>>::empty(),
            },
    {
        let ghost n0 = self.components@.len();
        let ghost old_comps = self.components@;
        let mut rev: Vec<CatalogComponent> = Vec::new();
        let mut rest = components;
        let ghost all = rest@;
        let total: usize = rest.len();
        while rest.len() > 0
            invariant
                all.len() == total,
                rest@.len() + rev@.len() == all.len(),
                forall|k: int| 0 <= k < rest@.len() ==> rest@[k] == all[k],
                forall|k: int| 0 <= k < rev@.len() ==> rev@[k] == all[all.len() - 1 - k],
            decreases rest@.len(),
        {
            let c = rest.pop().unwrap();
            rev.push(c);
        }
        let mut k: usize = 0;
        while rev.len() > 0
            invariant
                all.len() == total,
                k + rev@.len() == all.len(),
                forall|j: int| 0 <= j < rev@.len() ==> rev@[j] == all[all.len() - 1 - j],
                self.components@.len() == n0 + k,
                forall|j: int| 0 <= j < n0 ==> #[trigger] self.components@[j] == old_comps[j],
                forall|j: int|
                    0 <= j < k ==> (#[trigger] self.components@[n0 + j]).0 == all[j] && opt_view(
                        self.components@[n0 + j].1,
                    ) == Some(remote@),
                self.locales == old(self).locales,
                self.descriptions == old(self).descriptions,
                self.verifications == old(self).verifications,
            decreases rev@.len(),
        {
            let c = rev.pop().unwrap();
            self.components.push((c, Some(remote.to_string())));
            k += 1;
        }
        match parse_xml(bytes) {
            Some(root) => {
                extract_descriptions(&mut self.descriptions, &root);
                let mut v = extract_verifications(&root);
                let ghost before = self.verifications@;
                self.verifications.append(&mut v);
                proof {
                    assert(strings_view(self.verifications@) =~= strings_view(before) + verified_ids(
                        components_of(root),
                    ));
                }
            },
            None => {
                assert(strings_view(self.verifications@) =~= strings_view(old(self).verifications@)
                    + Seq::<Seq<char>>::empty());
            },
        }
    }

    /// Folds in one catalog of a remote read from its raw bytes: the
    /// components read from them (see `parsed_components`), in order, each
    /// from `remote`, and the description markup and verified ids read from
    /// the same bytes.
    pub fn load_catalog(&mut self, remote: &str, bytes: &[u8])
        ensures
            final(self).components@.len() == old(self).components@.len()
                + crate::components::parsed_components(bytes@).len(),
            forall|k: int|
                0 <= k < old(self).components@.len() ==> #[trigger] final(self).components@[k]
                    == old(self).components@[k],
            forall|k: int|
                0 <= k < crate::components::parsed_components(bytes@).len() ==> (
                #[trigger] final(self).components@[old(self).components@.len() + k]).0
                    == crate::components::parsed_components(bytes@)[k] && opt_view(
                    final(self).components@[old(self).components@.len() + k].1,
                ) == Some(remote@),
            final(self).locales == old(self).locales,
            forall|id: Seq<char>|
                #[trigger] desc_lookup(descs_view(final(self).descriptions@), id) == match xml_document(
                    bytes@,
                ) {
                    Some(root) => lookup_after(
                        desc_lookup(descs_view(old(self).descriptions@), id),
                        components_of(root),
                        id,
                    ),
                    None => desc_lookup(descs_view(old(self).descriptions@), id),
                },
            strings_view(final(self).verifications@) == strings_view(old(self).verifications@)
                + match xml_document(bytes@) {
                Some(root) => verified_ids(components_of(root)),
                None => Seq::<Seq<char>>::empty(),
            },
    {
        let components = crate::components::parse_components(bytes);
        self.add_catalog(remote, components, bytes);
    }

    /// The entry of the component at position `i`, shown in `locales`.
    fn entry_at(&self, i: usize, locales: &Vec<String>) -> (r: AppStreamEntry)
        requires
            i < self.components@.len(),
        ensures
            self.entry_matches(r, self.components@[i as int], strings_view(locales@)),
    {
        let remote = match &self.components[i].1 {
            Some(s) => Some(s.clone()),
            None => None,
        };
        component_to_entry(&self.components[i].0, remote, locales, &self.descriptions, &self.verifications)
    }

    /// The positions of the applications among the components.
    fn app_positions(&self) -> (r: Vec<usize>)
        ensures
            r@.len() == self.apps().len(),
            forall|k: int| 0 <= k < r@.len() ==> #[trigger] r@[k] < self.components@.len(),
            forall|k: int|
                0 <= k < r@.len() ==> self.components@[r@[k] as int] == #[trigger] self.apps()[k],
    {
        let ghost s = self.components@;
        let mut r: Vec<usize> = Vec::new();
        let mut i: usize = 0;
        assert(s.take(0) =~= Seq::<(CatalogComponent, Option<String>)>::empty());
        while i < self.components.len()
            invariant
                0 <= i <= s.len(),
                s == self.components@,
                r@.len() == apps_of(s.take(i as int)).len(),
                forall|k: int| 0 <= k < r@.len() ==> #[trigger] r@[k] < i,
                forall|k: int|
                    0 <= k < r@.len() ==> s[r@[k] as int] == #[trigger] apps_of(s.take(i as int))[k],
            decreases s.len() - i,
        {
            proof {
                lemma_apps_step(s, i as int);
            }
            let ghost before = apps_of(s.take(i as int));
            if is_application_kind(self.components[i].0.kind.as_str()) {
                r.push(i);
            }
            i += 1;
            assert forall|k: int| 0 <= k < r@.len() implies s[r@[k] as int]
                == #[trigger] apps_of(s.take(i as int))[k] by {
                if k < before.len() {
                    assert(apps_of(s.take(i as int))[k] == before[k]);
                }
            }
        }
        assert(s.take(i as int) =~= s);
        r
    }

    /// The first `limit` applications, shown in `locales`.
    pub fn get_popular_apps_with_locales(&self, limit: usize, locales: &Vec<String>) -> (r: Vec<
        AppStreamEntry,
    >)
        ensures
            r@.len() == if limit < self.apps().len() {
                limit as int
            } else {
                self.apps().len() as int
            },
            forall|k: int|
                0 <= k < r@.len() ==> self.entry_matches(
                    #[trigger] r@[k],
                    self.apps()[k],
                    strings_view(locales@),
                ),
    {
        let pos = self.app_positions();
        let n = if limit < pos.len() {
            limit
        } else {
            pos.len()
        };
        let mut out: Vec<AppStreamEntry> = Vec::new();
        let mut k: usize = 0;
        while k < n
            invariant
                n <= pos@.len(),
                pos@.len() == self.apps().len(),
                forall|j: int| 0 <= j < pos@.len() ==> #[trigger] pos@[j] < self.components@.len(),
                forall|j: int|
                    0 <= j < pos@.len() ==> self.components@[pos@[j] as int] == #[trigger] self.apps()[j],
                0 <= k <= n,
                out@.len() == k,
                forall|j: int|
                    0 <= j < k ==> self.entry_matches(
                        #[trigger] out@[j],
                        self.apps()[j],
                        strings_view(locales@),
                    ),
            decreases n - k,
        {
            assert(self.components@[pos@[k as int] as int] == self.apps()[k as int]);
            let e = self.entry_at(pos[k], locales);
            out.push(e);
            k += 1;
        }
        out
    }

    /// The first `limit` applications.
    pub fn get_popular_apps(&self, limit: usize) -> (r: Vec<AppStreamEntry>)
        ensures
            r@.len() == if limit < self.apps().len() {
                limit as int
            } else {
                self.apps().len() as int
            },
            forall|k: int|
                0 <= k < r@.len() ==> self.entry_matches(
                    #[trigger] r@[k],
                    self.apps()[k],
                    strings_view(self.locales@),
                ),
    {
        self.get_popular_apps_with_locales(limit, &self.locales)
    }

    /// The last `limit` applications, last first, shown in `locales`.
    pub fn get_recent_apps_with_locales(&self, limit: usize, locales: &Vec<String>) -> (r: Vec<
        AppStreamEntry,
    >)
        ensures
            r@.len() == if limit < self.apps().len() {
                limit as int
            } else {
                self.apps().len() as int
            },
            forall|k: int|
                0 <= k < r@.len() ==> self.entry_matches(
                    #[trigger] r@[k],
                    self.apps()[self.apps().len() - 1 - k],
                    strings_view(locales@),
                ),
    {
        let pos = self.app_positions();
        let total = pos.len();
        let n = if limit < total {
            limit
        } else {
            total
        };
        let mut out: Vec<AppStreamEntry> = Vec::new();
        let mut k: usize = 0;
        while k < n
            invariant
                n <= total,
                total == pos@.len(),
                pos@.len() == self.apps().len(),
                forall|j: int| 0 <= j < pos@.len() ==> #[trigger] pos@[j] < self.components@.len(),
                forall|j: int|
                    0 <= j < pos@.len() ==> self.components@[pos@[j] as int] == #[trigger] self.apps()[j],
                0 <= k <= n,
                out@.len() == k,
                forall|j: int|
                    0 <= j < k ==> self.entry_matches(
                        #[trigger] out@[j],
                        self.apps()[self.apps().len() - 1 - j],
                        strings_view(locales@),
                    ),
            decreases n - k,
        {
            let at = total - 1 - k;
            assert(self.components@[pos@[at as int] as int] == self.apps()[at as int]);
            let e = self.entry_at(pos[at], locales);
            out.push(e);
            k += 1;
        }
        out
    }

    /// The last `limit` applications, last first.
    pub fn get_recent_apps(&self, limit: usize) -> (r: Vec<AppStreamEntry>)
        ensures
            r@.len() == if limit < self.apps().len() {
                limit as int
            } else {
                self.apps().len() as int
            },
            forall|k: int|
                0 <= k < r@.len() ==> self.entry_matches(
                    #[trigger] r@[k],
                    self.apps()[self.apps().len() - 1 - k],
                    strings_view(self.locales@),
                ),
    {
        self.get_recent_apps_with_locales(limit, &self.locales)
    }

    /// The applications that match a query by id, name or summary
    /// (untranslated or in the first of `locales` that has one), ignoring
    /// case, in order, shown in `locales`.
    pub fn search_apps_with_locales(&self, query: &str, locales: &Vec<String>) -> (r: Vec<AppStreamEntry>)
        ensures
            r@.len() == search_matches(
                self.apps(),
                unicode_lowercase(query@),
                strings_view(locales@),
            ).len(),
            forall|k: int|
                0 <= k < r@.len() ==> self.entry_matches(
                    #[trigger] r@[k],
                    search_matches(self.apps(), unicode_lowercase(query@), strings_view(locales@))[k],
                    strings_view(locales@),
                ),
    {
        let ql = lowercase(query);
        let q = chars_of(ql.as_str());
        let pos = self.app_positions();
        let ghost apps = self.apps();
        let ghost lv = strings_view(locales@);
        let ghost qv = q@;
        let mut out: Vec<AppStreamEntry> = Vec::new();
        let mut k: usize = 0;
        assert(apps.take(0) =~= Seq::<(CatalogComponent, Option<String>)>::empty());
        while k < pos.len()
            invariant
                apps == self.apps(),
                lv == strings_view(locales@),
                qv == q@,
                qv == unicode_lowercase(query@),
                pos@.len() == apps.len(),
                forall|j: int| 0 <= j < pos@.len() ==> #[trigger] pos@[j] < self.components@.len(),
                forall|j: int|
                    0 <= j < pos@.len() ==> self.components@[pos@[j] as int] == #[trigger] apps[j],
                0 <= k <= pos@.len(),
                out@.len() == search_matches(apps.take(k as int), qv, lv).len(),
                forall|j: int|
                    0 <= j < out@.len() ==> self.entry_matches(
                        #[trigger] out@[j],
                        search_matches(apps.take(k as int), qv, lv)[j],
                        lv,
                    ),
            decreases pos@.len() - k,
        {
            let ghost before = search_matches(apps.take(k as int), qv, lv);
            assert(apps.take(k + 1).drop_last() =~= apps.take(k as int));
            assert(apps.take(k + 1).last() == apps[k as int]);
            assert(self.components@[pos@[k as int] as int] == apps[k as int]);
            if search_hit_exec(&self.components[pos[k]].0, &q, locales) {
                let e = self.entry_at(pos[k], locales);
                out.push(e);
            }
            k += 1;
            assert forall|j: int| 0 <= j < out@.len() implies self.entry_matches(
                #[trigger] out@[j],
                search_matches(apps.take(k as int), qv, lv)[j],
                lv,
            ) by {
                if j < before.len() {
                    assert(search_matches(apps.take(k as int), qv, lv)[j] == before[j]);
                }
            }
        }
        assert(apps.take(k as int) =~= apps);
        out
    }

    /// The applications that match a query, shown in the catalog's locales.
    pub fn search_apps(&self, query: &str) -> (r: Vec<AppStreamEntry>)
        ensures
            r@.len() == search_matches(
                self.apps(),
                unicode_lowercase(query@),
                strings_view(self.locales@),
            ).len(),
            forall|k: int|
                0 <= k < r@.len() ==> self.entry_matches(
                    #[trigger] r@[k],
                    search_matches(self.apps(), unicode_lowercase(query@), strings_view(self.locales@))[k],
                    strings_view(self.locales@),
                ),
    {
        self.search_apps_with_locales(query, &self.locales)
    }

    /// The applications in a category (ignoring case), in order, shown in
    /// `locales`.
    pub fn get_apps_by_category_with_locales(&self, category: &str, locales: &Vec<String>) -> (r: Vec<
        AppStreamEntry,
    >)
        ensures
            r@.len() == category_matches(self.apps(), category@).len(),
            forall|k: int|
                0 <= k < r@.len() ==> self.entry_matches(
                    #[trigger] r@[k],
                    category_matches(self.apps(), category@)[k],
                    strings_view(locales@),
                ),
    {
        let pos = self.app_positions();
        let ghost apps = self.apps();
        let ghost lv = strings_view(locales@);
        let mut out: Vec<AppStreamEntry> = Vec::new();
        let mut k: usize = 0;
        assert(apps.take(0) =~= Seq::<(CatalogComponent, Option<String>)>::empty());
        while k < pos.len()
            invariant
                apps == self.apps(),
                lv == strings_view(locales@),
                pos@.len() == apps.len(),
                forall|j: int| 0 <= j < pos@.len() ==> #[trigger] pos@[j] < self.components@.len(),
                forall|j: int|
                    0 <= j < pos@.len() ==> self.components@[pos@[j] as int] == #[trigger] apps[j],
                0 <= k <= pos@.len(),
                out@.len() == category_matches(apps.take(k as int), category@).len(),
                forall|j: int|
                    0 <= j < out@.len() ==> self.entry_matches(
                        #[trigger] out@[j],
                        category_matches(apps.take(k as int), category@)[j],
                        lv,
                    ),
            decreases pos@.len() - k,
        {
            let ghost before = category_matches(apps.take(k as int), category@);
            assert(apps.take(k + 1).drop_last() =~= apps.take(k as int));
            assert(apps.take(k + 1).last() == apps[k as int]);
            assert(self.components@[pos@[k as int] as int] == apps[k as int]);
            if in_category_exec(&self.components[pos[k]].0, category) {
                let e = self.entry_at(pos[k], locales);
                out.push(e);
            }
            k += 1;
            assert forall|j: int| 0 <= j < out@.len() implies self.entry_matches(
                #[trigger] out@[j],
                category_matches(apps.take(k as int), category@)[j],
                lv,
            ) by {
                if j < before.len() {
                    assert(category_matches(apps.take(k as int), category@)[j] == before[j]);
                }
            }
        }
        assert(apps.take(k as int) =~= apps);
        out
    }

    /// The applications in a category, shown in the catalog's locales.
    pub fn get_apps_by_category(&self, category: &str) -> (r: Vec<AppStreamEntry>)
        ensures
            r@.len() == category_matches(self.apps(), category@).len(),
            forall|k: int|
                0 <= k < r@.len() ==> self.entry_matches(
                    #[trigger] r@[k],
                    category_matches(self.apps(), category@)[k],
                    strings_view(self.locales@),
                ),
    {
        self.get_apps_by_category_with_locales(category, &self.locales)
    }

    /// The entry of the first component (of any kind) with this id, with or
    /// without a `.desktop` suffix, shown in `locales`.
    pub fn find_by_id_with_locales(&self, id: &str, locales: &Vec<String>) -> (r: Option<AppStreamEntry>)
        ensures
            match first_with_id(self.components@, id@) {
                Some(i) => r matches Some(e) && self.entry_matches(
                    e,
                    self.components@[i],
                    strings_view(locales@),
                ),
                None => r is None,
            },
    {
        let mut d: Vec<char> = Vec::new();
        push_str(&mut d, id);
        push_str(&mut d, ".desktop");
        let with_desktop = string_of(&d);
        let mut i: usize = 0;
        while i < self.components.len()
            invariant
                0 <= i <= self.components@.len(),
                with_desktop@ == id@ + ".desktop"@,
                forall|j: int|
                    0 <= j < i ==> self.components@[j].0.id@ != id@ && self.components@[j].0.id@
                        != id@ + ".desktop"@,
            decreases self.components@.len() - i,
        {
            let cid = self.components[i].0.id.as_str();
            if str_eq(cid, id) || str_eq(cid, with_desktop.as_str()) {
                proof {
                    lemma_first_with_id(self.components@, id@, i as int);
                }
                return Some(self.entry_at(i, locales));
            }
            i += 1;
        }
        proof {
            lemma_first_with_id(self.components@, id@, i as int);
        }
        None
    }

    /// The entry of the component with this id, shown in the catalog's
    /// locales.
    pub fn find_by_id(&self, id: &str) -> (r: Option<AppStreamEntry>)
        ensures
            match first_with_id(self.components@, id@) {
                Some(i) => r matches Some(e) && self.entry_matches(
                    e,
                    self.components@[i],
                    strings_view(self.locales@),
                ),
                None => r is None,
            },
    {
        self.find_by_id_with_locales(id, &self.locales)
    }
}

} // verus!
