//! The page the frontend opens for a launch intent: an app's details, a
//! `.flatpakref` to confirm, a repository to add or a package file to
//! install (with a Flatpak alternative when the catalog has one).

use vstd::prelude::*;
use crate::package::{Package, Provider};
use crate::text::{contains_seq, chars_of, string_of, push_str, find};
use crate::deeplink::{parse_flatpakref, parse_flatpakrepo, ini_text};

verus! {

/// What the deep-link page shows.
pub struct DeepLinkControllerRust {
    pub kind: String,
    pub pkg_id: String,
    pub ref_title: String,
    pub ref_source: String,
    pub repo_title: String,
    pub repo_url: String,
    pub repo_content: String,
    pub file_path: String,
    pub file_name: String,
    pub file_pkg_name: String,
    pub file_is_appimage: bool,
    pub file_is_bundle: bool,
    pub file_has_flatpak_alt: bool,
    pub file_flatpak_alt_id: String,
    pub file_flatpak_alt_name: String,
}

/// A `.flatpakref` from Flathub opens the app's page: its origin is known,
/// so there is nothing to confirm. Only a local file is trusted this way.
pub open spec fn is_flathub_ref(is_local_file: bool, repo_url: Seq<char>) -> bool {
    is_local_file && (contains_seq(repo_url, "dl.flathub.org"@) || contains_seq(
        repo_url,
        "flathub.org"@,
    ))
}

/// What a `.flatpakref` install is started from: the URL, or the local file
/// as a `file://` URL.
pub open spec fn ref_install_source(source: Seq<char>, is_local_file: bool) -> Seq<char> {
    if is_local_file {
        "file://"@ + source
    } else {
        source
    }
}

/// Whether to look for a Flatpak of a package file (not for AppImages and
/// Flatpak bundles).
pub fn wants_flatpak_alternative(is_appimage: bool, is_bundle: bool) -> (r: bool)
    ensures
        r == (!is_appimage && !is_bundle),
{
    !is_appimage && !is_bundle
}

/// The first Flatpak among search results.
pub open spec fn first_flatpak(pkgs: Seq<Package>) -> Option<int>
    decreases pkgs.len(),
{
    if pkgs.len() == 0 {
        None
    } else if pkgs[0].provider == Provider::Flatpak {
        Some(0)
    } else {
        match first_flatpak(pkgs.drop_first()) {
            Some(i) => Some(i + 1),
            None => None,
        }
    }
}

proof fn lemma_first_flatpak(pkgs: Seq<Package>, i: int)
    requires
        0 <= i < pkgs.len(),
        pkgs[i].provider == Provider::Flatpak,
        forall|j: int| 0 <= j < i ==> pkgs[j].provider != Provider::Flatpak,
    ensures
        first_flatpak(pkgs) == Some(i),
    decreases i,
{
    if i > 0 {
        lemma_first_flatpak(pkgs.drop_first(), i - 1);
    }
}

proof fn lemma_no_flatpak(pkgs: Seq<Package>)
    requires
        forall|j: int| 0 <= j < pkgs.len() ==> pkgs[j].provider != Provider::Flatpak,
    ensures
        first_flatpak(pkgs) is None,
    decreases pkgs.len(),
{
    if pkgs.len() > 0 {
        lemma_no_flatpak(pkgs.drop_first());
    }
}

/// The id and name of the first Flatpak among search results.
pub fn flatpak_alternative(pkgs: &Vec<Package>) -> (r: Option<(String, String)>)
    ensures
        match first_flatpak(pkgs@) {
            Some(i) => r matches Some((id, name)) && id@ == pkgs@[i].id@ && name@ == pkgs@[i].name@,
            None => r is None,
        },
{
    let mut i: usize = 0;
    while i < pkgs.len()
        invariant
            0 <= i <= pkgs@.len(),
            forall|j: int| 0 <= j < i ==> pkgs@[j].provider != Provider::Flatpak,
        decreases pkgs@.len() - i,
    {
        if pkgs[i].provider == Provider::Flatpak {
            proof {
                lemma_first_flatpak(pkgs@, i as int);
            }
            return Some((pkgs[i].id.clone(), pkgs[i].name.clone()));
        }
        i += 1;
    }
    proof {
        lemma_no_flatpak(pkgs@);
    }
    None
}

impl DeepLinkControllerRust {
    /// Nothing shown yet.
    pub fn new() -> (r: Self)
        ensures
            r.kind@.len() == 0,
            !r.file_has_flatpak_alt,
    {
        DeepLinkControllerRust {
            kind: String::new(),
            pkg_id: String::new(),
            ref_title: String::new(),
            ref_source: String::new(),
            repo_title: String::new(),
            repo_url: String::new(),
            repo_content: String::new(),
            file_path: String::new(),
            file_name: String::new(),
            file_pkg_name: String::new(),
            file_is_appimage: false,
            file_is_bundle: false,
            file_has_flatpak_alt: false,
            file_flatpak_alt_id: String::new(),
            file_flatpak_alt_name: String::new(),
        }
    }

    /// Opens an app's details.
    pub fn show_detail(&mut self, pkg_id: String)
        ensures
            final(self).kind@ == "detail"@,
            final(self).pkg_id@ == pkg_id@,
            final(self).ref_title == old(self).ref_title,
            final(self).ref_source == old(self).ref_source,
            final(self).repo_title == old(self).repo_title,
            final(self).file_path == old(self).file_path,
    {
        self.pkg_id = pkg_id;
        self.kind = String::from_str("detail");
        proof {
            reveal_strlit("detail");
        }
    }

    /// Opens a `.flatpakref` given its text: a Flathub one (from a local
    /// file) shows the app's details, any other asks to confirm the install.
    pub fn show_flatpakref(&mut self, source: String, is_local_file: bool, content: &str)
        ensures
            ({
                let (title, app_id, url) = (
                    ini_text(content@, "Flatpak Ref"@, "Title"@),
                    ini_text(content@, "Flatpak Ref"@, "Name"@),
                    ini_text(content@, "Flatpak Ref"@, "Url"@),
                );
                if is_flathub_ref(is_local_file, url) {
                    &&& final(self).kind@ == "detail"@
                    &&& final(self).pkg_id@ == app_id
                    &&& final(self).ref_title == old(self).ref_title
                    &&& final(self).ref_source == old(self).ref_source
                } else {
                    &&& final(self).kind@ == "flatpakref"@
                    &&& final(self).ref_title@ == (if title.len() > 0 {
                        title
                    } else {
                        app_id
                    })
                    &&& final(self).ref_source@ == ref_install_source(source@, is_local_file)
                    &&& final(self).pkg_id == old(self).pkg_id
                }
            }),
    {
        let (title, app_id, url) = parse_flatpakref(content);
        let uv = chars_of(url.as_str());
        let is_flathub = is_local_file && (find(&uv, &chars_of("dl.flathub.org")).is_some() || find(
            &uv,
            &chars_of("flathub.org"),
        ).is_some());
        if is_flathub {
            self.pkg_id = app_id;
            self.kind = String::from_str("detail");
            proof {
                reveal_strlit("detail");
            }
        } else {
            let install_source = if is_local_file {
                let mut v: Vec<char> = Vec::new();
                push_str(&mut v, "file://");
                push_str(&mut v, source.as_str());
                string_of(&v)
            } else {
                source
            };
            self.ref_title = title;
            self.ref_source = install_source;
            self.kind = String::from_str("flatpakref");
            proof {
                reveal_strlit("flatpakref");
            }
        }
    }

    /// Asks to add the repository a `.flatpakrepo` describes.
    pub fn show_add_repo(&mut self, content: String)
        ensures
            final(self).kind@ == "addrepo"@,
            final(self).repo_title@ == ini_text(content@, "Flatpak Repo"@, "Title"@),
            final(self).repo_url@ == ini_text(content@, "Flatpak Repo"@, "Url"@),
            final(self).repo_content@ == content@,
            final(self).pkg_id == old(self).pkg_id,
    {
        let (title, url) = parse_flatpakrepo(content.as_str());
        self.repo_title = title;
        self.repo_url = url;
        self.repo_content = content;
        self.kind = String::from_str("addrepo");
        proof {
            reveal_strlit("addrepo");
        }
    }

    /// Asks to install a package file, offering the Flatpak alternative if
    /// one was found.
    pub fn show_file(
        &mut self,
        path: String,
        file_name: String,
        pkg_name: String,
        is_appimage: bool,
        is_bundle: bool,
        alternative: Option<(String, String)>,
    )
        ensures
            final(self).kind@ == "installfile"@,
            final(self).file_path@ == path@,
            final(self).file_name@ == file_name@,
            final(self).file_pkg_name@ == pkg_name@,
            final(self).file_is_appimage == is_appimage,
            final(self).file_is_bundle == is_bundle,
            match alternative {
                Some((id, name)) => final(self).file_has_flatpak_alt
                    && final(self).file_flatpak_alt_id@ == id@
                    && final(self).file_flatpak_alt_name@ == name@,
                None => final(self).file_has_flatpak_alt == old(self).file_has_flatpak_alt
                    && final(self).file_flatpak_alt_id == old(self).file_flatpak_alt_id,
            },
    {
        self.file_path = path;
        self.file_name = file_name;
        self.file_pkg_name = pkg_name;
        self.file_is_appimage = is_appimage;
        self.file_is_bundle = is_bundle;
        if let Some((id, name)) = alternative {
            self.file_flatpak_alt_id = id;
            self.file_flatpak_alt_name = name;
            self.file_has_flatpak_alt = true;
        }
        self.kind = String::from_str("installfile");
        proof {
            reveal_strlit("installfile");
        }
    }
}

} // verus!
