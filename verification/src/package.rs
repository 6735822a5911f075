//! The package record that every provider hands out.

use vstd::prelude::*;

verus! {

/// Where a package comes from.
#[derive(Clone, Copy, Debug, PartialEq, Eq, Structural)]
pub enum Provider {
    Flatpak,
    Distrobox,
    Lutris,
    AppImage,
    Pwa,
}

/// A package as the daemon lists it.
#[derive(Clone, Debug)]
pub struct Package {
    pub id: String,
    pub name: String,
    pub version: String,
    pub description: String,
    pub provider: Provider,
    pub installed: bool,
    pub icon_url: Option<String>,
    pub remote: Option<String>,
    pub screenshots: Vec<String>,
    pub developer_name: Option<String>,
    pub homepage_url: Option<String>,
    pub content_rating: Option<String>,
    pub is_runtime: bool,
    pub categories: Vec<String>,
}

/// The name shown for a provider.
pub open spec fn provider_label(p: Provider) -> Seq<char> {
    match p {
        Provider::Flatpak => "Flatpak"@,
        Provider::Distrobox => "Distrobox"@,
        Provider::Lutris => "Lutris"@,
        Provider::AppImage => "AppImage"@,
        Provider::Pwa => "PWA"@,
    }
}

/// The name shown for a provider.
pub fn provider_str(p: Provider) -> (r: &'static str)
    ensures
        r@ == provider_label(p),
{
    match p {
        Provider::Flatpak => "Flatpak",
        Provider::Distrobox => "Distrobox",
        Provider::Lutris => "Lutris",
        Provider::AppImage => "AppImage",
        Provider::Pwa => "PWA",
    }
}

} // verus!
