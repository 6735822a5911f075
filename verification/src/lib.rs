//! Core logic of the Arc software manager: package-file recognition, launch
//! arguments, description markup, provider index files, transaction
//! bookkeeping and navigation history.

pub mod text;
pub mod fields;
pub mod package;
pub mod distrobox;
pub mod deeplink;
pub mod appimage;
pub mod blocks;
pub mod appstream;
pub mod snapshot;
pub mod transactions;
pub mod routing;
pub mod nav;
pub mod jobs;
pub mod media;
pub mod icons;
pub mod frontend;
pub mod xml;
pub mod metainfo;
pub mod extensions;
pub mod webapps;
pub mod games;
pub mod launch;
pub mod forge;
pub mod catalog;
pub mod install_search;
pub mod flatpak;
pub mod leftovers;
pub mod package_list;
pub mod components;
pub mod web_api;
