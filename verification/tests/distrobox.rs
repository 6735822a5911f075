use arc_core::distrobox::{
    classify_file, guess_pkg_name, info_file, list_has_container, parse_container_names,
    parse_package_id, split_package_id, strip_version_suffix, DistroboxProvider, PackageIdError,
    PkgType, install_phases, next_tick, InstallPhase, PhaseWork, Ticker,
};

#[test]
fn package_types_round_trip() {
    for t in [PkgType::Deb, PkgType::Rpm, PkgType::Pacman] {
        assert_eq!(PkgType::from_str(t.as_str()), Some(t));
    }
    assert_eq!(PkgType::Deb.as_str(), "deb");
    assert_eq!(PkgType::from_str("snap"), None);
}

#[test]
fn classifies_package_files() {
    let (c, img, t) = classify_file("/tmp/htop_3.2_amd64.deb").unwrap();
    assert_eq!(c, "arc-debian");
    assert_eq!(img, "quay.io/toolbx-images/debian-toolbox:13");
    assert_eq!(t, PkgType::Deb);
    assert_eq!(classify_file("/tmp/a.rpm").unwrap().0, "arc-fedora");
    assert_eq!(classify_file("/tmp/a-1-1-x86_64.pkg.tar.zst").unwrap().2, PkgType::Pacman);
    assert!(classify_file("/tmp/a.AppImage").is_none());
}

#[test]
fn guesses_names() {
    assert_eq!(guess_pkg_name("/tmp/htop_3.2_amd64.deb", PkgType::Deb), "htop");
    assert_eq!(guess_pkg_name("/tmp/htop-3.2-1.fc39.x86_64.rpm", PkgType::Rpm), "htop");
    assert_eq!(guess_pkg_name("/tmp/1password-8.10-1-x86_64.pkg.tar.zst", PkgType::Pacman), "1password");
    assert_eq!(guess_pkg_name("/tmp/my-app-2.0-1-any.pkg.tar.xz", PkgType::Pacman), "my-app");
    assert_eq!(strip_version_suffix("name-1.0-1.arch"), "name");
    assert_eq!(strip_version_suffix("my-tool"), "my-tool");
}

#[test]
fn index_paths() {
    assert_eq!(info_file("/data/packages", "arc-debian", "htop"), "/data/packages/arc-debian___htop.info");
    let p = DistroboxProvider::new("/home/u");
    assert_eq!(p.packages_dir, "/home/u/.local/share/arc/packages");
    assert_eq!(p.info_file("arc-fedora", "x"), "/home/u/.local/share/arc/packages/arc-fedora___x.info");
}

#[test]
fn package_ids() {
    assert_eq!(
        split_package_id("distrobox:arc-debian:htop:deb"),
        Some(("arc-debian".to_string(), "htop".to_string(), "deb".to_string()))
    );
    assert_eq!(split_package_id("flatpak:a:b:c"), None);
    let id = parse_package_id("distrobox:arc-arch:vim:pacman").ok().unwrap();
    assert_eq!(id.container, "arc-arch");
    assert_eq!(id.guessed_name, "vim");
    assert_eq!(id.pkg_type, PkgType::Pacman);
    assert_eq!(parse_package_id("htop").err(), Some(PackageIdError::Invalid));
    assert_eq!(
        parse_package_id("distrobox:c:n:snap").err(),
        Some(PackageIdError::UnknownType("snap".to_string()))
    );
}

#[test]
fn container_listing() {
    let out = "ID | NAME | STATUS | IMAGE\nabc | arc-debian | Up | debian\ndef | arc-fedora | Exited | fedora\n";
    assert_eq!(parse_container_names(out), vec!["arc-debian".to_string(), "arc-fedora".to_string()]);
    assert!(list_has_container(out, "arc-fedora"));
    assert!(!list_has_container(out, "NAME"));
}

#[test]
fn install_phases_include_compat_setup_for_debian_and_arch_only() {
    let deb = install_phases("arc-debian");
    assert_eq!(deb.len(), 4);
    assert_eq!(
        deb[0],
        InstallPhase { report: 5, tick: Some(Ticker { ceiling: 18, interval_secs: 2 }), work: Some(PhaseWork::EnsureContainer) }
    );
    assert_eq!(
        deb[1],
        InstallPhase { report: 20, tick: Some(Ticker { ceiling: 55, interval_secs: 3 }), work: Some(PhaseWork::DebianCompat) }
    );
    assert_eq!(deb[2].report, 60);
    assert_eq!(deb[2].work, Some(PhaseWork::InstallAndExport));
    assert_eq!(deb[3], InstallPhase { report: 95, tick: None, work: None });
    assert_eq!(install_phases("arc-arch")[1].work, Some(PhaseWork::ArchCompat));
    let rpm = install_phases("arc-fedora");
    assert_eq!(rpm[1], InstallPhase { report: 20, tick: None, work: None });
}

#[test]
fn ticker_climbs_to_its_ceiling() {
    assert_eq!(next_tick(5, 18), 6);
    assert_eq!(next_tick(17, 18), 18);
    assert_eq!(next_tick(18, 18), 18);
    assert_eq!(next_tick(255, 200), 200);
    assert_eq!(next_tick(254, 255), 255);
}
