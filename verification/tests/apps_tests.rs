use std::str::FromStr;

use protonup::apps::{App, AppInstallations};
use protonup::architecture_variants::{
    architecture_variants_for, default_variant, get_architecture_description,
    get_architecture_variant, get_variant_name,
};
use protonup::downloads::Download;
use protonup::launchers::{
    find_launchers, modify_launcher_data, Install, LauncherCollection, LauncherData,
};
use protonup::sources::ToolType;
use protonup::utils::{expand_tilde_with, install_directory};
use protonup::variants::Variant;

#[test]
fn it_works() {
    assert_eq!(4, 4);
}

#[test]
fn app_installations_and_back() {
    let steam = App::Steam.app_installations();
    assert_eq!(
        steam,
        vec![AppInstallations::Steam, AppInstallations::SteamFlatpak]
    );
    for inst in steam {
        assert_eq!(inst.as_app(), App::Steam);
    }
    let custom = App::Custom("/opt/games".to_owned()).app_installations();
    assert_eq!(custom, vec![AppInstallations::Custom("/opt/games".to_owned())]);
}

#[test]
fn subfolders_and_install_dirs() {
    let geproton = App::Steam.default_compatibility_tool();
    assert_eq!(geproton.name, "GEProton");
    let winege = App::Lutris.default_compatibility_tool();
    assert_eq!(winege.name, "WineGE");

    assert_eq!(App::Steam.subfolder_for_tool(&geproton), "");
    assert_eq!(App::Lutris.subfolder_for_tool(&winege), "runners/wine");
    assert!(App::Steam.list_subfolders().is_none());
    assert_eq!(
        App::Lutris.list_subfolders().unwrap(),
        vec!["runners/wine", "runtime"]
    );

    assert_eq!(
        AppInstallations::Steam.default_install_dir(),
        "~/.steam/steam/compatibilitytools.d/"
    );
    assert_eq!(
        AppInstallations::LutrisFlatpak.default_install_dir(),
        "~/.var/app/net.lutris.Lutris/data/lutris/"
    );
    assert_eq!(
        AppInstallations::new_custom_app_install("/opt/tools".to_owned()).default_install_dir(),
        "/opt/tools"
    );
}

#[test]
fn expand_tilde_cases() {
    let home = Some("/home/user".to_owned());
    assert_eq!(
        expand_tilde_with("~/.steam/steam/", &home),
        Some("/home/user/.steam/steam/".to_owned())
    );
    assert_eq!(expand_tilde_with("~", &home), Some("/home/user".to_owned()));
    assert_eq!(
        expand_tilde_with("/absolute/path", &home),
        Some("/absolute/path".to_owned())
    );
    // A path whose first segment merely begins with a tilde passes
    // through unchanged.
    assert_eq!(
        expand_tilde_with("~user/x", &home),
        Some("~user/x".to_owned())
    );
    assert_eq!(expand_tilde_with("~/x", &None), None);
    // The root-home corner: no extra slash is prepended, the tilde is
    // simply dropped.
    assert_eq!(
        expand_tilde_with("~/x", &Some("/".to_owned())),
        Some("x".to_owned())
    );
    // The default install directory expands against the environment's
    // home; with any home at all it keeps its trailing path.
    if let Some(dir) = install_directory() {
        assert!(dir.ends_with("compatibilitytools.d/"));
    }
}

#[test]
fn variant_roundtrip() {
    assert!(matches!(Variant::from_str("GEProton"), Ok(Variant::GEProton)));
    assert!(matches!(Variant::from_str("WineGE"), Ok(Variant::WineGE)));
    assert!(Variant::from_str("Something").is_err());

    assert_eq!(Variant::GEProton.intended_application(), "Steam");
    assert_eq!(Variant::WineGE.intended_application(), "Lutris");

    let p = Variant::WineGE.parameters();
    assert_eq!(p.repository_account, "GloriousEggroll");
    assert_eq!(p.repository_name, "wine-ge-custom");
    assert!(matches!(p.variant_type(), Variant::WineGE));
}

#[test]
fn tool_lookup_ignores_case() {
    let t = protonup::sources::CompatTool::from_str("geproton").unwrap();
    assert_eq!(t.repository_name, "proton-ge-custom");
    assert!(matches!(t.tool_type, ToolType::WineBased));
    assert!(protonup::sources::CompatTool::from_str("nosuchtool").is_err());
}

#[test]
fn test_find_launcher() {
    let data = LauncherData {
        path: "/home/user/.local/share/lutris/runners/wine".to_owned(),
        installs: vec![Install {
            name: "lutris-GE-Wine8-26".to_owned(),
        }],
    };
    let collection = LauncherCollection::find_launchers(None, None, Some(data), None);
    let list = find_launchers(collection);

    println!("Got list: {:?}", list);
    assert_eq!(list.len(), 1);
    assert!(list[0].has_data());
}

#[test]
fn test_modify_launcher_data() {
    let mut launcher_data: Option<LauncherData> = None;
    let path = "/home/user/.steam/root/compatibilitytools.d/".to_owned();

    modify_launcher_data(
        path.clone(),
        Some(vec!["GE-Proton9-27".to_owned(), "GE-Proton9-26".to_owned()]),
        &mut launcher_data,
    );

    if let Some(launcher_data) = &launcher_data {
        println!("Found installs: {:?}", launcher_data.installs);
    }
    let data = launcher_data.unwrap();
    assert_eq!(data.path, path);
    assert_eq!(data.installs.len(), 2);
    assert_eq!(data.installs[0].name, "GE-Proton9-27");

    let mut cleared = Some(data);
    modify_launcher_data(path, None, &mut cleared);
    assert!(cleared.is_none());
}

fn dl(file_name: &str) -> Download {
    Download {
        file_name: file_name.to_owned(),
        for_app: AppInstallations::Steam,
        version: "v1".to_owned(),
        hash_sum: None,
        download_url: String::new(),
        size: 0,
    }
}

#[test]
fn architecture_variant_classification() {
    assert_eq!(get_architecture_variant("proton-cachyos-x86_64_v4.tar.xz"), 4);
    assert_eq!(get_architecture_variant("proton-cachyos-x86_64_v3.tar.xz"), 3);
    assert_eq!(get_architecture_variant("proton-cachyos-x86_64_v2.tar.xz"), 2);
    assert_eq!(get_architecture_variant("proton-cachyos-x86_64.tar.xz"), 1);
    assert_eq!(get_architecture_variant("proton-cachyos.tar.xz"), 0);

    assert_eq!(get_variant_name(2), "x86_64_v2");
    assert_eq!(get_variant_name(9), "unknown");
    assert_eq!(get_architecture_description(2), "Recommended - optimized for SSE3");
    assert_eq!(get_architecture_description(0), "Unknown");
}

#[test]
fn default_variant_prefers_v2() {
    let variants = vec![
        dl("tool-x86_64.tar.xz"),
        dl("tool-x86_64_v3.tar.xz"),
        dl("tool-x86_64_v2.tar.xz"),
    ];
    let picked = default_variant(&variants).unwrap();
    assert_eq!(picked.file_name, "tool-x86_64_v2.tar.xz");

    let no_v2 = vec![dl("tool-x86_64.tar.xz"), dl("tool-x86_64_v3.tar.xz")];
    assert_eq!(default_variant(&no_v2).unwrap().file_name, "tool-x86_64.tar.xz");

    assert!(default_variant(&Vec::new()).is_none());
}

#[test]
fn architecture_variants_are_sorted_and_described() {
    let variants = vec![
        dl("tool-x86_64_v4.tar.xz"),
        dl("tool-x86_64.tar.xz"),
        dl("no-marker.tar.xz"),
        dl("tool-x86_64_v2.tar.xz"),
    ];
    let offered = architecture_variants_for(&variants);
    let names: Vec<&str> = offered.iter().map(|v| v.name.as_str()).collect();
    assert_eq!(names, vec!["x86_64", "x86_64_v2", "x86_64_v4"]);
    assert_eq!(offered[1].description, "Recommended - optimized for SSE3");
    assert_eq!(offered[2].download.file_name, "tool-x86_64_v4.tar.xz");
}
