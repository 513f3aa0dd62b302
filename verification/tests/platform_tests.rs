use std::collections::HashSet;

use andrust::command::{CommandOptions, CommandState};
use andrust::downloader::{url_of, BuildPlatformConfig, HostOs};
use andrust::platform::{
    bind_targets, get_latest_folder_name, required_paths, setup_config, ConfigWriter, FolderEntry,
    LinuxConfig, MacConfig, Platform, PlatformError, PlatformToolset, TargetPlatform, WinConfig,
};

fn toolset(target: &'static str, ar: &str, linker: &str) -> PlatformToolset {
    PlatformToolset::new(target, ar.to_string(), linker.to_string())
}

fn entry(path: &str, modified: i128) -> FolderEntry {
    FolderEntry { path: Some(path.to_string()), is_dir: true, modified }
}

fn file(path: &str, modified: i128) -> FolderEntry {
    FolderEntry { path: Some(path.to_string()), is_dir: false, modified }
}

fn options_with_ndk(root: &str) -> CommandOptions {
    match CommandState::from(vec![("-n".to_string(), root.to_string())]) {
        CommandState::Options(options) => options,
        CommandState::ExitWithPrint(_) => panic!("options expected"),
    }
}

fn triple_of(target: &TargetPlatform) -> &'static str {
    match target {
        TargetPlatform::Aarch64(_) => "aarch64",
        TargetPlatform::Armv7(_) => "armv7",
        TargetPlatform::I686(_) => "i686",
    }
}

#[test]
fn toolset_getters_give_back_what_was_put_in() {
    let t = toolset("aarch64-linux-android", "bin/ar", "bin/clang");
    assert_eq!(t.target(), "aarch64-linux-android");
    assert_eq!(t.ar(), "bin/ar");
    assert_eq!(t.linker(), "bin/clang");
}

#[test]
fn clone_with_ndk_root_joins_both_paths() {
    let t = toolset("aarch64-linux-android", "bin/ar", "bin/clang");
    let bound = t.clone_with_ndk_root(Some("/opt/ndk")).unwrap();
    assert_eq!(bound.target(), "aarch64-linux-android");
    assert_eq!(bound.ar(), "/opt/ndk/bin/ar");
    assert_eq!(bound.linker(), "/opt/ndk/bin/clang");
}

#[test]
fn clone_with_ndk_root_without_text_is_wrong_path_name() {
    let t = toolset("aarch64-linux-android", "bin/ar", "bin/clang");
    assert_eq!(t.clone_with_ndk_root(None).unwrap_err(), PlatformError::WrongPathName);
}

#[test]
fn add_ndk_root_keeps_the_triple() {
    let target = TargetPlatform::Armv7(toolset("armv7-linux-androideabi", "a", "l"));
    let bound = target.add_ndk_root(Some("r")).unwrap();
    assert_eq!(triple_of(&bound), "armv7");
    assert_eq!(bound.to_platform_toolset().ar(), "r/a");
    assert_eq!(bound.to_platform_toolset().linker(), "r/l");
    let target = TargetPlatform::I686(toolset("i686-linux-android", "a", "l"));
    assert_eq!(target.add_ndk_root(None).unwrap_err(), PlatformError::WrongPathName);
}

#[test]
fn format_target_renders_one_stanza() {
    let t = toolset("i686-linux-android", "/ndk/ar", "/ndk/clang");
    assert_eq!(
        t.format_target(),
        "\n[target.i686-linux-android]\nar = \"/ndk/ar\"\nlinker = \"/ndk/clang\"\n"
    );
}

#[test]
fn error_names() {
    assert_eq!(PlatformError::ToolsetDoesNotExist.to_string(), "ToolsetDoesNotExist");
    assert_eq!(PlatformError::WrongPathName.to_string(), "WrongPathName");
}

#[test]
fn config_of_two_toolsets_has_exactly_their_stanzas() {
    let toolsets = vec![
        TargetPlatform::Aarch64(toolset("aarch64-linux-android", "/ndk/a64-ar", "/ndk/a64-clang")),
        TargetPlatform::Armv7(toolset("armv7-linux-androideabi", "/ndk/v7-ar", "/ndk/v7-clang")),
    ];
    let content = ConfigWriter::new(&toolsets).content();
    assert_eq!(
        content,
        "\n[target.aarch64-linux-android]\nar = \"/ndk/a64-ar\"\nlinker = \"/ndk/a64-clang\"\n\
         \n[target.armv7-linux-androideabi]\nar = \"/ndk/v7-ar\"\nlinker = \"/ndk/v7-clang\"\n"
    );
    assert_eq!(content.matches("[target.").count(), 2);
    assert!(!content.contains("i686"));
}

#[test]
fn config_of_no_toolsets_is_empty() {
    let toolsets: Vec<TargetPlatform> = Vec::new();
    assert_eq!(ConfigWriter::new(&toolsets).content(), "");
}

#[test]
fn config_goes_below_the_project_root() {
    let toolsets = vec![TargetPlatform::I686(toolset("i686-linux-android", "a", "l"))];
    let file = ConfigWriter::new(&toolsets).render(Some("/work/proj"));
    assert_eq!(file.dir, "/work/proj/.cargo");
    assert_eq!(file.path, "/work/proj/.cargo/config");
    assert_eq!(file.content, "\n[target.i686-linux-android]\nar = \"a\"\nlinker = \"l\"\n");
    let file = ConfigWriter::new(&toolsets).render(None);
    assert_eq!(file.dir, ".cargo");
    assert_eq!(file.path, ".cargo/config");
}

#[test]
fn catalogs_hold_each_target_once_with_paths() {
    let catalogs = vec![
        LinuxConfig::get_toolsets(),
        MacConfig::get_toolsets(),
        WinConfig::get_toolsets(),
    ];
    for catalog in &catalogs {
        let triples: Vec<&str> = catalog.iter().map(triple_of).collect();
        assert_eq!(triples, vec!["aarch64", "armv7", "i686"]);
        for target in catalog {
            for path in [target.to_platform_toolset().ar(), target.to_platform_toolset().linker()] {
                assert!(!path.is_empty());
                assert!(!path.starts_with('/'));
                assert!(!path.contains("{}"));
            }
        }
        let names: Vec<&str> = catalog.iter().map(|t| t.to_platform_toolset().target()).collect();
        assert_eq!(
            names,
            vec!["aarch64-linux-android", "armv7-linux-androideabi", "i686-linux-android"]
        );
    }
}

#[test]
fn mac_catalog_paths() {
    let catalog = MacConfig::get_toolsets();
    assert_eq!(
        required_paths(&catalog),
        vec![
            "toolchains/llvm/prebuilt/darwin-x86_64/bin/aarch64-linux-android-ar",
            "toolchains/llvm/prebuilt/darwin-x86_64/bin/aarch64-linux-android21-clang",
            "toolchains/llvm/prebuilt/darwin-x86_64/bin/arm-linux-androideabi-ar",
            "toolchains/llvm/prebuilt/darwin-x86_64/bin/armv7a-linux-androideabi16-clang",
            "toolchains/llvm/prebuilt/darwin-x86_64/bin/i686-linux-android-ar",
            "toolchains/llvm/prebuilt/darwin-x86_64/bin/i686-linux-android16-clang",
        ]
    );
}

#[test]
fn win_catalog_paths() {
    let catalog = WinConfig::get_toolsets();
    assert_eq!(
        required_paths(&catalog),
        vec![
            "toolchains/llvm/prebuilt/windows-x86_64/bin/aarch64-linux-android-ar.exe",
            "toolchains/llvm/prebuilt/windows-x86_64/bin/aarch64-linux-android21-clang.cmd",
            "toolchains/llvm/prebuilt/windows-x86_64/bin/arm-linux-androideabi-ar.exe",
            "toolchains/llvm/prebuilt/windows-x86_64/bin/armv7a-linux-androideabi16-clang.cmd",
            "toolchains/llvm/prebuilt/windows-x86_64/bin/i686-linux-android-ar.exe",
            "toolchains/llvm/prebuilt/windows-x86_64/bin/i686-linux-android16-clang.cmd",
        ]
    );
}

#[test]
fn linux_catalog_paths() {
    let catalog = LinuxConfig::get_toolsets();
    assert_eq!(
        required_paths(&catalog),
        vec![
            "toolchains/llvm/prebuilt/linux-x86_64/bin/aarch64-linux-android-ar",
            "toolchains/llvm/prebuilt/linux-x86_64/bin/aarch64-linux-android21-clang",
            "toolchains/llvm/prebuilt/linux-x86_64/bin/arm-linux-androideabi-ar",
            "toolchains/llvm/prebuilt/linux-x86_64/bin/armv7a-linux-androideabi16-clang",
            "toolchains/llvm/prebuilt/linux-x86_64/bin/i686-linux-android-ar",
            "toolchains/llvm/prebuilt/linux-x86_64/bin/i686-linux-android16-clang",
        ]
    );
}

#[test]
fn hosts_expose_their_catalog() {
    let mac = MacConfig::new(None);
    assert_eq!(mac.targets().len(), 3);
    let win = WinConfig::default();
    assert_eq!(win.targets().len(), 3);
    let linux = LinuxConfig::new(Some(options_with_ndk("/ndk")));
    assert_eq!(linux.targets().len(), 3);
}

#[test]
fn bind_targets_binds_all_or_none() {
    let bound = bind_targets(MacConfig::get_toolsets(), Some("/ndk"));
    assert_eq!(bound.len(), 3);
    assert_eq!(
        bound[1].to_platform_toolset().linker(),
        "/ndk/toolchains/llvm/prebuilt/darwin-x86_64/bin/armv7a-linux-androideabi16-clang"
    );
    assert_eq!(triple_of(&bound[2]), "i686");
    assert!(bind_targets(MacConfig::get_toolsets(), None).is_empty());
}

#[test]
fn setup_config_renders_one_stanza_for_each_target() {
    let file = WinConfig::new(None).setup_config(Some("C:/ndk"), Some("proj"));
    assert_eq!(file.path, "proj/.cargo/config");
    assert_eq!(file.dir, "proj/.cargo");
    assert_eq!(file.content.matches("[target.").count(), 3);
    assert!(file.content.starts_with(
        "\n[target.aarch64-linux-android]\nar = \"C:/ndk/toolchains/llvm/prebuilt/windows-x86_64/bin/aarch64-linux-android-ar.exe\"\nlinker = \"C:/ndk/toolchains/llvm/prebuilt/windows-x86_64/bin/aarch64-linux-android21-clang.cmd\"\n"
    ));
    let same = setup_config(WinConfig::get_toolsets(), Some("C:/ndk"), Some("proj"));
    assert_eq!(same.content, file.content);
}

#[test]
fn setup_config_without_root_text_renders_nothing() {
    let file = MacConfig::new(None).setup_config(None, None);
    assert_eq!(file.content, "");
    assert_eq!(file.path, ".cargo/config");
}

#[test]
fn latest_folder_is_the_one_with_the_latest_time_in_any_order() {
    let a = ("sdk/ndk/20.0", 1_000i128);
    let b = ("sdk/ndk/21.1", 3_000i128);
    let c = ("sdk/ndk/19.2", 2_000i128);
    let orders = vec![
        vec![a, b, c],
        vec![a, c, b],
        vec![b, a, c],
        vec![b, c, a],
        vec![c, a, b],
        vec![c, b, a],
    ];
    for order in orders {
        let entries: Vec<FolderEntry> = order.iter().map(|(p, t)| entry(p, *t)).collect();
        assert_eq!(get_latest_folder_name(&entries), Some("sdk/ndk/21.1".to_string()));
    }
}

#[test]
fn latest_folder_of_equal_times_is_the_first_listed() {
    let entries = vec![entry("x", 5), entry("y", 9), entry("z", 9)];
    assert_eq!(get_latest_folder_name(&entries), Some("y".to_string()));
}

#[test]
fn latest_folder_of_nothing_is_none() {
    assert_eq!(get_latest_folder_name(&Vec::new()), None);
}

#[test]
fn latest_folder_may_be_as_old_as_the_epoch_or_older() {
    assert_eq!(get_latest_folder_name(&vec![entry("x", 0), entry("y", 0)]), Some("x".to_string()));
    assert_eq!(get_latest_folder_name(&vec![entry("x", 0), entry("y", 1)]), Some("y".to_string()));
    assert_eq!(get_latest_folder_name(&vec![entry("only", 0)]), Some("only".to_string()));
    assert_eq!(get_latest_folder_name(&vec![entry("only", 0), file("f", 9)]), Some("only".to_string()));
    let old = vec![entry("a", -30), entry("b", -10), entry("c", -20)];
    assert_eq!(get_latest_folder_name(&old), Some("b".to_string()));
    let old = vec![entry("c", -20), entry("a", -30), entry("b", -10)];
    assert_eq!(get_latest_folder_name(&old), Some("b".to_string()));
}

#[test]
fn latest_folder_without_text_gives_none() {
    let entries =
        vec![entry("x", 5), FolderEntry { path: None, is_dir: true, modified: 9 }, entry("z", 3)];
    assert_eq!(get_latest_folder_name(&entries), None);
}

#[test]
fn download_url_is_the_archive_of_the_host() {
    assert_eq!(
        BuildPlatformConfig::new(HostOs::Linux).download_url(),
        Some("https://dl.google.com/android/repository/android-ndk-r21b-linux-x86_64.zip")
    );
    assert_eq!(
        BuildPlatformConfig::new(HostOs::MacOs).download_url(),
        Some("https://dl.google.com/android/repository/android-ndk-r21b-darwin-x86_64.zip")
    );
    assert_eq!(
        url_of(HostOs::Windows),
        "https://dl.google.com/android/repository/android-ndk-r21b-windows-x86_64.zip"
    );
}

#[test]
fn latest_folder_passes_over_what_is_no_directory() {
    let entries = vec![entry("sdk/ndk/21.1", 10), file("sdk/ndk/notes.txt", 50)];
    assert_eq!(get_latest_folder_name(&entries), Some("sdk/ndk/21.1".to_string()));
    let entries = vec![file("a", 50), entry("b", 10), file("c", 60), entry("d", 20)];
    assert_eq!(get_latest_folder_name(&entries), Some("d".to_string()));
    assert_eq!(get_latest_folder_name(&vec![file("a", 50), file("b", 60)]), None);
}

#[test]
fn linux_host_paths_name_linux_binaries() {
    for target in LinuxConfig::get_toolsets() {
        for path in [target.to_platform_toolset().ar(), target.to_platform_toolset().linker()] {
            assert!(path.starts_with("toolchains/llvm/prebuilt/linux-x86_64/bin/"));
            assert!(!path.ends_with(".cmd") && !path.ends_with(".exe"));
        }
    }
}

#[test]
fn toolsets_and_targets_compare_and_hash() {
    let a = toolset("aarch64-linux-android", "bin/ar", "bin/clang");
    let b = toolset("aarch64-linux-android", "bin/ar", "bin/clang");
    let c = toolset("aarch64-linux-android", "bin/ar", "bin/gcc");
    assert!(a == b);
    assert!(a != c);
    let mut set = HashSet::new();
    set.insert(TargetPlatform::Aarch64(a));
    set.insert(TargetPlatform::Aarch64(b));
    set.insert(TargetPlatform::Armv7(c));
    assert_eq!(set.len(), 2);
}
