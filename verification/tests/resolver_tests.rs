use andrust::command::{CommandOptions, CommandState};
use andrust::downloader::HostOs;
use andrust::platform::{
    FolderEntry, LinuxConfig, MacConfig, Platform, PlatformError, TargetPlatform, WinConfig,
};
use andrust::resolver::{Reply, Request, Resolver};

const MAC: [&str; 6] = [
    "toolchains/llvm/prebuilt/darwin-x86_64/bin/aarch64-linux-android-ar",
    "toolchains/llvm/prebuilt/darwin-x86_64/bin/aarch64-linux-android21-clang",
    "toolchains/llvm/prebuilt/darwin-x86_64/bin/arm-linux-androideabi-ar",
    "toolchains/llvm/prebuilt/darwin-x86_64/bin/armv7a-linux-androideabi16-clang",
    "toolchains/llvm/prebuilt/darwin-x86_64/bin/i686-linux-android-ar",
    "toolchains/llvm/prebuilt/darwin-x86_64/bin/i686-linux-android16-clang",
];

const WIN: [&str; 6] = [
    "toolchains/llvm/prebuilt/windows-x86_64/bin/aarch64-linux-android-ar.exe",
    "toolchains/llvm/prebuilt/windows-x86_64/bin/aarch64-linux-android21-clang.cmd",
    "toolchains/llvm/prebuilt/windows-x86_64/bin/arm-linux-androideabi-ar.exe",
    "toolchains/llvm/prebuilt/windows-x86_64/bin/armv7a-linux-androideabi16-clang.cmd",
    "toolchains/llvm/prebuilt/windows-x86_64/bin/i686-linux-android-ar.exe",
    "toolchains/llvm/prebuilt/windows-x86_64/bin/i686-linux-android16-clang.cmd",
];

/// A world made of fixed facts, which keeps a record of what it was asked.
#[derive(Default)]
struct Fake {
    env: Vec<(String, String)>,
    present: Vec<String>,
    listings: Vec<(String, Vec<(Option<String>, i128)>)>,
    typed: String,
    downloaded: bool,
    asked: Vec<String>,
}

impl Fake {
    fn with_toolchain(mut self, root: &str, paths: &[&str]) -> Self {
        self.present.push(root.to_string());
        for path in paths {
            self.present.push(format!("{}/{}", root, path));
        }
        self
    }

    fn with_env(mut self, name: &str, value: &str) -> Self {
        self.env.push((name.to_string(), value.to_string()));
        self
    }

    fn answer(&mut self, request: &Request) -> Reply {
        match request {
            Request::ReadEnv(name) => {
                self.asked.push(format!("env {}", name));
                Reply::Value(self.env.iter().find(|(n, _)| n == name).map(|(_, v)| v.clone()))
            }
            Request::CheckExists(path) => {
                self.asked.push(format!("exists {}", path));
                Reply::Exists(self.present.contains(path))
            }
            Request::ListDir(path) => {
                self.asked.push(format!("list {}", path));
                Reply::Listing(self.listings.iter().find(|(p, _)| p == path).map(|(_, es)| {
                    es.iter()
                        .map(|(p, t)| FolderEntry { path: p.clone(), is_dir: true, modified: *t })
                        .collect()
                }))
            }
            Request::AskUser => {
                self.asked.push("ask".to_string());
                Reply::Line(self.typed.clone())
            }
            Request::Download { url, file_name, unpack_into } => {
                self.asked.push(format!("download {} {} {}", url, file_name, unpack_into));
                Reply::Downloaded(self.downloaded)
            }
            Request::Finish(_) => unreachable!(),
        }
    }

    fn drive(&mut self, opened: (Resolver, Request)) -> Result<String, PlatformError> {
        let (mut resolver, mut request) = opened;
        for _ in 0..1000 {
            if let Request::Finish(result) = request {
                return result;
            }
            let reply = self.answer(&request);
            let next = resolver.step(reply);
            resolver = next.0;
            request = next.1;
        }
        panic!("the search did not finish");
    }

    fn asked_any(&self, prefix: &str) -> bool {
        self.asked.iter().any(|a| a.starts_with(prefix))
    }
}

fn options_with_ndk(root: &str) -> CommandOptions {
    match CommandState::from(vec![("-n".to_string(), root.to_string())]) {
        CommandState::Options(options) => options,
        CommandState::ExitWithPrint(_) => panic!("options expected"),
    }
}

fn mac_targets() -> Vec<TargetPlatform> {
    MacConfig::get_toolsets()
}

#[test]
fn valid_hint_is_returned_without_touching_anything_else() {
    let mut world = Fake::default()
        .with_toolchain("/hint", &MAC)
        .with_env("NDK_TOOL_ROOT", "/env")
        .with_toolchain("/env", &MAC);
    let host = MacConfig::new(Some(options_with_ndk("/hint")));
    let root = world.drive(host.determine_ndk_root()).unwrap();
    assert_eq!(root, "/hint");
    let expected: Vec<String> = MAC.iter().map(|p| format!("exists /hint/{}", p)).collect();
    assert_eq!(world.asked, expected);
    let file = host.setup_config(Some(root.as_str()), None);
    assert_eq!(file.path, ".cargo/config");
    assert_eq!(file.content.matches("[target.").count(), 3);
    for triple in ["aarch64-linux-android", "armv7-linux-androideabi", "i686-linux-android"] {
        assert_eq!(file.content.matches(&format!("[target.{}]", triple)).count(), 1);
    }
    assert!(file.content.contains(
        "ar = \"/hint/toolchains/llvm/prebuilt/darwin-x86_64/bin/arm-linux-androideabi-ar\""
    ));
}

#[test]
fn root_missing_one_linker_is_not_returned() {
    let mut world = Fake::default().with_toolchain("/hint", &MAC[..5]);
    let opened = Resolver::start(&mac_targets(), Some("/hint".to_string()), HostOs::MacOs);
    assert_eq!(world.drive(opened), Err(PlatformError::ToolsetDoesNotExist));
    assert!(world.asked_any(&format!("exists /hint/{}", MAC[5])));
}

#[test]
fn validation_stops_at_the_first_missing_path() {
    let mut world = Fake::default().with_toolchain("/hint", &MAC[..1]);
    let opened = Resolver::start(&mac_targets(), Some("/hint".to_string()), HostOs::MacOs);
    let _ = world.drive(opened);
    assert!(world.asked_any(&format!("exists /hint/{}", MAC[1])));
    assert!(!world.asked_any(&format!("exists /hint/{}", MAC[2])));
}

#[test]
fn invalid_hint_lets_the_search_go_on() {
    let mut world =
        Fake::default().with_env("NDK_TOOL_ROOT", "/env").with_toolchain("/env", &MAC);
    let opened = Resolver::start(&mac_targets(), Some("/hint".to_string()), HostOs::MacOs);
    assert_eq!(world.drive(opened), Ok("/env".to_string()));
}

#[test]
fn environment_root_wins_over_later_strategies() {
    let mut world = Fake::default()
        .with_env("NDK_TOOL_ROOT", "/env")
        .with_toolchain("/env", &MAC)
        .with_env("ANDROID_HOME", "/sdk")
        .with_toolchain("/sdk/ndk-bundle", &MAC)
        .with_env("HOME", "/home/u");
    let opened = Resolver::start(&mac_targets(), None, HostOs::MacOs);
    assert_eq!(world.drive(opened), Ok("/env".to_string()));
    assert_eq!(world.asked[0], "env NDK_TOOL_ROOT");
    assert!(!world.asked_any("env ANDROID_HOME"));
    assert!(!world.asked_any("env HOME"));
    assert!(!world.asked_any("list"));
    assert!(!world.asked_any("ask"));
    assert!(!world.asked_any("download"));
}

#[test]
fn sdk_bundle_is_tried_after_the_environment_root() {
    let mut world = Fake::default()
        .with_env("NDK_TOOL_ROOT", "/env")
        .with_env("ANDROID_HOME", "/sdk")
        .with_toolchain("/sdk/ndk-bundle", &MAC);
    let opened = Resolver::start(&mac_targets(), None, HostOs::MacOs);
    assert_eq!(world.drive(opened), Ok("/sdk/ndk-bundle".to_string()));
    assert_eq!(world.asked[0], "env NDK_TOOL_ROOT");
    assert_eq!(world.asked[1], format!("exists /env/{}", MAC[0]));
    assert_eq!(world.asked[2], "env ANDROID_HOME");
    assert!(!world.asked_any("env HOME"));
}

#[test]
fn home_default_differs_by_host() {
    let mut world = Fake::default()
        .with_env("HOME", "/Users/u")
        .with_toolchain("/Users/u/Library/Android/sdk/ndk-bundle", &MAC);
    let opened = Resolver::start(&mac_targets(), None, HostOs::MacOs);
    assert_eq!(world.drive(opened), Ok("/Users/u/Library/Android/sdk/ndk-bundle".to_string()));

    let mut world = Fake::default().with_env("HOME", "/home/u");
    let opened = LinuxConfig::new(None).determine_ndk_root();
    assert_eq!(world.drive(opened), Err(PlatformError::ToolsetDoesNotExist));
    assert!(world.asked_any(
        "exists /home/u/tools/Android/sdk/ndk-bundle/toolchains/llvm/prebuilt/linux-x86_64/bin/"
    ));
}

#[test]
fn windows_has_no_bundle_and_no_home_default() {
    let mut world = Fake::default()
        .with_env("ANDROID_HOME", "C:/sdk")
        .with_toolchain("C:/sdk/ndk-bundle", &WIN)
        .with_env("HOME", "C:/Users/u");
    let opened = WinConfig::new(None).determine_ndk_root();
    assert_eq!(world.drive(opened), Err(PlatformError::ToolsetDoesNotExist));
    assert_eq!(
        world.asked,
        vec![
            "env NDK_TOOL_ROOT",
            "env ANDROID_HOME",
            "list C:/sdk/ndk",
            "ask",
            "exists ",
            "download https://dl.google.com/android/repository/android-ndk-r21b-windows-x86_64.zip ndk.zip .",
        ]
    );
}

#[test]
fn latest_version_directory_is_proposed() {
    let mut world = Fake::default()
        .with_env("ANDROID_HOME", "/sdk")
        .with_toolchain("/sdk/ndk/21.1", &MAC)
        .with_toolchain("/sdk/ndk/20.0", &MAC);
    world.listings.push((
        "/sdk/ndk".to_string(),
        vec![
            (Some("/sdk/ndk/20.0".to_string()), 10),
            (Some("/sdk/ndk/21.1".to_string()), 30),
            (Some("/sdk/ndk/19.2".to_string()), 20),
        ],
    ));
    let opened = Resolver::start(&mac_targets(), None, HostOs::MacOs);
    assert_eq!(world.drive(opened), Ok("/sdk/ndk/21.1".to_string()));
    assert!(!world.asked_any("exists /sdk/ndk/20.0"));
    assert!(!world.asked_any("ask"));
}

#[test]
fn typed_path_is_used_where_it_exists() {
    let mut world = Fake::default().with_toolchain("/typed", &MAC);
    world.typed = "/typed\r\n".to_string();
    let opened = Resolver::start(&mac_targets(), None, HostOs::MacOs);
    assert_eq!(world.drive(opened), Ok("/typed".to_string()));
    assert!(world.asked_any("exists /typed"));
    assert!(!world.asked_any("download"));
}

#[test]
fn download_follows_an_unusable_typed_path() {
    let mut world = Fake::default().with_toolchain(".", &MAC);
    world.typed = "/nowhere\n".to_string();
    world.downloaded = true;
    let opened = Resolver::start(&mac_targets(), None, HostOs::MacOs);
    assert_eq!(world.drive(opened), Ok(".".to_string()));
    assert_eq!(
        world.asked.iter().filter(|a| a.starts_with("download")).collect::<Vec<_>>(),
        vec!["download https://dl.google.com/android/repository/android-ndk-r21b-darwin-x86_64.zip ndk.zip ."]
    );
    let at = |what: &str| world.asked.iter().position(|a| a.starts_with(what)).unwrap();
    assert!(at("ask") < at("download"));
    assert!(at("exists /nowhere") < at("download"));
}

#[test]
fn failed_download_fails_the_search() {
    let mut world = Fake::default();
    let opened = Resolver::start(&mac_targets(), None, HostOs::MacOs);
    assert_eq!(world.drive(opened), Err(PlatformError::ToolsetDoesNotExist));
    assert_eq!(
        world.asked,
        vec![
            "env NDK_TOOL_ROOT",
            "env ANDROID_HOME",
            "env HOME",
            "env ANDROID_HOME",
            "ask",
            "exists ",
            "download https://dl.google.com/android/repository/android-ndk-r21b-darwin-x86_64.zip ndk.zip .",
        ]
    );
}

#[test]
fn downloaded_root_is_validated_too() {
    let mut world = Fake::default().with_toolchain(".", &MAC[..3]);
    world.downloaded = true;
    let opened = Resolver::start(&mac_targets(), None, HostOs::MacOs);
    assert_eq!(world.drive(opened), Err(PlatformError::ToolsetDoesNotExist));
}

#[test]
fn a_reply_of_the_wrong_kind_fails_the_strategy() {
    let (resolver, request) = Resolver::start(&mac_targets(), None, HostOs::MacOs);
    assert!(matches!(request, Request::ReadEnv(ref name) if name == "NDK_TOOL_ROOT"));
    let (_, request) = resolver.step(Reply::Exists(true));
    assert!(matches!(request, Request::ReadEnv(ref name) if name == "ANDROID_HOME"));
}

#[test]
fn a_finished_search_stays_finished() {
    let targets: Vec<TargetPlatform> = Vec::new();
    let (resolver, request) = Resolver::start(&targets, Some("/any".to_string()), HostOs::Linux);
    assert!(matches!(request, Request::Finish(Ok(ref root)) if root == "/any"));
    let (_, request) = resolver.step(Reply::Exists(true));
    assert!(matches!(request, Request::Finish(Err(PlatformError::ToolsetDoesNotExist))));
}

const LINUX: [&str; 6] = [
    "toolchains/llvm/prebuilt/linux-x86_64/bin/aarch64-linux-android-ar",
    "toolchains/llvm/prebuilt/linux-x86_64/bin/aarch64-linux-android21-clang",
    "toolchains/llvm/prebuilt/linux-x86_64/bin/arm-linux-androideabi-ar",
    "toolchains/llvm/prebuilt/linux-x86_64/bin/armv7a-linux-androideabi16-clang",
    "toolchains/llvm/prebuilt/linux-x86_64/bin/i686-linux-android-ar",
    "toolchains/llvm/prebuilt/linux-x86_64/bin/i686-linux-android16-clang",
];

#[test]
fn linux_host_returns_a_valid_hint_and_asks_nothing_else() {
    let mut world = Fake::default()
        .with_toolchain("/hint", &LINUX)
        .with_env("NDK_TOOL_ROOT", "/env")
        .with_toolchain("/env", &LINUX);
    world.typed = "/typed\n".to_string();
    world.downloaded = true;
    let host = LinuxConfig::new(Some(options_with_ndk("/hint")));
    assert_eq!(world.drive(host.determine_ndk_root()), Ok("/hint".to_string()));
    let expected: Vec<String> = LINUX.iter().map(|p| format!("exists /hint/{}", p)).collect();
    assert_eq!(world.asked, expected);
}

#[test]
fn linux_host_rejects_a_hint_that_lacks_one_linker() {
    let mut world = Fake::default().with_toolchain("/hint", &LINUX[..5]);
    let host = LinuxConfig::new(Some(options_with_ndk("/hint")));
    assert_eq!(world.drive(host.determine_ndk_root()), Err(PlatformError::ToolsetDoesNotExist));
}

#[test]
fn linux_host_goes_on_after_an_invalid_hint() {
    let mut world = Fake::default()
        .with_toolchain("/hint", &LINUX[..2])
        .with_env("NDK_TOOL_ROOT", "/env")
        .with_toolchain("/env", &LINUX);
    let host = LinuxConfig::new(Some(options_with_ndk("/hint")));
    assert_eq!(world.drive(host.determine_ndk_root()), Ok("/env".to_string()));
}

#[test]
fn linux_host_tries_the_bundle_after_a_failed_environment_root() {
    let mut world = Fake::default()
        .with_env("NDK_TOOL_ROOT", "/env")
        .with_toolchain("/env", &LINUX[..4])
        .with_env("ANDROID_HOME", "/sdk")
        .with_toolchain("/sdk/ndk-bundle", &LINUX);
    let host = LinuxConfig::new(None);
    assert_eq!(world.drive(host.determine_ndk_root()), Ok("/sdk/ndk-bundle".to_string()));
}

#[test]
fn files_in_the_version_directory_are_no_candidates() {
    let mut world = Fake::default().with_env("ANDROID_HOME", "/sdk").with_toolchain("/sdk/ndk/21.1", &MAC);
    world.listings.push(("/sdk/ndk".to_string(), vec![(Some("/sdk/ndk/21.1".to_string()), 10)]));
    let (mut resolver, mut request) = Resolver::start(&mac_targets(), None, HostOs::MacOs);
    loop {
        let reply = match &request {
            Request::Finish(result) => {
                assert_eq!(result, &Ok("/sdk/ndk/21.1".to_string()));
                break;
            }
            Request::ListDir(_) => Reply::Listing(Some(vec![
                FolderEntry { path: Some("/sdk/ndk/21.1".to_string()), is_dir: true, modified: 10 },
                FolderEntry { path: Some("/sdk/ndk/log.txt".to_string()), is_dir: false, modified: 99 },
            ])),
            other => world.answer(other),
        };
        let next = resolver.step(reply);
        resolver = next.0;
        request = next.1;
    }
}
