use andrust::downloader::{BuildPlatformConfig, HostOs};
use andrust::platform::TargetPlatform;
use andrust::resolver::{Reply, Request, Resolver};

#[test]
fn downloader_test() {
    let config = BuildPlatformConfig::new(HostOs::Windows);
    assert_eq!(
        config.download_url(),
        Some("https://dl.google.com/android/repository/android-ndk-r21b-windows-x86_64.zip")
    );
    let targets: Vec<TargetPlatform> = Vec::new();
    let (mut resolver, mut request) = Resolver::start(&targets, None, HostOs::Windows);
    loop {
        let reply = match &request {
            Request::ReadEnv(_) => Reply::Value(None),
            Request::CheckExists(_) => Reply::Exists(false),
            Request::ListDir(_) => Reply::Listing(None),
            Request::AskUser => Reply::Line(String::new()),
            Request::Download { url, file_name, unpack_into } => {
                assert_eq!(unpack_into, ".");
                assert_eq!(
                    url,
                    "https://dl.google.com/android/repository/android-ndk-r21b-windows-x86_64.zip"
                );
                assert_eq!(file_name, "ndk.zip");
                break;
            }
            Request::Finish(_) => panic!("the search ended before the download"),
        };
        let next = resolver.step(reply);
        resolver = next.0;
        request = next.1;
    }
}
