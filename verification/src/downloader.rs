//! Where the toolchain archive of each host is fetched from.

use vstd::prelude::*;

verus! {

/// The operating system that the toolchain runs on.
#[derive(Debug, Clone, Copy, PartialEq, Eq, Structural)]
pub enum HostOs {
    Windows,
    MacOs,
    Linux,
}

/// The address of the toolchain archive for `host`.
pub open spec fn archive_url(host: HostOs) -> Seq<char> {
    match host {
        HostOs::Windows =>
            "https://dl.google.com/android/repository/android-ndk-r21b-windows-x86_64.zip"@,
        HostOs::MacOs =>
            "https://dl.google.com/android/repository/android-ndk-r21b-darwin-x86_64.zip"@,
        HostOs::Linux =>
            "https://dl.google.com/android/repository/android-ndk-r21b-linux-x86_64.zip"@,
    }
}

/// The name under which the fetched archive is stored.
pub open spec fn archive_file_name() -> Seq<char> {
    "ndk.zip"@
}

/// The address of the toolchain archive for `host`.
pub fn url_of(host: HostOs) -> (out: &'static str)
    ensures
        out@ == archive_url(host),
{
    match host {
        HostOs::Windows =>
            "https://dl.google.com/android/repository/android-ndk-r21b-windows-x86_64.zip",
        HostOs::MacOs =>
            "https://dl.google.com/android/repository/android-ndk-r21b-darwin-x86_64.zip",
        HostOs::Linux =>
            "https://dl.google.com/android/repository/android-ndk-r21b-linux-x86_64.zip",
    }
}

/// The download settings of one host.
pub struct BuildPlatformConfig {
    download_url: Option<Vec<String>>,
}

impl BuildPlatformConfig {
    #[verifier::type_invariant]
    spec fn well_formed(self) -> bool {
        self.download_url matches Some(urls) ==> urls.len() > 0
    }

    /// The address that the settings name first, if they name any.
    pub closed spec fn first_url(self) -> Option<Seq<char>> {
        match self.download_url {
            Some(urls) => Some(urls[0]@),
            None => None,
        }
    }

    /// The settings of `host`: the one archive published for it.
    pub fn new(host: HostOs) -> (out: Self)
        ensures
            out.first_url() == Some(archive_url(host)),
    {
        let url = String::from_str(url_of(host));
        let mut urls: Vec<String> = Vec::new();
        urls.push(url);
        BuildPlatformConfig { download_url: Some(urls) }
    }

    /// The address to fetch the archive from.
    pub fn download_url(&self) -> (out: Option<&str>)
        ensures
            out is Some <==> self.first_url() is Some,
            out matches Some(url) ==> self.first_url() == Some(url@),
    {
        proof {
            use_type_invariant(self);
        }
        match &self.download_url {
            Some(urls) => Some(urls[0].as_str()),
            None => None,
        }
    }
}

} // verus!
