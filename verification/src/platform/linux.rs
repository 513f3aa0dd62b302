//! The Linux host.

use vstd::prelude::*;
use crate::command::CommandOptions;
use crate::downloader::HostOs;
use crate::platform::{
    catalog_of, complete_catalog, hint_of, open_search, setup_config, toolsets_of, ConfigFile,
    Platform, PlatformToolset, TargetPlatform, ToolsetModel,
};
use crate::resolver::{Request, Resolver};

verus! {

/// The toolsets of the three targets on this host, relative to a toolchain
/// root.
pub open spec fn toolsets() -> Seq<ToolsetModel> {
    seq![
        ToolsetModel {
            target: "aarch64-linux-android"@,
            ar: "toolchains/llvm/prebuilt/linux-x86_64/bin/aarch64-linux-android-ar"@,
            linker: "toolchains/llvm/prebuilt/linux-x86_64/bin/aarch64-linux-android21-clang"@,
        },
        ToolsetModel {
            target: "armv7-linux-androideabi"@,
            ar: "toolchains/llvm/prebuilt/linux-x86_64/bin/arm-linux-androideabi-ar"@,
            linker: "toolchains/llvm/prebuilt/linux-x86_64/bin/armv7a-linux-androideabi16-clang"@,
        },
        ToolsetModel {
            target: "i686-linux-android"@,
            ar: "toolchains/llvm/prebuilt/linux-x86_64/bin/i686-linux-android-ar"@,
            linker: "toolchains/llvm/prebuilt/linux-x86_64/bin/i686-linux-android16-clang"@,
        },
    ]
}

/// The Linux host, with the options of the command line.
pub struct LinuxConfig {
    targets: Vec<TargetPlatform>,
    cmd_opts: Option<CommandOptions>,
}

impl LinuxConfig {
    #[verifier::type_invariant]
    spec fn well_formed(self) -> bool {
        complete_catalog(self.targets@) && toolsets_of(self.targets@) == toolsets()
    }

    /// The options that the host was made with.
    pub closed spec fn options(self) -> Option<CommandOptions> {
        self.cmd_opts
    }

    /// The host with its catalog and the given options.
    pub fn new(cmd_opts: Option<CommandOptions>) -> (out: Self)
        ensures
            out.options() == cmd_opts,
            out.hint() == hint_of(cmd_opts),
            complete_catalog(out.catalog()),
            toolsets_of(out.catalog()) == toolsets(),
    {
        let toolsets = LinuxConfig::get_toolsets();
        LinuxConfig { targets: toolsets, cmd_opts }
    }

    /// The catalog of the host: one toolset for each target, with paths
    /// relative to a toolchain root.
    pub fn get_toolsets() -> (out: Vec<TargetPlatform>)
        ensures
            complete_catalog(out@),
            toolsets_of(out@) == toolsets(),
    {
        let aarch64_ar = "toolchains/llvm/prebuilt/linux-x86_64/bin/aarch64-linux-android-ar";
        let aarch64_linker =
            "toolchains/llvm/prebuilt/linux-x86_64/bin/aarch64-linux-android21-clang";
        let aarch64 = PlatformToolset::new(
            "aarch64-linux-android",
            String::from_str(aarch64_ar),
            String::from_str(aarch64_linker),
        );

        let armv7_ar = "toolchains/llvm/prebuilt/linux-x86_64/bin/arm-linux-androideabi-ar";
        let armv7_linker =
            "toolchains/llvm/prebuilt/linux-x86_64/bin/armv7a-linux-androideabi16-clang";
        let armv7 = PlatformToolset::new(
            "armv7-linux-androideabi",
            String::from_str(armv7_ar),
            String::from_str(armv7_linker),
        );

        let i686_ar = "toolchains/llvm/prebuilt/linux-x86_64/bin/i686-linux-android-ar";
        let i686_linker =
            "toolchains/llvm/prebuilt/linux-x86_64/bin/i686-linux-android16-clang";
        let i686 = PlatformToolset::new(
            "i686-linux-android",
            String::from_str(i686_ar),
            String::from_str(i686_linker),
        );

        let out = catalog_of(aarch64, armv7, i686);
        proof {
            reveal_strlit("toolchains/llvm/prebuilt/linux-x86_64/bin/aarch64-linux-android-ar");
            reveal_strlit("toolchains/llvm/prebuilt/linux-x86_64/bin/aarch64-linux-android21-clang");
            reveal_strlit("toolchains/llvm/prebuilt/linux-x86_64/bin/arm-linux-androideabi-ar");
            reveal_strlit("toolchains/llvm/prebuilt/linux-x86_64/bin/armv7a-linux-androideabi16-clang");
            reveal_strlit("toolchains/llvm/prebuilt/linux-x86_64/bin/i686-linux-android-ar");
            reveal_strlit("toolchains/llvm/prebuilt/linux-x86_64/bin/i686-linux-android16-clang");
            assert(toolsets_of(out@) =~= toolsets());
        }
        out
    }
}

impl Platform for LinuxConfig {
    open spec fn host(&self) -> HostOs {
        HostOs::Linux
    }

    closed spec fn catalog(&self) -> Seq<TargetPlatform> {
        self.targets@
    }

    closed spec fn hint(&self) -> Option<Seq<char>> {
        hint_of(self.cmd_opts)
    }

    fn targets(&self) -> (out: &Vec<TargetPlatform>) {
        &self.targets
    }

    fn determine_ndk_root(&self) -> (out: (Resolver, Request)) {
        open_search(&self.targets, &self.cmd_opts, HostOs::Linux)
    }

    fn setup_config(self, ndk_root: Option<&str>, proj_root: Option<&str>) -> (out: ConfigFile) {
        setup_config(self.targets, ndk_root, proj_root)
    }
}

} // verus!
