//! Toolsets, targets and the configuration text rendered from them.

use vstd::prelude::*;
use crate::command::CommandOptions;
use crate::downloader::HostOs;
use crate::resolver::{search_order, turn_to, Request, Resolver, SearchModel};
use crate::text::{join_path, joined, opt_text};

pub mod linux;
pub mod mac;
pub mod win;

pub use linux::LinuxConfig;
pub use mac::MacConfig;
pub use win::WinConfig;

verus! {

/// Why no toolchain root could be used.
#[derive(Debug, Clone, Copy, PartialEq, Eq, Structural)]
pub enum PlatformError {
    /// No candidate root held every required archiver and linker.
    ToolsetDoesNotExist,
    /// A path has no representation as text.
    WrongPathName,
}

impl PlatformError {
    /// The name of the error, as it is shown to the user.
    pub open spec fn text(self) -> Seq<char> {
        match self {
            PlatformError::ToolsetDoesNotExist => "ToolsetDoesNotExist"@,
            PlatformError::WrongPathName => "WrongPathName"@,
        }
    }

    /// Renders the error for display.
    pub fn to_string(&self) -> (out: String)
        ensures
            out@ == self.text(),
    {
        match self {
            PlatformError::ToolsetDoesNotExist => String::from_str("ToolsetDoesNotExist"),
            PlatformError::WrongPathName => String::from_str("WrongPathName"),
        }
    }
}

/// What a toolset is, as mathematics: a target triple with the paths of its
/// archiver and of its linker.
pub struct ToolsetModel {
    pub target: Seq<char>,
    pub ar: Seq<char>,
    pub linker: Seq<char>,
}

impl ToolsetModel {
    /// The same toolset with both paths placed under `root`.
    pub open spec fn under(self, root: Seq<char>) -> ToolsetModel {
        ToolsetModel {
            target: self.target,
            ar: joined(root, self.ar),
            linker: joined(root, self.linker),
        }
    }

    /// The configuration stanza of this toolset.
    pub open spec fn stanza(self) -> Seq<char> {
        "\n[target."@ + self.target + "]\nar = \""@ + self.ar + "\"\nlinker = \""@ + self.linker
            + "\"\n"@
    }
}

/// The archiver and the linker of one target triple. Before a root is bound
/// the two paths are relative to the toolchain root; afterwards they are the
/// paths of the binaries themselves.
#[derive(Debug, PartialEq, Eq, Hash)]
pub struct PlatformToolset {
    target: &'static str,
    ar: String,
    linker: String,
}

impl View for PlatformToolset {
    type V = ToolsetModel;

    closed spec fn view(&self) -> ToolsetModel {
        ToolsetModel { target: self.target@, ar: self.ar@, linker: self.linker@ }
    }
}

impl PlatformToolset {
    /// A toolset for `target` with the given archiver and linker.
    pub fn new(target: &'static str, ar: String, linker: String) -> (out: Self)
        ensures
            out@ == (ToolsetModel { target: target@, ar: ar@, linker: linker@ }),
    {
        PlatformToolset { target, ar, linker }
    }

    /// Binds the toolset to a toolchain root, given as the root's text where
    /// it has one.
    pub fn clone_with_ndk_root(self, ndk_root: Option<&str>) -> (out: Result<Self, PlatformError>)
        ensures
            ndk_root is None ==> out == Err::<Self, PlatformError>(PlatformError::WrongPathName),
            ndk_root matches Some(root) ==> out is Ok && out->Ok_0@ == self@.under(root@),
    {
        match ndk_root {
            None => Err(PlatformError::WrongPathName),
            Some(root) => Ok(
                PlatformToolset {
                    target: self.target,
                    ar: join_path(root, self.ar.as_str()),
                    linker: join_path(root, self.linker.as_str()),
                },
            ),
        }
    }

    /// Renders the stanza that configures this target.
    pub fn format_target(&self) -> (out: String)
        ensures
            out@ == self@.stanza(),
    {
        let mut out = String::from_str("\n[target.");
        out.append(self.target);
        out.append("]\nar = \"");
        out.append(self.ar.as_str());
        out.append("\"\nlinker = \"");
        out.append(self.linker.as_str());
        out.append("\"\n");
        out
    }

    /// The target triple.
    pub fn target(&self) -> (out: &str)
        ensures
            out@ == self@.target,
    {
        self.target
    }

    /// The path of the archiver.
    pub fn ar(&self) -> (out: &str)
        ensures
            out@ == self@.ar,
    {
        self.ar.as_str()
    }

    /// The path of the linker.
    pub fn linker(&self) -> (out: &str)
        ensures
            out@ == self@.linker,
    {
        self.linker.as_str()
    }
}

/// One supported Android target, with its toolset.
#[derive(Debug, PartialEq, Eq, Hash)]
pub enum TargetPlatform {
    Aarch64(PlatformToolset),
    Armv7(PlatformToolset),
    I686(PlatformToolset),
}

impl TargetPlatform {
    /// The toolset that the target carries.
    pub open spec fn toolset(self) -> PlatformToolset {
        match self {
            TargetPlatform::Aarch64(toolset) => toolset,
            TargetPlatform::Armv7(toolset) => toolset,
            TargetPlatform::I686(toolset) => toolset,
        }
    }

    /// Whether two targets are the same triple, whatever their toolsets.
    pub open spec fn same_triple(self, other: TargetPlatform) -> bool {
        ||| self is Aarch64 && other is Aarch64
        ||| self is Armv7 && other is Armv7
        ||| self is I686 && other is I686
    }

    /// Binds the target's toolset to a toolchain root, given as the root's
    /// text where it has one.
    pub fn add_ndk_root(self, root_path: Option<&str>) -> (out: Result<Self, PlatformError>)
        ensures
            root_path is None ==> out == Err::<Self, PlatformError>(PlatformError::WrongPathName),
            root_path matches Some(root) ==> {
                &&& out is Ok
                &&& out->Ok_0.same_triple(self)
                &&& out->Ok_0.toolset()@ == self.toolset()@.under(root@)
            },
    {
        match self {
            TargetPlatform::Aarch64(aarch64) => {
                match aarch64.clone_with_ndk_root(root_path) {
                    Ok(bound) => Ok(TargetPlatform::Aarch64(bound)),
                    Err(error) => Err(error),
                }
            },
            TargetPlatform::Armv7(armv7) => {
                match armv7.clone_with_ndk_root(root_path) {
                    Ok(bound) => Ok(TargetPlatform::Armv7(bound)),
                    Err(error) => Err(error),
                }
            },
            TargetPlatform::I686(i686) => {
                match i686.clone_with_ndk_root(root_path) {
                    Ok(bound) => Ok(TargetPlatform::I686(bound)),
                    Err(error) => Err(error),
                }
            },
        }
    }

    /// The toolset of the target.
    pub fn to_platform_toolset(&self) -> (out: &PlatformToolset)
        ensures
            *out == self.toolset(),
    {
        match self {
            TargetPlatform::Aarch64(aarch64) => aarch64,
            TargetPlatform::Armv7(armv7) => armv7,
            TargetPlatform::I686(i686) => i686,
        }
    }
}

/// A set of targets holds each triple at most once.
pub open spec fn distinct_triples(targets: Seq<TargetPlatform>) -> bool {
    forall|i: int, j: int|
        0 <= i < j < targets.len() ==> !(#[trigger] targets[i]).same_triple(#[trigger] targets[j])
}

/// The paths, relative to a toolchain root, that a root must hold to serve
/// `targets`: for each target in turn its archiver, then its linker.
pub open spec fn relative_paths(targets: Seq<TargetPlatform>) -> Seq<Seq<char>> {
    Seq::new(
        2 * targets.len(),
        |k: int|
            if k % 2 == 0 {
                targets[k / 2].toolset()@.ar
            } else {
                targets[k / 2].toolset()@.linker
            },
    )
}

/// The characters of each string of a vector.
pub open spec fn texts(strings: Seq<String>) -> Seq<Seq<char>> {
    Seq::new(strings.len(), |i: int| strings[i]@)
}

/// Lists the paths that a toolchain root must hold, relative to that root.
pub fn required_paths(targets: &Vec<TargetPlatform>) -> (out: Vec<String>)
    ensures
        texts(out@) == relative_paths(targets@),
{
    let mut out: Vec<String> = Vec::new();
    let mut i: usize = 0;
    while i < targets.len()
        invariant
            i <= targets.len(),
            out.len() == 2 * i,
            forall|k: int|
                0 <= k < 2 * i ==> (#[trigger] out@[k])@ == relative_paths(targets@)[k],
        decreases targets.len() - i,
    {
        let toolset = targets[i].to_platform_toolset();
        out.push(String::from_str(toolset.ar()));
        out.push(String::from_str(toolset.linker()));
        i = i + 1;
    }
    assert(texts(out@) =~= relative_paths(targets@));
    out
}

/// The toolset of each target.
pub open spec fn toolsets_of(targets: Seq<TargetPlatform>) -> Seq<ToolsetModel> {
    Seq::new(targets.len(), |i: int| targets[i].toolset()@)
}

/// Each toolset placed under `root`.
pub open spec fn bound_under(toolsets: Seq<ToolsetModel>, root: Seq<char>) -> Seq<ToolsetModel> {
    Seq::new(toolsets.len(), |i: int| toolsets[i].under(root))
}

/// The stanzas of the toolsets, one after the other.
pub open spec fn stanzas(toolsets: Seq<ToolsetModel>) -> Seq<char>
    decreases toolsets.len(),
{
    if toolsets.len() == 0 {
        Seq::<char>::empty()
    } else {
        stanzas(toolsets.drop_last()) + toolsets.last().stanza()
    }
}

/// The directory that holds the configuration file, below the project root.
pub open spec fn config_dir() -> Seq<char> {
    ".cargo"@
}

/// The configuration file, below the project root.
pub open spec fn config_path() -> Seq<char> {
    ".cargo/config"@
}

/// A configuration file that is ready to be written: the directory that must
/// exist, the path of the file, and the whole of its new content.
#[derive(Debug)]
pub struct ConfigFile {
    pub dir: String,
    pub path: String,
    pub content: String,
}

/// Renders the configuration of a set of bound targets.
pub struct ConfigWriter<'a> {
    toolsets: &'a Vec<TargetPlatform>,
}

impl<'a> ConfigWriter<'a> {
    /// The targets that the writer renders.
    pub closed spec fn targets(self) -> Seq<TargetPlatform> {
        self.toolsets@
    }

    /// A writer for the given targets.
    pub fn new(toolsets: &'a Vec<TargetPlatform>) -> (out: Self)
        ensures
            out.targets() == toolsets@,
    {
        ConfigWriter { toolsets }
    }

    /// The text of the configuration file: one stanza for each target, in the
    /// order in which the targets are held.
    pub fn content(&self) -> (out: String)
        ensures
            out@ == stanzas(toolsets_of(self.targets())),
    {
        let mut config_content = String::new();
        let mut i: usize = 0;
        while i < self.toolsets.len()
            invariant
                i <= self.toolsets.len(),
                config_content@ == stanzas(toolsets_of(self.toolsets@).take(i as int)),
            decreases self.toolsets.len() - i,
        {
            let toolset = self.toolsets[i].to_platform_toolset();
            let stanza = toolset.format_target();
            config_content.append(stanza.as_str());
            proof {
                let all = toolsets_of(self.toolsets@);
                assert(all.take(i + 1).drop_last() =~= all.take(i as int));
                assert(all.take(i + 1).last() == self.toolsets@[i as int].toolset()@);
            }
            i = i + 1;
        }
        assert(toolsets_of(self.toolsets@).take(i as int) =~= toolsets_of(self.toolsets@));
        config_content
    }

    /// Says where the configuration goes and what it holds. With a project
    /// root the file lies below that root, without one below the current
    /// directory. The content replaces whatever the file held.
    pub fn render(self, proj_root: Option<&str>) -> (out: ConfigFile)
        ensures
            out.content@ == stanzas(toolsets_of(self.targets())),
            proj_root is None ==> out.dir@ == config_dir() && out.path@ == config_path(),
            proj_root matches Some(root) ==> {
                &&& out.dir@ == joined(root@, config_dir())
                &&& out.path@ == joined(root@, config_path())
            },
    {
        let content = self.content();
        match proj_root {
            None => ConfigFile {
                dir: String::from_str(".cargo"),
                path: String::from_str(".cargo/config"),
                content,
            },
            Some(root) => ConfigFile {
                dir: join_path(root, ".cargo"),
                path: join_path(root, ".cargo/config"),
                content,
            },
        }
    }
}

/// One entry of a directory listing: the text of its path, where the path
/// has one, whether it is a directory, and the time of its last
/// modification in nanoseconds since the Unix epoch, negative for a time
/// before it.
#[derive(Debug)]
pub struct FolderEntry {
    pub path: Option<String>,
    pub is_dir: bool,
    pub modified: i128,
}

/// Entry `i` is the most recently modified directory of `entries`: a
/// directory, later than every directory before it and no earlier than any
/// after it, so that of several directories with the latest time the first
/// one listed wins. What is no directory is passed over.
pub open spec fn is_latest(entries: Seq<FolderEntry>, i: int) -> bool {
    &&& 0 <= i < entries.len()
    &&& entries[i].is_dir
    &&& forall|j: int|
        0 <= j < i && (#[trigger] entries[j]).is_dir ==> entries[j].modified < entries[i].modified
    &&& forall|j: int|
        i < j < entries.len() && (#[trigger] entries[j]).is_dir ==> entries[j].modified
            <= entries[i].modified
}

/// The path of the most recently modified directory: none where the
/// listing holds no directory, and none where the path of the latest
/// directory has no text.
pub open spec fn latest_folder(entries: Seq<FolderEntry>) -> Option<Seq<char>> {
    if exists|i: int| is_latest(entries, i) {
        let i = choose|i: int| is_latest(entries, i);
        match entries[i].path {
            Some(path) => Some(path@),
            None => None,
        }
    } else {
        None
    }
}

/// At most one entry is the latest.
pub proof fn lemma_latest_is_unique(entries: Seq<FolderEntry>, i: int, j: int)
    requires
        is_latest(entries, i),
        is_latest(entries, j),
    ensures
        i == j,
{
    if i < j {
        assert(entries[i].modified < entries[j].modified);
        assert(entries[j].modified <= entries[i].modified);
    } else if j < i {
        assert(entries[j].modified < entries[i].modified);
        assert(entries[i].modified <= entries[j].modified);
    }
}

/// The latest folder is a directory of the listing.
pub proof fn lemma_latest_is_a_directory(entries: Seq<FolderEntry>, i: int)
    requires
        is_latest(entries, i),
    ensures
        entries[i].is_dir,
        latest_folder(entries) == opt_text(entries[i].path),
{
    let k = choose|k: int| is_latest(entries, k);
    lemma_latest_is_unique(entries, i, k);
}

/// A listing has a latest folder as soon as it holds a directory, whenever
/// that directory was modified.
pub proof fn lemma_a_directory_gives_a_latest(entries: Seq<FolderEntry>, d: int)
    requires
        0 <= d < entries.len(),
        entries[d].is_dir,
    ensures
        exists|i: int| is_latest(entries, i),
    decreases entries.len(),
{
    let shorter = entries.drop_last();
    let last = entries.len() - 1;
    if d < last {
        lemma_a_directory_gives_a_latest(shorter, d);
        let k = choose|k: int| is_latest(shorter, k);
        assert(forall|j: int| 0 <= j < last ==> shorter[j] == entries[j]);
        if entries[last].is_dir && entries[k].modified < entries[last].modified {
            assert forall|j: int| 0 <= j < last && (#[trigger] entries[j]).is_dir implies entries[j].modified
                < entries[last].modified by {
                assert(shorter[j].is_dir);
                if j < k {
                    assert(shorter[j].modified < shorter[k].modified);
                } else if j > k {
                    assert(shorter[j].modified <= shorter[k].modified);
                }
            }
            assert(is_latest(entries, last));
        } else {
            assert(is_latest(entries, k));
        }
    } else {
        if exists|e: int| 0 <= e < last && (#[trigger] entries[e]).is_dir {
            let e = choose|e: int| 0 <= e < last && (#[trigger] entries[e]).is_dir;
            lemma_a_directory_gives_a_latest(shorter, e);
            let k = choose|k: int| is_latest(shorter, k);
            assert(forall|j: int| 0 <= j < last ==> shorter[j] == entries[j]);
            if entries[k].modified < entries[last].modified {
                assert forall|j: int| 0 <= j < last && (#[trigger] entries[j]).is_dir implies entries[j].modified
                    < entries[last].modified by {
                    assert(shorter[j].is_dir);
                    if j < k {
                        assert(shorter[j].modified < shorter[k].modified);
                    } else if j > k {
                        assert(shorter[j].modified <= shorter[k].modified);
                    }
                }
                assert(is_latest(entries, last));
            } else {
                assert(is_latest(entries, k));
            }
        } else {
            assert(is_latest(entries, last));
        }
    }
}

/// Picks the most recently modified directory of a directory listing and
/// gives the text of its path.
pub fn get_latest_folder_name(entries: &Vec<FolderEntry>) -> (out: Option<String>)
    ensures
        out is Some <==> latest_folder(entries@) is Some,
        out matches Some(name) ==> latest_folder(entries@) == Some(name@),
{
    let mut best: Option<usize> = None;
    let mut i: usize = 0;
    while i < entries.len()
        invariant
            i <= entries.len(),
            best matches Some(b) ==> b < i && is_latest(entries@.take(i as int), b as int),
            best is None ==> forall|j: int| 0 <= j < i ==> !(#[trigger] entries@[j]).is_dir,
        decreases entries.len() - i,
    {
        let newer = entries[i].is_dir && match best {
            Some(b) => entries[b].modified < entries[i].modified,
            None => true,
        };
        proof {
            let before = entries@.take(i as int);
            let after = entries@.take(i + 1);
            assert(forall|j: int| 0 <= j < i ==> before[j] == after[j]);
            if newer {
                if let Some(b) = best {
                    assert forall|j: int| 0 <= j < i && (#[trigger] after[j]).is_dir implies after[j].modified
                        < after[i as int].modified by {
                        assert(before[j].is_dir);
                        if j < b {
                            assert(before[j].modified < before[b as int].modified);
                        } else if j > b {
                            assert(before[j].modified <= before[b as int].modified);
                        }
                    }
                }
                assert(is_latest(after, i as int));
            } else if let Some(b) = best {
                assert(is_latest(after, b as int));
            }
        }
        if newer {
            best = Some(i);
        }
        i = i + 1;
    }
    assert(entries@.take(i as int) =~= entries@);
    match best {
        None => {
            assert(forall|k: int| !is_latest(entries@, k));
            None
        },
        Some(b) => {
            proof {
                let k = choose|k: int| is_latest(entries@, k);
                lemma_latest_is_unique(entries@, k, b as int);
            }
            match &entries[b].path {
                Some(path) => Some(path.clone()),
                None => None,
            }
        },
    }
}

/// Binds every target to a toolchain root, given as the root's text where
/// it has one. A target that cannot be bound is left out, so without a root
/// nothing is left.
pub fn bind_targets(targets: Vec<TargetPlatform>, ndk_root: Option<&str>) -> (out: Vec<
    TargetPlatform,
>)
    ensures
        ndk_root is None ==> out@.len() == 0,
        ndk_root matches Some(root) ==> {
            &&& out@.len() == targets@.len()
            &&& forall|i: int|
                0 <= i < out@.len() ==> (#[trigger] out@[i]).same_triple(targets@[i])
            &&& toolsets_of(out@) == bound_under(toolsets_of(targets@), root@)
        },
{
    let mut out: Vec<TargetPlatform> = Vec::new();
    let ghost all = targets@;
    for target in it: targets.into_iter()
        invariant
            it.seq() == all,
            ndk_root is None ==> out@.len() == 0,
            ndk_root matches Some(root) ==> {
                &&& out@.len() == it.index()
                &&& forall|i: int|
                    0 <= i < out@.len() ==> (#[trigger] out@[i]).same_triple(all[i])
                &&& forall|i: int|
                    0 <= i < out@.len() ==> (#[trigger] out@[i]).toolset()@
                        == all[i].toolset()@.under(root@)
            },
    {
        match target.add_ndk_root(ndk_root) {
            Ok(bound) => {
                out.push(bound);
            },
            Err(_) => {},
        }
    }
    proof {
        if let Some(root) = ndk_root {
            assert(toolsets_of(out@) =~= bound_under(toolsets_of(all), root@));
        }
    }
    out
}

/// Says what configuration serves `targets` from the toolchain root
/// `ndk_root`, and where it goes below the project root.
pub fn setup_config(
    targets: Vec<TargetPlatform>,
    ndk_root: Option<&str>,
    proj_root: Option<&str>,
) -> (out: ConfigFile)
    ensures
        ndk_root is None ==> out.content@ == Seq::<char>::empty(),
        ndk_root matches Some(root) ==> out.content@ == stanzas(
            bound_under(toolsets_of(targets@), root@),
        ),
        proj_root is None ==> out.dir@ == config_dir() && out.path@ == config_path(),
        proj_root matches Some(root) ==> {
            &&& out.dir@ == joined(root@, config_dir())
            &&& out.path@ == joined(root@, config_path())
        },
{
    let toolsets = bind_targets(targets, ndk_root);
    proof {
        if ndk_root is None {
            assert(toolsets_of(toolsets@) =~= Seq::<ToolsetModel>::empty());
        }
    }
    let writer = ConfigWriter::new(&toolsets);
    writer.render(proj_root)
}

/// A host: the targets that it serves, the search for a toolchain root on
/// it, and the configuration that a root gives.
pub trait Platform: Sized {
    /// The operating system of the host.
    spec fn host(&self) -> HostOs;

    /// The targets of the host, with their toolsets relative to a root.
    spec fn catalog(&self) -> Seq<TargetPlatform>;

    /// The toolchain root that the command line names, if any.
    spec fn hint(&self) -> Option<Seq<char>>;

    fn targets(&self) -> (out: &Vec<TargetPlatform>)
        ensures
            out@ == self.catalog(),
    ;

    /// Opens the search for a root that serves every target of the host,
    /// and gives its first request.
    fn determine_ndk_root(&self) -> (out: (Resolver, Request))
        ensures
            out.0@.search == (SearchModel {
                required: relative_paths(self.catalog()),
                hint: self.hint(),
                host: self.host(),
                order: search_order(self.host()),
            }),
            (out.0@.phase, out.1@) == turn_to(out.0@.search, 0),
    ;

    /// Says what configuration the root gives, and where it goes.
    fn setup_config(self, ndk_root: Option<&str>, proj_root: Option<&str>) -> (out: ConfigFile)
        ensures
            ndk_root is None ==> out.content@ == Seq::<char>::empty(),
            ndk_root matches Some(root) ==> out.content@ == stanzas(
                bound_under(toolsets_of(self.catalog()), root@),
            ),
            proj_root is None ==> out.dir@ == config_dir() && out.path@ == config_path(),
            proj_root matches Some(root) ==> {
                &&& out.dir@ == joined(root@, config_dir())
                &&& out.path@ == joined(root@, config_path())
            },
    ;
}

/// A path is relative: it is not empty and does not start at the root of
/// the file system.
pub open spec fn relative(path: Seq<char>) -> bool {
    path.len() > 0 && path[0] != '/'
}

/// A host's catalog is complete: it holds the three targets, each once and
/// in this order, and the archiver and the linker of each are paths
/// relative to the toolchain root.
pub open spec fn complete_catalog(targets: Seq<TargetPlatform>) -> bool {
    &&& targets.len() == 3
    &&& targets[0] is Aarch64
    &&& targets[1] is Armv7
    &&& targets[2] is I686
    &&& forall|i: int|
        0 <= i < 3 ==> relative((#[trigger] targets[i]).toolset()@.ar) && relative(
            targets[i].toolset()@.linker,
        )
}

/// A complete catalog holds exactly one toolset for each target.
pub proof fn lemma_one_toolset_for_each_target(targets: Seq<TargetPlatform>, target: TargetPlatform)
    requires
        complete_catalog(targets),
    ensures
        distinct_triples(targets),
        exists|i: int|
            0 <= i < targets.len() && (#[trigger] targets[i]).same_triple(target) && forall|j: int|
                0 <= j < targets.len() && (#[trigger] targets[j]).same_triple(target) ==> j == i,
{
    let i: int = match target {
        TargetPlatform::Aarch64(_) => 0,
        TargetPlatform::Armv7(_) => 1,
        TargetPlatform::I686(_) => 2,
    };
    assert(targets[i].same_triple(target));
}

/// The hint that options carry.
pub open spec fn hint_of(options: Option<CommandOptions>) -> Option<Seq<char>> {
    match options {
        Some(options) => options@.ndk_root,
        None => None,
    }
}

/// Opens the search of `host` for a root that serves `targets`, with the
/// toolchain root of the options as the hint.
pub fn open_search(
    targets: &Vec<TargetPlatform>,
    options: &Option<CommandOptions>,
    host: HostOs,
) -> (out: (Resolver, Request))
    ensures
        out.0@.search == (SearchModel {
            required: relative_paths(targets@),
            hint: hint_of(*options),
            host,
            order: search_order(host),
        }),
        (out.0@.phase, out.1@) == turn_to(out.0@.search, 0),
{
    let hint = match options {
        Some(options) => match options.ndk_root() {
            Some(root) => Some(String::from_str(root)),
            None => None,
        },
        None => None,
    };
    Resolver::start(targets, hint, host)
}

/// Puts the three toolsets of a host together as its catalog.
pub fn catalog_of(aarch64: PlatformToolset, armv7: PlatformToolset, i686: PlatformToolset) -> (out:
    Vec<TargetPlatform>)
    ensures
        out@.len() == 3,
        out@[0] == TargetPlatform::Aarch64(aarch64),
        out@[1] == TargetPlatform::Armv7(armv7),
        out@[2] == TargetPlatform::I686(i686),
{
    let mut toolsets: Vec<TargetPlatform> = Vec::new();
    toolsets.push(TargetPlatform::Aarch64(aarch64));
    toolsets.push(TargetPlatform::Armv7(armv7));
    toolsets.push(TargetPlatform::I686(i686));
    toolsets
}

/// No two entries of the listing were modified at the same time.
pub open spec fn distinct_times(entries: Seq<FolderEntry>) -> bool {
    forall|i: int, j: int|
        0 <= i < j < entries.len() ==> (#[trigger] entries[i]).modified != (
        #[trigger] entries[j]).modified
}

proof fn lemma_entry_is_listed(a: Seq<FolderEntry>, b: Seq<FolderEntry>, i: int) -> (j: int)
    requires
        a.to_multiset() == b.to_multiset(),
        0 <= i < a.len(),
    ensures
        0 <= j < b.len(),
        b[j] == a[i],
{
    assert(a.contains(a[i]));
    vstd::seq_lib::to_multiset_contains(a, a[i]);
    vstd::seq_lib::to_multiset_contains(b, a[i]);
    choose|j: int| 0 <= j < b.len() && b[j] == a[i]
}

proof fn lemma_distinct_times_carry_over(a: Seq<FolderEntry>, b: Seq<FolderEntry>)
    requires
        a.to_multiset() == b.to_multiset(),
        distinct_times(a),
    ensures
        distinct_times(b),
{
    assert(a.no_duplicates()) by {
        assert forall|i: int, j: int| 0 <= i < a.len() && 0 <= j < a.len() && i != j implies a[i]
            != a[j] by {
            if i < j {
                assert(a[i].modified != a[j].modified);
            } else {
                assert(a[j].modified != a[i].modified);
            }
        }
    }
    a.lemma_multiset_has_no_duplicates();
    b.lemma_multiset_has_no_duplicates_conv();
    assert forall|p: int, q: int| 0 <= p < q < b.len() implies (#[trigger] b[p]).modified != (
    #[trigger] b[q]).modified by {
        let i = lemma_entry_is_listed(b, a, p);
        let j = lemma_entry_is_listed(b, a, q);
        assert(b[p] != b[q]);
        if i < j {
            assert(a[i].modified != a[j].modified);
        } else {
            assert(a[j].modified != a[i].modified);
        }
    }
}

proof fn lemma_latest_carries_over(a: Seq<FolderEntry>, b: Seq<FolderEntry>, i: int) -> (j: int)
    requires
        a.to_multiset() == b.to_multiset(),
        distinct_times(a),
        is_latest(a, i),
    ensures
        is_latest(b, j),
        b[j] == a[i],
{
    let j = lemma_entry_is_listed(a, b, i);
    assert forall|m: int| 0 <= m < b.len() && m != j && (#[trigger] b[m]).is_dir implies b[m].modified
        < b[j].modified by {
        let n = lemma_entry_is_listed(b, a, m);
        lemma_distinct_times_carry_over(a, b);
        if m < j {
            assert(b[m].modified != b[j].modified);
        } else {
            assert(b[j].modified != b[m].modified);
        }
        assert(a[n].is_dir);
        if n < i {
            assert(a[n].modified < a[i].modified);
        } else {
            assert(a[n].modified <= a[i].modified);
        }
    }
    j
}

/// The choice does not depend on the order of the listing: where no two
/// entries were modified at the same time, two listings of the same entries
/// have the same latest folder.
pub proof fn lemma_latest_ignores_order(a: Seq<FolderEntry>, b: Seq<FolderEntry>)
    requires
        a.to_multiset() == b.to_multiset(),
        distinct_times(a),
    ensures
        latest_folder(a) == latest_folder(b),
{
    lemma_distinct_times_carry_over(a, b);
    if exists|i: int| is_latest(a, i) {
        let i = choose|i: int| is_latest(a, i);
        let j = lemma_latest_carries_over(a, b, i);
        let k = choose|k: int| is_latest(b, k);
        lemma_latest_is_unique(b, j, k);
    } else if exists|j: int| is_latest(b, j) {
        let j = choose|j: int| is_latest(b, j);
        let i = lemma_latest_carries_over(b, a, j);
    }
}

/// With times that differ, the latest folder is the one directory that is
/// later than all the other directories, whatever else the listing holds
/// and whenever the directories were modified.
pub proof fn lemma_latest_has_the_maximum_time(entries: Seq<FolderEntry>, i: int)
    requires
        distinct_times(entries),
        0 <= i < entries.len(),
        entries[i].is_dir,
        forall|j: int|
            0 <= j < entries.len() && (#[trigger] entries[j]).is_dir ==> entries[j].modified
                <= entries[i].modified,
    ensures
        is_latest(entries, i),
        latest_folder(entries) == opt_text(entries[i].path),
{
    assert forall|j: int| 0 <= j < i && (#[trigger] entries[j]).is_dir implies entries[j].modified
        < entries[i].modified by {
        assert(entries[j].modified != entries[i].modified);
    }
    assert(is_latest(entries, i));
    lemma_latest_is_a_directory(entries, i);
}

} // verus!
