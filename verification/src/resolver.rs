//! The search for a toolchain root, as a machine that asks and is answered.
//!
//! The machine never touches the outside world. It hands out one `Request`
//! at a time; whoever drives it carries the request out and hands back the
//! `Reply`. The strategies are tried in a fixed order, and the first root
//! that holds every required path ends the search.

use vstd::prelude::*;
use crate::downloader::{archive_file_name, archive_url, url_of, HostOs};
use crate::platform::{
    get_latest_folder_name, latest_folder, relative_paths, required_paths, texts, FolderEntry,
    PlatformError, TargetPlatform,
};
use crate::text::{join_path, joined, line_content, opt_text, trim_line_end};

verus! {

/// One way of proposing a toolchain root.
#[derive(Debug, Clone, Copy, PartialEq, Eq, Structural)]
pub enum Strategy {
    /// The root that the caller supplied.
    ExplicitHint,
    /// The root that the environment names directly.
    EnvRoot,
    /// The bundle directory below the SDK home that the environment names.
    SdkBundle,
    /// The default install location below the user's home directory.
    HomeDefault,
    /// The most recently modified version directory below the SDK home.
    LatestSubdir,
    /// A path that the user types.
    AskUser,
    /// A freshly downloaded and unpacked toolchain.
    Download,
}

/// The order in which `host` tries the strategies.
pub open spec fn search_order(host: HostOs) -> Seq<Strategy> {
    match host {
        HostOs::Windows => seq![
            Strategy::ExplicitHint,
            Strategy::EnvRoot,
            Strategy::LatestSubdir,
            Strategy::AskUser,
            Strategy::Download,
        ],
        _ => seq![
            Strategy::ExplicitHint,
            Strategy::EnvRoot,
            Strategy::SdkBundle,
            Strategy::HomeDefault,
            Strategy::LatestSubdir,
            Strategy::AskUser,
            Strategy::Download,
        ],
    }
}

/// The variable that names the toolchain root.
pub open spec fn ndk_root_var() -> Seq<char> {
    "NDK_TOOL_ROOT"@
}

/// The variable that names the SDK home.
pub open spec fn sdk_home_var() -> Seq<char> {
    "ANDROID_HOME"@
}

/// The variable that names the user's home directory.
pub open spec fn home_var() -> Seq<char> {
    "HOME"@
}

/// The toolchain bundle, below the SDK home.
pub open spec fn bundle_dir() -> Seq<char> {
    "ndk-bundle"@
}

/// The directory of toolchain versions, below the SDK home.
pub open spec fn versions_dir() -> Seq<char> {
    "ndk"@
}

/// The directory that a downloaded toolchain is unpacked into: the current
/// directory.
pub open spec fn unpack_dir() -> Seq<char> {
    "."@
}

/// The root that a download proposes: the directory that it unpacked the
/// toolchain into, where it succeeded.
pub open spec fn unpacked(done: bool) -> Option<Seq<char>> {
    if done {
        Some(unpack_dir())
    } else {
        None
    }
}

/// The default install location below the home directory, on the hosts that
/// have one.
pub open spec fn home_install_dir(host: HostOs) -> Option<Seq<char>> {
    match host {
        HostOs::Linux => Some("tools/Android/sdk/ndk-bundle"@),
        HostOs::MacOs => Some("Library/Android/sdk/ndk-bundle"@),
        HostOs::Windows => None,
    }
}

/// What the driver of the search is asked to do next.
#[derive(Debug)]
pub enum Request {
    /// Read the named environment variable; answered by `Reply::Value`.
    ReadEnv(String),
    /// Say whether the path exists; answered by `Reply::Exists`.
    CheckExists(String),
    /// List the directory with the modification time of each entry;
    /// answered by `Reply::Listing`.
    ListDir(String),
    /// Ask the user for a path and read one line; answered by `Reply::Line`.
    AskUser,
    /// Fetch the archive into the named file and unpack it into the named
    /// directory; answered by `Reply::Downloaded`.
    Download { url: String, file_name: String, unpack_into: String },
    /// The search is over, with this result.
    Finish(Result<String, PlatformError>),
}

/// The answer to a request.
#[derive(Debug)]
pub enum Reply {
    /// The value of the variable, where it is set and is text.
    Value(Option<String>),
    /// Whether the path exists.
    Exists(bool),
    /// The entries of the directory, where it could be listed.
    Listing(Option<Vec<FolderEntry>>),
    /// The line that the user typed, with its line ending.
    Line(String),
    /// Whether fetching and unpacking both succeeded.
    Downloaded(bool),
}

/// A request, as mathematics.
pub enum RequestModel {
    ReadEnv(Seq<char>),
    CheckExists(Seq<char>),
    ListDir(Seq<char>),
    AskUser,
    Download { url: Seq<char>, file_name: Seq<char>, unpack_into: Seq<char> },
    Finish(Result<Seq<char>, PlatformError>),
}

/// A reply, as mathematics.
pub enum ReplyModel {
    Value(Option<Seq<char>>),
    Exists(bool),
    Listing(Option<Seq<FolderEntry>>),
    Line(Seq<char>),
    Downloaded(bool),
}

impl View for Request {
    type V = RequestModel;

    open spec fn view(&self) -> RequestModel {
        match self {
            Request::ReadEnv(name) => RequestModel::ReadEnv(name@),
            Request::CheckExists(path) => RequestModel::CheckExists(path@),
            Request::ListDir(path) => RequestModel::ListDir(path@),
            Request::AskUser => RequestModel::AskUser,
            Request::Download { url, file_name, unpack_into } => RequestModel::Download {
                url: url@,
                file_name: file_name@,
                unpack_into: unpack_into@,
            },
            Request::Finish(Ok(root)) => RequestModel::Finish(Ok(root@)),
            Request::Finish(Err(error)) => RequestModel::Finish(Err(*error)),
        }
    }
}

impl View for Reply {
    type V = ReplyModel;

    open spec fn view(&self) -> ReplyModel {
        match self {
            Reply::Value(value) => ReplyModel::Value(opt_text(*value)),
            Reply::Exists(exists) => ReplyModel::Exists(*exists),
            Reply::Listing(Some(entries)) => ReplyModel::Listing(Some(entries@)),
            Reply::Listing(None) => ReplyModel::Listing(None),
            Reply::Line(line) => ReplyModel::Line(line@),
            Reply::Downloaded(done) => ReplyModel::Downloaded(*done),
        }
    }
}

/// What is searched for, and how: the paths that a root must hold, relative
/// to it; the root that the caller supplied, if any; the host; and the
/// strategies in the order in which they are tried.
pub struct SearchModel {
    pub required: Seq<Seq<char>>,
    pub hint: Option<Seq<char>>,
    pub host: HostOs,
    pub order: Seq<Strategy>,
}

/// Where the search stands. `at` is the position, in the order, of the
/// strategy that is being tried.
pub enum PhaseModel {
    /// Waiting for the variable that the strategy reads.
    Env { at: int },
    /// Waiting for the listing of the version directory.
    Listing { at: int },
    /// Waiting for the line that the user types.
    Line { at: int },
    /// Waiting to hear whether the typed path exists.
    Typed { at: int, root: Seq<char> },
    /// Waiting for the download.
    Fetch { at: int },
    /// Waiting to hear whether required path `next` exists under `root`;
    /// the required paths before it do.
    Checking { at: int, root: Seq<char>, next: int },
    /// The search is over.
    Done,
}

/// The search and where it stands.
pub struct ResolverModel {
    pub search: SearchModel,
    pub phase: PhaseModel,
}

/// Starts the validation of `root`, proposed by the strategy at `at`: asks
/// for the first required path, or accepts the root where nothing is
/// required.
pub open spec fn begin_check(search: SearchModel, at: int, root: Seq<char>) -> (
    PhaseModel,
    RequestModel,
) {
    if search.required.len() == 0 {
        (PhaseModel::Done, RequestModel::Finish(Ok(root)))
    } else {
        (
            PhaseModel::Checking { at, root, next: 0 },
            RequestModel::CheckExists(joined(root, search.required[0])),
        )
    }
}

/// Turns to the strategy at `at`: its opening request, or, where it needs
/// none and proposes nothing, whatever the strategies after it open with.
/// Past the last strategy the search fails.
pub open spec fn turn_to(search: SearchModel, at: int) -> (PhaseModel, RequestModel)
    decreases search.order.len() - at,
{
    if at < 0 || at >= search.order.len() {
        (PhaseModel::Done, RequestModel::Finish(Err(PlatformError::ToolsetDoesNotExist)))
    } else {
        match search.order[at] {
            Strategy::ExplicitHint => match search.hint {
                Some(root) => begin_check(search, at, root),
                None => turn_to(search, at + 1),
            },
            Strategy::EnvRoot => (PhaseModel::Env { at }, RequestModel::ReadEnv(ndk_root_var())),
            Strategy::SdkBundle => (PhaseModel::Env { at }, RequestModel::ReadEnv(sdk_home_var())),
            Strategy::HomeDefault => (PhaseModel::Env { at }, RequestModel::ReadEnv(home_var())),
            Strategy::LatestSubdir => (
                PhaseModel::Env { at },
                RequestModel::ReadEnv(sdk_home_var()),
            ),
            Strategy::AskUser => (PhaseModel::Line { at }, RequestModel::AskUser),
            Strategy::Download => (
                PhaseModel::Fetch { at },
                RequestModel::Download {
                    url: archive_url(search.host),
                    file_name: archive_file_name(),
                    unpack_into: unpack_dir(),
                },
            ),
        }
    }
}

/// What the strategy at `at` does with the value of the variable it read.
pub open spec fn after_value(search: SearchModel, at: int, value: Option<Seq<char>>) -> (
    PhaseModel,
    RequestModel,
) {
    match value {
        None => turn_to(search, at + 1),
        Some(value) => match search.order[at] {
            Strategy::EnvRoot => begin_check(search, at, value),
            Strategy::SdkBundle => begin_check(search, at, joined(value, bundle_dir())),
            Strategy::HomeDefault => match home_install_dir(search.host) {
                Some(dir) => begin_check(search, at, joined(value, dir)),
                None => turn_to(search, at + 1),
            },
            Strategy::LatestSubdir => (
                PhaseModel::Listing { at },
                RequestModel::ListDir(joined(value, versions_dir())),
            ),
            _ => turn_to(search, at + 1),
        },
    }
}

/// What the strategy at `at` does with a root that it may have found.
pub open spec fn after_proposal(search: SearchModel, at: int, root: Option<Seq<char>>) -> (
    PhaseModel,
    RequestModel,
) {
    match root {
        Some(root) => begin_check(search, at, root),
        None => turn_to(search, at + 1),
    }
}

/// One step of the search: the phase that follows on `reply`, and the next
/// request. A reply that does not answer the pending request counts as the
/// failure of the strategy that is being tried. Once the search is over it
/// stays over.
pub open spec fn step_model(m: ResolverModel, reply: ReplyModel) -> (PhaseModel, RequestModel) {
    match m.phase {
        PhaseModel::Env { at } => match reply {
            ReplyModel::Value(value) => after_value(m.search, at, value),
            _ => turn_to(m.search, at + 1),
        },
        PhaseModel::Listing { at } => match reply {
            ReplyModel::Listing(Some(entries)) => after_proposal(
                m.search,
                at,
                latest_folder(entries),
            ),
            _ => turn_to(m.search, at + 1),
        },
        PhaseModel::Line { at } => match reply {
            ReplyModel::Line(line) => (
                PhaseModel::Typed { at, root: line_content(line) },
                RequestModel::CheckExists(line_content(line)),
            ),
            _ => turn_to(m.search, at + 1),
        },
        PhaseModel::Typed { at, root } => match reply {
            ReplyModel::Exists(true) => begin_check(m.search, at, root),
            _ => turn_to(m.search, at + 1),
        },
        PhaseModel::Fetch { at } => match reply {
            ReplyModel::Downloaded(done) => after_proposal(m.search, at, unpacked(done)),
            _ => turn_to(m.search, at + 1),
        },
        PhaseModel::Checking { at, root, next } => match reply {
            ReplyModel::Exists(true) => if next + 1 < m.search.required.len() {
                (
                    PhaseModel::Checking { at, root, next: next + 1 },
                    RequestModel::CheckExists(joined(root, m.search.required[next + 1])),
                )
            } else {
                (PhaseModel::Done, RequestModel::Finish(Ok(root)))
            },
            _ => turn_to(m.search, at + 1),
        },
        PhaseModel::Done => (
            PhaseModel::Done,
            RequestModel::Finish(Err(PlatformError::ToolsetDoesNotExist)),
        ),
    }
}

/// The phase points into the order and into the required paths.
pub open spec fn phase_fits(search: SearchModel, phase: PhaseModel) -> bool {
    match phase {
        PhaseModel::Env { at } => 0 <= at < search.order.len(),
        PhaseModel::Listing { at } => 0 <= at < search.order.len(),
        PhaseModel::Line { at } => 0 <= at < search.order.len(),
        PhaseModel::Typed { at, root } => 0 <= at < search.order.len(),
        PhaseModel::Fetch { at } => 0 <= at < search.order.len(),
        PhaseModel::Checking { at, root, next } => 0 <= at < search.order.len() && 0 <= next
            < search.required.len(),
        PhaseModel::Done => true,
    }
}

/// The position, in the order, of the strategy that a phase belongs to. A
/// finished search stands past the last strategy.
pub open spec fn position(search: SearchModel, phase: PhaseModel) -> int {
    match phase {
        PhaseModel::Env { at } => at,
        PhaseModel::Listing { at } => at,
        PhaseModel::Line { at } => at,
        PhaseModel::Typed { at, root } => at,
        PhaseModel::Fetch { at } => at,
        PhaseModel::Checking { at, root, next } => at,
        PhaseModel::Done => search.order.len() as int,
    }
}

/// Turning to a strategy never leads to an earlier one, and the phase it
/// leads to points into the order. Where something is required, it does not
/// end the search with a root.
pub proof fn lemma_turning_moves_forward(search: SearchModel, at: int)
    requires
        0 <= at <= search.order.len(),
    ensures
        position(search, turn_to(search, at).0) >= at,
        phase_fits(search, turn_to(search, at).0),
        search.required.len() > 0 ==> !(turn_to(search, at).1 matches RequestModel::Finish(Ok(_))),
    decreases search.order.len() - at,
{
    if at < search.order.len() {
        lemma_turning_moves_forward(search, at + 1);
    }
}

/// Whatever the reply, a step never turns back to an earlier strategy.
pub proof fn lemma_step_never_turns_back(m: ResolverModel, reply: ReplyModel)
    requires
        phase_fits(m.search, m.phase),
    ensures
        position(m.search, step_model(m, reply).0) >= position(m.search, m.phase),
        phase_fits(m.search, step_model(m, reply).0),
{
    if !(m.phase is Done) {
        lemma_turning_moves_forward(m.search, position(m.search, m.phase) + 1);
    }
}

/// Whoever answers, and however: where something is required, the search
/// ends with a root only on hearing that the last required path exists
/// under that root, after it has asked for every required path before it.
pub proof fn lemma_root_is_accepted_only_after_the_last_check(
    m: ResolverModel,
    reply: ReplyModel,
    root: Seq<char>,
)
    requires
        phase_fits(m.search, m.phase),
        m.search.required.len() > 0,
        step_model(m, reply).1 == RequestModel::Finish(Ok::<Seq<char>, PlatformError>(root)),
    ensures
        m.phase == (PhaseModel::Checking {
            at: position(m.search, m.phase),
            root,
            next: m.search.required.len() - 1,
        }),
        reply == ReplyModel::Exists(true),
{
    if !(m.phase is Done) {
        lemma_turning_moves_forward(m.search, position(m.search, m.phase) + 1);
    }
}

struct Search {
    required: Vec<String>,
    hint: Option<String>,
    host: HostOs,
    order: Vec<Strategy>,
}

impl View for Search {
    type V = SearchModel;

    closed spec fn view(&self) -> SearchModel {
        SearchModel {
            required: texts(self.required@),
            hint: opt_text(self.hint),
            host: self.host,
            order: self.order@,
        }
    }
}

enum Phase {
    Env { at: usize },
    Listing { at: usize },
    Line { at: usize },
    Typed { at: usize, root: String },
    Fetch { at: usize },
    Checking { at: usize, root: String, next: usize },
    Done,
}

impl View for Phase {
    type V = PhaseModel;

    closed spec fn view(&self) -> PhaseModel {
        match self {
            Phase::Env { at } => PhaseModel::Env { at: *at as int },
            Phase::Listing { at } => PhaseModel::Listing { at: *at as int },
            Phase::Line { at } => PhaseModel::Line { at: *at as int },
            Phase::Typed { at, root } => PhaseModel::Typed { at: *at as int, root: root@ },
            Phase::Fetch { at } => PhaseModel::Fetch { at: *at as int },
            Phase::Checking { at, root, next } => PhaseModel::Checking {
                at: *at as int,
                root: root@,
                next: *next as int,
            },
            Phase::Done => PhaseModel::Done,
        }
    }
}

/// A search for a toolchain root, between two requests.
pub struct Resolver {
    search: Search,
    phase: Phase,
}

impl View for Resolver {
    type V = ResolverModel;

    closed spec fn view(&self) -> ResolverModel {
        ResolverModel { search: self.search@, phase: self.phase@ }
    }
}

fn order_of(host: HostOs) -> (out: Vec<Strategy>)
    ensures
        out@ == search_order(host),
{
    let mut out: Vec<Strategy> = Vec::new();
    out.push(Strategy::ExplicitHint);
    out.push(Strategy::EnvRoot);
    match host {
        HostOs::Windows => {},
        _ => {
            out.push(Strategy::SdkBundle);
            out.push(Strategy::HomeDefault);
        },
    }
    out.push(Strategy::LatestSubdir);
    out.push(Strategy::AskUser);
    out.push(Strategy::Download);
    assert(out@ =~= search_order(host));
    out
}

fn home_install(host: HostOs) -> (out: Option<&'static str>)
    ensures
        out is Some <==> home_install_dir(host) is Some,
        out matches Some(dir) ==> home_install_dir(host) == Some(dir@),
{
    match host {
        HostOs::Linux => Some("tools/Android/sdk/ndk-bundle"),
        HostOs::MacOs => Some("Library/Android/sdk/ndk-bundle"),
        HostOs::Windows => None,
    }
}

fn start_check(search: &Search, at: usize, root: String) -> (out: (Phase, Request))
    requires
        at < search.order.len(),
    ensures
        (out.0@, out.1@) == begin_check(search@, at as int, root@),
        phase_fits(search@, out.0@),
{
    if search.required.len() == 0 {
        (Phase::Done, Request::Finish(Ok(root)))
    } else {
        let path = join_path(root.as_str(), search.required[0].as_str());
        (Phase::Checking { at, root, next: 0 }, Request::CheckExists(path))
    }
}

fn start_from(search: &Search, start: usize) -> (out: (Phase, Request))
    requires
        start <= search.order.len(),
    ensures
        (out.0@, out.1@) == turn_to(search@, start as int),
        phase_fits(search@, out.0@),
{
    let mut at: usize = start;
    while at < search.order.len()
        invariant
            start <= at <= search.order.len(),
            turn_to(search@, at as int) == turn_to(search@, start as int),
        decreases search.order.len() - at,
    {
        match search.order[at] {
            Strategy::ExplicitHint => {
                match &search.hint {
                    Some(root) => {
                        return start_check(search, at, root.clone());
                    },
                    None => {},
                }
            },
            Strategy::EnvRoot => {
                return (Phase::Env { at }, Request::ReadEnv(String::from_str("NDK_TOOL_ROOT")));
            },
            Strategy::SdkBundle => {
                return (Phase::Env { at }, Request::ReadEnv(String::from_str("ANDROID_HOME")));
            },
            Strategy::HomeDefault => {
                return (Phase::Env { at }, Request::ReadEnv(String::from_str("HOME")));
            },
            Strategy::LatestSubdir => {
                return (Phase::Env { at }, Request::ReadEnv(String::from_str("ANDROID_HOME")));
            },
            Strategy::AskUser => {
                return (Phase::Line { at }, Request::AskUser);
            },
            Strategy::Download => {
                return (
                    Phase::Fetch { at },
                    Request::Download {
                        url: String::from_str(url_of(search.host)),
                        file_name: String::from_str("ndk.zip"),
                        unpack_into: String::from_str("."),
                    },
                );
            },
        }
        at = at + 1;
    }
    (Phase::Done, Request::Finish(Err(PlatformError::ToolsetDoesNotExist)))
}

impl Resolver {
    #[verifier::type_invariant]
    spec fn well_formed(self) -> bool {
        phase_fits(self.search@, self.phase@)
    }

    /// Opens the search of `host` for a root that serves `targets`, with the
    /// root that the caller supplied, if any. Gives the first request.
    pub fn start(targets: &Vec<TargetPlatform>, hint: Option<String>, host: HostOs) -> (out: (
        Resolver,
        Request,
    ))
        ensures
            out.0@.search == (SearchModel {
                required: relative_paths(targets@),
                hint: opt_text(hint),
                host,
                order: search_order(host),
            }),
            (out.0@.phase, out.1@) == turn_to(out.0@.search, 0),
    {
        let search = Search { required: required_paths(targets), hint, host, order: order_of(host) };
        let (phase, request) = start_from(&search, 0);
        (Resolver { search, phase }, request)
    }

    /// Takes the reply to the pending request and gives the next request.
    pub fn step(self, reply: Reply) -> (out: (Resolver, Request))
        ensures
            out.0@.search == self@.search,
            (out.0@.phase, out.1@) == step_model(self@, reply@),
    {
        proof {
            use_type_invariant(&self);
        }
        let Resolver { search, phase } = self;
        assert(phase_fits(search@, phase@));
        assert(search@.order.len() == search.order.len());
        assert(search@.required.len() == search.required.len());
        let (next_phase, request) = match phase {
            Phase::Env { at } => match reply {
                Reply::Value(Some(value)) => match search.order[at] {
                    Strategy::EnvRoot => start_check(&search, at, value),
                    Strategy::SdkBundle => start_check(
                        &search,
                        at,
                        join_path(value.as_str(), "ndk-bundle"),
                    ),
                    Strategy::HomeDefault => match home_install(search.host) {
                        Some(dir) => start_check(&search, at, join_path(value.as_str(), dir)),
                        None => start_from(&search, at + 1),
                    },
                    Strategy::LatestSubdir => (
                        Phase::Listing { at },
                        Request::ListDir(join_path(value.as_str(), "ndk")),
                    ),
                    _ => start_from(&search, at + 1),
                },
                _ => start_from(&search, at + 1),
            },
            Phase::Listing { at } => match reply {
                Reply::Listing(Some(entries)) => match get_latest_folder_name(&entries) {
                    Some(root) => start_check(&search, at, root),
                    None => start_from(&search, at + 1),
                },
                _ => start_from(&search, at + 1),
            },
            Phase::Line { at } => match reply {
                Reply::Line(line) => {
                    let root = trim_line_end(line.as_str());
                    let path = root.clone();
                    (Phase::Typed { at, root }, Request::CheckExists(path))
                },
                _ => start_from(&search, at + 1),
            },
            Phase::Typed { at, root } => match reply {
                Reply::Exists(true) => start_check(&search, at, root),
                _ => start_from(&search, at + 1),
            },
            Phase::Fetch { at } => match reply {
                Reply::Downloaded(true) => start_check(&search, at, String::from_str(".")),
                _ => start_from(&search, at + 1),
            },
            Phase::Checking { at, root, next } => match reply {
                Reply::Exists(true) => {
                    if next + 1 < search.required.len() {
                        let path = join_path(root.as_str(), search.required[next + 1].as_str());
                        (Phase::Checking { at, root, next: next + 1 }, Request::CheckExists(path))
                    } else {
                        (Phase::Done, Request::Finish(Ok(root)))
                    }
                },
                _ => start_from(&search, at + 1),
            },
            Phase::Done => (
                Phase::Done,
                Request::Finish(Err(PlatformError::ToolsetDoesNotExist)),
            ),
        };
        (Resolver { search, phase: next_phase }, request)
    }
}

} // verus!
