//! What the search finds when every request is answered truthfully.
//!
//! A `World` fixes the facts that the search can ask about. Against such a
//! world the outcome of the search can be said directly: the root proposed
//! by the first strategy, in order, whose root holds every required path.
//! The proofs below show that the machine of `resolver` arrives at exactly
//! that outcome.

use vstd::prelude::*;
use crate::platform::{latest_folder, FolderEntry, PlatformError};
use crate::resolver::{
    after_proposal, after_value, begin_check, bundle_dir, home_install_dir, home_var,
    ndk_root_var, position, sdk_home_var, step_model, turn_to, unpacked, versions_dir,
    PhaseModel,
    ReplyModel,
    RequestModel, ResolverModel, SearchModel, Strategy,
};
use crate::text::{joined, line_content};

verus! {

/// The facts that a search can ask about.
pub struct World {
    /// The environment variables that are set, with their values.
    pub env: Map<Seq<char>, Seq<char>>,
    /// The paths that exist.
    pub present: Set<Seq<char>>,
    /// The directories that can be listed, with their entries.
    pub listings: Map<Seq<char>, Seq<FolderEntry>>,
    /// The line that the user types when asked.
    pub typed: Seq<char>,
    /// Whether fetching and unpacking the toolchain succeeds.
    pub downloaded: bool,
}

impl World {
    /// The value of an environment variable.
    pub open spec fn variable(self, name: Seq<char>) -> Option<Seq<char>> {
        if self.env.contains_key(name) {
            Some(self.env[name])
        } else {
            None
        }
    }

    /// The entries of a directory.
    pub open spec fn listing(self, path: Seq<char>) -> Option<Seq<FolderEntry>> {
        if self.listings.contains_key(path) {
            Some(self.listings[path])
        } else {
            None
        }
    }

    /// The truthful reply to a request.
    pub open spec fn answer(self, request: RequestModel) -> ReplyModel {
        match request {
            RequestModel::ReadEnv(name) => ReplyModel::Value(self.variable(name)),
            RequestModel::CheckExists(path) => ReplyModel::Exists(self.present.contains(path)),
            RequestModel::ListDir(path) => ReplyModel::Listing(self.listing(path)),
            RequestModel::AskUser => ReplyModel::Line(self.typed),
            RequestModel::Download { url, file_name, unpack_into } => ReplyModel::Downloaded(
                self.downloaded,
            ),
            RequestModel::Finish(result) => ReplyModel::Exists(false),
        }
    }

    /// `root` holds every required path.
    pub open spec fn holds(self, search: SearchModel, root: Seq<char>) -> bool {
        forall|k: int|
            0 <= k < search.required.len() ==> self.present.contains(
                joined(root, #[trigger] search.required[k]),
            )
    }

    /// The root that a strategy proposes.
    pub open spec fn proposal(self, search: SearchModel, strategy: Strategy) -> Option<Seq<char>> {
        match strategy {
            Strategy::ExplicitHint => search.hint,
            Strategy::EnvRoot => self.variable(ndk_root_var()),
            Strategy::SdkBundle => match self.variable(sdk_home_var()) {
                Some(home) => Some(joined(home, bundle_dir())),
                None => None,
            },
            Strategy::HomeDefault => match (self.variable(home_var()), home_install_dir(search.host)) {
                (Some(home), Some(dir)) => Some(joined(home, dir)),
                _ => None,
            },
            Strategy::LatestSubdir => match self.variable(sdk_home_var()) {
                Some(home) => match self.listing(joined(home, versions_dir())) {
                    Some(entries) => latest_folder(entries),
                    None => None,
                },
                None => None,
            },
            Strategy::AskUser => if self.present.contains(line_content(self.typed)) {
                Some(line_content(self.typed))
            } else {
                None
            },
            Strategy::Download => unpacked(self.downloaded),
        }
    }

    /// The strategy at `at` proposes a root that holds every required path.
    pub open spec fn succeeds_at(self, search: SearchModel, at: int) -> bool {
        &&& 0 <= at < search.order.len()
        &&& self.proposal(search, search.order[at]) matches Some(root)
        &&& self.holds(search, root)
    }

    /// The outcome of the strategies from `at` on: the root of the first
    /// that succeeds, or failure where none does.
    pub open spec fn resolution(self, search: SearchModel, at: int) -> Result<
        Seq<char>,
        PlatformError,
    >
        decreases search.order.len() - at,
    {
        if at < 0 || at >= search.order.len() {
            Err(PlatformError::ToolsetDoesNotExist)
        } else if self.succeeds_at(search, at) {
            Ok(self.proposal(search, search.order[at])->Some_0)
        } else {
            self.resolution(search, at + 1)
        }
    }

    /// Driven from a phase and its pending request, and answered truthfully
    /// at most `fuel` times, the search makes no request on behalf of a
    /// strategy after the one at `limit`.
    pub open spec fn keeps_to(
        self,
        search: SearchModel,
        phase: PhaseModel,
        request: RequestModel,
        fuel: nat,
        limit: int,
    ) -> bool
        decreases fuel,
    {
        match request {
            RequestModel::Finish(result) => true,
            _ => position(search, phase) <= limit && (fuel == 0 || {
                let next = step_model(ResolverModel { search, phase }, self.answer(request));
                self.keeps_to(search, next.0, next.1, (fuel - 1) as nat, limit)
            }),
        }
    }

    /// Drives the search from a phase and its pending request, answering
    /// truthfully at most `fuel` times. Gives the result once the search
    /// has finished.
    pub open spec fn run(
        self,
        search: SearchModel,
        phase: PhaseModel,
        request: RequestModel,
        fuel: nat,
    ) -> Option<Result<Seq<char>, PlatformError>>
        decreases fuel,
    {
        match request {
            RequestModel::Finish(result) => Some(result),
            _ => if fuel == 0 {
                None
            } else {
                let next = step_model(ResolverModel { search, phase }, self.answer(request));
                self.run(search, next.0, next.1, (fuel - 1) as nat)
            },
        }
    }
}

/// A number of replies that is enough to finish the search from the
/// strategy at `at`: for each strategy left, two for proposing a root and
/// one for each required path.
pub open spec fn steps_left(search: SearchModel, at: int) -> nat
    decreases search.order.len() - at,
{
    if at < 0 || at >= search.order.len() {
        0
    } else {
        search.required.len() + 2 + steps_left(search, at + 1)
    }
}

proof fn lemma_check(
    world: World,
    search: SearchModel,
    at: int,
    root: Seq<char>,
    next: int,
    fuel: nat,
)
    requires
        0 <= at < search.order.len(),
        0 <= next < search.required.len(),
        forall|k: int|
            0 <= k < next ==> world.present.contains(joined(root, #[trigger] search.required[k])),
        fuel >= search.required.len() - next + steps_left(search, at + 1),
    ensures
        world.run(
            search,
            PhaseModel::Checking { at, root, next },
            RequestModel::CheckExists(joined(root, search.required[next])),
            fuel,
        ) == Some(
            if world.holds(search, root) {
                Ok(root)
            } else {
                world.resolution(search, at + 1)
            },
        ),
    decreases search.order.len() - at, search.required.len() - next,
{
    let path = joined(root, search.required[next]);
    let checking = ResolverModel { search, phase: PhaseModel::Checking { at, root, next } };
    let after = step_model(checking, world.answer(RequestModel::CheckExists(path)));
    let less = (fuel - 1) as nat;
    assert(world.run(search, checking.phase, RequestModel::CheckExists(path), fuel) == world.run(
        search,
        after.0,
        after.1,
        less,
    ));
    if world.present.contains(path) {
        if next + 1 < search.required.len() {
            lemma_check(world, search, at, root, next + 1, less);
        } else {
            assert(world.holds(search, root));
            assert(after.1 == RequestModel::Finish(Ok::<Seq<char>, PlatformError>(root)));
            assert(world.run(search, after.0, after.1, less) == Some(
                Ok::<Seq<char>, PlatformError>(root),
            ));
        }
    } else {
        assert(!world.present.contains(joined(root, search.required[next])));
        assert(!world.holds(search, root));
        assert(after == turn_to(search, at + 1));
        lemma_turn(world, search, at + 1, less);
    }
}

proof fn lemma_begin(world: World, search: SearchModel, at: int, root: Seq<char>, fuel: nat)
    requires
        0 <= at < search.order.len(),
        fuel >= search.required.len() + steps_left(search, at + 1),
    ensures
        world.run(search, begin_check(search, at, root).0, begin_check(search, at, root).1, fuel)
            == Some(
            if world.holds(search, root) {
                Ok(root)
            } else {
                world.resolution(search, at + 1)
            },
        ),
    decreases search.order.len() - at, search.required.len() + 1,
{
    if search.required.len() > 0 {
        lemma_check(world, search, at, root, 0, fuel);
    }
}

proof fn lemma_propose(
    world: World,
    search: SearchModel,
    at: int,
    root: Option<Seq<char>>,
    fuel: nat,
)
    requires
        0 <= at < search.order.len(),
        root == world.proposal(search, search.order[at]),
        fuel >= search.required.len() + steps_left(search, at + 1),
    ensures
        world.run(
            search,
            after_proposal(search, at, root).0,
            after_proposal(search, at, root).1,
            fuel,
        ) == Some(world.resolution(search, at)),
    decreases search.order.len() - at, search.required.len() + 2,
{
    match root {
        Some(root) => lemma_begin(world, search, at, root, fuel),
        None => lemma_turn(world, search, at + 1, fuel),
    }
}

proof fn lemma_turn(world: World, search: SearchModel, at: int, fuel: nat)
    requires
        0 <= at <= search.order.len(),
        fuel >= steps_left(search, at),
    ensures
        world.run(search, turn_to(search, at).0, turn_to(search, at).1, fuel) == Some(
            world.resolution(search, at),
        ),
    decreases search.order.len() - at, search.required.len() + 3,
{
    if at < search.order.len() {
        let proposed = world.proposal(search, search.order[at]);
        let less = (fuel - 1) as nat;
        match search.order[at] {
            Strategy::ExplicitHint => {
                assert(turn_to(search, at) == after_proposal(search, at, proposed));
                lemma_propose(world, search, at, proposed, fuel);
            },
            Strategy::EnvRoot => {
                assert(after_value(search, at, proposed) == after_proposal(search, at, proposed));
                lemma_propose(world, search, at, proposed, less);
            },
            Strategy::SdkBundle => {
                assert(after_value(search, at, world.variable(sdk_home_var())) == after_proposal(
                    search,
                    at,
                    proposed,
                ));
                lemma_propose(world, search, at, proposed, less);
            },
            Strategy::HomeDefault => {
                assert(after_value(search, at, world.variable(home_var())) == after_proposal(
                    search,
                    at,
                    proposed,
                ));
                lemma_propose(world, search, at, proposed, less);
            },
            Strategy::LatestSubdir => {
                match world.variable(sdk_home_var()) {
                    Some(home) => {
                        let listed = ResolverModel { search, phase: PhaseModel::Listing { at } };
                        let reply = world.answer(
                            RequestModel::ListDir(joined(home, versions_dir())),
                        );
                        assert(step_model(listed, reply) == after_proposal(search, at, proposed));
                        lemma_propose(world, search, at, proposed, (fuel - 2) as nat);
                        assert(world.run(
                            search,
                            PhaseModel::Listing { at },
                            RequestModel::ListDir(joined(home, versions_dir())),
                            less,
                        ) == Some(world.resolution(search, at)));
                    },
                    None => {
                        lemma_propose(world, search, at, proposed, less);
                    },
                }
            },
            Strategy::AskUser => {
                let root = line_content(world.typed);
                let typed = ResolverModel { search, phase: PhaseModel::Typed { at, root } };
                let reply = world.answer(RequestModel::CheckExists(root));
                assert(step_model(typed, reply) == after_proposal(search, at, proposed));
                lemma_propose(world, search, at, proposed, (fuel - 2) as nat);
                assert(world.run(
                    search,
                    PhaseModel::Typed { at, root },
                    RequestModel::CheckExists(root),
                    less,
                ) == Some(world.resolution(search, at)));
            },
            Strategy::Download => {
                lemma_propose(world, search, at, proposed, less);
            },
        }
    }
}

/// Answered truthfully, the search finishes, and with the root of the first
/// strategy in order that proposes a root holding every required path; it
/// fails exactly where no strategy does.
pub proof fn lemma_search_finds_first_valid_root(world: World, search: SearchModel, fuel: nat)
    requires
        fuel >= steps_left(search, 0),
    ensures
        world.run(search, turn_to(search, 0).0, turn_to(search, 0).1, fuel) == Some(
            world.resolution(search, 0),
        ),
{
    lemma_turn(world, search, 0, fuel);
}

/// All or nothing: whatever root the strategies from `at` on resolve to
/// holds every required path, so a root that lacks even one of them is
/// never the outcome.
pub proof fn lemma_outcome_holds_every_path(
    world: World,
    search: SearchModel,
    at: int,
    root: Seq<char>,
)
    requires
        world.resolution(search, at) == Ok::<Seq<char>, PlatformError>(root),
    ensures
        world.holds(search, root),
    decreases search.order.len() - at,
{
    if 0 <= at < search.order.len() && !world.succeeds_at(search, at) {
        lemma_outcome_holds_every_path(world, search, at + 1, root);
    }
}

/// The same of the machine: answered truthfully, the search never finishes
/// with a root that lacks a required path.
pub proof fn lemma_search_rejects_incomplete_root(
    world: World,
    search: SearchModel,
    fuel: nat,
    root: Seq<char>,
)
    requires
        fuel >= steps_left(search, 0),
        !world.holds(search, root),
    ensures
        world.run(search, turn_to(search, 0).0, turn_to(search, 0).1, fuel) != Some(
            Ok::<Seq<char>, PlatformError>(root),
        ),
{
    lemma_search_finds_first_valid_root(world, search, fuel);
    if world.resolution(search, 0) == Ok::<Seq<char>, PlatformError>(root) {
        lemma_outcome_holds_every_path(world, search, 0, root);
    }
}

/// Priority: where the strategy at `first` succeeds and none of those from
/// `at` up to it does, the outcome from `at` on is the root that `first`
/// proposes, whatever the strategies after it would have found.
pub proof fn lemma_first_success_wins(world: World, search: SearchModel, at: int, first: int)
    requires
        0 <= at <= first,
        world.succeeds_at(search, first),
        forall|j: int| at <= j < first ==> !world.succeeds_at(search, j),
    ensures
        world.resolution(search, at) == Ok::<Seq<char>, PlatformError>(
            world.proposal(search, search.order[first])->Some_0,
        ),
    decreases first - at,
{
    if at < first {
        lemma_first_success_wins(world, search, at + 1, first);
    }
}

/// The search fails exactly where no strategy succeeds.
pub proof fn lemma_failure_means_no_success(world: World, search: SearchModel, at: int)
    requires
        0 <= at,
    ensures
        world.resolution(search, at) is Err <==> forall|j: int|
            at <= j < search.order.len() ==> !world.succeeds_at(search, j),
        world.resolution(search, at) is Err ==> world.resolution(search, at) == Err::<
            Seq<char>,
            PlatformError,
        >(PlatformError::ToolsetDoesNotExist),
    decreases search.order.len() - at,
{
    if at < search.order.len() {
        lemma_failure_means_no_success(world, search, at + 1);
        if world.succeeds_at(search, at) {
            assert(!(forall|j: int|
                at <= j < search.order.len() ==> !world.succeeds_at(search, j)));
        }
    }
}

proof fn lemma_check_keeps_to(
    world: World,
    search: SearchModel,
    at: int,
    root: Seq<char>,
    next: int,
    fuel: nat,
    limit: int,
)
    requires
        0 <= at <= limit < search.order.len(),
        world.succeeds_at(search, limit),
        0 <= next < search.required.len(),
        at < limit || world.holds(search, root),
    ensures
        world.keeps_to(
            search,
            PhaseModel::Checking { at, root, next },
            RequestModel::CheckExists(joined(root, search.required[next])),
            fuel,
            limit,
        ),
    decreases search.order.len() - at, search.required.len() - next,
{
    if fuel > 0 {
        let less = (fuel - 1) as nat;
        let path = joined(root, search.required[next]);
        let checking = ResolverModel { search, phase: PhaseModel::Checking { at, root, next } };
        let after = step_model(checking, world.answer(RequestModel::CheckExists(path)));
        if world.present.contains(path) {
            if next + 1 < search.required.len() {
                lemma_check_keeps_to(world, search, at, root, next + 1, less, limit);
            } else {
                assert(after.1 == RequestModel::Finish(Ok::<Seq<char>, PlatformError>(root)));
            }
        } else {
            assert(!world.holds(search, root));
            assert(after == turn_to(search, at + 1));
            lemma_turn_keeps_to(world, search, at + 1, less, limit);
        }
        assert(world.keeps_to(search, after.0, after.1, less, limit));
    }
}

proof fn lemma_propose_keeps_to(
    world: World,
    search: SearchModel,
    at: int,
    root: Option<Seq<char>>,
    fuel: nat,
    limit: int,
)
    requires
        0 <= at <= limit < search.order.len(),
        world.succeeds_at(search, limit),
        root == world.proposal(search, search.order[at]),
    ensures
        world.keeps_to(
            search,
            after_proposal(search, at, root).0,
            after_proposal(search, at, root).1,
            fuel,
            limit,
        ),
    decreases search.order.len() - at, search.required.len() + 1,
{
    match root {
        Some(root) => {
            if search.required.len() > 0 {
                lemma_check_keeps_to(world, search, at, root, 0, fuel, limit);
            }
        },
        None => lemma_turn_keeps_to(world, search, at + 1, fuel, limit),
    }
}

proof fn lemma_turn_keeps_to(world: World, search: SearchModel, at: int, fuel: nat, limit: int)
    requires
        0 <= at <= limit < search.order.len(),
        world.succeeds_at(search, limit),
    ensures
        world.keeps_to(search, turn_to(search, at).0, turn_to(search, at).1, fuel, limit),
    decreases search.order.len() - at, search.required.len() + 2,
{
    let proposed = world.proposal(search, search.order[at]);
    let less = (fuel - 1) as nat;
    match search.order[at] {
        Strategy::ExplicitHint => {
            assert(turn_to(search, at) == after_proposal(search, at, proposed));
            lemma_propose_keeps_to(world, search, at, proposed, fuel, limit);
        },
        Strategy::EnvRoot => {
            assert(after_value(search, at, proposed) == after_proposal(search, at, proposed));
            if fuel > 0 {
                lemma_propose_keeps_to(world, search, at, proposed, less, limit);
            }
        },
        Strategy::SdkBundle => {
            assert(after_value(search, at, world.variable(sdk_home_var())) == after_proposal(
                search,
                at,
                proposed,
            ));
            if fuel > 0 {
                lemma_propose_keeps_to(world, search, at, proposed, less, limit);
            }
        },
        Strategy::HomeDefault => {
            assert(after_value(search, at, world.variable(home_var())) == after_proposal(
                search,
                at,
                proposed,
            ));
            if fuel > 0 {
                lemma_propose_keeps_to(world, search, at, proposed, less, limit);
            }
        },
        Strategy::LatestSubdir => {
            match world.variable(sdk_home_var()) {
                Some(home) => {
                    let listed = ResolverModel { search, phase: PhaseModel::Listing { at } };
                    let request = RequestModel::ListDir(joined(home, versions_dir()));
                    assert(step_model(listed, world.answer(request)) == after_proposal(
                        search,
                        at,
                        proposed,
                    ));
                    if fuel > 1 {
                        lemma_propose_keeps_to(
                            world,
                            search,
                            at,
                            proposed,
                            (fuel - 2) as nat,
                            limit,
                        );
                    }
                    if fuel > 0 {
                        assert(world.keeps_to(search, PhaseModel::Listing { at }, request, less, limit));
                    }
                },
                None => {
                    if fuel > 0 {
                        lemma_propose_keeps_to(world, search, at, proposed, less, limit);
                    }
                },
            }
        },
        Strategy::AskUser => {
            let root = line_content(world.typed);
            let typed = ResolverModel { search, phase: PhaseModel::Typed { at, root } };
            let request = RequestModel::CheckExists(root);
            assert(step_model(typed, world.answer(request)) == after_proposal(
                search,
                at,
                proposed,
            ));
            if fuel > 1 {
                lemma_propose_keeps_to(world, search, at, proposed, (fuel - 2) as nat, limit);
            }
            if fuel > 0 {
                assert(world.keeps_to(search, PhaseModel::Typed { at, root }, request, less, limit));
            }
        },
        Strategy::Download => {
            if fuel > 0 {
                lemma_propose_keeps_to(world, search, at, proposed, less, limit);
            }
        },
    }
}

/// Short circuit: where a strategy succeeds, no strategy after it is ever
/// tried. However long the search is driven, every request that it makes
/// is made on behalf of that strategy or of one before it.
pub proof fn lemma_nothing_is_tried_after_a_success(
    world: World,
    search: SearchModel,
    success: int,
    fuel: nat,
)
    requires
        world.succeeds_at(search, success),
    ensures
        world.keeps_to(search, turn_to(search, 0).0, turn_to(search, 0).1, fuel, success),
{
    lemma_turn_keeps_to(world, search, 0, fuel, success);
}

} // verus!
