//! The command line: from arguments to options.

use vstd::prelude::*;
use crate::text::{opt_text, same_text};

verus! {

/// A text that the program prints instead of doing its work.
#[derive(Debug, Clone, Copy, PartialEq, Eq, Structural)]
pub enum Notice {
    Version,
    Help,
}

/// The first line of the version text, before the version itself.
pub open spec fn version_head() -> Seq<char> {
    "andrust "@
}

/// What follows the version in the version text.
pub open spec fn version_tail() -> Seq<char> {
    "\n        "@
}

/// The help text.
pub open spec fn help_text() -> Seq<char> {
    "andrust is a helper to set up android cross compilation configuration for rust project\n\nUSAGE:\n    andrust [OPTIONS] [OBJECT]\n\nOPTIONS:\n    -r, --root              Set rust project root directory, default path is .\n    -h, --home              Set NDK home directory\n    -v, --version           Prints version information\n    -h, --help              Prints help information\n    "@
}

impl Notice {
    /// The text of the notice, for a program of the given version.
    pub open spec fn text(self, version: Seq<char>) -> Seq<char> {
        match self {
            Notice::Version => version_head() + version + version_tail(),
            Notice::Help => help_text(),
        }
    }

    /// Renders the notice, for a program of the given version.
    pub fn render(&self, version: &str) -> (out: String)
        ensures
            out@ == self.text(version@),
    {
        match self {
            Notice::Version => show_version(version),
            Notice::Help => show_help(),
        }
    }
}

/// The version text of a program of the given version.
pub fn show_version(version: &str) -> (out: String)
    ensures
        out@ == Notice::Version.text(version@),
{
    let mut out = String::from_str("andrust ");
    out.append(version);
    out.append("\n        ");
    out
}

/// The help text.
pub fn show_help() -> (out: String)
    ensures
        out@ == help_text(),
{
    String::from_str(
        "andrust is a helper to set up android cross compilation configuration for rust project\n\nUSAGE:\n    andrust [OPTIONS] [OBJECT]\n\nOPTIONS:\n    -r, --root              Set rust project root directory, default path is .\n    -h, --home              Set NDK home directory\n    -v, --version           Prints version information\n    -h, --help              Prints help information\n    ",
    )
}

/// The options of one run, as mathematics.
pub struct OptionsModel {
    pub proj_root: Option<Seq<char>>,
    pub ndk_root: Option<Seq<char>>,
}

/// The options of one run: the project root and the toolchain root, where
/// the command line names them.
#[derive(Debug)]
pub struct CommandOptions {
    proj_root: Option<String>,
    ndk_root: Option<String>,
}

impl View for CommandOptions {
    type V = OptionsModel;

    closed spec fn view(&self) -> OptionsModel {
        OptionsModel { proj_root: opt_text(self.proj_root), ndk_root: opt_text(self.ndk_root) }
    }
}

impl Default for CommandOptions {
    fn default() -> (out: Self)
        ensures
            out@ == (OptionsModel { proj_root: None, ndk_root: None }),
    {
        CommandOptions { proj_root: None, ndk_root: None }
    }
}

impl CommandOptions {
    /// The project root that the command line names.
    pub fn proj_root(&self) -> (out: Option<&str>)
        ensures
            out is Some <==> self@.proj_root is Some,
            out matches Some(root) ==> self@.proj_root == Some(root@),
    {
        match &self.proj_root {
            Some(root) => Some(root.as_str()),
            None => None,
        }
    }

    /// The toolchain root that the command line names.
    pub fn ndk_root(&self) -> (out: Option<&str>)
        ensures
            out is Some <==> self@.ndk_root is Some,
            out matches Some(root) ==> self@.ndk_root == Some(root@),
    {
        match &self.ndk_root {
            Some(root) => Some(root.as_str()),
            None => None,
        }
    }
}

/// What the command line asks for, as mathematics.
pub enum StateModel {
    Options(OptionsModel),
    ExitWithPrint(Notice),
}

/// What the command line asks for: a run with options, or a notice to print.
#[derive(Debug)]
pub enum CommandState {
    Options(CommandOptions),
    ExitWithPrint(Notice),
}

impl View for CommandState {
    type V = StateModel;

    open spec fn view(&self) -> StateModel {
        match self {
            CommandState::Options(options) => StateModel::Options(options@),
            CommandState::ExitWithPrint(notice) => StateModel::ExitWithPrint(*notice),
        }
    }
}

/// An option with its object.
pub type Entry = (Seq<char>, Seq<char>);

/// The options and objects of a table, as characters.
pub open spec fn entries_of(table: Seq<(String, String)>) -> Seq<Entry> {
    Seq::new(table.len(), |i: int| (table[i].0@, table[i].1@))
}

/// The characters of each argument.
pub open spec fn args_of(args: Seq<String>) -> Seq<Seq<char>> {
    Seq::new(args.len(), |i: int| args[i]@)
}

/// An argument opens an option where it starts with a dash.
pub open spec fn opens_option(arg: Seq<char>) -> bool {
    arg.len() > 0 && arg[0] == '-'
}

/// No option occurs twice in the table.
pub open spec fn distinct_options(table: Seq<Entry>) -> bool {
    forall|i: int, j: int|
        0 <= i < j < table.len() ==> (#[trigger] table[i]).0 != (#[trigger] table[j]).0
}

/// The table holds the option.
pub open spec fn has_option(table: Seq<Entry>, option: Seq<char>) -> bool {
    exists|i: int| 0 <= i < table.len() && (#[trigger] table[i]).0 == option
}

/// The table with `object` recorded for `option`: in place of the object
/// that the option had, or at the end where the table did not hold it.
pub open spec fn recorded(table: Seq<Entry>, option: Seq<char>, object: Seq<char>) -> Seq<Entry> {
    if has_option(table, option) {
        Seq::new(
            table.len(),
            |i: int|
                if table[i].0 == option {
                    (option, object)
                } else {
                    table[i]
                },
        )
    } else {
        table.push((option, object))
    }
}

/// The state of a walk over the arguments: the table so far, and the option
/// that still waits for its object.
pub struct Scan {
    pub table: Seq<Entry>,
    pub pending: Option<Seq<char>>,
}

/// Walks the arguments from the first to the last. An argument that starts
/// with a dash opens an option, unless an option is waiting; the argument
/// after an option is its object, whatever it looks like; any other
/// argument is passed over.
pub open spec fn scanned(args: Seq<Seq<char>>) -> Scan
    decreases args.len(),
{
    if args.len() == 0 {
        Scan { table: Seq::empty(), pending: None }
    } else {
        let before = scanned(args.drop_last());
        let arg = args.last();
        match before.pending {
            Some(option) => Scan { table: recorded(before.table, option, arg), pending: None },
            None => if opens_option(arg) {
                Scan { table: before.table, pending: Some(arg) }
            } else {
                before
            },
        }
    }
}

/// The table that the arguments spell: an option left waiting at the end
/// has the empty object.
pub open spec fn parsed(args: Seq<Seq<char>>) -> Seq<Entry> {
    let scan = scanned(args);
    match scan.pending {
        Some(option) => recorded(scan.table, option, Seq::empty()),
        None => scan.table,
    }
}

/// The notice that an option asks for.
pub open spec fn notice_of(option: Seq<char>) -> Option<Notice> {
    if option == "-v"@ || option == "--version"@ {
        Some(Notice::Version)
    } else if option == "-h"@ || option == "--help"@ {
        Some(Notice::Help)
    } else {
        None
    }
}

/// The option names the project root.
pub open spec fn names_proj_root(option: Seq<char>) -> bool {
    option == "-r"@ || option == "--root"@
}

/// The option names the toolchain root.
pub open spec fn names_ndk_root(option: Seq<char>) -> bool {
    option == "-n"@ || option == "--ndk"@
}

/// The notice of the first entry of the table that asks for one.
pub open spec fn first_notice(table: Seq<Entry>) -> Option<Notice>
    decreases table.len(),
{
    if table.len() == 0 {
        None
    } else {
        match first_notice(table.drop_last()) {
            Some(notice) => Some(notice),
            None => notice_of(table.last().0),
        }
    }
}

/// The object of the last entry of the table that names the project root.
pub open spec fn last_proj_root(table: Seq<Entry>) -> Option<Seq<char>>
    decreases table.len(),
{
    if table.len() == 0 {
        None
    } else if names_proj_root(table.last().0) {
        Some(table.last().1)
    } else {
        last_proj_root(table.drop_last())
    }
}

/// The object of the last entry of the table that names the toolchain root.
pub open spec fn last_ndk_root(table: Seq<Entry>) -> Option<Seq<char>>
    decreases table.len(),
{
    if table.len() == 0 {
        None
    } else if names_ndk_root(table.last().0) {
        Some(table.last().1)
    } else {
        last_ndk_root(table.drop_last())
    }
}

/// What a table asks for: the first notice in it, or else a run with the
/// roots that it names last.
pub open spec fn state_of(table: Seq<Entry>) -> StateModel {
    match first_notice(table) {
        Some(notice) => StateModel::ExitWithPrint(notice),
        None => StateModel::Options(
            OptionsModel { proj_root: last_proj_root(table), ndk_root: last_ndk_root(table) },
        ),
    }
}

fn opens(arg: &str) -> (out: bool)
    ensures
        out == opens_option(arg@),
{
    !arg.is_empty() && arg.get_char(0) == '-'
}

fn record(table: &mut Vec<(String, String)>, option: String, object: String)
    ensures
        entries_of(final(table)@) == recorded(entries_of(old(table)@), option@, object@),
{
    let ghost before = entries_of(table@);
    let mut found = false;
    let mut i: usize = 0;
    while i < table.len()
        invariant
            i <= table.len(),
            table.len() == before.len(),
            found <==> has_option(before.take(i as int), option@),
            forall|k: int|
                0 <= k < i ==> #[trigger] entries_of(table@)[k] == if before[k].0 == option@ {
                    (option@, object@)
                } else {
                    before[k]
                },
            forall|k: int| i <= k < table.len() ==> #[trigger] entries_of(table@)[k] == before[k],
        decreases table.len() - i,
    {
        let hit = same_text(table[i].0.as_str(), option.as_str());
        proof {
            let shorter = before.take(i as int);
            let longer = before.take(i + 1);
            assert(entries_of(table@)[i as int] == before[i as int]);
            assert(forall|k: int| 0 <= k < i ==> shorter[k] == longer[k]);
            if hit {
                assert(longer[i as int].0 == option@);
            } else if has_option(longer, option@) {
                let k = choose|k: int| 0 <= k < longer.len() && (#[trigger] longer[k]).0 == option@;
                assert(shorter[k].0 == option@);
            } else if has_option(shorter, option@) {
                let k = choose|k: int|
                    0 <= k < shorter.len() && (#[trigger] shorter[k]).0 == option@;
                assert(longer[k].0 == option@);
            }
        }
        if hit {
            let ghost held = table@;
            table.set(i, (option.clone(), object.clone()));
            found = true;
            assert forall|k: int| 0 <= k < table.len() && k != i implies #[trigger] entries_of(
                table@,
            )[k] == entries_of(held)[k] by {}
        }
        i = i + 1;
    }
    assert(before.take(i as int) =~= before);
    if found {
        assert(entries_of(table@) =~= recorded(before, option@, object@));
    } else {
        let ghost held = table@;
        table.push((option, object));
        assert forall|k: int| 0 <= k < before.len() implies #[trigger] entries_of(table@)[k]
            == before[k] by {
            assert(entries_of(table@)[k] == entries_of(held)[k]);
            if before[k].0 == option@ {
                assert(has_option(before, option@));
            }
        }
        assert(entries_of(table@) =~= recorded(before, option@, object@));
    }
}

impl CommandState {
    /// Reads the arguments of the program and says what they ask for.
    pub fn new(args: Vec<String>) -> (out: Self)
        ensures
            out@ == state_of(parsed(args_of(args@))),
    {
        let table = CommandState::parse_args(&args);
        CommandState::from(table)
    }

    /// Says what a table of options asks for.
    pub fn from(command_map: Vec<(String, String)>) -> (out: Self)
        ensures
            out@ == state_of(entries_of(command_map@)),
    {
        let mut proj_root: Option<String> = None;
        let mut ndk_home: Option<String> = None;
        let ghost table = entries_of(command_map@);
        let mut i: usize = 0;
        while i < command_map.len()
            invariant
                i <= command_map.len(),
                table == entries_of(command_map@),
                first_notice(table.take(i as int)) is None,
                opt_text(proj_root) == last_proj_root(table.take(i as int)),
                opt_text(ndk_home) == last_ndk_root(table.take(i as int)),
            decreases command_map.len() - i,
        {
            let opt = command_map[i].0.as_str();
            proof {
                let longer = table.take(i + 1);
                assert(longer.drop_last() =~= table.take(i as int));
                assert(longer.last() == table[i as int]);
                assert(table[i as int].0 == opt@);
                lemma_flags_differ();
            }
            if same_text(opt, "-r") || same_text(opt, "--root") {
                proj_root = Some(command_map[i].1.clone());
            } else if same_text(opt, "-n") || same_text(opt, "--ndk") {
                ndk_home = Some(command_map[i].1.clone());
            } else if same_text(opt, "-v") || same_text(opt, "--version") {
                proof {
                    lemma_notice_stays(table, i + 1);
                }
                return CommandState::ExitWithPrint(Notice::Version);
            } else if same_text(opt, "-h") || same_text(opt, "--help") {
                proof {
                    lemma_notice_stays(table, i + 1);
                }
                return CommandState::ExitWithPrint(Notice::Help);
            }
            i = i + 1;
        }
        assert(table.take(i as int) =~= table);
        CommandState::Options(CommandOptions { proj_root, ndk_root: ndk_home })
    }

    /// Spells the arguments out as a table of options and objects.
    pub fn parse_args(args: &Vec<String>) -> (out: Vec<(String, String)>)
        ensures
            entries_of(out@) == parsed(args_of(args@)),
            distinct_options(entries_of(out@)),
    {
        proof {
            lemma_parsed_options_are_distinct(args_of(args@));
        }
        let mut commands: Vec<(String, String)> = Vec::new();
        let mut opt: Option<String> = None;
        let ghost all = args_of(args@);
        let mut i: usize = 0;
        assert(entries_of(commands@) =~= Seq::<Entry>::empty());
        while i < args.len()
            invariant
                i <= args.len(),
                all == args_of(args@),
                entries_of(commands@) == scanned(all.take(i as int)).table,
                opt_text(opt) == scanned(all.take(i as int)).pending,
            decreases args.len() - i,
        {
            proof {
                let longer = all.take(i + 1);
                assert(longer.drop_last() =~= all.take(i as int));
                assert(longer.last() == args@[i as int]@);
            }
            match opt {
                Some(option) => {
                    record(&mut commands, option, args[i].clone());
                    opt = None;
                },
                None => {
                    if opens(args[i].as_str()) {
                        opt = Some(args[i].clone());
                    }
                },
            }
            i = i + 1;
        }
        assert(all.take(i as int) =~= all);
        match opt {
            Some(option) => {
                record(&mut commands, option, String::new());
            },
            None => {},
        }
        commands
    }
}

/// The eight flags are eight different texts.
proof fn lemma_flags_differ()
    ensures
        forall|option: Seq<char>| names_proj_root(option) ==> notice_of(option) is None,
        forall|option: Seq<char>| names_ndk_root(option) ==> notice_of(option) is None,
        forall|option: Seq<char>| !(names_proj_root(option) && names_ndk_root(option)),
{
    reveal_strlit("-r");
    reveal_strlit("--root");
    reveal_strlit("-n");
    reveal_strlit("--ndk");
    reveal_strlit("-v");
    reveal_strlit("--version");
    reveal_strlit("-h");
    reveal_strlit("--help");
    assert forall|option: Seq<char>| names_proj_root(option) implies notice_of(option) is None by {
        assert(option.len() >= 2 && option[1] == 'r' || option.len() >= 3 && option[2] == 'r');
    }
    assert forall|option: Seq<char>| names_ndk_root(option) implies notice_of(option) is None by {
        assert(option.len() >= 2 && option[1] == 'n' || option.len() >= 3 && option[2] == 'n');
    }
    assert forall|option: Seq<char>| !(names_proj_root(option) && names_ndk_root(option)) by {
        if names_proj_root(option) {
            assert(option.len() >= 2 && option[1] == 'r' || option.len() >= 3 && option[2]
                == 'r');
        }
    }
}

/// A notice found among the first `n` entries is the notice of the table.
proof fn lemma_notice_stays(table: Seq<Entry>, n: int)
    requires
        0 <= n <= table.len(),
        first_notice(table.take(n)) is Some,
    ensures
        first_notice(table) == first_notice(table.take(n)),
    decreases table.len() - n,
{
    if n < table.len() {
        let longer = table.take(n + 1);
        assert(longer.drop_last() =~= table.take(n));
        lemma_notice_stays(table, n + 1);
    } else {
        assert(table.take(n) =~= table);
    }
}

/// Recording an object keeps every option of the table single.
pub proof fn lemma_recording_keeps_options_distinct(
    table: Seq<Entry>,
    option: Seq<char>,
    object: Seq<char>,
)
    requires
        distinct_options(table),
    ensures
        distinct_options(recorded(table, option, object)),
        has_option(recorded(table, option, object), option),
{
    let after = recorded(table, option, object);
    if has_option(table, option) {
        let k = choose|k: int| 0 <= k < table.len() && (#[trigger] table[k]).0 == option;
        assert(after[k].0 == option);
        assert forall|i: int, j: int| 0 <= i < j < after.len() implies (#[trigger] after[i]).0 != (
        #[trigger] after[j]).0 by {
            assert(after[i].0 == table[i].0);
            assert(after[j].0 == table[j].0);
        }
    } else {
        assert(after[table.len() as int].0 == option);
        assert forall|i: int, j: int| 0 <= i < j < after.len() implies (#[trigger] after[i]).0 != (
        #[trigger] after[j]).0 by {
            assert(after[i] == table[i]);
            if j < table.len() {
                assert(after[j] == table[j]);
            }
        }
    }
}

/// Whatever the arguments, the table that they spell holds no option twice.
pub proof fn lemma_parsed_options_are_distinct(args: Seq<Seq<char>>)
    ensures
        distinct_options(scanned(args).table),
        distinct_options(parsed(args)),
    decreases args.len(),
{
    if args.len() > 0 {
        lemma_parsed_options_are_distinct(args.drop_last());
        let before = scanned(args.drop_last());
        if let Some(option) = before.pending {
            lemma_recording_keeps_options_distinct(before.table, option, args.last());
        }
    }
    if let Some(option) = scanned(args).pending {
        lemma_recording_keeps_options_distinct(scanned(args).table, option, Seq::empty());
    }
}

} // verus!
