//! The command line.
use crate::snapshot::writer::SnapshotPayload;
use crate::util::error::QuickResumeError;
use crate::util::text::same_text;
use vstd::prelude::*;

verus! {

/// What the program is asked to do.
#[derive(Debug)]
pub enum Command {
    /// Report on a running process.
    Profile { target: String },
    /// Write a snapshot of a running process to `out`.
    Snapshot { target: String, out: String },
    /// Restore the snapshot in `out` into a new instance of `exe`.
    Restore { exe: Option<String>, out: String },
    DisableAslr { path: String },
    RestoreAslr { path: String },
    /// Show the header of the snapshot in `out`.
    Peek { out: String },
}

/// A command with its texts as sequences.
pub enum CommandView {
    Profile { target: Seq<char> },
    Snapshot { target: Seq<char>, out: Seq<char> },
    Restore { exe: Option<Seq<char>>, out: Seq<char> },
    DisableAslr { path: Seq<char> },
    RestoreAslr { path: Seq<char> },
    Peek { out: Seq<char> },
}

/// The view of a text that may be absent.
pub open spec fn optional_text(s: Option<String>) -> Option<Seq<char>> {
    match s {
        Some(text) => Some(text@),
        None => None,
    }
}

impl View for Command {
    type V = CommandView;

    open spec fn view(&self) -> CommandView {
        match *self {
            Command::Profile { target } => CommandView::Profile { target: target@ },
            Command::Snapshot { target, out } => CommandView::Snapshot {
                target: target@,
                out: out@,
            },
            Command::Restore { exe, out } => CommandView::Restore {
                exe: optional_text(exe),
                out: out@,
            },
            Command::DisableAslr { path } => CommandView::DisableAslr { path: path@ },
            Command::RestoreAslr { path } => CommandView::RestoreAslr { path: path@ },
            Command::Peek { out } => CommandView::Peek { out: out@ },
        }
    }
}

/// Why a command line asks for nothing, which decides on the help to show.
#[derive(Debug, PartialEq, Eq, Clone, Copy, Structural)]
pub enum UsageError {
    /// There is no command, or none of that name.
    NoCommand,
    DisableAslrWithoutPath,
    RestoreAslrWithoutPath,
}

/// The value of a flag: the argument behind its first occurrence. A flag at the
/// very end has no value.
pub open spec fn value_of(args: Seq<Seq<char>>, flag: Seq<char>) -> Option<Seq<char>>
    decreases args.len(),
{
    if args.len() < 2 {
        None
    } else if args[0] == flag {
        Some(args[1])
    } else {
        value_of(args.drop_first(), flag)
    }
}

/// The value of a flag, or `default` where it has none.
pub open spec fn value_or(
    args: Seq<Seq<char>>,
    flag: Seq<char>,
    default: Seq<char>,
) -> Seq<char> {
    match value_of(args, flag) {
        Some(value) => value,
        None => default,
    }
}

/// The executable that is looked for by default.
pub open spec fn default_target() -> Seq<char> {
    "Mini Metro.exe"@
}

/// The snapshot file used by default.
pub open spec fn default_snapshot() -> Seq<char> {
    "snapshot/mini_metro.qrs"@
}

/// What a command line asks for. `args[0]` is the program's own name.
pub open spec fn command_of(args: Seq<Seq<char>>) -> Result<CommandView, UsageError> {
    let target = value_or(args, "--target"@, default_target());
    let out = value_or(args, "--out"@, default_snapshot());
    if args.len() < 2 {
        Err(UsageError::NoCommand)
    } else if args[1] == "--profile"@ {
        Ok(CommandView::Profile { target })
    } else if args[1] == "--snapshot"@ {
        Ok(CommandView::Snapshot { target, out })
    } else if args[1] == "--restore"@ {
        Ok(CommandView::Restore { exe: value_of(args, "--exe"@), out })
    } else if args[1] == "--disable-aslr"@ {
        if args.len() > 2 {
            Ok(CommandView::DisableAslr { path: args[2] })
        } else {
            Err(UsageError::DisableAslrWithoutPath)
        }
    } else if args[1] == "--restore-aslr"@ {
        if args.len() > 2 {
            Ok(CommandView::RestoreAslr { path: args[2] })
        } else {
            Err(UsageError::RestoreAslrWithoutPath)
        }
    } else if args[1] == "--peek"@ {
        Ok(CommandView::Peek { out })
    } else {
        Err(UsageError::NoCommand)
    }
}

/// The arguments as texts.
pub open spec fn texts(args: Seq<String>) -> Seq<Seq<char>> {
    args.map_values(|s: String| s@)
}

/// Looks up the value of a flag.
pub fn flag_value(args: &[String], flag: &str) -> (r: Option<String>)
    ensures
        optional_text(r) == value_of(texts(args@), flag@),
{
    let ghost all = texts(args@);
    assert(all.skip(0) =~= all);
    let mut i: usize = 0;
    while i < args.len() && i + 1 < args.len()
        invariant
            all == texts(args@),
            i <= args.len(),
            value_of(all, flag@) == value_of(all.skip(i as int), flag@),
        decreases args@.len() - i,
    {
        let ghost rest = all.skip(i as int);
        assert(rest[0] == args@[i as int]@ && rest[1] == args@[i + 1]@);
        assert(rest.drop_first() =~= all.skip(i + 1));
        if same_text(args[i].as_str(), flag) {
            return Some(args[i + 1].clone());
        }
        i = i + 1;
    }
    None
}

/// The snapshot file to use.
pub fn snapshot_path(args: &[String]) -> (path: String)
    ensures
        path@ == value_or(texts(args@), "--out"@, default_snapshot()),
{
    match flag_value(args, "--out") {
        Some(path) => path,
        None => "snapshot/mini_metro.qrs".to_string(),
    }
}

/// The executable to look for.
pub fn target_name(args: &[String]) -> (name: String)
    ensures
        name@ == value_or(texts(args@), "--target"@, default_target()),
{
    match flag_value(args, "--target") {
        Some(name) => name,
        None => "Mini Metro.exe".to_string(),
    }
}

/// Reads the command line. `args[0]` is the program's own name.
pub fn parse_command(args: &[String]) -> (r: Result<Command, UsageError>)
    ensures
        match r {
            Ok(command) => command_of(texts(args@)) == Ok::<CommandView, UsageError>(command@),
            Err(e) => command_of(texts(args@)) == Err::<CommandView, UsageError>(e),
        },
{
    if args.len() < 2 {
        return Err(UsageError::NoCommand);
    }
    assert(texts(args@)[1] == args@[1]@);
    let name = args[1].as_str();
    if same_text(name, "--profile") {
        Ok(Command::Profile { target: target_name(args) })
    } else if same_text(name, "--snapshot") {
        Ok(Command::Snapshot { target: target_name(args), out: snapshot_path(args) })
    } else if same_text(name, "--restore") {
        Ok(Command::Restore { exe: flag_value(args, "--exe"), out: snapshot_path(args) })
    } else if same_text(name, "--disable-aslr") {
        if args.len() > 2 {
            assert(texts(args@)[2] == args@[2]@);
            Ok(Command::DisableAslr { path: args[2].clone() })
        } else {
            Err(UsageError::DisableAslrWithoutPath)
        }
    } else if same_text(name, "--restore-aslr") {
        if args.len() > 2 {
            assert(texts(args@)[2] == args@[2]@);
            Ok(Command::RestoreAslr { path: args[2].clone() })
        } else {
            Err(UsageError::RestoreAslrWithoutPath)
        }
    } else if same_text(name, "--peek") {
        Ok(Command::Peek { out: snapshot_path(args) })
    } else {
        Err(UsageError::NoCommand)
    }
}

/// The executable to launch for a restore: the one asked for, else the one that
/// the snapshot names.
pub fn restore_executable(exe: Option<String>, payload: &SnapshotPayload) -> (path: String)
    ensures
        path@ == match exe {
            Some(asked) => asked@,
            None => payload@.process_name,
        },
{
    match exe {
        Some(asked) => asked,
        None => payload.process_name.clone(),
    }
}

/// The text of the error for an executable that does not exist.
pub open spec fn missing_executable_text(exe: Seq<char>) -> Seq<char> {
    "Executable not found: "@ + exe + "\nProvide --exe <full path> to the game."@
}

/// Refuses an executable that does not exist.
pub fn check_executable(exe: &str, exists: bool) -> (r: Result<(), QuickResumeError>)
    ensures
        exists ==> r is Ok,
        !exists ==> (r matches Err(e) && e.is_other(missing_executable_text(exe@))),
{
    if !exists {
        let mut text = "Executable not found: ".to_string();
        text.append(exe);
        text.append("\nProvide --exe <full path> to the game.");
        return Err(QuickResumeError::Other(text));
    }
    Ok(())
}

/// The value of a flag stands behind the first argument, other than the last,
/// that is the flag; it has none exactly if there is no such argument.
pub proof fn flag_value_follows_its_first_occurrence(
    args: Seq<Seq<char>>,
    flag: Seq<char>,
    i: int,
)
    requires
        0 <= i,
        i + 1 < args.len() ==> args[i] == flag,
        forall|j: int| 0 <= j < i && j + 1 < args.len() ==> #[trigger] args[j] != flag,
    ensures
        value_of(args, flag) == if i + 1 < args.len() {
            Some(args[i + 1])
        } else {
            None
        },
    decreases args.len(),
{
    if args.len() >= 2 && args[0] != flag {
        let rest = args.drop_first();
        assert forall|j: int| 0 <= j < i - 1 && j + 1 < rest.len() implies #[trigger] rest[j]
            != flag by {
            assert(rest[j] == args[j + 1]);
        }
        flag_value_follows_its_first_occurrence(rest, flag, i - 1);
    }
}

/// A command takes exactly its own arguments: the target and the snapshot file
/// from their flags, or the defaults where a flag has no value, and the path of
/// the randomisation commands from behind the command. Anything else is no
/// command.
pub proof fn commands_take_their_arguments(args: Seq<Seq<char>>)
    ensures
        ({
            let target = match value_of(args, "--target"@) {
                Some(value) => value,
                None => "Mini Metro.exe"@,
            };
            let out = match value_of(args, "--out"@) {
                Some(value) => value,
                None => "snapshot/mini_metro.qrs"@,
            };
            let exe = value_of(args, "--exe"@);
            let got = command_of(args);
            let name = args[1];
            let enough = args.len() >= 2;
            &&& !enough ==> got == Err::<CommandView, UsageError>(UsageError::NoCommand)
            &&& enough && name == "--profile"@ ==> got == Ok::<CommandView, UsageError>(
                CommandView::Profile { target },
            )
            &&& enough && name == "--snapshot"@ ==> got == Ok::<CommandView, UsageError>(
                CommandView::Snapshot { target, out },
            )
            &&& enough && name == "--restore"@ ==> got == Ok::<CommandView, UsageError>(
                CommandView::Restore { exe, out },
            )
            &&& enough && name == "--peek"@ ==> got == Ok::<CommandView, UsageError>(
                CommandView::Peek { out },
            )
            &&& args.len() > 2 && name == "--disable-aslr"@ ==> got == Ok::<
                CommandView,
                UsageError,
            >(CommandView::DisableAslr { path: args[2] })
            &&& args.len() == 2 && name == "--disable-aslr"@ ==> got == Err::<
                CommandView,
                UsageError,
            >(UsageError::DisableAslrWithoutPath)
            &&& args.len() > 2 && name == "--restore-aslr"@ ==> got == Ok::<
                CommandView,
                UsageError,
            >(CommandView::RestoreAslr { path: args[2] })
            &&& args.len() == 2 && name == "--restore-aslr"@ ==> got == Err::<
                CommandView,
                UsageError,
            >(UsageError::RestoreAslrWithoutPath)
            &&& enough && name != "--profile"@ && name != "--snapshot"@ && name != "--restore"@
                && name != "--peek"@ && name != "--disable-aslr"@ && name != "--restore-aslr"@
                ==> got == Err::<CommandView, UsageError>(UsageError::NoCommand)
        }),
{
    reveal_strlit("--profile");
    reveal_strlit("--snapshot");
    reveal_strlit("--restore");
    reveal_strlit("--peek");
    reveal_strlit("--disable-aslr");
    reveal_strlit("--restore-aslr");
    let (profile, snapshot, restore) = ("--profile"@, "--snapshot"@, "--restore"@);
    let (peek, disable, back) = ("--peek"@, "--disable-aslr"@, "--restore-aslr"@);
    assert(profile.len() == 9 && snapshot.len() == 10 && restore.len() == 9);
    assert(peek.len() == 6 && disable.len() == 14 && back.len() == 14);
    assert(profile[2] == 'p' && restore[2] == 'r' && disable[2] == 'd' && back[2] == 'r');
    assert(profile != restore && disable != back);
}

/// A command is seen with all its texts, and an argument list with all its
/// arguments in order.
pub proof fn commands_are_seen_whole(command: Command, args: Seq<String>)
    ensures
        match command {
            Command::Profile { target } => command@ == (CommandView::Profile { target: target@ }),
            Command::Snapshot { target, out } => command@ == (CommandView::Snapshot {
                target: target@,
                out: out@,
            }),
            Command::Restore { exe, out } => command@ matches CommandView::Restore {
                exe: e,
                out: o,
            } && o == out@ && (match exe {
                Some(path) => e == Some(path@),
                None => e is None,
            }),
            Command::DisableAslr { path } => command@ == (CommandView::DisableAslr {
                path: path@,
            }),
            Command::RestoreAslr { path } => command@ == (CommandView::RestoreAslr {
                path: path@,
            }),
            Command::Peek { out } => command@ == (CommandView::Peek { out: out@ }),
        },
        texts(args).len() == args.len(),
        forall|i: int| 0 <= i < args.len() ==> #[trigger] texts(args)[i] == args[i]@,
{
}

/// The error for an executable that does not exist names it and tells how to
/// name another.
pub proof fn missing_executable_is_named(exe: Seq<char>)
    ensures
        missing_executable_text(exe) == "Executable not found: "@ + exe
            + "\nProvide --exe <full path> to the game."@,
{
}

} // verus!
