//! Deciding what to run when the user opens model files in a slicer.
//!
//! Opening takes one question to the host (is the package installed, does the
//! executable exist) and then one launch. `plan_open` decides the question and the
//! launch that follows, `confirm_launch` turns the host's answer into the launch or
//! the error; running the commands is left to the caller.
use vstd::prelude::*;
use vstd::string::*;
use crate::command::{parse_command_string, parsed_command, strs};
use crate::slicer::{Slicer, get_flatpak_slicer_package, package_of, lemma_builtin_has_package};

verus! {

/// Why a slicer could not be opened.
#[derive(Clone, Debug, PartialEq, Eq)]
pub enum DispatchError {
    /// No model file was given.
    NoPathsProvided,
    /// The requested built-in slicer is not installed.
    NotInstalled,
    /// `Custom` was requested but no command is configured.
    CustomPathNotSet,
    /// The executable of the custom command, as resolved, does not exist.
    ExecutableNotFound(String),
    /// The operating system refused to start the process.
    SpawnFailure(String),
}

/// A program to start, with its arguments in order.
#[derive(Clone, Debug, PartialEq, Eq)]
pub struct LaunchCommand {
    pub program: String,
    pub args: Vec<String>,
}

impl View for LaunchCommand {
    type V = (Seq<char>, Seq<Seq<char>>);

    open spec fn view(&self) -> (Seq<char>, Seq<Seq<char>>) {
        (self.program@, strs(self.args@))
    }
}

/// A question to the host that decides whether a launch may go ahead.
#[derive(Clone, Debug, PartialEq, Eq)]
pub enum HostCheck {
    /// Run the command; the answer is yes when it exits with success.
    CommandSucceeds(LaunchCommand),
    /// The answer is yes when the path exists on the file system.
    PathExists(String),
}

/// What to launch once the host has answered `check`.
#[derive(Debug, PartialEq, Eq)]
pub struct PendingLaunch {
    pub check: HostCheck,
    pub launch: Result<LaunchCommand, DispatchError>,
}

/// How to learn whether a slicer is installed.
#[derive(Clone, Debug, PartialEq, Eq)]
pub enum Probe {
    /// The answer is known without asking.
    Known(bool),
    /// Installed exactly when this command exits with success.
    Ask(LaunchCommand),
}

pub open spec fn flatpak() -> Seq<char> {
    "flatpak"@
}

/// `flatpak info <package>`: succeeds exactly when the package is installed.
pub open spec fn flatpak_info_args(package: Seq<char>) -> Seq<Seq<char>> {
    seq!["info"@, package]
}

/// `flatpak run --file-forwarding <package> @@ <paths> @@`: starts the package's
/// application with the files handed through its sandbox.
pub open spec fn flatpak_run_args(package: Seq<char>, paths: Seq<Seq<char>>) -> Seq<Seq<char>> {
    seq!["run"@, "--file-forwarding"@, package, "@@"@] + paths + seq!["@@"@]
}

/// The launch of `program` with `args` followed by the files, or `NoPathsProvided`.
pub open spec fn is_launch_of(
    program: Seq<char>,
    args: Seq<Seq<char>>,
    paths: Seq<Seq<char>>,
    r: Result<LaunchCommand, DispatchError>,
) -> bool {
    if paths.len() == 0 {
        r matches Err(DispatchError::NoPathsProvided)
    } else {
        r matches Ok(c) && c@ == (program, args + paths)
    }
}

/// The plan for a built-in slicer: ask whether its package is installed, then run it
/// through Flatpak on the files.
pub open spec fn builtin_plan(package: Seq<char>, paths: Seq<Seq<char>>, p: PendingLaunch) -> bool {
    &&& p.check matches HostCheck::CommandSucceeds(c) && c@ == (flatpak(), flatpak_info_args(package))
    &&& p.launch matches Ok(l) && l@ == (flatpak(), flatpak_run_args(package, paths))
}

/// The plan for a custom command: ask whether its executable exists, then run it with
/// its arguments and the files.
pub open spec fn custom_plan(command: Seq<char>, paths: Seq<Seq<char>>, p: PendingLaunch) -> bool {
    &&& p.check matches HostCheck::PathExists(e) && e@ == parsed_command(command).0
    &&& is_launch_of(parsed_command(command).0, parsed_command(command).1, paths, p.launch)
}

fn push_all(dst: &mut Vec<String>, src: &Vec<String>)
    ensures
        strs(final(dst)@) == strs(old(dst)@) + strs(src@),
{
    let ghost start = strs(dst@);
    let mut i: usize = 0;
    while i < src.len()
        invariant
            0 <= i <= src@.len(),
            strs(dst@) == start + strs(src@).take(i as int),
        decreases src@.len() - i,
    {
        let ghost before = dst@;
        dst.push(src[i].clone());
        proof {
            assert(strs(dst@) =~= strs(before).push(src@[i as int]@));
            assert(strs(src@).take(i + 1) =~= strs(src@).take(i as int).push(src@[i as int]@));
        }
        i += 1;
    }
    assert(strs(src@).take(src@.len() as int) =~= strs(src@));
}

/// The command that starts `program` with `args` and then the model files `paths`;
/// `NoPathsProvided` when there are no files.
pub fn launch_command(program: &str, args: &Vec<String>, paths: &Vec<String>) -> (r: Result<
    LaunchCommand,
    DispatchError,
>)
    ensures
        is_launch_of(program@, strs(args@), strs(paths@), r),
{
    if paths.len() == 0 {
        return Err(DispatchError::NoPathsProvided);
    }
    let mut all: Vec<String> = Vec::new();
    assert(strs(all@) =~= Seq::<Seq<char>>::empty());
    push_all(&mut all, args);
    push_all(&mut all, paths);
    assert(strs(all@) =~= strs(args@) + strs(paths@));
    Ok(LaunchCommand { program: String::from_str(program), args: all })
}

/// How to learn whether `slicer` is installed: `Custom` always is (its executable is
/// checked when it is opened); a built-in one is when `flatpak info` on its package
/// succeeds.
pub fn installation_probe(slicer: &Slicer) -> (r: Probe)
    ensures
        slicer.is_custom() ==> r == Probe::Known(true),
        !slicer.is_custom() ==> (r matches Probe::Ask(c) && c@ == (
            flatpak(),
            flatpak_info_args(package_of(*slicer)),
        )),
{
    if let Slicer::Custom = slicer {
        return Probe::Known(true);
    }
    let package = get_flatpak_slicer_package(slicer);
    proof {
        lemma_builtin_has_package(*slicer);
    }
    if package.as_str().unicode_len() == 0 {
        return Probe::Known(false);
    }
    let mut args: Vec<String> = Vec::new();
    args.push(String::from_str("info"));
    args.push(package);
    assert(strs(args@) =~= flatpak_info_args(package_of(*slicer)));
    Probe::Ask(LaunchCommand { program: String::from_str("flatpak"), args })
}

/// Decides how to open `paths` in `slicer`.
///
/// A built-in slicer needs files (`NoPathsProvided` otherwise, before the host is
/// asked anything), then the host's word that its package is installed, and is run
/// through `flatpak run --file-forwarding`. `Custom` needs a configured command
/// (`CustomPathNotSet` when `custom_command` is empty), which is parsed into an
/// executable and arguments; the executable must exist, and the launch runs it with
/// its arguments followed by the files.
pub fn plan_open(slicer: &Slicer, paths: &Vec<String>, custom_command: &str) -> (r: Result<
    PendingLaunch,
    DispatchError,
>)
    ensures
        !slicer.is_custom() && paths@.len() == 0 ==> r matches Err(
            DispatchError::NoPathsProvided,
        ),
        !slicer.is_custom() && paths@.len() > 0 ==> (r matches Ok(p) && builtin_plan(
            package_of(*slicer),
            strs(paths@),
            p,
        )),
        slicer.is_custom() && custom_command@.len() == 0 ==> r matches Err(
            DispatchError::CustomPathNotSet,
        ),
        slicer.is_custom() && custom_command@.len() > 0 ==> (r matches Ok(p) && custom_plan(
            custom_command@,
            strs(paths@),
            p,
        )),
{
    match slicer {
        Slicer::Custom => {
            if custom_command.unicode_len() == 0 {
                return Err(DispatchError::CustomPathNotSet);
            }
            let (executable, args) = parse_command_string(custom_command);
            let launch = launch_command(executable.as_str(), &args, paths);
            Ok(PendingLaunch { check: HostCheck::PathExists(executable), launch })
        },
        _ => {
            if paths.len() == 0 {
                return Err(DispatchError::NoPathsProvided);
            }
            let probe = installation_probe(slicer);
            let check = match probe {
                Probe::Ask(c) => c,
                Probe::Known(_) => {
                    proof {
                        assert(false);
                    }
                    return Err(DispatchError::NotInstalled);
                },
            };
            let package = get_flatpak_slicer_package(slicer);
            let mut run: Vec<String> = Vec::new();
            run.push(String::from_str("run"));
            run.push(String::from_str("--file-forwarding"));
            run.push(package);
            run.push(String::from_str("@@"));
            let ghost head = seq!["run"@, "--file-forwarding"@, package_of(*slicer), "@@"@];
            assert(strs(run@) =~= head);
            push_all(&mut run, paths);
            let ghost middle = run@;
            run.push(String::from_str("@@"));
            assert(strs(run@) =~= strs(middle).push("@@"@));
            assert(strs(run@) =~= flatpak_run_args(package_of(*slicer), strs(paths@)));
            let launch = Ok(LaunchCommand { program: String::from_str("flatpak"), args: run });
            Ok(PendingLaunch { check: HostCheck::CommandSucceeds(check), launch })
        },
    }
}

/// The outcome of a planned launch once the host has answered its check: the launch
/// (or its own error) when the answer is yes, else `NotInstalled` for a package check
/// and `ExecutableNotFound` with the path for an executable check.
pub fn confirm_launch(pending: PendingLaunch, check_passed: bool) -> (r: Result<
    LaunchCommand,
    DispatchError,
>)
    ensures
        check_passed ==> r == pending.launch,
        !check_passed && pending.check is CommandSucceeds ==> r matches Err(
            DispatchError::NotInstalled,
        ),
        !check_passed && pending.check is PathExists ==> (r matches Err(
            DispatchError::ExecutableNotFound(e),
        ) && e@ == pending.check->PathExists_0@),
{
    if check_passed {
        return pending.launch;
    }
    match pending.check {
        HostCheck::CommandSucceeds(_) => Err(DispatchError::NotInstalled),
        HostCheck::PathExists(path) => Err(DispatchError::ExecutableNotFound(path)),
    }
}

} // verus!
