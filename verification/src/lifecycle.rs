//! The stop handoff that a FirstMate home owns.
//!
//! A FirstMate decides for itself whether it may be stopped. Only its narrow machine-readable
//! report is read here; whatever that does not clearly allow is refused.

use vstd::prelude::*;
use vstd::utf8::{decode_utf8, encode_utf8, valid_utf8};

use crate::command::CommandReply;
use crate::encoding::{is_utf8, quote, quoted_text, show, shown_text};
use crate::outcome::{held, outcome};
use crate::path::{joined_path, FsPath};
use crate::text::{
    blank, is_blank, lines, lines_of, number_string, number_text, parse_number, same_text,
    split_at_first, split_once, starts_with, strip_prefixes, texts, trim, trimmed,
    without_prefixes, words, written_number, written_number_reads_back,
};
use crate::working_directory::{
    record_outcome, validate_record_working_directory, DirectoryProbe, FileKind, HomeProbe,
    ManagedAgentRecord,
};

verus! {

/// What a FirstMate reported before an ordinary stop.
#[derive(Debug, Clone, Copy, PartialEq, Eq, Structural)]
pub enum FirstMateStopDisposition {
    Safe,
    SupervisionTransferred,
}

/// The first line of a report, without the whitespace around it.
pub open spec fn first_report(output: Seq<char>) -> Seq<char> {
    let lines = lines_of(output);
    if lines.len() > 0 {
        trimmed(lines[0])
    } else {
        Seq::empty()
    }
}

/// What a report means: one of the two dispositions, or a refusal.
pub open spec fn report_meaning(output: Seq<char>) -> Result<FirstMateStopDisposition, Seq<char>> {
    let report = first_report(output);
    if report == "safe"@ {
        Ok(FirstMateStopDisposition::Safe)
    } else if report == "supervision-transferred"@ {
        Ok(FirstMateStopDisposition::SupervisionTransferred)
    } else if "refused:"@.is_prefix_of(report) {
        Err(
            "FirstMate refused ordinary stop: "@ + trimmed(without_prefixes(report, "refused:"@)),
        )
    } else {
        Err(
            "FirstMate lifecycle returned an unrecognized stop report: "@ + quoted_text(report),
        )
    }
}

/// Reads the first line that `fm-buzz-lifecycle.sh prepare-stop` printed.
///
/// The FirstMate command owns the policy. Anything unknown, malformed or explicitly refused is
/// rejected, so that a stop never bypasses uncertain supervision.
pub fn parse_firstmate_stop_report(output: &str) -> (r: Result<FirstMateStopDisposition, String>)
    ensures
        match report_meaning(output@) {
            Ok(disposition) => r == Ok::<FirstMateStopDisposition, String>(disposition),
            Err(message) => r matches Err(error) && error@ == message,
        },
{
    let all = lines(output);
    assert(all@.len() == texts(all@).len());
    let report = if all.len() > 0 {
        assert(texts(all@)[0] == all@[0]@);
        trim(all[0].as_str())
    } else {
        String::new()
    };
    assert(report@ =~= first_report(output@));
    if same_text(report.as_str(), "safe") {
        Ok(FirstMateStopDisposition::Safe)
    } else if same_text(report.as_str(), "supervision-transferred") {
        Ok(FirstMateStopDisposition::SupervisionTransferred)
    } else if starts_with(report.as_str(), "refused:") {
        let reason = trim(strip_prefixes(report.as_str(), "refused:").as_str());
        Err("FirstMate refused ordinary stop: ".to_owned().concat(reason.as_str()))
    } else {
        Err(
            "FirstMate lifecycle returned an unrecognized stop report: ".to_owned().concat(
                quote(report.as_str()).as_str(),
            ),
        )
    }
}

/// A report allows a stop only where its first line is one of the two words, whatever whitespace
/// stands around it.
pub proof fn only_two_reports_allow_a_stop(output: Seq<char>)
    ensures
        report_meaning(output) is Ok <==> first_report(output) == "safe"@ || first_report(output)
            == "supervision-transferred"@,
{
}

/// What was found where a supervisor keeps its lease.
#[derive(Debug)]
pub struct LeaseProbe {
    /// What the path names, if it could be inspected.
    pub kind: Option<FileKind>,
    /// What the file holds, if it could be read as text.
    pub contents: Option<String>,
}

/// Where the supervisor of a home keeps its lease.
pub fn supervisor_lease_path(home: &FsPath) -> (r: FsPath)
    ensures
        r@ == joined_path(home@, encode_utf8("state/.buzz-supervisor/lease"@)),
{
    home.join("state/.buzz-supervisor/lease")
}

/// A name that a lease may give a value for.
pub open spec fn lease_name(name: Seq<char>) -> bool {
    name == "version"@ || name == "home"@ || name == "pid"@ || name == "generation"@
}

/// What stands before the first equals sign of a line.
pub open spec fn line_name(line: Seq<char>) -> Seq<char> {
    match split_at_first(line, '=') {
        Some((name, _)) => name,
        None => line,
    }
}

/// Whether every line gives a value for a name of a lease, and no two lines for the same name.
pub open spec fn lease_lines(lines: Seq<Seq<char>>) -> bool {
    &&& forall|i: int|
        0 <= i < lines.len() ==> split_at_first(#[trigger] lines[i], '=') is Some && lease_name(
            line_name(lines[i]),
        )
    &&& forall|i: int, j: int|
        0 <= i < j < lines.len() ==> line_name(#[trigger] lines[i]) != line_name(
            #[trigger] lines[j],
        )
}

/// The value that lines give for a name, if they give one.
pub open spec fn lease_value(lines: Seq<Seq<char>>, name: Seq<char>) -> Option<Seq<char>>
    decreases lines.len(),
{
    if lines.len() == 0 {
        None
    } else {
        match split_at_first(lines.last(), '=') {
            Some(parts) if parts.0 == name => Some(parts.1),
            _ => lease_value(lines.drop_last(), name),
        }
    }
}

/// The text that spells a path, if there is one.
pub open spec fn path_text(path: Seq<u8>) -> Option<Seq<char>> {
    if valid_utf8(path) {
        Some(decode_utf8(path))
    } else {
        None
    }
}

/// Whether the lines of a lease name this home. A home that no text spells is named by no lease.
pub open spec fn names_home(lines: Seq<Seq<char>>, home: Seq<u8>) -> bool {
    path_text(home) is Some && lease_value(lines, "home"@) == path_text(home)
}

/// The process and the generation that the lines of a lease attest for a home.
pub open spec fn attested_lines(
    home: Seq<u8>,
    lines: Seq<Seq<char>>,
    harness_pids: Seq<u32>,
) -> Option<(u32, u64)> {
    if !lease_lines(lines) || lease_value(lines, "version"@) != Some("1"@) || !names_home(
        lines,
        home,
    ) {
        None
    } else {
        match (lease_value(lines, "pid"@), lease_value(lines, "generation"@)) {
            (Some(pid), Some(generation)) => match (
                written_number(pid),
                written_number(generation),
            ) {
                (Some(p), Some(g)) => if p <= u32::MAX && g <= u64::MAX && harness_pids.contains(
                    p as u32,
                ) {
                    Some((p as u32, g as u64))
                } else {
                    None
                },
                _ => None,
            },
            _ => None,
        }
    }
}

/// The process and the generation that a supervisor lease attests for a home: the lease has to be a
/// regular file, has to name this home, and has to name a process that is tracked.
pub open spec fn attestation(home: Seq<u8>, lease: LeaseProbe, harness_pids: Seq<u32>) -> Option<
    (u32, u64),
> {
    match lease.contents {
        Some(contents) if lease.kind == Some(FileKind::File) => attested_lines(
            home,
            lines_of(contents@),
            harness_pids,
        ),
        _ => None,
    }
}

/// A name has a value exactly where a line gives one.
proof fn lemma_lease_value(lines: Seq<Seq<char>>, name: Seq<char>)
    requires
        forall|i: int|
            0 <= i < lines.len() ==> split_at_first(#[trigger] lines[i], '=') is Some,
    ensures
        lease_value(lines, name) is Some <==> exists|i: int|
            0 <= i < lines.len() && line_name(#[trigger] lines[i]) == name,
    decreases lines.len(),
{
    if lines.len() > 0 {
        let rest = lines.drop_last();
        assert forall|i: int| 0 <= i < rest.len() implies split_at_first(
            #[trigger] rest[i],
            '=',
        ) is Some by {
            assert(rest[i] == lines[i]);
        }
        lemma_lease_value(rest, name);
        if line_name(lines.last()) == name {
            assert(line_name(lines[lines.len() - 1]) == name);
        } else if lease_value(rest, name) is Some {
            let i = choose|i: int| 0 <= i < rest.len() && line_name(#[trigger] rest[i]) == name;
            assert(lines[i] == rest[i]);
        } else {
            assert forall|i: int| 0 <= i < lines.len() implies line_name(#[trigger] lines[i])
                != name by {
                if i < rest.len() {
                    assert(lines[i] == rest[i]);
                }
            }
        }
    }
}

/// The values that the lines of a lease give.
struct LeaseValues {
    version: Option<String>,
    home: Option<String>,
    pid: Option<String>,
    generation: Option<String>,
}

impl LeaseValues {
    /// Whether these are what `lines` give.
    spec fn given_by(self, lines: Seq<Seq<char>>) -> bool {
        &&& held(self.version) == lease_value(lines, "version"@)
        &&& held(self.home) == lease_value(lines, "home"@)
        &&& held(self.pid) == lease_value(lines, "pid"@)
        &&& held(self.generation) == lease_value(lines, "generation"@)
    }
}

/// The values that the lines of a lease give, if the lines are those of a lease.
fn read_lease(all: &Vec<String>) -> (r: Option<LeaseValues>)
    ensures
        r is Some <==> lease_lines(texts(all@)),
        r matches Some(values) ==> values.given_by(texts(all@)),
{
    proof {
        reveal_strlit("version");
        reveal_strlit("home");
        reveal_strlit("pid");
        reveal_strlit("generation");
        assert("version"@[0] == 'v');
        assert("home"@[0] == 'h');
        assert("pid"@[0] == 'p');
        assert("generation"@[0] == 'g');
    }
    let ghost lines = texts(all@);
    let mut values = LeaseValues { version: None, home: None, pid: None, generation: None };
    let mut i: usize = 0;
    assert(lines.take(0) =~= Seq::<Seq<char>>::empty());
    while i < all.len()
        invariant
            i <= all@.len(),
            lines == texts(all@),
            lease_lines(lines.take(i as int)),
            values.given_by(lines.take(i as int)),
            "version"@[0] == 'v',
            "home"@[0] == 'h',
            "pid"@[0] == 'p',
            "generation"@[0] == 'g',
        decreases all@.len() - i,
    {
        let ghost before = lines.take(i as int);
        let ghost grown = lines.take(i + 1);
        let ghost line = lines[i as int];
        assert(line == all@[i as int]@);
        assert(grown.drop_last() =~= before);
        assert(grown.last() == line);
        match split_once(all[i].as_str(), '=') {
            None => {
                assert(split_at_first(lines[i as int], '=') is None);
                return None;
            },
            Some((name, value)) => {
                assert(line_name(line) == name@);
                proof {
                    lemma_lease_value(before, name@);
                }
                let taken = if same_text(name.as_str(), "version") {
                    let taken = values.version.is_some();
                    values.version = Some(value);
                    taken
                } else if same_text(name.as_str(), "home") {
                    let taken = values.home.is_some();
                    values.home = Some(value);
                    taken
                } else if same_text(name.as_str(), "pid") {
                    let taken = values.pid.is_some();
                    values.pid = Some(value);
                    taken
                } else if same_text(name.as_str(), "generation") {
                    let taken = values.generation.is_some();
                    values.generation = Some(value);
                    taken
                } else {
                    assert(!lease_name(line_name(lines[i as int])));
                    return None;
                };
                assert(taken == (lease_value(before, name@) is Some));
                if taken {
                    proof {
                        let j = choose|j: int|
                            0 <= j < before.len() && line_name(#[trigger] before[j]) == name@;
                        assert(line_name(lines[j]) == line_name(lines[i as int]));
                    }
                    return None;
                }
                assert(lease_lines(grown)) by {
                    assert forall|k: int| 0 <= k < grown.len() implies split_at_first(
                        #[trigger] grown[k],
                        '=',
                    ) is Some && lease_name(line_name(grown[k])) by {
                        if k < i {
                            assert(grown[k] == before[k]);
                        }
                    }
                    assert forall|k: int, l: int| 0 <= k < l < grown.len() implies line_name(
                        #[trigger] grown[k],
                    ) != line_name(#[trigger] grown[l]) by {
                        assert(grown[k] == before[k]);
                        if l < i {
                            assert(grown[l] == before[l]);
                        }
                    }
                }
            },
        }
        i += 1;
    }
    assert(lines.take(i as int) =~= lines);
    Some(values)
}

/// Whether this text is there and spells the path.
fn spells_path(text: &Option<String>, path: &FsPath) -> (r: bool)
    ensures
        r == (path_text(path@) is Some && held(*text) == path_text(path@)),
{
    let spelled = is_utf8(path.as_bytes().as_slice());
    match text {
        Some(text) => spelled && same_text(text.as_str(), path.display().as_str()),
        None => false,
    }
}

/// Whether a process is among the tracked ones.
fn tracks(harness_pids: &[u32], pid: u32) -> (r: bool)
    ensures
        r == harness_pids@.contains(pid),
{
    let mut i: usize = 0;
    while i < harness_pids.len()
        invariant
            i <= harness_pids@.len(),
            forall|j: int| 0 <= j < i ==> #[trigger] harness_pids@[j] != pid,
        decreases harness_pids@.len() - i,
    {
        if harness_pids[i] == pid {
            return true;
        }
        i += 1;
    }
    false
}

/// The process and the generation that a supervisor lease attests for a home.
pub fn supervisor_attestation(home: &FsPath, lease: &LeaseProbe, harness_pids: &[u32]) -> (r: Option<
    (u32, u64),
>)
    ensures
        r == attestation(home@, *lease, harness_pids@),
{
    let regular = match lease.kind {
        Some(kind) => kind == FileKind::File,
        None => false,
    };
    if !regular {
        return None;
    }
    let contents = match &lease.contents {
        Some(contents) => contents,
        None => {
            return None;
        },
    };
    let all = lines(contents.as_str());
    let values = match read_lease(&all) {
        Some(values) => values,
        None => {
            return None;
        },
    };
    let current = match &values.version {
        Some(version) => same_text(version.as_str(), "1"),
        None => false,
    };
    if !current || !spells_path(&values.home, home) {
        return None;
    }
    let pid = match &values.pid {
        Some(text) => parse_number(text.as_str(), u32::MAX as u64),
        None => None,
    };
    let generation = match &values.generation {
        Some(text) => parse_number(text.as_str(), u64::MAX),
        None => None,
    };
    match (pid, generation) {
        (Some(pid), Some(generation)) => {
            let pid = pid as u32;
            if tracks(harness_pids, pid) {
                Some((pid, generation))
            } else {
                None
            }
        },
        _ => None,
    }
}

/// What is attested names a process that is tracked, in a lease that names the home.
pub proof fn attested_process_is_tracked(
    home: Seq<u8>,
    lease: LeaseProbe,
    harness_pids: Seq<u32>,
    pid: u32,
    generation: u64,
)
    requires
        attestation(home, lease, harness_pids) == Some((pid, generation)),
    ensures
        harness_pids.contains(pid),
        lease.kind == Some(FileKind::File),
        lease.contents matches Some(contents) && names_home(lines_of(contents@), home),
{
}

/// Model of [`LifecycleCommand`].
#[verifier::ext_equal]
pub struct LifecycleModel {
    pub program: Seq<u8>,
    pub arguments: Seq<Seq<char>>,
    pub directory: Seq<u8>,
    pub removed: Seq<Seq<char>>,
    pub settings: Seq<(Seq<char>, Seq<u8>)>,
}

/// The lifecycle command of a home, to run.
#[derive(Debug)]
pub struct LifecycleCommand {
    pub program: FsPath,
    pub arguments: Vec<&'static str>,
    /// The directory to run the command in.
    pub directory: FsPath,
    /// The names of the environment settings to remove, before any is set.
    pub removed: Vec<&'static str>,
    /// The environment settings to set: names, and the bytes of the values.
    pub settings: Vec<(&'static str, Vec<u8>)>,
}

/// The names and the bytes of a list of settings.
pub open spec fn byte_settings(list: Seq<(&'static str, Vec<u8>)>) -> Seq<(Seq<char>, Seq<u8>)> {
    list.map_values(|setting: (&'static str, Vec<u8>)| (setting.0@, setting.1@))
}

impl View for LifecycleCommand {
    type V = LifecycleModel;

    open spec fn view(&self) -> LifecycleModel {
        LifecycleModel {
            program: self.program@,
            arguments: words(self.arguments@),
            directory: self.directory@,
            removed: words(self.removed@),
            settings: byte_settings(self.settings@),
        }
    }
}

/// The settings that a stop is prepared with: the home, and what the supervisor attested, if it
/// attested anything.
pub open spec fn handoff_settings(home: Seq<u8>, attested: Option<(u32, u64)>) -> Seq<
    (Seq<char>, Seq<u8>),
> {
    match attested {
        None => seq![("FM_HOME"@, home)],
        Some((pid, generation)) => seq![
            ("FM_HOME"@, home),
            ("BUZZ_FIRSTMATE_HARNESS_PID"@, encode_utf8(number_text(pid as nat))),
            (
                "BUZZ_FIRSTMATE_SUPERVISOR_GENERATION"@,
                encode_utf8(number_text(generation as nat)),
            ),
        ],
    }
}

/// The path of the lifecycle command of a home.
pub open spec fn lifecycle_path(home: Seq<u8>) -> Seq<u8> {
    joined_path(home, encode_utf8("bin/fm-buzz-lifecycle.sh"@))
}

/// The path of the lifecycle command of a home.
pub fn lifecycle_command_path(home: &FsPath) -> (r: FsPath)
    ensures
        r@ == lifecycle_path(home@),
{
    home.join("bin/fm-buzz-lifecycle.sh")
}

/// The command that asks a home to prepare a stop. An attestation that this process inherited is
/// removed before its own is set.
pub open spec fn handoff_command(home: Seq<u8>, attested: Option<(u32, u64)>) -> LifecycleModel {
    LifecycleModel {
        program: lifecycle_path(home),
        arguments: seq!["prepare-stop"@],
        directory: home,
        removed: seq!["BUZZ_FIRSTMATE_HARNESS_PID"@, "BUZZ_FIRSTMATE_SUPERVISOR_GENERATION"@],
        settings: handoff_settings(home, attested),
    }
}

/// What the reply to the lifecycle command allows.
pub open spec fn handoff_verdict(reply: CommandReply) -> Result<(), Seq<char>> {
    match reply {
        CommandReply::NotStarted(error) => Err(
            "failed to run FirstMate lifecycle command: "@ + error@,
        ),
        CommandReply::Exited { success, status, stdout, stderr } => if !success {
            Err(
                "FirstMate lifecycle command failed ("@ + status@ + ")"@ + if blank(
                    shown_text(stderr@),
                ) {
                    Seq::empty()
                } else {
                    ": "@ + trimmed(shown_text(stderr@))
                },
            )
        } else {
            match report_meaning(shown_text(stdout@)) {
                Ok(_) => Ok(()),
                Err(error) => Err(error),
            }
        },
    }
}

/// Model of [`StopStep`].
#[verifier::ext_equal]
pub enum StopModel {
    Run(LifecycleModel),
    Done(Result<(), Seq<char>>),
}

/// What to do next before an ordinary stop.
#[derive(Debug)]
pub enum StopStep {
    /// Run this command to its end and hand its reply back.
    Run(LifecycleCommand),
    /// The stop may go ahead, or is refused.
    Done(Result<(), String>),
}

impl View for StopStep {
    type V = StopModel;

    open spec fn view(&self) -> StopModel {
        match self {
            StopStep::Run(command) => StopModel::Run(command@),
            StopStep::Done(result) => StopModel::Done(outcome(*result)),
        }
    }
}

/// What was found on disk for an agent that is to be stopped.
#[derive(Debug)]
pub struct StopProbe {
    pub directory: DirectoryProbe,
    pub home: HomeProbe,
    /// What the path of the lifecycle command names, or why it could not be inspected.
    pub lifecycle: Result<FileKind, String>,
    pub lease: LeaseProbe,
}

/// The next step before an ordinary stop.
pub open spec fn handoff_step(
    record: ManagedAgentRecord,
    harness_pids: Seq<u32>,
    probe: StopProbe,
    reply: Option<CommandReply>,
) -> StopModel {
    if !record.firstmate {
        StopModel::Done(Ok(()))
    } else {
        match record_outcome(record, probe.directory, probe.home) {
            Err(error) => StopModel::Done(Err(error)),
            Ok(None) => StopModel::Done(
                Err("FirstMate managed agent is missing its working directory"@),
            ),
            Ok(Some(home)) => match probe.lifecycle {
                Err(error) => StopModel::Done(
                    Err("FirstMate lifecycle command is unavailable: "@ + error@),
                ),
                Ok(kind) => if !(kind is File) {
                    StopModel::Done(
                        Err(
                            "FirstMate lifecycle command is not a regular file: "@ + shown_text(
                                lifecycle_path(home),
                            ),
                        ),
                    )
                } else {
                    match reply {
                        None => StopModel::Run(
                            handoff_command(home, attestation(home, probe.lease, harness_pids)),
                        ),
                        Some(reply) => StopModel::Done(handoff_verdict(reply)),
                    }
                },
            },
        }
    }
}

/// The command that asks a home to prepare a stop.
fn prepare_command(home: FsPath, attested: Option<(u32, u64)>) -> (r: LifecycleCommand)
    ensures
        r@ == handoff_command(home@, attested),
{
    let mut arguments: Vec<&'static str> = Vec::new();
    arguments.push("prepare-stop");
    let mut removed: Vec<&'static str> = Vec::new();
    removed.push("BUZZ_FIRSTMATE_HARNESS_PID");
    removed.push("BUZZ_FIRSTMATE_SUPERVISOR_GENERATION");
    let mut settings: Vec<(&'static str, Vec<u8>)> = Vec::new();
    let home_bytes = home.as_bytes().clone();
    assert(home_bytes@ =~= home@);
    settings.push(("FM_HOME", home_bytes));
    if let Some((pid, generation)) = attested {
        let pid_text = number_string(pid as u64);
        let generation_text = number_string(generation);
        settings.push(("BUZZ_FIRSTMATE_HARNESS_PID", pid_text.as_str().as_bytes_vec()));
        settings.push(
            ("BUZZ_FIRSTMATE_SUPERVISOR_GENERATION", generation_text.as_str().as_bytes_vec()),
        );
    }
    let program = lifecycle_command_path(&home);
    let command = LifecycleCommand { program, arguments, directory: home, removed, settings };
    proof {
        assert(command@.arguments =~= handoff_command(home@, attested).arguments);
        assert(command@.removed =~= handoff_command(home@, attested).removed);
        assert(command@.settings =~= handoff_settings(home@, attested));
    }
    command
}

/// What the reply to the lifecycle command allows.
pub fn read_handoff_reply(reply: &CommandReply) -> (r: Result<(), String>)
    ensures
        outcome(r) == handoff_verdict(*reply),
{
    match reply {
        CommandReply::NotStarted(error) => Err(
            "failed to run FirstMate lifecycle command: ".to_owned().concat(error.as_str()),
        ),
        CommandReply::Exited { success, status, stdout, stderr } => {
            if !*success {
                let reason = show(stderr.as_slice());
                let failure = "FirstMate lifecycle command failed (".to_owned().concat(
                    status.as_str(),
                ).concat(")");
                let failure = if is_blank(reason.as_str()) {
                    assert(failure@ + Seq::<char>::empty() =~= failure@);
                    failure
                } else {
                    let detail = ": ".to_owned().concat(trim(reason.as_str()).as_str());
                    failure.concat(detail.as_str())
                };
                return Err(failure);
            }
            match parse_firstmate_stop_report(show(stdout.as_slice()).as_str()) {
                Ok(_) => Ok(()),
                Err(error) => Err(error),
            }
        },
    }
}

/// Asks a FirstMate home to transfer or refuse supervision before an ordinary stop. Other agents are
/// stopped without being asked. `reply` is absent until the command of the step was run.
pub fn prepare_firstmate_stop(
    record: &ManagedAgentRecord,
    harness_pids: &[u32],
    probe: &StopProbe,
    reply: Option<&CommandReply>,
) -> (r: StopStep)
    ensures
        r@ == handoff_step(
            *record,
            harness_pids@,
            *probe,
            match reply {
                Some(reply) => Some(*reply),
                None => None,
            },
        ),
{
    if !record.firstmate {
        return StopStep::Done(Ok(()));
    }
    let home = match validate_record_working_directory(record, &probe.directory, &probe.home) {
        Err(error) => {
            return StopStep::Done(Err(error));
        },
        Ok(None) => {
            return StopStep::Done(
                Err("FirstMate managed agent is missing its working directory".to_owned()),
            );
        },
        Ok(Some(home)) => home,
    };
    match &probe.lifecycle {
        Err(error) => {
            return StopStep::Done(
                Err("FirstMate lifecycle command is unavailable: ".to_owned().concat(error.as_str())),
            );
        },
        Ok(kind) => {
            if *kind != FileKind::File {
                let lifecycle = lifecycle_command_path(&home);
                return StopStep::Done(
                    Err(
                        "FirstMate lifecycle command is not a regular file: ".to_owned().concat(
                            lifecycle.display().as_str(),
                        ),
                    ),
                );
            }
        },
    }
    match reply {
        None => {
            let attested = supervisor_attestation(&home, &probe.lease, harness_pids);
            StopStep::Run(prepare_command(home, attested))
        },
        Some(reply) => StopStep::Done(read_handoff_reply(reply)),
    }
}

/// An agent that is not a FirstMate is stopped without being asked.
pub proof fn other_agents_are_not_asked(
    record: ManagedAgentRecord,
    harness_pids: Seq<u32>,
    probe: StopProbe,
    reply: Option<CommandReply>,
)
    requires
        !record.firstmate,
    ensures
        handoff_step(record, harness_pids, probe, reply) == StopModel::Done(Ok(())),
{
}

/// A FirstMate is stopped only after its own lifecycle command ended well and reported one of the two
/// words: a stop never bypasses it.
pub proof fn firstmate_stop_needs_a_report(
    record: ManagedAgentRecord,
    harness_pids: Seq<u32>,
    probe: StopProbe,
    reply: Option<CommandReply>,
)
    requires
        record.firstmate,
        handoff_step(record, harness_pids, probe, reply) == StopModel::Done(Ok(())),
    ensures
        reply matches Some(CommandReply::Exited { success, stdout, .. }) && success && {
            let report = first_report(shown_text(stdout@));
            report == "safe"@ || report == "supervision-transferred"@
        },
{
}

/// What the home is told of its supervisor are the very numbers of the attestation, of a process that
/// is tracked.
pub proof fn handed_over_numbers_read_back(
    home: Seq<u8>,
    lease: LeaseProbe,
    harness_pids: Seq<u32>,
    pid: u32,
    generation: u64,
)
    requires
        attestation(home, lease, harness_pids) == Some((pid, generation)),
    ensures
        ({
            let settings = handoff_command(
                home,
                attestation(home, lease, harness_pids),
            ).settings;
            &&& settings.len() == 3
            &&& settings[0] == ("FM_HOME"@, home)
            &&& settings[1].0 == "BUZZ_FIRSTMATE_HARNESS_PID"@
            &&& settings[1].1 == encode_utf8(number_text(pid as nat))
            &&& settings[2].0 == "BUZZ_FIRSTMATE_SUPERVISOR_GENERATION"@
            &&& settings[2].1 == encode_utf8(number_text(generation as nat))
        }),
        written_number(number_text(pid as nat)) == Some(pid as nat),
        written_number(number_text(generation as nat)) == Some(generation as nat),
        harness_pids.contains(pid),
{
    written_number_reads_back(pid as nat);
    written_number_reads_back(generation as nat);
}

/// A stop that the lifecycle command does not allow is refused with a reason.
pub proof fn refused_stop_gives_a_reason(reply: CommandReply)
    ensures
        handoff_verdict(reply) matches Err(error) ==> error.len() > 0,
{
    reveal_strlit("failed to run FirstMate lifecycle command: ");
    reveal_strlit("FirstMate lifecycle command failed (");
    reveal_strlit("FirstMate refused ordinary stop: ");
    reveal_strlit("FirstMate lifecycle returned an unrecognized stop report: ");
}

} // verus!
