//! What is accepted of a home, its lease, its bridge and its reports, told from what was found.

use vstd::prelude::*;
use vstd::utf8::encode_utf8;

use crate::command::CommandReply;
use crate::encoding::shown_text;
use crate::lifecycle::{
    attestation, first_report, handoff_step, handoff_verdict, lease_lines, lease_name, lease_value,
    line_name, report_meaning, FirstMateStopDisposition, LeaseProbe, StopModel, StopProbe,
};
use crate::path::{absolute, joined_path};
use crate::text::{
    blank, first_line_stands_before_the_line_feed, lines_of, number_text, split_at_first,
    text_is_cut_at_its_first, trimmed, trimming_uncovers_the_core, white_space, written_number,
};
use crate::working_directory::{
    directory_outcome, home_refusal, record_outcome, DirectoryProbe, FileKind, HomeProbe,
    ManagedAgentRecord,
};

verus! {

/// Whether these are the four lines of a lease, in any order: the version, a home, a process and a
/// generation.
pub open spec fn four_lines(
    lines: Seq<Seq<char>>,
    home: Seq<char>,
    pid: Seq<char>,
    generation: Seq<char>,
) -> bool {
    &&& lines.len() == 4
    &&& lines.contains("version=1"@)
    &&& lines.contains("home="@ + home)
    &&& lines.contains("pid="@ + pid)
    &&& lines.contains("generation="@ + generation)
}

proof fn lemma_names()
    ensures
        "version=1"@ == "version"@ + seq!['='] + "1"@,
        "home="@ == "home"@ + seq!['='],
        "pid="@ == "pid"@ + seq!['='],
        "generation="@ == "generation"@ + seq!['='],
        "version"@[0] == 'v' && "home"@[0] == 'h' && "pid"@[0] == 'p' && "generation"@[0] == 'g',
        forall|i: int| 0 <= i < "version"@.len() ==> "version"@[i] != '=',
        forall|i: int| 0 <= i < "home"@.len() ==> "home"@[i] != '=',
        forall|i: int| 0 <= i < "pid"@.len() ==> "pid"@[i] != '=',
        forall|i: int| 0 <= i < "generation"@.len() ==> "generation"@[i] != '=',
{
    reveal_strlit("version=1");
    reveal_strlit("version");
    reveal_strlit("1");
    reveal_strlit("home=");
    reveal_strlit("home");
    reveal_strlit("pid=");
    reveal_strlit("pid");
    reveal_strlit("generation=");
    reveal_strlit("generation");
    assert("version=1"@ =~= "version"@ + seq!['='] + "1"@);
    assert("home="@ =~= "home"@ + seq!['=']);
    assert("pid="@ =~= "pid"@ + seq!['=']);
    assert("generation="@ =~= "generation"@ + seq!['=']);
}

/// In lines that name nothing twice, a name has the value of its own line.
proof fn lemma_value_of_line(lines: Seq<Seq<char>>, i: int)
    requires
        0 <= i < lines.len(),
        forall|k: int| 0 <= k < lines.len() ==> split_at_first(#[trigger] lines[k], '=') is Some,
        forall|k: int, l: int|
            0 <= k < l < lines.len() ==> line_name(#[trigger] lines[k]) != line_name(
                #[trigger] lines[l],
            ),
    ensures
        lease_value(lines, line_name(lines[i])) matches Some(value) && split_at_first(lines[i], '=')
            == Some((line_name(lines[i]), value)),
    decreases lines.len(),
{
    let rest = lines.drop_last();
    if i < lines.len() - 1 {
        assert(line_name(lines[i]) != line_name(lines[lines.len() - 1]));
        assert forall|k: int| 0 <= k < rest.len() implies split_at_first(
            #[trigger] rest[k],
            '=',
        ) is Some by {
            assert(rest[k] == lines[k]);
        }
        assert forall|k: int, l: int| 0 <= k < l < rest.len() implies line_name(#[trigger] rest[k])
            != line_name(#[trigger] rest[l]) by {
            assert(rest[k] == lines[k]);
            assert(rest[l] == lines[l]);
        }
        lemma_value_of_line(rest, i);
        assert(rest[i] == lines[i]);
    }
}

/// A name that has a value is that of a line.
proof fn lemma_line_of_value(lines: Seq<Seq<char>>, name: Seq<char>) -> (i: int)
    requires
        lease_value(lines, name) is Some,
    ensures
        0 <= i < lines.len(),
        split_at_first(lines[i], '=') == Some((name, lease_value(lines, name)->0)),
    decreases lines.len(),
{
    match split_at_first(lines.last(), '=') {
        Some(parts) if parts.0 == name => lines.len() - 1,
        _ => {
            let i = lemma_line_of_value(lines.drop_last(), name);
            assert(lines.drop_last()[i] == lines[i]);
            i
        },
    }
}

/// Whether a place is one of four.
spec fn among(j: int, a: int, b: int, c: int, d: int) -> bool {
    j == a || j == b || j == c || j == d
}

proof fn lemma_attested_has_four_lines(
    home: Seq<u8>,
    lease: LeaseProbe,
    harness_pids: Seq<u32>,
    pid: u32,
    generation: u64,
)
    requires
        attestation(home, lease, harness_pids) == Some((pid, generation)),
    ensures
        lease.kind == Some(FileKind::File),
        lease.contents is Some,
        exists|t: Seq<char>, p: Seq<char>, g: Seq<char>|
            {
                &&& #[trigger] four_lines(lines_of(lease.contents->0@), t, p, g)
                &&& encode_utf8(t) == home
                &&& written_number(p) == Some(pid as nat)
                &&& written_number(g) == Some(generation as nat)
            },
        harness_pids.contains(pid),
{
    lemma_names();
    let lines = lines_of(lease.contents->0@);
    let v = lease_value(lines, "version"@)->0;
    let t = lease_value(lines, "home"@)->0;
    let p = lease_value(lines, "pid"@)->0;
    let g = lease_value(lines, "generation"@)->0;
    let iv = lemma_line_of_value(lines, "version"@);
    let ih = lemma_line_of_value(lines, "home"@);
    let ip = lemma_line_of_value(lines, "pid"@);
    let ig = lemma_line_of_value(lines, "generation"@);
    text_is_cut_at_its_first(lines[iv], '=', "version"@, v);
    text_is_cut_at_its_first(lines[ih], '=', "home"@, t);
    text_is_cut_at_its_first(lines[ip], '=', "pid"@, p);
    text_is_cut_at_its_first(lines[ig], '=', "generation"@, g);
    assert(lines[iv] == "version=1"@);
    assert(lines[ih] == "home="@ + t);
    assert(lines[ip] == "pid="@ + p);
    assert(lines[ig] == "generation="@ + g);
    assert(line_name(lines[iv]) == "version"@);
    assert(line_name(lines[ih]) == "home"@);
    assert(line_name(lines[ip]) == "pid"@);
    assert(line_name(lines[ig]) == "generation"@);
    assert forall|j: int| 0 <= j < lines.len() implies #[trigger] among(j, iv, ih, ip, ig) by {
        assert(lease_name(line_name(lines[j])));
        if j != iv && j != ih && j != ip && j != ig {
            assert(line_name(lines[j]) != line_name(lines[iv]));
            assert(line_name(lines[j]) != line_name(lines[ih]));
            assert(line_name(lines[j]) != line_name(lines[ip]));
            assert(line_name(lines[j]) != line_name(lines[ig]));
        }
    }
    assert(iv != ih && iv != ip && iv != ig && ih != ip && ih != ig && ip != ig);
    assert(lines.len() == 4) by {
        if lines.len() > 4 {
            assert(among(0, iv, ih, ip, ig));
            assert(among(1, iv, ih, ip, ig));
            assert(among(2, iv, ih, ip, ig));
            assert(among(3, iv, ih, ip, ig));
            assert(among(4, iv, ih, ip, ig));
        }
    }
    assert(four_lines(lines, t, p, g));
    vstd::utf8::decode_utf8_encode_utf8(home);
}

proof fn lemma_four_lines_are_attested(
    home: Seq<u8>,
    lease: LeaseProbe,
    harness_pids: Seq<u32>,
    pid: u32,
    generation: u64,
    t: Seq<char>,
    p: Seq<char>,
    g: Seq<char>,
)
    requires
        lease.kind == Some(FileKind::File),
        lease.contents is Some,
        four_lines(lines_of(lease.contents->0@), t, p, g),
        encode_utf8(t) == home,
        written_number(p) == Some(pid as nat),
        written_number(g) == Some(generation as nat),
        harness_pids.contains(pid),
    ensures
        attestation(home, lease, harness_pids) == Some((pid, generation)),
{
    lemma_names();
    let lines = lines_of(lease.contents->0@);
    let iv = choose|i: int| 0 <= i < lines.len() && lines[i] == "version=1"@;
    let ih = choose|i: int| 0 <= i < lines.len() && lines[i] == "home="@ + t;
    let ip = choose|i: int| 0 <= i < lines.len() && lines[i] == "pid="@ + p;
    let ig = choose|i: int| 0 <= i < lines.len() && lines[i] == "generation="@ + g;
    text_is_cut_at_its_first(lines[iv], '=', "version"@, "1"@);
    text_is_cut_at_its_first(lines[ih], '=', "home"@, t);
    text_is_cut_at_its_first(lines[ip], '=', "pid"@, p);
    text_is_cut_at_its_first(lines[ig], '=', "generation"@, g);
    assert(line_name(lines[iv]) == "version"@);
    assert(line_name(lines[ih]) == "home"@);
    assert(line_name(lines[ip]) == "pid"@);
    assert(line_name(lines[ig]) == "generation"@);
    assert(iv != ih && iv != ip && iv != ig && ih != ip && ih != ig && ip != ig);
    assert forall|k: int| 0 <= k < lines.len() implies split_at_first(#[trigger] lines[k], '=') is Some
        && lease_name(line_name(lines[k])) by {
        assert(k == iv || k == ih || k == ip || k == ig);
    }
    assert forall|k: int, l: int| 0 <= k < l < lines.len() implies line_name(#[trigger] lines[k])
        != line_name(#[trigger] lines[l]) by {
        assert(k == iv || k == ih || k == ip || k == ig);
        assert(l == iv || l == ih || l == ip || l == ig);
    }
    assert(lease_lines(lines));
    lemma_value_of_line(lines, iv);
    lemma_value_of_line(lines, ih);
    lemma_value_of_line(lines, ip);
    lemma_value_of_line(lines, ig);
    vstd::utf8::encode_utf8_valid_utf8(t);
    vstd::utf8::encode_utf8_decode_utf8(t);
}

/// A lease attests a process and a generation exactly when it is a regular file of four lines, in any
/// order: version 1, this home, the process and the generation, and the process stands anywhere among
/// the tracked ones.
pub proof fn lease_attests_what_its_lines_say(
    home: Seq<u8>,
    lease: LeaseProbe,
    harness_pids: Seq<u32>,
    pid: u32,
    generation: u64,
)
    ensures
        attestation(home, lease, harness_pids) == Some((pid, generation)) <==> {
            &&& lease.kind == Some(FileKind::File)
            &&& lease.contents is Some
            &&& exists|t: Seq<char>, p: Seq<char>, g: Seq<char>|
                {
                    &&& #[trigger] four_lines(lines_of(lease.contents->0@), t, p, g)
                    &&& encode_utf8(t) == home
                    &&& written_number(p) == Some(pid as nat)
                    &&& written_number(g) == Some(generation as nat)
                }
            &&& harness_pids.contains(pid)
        },
{
    if attestation(home, lease, harness_pids) == Some((pid, generation)) {
        lemma_attested_has_four_lines(home, lease, harness_pids, pid, generation);
    }
    if lease.kind == Some(FileKind::File) && lease.contents is Some && harness_pids.contains(pid)
        && exists|t: Seq<char>, p: Seq<char>, g: Seq<char>|
        {
            &&& #[trigger] four_lines(lines_of(lease.contents->0@), t, p, g)
            &&& encode_utf8(t) == home
            &&& written_number(p) == Some(pid as nat)
            &&& written_number(g) == Some(generation as nat)
        } {
        let (t, p, g) = choose|t: Seq<char>, p: Seq<char>, g: Seq<char>|
            {
                &&& #[trigger] four_lines(lines_of(lease.contents->0@), t, p, g)
                &&& encode_utf8(t) == home
                &&& written_number(p) == Some(pid as nat)
                &&& written_number(g) == Some(generation as nat)
            };
        lemma_four_lines_are_attested(home, lease, harness_pids, pid, generation, t, p, g);
    }
}

/// An attestation does not depend on the order of the tracked processes, nor on how often one is
/// listed; with more of them it only becomes easier to give.
pub proof fn attestation_ignores_the_order_of_processes(
    home: Seq<u8>,
    lease: LeaseProbe,
    few: Seq<u32>,
    many: Seq<u32>,
)
    requires
        forall|pid: u32| #[trigger] few.contains(pid) ==> many.contains(pid),
    ensures
        attestation(home, lease, few) is Some ==> attestation(home, lease, many) == attestation(
            home,
            lease,
            few,
        ),
        (forall|pid: u32| #[trigger] many.contains(pid) ==> few.contains(pid)) ==> attestation(
            home,
            lease,
            many,
        ) == attestation(home, lease, few),
{
    match attestation(home, lease, few) {
        Some((pid, generation)) => {
            lease_attests_what_its_lines_say(home, lease, few, pid, generation);
            lease_attests_what_its_lines_say(home, lease, many, pid, generation);
        },
        None => {},
    }
    match attestation(home, lease, many) {
        Some((pid, generation)) => {
            lease_attests_what_its_lines_say(home, lease, many, pid, generation);
            lease_attests_what_its_lines_say(home, lease, few, pid, generation);
        },
        None => {},
    }
}

/// Whether a text is whitespace within one line.
pub open spec fn margin(s: Seq<char>) -> bool {
    blank(s) && forall|i: int| 0 <= i < s.len() ==> #[trigger] s[i] != '\n'
}

proof fn lemma_report(before: Seq<char>, word: Seq<char>, after: Seq<char>, rest: Seq<char>)
    requires
        margin(before),
        margin(after),
        word.len() > 0,
        !white_space(word[0]),
        !white_space(word.last()),
        forall|i: int| 0 <= i < word.len() ==> #[trigger] word[i] != '\n',
    ensures
        first_report(before + word + after + seq!['\n'] + rest) == word,
        first_report(before + word + after) == word,
{
    let line = before + word + after;
    assert forall|i: int| 0 <= i < line.len() implies #[trigger] line[i] != '\n' by {
        if i < before.len() {
            assert(line[i] == before[i]);
        } else if i < before.len() + word.len() {
            assert(line[i] == word[i - before.len()]);
        } else {
            assert(line[i] == after[i - before.len() - word.len()]);
        }
    }
    first_line_stands_before_the_line_feed(line, rest);
    trimming_uncovers_the_core(before, word, after);
    if line.last() == '\r' {
        if after.len() > 0 {
            let shorter = after.drop_last();
            assert forall|i: int| 0 <= i < shorter.len() implies white_space(#[trigger] shorter[i]) by {
                assert(shorter[i] == after[i]);
            }
            trimming_uncovers_the_core(before, word, shorter);
            assert(line.drop_last() =~= before + word + shorter);
        } else {
            assert(line.last() == word.last());
            assert(white_space('\r'));
        }
    }
    let text = line + seq!['\n'] + rest;
    assert(lines_of(text)[0] == (if line.last() == '\r' {
        line.drop_last()
    } else {
        line
    }));
}

/// A first line that reads `safe` or `supervision-transferred`, with any whitespace around it and
/// whatever follows, is taken for what it says.
pub proof fn clear_reports_are_understood(before: Seq<char>, after: Seq<char>, rest: Seq<char>)
    requires
        margin(before),
        margin(after),
    ensures
        report_meaning(before + "safe"@ + after + seq!['\n'] + rest) == Ok::<
            FirstMateStopDisposition,
            Seq<char>,
        >(FirstMateStopDisposition::Safe),
        report_meaning(before + "safe"@ + after) == Ok::<FirstMateStopDisposition, Seq<char>>(
            FirstMateStopDisposition::Safe,
        ),
        report_meaning(before + "supervision-transferred"@ + after + seq!['\n'] + rest) == Ok::<
            FirstMateStopDisposition,
            Seq<char>,
        >(FirstMateStopDisposition::SupervisionTransferred),
        report_meaning(before + "supervision-transferred"@ + after) == Ok::<
            FirstMateStopDisposition,
            Seq<char>,
        >(FirstMateStopDisposition::SupervisionTransferred),
{
    reveal_strlit("safe");
    reveal_strlit("supervision-transferred");
    lemma_report(before, "safe"@, after, rest);
    lemma_report(before, "supervision-transferred"@, after, rest);
}

/// A first line that reads `refused:` and a reason is a refusal that gives the reason.
pub proof fn refusals_give_their_reason(before: Seq<char>, reason: Seq<char>, rest: Seq<char>)
    requires
        margin(before),
        reason.len() > 0,
        !white_space(reason[0]),
        !white_space(reason.last()),
        forall|i: int| 0 <= i < reason.len() ==> #[trigger] reason[i] != '\n',
        !"refused:"@.is_prefix_of(reason),
    ensures
        report_meaning(before + ("refused:"@ + reason) + seq!['\n'] + rest) == Err::<
            FirstMateStopDisposition,
            Seq<char>,
        >("FirstMate refused ordinary stop: "@ + reason),
{
    reveal_strlit("refused:");
    reveal_strlit("safe");
    reveal_strlit("supervision-transferred");
    let word = "refused:"@ + reason;
    assert forall|i: int| 0 <= i < word.len() implies #[trigger] word[i] != '\n' by {
        if i >= 8 {
            assert(word[i] == reason[i - 8]);
        }
    }
    assert(word.last() == reason.last());
    assert(word[0] == 'r');
    let none = Seq::<char>::empty();
    lemma_report(before, word, none, rest);
    assert(before + word + none =~= before + word);
    assert("refused:"@ =~= word.subrange(0, 8));
    crate::text::prefix_is_taken_off_each_time(reason, "refused:"@);
    trimming_uncovers_the_core(none, reason, none);
    assert(none + reason + none =~= reason);
    assert("safe"@[0] == 's' && "supervision-transferred"@[0] == 's');
}

/// The reply to the lifecycle command allows a stop exactly when the command ended well and the first
/// line of what it printed is one of the two words.
pub proof fn stop_is_allowed_by_a_clear_reply(reply: CommandReply)
    ensures
        handoff_verdict(reply) is Ok <==> (reply matches CommandReply::Exited {
            success,
            stdout,
            ..
        } && success && {
            let lines = lines_of(shown_text(stdout@));
            lines.len() > 0 && (trimmed(lines[0]) == "safe"@ || trimmed(lines[0])
                == "supervision-transferred"@)
        }),
{
    reveal_strlit("safe");
    reveal_strlit("supervision-transferred");
    assert("safe"@.len() == 4);
    assert("supervision-transferred"@.len() == 23);
}

/// Before a FirstMate is stopped, the lifecycle command below its canonical home is run there and told
/// that home. What was inherited of an attestation is removed, and the process and the generation that
/// the lease attests are told, each under its own name, exactly when it attests them. The reply alone
/// then decides.
pub proof fn stop_asks_the_home(
    record: ManagedAgentRecord,
    harness_pids: Seq<u32>,
    probe: StopProbe,
    home: Seq<u8>,
    reply: CommandReply,
)
    requires
        record.firstmate,
        record_outcome(record, probe.directory, probe.home) == Ok::<Option<Seq<u8>>, Seq<char>>(
            Some(home),
        ),
        probe.lifecycle == Ok::<FileKind, String>(FileKind::File),
    ensures
        handoff_step(record, harness_pids, probe, None) matches StopModel::Run(command) && {
            &&& command.program == joined_path(home, encode_utf8("bin/fm-buzz-lifecycle.sh"@))
            &&& command.arguments == seq!["prepare-stop"@]
            &&& command.directory == home
            &&& command.removed.contains("BUZZ_FIRSTMATE_HARNESS_PID"@)
            &&& command.removed.contains("BUZZ_FIRSTMATE_SUPERVISOR_GENERATION"@)
            &&& command.removed.len() == 2
            &&& command.settings[0] == ("FM_HOME"@, home)
            &&& match attestation(home, probe.lease, harness_pids) {
                None => command.settings.len() == 1,
                Some((pid, generation)) => {
                    &&& command.settings.len() == 3
                    &&& command.settings[1] == (
                        "BUZZ_FIRSTMATE_HARNESS_PID"@,
                        encode_utf8(number_text(pid as nat)),
                    )
                    &&& command.settings[2] == (
                        "BUZZ_FIRSTMATE_SUPERVISOR_GENERATION"@,
                        encode_utf8(number_text(generation as nat)),
                    )
                },
            }
        },
        handoff_step(record, harness_pids, probe, Some(reply)) == StopModel::Done(
            handoff_verdict(reply),
        ),
{
    let step = handoff_step(record, harness_pids, probe, None);
    let removed = step->Run_0.removed;
    assert(removed[0] == "BUZZ_FIRSTMATE_HARNESS_PID"@);
    assert(removed[1] == "BUZZ_FIRSTMATE_SUPERVISOR_GENERATION"@);
}

/// Whatever is wrong with a FirstMate's home or its lifecycle command refuses the stop before anything
/// is run.
pub proof fn broken_home_refuses_the_stop(
    record: ManagedAgentRecord,
    harness_pids: Seq<u32>,
    probe: StopProbe,
    reply: Option<CommandReply>,
)
    requires
        record.firstmate,
        record_outcome(record, probe.directory, probe.home) is Err || probe.lifecycle != Ok::<
            FileKind,
            String,
        >(FileKind::File),
    ensures
        handoff_step(record, harness_pids, probe, reply) matches StopModel::Done(result) && result is Err,
{
}

/// A selected directory is accepted exactly when its path is absolute, it is a real directory and not a
/// link, and it resolves to a real directory; the answer is that directory. Where none is selected
/// there is nothing to refuse.
pub proof fn accepted_directories(path: Option<Seq<u8>>, probe: DirectoryProbe, answer: Seq<u8>)
    ensures
        directory_outcome(path, probe) == Ok::<Option<Seq<u8>>, Seq<char>>(Some(answer)) <==> {
            &&& path is Some
            &&& absolute(path->0)
            &&& probe matches DirectoryProbe::Found { kind, resolved }
            &&& kind == FileKind::Directory
            &&& resolved matches Ok(target)
            &&& target.canonical@ == answer
            &&& target.kind == Ok::<FileKind, String>(FileKind::Directory)
        },
        directory_outcome(path, probe) == Ok::<Option<Seq<u8>>, Seq<char>>(None) <==> path is None,
{
}

/// A directory is a FirstMate home exactly when it holds `AGENTS.md` as a regular file, and `bin` and
/// `state` as real directories.
pub proof fn firstmate_homes(home: Seq<u8>, probe: HomeProbe)
    ensures
        home_refusal(home, probe) is None <==> {
            &&& probe.agents_file == Some(FileKind::File)
            &&& probe.bin == Some(FileKind::Directory)
            &&& probe.state == Some(FileKind::Directory)
        },
{
}

/// A record is accepted exactly when its directory is, and for a FirstMate there has to be one and it
/// has to be a home; the answer is that directory.
pub proof fn accepted_records(
    record: ManagedAgentRecord,
    directory: DirectoryProbe,
    home: HomeProbe,
    answer: Option<Seq<u8>>,
)
    ensures
        record_outcome(record, directory, home) == Ok::<Option<Seq<u8>>, Seq<char>>(answer) <==> {
            &&& directory_outcome(crate::outcome::held(record.working_directory), directory) == Ok::<
                Option<Seq<u8>>,
                Seq<char>,
            >(answer)
            &&& record.firstmate ==> {
                &&& answer is Some
                &&& home.agents_file == Some(FileKind::File)
                &&& home.bin == Some(FileKind::Directory)
                &&& home.state == Some(FileKind::Directory)
            }
        },
{
}

} // verus!
