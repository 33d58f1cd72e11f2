//! The start, the check-up and the repair of a reserved port.

use vstd::prelude::*;

use crate::cli::daemon::{
    after_start_event, after_start_events, health_question, is_pid_useless, last_bytes, last_of,
    log_tail, ok_1_0, ok_1_1, port_from, recorded_pid, refusal, says_healthy, StartEvent,
    StartState,
};
use crate::cli::diagnostics::{
    diagnosis_of, first_column, first_listener, first_name, first_pid, holder_of, in_range,
    listener_on, range_is_found, range_of, range_with, ranges_of, says_in_use, task_name,
    DiagnosisModel, PortDiagnosis, PortListing,
};
use crate::cli::doctor::{
    checked_port, port_status_of, process_status_of, range_lines, settings_for_check,
    PortStatusModel, ProcessStatus,
};
use crate::cli::repair::{
    after_command, after_repair_event, argument_list, doubled_quotes, manual_of, quoted,
    quoting_is_undone, relaunch_of, repair_of, single_quotes, start_failure_of, step_result_of,
    ActionModel, OutcomeModel, ProgressModel, RepairEvent, StepModel,
};
use crate::cli::start::{greeting, settings_from};
use crate::config::ProxyConfig;
use crate::decimal::{decimal, decimal_injective, decimal_round_trip, is_digit};
use crate::laws::texts::{
    lines_end_at_line_feeds, numbers_are_read, part_stands_between, words_stand_between_white_space,
};
use crate::split::{find_char, find_char_stops, has_part, lines_of, words_of};
use crate::text::{
    drop_leading_run, drop_trailing, has_suffix, is_white_space, trimmed, trimmed_between, utf8_len,
};

verus! {

// ---------------------------------------------------------------------------
// The start
// ---------------------------------------------------------------------------

/// A model with its reasoning effort, as the greeting shows it.
pub open spec fn shown_model(model: Seq<char>, effort: Option<String>) -> Seq<char> {
    model + " (reasoning: "@ + match effort {
        Some(effort) => effort@,
        None => "none"@,
    } + ")"@
}

/// The greeting names each tier's own model and its own effort, where the
/// server listens, and whether a key is asked for.
pub proof fn greeting_shows_the_settings(config: ProxyConfig, version: Seq<char>)
    ensures
        ({
            let lines = greeting(config, version);
            &&& lines.len() == 7
            &&& lines[0] == "🚀 cc-proxy v"@ + version
            &&& lines[1] == "   Base URL:     "@ + config.openai_base_url@
            &&& lines[2] == "   Big Model:    "@ + shown_model(
                config.big_model@,
                config.big_reasoning,
            )
            &&& lines[3] == "   Middle Model: "@ + shown_model(
                match config.middle_model {
                    Some(model) => model@,
                    None => config.big_model@,
                },
                config.middle_reasoning,
            )
            &&& lines[4] == "   Small Model:  "@ + shown_model(
                config.small_model@,
                config.small_reasoning,
            )
            &&& lines[5] == "   Server:       "@ + (config.host@ + ":"@ + decimal(
                config.port as nat,
            ))
            &&& config.anthropic_api_key is Some ==> lines[6] == "   Auth:         "@ + "enabled"@
            &&& config.anthropic_api_key is None ==> lines[6] == "   Auth:         "@ + "disabled"@
        }),
{
    let lines = greeting(config, version);
    assert(lines[2] =~= "   Big Model:    "@ + shown_model(
        config.big_model@,
        config.big_reasoning,
    ));
    assert(lines[3] =~= "   Middle Model: "@ + shown_model(
        config.middle(),
        config.middle_reasoning,
    ));
    assert(lines[4] =~= "   Small Model:  "@ + shown_model(
        config.small_model@,
        config.small_reasoning,
    ));
}

proof fn waiting_goes_on(polls: Seq<StartEvent>)
    requires
        forall|i: int|
            0 <= i < polls.len() ==> #[trigger] polls[i] == (StartEvent::Polled {
                alive: true,
                healthy: false,
            }),
    ensures
        after_start_events(StartState::Waiting, polls) == StartState::Waiting,
    decreases polls.len(),
{
    if polls.len() > 0 {
        let rest = polls.drop_last();
        assert forall|i: int| 0 <= i < rest.len() implies #[trigger] rest[i] == (
        StartEvent::Polled { alive: true, healthy: false }) by {
            assert(rest[i] == polls[i]);
        }
        assert(polls[polls.len() - 1] == polls.last());
        waiting_goes_on(rest);
    }
}

/// On a free port the process is started and then watched, as long as it runs
/// without being well yet. When it is well, the start is done; when it has
/// ended, the start has failed and nothing runs; when the time is over, it has
/// failed and the process still runs.
pub proof fn start_takes_its_course(polls: Seq<StartEvent>)
    requires
        forall|i: int|
            0 <= i < polls.len() ==> #[trigger] polls[i] == (StartEvent::Polled {
                alive: true,
                healthy: false,
            }),
    ensures
        after_start_event(StartState::CheckingPort, StartEvent::PortFree) == StartState::Spawning,
        after_start_event(StartState::CheckingPort, StartEvent::PortTaken) == StartState::Refused,
        after_start_event(StartState::Spawning, StartEvent::Spawned) == StartState::Waiting,
        ({
            let watched = after_start_events(StartState::Waiting, polls);
            &&& watched == StartState::Waiting
            &&& after_start_event(watched, StartEvent::Polled { alive: true, healthy: true })
                == StartState::Started
            &&& after_start_event(watched, StartEvent::Polled { alive: false, healthy: true }) == (
            StartState::Failed { alive: false })
            &&& after_start_event(watched, StartEvent::Polled { alive: false, healthy: false }) == (
            StartState::Failed { alive: false })
            &&& after_start_event(watched, StartEvent::TimeOver) == (StartState::Failed {
                alive: true,
            })
        }),
{
    waiting_goes_on(polls);
}

/// A start that is done, has failed or was refused stays so.
pub proof fn end_of_the_start_is_final(state: StartState, event: StartEvent)
    requires
        state == StartState::Started || state == StartState::Refused || state is Failed,
    ensures
        after_start_event(state, event) == state,
{
}

/// The process id is read back from the file that it was written to, with white
/// space around it or not.
pub proof fn recorded_pid_is_read(pid: u32, before: Seq<char>, after: Seq<char>)
    requires
        forall|i: int| 0 <= i < before.len() ==> is_white_space(#[trigger] before[i]),
        forall|i: int| 0 <= i < after.len() ==> is_white_space(#[trigger] after[i]),
    ensures
        recorded_pid(before + decimal(pid as nat) + after) == Some(pid as nat),
{
    decimal_round_trip(pid as nat);
    let core = decimal(pid as nat);
    assert(is_digit(core[0]) && is_digit(core[core.len() - 1]));
    trimmed_between(before, core, after);
    numbers_are_read(pid as nat, u32::MAX as nat, Seq::empty());
}

/// The question for the health goes to the proxy's own port.
pub proof fn health_is_asked_at_the_port(port: u16)
    ensures
        health_question(port) == "GET /health HTTP/1.1\r\nHost: localhost:"@ + decimal(port as nat)
            + "\r\nConnection: close\r\n\r\n"@,
        forall|i: int|
            0 <= i < ok_1_1().len() ==> #[trigger] ok_1_1()[i] as int == "HTTP/1.1 200"@[i] as int,
        forall|i: int|
            0 <= i < ok_1_0().len() ==> #[trigger] ok_1_0()[i] as int == "HTTP/1.0 200"@[i] as int,
        ok_1_1().len() == "HTTP/1.1 200"@.len(),
        ok_1_0().len() == "HTTP/1.0 200"@.len(),
        has_part(refusal(port), decimal(port as nat)),
{
    reveal_strlit("HTTP/1.1 200");
    reveal_strlit("HTTP/1.0 200");
    part_stands_between(
        Seq::empty(),
        "端口 "@,
        decimal(port as nat),
        " 不可用，请先解决上述问题再启动"@,
    );
}

proof fn last_bytes_are_an_end(s: Seq<char>, bytes: nat)
    ensures
        ({
            let t = last_bytes(s, bytes);
            &&& t.len() <= s.len()
            &&& t == s.skip(s.len() - t.len())
            &&& utf8_len(t) <= bytes
            &&& t.len() < s.len() ==> utf8_len(s.skip(s.len() - t.len() - 1)) > bytes
        }),
    decreases s.len(),
{
    if utf8_len(s) <= bytes || s.len() == 0 {
        assert(s.skip(0) =~= s);
    } else {
        let u = s.skip(1);
        last_bytes_are_an_end(u, bytes);
        let t = last_bytes(u, bytes);
        assert(u.skip(u.len() - t.len()) =~= s.skip(s.len() - t.len()));
        if t.len() < u.len() {
            assert(u.skip(u.len() - t.len() - 1) =~= s.skip(s.len() - t.len() - 1));
        } else {
            assert(s.skip(s.len() - t.len() - 1) =~= s);
        }
    }
}

/// What is shown of a log is its end: all of it where it is short enough, and
/// else what its last bytes hold from the first line that they hold all of.
pub proof fn end_of_the_log_is_shown(content: Seq<char>, max: nat)
    ensures
        ({
            let tail = log_tail(content, max);
            let from = content.len() - tail.len();
            &&& from >= 0
            &&& tail == content.skip(from)
            &&& utf8_len(content) <= max ==> tail == content
            &&& utf8_len(content) > max ==> from > 0 && (content[from - 1] == '\n' || !has_part(
                tail,
                seq!['\n'],
            ))
        }),
{
    let tail = log_tail(content, max);
    if utf8_len(content) <= max {
        assert(content.skip(0) =~= content);
    } else {
        let t = last_bytes(content, max);
        last_bytes_are_an_end(content, max);
        find_char_stops(t, '\n');
        let end = find_char(t, '\n') as int;
        let at = content.len() - t.len();
        if end < t.len() {
            assert(tail =~= content.skip(at + end + 1));
            assert(content[at + end] == t[end]);
        } else {
            assert(tail == t);
            if has_part(tail, seq!['\n']) {
                part_stands_between(
                    tail,
                    Seq::empty(),
                    seq!['\n'],
                    Seq::empty(),
                );
                let (a, b) = choose|a: Seq<char>, b: Seq<char>|
                    tail == #[trigger] (a + seq!['\n'] + b);
                assert(tail[a.len() as int] == '\n');
            }
        }
        if at == 0 {
            assert(content.skip(0) =~= content);
        }
    }
}

/// Of the lines of a log, the last ones are shown.
pub proof fn last_lines_are_shown(lines: Seq<Seq<char>>, n: nat, i: int)
    requires
        0 <= i < last_of(lines, n).len(),
    ensures
        last_of(lines, n).len() == if lines.len() <= n {
            lines.len()
        } else {
            n
        },
        last_of(lines, n)[i] == lines[lines.len() - last_of(lines, n).len() + i],
{
}

// ---------------------------------------------------------------------------
// Reserved ranges
// ---------------------------------------------------------------------------

/// A run of blanks.
pub open spec fn is_blank(s: Seq<char>) -> bool {
    forall|i: int| 0 <= i < s.len() ==> is_white_space(#[trigger] s[i])
}

proof fn number_is_a_word(n: nat)
    ensures
        decimal(n).len() > 0,
        forall|i: int| 0 <= i < decimal(n).len() ==> !is_white_space(#[trigger] decimal(n)[i]),
        forall|i: int| 0 <= i < decimal(n).len() ==> #[trigger] decimal(n)[i] != ':',
{
    decimal_round_trip(n);
    assert forall|i: int| 0 <= i < decimal(n).len() implies !is_white_space(
        #[trigger] decimal(n)[i],
    ) && decimal(n)[i] != ':' by {
        assert(is_digit(decimal(n)[i]));
    }
}

/// A line with two numbers, with blanks around and between them, is the range
/// from the first to the second, where that is not smaller.
pub proof fn range_is_read(a: u16, b: u16, before: Seq<char>, between: Seq<char>, after: Seq<char>)
    requires
        is_blank(before),
        is_blank(between),
        is_blank(after),
        between.len() > 0,
    ensures
        range_of(before + (decimal(a as nat) + between + decimal(b as nat)) + after) == if a <= b {
            Some((a, b))
        } else {
            None
        },
{
    let x = decimal(a as nat);
    let y = decimal(b as nat);
    let core = x + between + y;
    number_is_a_word(a as nat);
    number_is_a_word(b as nat);
    assert(core[0] == x[0]);
    assert(core.last() == y[y.len() - 1]);
    trimmed_between(before, core, after);
    let none = Seq::<char>::empty();
    words_stand_between_white_space(none, x, between + y);
    assert(none + x + (between + y) =~= core);
    words_stand_between_white_space(between, y, none);
    assert(between + y + none =~= between + y);
    words_of_nothing();
    let columns = words_of(core);
    assert(columns =~= seq![x, y]);
    numbers_are_read(a as nat, u16::MAX as nat, none);
    numbers_are_read(b as nat, u16::MAX as nat, none);
}

proof fn words_of_nothing()
    ensures
        words_of(Seq::empty()).len() == 0,
{
    words_stand_between_white_space(Seq::empty(), seq!['a'], Seq::empty());
}

/// The ranges come in the order of their lines, and lines that hold none are
/// skipped.
pub proof fn ranges_keep_their_order(lines: Seq<Seq<char>>, line: Seq<char>)
    ensures
        ranges_of(Seq::empty()).len() == 0,
        range_of(line) matches Some(range) ==> ranges_of(lines.push(line)) == ranges_of(lines).push(
            range,
        ),
        range_of(line) is None ==> ranges_of(lines.push(line)) == ranges_of(lines),
{
    assert(lines.push(line).drop_last() =~= lines);
}

/// The range that is found is the first that holds the port.
pub proof fn first_range_is_found(ranges: Seq<(u16, u16)>, port: u16, k: int)
    requires
        0 <= k < ranges.len(),
        ranges[k].0 <= port <= ranges[k].1,
        forall|i: int|
            0 <= i < k ==> !((#[trigger] ranges[i]).0 <= port && port <= ranges[i].1),
    ensures
        range_with(ranges, port) == Some(ranges[k]),
    decreases k,
{
    if k > 0 {
        assert(!(ranges[0].0 <= port && port <= ranges[0].1));
        let rest = ranges.skip(1);
        assert(rest[k - 1] == ranges[k]);
        assert forall|i: int| 0 <= i < k - 1 implies !((#[trigger] rest[i]).0 <= port && port
            <= rest[i].1) by {
            assert(rest[i] == ranges[i + 1]);
        }
        first_range_is_found(rest, port, k - 1);
    }
}

/// A port in a reserved range is reserved, whoever is said to hold it; any
/// other is held by the process that is said to hold it; and where there is
/// none, nothing is known. The diagnosis names the port itself.
pub proof fn diagnosis_follows(port: u16, reserved: Seq<(u16, u16)>, holder: Option<(u32, String)>)
    ensures
        ({
            let d = diagnosis_of(port, reserved, holder);
            let is_reserved = exists|i: int|
                0 <= i < reserved.len() && (#[trigger] reserved[i]).0 <= port && port
                    <= reserved[i].1;
            &&& is_reserved ==> (d matches DiagnosisModel::WindowsReserved {
                port: p,
                reserved_range,
            } && p == port && reserved_range.0 <= port <= reserved_range.1 && reserved.contains(
                reserved_range,
            ))
            &&& !is_reserved ==> (holder matches Some((pid, name)) ==> d == (
            DiagnosisModel::HeldByProcess { port, pid, name: name@ }))
            &&& !is_reserved && holder is None ==> d == (DiagnosisModel::Unknown { port })
        }),
{
    range_is_found(reserved, port);
    if exists|i: int|
        0 <= i < reserved.len() && (#[trigger] reserved[i]).0 <= port && port <= reserved[i].1 {
        let i = choose|i: int|
            0 <= i < reserved.len() && (#[trigger] reserved[i]).0 <= port && port <= reserved[i].1;
        assert(in_range(port, reserved[i]));
    } else if range_with(reserved, port) is Some {
        let range = range_with(reserved, port)->0;
        let i = choose|i: int| 0 <= i < reserved.len() && reserved[i] == range;
        assert(reserved[i].0 <= port && port <= reserved[i].1);
    }
}

/// The numbers of macOS, Linux and Windows, and no others, say that an address
/// is in use.
pub proof fn numbers_for_in_use(code: i32)
    ensures
        says_in_use(48) && says_in_use(98) && says_in_use(10048),
        code != 48 && code != 98 && code != 10048 ==> !says_in_use(code),
{
}

// ---------------------------------------------------------------------------
// Processes
// ---------------------------------------------------------------------------

/// The port at the end of an address is that port and no other.
proof fn port_at_the_end(address: Seq<char>, port: u16, other: u16)
    ensures
        has_suffix(address + ":"@ + decimal(other as nat), ":"@ + decimal(port as nat)) <==> port
            == other,
{
    reveal_strlit(":");
    let d = decimal(other as nat);
    let e = decimal(port as nat);
    let s = address + ":"@ + d;
    let t = ":"@ + e;
    number_is_a_word(other as nat);
    number_is_a_word(port as nat);
    if port == other {
        assert(s.skip(s.len() - t.len()) =~= t);
    }
    if has_suffix(s, t) {
        let u = s.skip(s.len() - t.len());
        assert(u == t);
        if e.len() == d.len() {
            assert(u =~= ":"@ + d);
            assert(t.skip(1) =~= e);
            assert(u.skip(1) =~= d);
            decimal_injective(port as nat, other as nat);
        } else if e.len() < d.len() {
            assert(u[0] == ':');
            assert(u[0] == d[d.len() - e.len() - 1]);
        } else {
            let at = e.len() - d.len();
            assert(u[at as int] == ':');
            assert(t[at as int] == e[at - 1]);
        }
    }
}

/// A line about a listener names its process exactly where the address that it
/// listens on has the port at its end; a line about another port, or about no
/// listener, names none.
pub proof fn listener_is_read(line: Seq<char>, address: Seq<char>, other: u16, port: u16, pid: u32)
    requires
        words_of(trimmed(line)).len() >= 2,
        words_of(trimmed(line))[1] == address + ":"@ + decimal(other as nat),
        words_of(trimmed(line)).last() == decimal(pid as nat),
    ensures
        listener_on(line, port) == if has_part(trimmed(line), "LISTENING"@) && port == other {
            Some(pid as nat)
        } else {
            None
        },
{
    port_at_the_end(address, port, other);
    numbers_are_read(pid as nat, u32::MAX as nat, Seq::empty());
}

/// The first line about a listener on the port counts.
pub proof fn first_listener_counts(lines: Seq<Seq<char>>, line: Seq<char>, port: u16)
    ensures
        first_listener(Seq::empty(), port) is None,
        listener_on(line, port) matches Some(pid) ==> first_listener(seq![line] + lines, port)
            == Some(pid),
        listener_on(line, port) is None ==> first_listener(seq![line] + lines, port)
            == first_listener(lines, port),
{
    assert((seq![line] + lines).skip(1) =~= lines);
}

/// In a listing of `lsof`, a line marked `p` names the process id and one
/// marked `c` the name; the first of each counts.
pub proof fn marks_name_the_process(lines: Seq<Seq<char>>, pid: u32, name: Seq<char>)
    ensures
        first_pid(seq![seq!['p'] + decimal(pid as nat)] + lines) == Some(pid as nat),
        first_name(seq![seq!['c'] + name] + lines) == Some(name),
        first_pid(seq![seq!['c'] + name] + lines) == first_pid(lines),
        first_name(seq![seq!['p'] + decimal(pid as nat)] + lines) == first_name(lines),
        first_pid(Seq::empty()) is None,
        first_name(Seq::empty()) is None,
{
    let p = seq!['p'] + decimal(pid as nat);
    let c = seq!['c'] + name;
    assert(p.skip(1) =~= decimal(pid as nat));
    assert(c.skip(1) =~= name);
    assert((seq![p] + lines).skip(1) =~= lines);
    assert((seq![c] + lines).skip(1) =~= lines);
    numbers_are_read(pid as nat, u32::MAX as nat, Seq::empty());
}

proof fn trailing_quote(name: Seq<char>)
    requires
        name.len() > 0,
        name.last() != '"',
    ensures
        drop_trailing(name.push('"'), '"') == name,
{
    reveal_with_fuel(drop_trailing, 2);
    assert(name.push('"').drop_last() =~= name);
}

/// The name of a process is the first column of its line, without its quotes.
pub proof fn first_column_is_the_name(name: Seq<char>, rest: Seq<char>)
    requires
        name.len() > 0,
        name[0] != '"',
        name.last() != '"',
        forall|i: int| 0 <= i < name.len() ==> name[i] != ',',
    ensures
        first_column(seq!['"'] + name + seq!['"', ','] + rest) == name,
{
    let line = seq!['"'] + name + seq!['"', ','] + rest;
    let end = name.len() as int + 2;
    find_char_stops(line, ',');
    let f = find_char(line, ',') as int;
    assert(line[end] == ',');
    if f < end {
        assert(line[f] == ',');
        if f > 0 && f < end - 1 {
            assert(line[f] == name[f - 1]);
        }
    }
    let column = line.take(end);
    assert(column =~= seq!['"'] + name.push('"'));
    drop_leading_run(seq!['"'], name.push('"'), '"');
    trailing_quote(name);
}

/// The holder of a port is the process that the listing names, with its name;
/// where the name cannot be found, it is `unknown`. Without a listing nothing
/// is known.
pub proof fn holder_follows(port: u16, listing: String, task: String)
    ensures
        holder_of(port, PortListing::Unavailable) is None,
        first_pid(lines_of(listing@)) is None ==> holder_of(
            port,
            PortListing::Lsof(listing),
        ) is None,
        first_pid(lines_of(listing@)) matches Some(pid) ==> holder_of(
            port,
            PortListing::Lsof(listing),
        ) == Some(
            (
                pid,
                match first_name(lines_of(listing@)) {
                    Some(name) => name,
                    None => "unknown"@,
                },
            ),
        ),
        first_listener(lines_of(listing@), port) is None ==> holder_of(
            port,
            PortListing::Netstat { listing, task: Some(task) },
        ) is None,
        first_listener(lines_of(listing@), port) matches Some(pid) ==> {
            &&& holder_of(port, PortListing::Netstat { listing, task: None }) == Some(
                (pid, "unknown"@),
            )
            &&& task_name(task@) matches Some(name) ==> holder_of(
                port,
                PortListing::Netstat { listing, task: Some(task) },
            ) == Some((pid, name))
            &&& task_name(task@) is None ==> holder_of(
                port,
                PortListing::Netstat { listing, task: Some(task) },
            ) == Some((pid, "unknown"@))
        },
{
}

// ---------------------------------------------------------------------------
// The check-up
// ---------------------------------------------------------------------------

/// Each range that is shown has its place, its two ends, how many ports it
/// holds, and whether the port is one of them. At most ten are shown, the first
/// ones.
pub proof fn ranges_are_shown(ranges: Seq<(u16, u16)>, port: u16, i: int)
    requires
        0 <= i < range_lines(ranges, port).len(),
        ranges[i].0 <= ranges[i].1,
    ensures
        range_lines(ranges, port).len() == if ranges.len() <= 10 {
            ranges.len()
        } else {
            10
        },
        ({
            let line = range_lines(ranges, port)[i];
            &&& line.number == i + 1
            &&& line.start == ranges[i].0
            &&& line.end == ranges[i].1
            &&& line.count == ranges[i].1 - ranges[i].0 + 1
            &&& line.hit <==> ranges[i].0 <= port && port <= ranges[i].1
        }),
{
}

/// A reserved port is trouble; so is one that another process holds, but not
/// one that the recorded process holds; and any other port is free.
pub proof fn port_is_judged(
    port: u16,
    range: (u16, u16),
    pid: u32,
    own: u32,
    name: Seq<char>,
    running: bool,
    alive: bool,
)
    ensures
        ({
            let reserved = DiagnosisModel::WindowsReserved { port, reserved_range: range };
            let held = DiagnosisModel::HeldByProcess { port, pid, name };
            &&& port_status_of(reserved, running, Some((own, alive))) == PortStatusModel::Trouble(
                reserved,
            )
            &&& port_status_of(reserved, running, None) == PortStatusModel::Trouble(reserved)
            &&& port_status_of(held, running, None) == PortStatusModel::Trouble(held)
            &&& own == pid ==> port_status_of(held, running, Some((own, alive))) == (
            PortStatusModel::OwnPort { pid, name })
            &&& own != pid ==> port_status_of(held, running, Some((own, alive)))
                == PortStatusModel::Trouble(held)
            &&& port_status_of(
                DiagnosisModel::Unknown { port },
                running,
                Some((own, alive)),
            ) == (PortStatusModel::Free { running })
            &&& port_status_of(DiagnosisModel::Unknown { port }, running, None) == (
            PortStatusModel::Free { running })
        }),
{
}

/// A proxy that answers runs; one that does not is silent where the recorded
/// process runs, gone where it has ended, and stopped where none is recorded.
pub proof fn process_is_judged(pid: u32, alive: bool)
    ensures
        process_status_of(true, Some((pid, alive))) == (ProcessStatus::Running { pid: Some(pid) }),
        process_status_of(true, None) == (ProcessStatus::Running { pid: None }),
        process_status_of(false, Some((pid, true))) == (ProcessStatus::Silent { pid }),
        process_status_of(false, Some((pid, false))) == (ProcessStatus::Gone { pid }),
        process_status_of(false, None) == ProcessStatus::Stopped,
{
}

/// The port that is looked at is that of the settings, or else the default.
pub proof fn settings_name_the_port(config: ProxyConfig)
    ensures
        checked_port(Some(config)) == config.port,
        checked_port(None) == 8082,
{
}

// ---------------------------------------------------------------------------
// The repair
// ---------------------------------------------------------------------------

/// The words with blanks between them.
pub open spec fn spaced(words: Seq<Seq<char>>) -> Seq<char>
    decreases words.len(),
{
    if words.len() == 0 {
        Seq::empty()
    } else if words.len() == 1 {
        words[0]
    } else {
        spaced(words.drop_last()) + " "@ + words.last()
    }
}

/// The service is stopped first and started again last, and between them just
/// the port is excluded.
pub proof fn repair_excludes_the_port(port: u16)
    ensures
        ({
            let commands = repair_of(port);
            &&& commands.len() == 3
            &&& commands[0].program == "net"@
            &&& commands[0].args == seq!["stop"@, "winnat"@]
            &&& commands[1].program == "netsh"@
            &&& commands[1].args == seq![
                "int"@,
                "ipv4"@,
                "add"@,
                "excludedportrange"@,
                "protocol=tcp"@,
                "startport="@ + decimal(port as nat),
                "numberofports=1"@,
            ]
            &&& commands[2].program == "net"@
            &&& commands[2].args == seq!["start"@, "winnat"@]
        }),
{
}

proof fn two_words(a: Seq<char>, b: Seq<char>)
    ensures
        spaced(seq![a, b]) == a + " "@ + b,
{
    reveal_with_fuel(spaced, 3);
    assert(seq![a, b].drop_last() =~= seq![a]);
}

/// A repair by hand takes the same commands in the same order.
pub proof fn repair_by_hand_is_the_same(port: u16)
    ensures
        manual_of(port).len() == repair_of(port).len(),
        manual_of(port)[0] == repair_of(port)[0].program + " "@ + spaced(repair_of(port)[0].args),
        manual_of(port)[1] == repair_of(port)[1].program + " "@ + spaced(repair_of(port)[1].args),
        manual_of(port)[2] == repair_of(port)[2].program + " "@ + spaced(repair_of(port)[2].args),
{
    reveal_strlit("net");
    reveal_strlit("netsh");
    reveal_strlit("stop");
    reveal_strlit("start");
    reveal_strlit("winnat");
    reveal_strlit(" ");
    reveal_strlit("net stop winnat");
    reveal_strlit("net start winnat");
    two_words("stop"@, "winnat"@);
    two_words("start"@, "winnat"@);
    assert("net"@ + " "@ + ("stop"@ + " "@ + "winnat"@) =~= "net stop winnat"@);
    assert("net"@ + " "@ + ("start"@ + " "@ + "winnat"@) =~= "net start winnat"@);
    reveal_strlit("int");
    reveal_strlit("ipv4");
    reveal_strlit("add");
    reveal_strlit("excludedportrange");
    reveal_strlit("protocol=tcp");
    reveal_strlit("startport=");
    reveal_strlit("numberofports=1");
    reveal_strlit("netsh int ipv4 add excludedportrange protocol=tcp startport=");
    reveal_strlit(" numberofports=1");
    let args = repair_of(port)[1].args;
    let a6 = args.take(6);
    let a5 = args.take(5);
    let a4 = args.take(4);
    let a3 = args.take(3);
    two_words("int"@, "ipv4"@);
    assert(args.drop_last() =~= a6);
    assert(a6.drop_last() =~= a5);
    assert(a5.drop_last() =~= a4);
    assert(a4.drop_last() =~= a3);
    assert(a3.drop_last() =~= seq!["int"@, "ipv4"@]);
    assert(spaced(a3) == spaced(seq!["int"@, "ipv4"@]) + " "@ + "add"@);
    assert(spaced(a4) == spaced(a3) + " "@ + "excludedportrange"@);
    assert(spaced(a5) == spaced(a4) + " "@ + "protocol=tcp"@);
    assert(spaced(a6) == spaced(a5) + " "@ + ("startport="@ + decimal(port as nat)));
    assert(spaced(args) == spaced(a6) + " "@ + "numberofports=1"@);
    let head = "netsh int ipv4 add excludedportrange protocol=tcp startport="@;
    assert("netsh"@ + " "@ + (spaced(a5) + " "@ + "startport="@) =~= head);
    assert("netsh"@ + " "@ + spaced(args) =~= head + decimal(port as nat) + " numberofports=1"@);
}

/// A command that succeeds is done. Of those that fail, only the exclusion may,
/// where the port is excluded already; every other failure is told with the
/// command's label and with what it printed, and a program that could not be
/// started with its cause.
pub proof fn results_are_judged(
    index: usize,
    label: Seq<char>,
    stdout: Seq<char>,
    stderr: Seq<char>,
)
    ensures
        step_result_of(index, label, false, stdout, stderr) matches StepModel::Failed(message)
            ==> message == label + " 失败:\n  stdout: "@ + trimmed(stdout) + "\n  stderr: "@
            + trimmed(stderr),
        start_failure_of(label, stderr) == StepModel::Failed(
            "执行 "@ + label + " 失败: "@ + stderr,
        ),
        step_result_of(index, label, true, stdout, stderr) is Done,
        index == 1 && (has_part(stderr, "already exists"@) || has_part(stderr, "已存在"@))
            ==> step_result_of(index, label, false, stdout, stderr) is AlreadyExcluded,
        index != 1 ==> step_result_of(index, label, false, stdout, stderr) is Failed,
        !has_part(stderr, "already exists"@) && !has_part(stderr, "已存在"@) ==> step_result_of(
            index,
            label,
            false,
            stdout,
            stderr,
        ) is Failed,
{
}

/// After a command the next one runs; behind the last one all is done; and a
/// failure is told as it is.
pub proof fn commands_follow_each_other(index: nat, message: Seq<char>)
    ensures
        after_command(index, StepModel::Failed(message)) == ProgressModel::Broken(message),
        index < 2 ==> after_command(index, StepModel::Done) == ProgressModel::Run(index + 1),
        index < 2 ==> after_command(index, StepModel::AlreadyExcluded) == ProgressModel::Run(
            index + 1,
        ),
        index >= 2 ==> after_command(index, StepModel::Done) is Done,
        index >= 2 ==> after_command(index, StepModel::AlreadyExcluded) is Done,
{
}

/// The course of the repair: a reserved port leads to the question for rights;
/// with them the repair runs, and then the port is looked at again; without
/// them another process is started with them. A port that is held, or of which
/// nothing is known, is left alone. What is found stands in the outcome.
pub proof fn repair_takes_its_course(
    port: u16,
    range: (u16, u16),
    pid: u32,
    name: String,
    cause: String,
    any: (u16, u16),
)
    ensures
        after_repair_event(
            ActionModel::Diagnose,
            RepairEvent::Diagnosed(PortDiagnosis::WindowsReserved { port, reserved_range: range }),
        ) == (ActionModel::CheckRights { range }),
        after_repair_event(
            ActionModel::Diagnose,
            RepairEvent::Diagnosed(PortDiagnosis::HeldByProcess { port, pid, name }),
        ) == ActionModel::Stop(OutcomeModel::HeldByProcess { pid, name: name@ }),
        after_repair_event(
            ActionModel::Diagnose,
            RepairEvent::Diagnosed(PortDiagnosis::Unknown { port }),
        ) == ActionModel::Stop(OutcomeModel::NotNeeded),
        after_repair_event(ActionModel::CheckRights { range: any }, RepairEvent::Rights(true))
            == ActionModel::Repair,
        after_repair_event(ActionModel::CheckRights { range: any }, RepairEvent::Rights(false))
            == ActionModel::Relaunch,
        after_repair_event(ActionModel::Relaunch, RepairEvent::Relaunched(Ok(())))
            == ActionModel::Stop(OutcomeModel::DoneByOther),
        after_repair_event(ActionModel::Relaunch, RepairEvent::Relaunched(Err(cause)))
            == ActionModel::Stop(OutcomeModel::NoRights(cause@)),
        after_repair_event(ActionModel::Repair, RepairEvent::Repaired(Ok(())))
            == ActionModel::Verify,
        after_repair_event(ActionModel::Repair, RepairEvent::Repaired(Err(cause)))
            == ActionModel::Stop(OutcomeModel::Broken(cause@)),
        after_repair_event(
            ActionModel::Verify,
            RepairEvent::Diagnosed(PortDiagnosis::WindowsReserved { port, reserved_range: range }),
        ) == ActionModel::Stop(OutcomeModel::StillReserved),
        after_repair_event(
            ActionModel::Verify,
            RepairEvent::Diagnosed(PortDiagnosis::Unknown { port }),
        ) == ActionModel::Stop(OutcomeModel::Fixed),
{
}

/// The program and each of its arguments are handed on quoted, in their order,
/// to be run with the rights of an administrator.
pub proof fn relaunch_hands_on_the_arguments(
    exe: Seq<char>,
    args: Seq<Seq<char>>,
    arg: Seq<char>,
)
    ensures
        argument_list(seq![arg]) == quoted(arg),
        args.len() > 0 ==> argument_list(args.push(arg)) == argument_list(args) + ","@ + quoted(
            arg,
        ),
        relaunch_of(exe, Seq::empty()) == "Start-Process -FilePath "@ + quoted(exe)
            + " -ArgumentList "@ + "@()"@ + " -Verb RunAs -Wait"@,
        args.len() > 0 ==> relaunch_of(exe, args) == "Start-Process -FilePath "@ + quoted(exe)
            + " -ArgumentList "@ + argument_list(args) + " -Verb RunAs -Wait"@,
{
    assert(args.push(arg).drop_last() =~= args);
}

/// A quoted text stands between single quotes, and what stands there is read
/// back as the text.
pub proof fn quoted_text_is_read_back(s: Seq<char>)
    ensures
        quoted(s).len() >= 2,
        quoted(s)[0] == '\'',
        quoted(s).last() == '\'',
        single_quotes(quoted(s).subrange(1, quoted(s).len() - 1)) == s,
{
    reveal_strlit("'");
    quoting_is_undone(s);
    assert(quoted(s).subrange(1, quoted(s).len() - 1) =~= doubled_quotes(s));
}

/// A line with another mark, or with none, names nothing.
pub proof fn other_lines_name_nothing(lines: Seq<Seq<char>>, line: Seq<char>)
    ensures
        line.len() == 0 || line[0] != 'p' ==> first_pid(seq![line] + lines) == first_pid(lines),
        line.len() == 0 || line[0] != 'c' ==> first_name(seq![line] + lines) == first_name(lines),
{
    assert((seq![line] + lines).skip(1) =~= lines);
}

/// A listing of `tasklist` names the process in the first column of its first
/// line, and an empty one names none.
pub proof fn task_is_named(name: Seq<char>, rest: Seq<char>, more: Seq<char>)
    requires
        name.len() > 0,
        name[0] != '"',
        name.last() != '"',
        forall|i: int| 0 <= i < name.len() ==> name[i] != ',' && name[i] != '\n',
        forall|i: int| 0 <= i < rest.len() ==> rest[i] != '\n',
        rest.len() > 0 ==> rest.last() != '\r',
    ensures
        task_name(seq!['"'] + name + seq!['"', ','] + rest + seq!['\r', '\n'] + more) == Some(name),
        task_name(Seq::empty()) is None,
{
    let line = seq!['"'] + name + seq!['"', ','] + rest;
    assert forall|i: int| 0 <= i < line.len() implies line[i] != '\n' by {
        if 0 < i <= name.len() {
            assert(line[i] == name[i - 1]);
        } else if i >= name.len() + 3 {
            assert(line[i] == rest[i - name.len() - 3]);
        }
    }
    assert(line.last() != '\r') by {
        if rest.len() > 0 {
            assert(line.last() == rest.last());
        } else {
            assert(line.last() == ',');
        }
    }
    lines_end_at_line_feeds(line, more);
    lines_end_at_line_feeds(Seq::empty(), Seq::empty());
    first_column_is_the_name(name, rest);
}

/// The port of the settings file counts before that of the environment, and
/// that before the default.
pub proof fn file_comes_before_environment(port: u16, other: Option<u16>)
    ensures
        port_from(Some(port), other) == port,
        port_from(None, Some(port)) == port,
        port_from(None, None) == 8082,
{
}

/// The settings file counts before the environment, also where it cannot be
/// read; the check-up goes by the environment then.
pub proof fn settings_come_from_the_file(
    file: Result<ProxyConfig, String>,
    environment: Result<ProxyConfig, String>,
)
    ensures
        settings_from(Some(file), environment) == file,
        settings_from(None, environment) == environment,
        file matches Ok(config) ==> settings_for_check(Some(file), environment) == Some(config),
        file is Err ==> settings_for_check(Some(file), environment) == settings_for_check(
            None,
            environment,
        ),
        environment matches Ok(config) ==> settings_for_check(None, environment) == Some(config),
        environment is Err ==> settings_for_check(None, environment) is None,
{
}

/// The record of a process is dropped just where the start has failed and the
/// process has ended.
pub proof fn record_of_an_ended_process_is_dropped(state: StartState)
    ensures
        is_pid_useless(StartState::Failed { alive: false }),
        !is_pid_useless(StartState::Failed { alive: true }),
        !(state is Failed) ==> !is_pid_useless(state),
{
}

/// An answer says that all is well where it begins with a success of either
/// version of HTTP.
pub proof fn success_says_that_all_is_well(answer: Seq<u8>, rest: Seq<u8>)
    ensures
        says_healthy(ok_1_1() + rest),
        says_healthy(ok_1_0() + rest),
        says_healthy(answer) ==> answer.len() >= 12 && (answer.take(12) == ok_1_1() || answer.take(
            12,
        ) == ok_1_0()),
{
    assert((ok_1_1() + rest).take(12) =~= ok_1_1());
    assert((ok_1_0() + rest).take(12) =~= ok_1_0());
}

} // verus!
