//! The proxy in the background.

use vstd::prelude::*;

use crate::decimal::{
    decimal, decimal_round_trip, decimal_text, is_digit, parse_unsigned, parsed_unsigned,
};
use crate::server::bytes_begin;
use crate::split::{contains, find_char, find_char_stops, has_part, lines, lines_of, position, texts};
use crate::text::{
    byte_len, chars_of, text_of, trim, trimmed, trimmed_between, utf8_len, utf8_len_concat,
    width_of,
};

verus! {

/// The port where none is set.
pub const DEFAULT_PORT: u16 = 8082;

/// How many seconds a process in the background has to answer.
pub const START_SECONDS: u64 = 3;

/// How many milliseconds lie between two looks at it.
pub const POLL_MILLIS: u64 = 200;

/// How many bytes of the log are looked at after a failure.
pub const TAIL_BYTES: usize = 2048;

/// How many lines of it are shown.
pub const TAIL_LINES: usize = 15;

/// The port of the proxy.
pub open spec fn port_from(file: Option<u16>, environment: Option<u16>) -> u16 {
    match file {
        Some(port) => port,
        None => match environment {
            Some(port) => port,
            None => DEFAULT_PORT,
        },
    }
}

/// The port of the proxy: that of the settings file, or else that of the
/// environment, or else the default.
pub fn configured_port(file: Option<u16>, environment: Option<u16>) -> (r: u16)
    ensures
        r == match file {
            Some(port) => port,
            None => match environment {
                Some(port) => port,
                None => DEFAULT_PORT,
            },
        },
        r == port_from(file, environment),
{
    match file {
        Some(port) => port,
        None => match environment {
            Some(port) => port,
            None => DEFAULT_PORT,
        },
    }
}

// ---------------------------------------------------------------------------
// The file with the process id
// ---------------------------------------------------------------------------

/// The process id that the text of the file stands for.
pub open spec fn recorded_pid(text: Seq<char>) -> Option<nat> {
    parsed_unsigned(trimmed(text), u32::MAX as nat)
}

/// The text of the file for a process id.
pub fn pid_text(pid: u32) -> (r: String)
    ensures
        r@ == decimal(pid as nat),
{
    decimal_text(pid as u64)
}

/// Reads the process id out of the text of the file.
pub fn parse_pid(text: &str) -> (r: Option<u32>)
    ensures
        match r {
            Some(pid) => recorded_pid(text@) == Some(pid as nat),
            None => recorded_pid(text@) is None,
        },
{
    parse_unsigned(trim(text).as_str(), 0xffff_ffff)
}

/// A process id that was written to the file is read back.
pub proof fn pid_is_read_back(pid: u32)
    ensures
        recorded_pid(decimal(pid as nat)) == Some(pid as nat),
{
    let text = decimal(pid as nat);
    decimal_round_trip(pid as nat);
    assert(is_digit(text[0]));
    assert(is_digit(text[text.len() - 1]));
    trimmed_between(Seq::empty(), text, Seq::empty());
    assert(Seq::<char>::empty() + text + Seq::<char>::empty() =~= text);
}

/// Tells whether a listing of `tasklist` mentions the process.
pub fn is_listed(listing: &str, pid: u32) -> (r: bool)
    ensures
        r == has_part(listing@, decimal(pid as nat)),
{
    contains(listing, decimal_text(pid as u64).as_str())
}

// ---------------------------------------------------------------------------
// The question for its health
// ---------------------------------------------------------------------------

/// The request for the proxy's health.
pub open spec fn health_question(port: u16) -> Seq<char> {
    "GET /health HTTP/1.1\r\nHost: localhost:"@ + decimal(port as nat)
        + "\r\nConnection: close\r\n\r\n"@
}

/// The request for the proxy's health.
pub fn health_request(port: u16) -> (r: String)
    ensures
        r@ == health_question(port),
{
    let mut out = "GET /health HTTP/1.1\r\nHost: localhost:".to_string();
    out.push_str(decimal_text(port as u64).as_str());
    out.push_str("\r\nConnection: close\r\n\r\n");
    out
}

/// `HTTP/1.1 200`
pub open spec fn ok_1_1() -> Seq<u8> {
    seq![72, 84, 84, 80, 47, 49, 46, 49, 32, 50, 48, 48]
}

/// `HTTP/1.0 200`
pub open spec fn ok_1_0() -> Seq<u8> {
    seq![72, 84, 84, 80, 47, 49, 46, 48, 32, 50, 48, 48]
}

/// The first bytes of an answer say that all is well.
pub open spec fn says_healthy(answer: Seq<u8>) -> bool {
    bytes_begin(answer, ok_1_1()) || bytes_begin(answer, ok_1_0())
}

/// Tells whether the first bytes of an answer say that all is well.
pub fn is_healthy_answer(answer: &Vec<u8>) -> (r: bool)
    ensures
        r == (bytes_begin(answer@, ok_1_1()) || bytes_begin(answer@, ok_1_0())),
        r == says_healthy(answer@),
{
    if answer.len() < 12 {
        return false;
    }
    let common = answer[0] == 72 && answer[1] == 84 && answer[2] == 84 && answer[3] == 80
        && answer[4] == 47 && answer[5] == 49 && answer[6] == 46 && answer[8] == 32 && answer[9]
        == 50 && answer[10] == 48 && answer[11] == 48;
    let known = answer[7] == 49 || answer[7] == 48;
    let ghost head = answer@.take(12);
    proof {
        if common && answer@[7] == 49 {
            assert(head =~= ok_1_1());
        }
        if common && answer@[7] == 48 {
            assert(head =~= ok_1_0());
        }
        assert(forall|i: int| 0 <= i < 12 ==> head[i] == answer@[i]);
        if head == ok_1_1() || head == ok_1_0() {
            assert(head[0] == 72 && head[1] == 84 && head[2] == 84 && head[3] == 80);
            assert(head[4] == 47 && head[5] == 49 && head[6] == 46);
            assert(head[8] == 32 && head[9] == 50 && head[10] == 48 && head[11] == 48);
            assert(head[7] == 49 || head[7] == 48);
        }
    }
    common && known
}

// ---------------------------------------------------------------------------
// The log
// ---------------------------------------------------------------------------

/// `s` can be cut in front of its last `bytes` bytes.
pub open spec fn can_cut(s: Seq<char>, bytes: nat) -> bool {
    exists|k: int| 0 <= k <= s.len() && bytes == #[trigger] utf8_len(s.skip(k))
}

/// The last `bytes` bytes of `s`.
pub open spec fn last_bytes(s: Seq<char>, bytes: nat) -> Seq<char>
    decreases s.len(),
{
    if utf8_len(s) <= bytes || s.len() == 0 {
        s
    } else {
        last_bytes(s.skip(1), bytes)
    }
}

/// `s` from its second line on; all of it where there is only one.
pub open spec fn whole_lines(s: Seq<char>) -> Seq<char> {
    let end = find_char(s, '\n');
    if end < s.len() {
        s.skip(end as int + 1)
    } else {
        s
    }
}

/// The end of a log: all of it where it has at most `max` bytes, and else what
/// its last `max` bytes hold from their second line on.
pub open spec fn log_tail(content: Seq<char>, max: nat) -> Seq<char> {
    if utf8_len(content) <= max {
        content
    } else {
        whole_lines(last_bytes(content, max))
    }
}

/// Dropping the first character takes its width off the size.
proof fn width_of_first(s: Seq<char>)
    requires
        s.len() > 0,
    ensures
        utf8_len(s) == utf8_len(seq![s[0]]) + utf8_len(s.skip(1)),
        utf8_len(seq![s[0]]) == crate::text::char_width(s[0]),
{
    assert(s =~= seq![s[0]] + s.skip(1));
    utf8_len_concat(seq![s[0]], s.skip(1));
    assert(seq![s[0]].drop_last() =~= Seq::<char>::empty());
    assert(utf8_len(Seq::<char>::empty()) == 0);
    assert(seq![s[0]].last() == s[0]);
}

/// Where the text can be cut, the last bytes are exactly so many.
proof fn last_bytes_fit(s: Seq<char>, bytes: nat)
    requires
        can_cut(s, bytes),
    ensures
        utf8_len(last_bytes(s, bytes)) == bytes,
    decreases s.len(),
{
    let k = choose|k: int| 0 <= k <= s.len() && bytes == #[trigger] utf8_len(s.skip(k));
    if k == 0 {
        assert(s.skip(0) =~= s);
    } else {
        width_of_first(s);
        sizes_shrink(s.skip(1), k - 1);
        assert(s.skip(1).skip(k - 1) =~= s.skip(k));
        assert(can_cut(s.skip(1), bytes));
        last_bytes_fit(s.skip(1), bytes);
    }
}

proof fn sizes_shrink(s: Seq<char>, k: int)
    requires
        0 <= k <= s.len(),
    ensures
        utf8_len(s.skip(k)) <= utf8_len(s),
{
    assert(s =~= s.take(k) + s.skip(k));
    utf8_len_concat(s.take(k), s.skip(k));
}

/// The end of a log that is to be shown.
pub fn read_log_tail(content: &str, max_bytes: usize) -> (r: String)
    requires
        utf8_len(content@) > max_bytes ==> can_cut(content@, max_bytes as nat),
    ensures
        r@ == log_tail(content@, max_bytes as nat),
        utf8_len(r@) <= max_bytes,
{
    let size: usize = byte_len(content);
    if size <= max_bytes {
        return content.to_string();
    }
    let chars = chars_of(content);
    let mut left: usize = size;
    let mut from: usize = 0;
    assert(chars@.skip(0) =~= chars@);
    while from < chars.len() && left > max_bytes
        invariant
            chars@ == content@,
            from <= chars@.len(),
            left == utf8_len(chars@.skip(from as int)),
            last_bytes(content@, max_bytes as nat) == last_bytes(
                chars@.skip(from as int),
                max_bytes as nat,
            ),
        decreases chars.len() - from,
    {
        proof {
            width_of_first(chars@.skip(from as int));
            assert(chars@.skip(from as int)[0] == chars@[from as int]);
            assert(chars@.skip(from as int).skip(1) =~= chars@.skip(from + 1));
        }
        left -= width_of(chars[from]);
        from += 1;
    }
    let ghost tail = chars@.skip(from as int);
    assert(tail == last_bytes(content@, max_bytes as nat));
    let end: usize = position(&chars, from, '\n');
    proof {
        last_bytes_fit(content@, max_bytes as nat);
        find_char_stops(tail, '\n');
    }
    let start: usize = if end < chars.len() {
        end + 1
    } else {
        from
    };
    let out = text_of(&chars, start, chars.len());
    proof {
        assert(out@ =~= whole_lines(tail));
        if end < chars@.len() {
            sizes_shrink(tail, end - from + 1);
        }
    }
    out
}

/// The last `n` of the lines.
pub open spec fn last_of(lines: Seq<Seq<char>>, n: nat) -> Seq<Seq<char>> {
    if lines.len() <= n {
        lines
    } else {
        lines.skip(lines.len() - n)
    }
}

/// The lines of a log that are shown: the last `n`, without the white space
/// around all of it.
pub fn shown_lines(tail: &str, n: usize) -> (r: Vec<String>)
    ensures
        texts(r@) == last_of(lines_of(trimmed(tail@)), n as nat),
{
    let text = trim(tail);
    let all = lines(text.as_str());
    let ghost models = texts(all@);
    let from: usize = if all.len() <= n {
        0
    } else {
        all.len() - n
    };
    let mut out: Vec<String> = Vec::new();
    let mut i: usize = from;
    while i < all.len()
        invariant
            from <= i <= all@.len(),
            models == texts(all@),
            texts(out@) == models.subrange(from as int, i as int),
        decreases all.len() - i,
    {
        let ghost so_far = texts(out@);
        out.push(all[i].clone());
        assert(texts(out@) =~= so_far.push(models[i as int]));
        assert(texts(out@) =~= models.subrange(from as int, i + 1));
        i += 1;
    }
    assert(texts(out@) =~= last_of(models, n as nat));
    out
}

// ---------------------------------------------------------------------------
// The start
// ---------------------------------------------------------------------------

/// How far the start in the background has come.
#[derive(Debug, Clone, Copy, PartialEq, Eq, Structural)]
pub enum StartState {
    /// The port is tried out.
    CheckingPort,
    /// The port cannot be used; nothing is started.
    Refused,
    /// The process is started.
    Spawning,
    /// The process is asked for its health.
    Waiting,
    /// The process works.
    Started,
    /// The process does not work; `alive` says whether it still runs.
    Failed { alive: bool },
}

/// What the last action led to.
#[derive(Debug, Clone, Copy, PartialEq, Eq, Structural)]
pub enum StartEvent {
    PortFree,
    PortTaken,
    Spawned,
    /// A look at the process.
    Polled { alive: bool, healthy: bool },
    /// The time is over.
    TimeOver,
}

/// The state after an event. An event that the state does not wait for changes
/// nothing.
pub open spec fn after_start_event(state: StartState, event: StartEvent) -> StartState {
    match (state, event) {
        (StartState::CheckingPort, StartEvent::PortFree) => StartState::Spawning,
        (StartState::CheckingPort, StartEvent::PortTaken) => StartState::Refused,
        (StartState::Spawning, StartEvent::Spawned) => StartState::Waiting,
        (StartState::Waiting, StartEvent::Polled { alive, healthy }) => if !alive {
            StartState::Failed { alive: false }
        } else if healthy {
            StartState::Started
        } else {
            StartState::Waiting
        },
        (StartState::Waiting, StartEvent::TimeOver) => StartState::Failed { alive: true },
        _ => state,
    }
}

/// The process id that was recorded is of no use in this state.
pub open spec fn is_pid_useless(state: StartState) -> bool {
    state matches StartState::Failed { alive } && !alive
}

impl StartState {
    /// The state after an event.
    pub fn next(self, event: StartEvent) -> (r: StartState)
        ensures
            r == after_start_event(self, event),
    {
        match (self, event) {
            (StartState::CheckingPort, StartEvent::PortFree) => StartState::Spawning,
            (StartState::CheckingPort, StartEvent::PortTaken) => StartState::Refused,
            (StartState::Spawning, StartEvent::Spawned) => StartState::Waiting,
            (StartState::Waiting, StartEvent::Polled { alive, healthy }) => {
                if !alive {
                    StartState::Failed { alive: false }
                } else if healthy {
                    StartState::Started
                } else {
                    StartState::Waiting
                }
            },
            (StartState::Waiting, StartEvent::TimeOver) => StartState::Failed { alive: true },
            (state, _) => state,
        }
    }

    /// Tells whether the recorded process id is of no use any more.
    pub fn drops_pid(self) -> (r: bool)
        ensures
            r == (self == StartState::Failed { alive: false }),
            r == is_pid_useless(self),
    {
        match self {
            StartState::Failed { alive } => !alive,
            _ => false,
        }
    }
}

/// What is said when the port cannot be used.
pub open spec fn refusal(port: u16) -> Seq<char> {
    "端口 "@ + decimal(port as nat) + " 不可用，请先解决上述问题再启动"@
}

/// What is said when the port cannot be used.
pub fn refusal_message(port: u16) -> (r: String)
    ensures
        r@ == refusal(port),
{
    let mut out = "端口 ".to_string();
    out.push_str(decimal_text(port as u64).as_str());
    out.push_str(" 不可用，请先解决上述问题再启动");
    out
}

/// The state after `events`.
pub open spec fn after_start_events(state: StartState, events: Seq<StartEvent>) -> StartState
    decreases events.len(),
{
    if events.len() == 0 {
        state
    } else {
        after_start_event(after_start_events(state, events.drop_last()), events.last())
    }
}

/// The start counts as done only after a look that found the process alive and
/// in good health.
pub proof fn started_means_healthy(events: Seq<StartEvent>)
    requires
        after_start_events(StartState::CheckingPort, events) == StartState::Started,
    ensures
        exists|k: int|
            0 <= k < events.len() && #[trigger] events[k] == (StartEvent::Polled {
                alive: true,
                healthy: true,
            }),
    decreases events.len(),
{
    if events.len() > 0 {
        let rest = events.drop_last();
        if after_start_events(StartState::CheckingPort, rest) == StartState::Started {
            started_means_healthy(rest);
            let k = choose|k: int|
                0 <= k < rest.len() && #[trigger] rest[k] == (StartEvent::Polled {
                    alive: true,
                    healthy: true,
                });
            assert(events[k] == rest[k]);
        } else {
            assert(events[events.len() - 1] == (StartEvent::Polled { alive: true, healthy: true }));
        }
    }
}

/// Nothing is started on a port that is taken.
pub proof fn taken_port_starts_nothing(events: Seq<StartEvent>)
    requires
        events.len() > 0,
        events[0] == StartEvent::PortTaken,
    ensures
        after_start_events(StartState::CheckingPort, events) == StartState::Refused,
    decreases events.len(),
{
    let rest = events.drop_last();
    if rest.len() > 0 {
        assert(rest[0] == events[0]);
        taken_port_starts_nothing(rest);
    } else {
        assert(events.last() == events[0]);
        assert(after_start_events(StartState::CheckingPort, rest) == StartState::CheckingPort);
    }
}

} // verus!
