//! Why a port cannot be used, and what helps.
//!
//! On Windows, Hyper-V, WSL2 and Docker Desktop reserve ranges of TCP ports.
//! No program can listen on such a port, and no program is seen holding it.

use vstd::prelude::*;

use crate::decimal::{decimal, decimal_text, parse_unsigned, parsed_unsigned};
use crate::split::{
    contains, find_char, has_part, lines, lines_of, position, texts, words, words_of,
};
use crate::text::{
    chars_of, drop_leading, drop_trailing, ends_with, has_suffix, same, text_of, trim,
    trim_end_matches, trim_start_matches, trimmed,
};

verus! {

/// Why a port cannot be used.
#[derive(Debug)]
pub enum PortDiagnosis {
    /// Windows has reserved it, in this range.
    WindowsReserved { port: u16, reserved_range: (u16, u16) },
    /// This process holds it.
    HeldByProcess { port: u16, pid: u32, name: String },
    /// Nothing is known that holds it.
    Unknown { port: u16 },
}

/// The model of a [`PortDiagnosis`].
pub enum DiagnosisModel {
    WindowsReserved { port: u16, reserved_range: (u16, u16) },
    HeldByProcess { port: u16, pid: u32, name: Seq<char> },
    Unknown { port: u16 },
}

impl DeepView for PortDiagnosis {
    type V = DiagnosisModel;

    open spec fn deep_view(&self) -> DiagnosisModel {
        match self {
            PortDiagnosis::WindowsReserved { port, reserved_range } =>
                DiagnosisModel::WindowsReserved { port: *port, reserved_range: *reserved_range },
            PortDiagnosis::HeldByProcess { port, pid, name } => DiagnosisModel::HeldByProcess {
                port: *port,
                pid: *pid,
                name: name@,
            },
            PortDiagnosis::Unknown { port } => DiagnosisModel::Unknown { port: *port },
        }
    }
}

// ---------------------------------------------------------------------------
// The cause of a failure
// ---------------------------------------------------------------------------

/// The numbers by which macOS, Linux and Windows say that an address is in use.
pub open spec fn says_in_use(code: i32) -> bool {
    code == 48 || code == 98 || code == 10048
}

/// Tells whether listening failed because the address is in use. `in_use` says
/// whether the error is of that kind; `code` is the system's number for it.
pub fn is_addr_in_use(in_use: bool, code: Option<i32>) -> (r: bool)
    ensures
        r == (in_use || (code matches Some(code) && says_in_use(code))),
{
    in_use || match code {
        Some(code) => code == 48 || code == 98 || code == 10048,
        None => false,
    }
}

// ---------------------------------------------------------------------------
// Reserved ranges
// ---------------------------------------------------------------------------

/// The port that a text stands for.
pub open spec fn port_of(s: Seq<char>) -> Option<nat> {
    parsed_unsigned(s, u16::MAX as nat)
}

/// The range of ports that a line holds: exactly two numbers, the first not
/// greater than the second.
pub open spec fn range_of(line: Seq<char>) -> Option<(u16, u16)> {
    let columns = words_of(trimmed(line));
    if columns.len() == 2 {
        match (port_of(columns[0]), port_of(columns[1])) {
            (Some(start), Some(end)) => if start <= end {
                Some((start as u16, end as u16))
            } else {
                None
            },
            _ => None,
        }
    } else {
        None
    }
}

/// The ranges that lines hold; other lines are skipped.
pub open spec fn ranges_of(lines: Seq<Seq<char>>) -> Seq<(u16, u16)>
    decreases lines.len(),
{
    if lines.len() == 0 {
        Seq::empty()
    } else {
        match range_of(lines.last()) {
            Some(range) => ranges_of(lines.drop_last()).push(range),
            None => ranges_of(lines.drop_last()),
        }
    }
}

/// Reads the range of ports that a line holds.
fn parse_range(line: &str) -> (r: Option<(u16, u16)>)
    ensures
        r == range_of(line@),
{
    let columns = words(trim(line).as_str());
    assert(texts(columns@).len() == columns@.len());
    if columns.len() != 2 {
        return None;
    }
    assert(texts(columns@)[0] == columns@[0]@);
    assert(texts(columns@)[1] == columns@[1]@);
    let start = parse_unsigned(columns[0].as_str(), 65535);
    let end = parse_unsigned(columns[1].as_str(), 65535);
    match (start, end) {
        (Some(start), Some(end)) => {
            if start <= end {
                Some((start as u16, end as u16))
            } else {
                None
            }
        },
        _ => None,
    }
}

/// Reads the ranges out of the listing that
/// `netsh int ipv4 show excludedportrange protocol=tcp` prints.
pub fn parse_windows_excluded_ports(listing: &str) -> (r: Vec<(u16, u16)>)
    ensures
        r@ == ranges_of(lines_of(listing@)),
        forall|i: int| 0 <= i < r@.len() ==> (#[trigger] r@[i]).0 <= r@[i].1,
{
    let all = lines(listing);
    let ghost models = texts(all@);
    let mut ranges: Vec<(u16, u16)> = Vec::new();
    let mut i: usize = 0;
    assert(models.take(0) =~= Seq::<Seq<char>>::empty());
    while i < all.len()
        invariant
            i <= all@.len(),
            models == texts(all@),
            ranges@ == ranges_of(models.take(i as int)),
        decreases all.len() - i,
    {
        assert(models.take(i + 1).drop_last() =~= models.take(i as int));
        assert(models[i as int] == all@[i as int]@);
        match parse_range(all[i].as_str()) {
            Some(range) => ranges.push(range),
            None => {},
        }
        i += 1;
    }
    assert(models.take(i as int) =~= models);
    proof {
        ranges_are_in_order(models);
    }
    ranges
}

/// No range ends before it begins.
pub proof fn ranges_are_in_order(lines: Seq<Seq<char>>)
    ensures
        forall|i: int| 0 <= i < ranges_of(lines).len() ==> (#[trigger] ranges_of(lines)[i]).0
            <= ranges_of(lines)[i].1,
    decreases lines.len(),
{
    if lines.len() > 0 {
        let rest = ranges_of(lines.drop_last());
        ranges_are_in_order(lines.drop_last());
        if let Some(range) = range_of(lines.last()) {
            assert(range.0 <= range.1);
            assert(ranges_of(lines) == rest.push(range));
        }
    }
}

/// The port is in the range.
pub open spec fn in_range(port: u16, range: (u16, u16)) -> bool {
    range.0 <= port <= range.1
}

/// The first of the ranges that holds the port.
pub open spec fn range_with(ranges: Seq<(u16, u16)>, port: u16) -> Option<(u16, u16)>
    decreases ranges.len(),
{
    if ranges.len() == 0 {
        None
    } else if in_range(port, ranges[0]) {
        Some(ranges[0])
    } else {
        range_with(ranges.skip(1), port)
    }
}

/// The first of the ranges that holds the port.
pub fn windows_excluded_range_containing(ranges: &Vec<(u16, u16)>, port: u16) -> (r: Option<
    (u16, u16),
>)
    ensures
        r == range_with(ranges@, port),
{
    let mut i: usize = 0;
    assert(ranges@.skip(0) =~= ranges@);
    while i < ranges.len()
        invariant
            i <= ranges@.len(),
            range_with(ranges@, port) == range_with(ranges@.skip(i as int), port),
        decreases ranges.len() - i,
    {
        let range = ranges[i];
        assert(ranges@.skip(i as int)[0] == range);
        if range.0 <= port && port <= range.1 {
            return Some(range);
        }
        assert(ranges@.skip(i as int).skip(1) =~= ranges@.skip(i + 1));
        i += 1;
    }
    None
}

/// A range is found if and only if one holds the port, and what is found
/// holds it.
pub proof fn range_is_found(ranges: Seq<(u16, u16)>, port: u16)
    ensures
        match range_with(ranges, port) {
            Some(range) => ranges.contains(range) && in_range(port, range),
            None => forall|i: int| 0 <= i < ranges.len() ==> !in_range(port, #[trigger] ranges[i]),
        },
    decreases ranges.len(),
{
    if ranges.len() > 0 && !in_range(port, ranges[0]) {
        let rest = ranges.skip(1);
        range_is_found(rest, port);
        match range_with(rest, port) {
            Some(range) => {
                let k = choose|k: int| 0 <= k < rest.len() && rest[k] == range;
                assert(ranges[k + 1] == range);
            },
            None => {
                assert forall|i: int| 0 <= i < ranges.len() implies !in_range(
                    port,
                    #[trigger] ranges[i],
                ) by {
                    if i > 0 {
                        assert(rest[i - 1] == ranges[i]);
                    }
                }
            },
        }
    }
}

// ---------------------------------------------------------------------------
// Processes
// ---------------------------------------------------------------------------

/// What stands behind the mark `c` at the beginning of a line.
pub open spec fn marked(line: Seq<char>, c: char) -> Option<Seq<char>> {
    if line.len() > 0 && line[0] == c {
        Some(line.skip(1))
    } else {
        None
    }
}

/// The process id that a text stands for.
pub open spec fn pid_of(s: Seq<char>) -> Option<nat> {
    parsed_unsigned(s, u32::MAX as nat)
}

/// The first process id on a line marked `p`.
pub open spec fn first_pid(lines: Seq<Seq<char>>) -> Option<nat>
    decreases lines.len(),
{
    if lines.len() == 0 {
        None
    } else {
        match marked(lines[0], 'p') {
            Some(rest) => match pid_of(rest) {
                Some(pid) => Some(pid),
                None => first_pid(lines.skip(1)),
            },
            None => first_pid(lines.skip(1)),
        }
    }
}

/// The first name on a line marked `c`.
pub open spec fn first_name(lines: Seq<Seq<char>>) -> Option<Seq<char>>
    decreases lines.len(),
{
    if lines.len() == 0 {
        None
    } else {
        match marked(lines[0], 'c') {
            Some(name) => Some(name),
            None => first_name(lines.skip(1)),
        }
    }
}

/// The process that a listing of `lsof -Fpcn` names first.
pub open spec fn lsof_holder(listing: Seq<char>) -> Option<(nat, Seq<char>)> {
    match first_pid(lines_of(listing)) {
        Some(pid) => Some(
            (
                pid,
                match first_name(lines_of(listing)) {
                    Some(name) => name,
                    None => "unknown"@,
                },
            ),
        ),
        None => None,
    }
}

/// The model of a process id and a name.
pub open spec fn holder_model(holder: Option<(u32, String)>) -> Option<(nat, Seq<char>)> {
    match holder {
        Some((pid, name)) => Some((pid as nat, name@)),
        None => None,
    }
}

/// What stands behind the mark `c` at the beginning of a line.
fn strip_mark(line: &str, c: char) -> (r: Option<String>)
    ensures
        r.deep_view() == marked(line@, c),
{
    let chars = chars_of(line);
    if chars.len() > 0 && chars[0] == c {
        assert(chars@.subrange(1, chars@.len() as int) =~= line@.skip(1));
        Some(text_of(&chars, 1, chars.len()))
    } else {
        None
    }
}

/// Reads the first process out of a listing of `lsof -Fpcn`.
pub fn find_port_holder_unix(listing: &str) -> (r: Option<(u32, String)>)
    ensures
        holder_model(r) == lsof_holder(listing@),
{
    let all = lines(listing);
    let ghost models = texts(all@);
    let mut pid: Option<u32> = None;
    let mut name: Option<String> = None;
    let mut i: usize = 0;
    assert(models.skip(0) =~= models);
    while i < all.len()
        invariant
            i <= all@.len(),
            models == texts(all@),
            first_pid(models) == (match pid {
                Some(pid) => Some(pid as nat),
                None => first_pid(models.skip(i as int)),
            }),
            first_name(models) == (match name {
                Some(name) => Some(name@),
                None => first_name(models.skip(i as int)),
            }),
        decreases all.len() - i,
    {
        let line = all[i].as_str();
        assert(models.skip(i as int)[0] == line@);
        assert(models.skip(i as int).skip(1) =~= models.skip(i + 1));
        match strip_mark(line, 'p') {
            Some(rest) => {
                if pid.is_none() {
                    pid = parse_unsigned(rest.as_str(), 0xffff_ffff);
                }
            },
            None => match strip_mark(line, 'c') {
                Some(rest) => {
                    if name.is_none() {
                        name = Some(rest);
                    }
                },
                None => {},
            },
        }
        i += 1;
    }
    match pid {
        Some(pid) => {
            let name = match name {
                Some(name) => name,
                None => "unknown".to_string(),
            };
            Some((pid, name))
        },
        None => None,
    }
}

/// The process id on a line of `netstat -ano` about a listener on the port. The
/// second column holds the address that is listened on, with the port at its
/// end.
pub open spec fn listener_on(line: Seq<char>, port: u16) -> Option<nat> {
    let text = trimmed(line);
    let columns = words_of(text);
    if has_part(text, "LISTENING"@) && columns.len() >= 2 && has_suffix(
        columns[1],
        ":"@ + decimal(port as nat),
    ) {
        pid_of(columns.last())
    } else {
        None
    }
}

/// The first listener on the port.
pub open spec fn first_listener(lines: Seq<Seq<char>>, port: u16) -> Option<nat>
    decreases lines.len(),
{
    if lines.len() == 0 {
        None
    } else {
        match listener_on(lines[0], port) {
            Some(pid) => Some(pid),
            None => first_listener(lines.skip(1), port),
        }
    }
}

/// Reads the process id on a line about a listener on the port.
fn parse_listener(line: &str, needle: &str, Ghost(port): Ghost<u16>) -> (r: Option<u32>)
    requires
        needle@ == ":"@ + decimal(port as nat),
    ensures
        match r {
            Some(pid) => listener_on(line@, port) == Some(pid as nat),
            None => listener_on(line@, port) is None,
        },
{
    let text = trim(line);
    if !contains(text.as_str(), "LISTENING") {
        return None;
    }
    let columns = words(text.as_str());
    assert(texts(columns@).len() == columns@.len());
    if columns.len() < 2 {
        return None;
    }
    assert(texts(columns@)[1] == columns@[1]@);
    if !ends_with(columns[1].as_str(), needle) {
        return None;
    }
    assert(texts(columns@).last() == columns@[columns@.len() - 1]@);
    parse_unsigned(columns[columns.len() - 1].as_str(), 0xffff_ffff)
}

/// Reads the process that listens on the port out of a listing of
/// `netstat -ano -p tcp`.
pub fn listening_pid(listing: &str, port: u16) -> (r: Option<u32>)
    ensures
        match r {
            Some(pid) => first_listener(lines_of(listing@), port) == Some(pid as nat),
            None => first_listener(lines_of(listing@), port) is None,
        },
{
    let all = lines(listing);
    let ghost models = texts(all@);
    let mut needle = ":".to_string();
    needle.push_str(decimal_text(port as u64).as_str());
    let mut i: usize = 0;
    assert(models.skip(0) =~= models);
    while i < all.len()
        invariant
            i <= all@.len(),
            models == texts(all@),
            models == lines_of(listing@),
            needle@ == ":"@ + decimal(port as nat),
            first_listener(models, port) == first_listener(models.skip(i as int), port),
        decreases all.len() - i,
    {
        assert(models.skip(i as int)[0] == all@[i as int]@);
        assert(models.skip(i as int).skip(1) =~= models.skip(i + 1));
        match parse_listener(all[i].as_str(), needle.as_str(), Ghost(port)) {
            Some(pid) => return Some(pid),
            None => {},
        }
        i += 1;
    }
    None
}

/// The name in the first column of a line of comma-separated values, without
/// the quotes around it.
pub open spec fn first_column(line: Seq<char>) -> Seq<char> {
    drop_trailing(drop_leading(line.take(find_char(line, ',') as int), '"'), '"')
}

/// The process that a listing of `tasklist /NH /FO CSV` names.
pub open spec fn task_name(listing: Seq<char>) -> Option<Seq<char>> {
    let all = lines_of(listing);
    if all.len() > 0 && first_column(all[0]).len() > 0 {
        Some(first_column(all[0]))
    } else {
        None
    }
}

/// Reads the name of the process out of a listing of
/// `tasklist /FI "PID eq …" /NH /FO CSV`.
pub fn process_name(listing: &str) -> (r: Option<String>)
    ensures
        r.deep_view() == task_name(listing@),
{
    let all = lines(listing);
    assert(texts(all@).len() == all@.len());
    if all.len() == 0 {
        return None;
    }
    assert(texts(all@)[0] == all@[0]@);
    let chars = chars_of(all[0].as_str());
    assert(chars@.skip(0) =~= chars@);
    let end: usize = position(&chars, 0, ',');
    let column = text_of(&chars, 0, end);
    assert(column@ =~= chars@.take(end as int));
    let column = trim_start_matches(column.as_str(), '"');
    let name = trim_end_matches(column.as_str(), '"');
    proof {
        reveal_strlit("");
        if name@.len() == 0 {
            assert(name@ =~= ""@);
        }
    }
    if same(name.as_str(), "") {
        None
    } else {
        Some(name)
    }
}

/// What the system says of the processes that listen.
#[derive(Debug)]
pub enum PortListing {
    /// What `lsof -Fpcn` prints for the port.
    Lsof(String),
    /// What `netstat -ano -p tcp` prints, and what `tasklist` prints for the
    /// process that it names.
    Netstat { listing: String, task: Option<String> },
    /// Nothing could be found out.
    Unavailable,
}

/// The process that holds the port.
pub open spec fn holder_of(port: u16, listing: PortListing) -> Option<(nat, Seq<char>)> {
    match listing {
        PortListing::Lsof(listing) => lsof_holder(listing@),
        PortListing::Netstat { listing, task } => match first_listener(lines_of(listing@), port) {
            Some(pid) => Some(
                (
                    pid,
                    match task {
                        Some(task) => match task_name(task@) {
                            Some(name) => name,
                            None => "unknown"@,
                        },
                        None => "unknown"@,
                    },
                ),
            ),
            None => None,
        },
        PortListing::Unavailable => None,
    }
}

/// The process that holds the port: its id and its name.
pub fn find_port_holder(port: u16, listing: &PortListing) -> (r: Option<(u32, String)>)
    ensures
        holder_model(r) == holder_of(port, *listing),
{
    match listing {
        PortListing::Lsof(listing) => find_port_holder_unix(listing.as_str()),
        PortListing::Netstat { listing, task } => match listening_pid(listing.as_str(), port) {
            Some(pid) => {
                let name = match task {
                    Some(task) => process_name(task.as_str()),
                    None => None,
                };
                match name {
                    Some(name) => Some((pid, name)),
                    None => Some((pid, "unknown".to_string())),
                }
            },
            None => None,
        },
        PortListing::Unavailable => None,
    }
}

// ---------------------------------------------------------------------------
// The diagnosis
// ---------------------------------------------------------------------------

/// Why the port cannot be used. A reserved range comes before a process.
pub open spec fn diagnosis_of(
    port: u16,
    reserved: Seq<(u16, u16)>,
    holder: Option<(u32, String)>,
) -> DiagnosisModel {
    match range_with(reserved, port) {
        Some(reserved_range) => DiagnosisModel::WindowsReserved { port, reserved_range },
        None => match holder {
            Some((pid, name)) => DiagnosisModel::HeldByProcess { port, pid, name: name@ },
            None => DiagnosisModel::Unknown { port },
        },
    }
}

/// Why the port cannot be used. `reserved` holds the reserved ranges, which
/// only Windows has, and `holder` the process that holds the port.
pub fn diagnose_port(
    port: u16,
    reserved: &Vec<(u16, u16)>,
    holder: Option<(u32, String)>,
) -> (r: PortDiagnosis)
    ensures
        r.deep_view() == diagnosis_of(port, reserved@, holder),
{
    match windows_excluded_range_containing(reserved, port) {
        Some(reserved_range) => PortDiagnosis::WindowsReserved { port, reserved_range },
        None => match holder {
            Some((pid, name)) => PortDiagnosis::HeldByProcess { port, pid, name },
            None => PortDiagnosis::Unknown { port },
        },
    }
}

} // verus!
