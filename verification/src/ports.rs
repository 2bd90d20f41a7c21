//! Which process listens on a port: reading the lines that the system's
//! tools print. The caller runs the tools and looks processes up; what a
//! line says is decided here.

use crate::number::{parse_u64, parse_unsigned};
use crate::scan::{
    find, first_occurrence, has, lemma_first_occurrence_from, split_words, trim_char, trimmed_of,
    words,
};
use crate::text::{
    after_last, after_last_char, before_first, before_first_char, first_index, slice_to_string,
    str_eq, to_chars,
};
use crate::unicode::{is_numeric, numeric};
use vstd::prelude::*;
use vstd::string::*;

verus! {

/// A process that listens on a port.
#[derive(Debug, Clone)]
pub struct PortProcess {
    pub pid: u32,
    pub name: String,
    pub port: u16,
    pub protocol: String,
}

/// View of [`PortProcess`].
pub struct PortProcessView {
    pub pid: u32,
    pub name: Seq<char>,
    pub port: u16,
    pub protocol: Seq<char>,
}

impl View for PortProcess {
    type V = PortProcessView;

    open spec fn view(&self) -> PortProcessView {
        PortProcessView {
            pid: self.pid,
            name: self.name@,
            port: self.port,
            protocol: self.protocol@,
        }
    }
}

impl DeepView for PortProcess {
    type V = PortProcessView;

    open spec fn deep_view(&self) -> PortProcessView {
        self@
    }
}

/// The owner of a socket, as a line names it: its process id, and its name when the line gives one.
#[derive(Debug, Clone)]
pub struct SocketOwner {
    pub pid: u32,
    pub name: Option<String>,
}

/// View of [`SocketOwner`].
pub struct SocketOwnerView {
    pub pid: u32,
    pub name: Option<Seq<char>>,
}

impl View for SocketOwner {
    type V = SocketOwnerView;

    open spec fn view(&self) -> SocketOwnerView {
        SocketOwnerView { pid: self.pid, name: self.name.deep_view() }
    }
}

impl DeepView for SocketOwner {
    type V = SocketOwnerView;

    open spec fn deep_view(&self) -> SocketOwnerView {
        self@
    }
}

/// End of the run of numeric characters that begins at `from`.
pub open spec fn numeric_run_end(s: Seq<char>, from: int) -> int
    decreases s.len() - from,
{
    if from < 0 || from >= s.len() {
        s.len() as int
    } else if !numeric(s[from]) {
        from
    } else {
        numeric_run_end(s, from + 1)
    }
}

/// The process id in text such as `users:(("node",pid=12345,fd=3))`: the
/// number that the numeric characters after the first `pid=` spell.
pub open spec fn pid_in(s: Seq<char>) -> Option<u32> {
    let at = first_occurrence(s, "pid="@);
    if at < 0 {
        None
    } else {
        let after = s.skip(at + 4);
        match parse_unsigned(after.take(numeric_run_end(after, 0)), 10, 0xffff_ffff) {
            Some(n) => Some(n as u32),
            None => None,
        }
    }
}

/// The text after the first `open` of `s`, up to the first `close` that
/// follows; `None` when either is missing.
pub open spec fn enclosed(s: Seq<char>, open: Seq<char>, close: char) -> Option<Seq<char>> {
    let at = first_occurrence(s, open);
    if at < 0 {
        None
    } else {
        let after = s.skip(at + open.len());
        let end = first_index(after, close);
        if end < after.len() {
            Some(after.take(end))
        } else {
            None
        }
    }
}

/// The process name in text such as `users:(("node",pid=12345,fd=3))`:
/// what stands in the quotes after `((`, or, failing that, what stands
/// between `((` and the next comma, without quotes at its ends.
pub open spec fn process_name_in(s: Seq<char>) -> Option<Seq<char>> {
    match enclosed(s, "((\""@, '"') {
        Some(name) => Some(name),
        None => match enclosed(s, "(("@, ',') {
            Some(name) => Some(trimmed_of(name, '"')),
            None => None,
        },
    }
}

/// Whether a word of a line is an address on `port`: whether what follows its last colon spells `port`.
pub open spec fn names_port(word: Seq<char>, port: u16) -> bool {
    parse_unsigned(after_last(word, ':'), 10, 0xffff) == Some(port as nat)
}

/// The owner that the first word at or after `from` with a process id names.
pub open spec fn owner_among(parts: Seq<Seq<char>>, from: int) -> Option<SocketOwnerView>
    decreases parts.len() - from,
{
    if from < 0 || from >= parts.len() {
        None
    } else {
        match pid_in(parts[from]) {
            Some(pid) => Some(SocketOwnerView { pid, name: process_name_in(parts[from]) }),
            None => owner_among(parts, from + 1),
        }
    }
}

/// The owner of the socket on `port`, looking at the words from index `i`
/// on: for the first word that is an address on `port` and is followed, or
/// is itself, a word with a process id, the owner that this word names.
pub open spec fn ss_owner_from(parts: Seq<Seq<char>>, port: u16, i: int) -> Option<SocketOwnerView>
    decreases parts.len() - i,
{
    if i < 0 || i >= parts.len() {
        None
    } else if names_port(parts[i], port) {
        match owner_among(parts, i) {
            Some(owner) => Some(owner),
            None => ss_owner_from(parts, port, i + 1),
        }
    } else {
        ss_owner_from(parts, port, i + 1)
    }
}

/// The owner of the socket on `port` that a line of `ss` names, if it names one.
pub open spec fn ss_owner(line: Seq<char>, port: u16) -> Option<SocketOwnerView> {
    ss_owner_from(words(line), port, 0)
}

/// The second of the pieces that `sep` parts `s` into.
pub open spec fn second_piece(s: Seq<char>, sep: char) -> Option<Seq<char>> {
    let at = first_index(s, sep);
    if at >= s.len() {
        None
    } else {
        Some(before_first(s.skip(at + 1), sep))
    }
}

/// The inode of the socket on `port` that a line of `/proc/net/tcp` names:
/// the tenth word, when the line has ten words and the port of its local
/// address, in hexadecimal, is `port`.
pub open spec fn proc_net_inode(line: Seq<char>, port: u16) -> Option<Seq<char>> {
    let parts = words(line);
    if parts.len() < 10 {
        None
    } else {
        match second_piece(parts[1], ':') {
            None => None,
            Some(hex) => if parse_unsigned(hex, 16, 0xffff) == Some(port as nat) {
                Some(parts[9])
            } else {
                None
            },
        }
    }
}

/// What a link of a file descriptor has to hold to be the socket with an inode.
pub open spec fn socket_link(inode: Seq<char>) -> Seq<char> {
    "socket:["@ + inode + "]"@
}

/// The protocol and process id that a line of `netstat -ano` names for
/// `port`: the line has five words or more, the first is `TCP` or `UDP`,
/// the second is an address on `port`, and the process id, the fifth word
/// for TCP and the fourth for UDP, is a number other than zero.
pub open spec fn netstat_owner(line: Seq<char>, port: u16) -> Option<(Seq<char>, u32)> {
    let parts = words(line);
    if parts.len() < 5 {
        None
    } else if parts[0] != "TCP"@ && parts[0] != "UDP"@ {
        None
    } else if !names_port(parts[1], port) {
        None
    } else {
        let pid_text = if parts[0] == "TCP"@ {
            parts[4]
        } else {
            parts[3]
        };
        match parse_unsigned(pid_text, 10, 0xffff_ffff) {
            Some(pid) => if pid == 0 {
                None
            } else {
                Some((parts[0], pid as u32))
            },
            None => None,
        }
    }
}

/// The process name in a line of `tasklist` in CSV: the first field, without its quotes.
pub open spec fn tasklist_name(line: Seq<char>) -> Seq<char> {
    trimmed_of(before_first(line, ','), '"')
}

/// Whether a process id is among the processes.
pub open spec fn has_pid(processes: Seq<PortProcessView>, pid: u32) -> bool {
    exists|i: int| 0 <= i < processes.len() && (#[trigger] processes[i]).pid == pid
}

/// The process id in text such as `users:(("node",pid=12345,fd=3))`.
pub fn extract_pid_from_users(s: &str) -> (r: Option<u32>)
    ensures
        r == pid_in(s@),
{
    match find(s, "pid=") {
        None => None,
        Some(at) => {
            proof {
                reveal_strlit("pid=");
                lemma_first_occurrence_from(s@, "pid="@, 0);
            }
            let n = s.unicode_len();
            let after = slice_to_string(s, at + 4, n);
            let x = to_chars(after.as_str());
            let mut end: usize = 0;
            while end < x.len() && is_numeric(x[end])
                invariant
                    end <= x.len(),
                    x@ == after@,
                    numeric_run_end(after@, end as int) == numeric_run_end(after@, 0),
                decreases x.len() - end,
            {
                end = end + 1;
            }
            let digits = slice_to_string(after.as_str(), 0, end);
            match parse_u64(digits.as_str(), 10, 0xffff_ffff) {
                Some(value) => Some(value as u32),
                None => None,
            }
        },
    }
}

fn read_enclosed(s: &str, open: &str, close: char) -> (r: Option<String>)
    ensures
        r.deep_view() == enclosed(s@, open@, close),
{
    match find(s, open) {
        None => None,
        Some(at) => {
            proof {
                lemma_first_occurrence_from(s@, open@, 0);
            }
            let n = s.unicode_len();
            let m = open.unicode_len();
            let after = slice_to_string(s, at + m, n);
            let x = to_chars(after.as_str());
            let mut end: usize = 0;
            while end < x.len() && x[end] != close
                invariant
                    end <= x.len(),
                    x@ == after@,
                    crate::text::first_index_from(after@, close, end as int) == first_index(
                        after@,
                        close,
                    ),
                decreases x.len() - end,
            {
                end = end + 1;
            }
            if end < x.len() {
                Some(slice_to_string(after.as_str(), 0, end))
            } else {
                None
            }
        },
    }
}

/// The process name in text such as `users:(("node",pid=12345,fd=3))`.
pub fn extract_process_name(s: &str) -> (r: Option<String>)
    ensures
        r.deep_view() == process_name_in(s@),
{
    match read_enclosed(s, "((\"", '"') {
        Some(name) => Some(name),
        None => match read_enclosed(s, "((", ',') {
            Some(name) => Some(trim_char(name.as_str(), '"')),
            None => None,
        },
    }
}

fn is_address_on(word: &str, port: u16) -> (r: bool)
    ensures
        r == names_port(word@, port),
{
    let tail = after_last_char(word, ':');
    match parse_u64(tail.as_str(), 10, 0xffff) {
        Some(value) => value == port as u64,
        None => false,
    }
}

fn owner_in(parts: &Vec<String>, from: usize) -> (r: Option<SocketOwner>)
    ensures
        r.deep_view() == owner_among(parts.deep_view(), from as int),
{
    let mut i: usize = from;
    while i < parts.len()
        invariant
            from <= i,
            owner_among(parts.deep_view(), i as int) == owner_among(
                parts.deep_view(),
                from as int,
            ),
        decreases parts.len() - i,
    {
        assert(parts.deep_view()[i as int] == parts@[i as int]@);
        match extract_pid_from_users(parts[i].as_str()) {
            Some(pid) => {
                return Some(SocketOwner { pid, name: extract_process_name(parts[i].as_str()) });
            },
            None => {},
        }
        i = i + 1;
    }
    None
}

/// The owner of the socket on `target_port` that a line of `ss` names, such as
/// `LISTEN 0 128 0.0.0.0:3000 0.0.0.0:* users:(("node",pid=12345,fd=3))`.
pub fn parse_ss_line(line: &str, target_port: u16) -> (r: Option<SocketOwner>)
    ensures
        r.deep_view() == ss_owner(line@, target_port),
{
    let parts = split_words(line);
    let mut i: usize = 0;
    while i < parts.len()
        invariant
            parts.deep_view() == words(line@),
            ss_owner_from(parts.deep_view(), target_port, i as int) == ss_owner(
                line@,
                target_port,
            ),
        decreases parts.len() - i,
    {
        assert(parts.deep_view()[i as int] == parts@[i as int]@);
        if is_address_on(parts[i].as_str(), target_port) {
            match owner_in(&parts, i) {
                Some(owner) => {
                    return Some(owner);
                },
                None => {},
            }
        }
        i = i + 1;
    }
    None
}

fn read_second_piece(s: &str, sep: char) -> (r: Option<String>)
    ensures
        r.deep_view() == second_piece(s@, sep),
{
    let x = to_chars(s);
    let mut at: usize = 0;
    while at < x.len() && x[at] != sep
        invariant
            at <= x.len(),
            x@ == s@,
            crate::text::first_index_from(s@, sep, at as int) == first_index(s@, sep),
        decreases x.len() - at,
    {
        at = at + 1;
    }
    if at >= x.len() {
        None
    } else {
        let rest = slice_to_string(s, at + 1, x.len());
        Some(before_first_char(rest.as_str(), sep))
    }
}

/// The inode of the socket on `target_port` that a line of `/proc/net/tcp` names.
pub fn parse_proc_net_tcp_line(line: &str, target_port: u16) -> (r: Option<String>)
    ensures
        r.deep_view() == proc_net_inode(line@, target_port),
{
    let parts = split_words(line);
    if parts.len() < 10 {
        return None;
    }
    assert(parts.deep_view()[1] == parts@[1]@);
    assert(parts.deep_view()[9] == parts@[9]@);
    match read_second_piece(parts[1].as_str(), ':') {
        None => None,
        Some(hex) => match parse_u64(hex.as_str(), 16, 0xffff) {
            Some(value) => if value == target_port as u64 {
                Some(parts[9].clone())
            } else {
                None
            },
            None => None,
        },
    }
}

/// Whether the link of a file descriptor is the socket with an inode.
pub fn is_socket_link(link: &str, inode: &str) -> (r: bool)
    ensures
        r == has(link@, socket_link(inode@)),
{
    let mut wanted = String::from_str("socket:[");
    wanted.append(inode);
    wanted.append("]");
    crate::scan::contains(link, wanted.as_str())
}

/// The protocol and process id that a line of `netstat -ano` names for `port`.
pub fn parse_netstat_line(line: &str, port: u16) -> (r: Option<(String, u32)>)
    ensures
        r.deep_view() == netstat_owner(line@, port),
{
    let parts = split_words(line);
    if parts.len() < 5 {
        return None;
    }
    assert(parts.deep_view()[0] == parts@[0]@);
    assert(parts.deep_view()[1] == parts@[1]@);
    assert(parts.deep_view()[3] == parts@[3]@);
    assert(parts.deep_view()[4] == parts@[4]@);
    let tcp = str_eq(parts[0].as_str(), "TCP");
    let udp = str_eq(parts[0].as_str(), "UDP");
    if !tcp && !udp {
        return None;
    }
    if !is_address_on(parts[1].as_str(), port) {
        return None;
    }
    let pid_text = if tcp {
        parts[4].as_str()
    } else {
        parts[3].as_str()
    };
    match parse_u64(pid_text, 10, 0xffff_ffff) {
        Some(pid) => if pid == 0 {
            None
        } else {
            Some((parts[0].clone(), pid as u32))
        },
        None => None,
    }
}

/// The process name in a line of `tasklist` in CSV.
pub fn parse_tasklist_line(line: &str) -> (r: String)
    ensures
        r@ == tasklist_name(line@),
{
    let first = before_first_char(line, ',');
    trim_char(first.as_str(), '"')
}

/// The process on `port`: it is called by the name that the line gave,
/// else by the name that was looked up, else `Unknown`.
pub fn port_process(owner: SocketOwner, looked_up: Option<String>, port: u16, protocol: &str) -> (r:
    PortProcess)
    ensures
        r.pid == owner.pid,
        r.port == port,
        r.protocol@ == protocol@,
        r.name@ == match owner.name {
            Some(name) => name@,
            None => match looked_up {
                Some(name) => name@,
                None => "Unknown"@,
            },
        },
{
    let name = match owner.name {
        Some(name) => name,
        None => match looked_up {
            Some(name) => name,
            None => String::from_str("Unknown"),
        },
    };
    PortProcess { pid: owner.pid, name, port, protocol: String::from_str(protocol) }
}

/// Adds a process unless one with the same process id is there already.
/// Returns whether it was added.
pub fn push_unique(processes: &mut Vec<PortProcess>, process: PortProcess) -> (added: bool)
    ensures
        added == !has_pid(old(processes).deep_view(), process.pid),
        added ==> final(processes).deep_view() == old(processes).deep_view().push(process@),
        !added ==> final(processes).deep_view() == old(processes).deep_view(),
{
    let ghost before = processes.deep_view();
    let mut i: usize = 0;
    while i < processes.len()
        invariant
            i <= processes.len(),
            processes.deep_view() == before,
            forall|j: int| 0 <= j < i ==> (#[trigger] before[j]).pid != process.pid,
        decreases processes.len() - i,
    {
        assert(processes.deep_view()[i as int] == processes@[i as int]@);
        if processes[i].pid == process.pid {
            assert(before[i as int].pid == process.pid);
            return false;
        }
        i = i + 1;
    }
    processes.push(process);
    assert(processes.deep_view() =~= before.push(process@));
    true
}

} // verus!
