//! Whether a running server's binary has been replaced on disk.
//!
//! A server keeps executing its old image when its binary is replaced. The kernel tells: the link to
//! the executable of such a process ends in ` (deleted)`. The server records its process id beside
//! its socket, so that anyone can look.
use crate::path;
use crate::text;
use vstd::prelude::*;

verus! {

pub const PID_RECORD_SUFFIX: &'static str = ".server-pid";

/// What the link to the executable of a process ends in when the executable is gone.
pub const DELETED_SUFFIX: &'static str = " (deleted)";

/// The record of a session's server.
pub open spec fn pid_record(sock_dir: Seq<char>, session: Seq<char>) -> Seq<char> {
    path::joined(sock_dir, session + PID_RECORD_SUFFIX@)
}

/// The record of a session's server.
pub fn pid_record_file(sock_dir: &str, session_name: &str) -> (path: String)
    ensures
        path@ == pid_record(sock_dir@, session_name@),
{
    let mut name = session_name.to_string();
    name.append(PID_RECORD_SUFFIX);
    path::join(sock_dir, name.as_str())
}

/// What a server with this process id writes to its record.
pub fn record_server_pid(sock_dir: &str, session_name: &str, pid: u32) -> (write: path::FileWrite)
    ensures
        write.path@ == pid_record(sock_dir@, session_name@),
        write.contents@ == text::dec(pid as nat),
{
    path::FileWrite {
        path: pid_record_file(sock_dir, session_name),
        contents: text::decimal(pid as u64),
    }
}

/// The process id in a record.
pub open spec fn recorded_pid(record: Seq<char>) -> Option<nat> {
    text::number_up_to(text::trimmed(record), u32::MAX as nat)
}

/// The process id in a record, if it holds one.
pub fn server_pid(record: &str) -> (pid: Option<u32>)
    ensures
        match pid {
            Some(pid) => recorded_pid(record@) == Some(pid as nat),
            None => recorded_pid(record@) is None,
        },
{
    text::parse_u32(text::trim(record).as_str())
}

/// The process of a server, given the process id in its record, if there is one, and whether that
/// process is still there.
pub fn live_server_pid(pid: Option<u32>, is_there: bool) -> (live: Option<u32>)
    ensures
        live == (if is_there {
            pid
        } else {
            None
        }),
{
    if is_there {
        pid
    } else {
        None
    }
}

/// A recorded process id is read back.
pub proof fn law_pid_reads_back(pid: u32)
    ensures
        recorded_pid(text::dec(pid as nat)) == Some(pid as nat),
{
    let s = text::dec(pid as nat);
    text::lemma_dec_digits(pid as nat);
    text::law_decimal_reads_back(pid as nat);
    assert(text::is_digit(s[0]) && text::is_digit(s[s.len() - 1]));
    assert(text::trimmed(s) == s);
}

/// The directory that exists while the process does.
pub fn process_dir(pid: u32) -> (dir: String)
    ensures
        dir@ == "/proc/"@ + text::dec(pid as nat),
{
    let mut dir = "/proc/".to_string();
    dir.append(text::decimal(pid as u64).as_str());
    dir
}

/// The link to the executable of a process.
pub fn exe_link(pid: u32) -> (link: String)
    ensures
        link@ == "/proc/"@ + text::dec(pid as nat) + "/exe"@,
{
    let mut link = process_dir(pid);
    link.append("/exe");
    link
}

/// Whether the executable that a link points to has been replaced or removed.
pub fn binary_replaced(exe: &str) -> (b: bool)
    ensures
        b == text::has_suffix(exe@, DELETED_SUFFIX@),
{
    text::ends_with(exe, DELETED_SUFFIX)
}

/// The warning for a session whose server's binary was replaced.
pub open spec fn warning_text(session: Seq<char>, pid: u32) -> Seq<char> {
    "the server of session '"@ + session + "' (pid "@ + text::dec(pid as nat)
        + ") runs a binary that has since been replaced on disk; new clients may not be able to attach until the session is restarted (or handed over)"@
}

/// The warning for a session, given the process id of its server, if that is known, and what the
/// link to its executable points to, if that could be read.
pub fn session_upgrade_warning(session_name: &str, pid: Option<u32>, exe: &Option<String>) -> (
warning: Option<String>)
    ensures
        text::optional_view(warning) == (match (pid, *exe) {
            (Some(pid), Some(exe)) => if text::has_suffix(exe@, DELETED_SUFFIX@) {
                Some(warning_text(session_name@, pid))
            } else {
                None
            },
            _ => None,
        }),
{
    match (pid, exe) {
        (Some(pid), Some(exe)) => {
            if binary_replaced(exe.as_str()) {
                let mut s = "the server of session '".to_string();
                s.append(session_name);
                s.append("' (pid ");
                s.append(text::decimal(pid as u64).as_str());
                s.append(
                    ") runs a binary that has since been replaced on disk; new clients may not be able to attach until the session is restarted (or handed over)",
                );
                Some(s)
            } else {
                None
            }
        },
        _ => None,
    }
}

/// A server's binary was replaced exactly where the link to its executable is some path followed by
/// ` (deleted)`, and only then is there a warning, and only where the process is known.
pub proof fn law_replaced_binary_is_warned_of(
    path: Seq<char>,
    exe: &str,
    b: bool,
    session: &str,
    pid: Option<u32>,
    link: Option<String>,
    warning: Option<String>,
)
    requires
        call_ensures(binary_replaced, (exe,), b),
        call_ensures(session_upgrade_warning, (session, pid, &link), warning),
    ensures
        exe@ == path + " (deleted)"@ ==> b,
        b ==> exe@ == exe@.take(exe@.len() - 10) + " (deleted)"@,
        pid is Some && (link matches Some(link) && link@ == path + " (deleted)"@) ==> warning is Some,
        warning is Some ==> pid is Some && (link matches Some(link) && link@ == link@.take(
            link@.len() - 10,
        ) + " (deleted)"@),
{
    reveal_strlit(" (deleted)");
    assert(DELETED_SUFFIX@ == " (deleted)"@);
    text::law_beginnings_and_ends(exe@, " (deleted)"@, path);
    if let Some(link) = link {
        text::law_beginnings_and_ends(link@, " (deleted)"@, path);
    }
}

/// The process id that a server records is the one that is read back, whatever white space stands
/// around it; a process that is not there is no live one.
pub proof fn law_recorded_process_is_found(
    pid: u32,
    left: Seq<char>,
    right: Seq<char>,
    recorded: Option<u32>,
    is_there: bool,
    live: Option<u32>,
)
    requires
        forall|i: int| 0 <= i < left.len() ==> text::is_white(#[trigger] left[i]),
        forall|i: int| 0 <= i < right.len() ==> text::is_white(#[trigger] right[i]),
        call_ensures(live_server_pid, (recorded, is_there), live),
    ensures
        recorded_pid(left + text::dec(pid as nat) + right) == Some(pid as nat),
        live is Some <==> is_there && recorded is Some,
        live is Some ==> live == recorded,
{
    let s = text::dec(pid as nat);
    text::lemma_dec_digits(pid as nat);
    text::law_decimal_reads_back(pid as nat);
    assert(text::is_digit(s[0]) && text::is_digit(s[s.len() - 1]));
    text::law_trimming_takes_white_space_only(left, s, right);
}

/// What a server writes to its record is read back as its process id, from the place where the
/// record of that session is looked for.
pub proof fn law_server_is_found_by_its_record(
    sock_dir: &str,
    session: &str,
    pid: u32,
    write: path::FileWrite,
    place: String,
    record: &str,
    read: Option<u32>,
)
    requires
        call_ensures(record_server_pid, (sock_dir, session, pid), write),
        call_ensures(pid_record_file, (sock_dir, session), place),
        call_ensures(server_pid, (record,), read),
    ensures
        write.path@ == place@,
        place@ == path::joined(sock_dir@, session@ + ".server-pid"@),
        record@ == write.contents@ ==> read == Some(pid),
{
    law_pid_reads_back(pid);
}

} // verus!
