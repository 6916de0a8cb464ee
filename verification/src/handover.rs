//! Handing a running session from one server to the next.
//!
//! The outgoing server sends a length-prefixed manifest, then the terminal descriptors of every
//! pane in manifest order, in chunks. What travels is
//!
//! ```text
//! [u32 big endian: manifest length] [manifest bytes]
//! then, until every pane has its descriptor:
//!   one message: one payload byte with the number of descriptors in it, and the descriptors
//! ```
//!
//! This module decides what is written and what is made of what was read; the sockets themselves
//! belong to the caller.
use crate::command::RestartPolicy;
use crate::path;
use crate::text;
use vstd::prelude::*;

verus! {

/// Version of the protocol that this build speaks. It moves only for incompatible changes.
pub const HANDOVER_PROTOCOL_VERSION: u32 = 1;

/// Descriptors in one message. The kernel takes up to 253.
pub const FDS_PER_CHUNK: usize = 64;

/// The largest manifest, in bytes: a bound against a corrupt length prefix.
pub const MAX_MANIFEST_LEN: u32 = 16_777_216;

/// Directory, below the socket directory, that holds the rendezvous sockets. They are kept out of
/// the socket directory itself because every socket there is taken for a session.
pub const HANDOVER_SOCKET_SUBDIR: &'static str = "handover";

/// The length, in bytes, at which a socket path no longer fits a socket address.
pub const ZELLIJ_SOCK_MAX_LENGTH: usize = 108;

// ---------------------------------------------------------------------------------------------
// what is handed over
// ---------------------------------------------------------------------------------------------

/// One pane of the session. One terminal descriptor travels per entry.
#[derive(Debug, PartialEq, Eq)]
pub struct PaneHandover {
    /// The outgoing server's terminal id, by which the pane is found again.
    pub terminal_id: u32,
    /// The process on the terminal, if the outgoing server knows it.
    pub child_pid: Option<u32>,
    /// The command in the pane; `None` for a plain shell.
    pub command: Option<Vec<String>>,
    /// The directory that the command was started in.
    pub cwd: Option<String>,
    /// The supervision policy of the command.
    pub restart: RestartPolicy,
    /// A dump of the scrollback, to be replayed into the pane.
    pub scrollback_file: Option<String>,
    /// Rows and columns.
    pub size: (u16, u16),
}

/// A pane entry in which only the terminal id says anything.
pub open spec fn bare_pane(terminal_id: u32) -> PaneHandover {
    PaneHandover {
        terminal_id,
        child_pid: None,
        command: None,
        cwd: None,
        restart: RestartPolicy::No,
        scrollback_file: None,
        size: (0, 0),
    }
}

impl Default for PaneHandover {
    fn default() -> (pane: Self)
        ensures
            pane == bare_pane(0),
    {
        PaneHandover::new(0)
    }
}

/// Whether two pane entries say the same.
pub open spec fn same_pane(a: PaneHandover, b: PaneHandover) -> bool {
    &&& a.terminal_id == b.terminal_id
    &&& a.child_pid == b.child_pid
    &&& match (a.command, b.command) {
        (Some(x), Some(y)) => text::views(x@) == text::views(y@),
        (None, None) => true,
        _ => false,
    }
    &&& text::optional_view(a.cwd) == text::optional_view(b.cwd)
    &&& a.restart == b.restart
    &&& text::optional_view(a.scrollback_file) == text::optional_view(b.scrollback_file)
    &&& a.size == b.size
}

impl Clone for PaneHandover {
    fn clone(&self) -> (pane: Self)
        ensures
            same_pane(pane, *self),
    {
        let command = match &self.command {
            Some(words) => Some(text::copy_list(words)),
            None => None,
        };
        PaneHandover {
            terminal_id: self.terminal_id,
            child_pid: self.child_pid,
            command,
            cwd: text::copy_optional(&self.cwd),
            restart: self.restart,
            scrollback_file: text::copy_optional(&self.scrollback_file),
            size: self.size,
        }
    }
}

impl PaneHandover {
    /// A pane entry with only the correlation key filled in.
    pub fn new(terminal_id: u32) -> (pane: Self)
        ensures
            pane == bare_pane(terminal_id),
    {
        PaneHandover {
            terminal_id,
            child_pid: None,
            command: None,
            cwd: None,
            restart: RestartPolicy::No,
            scrollback_file: None,
            size: (0, 0),
        }
    }

    /// Rows of [`PaneHandover::size`].
    pub fn rows(&self) -> (rows: u16)
        ensures
            rows == self.size.0,
    {
        self.size.0
    }

    /// Columns of [`PaneHandover::size`].
    pub fn cols(&self) -> (cols: u16)
        ensures
            cols == self.size.1,
    {
        self.size.1
    }
}

/// What the incoming server needs in order to adopt the panes.
#[derive(Clone, Debug, PartialEq, Eq)]
pub struct HandoverManifest {
    /// The protocol version of the sender.
    pub protocol_version: u32,
    pub session_name: String,
    /// The outgoing server's version, for people to read.
    pub old_server_version: String,
    /// One entry per descriptor, in the order in which they travel.
    pub panes: Vec<PaneHandover>,
}

impl Default for HandoverManifest {
    fn default() -> (manifest: Self)
        ensures
            manifest.protocol_version == HANDOVER_PROTOCOL_VERSION,
            manifest.session_name@ == Seq::<char>::empty(),
            manifest.old_server_version@ == Seq::<char>::empty(),
            manifest.panes@ == Seq::<PaneHandover>::empty(),
    {
        HandoverManifest::new(String::new(), String::new())
    }
}

impl HandoverManifest {
    pub fn new(session_name: String, old_server_version: String) -> (manifest: Self)
        ensures
            manifest.protocol_version == HANDOVER_PROTOCOL_VERSION,
            manifest.session_name == session_name,
            manifest.old_server_version == old_server_version,
            manifest.panes@ == Seq::<PaneHandover>::empty(),
    {
        HandoverManifest {
            protocol_version: HANDOVER_PROTOCOL_VERSION,
            session_name,
            old_server_version,
            panes: Vec::new(),
        }
    }

    /// How many descriptors follow the manifest.
    pub fn expected_fd_count(&self) -> (n: usize)
        ensures
            n == self.panes@.len(),
    {
        self.panes.len()
    }

    /// Whether this build understands the manifest.
    pub fn is_compatible(&self) -> (b: bool)
        ensures
            b == (self.protocol_version <= HANDOVER_PROTOCOL_VERSION),
    {
        self.protocol_version <= HANDOVER_PROTOCOL_VERSION
    }
}

// ---------------------------------------------------------------------------------------------
// errors
// ---------------------------------------------------------------------------------------------

/// Why a handover failed.
#[derive(Clone, Debug, PartialEq, Eq)]
pub enum HandoverError {
    /// The socket path does not fit a socket address.
    PathTooLong { len: usize, path: String },
    /// The manifest could not be written as JSON.
    Serialize { reason: String },
    /// The manifest is larger than [`MAX_MANIFEST_LEN`].
    ManifestTooLarge { len: usize },
    /// A chunk to be sent is empty or larger than [`FDS_PER_CHUNK`].
    InvalidChunkSize { count: usize },
    /// The payload byte was not written.
    ShortSend { written: usize },
    /// The manifest does not list as many panes as there are descriptors.
    CountMismatch { panes: usize, fds: usize },
    /// The peer went away in the middle of the manifest.
    UnexpectedEof,
    /// The announced manifest length is larger than [`MAX_MANIFEST_LEN`].
    ImplausibleLength { prefix: u32 },
    /// The manifest is not the JSON it should be.
    Parse { reason: String },
    /// The peer speaks a protocol newer than this build's.
    Incompatible { version: u32 },
    /// The kernel cut the descriptors short.
    Truncated,
    /// Descriptors came without the payload byte.
    NoChunkHeader { received: usize },
    /// The announced chunk size is zero or larger than [`FDS_PER_CHUNK`].
    InvalidAnnouncement { announced: usize },
    /// A chunk does not hold what it announced.
    ChunkMismatch { announced: usize, arrived: usize },
    /// More descriptors came than the manifest lists.
    TooManyFds { received: usize, expected: usize },
    /// The peer went away before every descriptor had come.
    EndedEarly { expected: usize, received: usize },
    /// The operating system refused: its error number, and its words for it.
    Os { errno: i32, detail: String },
}

/// The message of an error.
pub open spec fn error_text(e: HandoverError) -> Seq<char> {
    match e {
        HandoverError::PathTooLong { len, path } => "handover socket path is too long ("@
            + text::dec(len as nat) + " bytes, max "@ + text::dec(ZELLIJ_SOCK_MAX_LENGTH as nat)
            + "): "@ + path@,
        HandoverError::Serialize { reason } => "failed to serialize handover manifest: "@
            + reason@,
        HandoverError::ManifestTooLarge { len } => "handover manifest is too large ("@ + text::dec(
            len as nat,
        ) + " bytes, max "@ + text::dec(MAX_MANIFEST_LEN as nat) + ")"@,
        HandoverError::InvalidChunkSize { count } => "invalid handover fd chunk size "@
            + text::dec(count as nat) + " (must be 1..="@ + text::dec(FDS_PER_CHUNK as nat) + ")"@,
        HandoverError::ShortSend { written } =>
            "short sendmsg while transferring handover fds: wrote "@ + text::dec(written as nat)
            + " of 1 byte"@,
        HandoverError::CountMismatch { panes, fds } => "handover manifest lists "@ + text::dec(
            panes as nat,
        ) + " pane(s) but "@ + text::dec(fds as nat) + " file descriptor(s) were given"@,
        HandoverError::UnexpectedEof => "failed to fill whole buffer"@,
        HandoverError::ImplausibleLength { prefix } =>
            "handover manifest length prefix is implausible ("@ + text::dec(prefix as nat)
            + " bytes, max "@ + text::dec(MAX_MANIFEST_LEN as nat) + ")"@,
        HandoverError::Parse { reason } => "failed to parse handover manifest: "@ + reason@,
        HandoverError::Incompatible { version } => "handover manifest speaks protocol version "@
            + text::dec(version as nat) + ", this build understands at most "@ + text::dec(
            HANDOVER_PROTOCOL_VERSION as nat,
        ),
        HandoverError::Truncated =>
            "handover control message was truncated (MSG_CTRUNC); the transferred file descriptors were dropped by the kernel"@,
        HandoverError::NoChunkHeader { received } => "handover peer sent "@ + text::dec(
            received as nat,
        ) + " file descriptor(s) without a chunk header"@,
        HandoverError::InvalidAnnouncement { announced } =>
            "handover peer announced an invalid chunk size of "@ + text::dec(announced as nat),
        HandoverError::ChunkMismatch { announced, arrived } => "handover chunk announced "@
            + text::dec(announced as nat) + " file descriptor(s) but "@ + text::dec(arrived as nat)
            + " arrived"@,
        HandoverError::TooManyFds { received, expected } =>
            "handover peer sent more file descriptors than its manifest promised ("@ + text::dec(
            received as nat,
        ) + " > "@ + text::dec(expected as nat) + ")"@,
        HandoverError::EndedEarly { expected, received } =>
            "handover ended early: manifest promised "@ + text::dec(expected as nat)
            + " file descriptor(s), only "@ + text::dec(received as nat) + " arrived"@,
        HandoverError::Os { errno, detail } => detail@ + " (os error "@ + text::signed_dec(
            errno as int,
        ) + ")"@,
    }
}

/// `a`, the number `n`, then `b`.
fn numbered(a: &str, n: usize, b: &str) -> (s: String)
    ensures
        s@ == a@ + text::dec(n as nat) + b@,
{
    let mut s = a.to_string();
    s.append(text::decimal(n as u64).as_str());
    s.append(b);
    s
}

/// `a`, the number `n`, `b`, the number `m`, then `c`.
fn numbered_twice(a: &str, n: usize, b: &str, m: usize, c: &str) -> (s: String)
    ensures
        s@ == a@ + text::dec(n as nat) + b@ + text::dec(m as nat) + c@,
{
    let mut s = numbered(a, n, b);
    s.append(text::decimal(m as u64).as_str());
    s.append(c);
    s
}

/// `a`, then `b`.
fn two(a: &str, b: &str) -> (s: String)
    ensures
        s@ == a@ + b@,
{
    let mut s = a.to_string();
    s.append(b);
    s
}

impl HandoverError {
    /// The error as it is shown.
    pub fn to_string(&self) -> (s: String)
        ensures
            s@ == error_text(*self),
    {
        match self {
            HandoverError::PathTooLong { len, path } => numbered_twice(
                "handover socket path is too long (",
                *len,
                " bytes, max ",
                ZELLIJ_SOCK_MAX_LENGTH,
                "): ",
            ).concat(path.as_str()),
            HandoverError::Serialize { reason } => two(
                "failed to serialize handover manifest: ",
                reason.as_str(),
            ),
            HandoverError::ManifestTooLarge { len } => numbered_twice(
                "handover manifest is too large (",
                *len,
                " bytes, max ",
                MAX_MANIFEST_LEN as usize,
                ")",
            ),
            HandoverError::InvalidChunkSize { count } => numbered_twice(
                "invalid handover fd chunk size ",
                *count,
                " (must be 1..=",
                FDS_PER_CHUNK,
                ")",
            ),
            HandoverError::ShortSend { written } => numbered(
                "short sendmsg while transferring handover fds: wrote ",
                *written,
                " of 1 byte",
            ),
            HandoverError::CountMismatch { panes, fds } => numbered_twice(
                "handover manifest lists ",
                *panes,
                " pane(s) but ",
                *fds,
                " file descriptor(s) were given",
            ),
            HandoverError::UnexpectedEof => "failed to fill whole buffer".to_string(),
            HandoverError::ImplausibleLength { prefix } => numbered_twice(
                "handover manifest length prefix is implausible (",
                *prefix as usize,
                " bytes, max ",
                MAX_MANIFEST_LEN as usize,
                ")",
            ),
            HandoverError::Parse { reason } => two(
                "failed to parse handover manifest: ",
                reason.as_str(),
            ),
            HandoverError::Incompatible { version } => numbered(
                "handover manifest speaks protocol version ",
                *version as usize,
                ", this build understands at most ",
            ).concat(text::decimal(HANDOVER_PROTOCOL_VERSION as u64).as_str()),
            HandoverError::Truncated =>
                "handover control message was truncated (MSG_CTRUNC); the transferred file descriptors were dropped by the kernel".to_string(),
            HandoverError::NoChunkHeader { received } => numbered(
                "handover peer sent ",
                *received,
                " file descriptor(s) without a chunk header",
            ),
            HandoverError::InvalidAnnouncement { announced } => two(
                "handover peer announced an invalid chunk size of ",
                text::decimal(*announced as u64).as_str(),
            ),
            HandoverError::ChunkMismatch { announced, arrived } => numbered_twice(
                "handover chunk announced ",
                *announced,
                " file descriptor(s) but ",
                *arrived,
                " arrived",
            ),
            HandoverError::TooManyFds { received, expected } => numbered_twice(
                "handover peer sent more file descriptors than its manifest promised (",
                *received,
                " > ",
                *expected,
                ")",
            ),
            HandoverError::EndedEarly { expected, received } => numbered_twice(
                "handover ended early: manifest promised ",
                *expected,
                " file descriptor(s), only ",
                *received,
                " arrived",
            ),
            HandoverError::Os { errno, detail } => two(detail.as_str(), " (os error ").concat(
                text::signed_decimal(*errno).as_str(),
            ).concat(")"),
        }
    }
}

// ---------------------------------------------------------------------------------------------
// socket paths
// ---------------------------------------------------------------------------------------------

/// The directory of the rendezvous sockets below the socket directory.
pub open spec fn socket_dir(sock_dir: Seq<char>) -> Seq<char> {
    path::joined(sock_dir, HANDOVER_SOCKET_SUBDIR@)
}

/// The rendezvous socket of a session.
pub open spec fn socket_path(sock_dir: Seq<char>, session_name: Seq<char>) -> Seq<char> {
    path::joined(socket_dir(sock_dir), session_name)
}

/// Directory holding the rendezvous sockets.
pub fn handover_socket_dir(sock_dir: &str) -> (dir: String)
    ensures
        dir@ == socket_dir(sock_dir@),
{
    path::join(sock_dir, HANDOVER_SOCKET_SUBDIR)
}

/// Rendezvous socket for `session_name`.
pub fn handover_socket_path(sock_dir: &str, session_name: &str) -> (path: String)
    ensures
        path@ == socket_path(sock_dir@, session_name@),
{
    path::join(handover_socket_dir(sock_dir).as_str(), session_name)
}

/// A rendezvous socket sits in the handover directory, which is below the socket directory and is
/// not the socket directory itself, so no listing of sessions comes upon it. Two sessions have
/// two sockets.
pub proof fn law_socket_is_no_session(sock_dir: Seq<char>, a: Seq<char>, b: Seq<char>)
    requires
        path::is_plain_name(a),
        path::is_plain_name(b),
    ensures
        socket_path(sock_dir, a) == socket_dir(sock_dir).push('/') + a,
        text::has_prefix(socket_dir(sock_dir), sock_dir),
        socket_dir(sock_dir) != sock_dir,
        socket_path(sock_dir, a) == socket_path(sock_dir, b) ==> a == b,
{
    reveal_strlit("handover");
    assert(HANDOVER_SOCKET_SUBDIR@ == "handover"@);
    assert(!HANDOVER_SOCKET_SUBDIR@.contains('/'));
    path::lemma_joined_stays_below(sock_dir, HANDOVER_SOCKET_SUBDIR@);
    assert(a.contains(a[0]));
    assert(socket_dir(sock_dir).last() == 'r');
    assert(socket_dir(sock_dir).len() > sock_dir.len());
    if socket_path(sock_dir, a) == socket_path(sock_dir, b) {
        path::lemma_joined_is_injective(socket_dir(sock_dir), a, b);
    }
}

/// Refuse a path that does not fit a socket address.
pub fn check_socket_path_length(path: &str) -> (r: Result<(), HandoverError>)
    ensures
        match r {
            Ok(_) => vstd::utf8::encode_utf8(path@).len() < ZELLIJ_SOCK_MAX_LENGTH,
            Err(e) => {
                &&& vstd::utf8::encode_utf8(path@).len() >= ZELLIJ_SOCK_MAX_LENGTH
                &&& e matches HandoverError::PathTooLong { len, path: p }
                &&& len == vstd::utf8::encode_utf8(path@).len()
                &&& p@ == path@
            },
        },
{
    let len: usize = path.as_bytes().len();
    if len >= ZELLIJ_SOCK_MAX_LENGTH {
        Err(HandoverError::PathTooLong { len, path: path.to_string() })
    } else {
        Ok(())
    }
}

// ---------------------------------------------------------------------------------------------
// the manifest on the wire
// ---------------------------------------------------------------------------------------------

/// Four bytes, the most significant one first.
pub open spec fn be_bytes(n: u32) -> Seq<u8> {
    seq![
        (n / 16_777_216) as u8,
        (n / 65_536 % 256) as u8,
        (n / 256 % 256) as u8,
        (n % 256) as u8,
    ]
}

/// What four bytes stand for, the most significant one first.
pub open spec fn be_value(b: Seq<u8>) -> u32 {
    (b[0] * 16_777_216 + b[1] * 65_536 + b[2] * 256 + b[3]) as u32
}

/// A manifest with its length in front.
pub open spec fn framed(json: Seq<u8>) -> Seq<u8> {
    be_bytes(json.len() as u32) + json
}

/// The manifest at the start of what was read.
pub open spec fn unframed(stream: Seq<u8>) -> Result<Seq<u8>, HandoverError> {
    if stream.len() < 4 {
        Err(HandoverError::UnexpectedEof)
    } else if be_value(stream) > MAX_MANIFEST_LEN {
        Err(HandoverError::ImplausibleLength { prefix: be_value(stream) })
    } else if stream.len() < 4 + be_value(stream) {
        Err(HandoverError::UnexpectedEof)
    } else {
        Ok(stream.subrange(4, 4 + be_value(stream)))
    }
}

/// The bytes that carry a manifest, given as JSON.
pub fn send_manifest(json: &Vec<u8>) -> (r: Result<Vec<u8>, HandoverError>)
    ensures
        match r {
            Ok(bytes) => json@.len() <= MAX_MANIFEST_LEN && bytes@ == framed(json@),
            Err(e) => json@.len() > MAX_MANIFEST_LEN && e == (HandoverError::ManifestTooLarge {
                len: json@.len() as usize,
            }),
        },
{
    if json.len() > MAX_MANIFEST_LEN as usize {
        return Err(HandoverError::ManifestTooLarge { len: json.len() });
    }
    let n: u32 = json.len() as u32;
    let mut bytes: Vec<u8> = Vec::new();
    bytes.push((n / 16_777_216) as u8);
    bytes.push((n / 65_536 % 256) as u8);
    bytes.push((n / 256 % 256) as u8);
    bytes.push((n % 256) as u8);
    assert(bytes@ =~= be_bytes(n));
    bytes.extend_from_slice(json.as_slice());
    assert(bytes@ =~= framed(json@));
    Ok(bytes)
}

/// The length that a manifest's first four bytes announce.
pub fn manifest_length(prefix: &[u8; 4]) -> (r: Result<u32, HandoverError>)
    ensures
        r == (if be_value(prefix@) > MAX_MANIFEST_LEN {
            Err::<u32, HandoverError>(HandoverError::ImplausibleLength { prefix: be_value(prefix@) })
        } else {
            Ok::<u32, HandoverError>(be_value(prefix@))
        }),
{
    let len: u32 = prefix[0] as u32 * 16_777_216 + prefix[1] as u32 * 65_536 + prefix[2] as u32
        * 256 + prefix[3] as u32;
    if len > MAX_MANIFEST_LEN {
        Err(HandoverError::ImplausibleLength { prefix: len })
    } else {
        Ok(len)
    }
}

/// The JSON of the manifest at the start of what was read.
pub fn recv_manifest(stream: &Vec<u8>) -> (r: Result<Vec<u8>, HandoverError>)
    ensures
        match r {
            Ok(json) => unframed(stream@) == Ok::<Seq<u8>, HandoverError>(json@),
            Err(e) => unframed(stream@) == Err::<Seq<u8>, HandoverError>(e),
        },
{
    if stream.len() < 4 {
        return Err(HandoverError::UnexpectedEof);
    }
    let prefix: [u8; 4] = [stream[0], stream[1], stream[2], stream[3]];
    match manifest_length(&prefix) {
        Err(e) => Err(e),
        Ok(len) => {
            if stream.len() - 4 < len as usize {
                return Err(HandoverError::UnexpectedEof);
            }
            let mut json: Vec<u8> = Vec::new();
            let mut i: usize = 0;
            while i < len as usize
                invariant
                    i <= len,
                    4 + len <= stream@.len() <= usize::MAX,
                    json@ == stream@.subrange(4, 4 + i),
                decreases len - i,
            {
                json.push(stream[4 + i]);
                assert(stream@.subrange(4, 4 + i + 1) =~= stream@.subrange(4, 4 + i).push(
                    stream@[4 + i],
                ));
                i += 1;
            }
            Ok(json)
        },
    }
}

/// What was sent as a manifest is what is read, whatever follows it.
pub proof fn law_manifest_survives(json: Seq<u8>, rest: Seq<u8>)
    requires
        json.len() <= MAX_MANIFEST_LEN,
    ensures
        unframed(framed(json) + rest) == Ok::<Seq<u8>, HandoverError>(json),
{
    let n = json.len() as u32;
    let stream = framed(json) + rest;
    assert(be_value(stream) == n);
    assert(stream.subrange(4, 4 + n) =~= json);
}

/// Refuse a manifest from a peer that is newer than this build.
pub fn accept_manifest(manifest: &HandoverManifest) -> (r: Result<(), HandoverError>)
    ensures
        r == (if manifest.protocol_version <= HANDOVER_PROTOCOL_VERSION {
            Ok::<(), HandoverError>(())
        } else {
            Err::<(), HandoverError>(
                HandoverError::Incompatible { version: manifest.protocol_version },
            )
        }),
{
    if manifest.is_compatible() {
        Ok(())
    } else {
        Err(HandoverError::Incompatible { version: manifest.protocol_version })
    }
}

// ---------------------------------------------------------------------------------------------
// sending descriptors
// ---------------------------------------------------------------------------------------------

/// One message: the payload byte and the descriptors beside it.
#[derive(Clone, Debug, PartialEq, Eq)]
pub struct FdChunk {
    pub payload: u8,
    pub fds: Vec<i32>,
}

/// The views of the descriptors in a list of messages.
pub open spec fn chunk_fds(chunks: Seq<FdChunk>) -> Seq<Seq<i32>> {
    chunks.map_values(|c: FdChunk| c.fds@)
}

/// Whether a message announces what it holds, and holds an admissible number.
pub open spec fn is_sound(chunk: FdChunk) -> bool {
    chunk.payload as nat == chunk.fds@.len() && 1 <= chunk.fds@.len() <= FDS_PER_CHUNK
}

/// `fds` cut into runs of `n`, the last of which may be shorter.
pub open spec fn runs<T>(fds: Seq<T>, n: nat) -> Seq<Seq<T>>
    decreases fds.len(),
{
    if fds.len() == 0 || n == 0 {
        seq![]
    } else if fds.len() <= n {
        seq![fds]
    } else {
        seq![fds.take(n as int)] + runs(fds.skip(n as int), n)
    }
}

/// The message for one run of descriptors.
pub fn send_fd_chunk(fds: &[i32]) -> (r: Result<FdChunk, HandoverError>)
    ensures
        match r {
            Ok(chunk) => chunk.fds@ == fds@ && is_sound(chunk),
            Err(e) => (fds@.len() == 0 || fds@.len() > FDS_PER_CHUNK) && e == (
            HandoverError::InvalidChunkSize { count: fds@.len() as usize }),
        },
{
    let count: usize = fds.len();
    if count == 0 || count > FDS_PER_CHUNK {
        return Err(HandoverError::InvalidChunkSize { count });
    }
    let fds = vstd::slice::slice_to_vec(fds);
    Ok(FdChunk { payload: count as u8, fds })
}

/// What became of an attempt to write a message.
#[derive(Clone, Debug, PartialEq, Eq)]
pub enum SendOutcome {
    /// This many payload bytes were written.
    Wrote(usize),
    /// A signal came first.
    Interrupted,
    /// The operating system refused.
    Refused { errno: i32, detail: String },
}

/// What to do after an attempt to write a message.
#[derive(Clone, Debug, PartialEq, Eq)]
pub enum SendStep {
    /// The message is out.
    Sent,
    /// Try again.
    Again,
    /// Give up.
    Failed(HandoverError),
}

/// What to do after an attempt to write a message of one payload byte.
pub fn after_send(outcome: SendOutcome) -> (step: SendStep)
    ensures
        step == (match outcome {
            SendOutcome::Wrote(n) => if n == 1 {
                SendStep::Sent
            } else {
                SendStep::Failed(HandoverError::ShortSend { written: n })
            },
            SendOutcome::Interrupted => SendStep::Again,
            SendOutcome::Refused { errno, detail } => SendStep::Failed(
                HandoverError::Os { errno, detail },
            ),
        }),
{
    match outcome {
        SendOutcome::Wrote(n) => {
            if n == 1 {
                SendStep::Sent
            } else {
                SendStep::Failed(HandoverError::ShortSend { written: n })
            }
        },
        SendOutcome::Interrupted => SendStep::Again,
        SendOutcome::Refused { errno, detail } => SendStep::Failed(
            HandoverError::Os { errno, detail },
        ),
    }
}

/// Refuse to send unless there is exactly one descriptor per pane.
pub fn check_fd_count(manifest: &HandoverManifest, count: usize) -> (r: Result<(), HandoverError>)
    ensures
        r == (if count == manifest.panes@.len() {
            Ok::<(), HandoverError>(())
        } else {
            Err::<(), HandoverError>(
                HandoverError::CountMismatch {
                    panes: manifest.panes@.len() as usize,
                    fds: count,
                },
            )
        }),
{
    if count != manifest.expected_fd_count() {
        Err(HandoverError::CountMismatch { panes: manifest.expected_fd_count(), fds: count })
    } else {
        Ok(())
    }
}

/// The messages that carry `fds`, in order.
pub fn fd_chunks(fds: &Vec<i32>) -> (chunks: Vec<FdChunk>)
    ensures
        chunk_fds(chunks@) == runs(fds@, FDS_PER_CHUNK as nat),
        forall|i: int| 0 <= i < chunks@.len() ==> is_sound(#[trigger] chunks@[i]),
{
    let mut chunks: Vec<FdChunk> = Vec::new();
    let total: usize = fds.len();
    let mut from: usize = 0;
    let ghost n = FDS_PER_CHUNK as nat;
    assert(fds@.skip(0) =~= fds@);
    assert(chunk_fds(chunks@) + runs(fds@, n) =~= runs(fds@, n));
    while from < total
        invariant
            from <= total == fds@.len(),
            n == FDS_PER_CHUNK,
            chunk_fds(chunks@) + runs(fds@.skip(from as int), n) == runs(fds@, n),
            forall|i: int| 0 <= i < chunks@.len() ==> is_sound(#[trigger] chunks@[i]),
        decreases fds@.len() - from,
    {
        let ghost rest = fds@.skip(from as int);
        let ghost before = chunk_fds(chunks@);
        let to: usize = if total - from <= FDS_PER_CHUNK {
            total
        } else {
            from + FDS_PER_CHUNK
        };
        let run = vstd::slice::slice_subrange(fds.as_slice(), from, to);
        assert(run@ =~= rest.take(to - from));
        match send_fd_chunk(run) {
            Ok(chunk) => {
                chunks.push(chunk);
                assert(chunk_fds(chunks@) =~= before.push(rest.take(to - from)));
            },
            Err(_) => {
                assert(false);
            },
        }
        assert(rest.skip(to - from) =~= fds@.skip(to as int));
        assert(rest.take(rest.len() as int) =~= rest);
        assert(chunk_fds(chunks@) + runs(fds@.skip(to as int), n) =~= before + (seq![
            rest.take(to - from),
        ] + runs(fds@.skip(to as int), n)));
        assert(to == fds@.len() ==> seq![rest] + runs(fds@.skip(to as int), n) =~= seq![rest]);
        from = to;
    }
    assert(chunk_fds(chunks@) + runs(fds@.skip(from as int), n) =~= chunk_fds(chunks@));
    chunks
}

/// Everything that one handover writes.
#[derive(Clone, Debug, PartialEq, Eq)]
pub struct Transmission {
    /// The length-prefixed manifest.
    pub header: Vec<u8>,
    /// The messages that follow it.
    pub chunks: Vec<FdChunk>,
}

/// A complete handover: the manifest, given as `json`, then every descriptor in pane order.
pub fn send_handover(manifest: &HandoverManifest, json: &Vec<u8>, fds: &Vec<i32>) -> (r: Result<
    Transmission,
    HandoverError,
>)
    ensures
        match r {
            Ok(t) => {
                &&& fds@.len() == manifest.panes@.len()
                &&& json@.len() <= MAX_MANIFEST_LEN
                &&& t.header@ == framed(json@)
                &&& chunk_fds(t.chunks@) == runs(fds@, FDS_PER_CHUNK as nat)
                &&& forall|i: int| 0 <= i < t.chunks@.len() ==> is_sound(#[trigger] t.chunks@[i])
            },
            Err(e) => if fds@.len() != manifest.panes@.len() {
                e == (HandoverError::CountMismatch {
                    panes: manifest.panes@.len() as usize,
                    fds: fds@.len() as usize,
                })
            } else {
                json@.len() > MAX_MANIFEST_LEN && e == (HandoverError::ManifestTooLarge {
                    len: json@.len() as usize,
                })
            },
        },
{
    match check_fd_count(manifest, fds.len()) {
        Err(e) => Err(e),
        Ok(_) => match send_manifest(json) {
            Err(e) => Err(e),
            Ok(header) => Ok(Transmission { header, chunks: fd_chunks(fds) }),
        },
    }
}

// ---------------------------------------------------------------------------------------------
// receiving descriptors
// ---------------------------------------------------------------------------------------------

/// One control message. `T` owns a descriptor, so that dropping it closes it.
pub enum Control<T> {
    /// Descriptors, now this process's own.
    Rights(Vec<T>),
    /// Anything else.
    Other,
}

/// What became of an attempt to read a message.
pub enum RecvOutcome<T> {
    /// This many payload bytes, the payload byte, and the control messages beside it.
    Message { bytes: usize, payload: u8, control: Vec<Control<T>> },
    /// The kernel had to drop part of the control messages.
    Truncated,
    /// A signal came first.
    Interrupted,
    /// The operating system refused.
    Refused { errno: i32, detail: String },
}

/// What to do after an attempt to read a message.
pub enum RecvStep<T> {
    /// Try again.
    Again,
    /// The peer closed the stream between two messages.
    Eof,
    /// These descriptors came.
    Chunk(Vec<T>),
    /// Give up.
    Failed(HandoverError),
}

/// All descriptors in a list of control messages, in order.
pub open spec fn rights_of<T>(control: Seq<Control<T>>) -> Seq<T>
    decreases control.len(),
{
    if control.len() == 0 {
        seq![]
    } else {
        rights_of(control.drop_last()) + match control.last() {
            Control::Rights(fds) => fds@,
            Control::Other => seq![],
        }
    }
}

/// Whether `step` is what an attempt to read calls for.
pub open spec fn answers<T>(outcome: RecvOutcome<T>, step: RecvStep<T>) -> bool {
    match outcome {
        RecvOutcome::Interrupted => step is Again,
        RecvOutcome::Truncated => step == RecvStep::<T>::Failed(HandoverError::Truncated),
        RecvOutcome::Refused { errno, detail } => step == RecvStep::<T>::Failed(
            HandoverError::Os { errno, detail },
        ),
        RecvOutcome::Message { bytes, payload, control } => {
            let fds = rights_of(control@);
            if bytes == 0 {
                if fds.len() == 0 {
                    step is Eof
                } else {
                    step == RecvStep::<T>::Failed(
                        HandoverError::NoChunkHeader { received: fds.len() as usize },
                    )
                }
            } else if payload == 0 || payload > FDS_PER_CHUNK {
                step == RecvStep::<T>::Failed(
                    HandoverError::InvalidAnnouncement { announced: payload as usize },
                )
            } else if fds.len() != payload {
                step == RecvStep::<T>::Failed(
                    HandoverError::ChunkMismatch {
                        announced: payload as usize,
                        arrived: fds.len() as usize,
                    },
                )
            } else {
                step matches RecvStep::Chunk(got) && got@ == fds
            }
        },
    }
}

/// All descriptors in a list of control messages.
fn collect_rights<T>(control: Vec<Control<T>>) -> (fds: Vec<T>)
    ensures
        fds@ == rights_of(control@),
{
    let mut rest = control;
    let mut fds: Vec<T> = Vec::new();
    let ghost all = rest@;
    let ghost mut done: int = 0;
    assert(all.skip(0) =~= all);
    assert(all.take(0) =~= Seq::empty());
    while rest.len() > 0
        invariant
            0 <= done <= all.len(),
            rest@ == all.skip(done),
            fds@ == rights_of(all.take(done)),
        decreases rest@.len(),
    {
        let first = rest.remove(0);
        assert(rest@ =~= all.skip(done + 1));
        assert(first == all[done]);
        assert(all.take(done + 1).drop_last() =~= all.take(done));
        match first {
            Control::Rights(more) => {
                let mut more = more;
                fds.append(&mut more);
            },
            Control::Other => {
                assert(rights_of(all.take(done)) + Seq::<T>::empty() =~= rights_of(all.take(done)));
            },
        }
        proof {
            done = done + 1;
        }
    }
    assert(all.take(done) =~= all);
    fds
}

/// What to do after an attempt to read a message. Whatever is not handed on in the step is
/// dropped, and thereby closed.
pub fn recv_fd_chunk<T>(outcome: RecvOutcome<T>) -> (step: RecvStep<T>)
    ensures
        answers(outcome, step),
{
    match outcome {
        RecvOutcome::Interrupted => RecvStep::Again,
        RecvOutcome::Truncated => RecvStep::Failed(HandoverError::Truncated),
        RecvOutcome::Refused { errno, detail } => RecvStep::Failed(
            HandoverError::Os { errno, detail },
        ),
        RecvOutcome::Message { bytes, payload, control } => {
            let received = collect_rights(control);
            if bytes == 0 {
                if received.len() > 0 {
                    return RecvStep::Failed(
                        HandoverError::NoChunkHeader { received: received.len() },
                    );
                }
                return RecvStep::Eof;
            }
            let announced: usize = payload as usize;
            if announced == 0 || announced > FDS_PER_CHUNK {
                return RecvStep::Failed(HandoverError::InvalidAnnouncement { announced });
            }
            if received.len() != announced {
                return RecvStep::Failed(
                    HandoverError::ChunkMismatch { announced, arrived: received.len() },
                );
            }
            RecvStep::Chunk(received)
        },
    }
}

/// The receiving side of a handover: how many descriptors the manifest lists, and those that came.
pub struct Receiver<T> {
    expected: usize,
    fds: Vec<T>,
}

impl<T> Receiver<T> {
    /// How many descriptors the manifest lists.
    pub closed spec fn expected(&self) -> nat {
        self.expected as nat
    }

    /// The descriptors that came, in order.
    pub closed spec fn got(&self) -> Seq<T> {
        self.fds@
    }

    /// Never more came than the manifest lists.
    pub open spec fn wf(&self) -> bool {
        self.got().len() <= self.expected()
    }

    /// A receiver that waits for `expected` descriptors.
    pub fn new(expected: usize) -> (receiver: Self)
        ensures
            receiver.wf(),
            receiver.expected() == expected,
            receiver.got() == Seq::<T>::empty(),
    {
        Receiver { expected, fds: Vec::new() }
    }

    /// Whether every descriptor has come.
    pub fn is_complete(&self) -> (b: bool)
        ensures
            b == (self.got().len() >= self.expected()),
    {
        self.fds.len() >= self.expected
    }

    /// Take in what one message brought. On an error the descriptors that came before are dropped,
    /// and thereby closed.
    pub fn accept(self, chunk: Vec<T>) -> (r: Result<Self, HandoverError>)
        requires
            self.wf(),
        ensures
            match r {
                Ok(next) => {
                    &&& next.wf()
                    &&& next.expected() == self.expected()
                    &&& next.got() == self.got() + chunk@
                },
                Err(e) => {
                    &&& self.got().len() + chunk@.len() > self.expected()
                    &&& e == (HandoverError::TooManyFds {
                        received: (self.got().len() + chunk@.len()) as usize,
                        expected: self.expected() as usize,
                    })
                },
            },
    {
        let mut next = self;
        let mut chunk = chunk;
        next.fds.append(&mut chunk);
        if next.fds.len() > next.expected {
            return Err(
                HandoverError::TooManyFds { received: next.fds.len(), expected: next.expected },
            );
        }
        Ok(next)
    }

    /// What it means that the stream ends here.
    pub fn ended_early(&self) -> (e: HandoverError)
        ensures
            e == (HandoverError::EndedEarly {
                expected: self.expected() as usize,
                received: self.got().len() as usize,
            }),
    {
        HandoverError::EndedEarly { expected: self.expected, received: self.fds.len() }
    }

    /// The descriptors, in the order in which they came.
    pub fn into_fds(self) -> (fds: Vec<T>)
        ensures
            fds@ == self.got(),
    {
        self.fds
    }
}

/// What receiving comes to when the attempts to read bring `outcomes` and then the end of the
/// stream: `got` came before.
pub open spec fn received<T>(
    expected: nat,
    got: Seq<T>,
    outcomes: Seq<RecvOutcome<T>>,
) -> Result<Seq<T>, HandoverError>
    decreases outcomes.len(),
{
    let ended = HandoverError::EndedEarly {
        expected: expected as usize,
        received: got.len() as usize,
    };
    if got.len() >= expected {
        Ok(got)
    } else if outcomes.len() == 0 {
        Err(ended)
    } else {
        let rest = outcomes.skip(1);
        match outcomes[0] {
            RecvOutcome::Interrupted => received(expected, got, rest),
            RecvOutcome::Truncated => Err(HandoverError::Truncated),
            RecvOutcome::Refused { errno, detail } => Err(HandoverError::Os { errno, detail }),
            RecvOutcome::Message { bytes, payload, control } => {
                let fds = rights_of(control@);
                if bytes == 0 {
                    if fds.len() == 0 {
                        Err(ended)
                    } else {
                        Err(HandoverError::NoChunkHeader { received: fds.len() as usize })
                    }
                } else if payload == 0 || payload > FDS_PER_CHUNK {
                    Err(HandoverError::InvalidAnnouncement { announced: payload as usize })
                } else if fds.len() != payload {
                    Err(
                        HandoverError::ChunkMismatch {
                            announced: payload as usize,
                            arrived: fds.len() as usize,
                        },
                    )
                } else if got.len() + fds.len() > expected {
                    Err(
                        HandoverError::TooManyFds {
                            received: (got.len() + fds.len()) as usize,
                            expected: expected as usize,
                        },
                    )
                } else {
                    received(expected, got + fds, rest)
                }
            },
        }
    }
}

/// Receive exactly one descriptor per pane from a stream on which the attempts to read bring
/// `outcomes` and then the end of the stream.
pub fn recv_handover<T>(manifest: &HandoverManifest, outcomes: Vec<RecvOutcome<T>>) -> (r: Result<
    Vec<T>,
    HandoverError,
>)
    ensures
        match r {
            Ok(fds) => received(manifest.panes@.len(), Seq::<T>::empty(), outcomes@) == Ok::<
                Seq<T>,
                HandoverError,
            >(fds@),
            Err(e) => received(manifest.panes@.len(), Seq::<T>::empty(), outcomes@) == Err::<
                Seq<T>,
                HandoverError,
            >(e),
        },
{
    let mut receiver = Receiver::new(manifest.expected_fd_count());
    let mut rest = outcomes;
    let ghost expected = manifest.panes@.len();
    while !receiver.is_complete()
        invariant
            receiver.wf(),
            receiver.expected() == expected,
            expected == manifest.panes@.len(),
            received(expected, receiver.got(), rest@) == received(
                expected,
                Seq::<T>::empty(),
                outcomes@,
            ),
        decreases rest@.len(),
    {
        let ghost before = rest@;
        if rest.len() == 0 {
            return Err(receiver.ended_early());
        }
        let outcome = rest.remove(0);
        assert(rest@ =~= before.skip(1));
        match recv_fd_chunk(outcome) {
            RecvStep::Again => {},
            RecvStep::Failed(e) => {
                return Err(e);
            },
            RecvStep::Eof => {
                return Err(receiver.ended_early());
            },
            RecvStep::Chunk(chunk) => match receiver.accept(chunk) {
                Ok(next) => {
                    receiver = next;
                },
                Err(e) => {
                    return Err(e);
                },
            },
        }
    }
    Ok(receiver.into_fds())
}

/// Cutting descriptors into runs loses none, keeps their order, and makes each run hold at least
/// one and at most `n`.
pub proof fn law_runs_cover<T>(fds: Seq<T>, n: nat)
    requires
        n > 0,
    ensures
        runs(fds, n).flatten() == fds,
        forall|i: int| 0 <= i < runs(fds, n).len() ==> 1 <= (#[trigger] runs(fds, n)[i]).len() <= n,
    decreases fds.len(),
{
    let all = runs(fds, n);
    if fds.len() == 0 {
    } else if fds.len() <= n {
        assert(all.drop_first() =~= Seq::<Seq<T>>::empty());
        assert(all.drop_first().flatten() =~= Seq::<T>::empty());
        assert(all.flatten() =~= fds);
    } else {
        let rest = runs(fds.skip(n as int), n);
        law_runs_cover(fds.skip(n as int), n);
        assert(all.drop_first() =~= rest);
        assert(all.flatten() =~= fds.take(n as int) + rest.flatten());
        assert(fds.take(n as int) + fds.skip(n as int) =~= fds);
        assert forall|i: int| 0 <= i < all.len() implies 1 <= (#[trigger] all[i]).len() <= n by {
            if i > 0 {
                assert(all[i] == rest[i - 1]);
            }
        }
    }
}

/// Whether an attempt to read brought exactly the message for `run`.
pub open spec fn delivers<T>(outcome: RecvOutcome<T>, run: Seq<T>) -> bool {
    outcome matches RecvOutcome::Message { bytes, payload, control } && bytes == 1 && payload
        == run.len() && rights_of(control@) == run
}

/// Whether the attempts to read brought the messages for the first runs, in order.
pub open spec fn delivers_all<T>(outcomes: Seq<RecvOutcome<T>>, list: Seq<Seq<T>>) -> bool {
    outcomes.len() <= list.len() && forall|i: int|
        0 <= i < outcomes.len() ==> delivers(#[trigger] outcomes[i], list[i])
}

proof fn lemma_delivery<T>(got: Seq<T>, fds: Seq<T>, outcomes: Seq<RecvOutcome<T>>)
    requires
        delivers_all(outcomes, runs(fds, FDS_PER_CHUNK as nat)),
    ensures
        ({
            let list = runs(fds, FDS_PER_CHUNK as nat);
            let r = received(got.len() + fds.len(), got, outcomes);
            &&& outcomes.len() == list.len() ==> r == Ok::<Seq<T>, HandoverError>(got + fds)
            &&& outcomes.len() < list.len() ==> r == Err::<Seq<T>, HandoverError>(
                HandoverError::EndedEarly {
                    expected: (got.len() + fds.len()) as usize,
                    received: (got.len() + outcomes.len() * FDS_PER_CHUNK) as usize,
                },
            )
        }),
    decreases fds.len(),
{
    let n = FDS_PER_CHUNK as nat;
    let list = runs(fds, n);
    if fds.len() == 0 {
        assert(got + fds =~= got);
    } else if outcomes.len() > 0 {
        let run = if fds.len() <= n {
            fds
        } else {
            fds.take(n as int)
        };
        let rest = fds.skip(run.len() as int);
        assert(runs(rest, n) =~= list.skip(1));
        let later = outcomes.skip(1);
        assert(delivers(outcomes[0], list[0]));
        assert forall|i: int| 0 <= i < later.len() implies delivers(
            #[trigger] later[i],
            runs(rest, n)[i],
        ) by {
            assert(later[i] == outcomes[i + 1]);
        }
        lemma_delivery(got + run, rest, later);
        assert((got + run) + rest =~= got + fds);
    }
}

/// The receiver ends up with exactly the sender's descriptors, in the sender's order, when the
/// messages of the sender reach it.
pub proof fn law_descriptors_survive<T>(fds: Seq<T>, outcomes: Seq<RecvOutcome<T>>)
    requires
        outcomes.len() == runs(fds, FDS_PER_CHUNK as nat).len(),
        delivers_all(outcomes, runs(fds, FDS_PER_CHUNK as nat)),
    ensures
        received(fds.len(), Seq::<T>::empty(), outcomes) == Ok::<Seq<T>, HandoverError>(fds),
{
    lemma_delivery(Seq::<T>::empty(), fds, outcomes);
    assert(Seq::<T>::empty() + fds =~= fds);
}

/// A sender that stops between two messages is reported as such, with the number of descriptors
/// that the manifest lists and the number that came.
pub proof fn law_early_end_is_reported<T>(fds: Seq<T>, outcomes: Seq<RecvOutcome<T>>)
    requires
        outcomes.len() < runs(fds, FDS_PER_CHUNK as nat).len(),
        delivers_all(outcomes, runs(fds, FDS_PER_CHUNK as nat)),
    ensures
        received(fds.len(), Seq::<T>::empty(), outcomes) == Err::<Seq<T>, HandoverError>(
            HandoverError::EndedEarly {
                expected: fds.len() as usize,
                received: (outcomes.len() * FDS_PER_CHUNK) as usize,
            },
        ),
{
    lemma_delivery(Seq::<T>::empty(), fds, outcomes);
}

/// A signal that comes before a message changes nothing, wherever it comes.
pub proof fn law_signals_do_not_matter<T>(
    expected: nat,
    got: Seq<T>,
    outcomes: Seq<RecvOutcome<T>>,
    k: int,
)
    requires
        0 <= k <= outcomes.len(),
    ensures
        received(expected, got, outcomes.insert(k, RecvOutcome::<T>::Interrupted)) == received(
            expected,
            got,
            outcomes,
        ),
    decreases k,
{
    let disturbed = outcomes.insert(k, RecvOutcome::<T>::Interrupted);
    if k == 0 {
        assert(disturbed.skip(1) =~= outcomes);
    } else {
        let rest = outcomes.skip(1);
        assert(disturbed.skip(1) =~= rest.insert(k - 1, RecvOutcome::<T>::Interrupted));
        assert(disturbed[0] == outcomes[0]);
        law_signals_do_not_matter(expected, got, rest, k - 1);
        if let RecvOutcome::Message { bytes, payload, control } = outcomes[0] {
            law_signals_do_not_matter(expected, got + rights_of(control@), rest, k - 1);
        }
    }
}

/// Whatever a peer sends, receiving succeeds only with as many descriptors as the manifest lists.
pub proof fn law_success_is_complete<T>(
    expected: nat,
    got: Seq<T>,
    outcomes: Seq<RecvOutcome<T>>,
)
    requires
        got.len() <= expected,
    ensures
        received(expected, got, outcomes) matches Ok(fds) ==> fds.len() == expected,
    decreases outcomes.len(),
{
    if got.len() < expected && outcomes.len() > 0 {
        let rest = outcomes.skip(1);
        law_success_is_complete(expected, got, rest);
        match outcomes[0] {
            RecvOutcome::Message { bytes, payload, control } => {
                let fds = rights_of(control@);
                if got.len() + fds.len() <= expected {
                    law_success_is_complete(expected, got + fds, rest);
                }
            },
            _ => {},
        }
    }
}

// ---------------------------------------------------------------------------------------------
// laws on what travels
// ---------------------------------------------------------------------------------------------

/// A manifest travels behind its length in four bytes, of which the first is worth most; reading
/// takes the same four bytes at the same worth.
pub proof fn law_length_travels_high_byte_first(n: u32, json: Seq<u8>, stream: Seq<u8>)
    ensures
        be_bytes(n).len() == 4,
        be_bytes(n)[0] * 0x100_0000 + be_bytes(n)[1] * 0x1_0000 + be_bytes(n)[2] * 0x100 + be_bytes(
            n,
        )[3] == n,
        be_value(stream) == stream[0] * 0x100_0000 + stream[1] * 0x1_0000 + stream[2] * 0x100
            + stream[3],
        json.len() <= 0xffff_ffff ==> framed(json).len() == json.len() + 4,
        json.len() <= 0xffff_ffff ==> framed(json).take(4) == be_bytes(json.len() as u32),
        json.len() <= 0xffff_ffff ==> framed(json).skip(4) == json,
{
    lemma_bytes_of_a_number(n);
    assert(framed(json).take(4) =~= be_bytes(json.len() as u32));
    assert(framed(json).skip(4) =~= json);
}

proof fn lemma_bytes_of_a_number(n: u32)
    ensures
        be_bytes(n)[0] * 0x100_0000 + be_bytes(n)[1] * 0x1_0000 + be_bytes(n)[2] * 0x100 + be_bytes(
            n,
        )[3] == n,
{
    let (a, b, c) = (n / 256, n / 65_536, n / 16_777_216);
    assert(b == a / 256 && c == b / 256 && c < 256);
    assert(n == a * 256 + n % 256);
    assert(a == b * 256 + a % 256);
    assert(b == c * 256 + b % 256);
    assert(be_bytes(n)[0] == c && be_bytes(n)[1] == b % 256 && be_bytes(n)[2] == a % 256
        && be_bytes(n)[3] == n % 256);
}

/// A manifest that is cut off anywhere is reported as cut off; a length beyond sixteen mebibytes is
/// reported as such, whatever follows; and what is read is never longer than announced.
pub proof fn law_cut_manifest_is_refused(json: Seq<u8>, k: int, stream: Seq<u8>)
    ensures
        json.len() <= 0x100_0000 && 0 <= k < framed(json).len() ==> unframed(framed(json).take(k))
            == Err::<Seq<u8>, HandoverError>(HandoverError::UnexpectedEof),
        stream.len() >= 4 && be_value(stream) > 0x100_0000 ==> unframed(stream) == Err::<
            Seq<u8>,
            HandoverError,
        >(HandoverError::ImplausibleLength { prefix: be_value(stream) }),
        unframed(stream) matches Ok(read) ==> read.len() == be_value(stream) && read.len()
            <= 0x100_0000 && stream.take(4 + read.len() as int).skip(4) == read,
        stream.len() < 4 ==> unframed(stream) == Err::<Seq<u8>, HandoverError>(
            HandoverError::UnexpectedEof,
        ),
{
    if json.len() <= 0x100_0000 && 0 <= k < framed(json).len() {
        let cut = framed(json).take(k);
        let n = json.len() as u32;
        law_length_travels_high_byte_first(n, json, framed(json));
        if k >= 4 {
            assert(cut[0] == be_bytes(n)[0] && cut[1] == be_bytes(n)[1] && cut[2] == be_bytes(n)[2]
                && cut[3] == be_bytes(n)[3]);
            assert(be_value(cut) == n);
        }
    }
    if let Ok(read) = unframed(stream) {
        assert(stream.take(4 + read.len() as int).skip(4) =~= read);
    }
}

/// Every run but the last is full, so there are no more messages than needed.
pub proof fn law_runs_are_full<T>(fds: Seq<T>, n: nat, i: int)
    requires
        n > 0,
    ensures
        0 <= i < runs(fds, n).len() - 1 ==> runs(fds, n)[i].len() == n,
        runs(fds, n).len() == (fds.len() + n - 1) / n as int,
    decreases fds.len(),
{
    let all = runs(fds, n);
    if fds.len() == 0 {
        assert((n - 1) / n as int == 0) by (nonlinear_arith)
            requires
                n > 0,
        ;
    } else if fds.len() <= n {
        let m = fds.len();
        assert((m + n - 1) / n as int == 1) by (nonlinear_arith)
            requires
                n > 0,
                1 <= m <= n,
        ;
    } else {
        let rest = fds.skip(n as int);
        law_runs_are_full(rest, n, i - 1);
        let m = rest.len();
        assert((m + n + n - 1) / n as int == 1 + (m + n - 1) / n as int) by (nonlinear_arith)
            requires
                n > 0,
                m >= 0,
        ;
        if 1 <= i < all.len() {
            assert(all[i] == runs(rest, n)[i - 1]);
        }
    }
}

/// The descriptors of several control messages are those of each, in order; a message of another
/// kind brings none.
pub proof fn law_rights_add_up<T>(a: Seq<Control<T>>, b: Seq<Control<T>>, fds: Vec<T>)
    ensures
        rights_of(a + b) == rights_of(a) + rights_of(b),
        rights_of(seq![Control::Rights(fds)]) == fds@,
        rights_of(seq![Control::<T>::Other]) == Seq::<T>::empty(),
        rights_of(Seq::<Control<T>>::empty()) == Seq::<T>::empty(),
    decreases b.len(),
{
    reveal_with_fuel(rights_of, 2);
    let one = seq![Control::Rights(fds)];
    let other = seq![Control::<T>::Other];
    assert(one.drop_last() =~= Seq::<Control<T>>::empty());
    assert(other.drop_last() =~= Seq::<Control<T>>::empty());
    assert(rights_of(one) =~= fds@);
    assert(rights_of(other) =~= Seq::<T>::empty());
    if b.len() == 0 {
        assert(a + b =~= a);
        assert(rights_of(a) + rights_of(b) =~= rights_of(a));
    } else {
        law_rights_add_up(a, b.drop_last(), fds);
        assert((a + b).drop_last() =~= a + b.drop_last());
        assert(rights_of(a + b) =~= rights_of(a) + rights_of(b));
    }
}

/// A message is taken exactly where it announces between one and 64 descriptors and brings as many,
/// and then all of them are taken, in order. Only a signal has it tried again, and only the end of
/// the stream with nothing beside it ends it quietly.
pub proof fn law_only_sound_messages_are_taken<T>(outcome: RecvOutcome<T>, step: RecvStep<T>)
    requires
        call_ensures(recv_fd_chunk::<T>, (outcome,), step),
    ensures
        step is Chunk <==> (outcome matches RecvOutcome::Message { bytes, payload, control } && bytes
            > 0 && 1 <= payload <= 64 && rights_of(control@).len() == payload),
        step matches RecvStep::Chunk(fds) ==> (
        outcome matches RecvOutcome::Message { bytes, payload, control } && fds@ == rights_of(
            control@,
        )),
        step is Again <==> outcome is Interrupted,
        step is Eof <==> (outcome matches RecvOutcome::Message { bytes, payload, control } && bytes
            == 0 && rights_of(control@).len() == 0),
        outcome is Truncated ==> step == RecvStep::<T>::Failed(HandoverError::Truncated),
{
}

/// Receiving goes message by message: the first that cannot be taken ends it with its own error,
/// the end of the stream with the number still missing, and one that brings too many with both
/// numbers; what it does bring is added at the end. Nothing is read once every descriptor has come.
pub proof fn law_receiving_goes_message_by_message<T>(
    expected: nat,
    got: Seq<T>,
    outcome: RecvOutcome<T>,
    step: RecvStep<T>,
    rest: Seq<RecvOutcome<T>>,
)
    requires
        answers(outcome, step),
        got.len() < expected,
    ensures
        ({
            let r = received(expected, got, seq![outcome] + rest);
            let ended = HandoverError::EndedEarly {
                expected: expected as usize,
                received: got.len() as usize,
            };
            &&& received(expected, got, seq![]) == Err::<Seq<T>, HandoverError>(ended)
            &&& step is Again ==> r == received(expected, got, rest)
            &&& step is Eof ==> r == Err::<Seq<T>, HandoverError>(ended)
            &&& (step matches RecvStep::Failed(e) ==> r == Err::<Seq<T>, HandoverError>(e))
            &&& (step matches RecvStep::Chunk(fds) ==> r == (if got.len() + fds@.len() <= expected {
                received(expected, got + fds@, rest)
            } else {
                Err::<Seq<T>, HandoverError>(
                    HandoverError::TooManyFds {
                        received: (got.len() + fds@.len()) as usize,
                        expected: expected as usize,
                    },
                )
            }))
        }),
        forall|more: Seq<T>| more.len() == expected ==> #[trigger] received(expected, more, rest)
            == Ok::<Seq<T>, HandoverError>(more),
{
    assert((seq![outcome] + rest)[0] == outcome);
    assert((seq![outcome] + rest).skip(1) =~= rest);
}

/// A handover is sent exactly where there is one descriptor per pane and the manifest is not too
/// large; the manifest goes first, and what the messages carry, one after the other, are the
/// descriptors in order.
pub proof fn law_handover_carries_every_descriptor(
    manifest: HandoverManifest,
    json: Vec<u8>,
    fds: Vec<i32>,
    r: Result<Transmission, HandoverError>,
)
    requires
        call_ensures(send_handover, (&manifest, &json, &fds), r),
    ensures
        r is Ok <==> fds@.len() == manifest.panes@.len() && json@.len() <= 0x100_0000,
        r matches Ok(t) ==> unframed(t.header@) == Ok::<Seq<u8>, HandoverError>(json@) && chunk_fds(
            t.chunks@,
        ).flatten() == fds@ && (forall|i: int|
            0 <= i < t.chunks@.len() ==> (#[trigger] t.chunks@[i]).payload == t.chunks@[i].fds@.len()
                && 1 <= t.chunks@[i].fds@.len() <= 64),
{
    if let Ok(t) = r {
        law_manifest_survives(json@, Seq::<u8>::empty());
        assert(framed(json@) + Seq::<u8>::empty() =~= framed(json@));
        law_runs_cover(fds@, FDS_PER_CHUNK as nat);
        assert forall|i: int| 0 <= i < t.chunks@.len() implies (#[trigger] t.chunks@[i]).payload
            == t.chunks@[i].fds@.len() && 1 <= t.chunks@[i].fds@.len() <= 64 by {
            assert(is_sound(t.chunks@[i]));
        }
    }
}

/// A message is out exactly where its one byte was written, and only a signal has it tried again; a
/// peer is understood exactly where it does not speak a newer protocol; a socket path is refused
/// from 108 bytes on.
pub proof fn law_handover_limits(
    outcome: SendOutcome,
    step: SendStep,
    manifest: HandoverManifest,
    accepted: Result<(), HandoverError>,
    path: &str,
    fits: Result<(), HandoverError>,
)
    requires
        call_ensures(after_send, (outcome,), step),
        call_ensures(accept_manifest, (&manifest,), accepted),
        call_ensures(check_socket_path_length, (path,), fits),
    ensures
        step is Sent <==> outcome == SendOutcome::Wrote(1),
        step is Again <==> outcome is Interrupted,
        accepted is Ok <==> manifest.protocol_version <= 1,
        fits is Ok <==> vstd::utf8::encode_utf8(path@).len() <= 107,
{
}

/// A copy of a pane entry says of every part what the entry says; a bare entry says nothing but its
/// terminal id.
pub proof fn law_copied_entry_is_whole(a: PaneHandover, b: PaneHandover, id: u32)
    requires
        same_pane(a, b),
    ensures
        a.terminal_id == b.terminal_id && a.child_pid == b.child_pid && a.restart == b.restart
            && a.size == b.size,
        a.command is Some <==> b.command is Some,
        a.command matches Some(words) ==> text::views(words@) == text::views(b.command->0@),
        text::optional_view(a.cwd) == text::optional_view(b.cwd),
        text::optional_view(a.scrollback_file) == text::optional_view(b.scrollback_file),
        bare_pane(id).terminal_id == id && bare_pane(id).child_pid is None && bare_pane(
            id,
        ).command is None && bare_pane(id).cwd is None && bare_pane(id).restart is No && bare_pane(
            id,
        ).scrollback_file is None && bare_pane(id).size == (0u16, 0u16),
{
}

/// A manifest that was sent is what is read at the other end, whatever follows it on the stream.
pub proof fn law_sent_manifest_is_read(
    json: Vec<u8>,
    sent: Result<Vec<u8>, HandoverError>,
    stream: Vec<u8>,
    rest: Seq<u8>,
    r: Result<Vec<u8>, HandoverError>,
)
    requires
        call_ensures(send_manifest, (&json,), sent),
        call_ensures(recv_manifest, (&stream,), r),
    ensures
        sent is Ok <==> json@.len() <= 0x100_0000,
        sent matches Ok(bytes) ==> (stream@ == bytes@ + rest ==> (r matches Ok(read) && read@
            == json@)),
{
    if let Ok(bytes) = sent {
        law_manifest_survives(json@, rest);
    }
}

/// A session's descriptors arrive whole and in order: what is received of the messages of a
/// handover, each read as it was sent, are the descriptors that were handed over.
pub proof fn law_handed_over_descriptors_arrive(
    manifest: HandoverManifest,
    json: Vec<u8>,
    fds: Vec<i32>,
    sent: Transmission,
    outcomes: Vec<RecvOutcome<i32>>,
    r: Result<Vec<i32>, HandoverError>,
)
    requires
        call_ensures(
            send_handover,
            (&manifest, &json, &fds),
            Ok::<Transmission, HandoverError>(sent),
        ),
        call_ensures(recv_handover::<i32>, (&manifest, outcomes), r),
        outcomes@.len() == sent.chunks@.len(),
        forall|i: int|
            0 <= i < outcomes@.len() ==> (#[trigger] outcomes@[i] matches RecvOutcome::Message {
                bytes,
                payload,
                control,
            } && bytes == 1 && payload == sent.chunks@[i].payload && rights_of(control@)
                == sent.chunks@[i].fds@),
    ensures
        r matches Ok(got) && got@ == fds@,
{
    let list = runs(fds@, FDS_PER_CHUNK as nat);
    assert(chunk_fds(sent.chunks@).len() == sent.chunks@.len());
    assert forall|i: int| 0 <= i < outcomes@.len() implies delivers(
        #[trigger] outcomes@[i],
        list[i],
    ) by {
        assert(chunk_fds(sent.chunks@)[i] == sent.chunks@[i].fds@);
        assert(is_sound(sent.chunks@[i]));
    }
    law_descriptors_survive(fds@, outcomes@);
}

/// The receiver takes in what comes, in order, and refuses exactly what is more than the manifest
/// lists; it is complete exactly when as many came as that.
pub proof fn law_receiver_takes_no_more_than_listed(
    receiver: Receiver<i32>,
    chunk: Vec<i32>,
    next: Result<Receiver<i32>, HandoverError>,
    complete: bool,
)
    requires
        receiver.wf(),
        call_ensures(Receiver::<i32>::accept, (receiver, chunk), next),
        call_ensures(Receiver::<i32>::is_complete, (&receiver,), complete),
    ensures
        next is Ok <==> receiver.got().len() + chunk@.len() <= receiver.expected(),
        next matches Ok(after) ==> after.got() == receiver.got() + chunk@ && after.expected()
            == receiver.expected() && after.wf(),
        complete <==> receiver.got().len() == receiver.expected(),
{
}

/// One message carries between one and 64 descriptors and says how many; a manifest needs one per
/// pane, and its length is refused beyond sixteen mebibytes.
pub proof fn law_message_says_how_many_it_carries(
    fds: &[i32],
    chunk: Result<FdChunk, HandoverError>,
    manifest: HandoverManifest,
    count: usize,
    checked: Result<(), HandoverError>,
    prefix: [u8; 4],
    len: Result<u32, HandoverError>,
)
    requires
        call_ensures(send_fd_chunk, (fds,), chunk),
        call_ensures(check_fd_count, (&manifest, count), checked),
        call_ensures(manifest_length, (&prefix,), len),
    ensures
        chunk is Ok <==> 1 <= fds@.len() <= 64,
        chunk matches Ok(c) ==> c.fds@ == fds@ && c.payload == fds@.len(),
        checked is Ok <==> count == manifest.panes@.len(),
        len is Ok <==> be_value(prefix@) <= 0x100_0000,
        len matches Ok(n) ==> n == be_value(prefix@),
{
}

/// An error that speaks of two numbers names each for what it is.
pub proof fn law_errors_name_their_numbers(a: usize, b: usize)
    ensures
        text::has_prefix(
            error_text(HandoverError::EndedEarly { expected: a, received: b }),
            "handover ended early: manifest promised "@ + text::dec(a as nat)
                + " file descriptor(s), only "@ + text::dec(b as nat),
        ),
        text::has_prefix(
            error_text(HandoverError::ChunkMismatch { announced: a, arrived: b }),
            "handover chunk announced "@ + text::dec(a as nat) + " file descriptor(s) but "@
                + text::dec(b as nat),
        ),
        text::has_prefix(
            error_text(HandoverError::CountMismatch { panes: a, fds: b }),
            "handover manifest lists "@ + text::dec(a as nat) + " pane(s) but "@ + text::dec(
                b as nat,
            ),
        ),
{
    let early = "handover ended early: manifest promised "@ + text::dec(a as nat)
        + " file descriptor(s), only "@ + text::dec(b as nat);
    let chunk = "handover chunk announced "@ + text::dec(a as nat) + " file descriptor(s) but "@
        + text::dec(b as nat);
    let lists = "handover manifest lists "@ + text::dec(a as nat) + " pane(s) but "@ + text::dec(
        b as nat,
    );
    text::law_beginnings_and_ends(early, early, " arrived"@);
    text::law_beginnings_and_ends(chunk, chunk, " arrived"@);
    text::law_beginnings_and_ends(lists, lists, " file descriptor(s) were given"@);
}

/// A new manifest speaks the first protocol and lists no pane; a receiver begins with nothing
/// received; a pane is as many rows and columns as its size says.
pub proof fn law_handover_begins_empty(
    session: String,
    version: String,
    manifest: HandoverManifest,
    expected: usize,
    receiver: Receiver<i32>,
    pane: PaneHandover,
    rows: u16,
    cols: u16,
    chunks: Seq<FdChunk>,
    i: int,
)
    requires
        call_ensures(HandoverManifest::new, (session, version), manifest),
        call_ensures(Receiver::<i32>::new, (expected,), receiver),
        call_ensures(PaneHandover::rows, (&pane,), rows),
        call_ensures(PaneHandover::cols, (&pane,), cols),
    ensures
        manifest.protocol_version == 1 && manifest.panes@.len() == 0,
        manifest.session_name == session && manifest.old_server_version == version,
        receiver.got().len() == 0 && receiver.expected() == expected,
        pane.size == (rows, cols),
        chunk_fds(chunks).len() == chunks.len(),
        0 <= i < chunks.len() ==> chunk_fds(chunks)[i] == chunks[i].fds@,
{
}

} // verus!
