//! Freezing panes by way of control groups.
//!
//! Every terminal pane lives in a control group of its own,
//! `<server's group>/gezellij-<session>/pane-<terminal id>`, which the kernel can freeze and thaw as
//! a whole. The server records where its session's groups are, so that others find them.
use crate::path;
use crate::path::FileAnswer;
use crate::path::FileWrite;
use crate::sorting;
use crate::text;
use vstd::prelude::*;

verus! {

/// Where the control groups are mounted.
pub const CGROUP_FS_ROOT: &'static str = "/sys/fs/cgroup";

/// The file whose presence tells that the unified hierarchy is mounted.
pub const CONTROLLERS_FILE: &'static str = "cgroup.controllers";

pub const SESSION_RECORD_SUFFIX: &'static str = ".cgroup-root";

pub const PANE_DIR_PREFIX: &'static str = "pane-";

pub const SESSION_DIR_PREFIX: &'static str = "gezellij-";

/// Why a session has no control groups.
#[derive(Clone, Copy, Debug, PartialEq, Eq, Structural)]
pub enum CgroupError {
    /// The unified hierarchy is not mounted.
    NotMounted,
    /// This process is in no group of the unified hierarchy.
    NoMembership,
}

impl CgroupError {
    pub fn to_string(&self) -> (s: String)
        ensures
            s@ == (match *self {
                CgroupError::NotMounted => "cgroup v2 is not mounted at /sys/fs/cgroup"@,
                CgroupError::NoMembership => "no cgroup v2 membership found in /proc/self/cgroup"@,
            }),
    {
        match self {
            CgroupError::NotMounted => "cgroup v2 is not mounted at /sys/fs/cgroup".to_string(),
            CgroupError::NoMembership =>
                "no cgroup v2 membership found in /proc/self/cgroup".to_string(),
        }
    }
}

/// The file whose presence tells that the unified hierarchy is mounted.
pub fn controllers_file() -> (path: String)
    ensures
        path@ == path::joined(CGROUP_FS_ROOT@, CONTROLLERS_FILE@),
{
    path::join(CGROUP_FS_ROOT, CONTROLLERS_FILE)
}

// ---------------------------------------------------------------------------------------------
// where this process is
// ---------------------------------------------------------------------------------------------

/// What follows `0::` in the first line that begins so.
pub open spec fn membership(lines: Seq<Seq<char>>) -> Option<Seq<char>>
    decreases lines.len(),
{
    if lines.len() == 0 {
        None
    } else {
        match text::after_prefix(lines[0], "0::"@) {
            Some(group) => Some(group),
            None => membership(lines.skip(1)),
        }
    }
}

/// `s` without the slashes it begins with.
pub open spec fn without_slashes(s: Seq<char>) -> Seq<char>
    decreases s.len(),
{
    if s.len() > 0 && s[0] == '/' {
        without_slashes(s.skip(1))
    } else {
        s
    }
}

/// The directory of the group that a process with these memberships is in.
pub open spec fn own_dir(memberships: Seq<char>) -> Option<Seq<char>> {
    match membership(text::lines_of(memberships)) {
        Some(group) => Some(
            path::joined(CGROUP_FS_ROOT@, without_slashes(text::trimmed(group))),
        ),
        None => None,
    }
}

/// `s` without the slashes it begins with.
fn strip_slashes(s: &str) -> (t: String)
    ensures
        t@ == without_slashes(s@),
{
    let chars = text::chars_of(s);
    let mut from: usize = 0;
    assert(chars@.skip(0) =~= chars@);
    while from < chars.len() && chars[from] == '/'
        invariant
            from <= chars@.len(),
            without_slashes(chars@.skip(from as int)) == without_slashes(chars@),
        decreases chars@.len() - from,
    {
        assert(chars@.skip(from as int).skip(1) =~= chars@.skip(from + 1));
        from += 1;
    }
    let t = text::string_between(&chars, from, chars.len());
    assert(t@ =~= chars@.skip(from as int));
    t
}

/// The directory of the group that a process is in, given its memberships as the kernel lists
/// them.
pub fn own_cgroup_dir(memberships: &str) -> (dir: Result<String, CgroupError>)
    ensures
        match dir {
            Ok(dir) => own_dir(memberships@) == Some(dir@),
            Err(e) => own_dir(memberships@) is None && e == CgroupError::NoMembership,
        },
{
    let lines = text::lines(memberships);
    let ghost v = text::lines_of(memberships@);
    let mut i: usize = 0;
    assert(v.skip(0) =~= v);
    while i < lines.len()
        invariant
            i <= lines@.len(),
            v == text::lines_of(memberships@),
            v == text::views(lines@),
            membership(v.skip(i as int)) == membership(v),
        decreases lines@.len() - i,
    {
        assert(v.skip(i as int)[0] == lines@[i as int]@);
        if let Some(group) = text::strip_prefix(lines[i].as_str(), "0::") {
            let group = strip_slashes(text::trim(group).as_str());
            return Ok(path::join(CGROUP_FS_ROOT, group.as_str()));
        }
        assert(v.skip(i as int).skip(1) =~= v.skip(i + 1));
        i += 1;
    }
    Err(CgroupError::NoMembership)
}

proof fn lemma_without_slashes(s: Seq<char>)
    ensures
        !path::is_absolute(without_slashes(s)),
    decreases s.len(),
{
    if s.len() > 0 && s[0] == '/' {
        lemma_without_slashes(s.skip(1));
    }
}

/// Whatever the kernel lists, the group's directory lies below the place where the groups are
/// mounted.
pub proof fn law_own_dir_is_below_the_mount(memberships: Seq<char>)
    ensures
        own_dir(memberships) matches Some(dir) ==> text::has_prefix(dir, CGROUP_FS_ROOT@.push('/')),
{
    reveal_strlit("/sys/fs/cgroup");
    if let Some(group) = membership(text::lines_of(memberships)) {
        let rest = without_slashes(text::trimmed(group));
        lemma_without_slashes(text::trimmed(group));
        let dir = path::joined(CGROUP_FS_ROOT@, rest);
        let mount = CGROUP_FS_ROOT@.push('/');
        assert(dir =~= mount + rest);
        assert(dir.take(mount.len() as int) =~= mount);
    }
}

// ---------------------------------------------------------------------------------------------
// one group
// ---------------------------------------------------------------------------------------------

/// What the kernel says of a group.
#[derive(Debug, Clone, Copy, PartialEq, Eq, Structural)]
pub struct FreezeState {
    pub frozen: bool,
    /// Whether any process lives in the group.
    pub populated: bool,
}

impl Default for FreezeState {
    fn default() -> (state: Self)
        ensures
            !state.frozen,
            !state.populated,
    {
        FreezeState { frozen: false, populated: false }
    }
}

/// Whether the last line on `key`, a line `<key> <value>`, gives it the value 1.
pub open spec fn event_is_set(lines: Seq<Seq<char>>, key: Seq<char>) -> bool
    decreases lines.len(),
{
    if lines.len() == 0 {
        false
    } else {
        match text::split_at_first(lines.last(), ' ') {
            Some((k, value)) => if k == key {
                text::trimmed(value) == "1"@
            } else {
                event_is_set(lines.drop_last(), key)
            },
            None => event_is_set(lines.drop_last(), key),
        }
    }
}

/// The state of a group, given its `cgroup.events`.
pub fn freeze_state(events: &str) -> (state: FreezeState)
    ensures
        state.frozen == event_is_set(text::lines_of(events@), "frozen"@),
        state.populated == event_is_set(text::lines_of(events@), "populated"@),
{
    proof {
        reveal_strlit("frozen");
        reveal_strlit("populated");
        assert("frozen"@[0] != "populated"@[0]);
    }
    let lines = text::lines(events);
    let ghost v = text::lines_of(events@);
    let mut state = FreezeState { frozen: false, populated: false };
    let mut i: usize = 0;
    while i < lines.len()
        invariant
            i <= lines@.len(),
            v == text::lines_of(events@),
            v == text::views(lines@),
            "frozen"@ != "populated"@,
            state.frozen == event_is_set(v.take(i as int), "frozen"@),
            state.populated == event_is_set(v.take(i as int), "populated"@),
        decreases lines@.len() - i,
    {
        assert(v.take(i + 1).drop_last() =~= v.take(i as int));
        assert(v.take(i + 1).last() == lines@[i as int]@);
        if let Some((key, value)) = text::split_once(lines[i].as_str(), ' ') {
            let set = text::same_text(text::trim(value.as_str()).as_str(), "1");
            if text::same_text(key.as_str(), "frozen") {
                state.frozen = set;
            } else if text::same_text(key.as_str(), "populated") {
                state.populated = set;
            }
        }
        i += 1;
    }
    assert(v.take(i as int) =~= v);
    state
}

/// The file by which a group is frozen and thawed, and what is written to it.
pub open spec fn is_freeze_write(dir: Seq<char>, frozen: bool, write: FileWrite) -> bool {
    &&& write.path@ == path::joined(dir, "cgroup.freeze"@)
    &&& write.contents@ == (if frozen {
        "1\n"@
    } else {
        "0\n"@
    })
}

/// What freezes or thaws every process in a group.
pub fn set_frozen(cgroup_dir: &str, frozen: bool) -> (write: FileWrite)
    ensures
        is_freeze_write(cgroup_dir@, frozen, write),
{
    let contents = if frozen {
        "1\n".to_string()
    } else {
        "0\n".to_string()
    };
    FileWrite { path: path::join(cgroup_dir, "cgroup.freeze"), contents }
}

// ---------------------------------------------------------------------------------------------
// the groups of a session
// ---------------------------------------------------------------------------------------------

/// The groups of one session's panes.
#[derive(Debug, Clone)]
pub struct PaneCgroups {
    root: String,
}

/// A pane's group.
#[derive(Debug, Clone, PartialEq, Eq)]
pub struct PaneDir {
    pub id: u32,
    pub dir: String,
}

/// What makes the groups of a session.
#[derive(Debug, Clone)]
pub struct SessionPlan {
    pub tree: PaneCgroups,
    /// The file to read, once the root is made, to see whether it may be used.
    pub events: String,
    /// The directory of the record.
    pub sock_dir: String,
    /// The record by which others find the groups.
    pub record: FileWrite,
}

/// What removes the groups of a session: each pane is thawed and removed, then the root, then the
/// record.
#[derive(Debug, Clone, PartialEq, Eq)]
pub struct Teardown {
    pub panes: Vec<(FileWrite, String)>,
    pub root: String,
    pub record: String,
}

/// The directory of a session's groups, inside the server's own group.
pub open spec fn session_root(own: Seq<char>, session: Seq<char>) -> Seq<char> {
    path::joined(own, SESSION_DIR_PREFIX@ + session)
}

/// The record of a session.
pub open spec fn record_path(sock_dir: Seq<char>, session: Seq<char>) -> Seq<char> {
    path::joined(sock_dir, session + SESSION_RECORD_SUFFIX@)
}

/// The name of a pane's directory.
pub open spec fn pane_name(id: u32) -> Seq<char> {
    PANE_DIR_PREFIX@ + text::dec(id as nat)
}

/// The terminal id in the name of a directory, if it is one of a pane.
pub open spec fn pane_id(name: Seq<char>) -> Option<nat> {
    match text::after_prefix(name, PANE_DIR_PREFIX@) {
        Some(id) => text::number_up_to(id, u32::MAX as nat),
        None => None,
    }
}

/// The id and the directory of a pane.
pub open spec fn pane_key(pane: PaneDir) -> (nat, Seq<char>) {
    (pane.id as nat, pane.dir@)
}

/// The ids and the directories of panes.
pub open spec fn pane_keys(panes: Seq<PaneDir>) -> Seq<(nat, Seq<char>)> {
    panes.map_values(|p: PaneDir| pane_key(p))
}

/// The panes among the entries of a directory, in the order of the entries.
pub open spec fn panes_among(root: Seq<char>, names: Seq<Seq<char>>) -> Seq<(nat, Seq<char>)>
    decreases names.len(),
{
    if names.len() == 0 {
        seq![]
    } else {
        let front = panes_among(root, names.drop_last());
        match pane_id(names.last()) {
            Some(id) => front.push((id, path::joined(root, names.last()))),
            None => front,
        }
    }
}

impl sorting::Ranked for PaneDir {
    /// Panes are ranked by terminal id.
    open spec fn at_most(&self, other: &Self) -> bool {
        self.id <= other.id
    }

    proof fn ranks_are_total(a: &Self, b: &Self) {
    }

    proof fn ranks_are_transitive(a: &Self, b: &Self, c: &Self) {
    }

    fn is_at_most(&self, other: &Self) -> (b: bool) {
        self.id <= other.id
    }
}

/// Whether `panes` are the panes among the entries of a directory, sorted by terminal id.
pub open spec fn lists_panes(root: Seq<char>, names: Seq<Seq<char>>, panes: Seq<PaneDir>) -> bool {
    exists|found: Seq<PaneDir>|
        pane_keys(found) == panes_among(root, names) && #[trigger] sorting::sorted_from(
            found,
            panes,
        )
}

/// The record of a session.
pub fn record_file(sock_dir: &str, session_name: &str) -> (path: String)
    ensures
        path@ == record_path(sock_dir@, session_name@),
{
    let mut name = session_name.to_string();
    name.append(SESSION_RECORD_SUFFIX);
    path::join(sock_dir, name.as_str())
}

impl PaneCgroups {
    /// The directory of the session's groups.
    pub closed spec fn base(&self) -> Seq<char> {
        self.root@
    }

    /// What makes the groups of a session, given whether the unified hierarchy is mounted and what
    /// groups this process is in.
    pub fn create_for_session(
        is_mounted: bool,
        memberships: &str,
        sock_dir: &str,
        session_name: &str,
    ) -> (r: Result<SessionPlan, CgroupError>)
        ensures
            match r {
                Ok(plan) => {
                    &&& is_mounted
                    &&& own_dir(memberships@) matches Some(own)
                    &&& plan.tree.base() == session_root(own, session_name@)
                    &&& plan.events@ == path::joined(plan.tree.base(), "cgroup.events"@)
                    &&& plan.sock_dir@ == sock_dir@
                    &&& plan.record.path@ == record_path(sock_dir@, session_name@)
                    &&& plan.record.contents@ == plan.tree.base()
                },
                Err(e) => if is_mounted {
                    own_dir(memberships@) is None && e == CgroupError::NoMembership
                } else {
                    e == CgroupError::NotMounted
                },
            },
    {
        if !is_mounted {
            return Err(CgroupError::NotMounted);
        }
        match own_cgroup_dir(memberships) {
            Err(e) => Err(e),
            Ok(own) => {
                let mut name = SESSION_DIR_PREFIX.to_string();
                name.append(session_name);
                let root = path::join(own.as_str(), name.as_str());
                let events = path::join(root.as_str(), "cgroup.events");
                let record = FileWrite {
                    path: record_file(sock_dir, session_name),
                    contents: root.clone(),
                };
                Ok(
                    SessionPlan {
                        tree: PaneCgroups { root },
                        events,
                        sock_dir: sock_dir.to_string(),
                        record,
                    },
                )
            },
        }
    }

    /// The groups that a session's record tells of.
    pub fn from_session_record(record: &str) -> (tree: Self)
        ensures
            tree.base() == text::trimmed(record@),
    {
        PaneCgroups { root: text::trim(record) }
    }

    /// The groups of a session, given what became of reading its record, and whether the directory
    /// that it tells of is there; without a record, or without the directory, it has none.
    pub fn recorded<E>(answer: FileAnswer<(PaneCgroups, bool), E>) -> (r: Result<
        Option<PaneCgroups>,
        E,
    >)
        ensures
            r == (match answer {
                FileAnswer::Done((tree, is_there)) => Ok::<Option<PaneCgroups>, E>(
                    if is_there {
                        Some(tree)
                    } else {
                        None
                    },
                ),
                FileAnswer::Missing => Ok::<Option<PaneCgroups>, E>(None),
                FileAnswer::Failed(e) => Err::<Option<PaneCgroups>, E>(e),
            }),
    {
        match path::if_present(answer) {
            Ok(Some((tree, is_there))) => if is_there {
                Ok(Some(tree))
            } else {
                Ok(None)
            },
            Ok(None) => Ok(None),
            Err(e) => Err(e),
        }
    }

    pub fn at(root: String) -> (tree: Self)
        ensures
            tree.base() == root@,
    {
        PaneCgroups { root }
    }

    pub fn root(&self) -> (root: &str)
        ensures
            root@ == self.base(),
    {
        self.root.as_str()
    }

    /// The directory of a pane's group.
    pub fn pane_dir(&self, terminal_id: u32) -> (dir: String)
        ensures
            dir@ == path::joined(self.base(), pane_name(terminal_id)),
    {
        let mut name = PANE_DIR_PREFIX.to_string();
        name.append(text::decimal(terminal_id as u64).as_str());
        path::join(self.root.as_str(), name.as_str())
    }

    /// The directory to make for a pane, and the file in it by which a process joins the group.
    pub fn create_pane(&self, terminal_id: u32) -> (dirs: (String, String))
        ensures
            dirs.0@ == path::joined(self.base(), pane_name(terminal_id)),
            dirs.1@ == path::joined(dirs.0@, "cgroup.procs"@),
    {
        let dir = self.pane_dir(terminal_id);
        let procs = path::join(dir.as_str(), "cgroup.procs");
        (dir, procs)
    }

    /// What removes a pane's group, if it is there: it is thawed first, so that stragglers can exit,
    /// and then removed.
    pub fn remove_pane(&self, terminal_id: u32, is_there: bool) -> (steps: Option<
        (FileWrite, String),
    >)
        ensures
            match steps {
                Some((thaw, dir)) => {
                    &&& is_there
                    &&& dir@ == path::joined(self.base(), pane_name(terminal_id))
                    &&& is_freeze_write(dir@, false, thaw)
                },
                None => !is_there,
            },
    {
        if !is_there {
            return None;
        }
        let dir = self.pane_dir(terminal_id);
        Some((set_frozen(dir.as_str(), false), dir))
    }

    /// The panes among the entries of the session's directory, sorted by terminal id.
    pub fn list_panes(&self, entries: &Vec<String>) -> (panes: Vec<PaneDir>)
        ensures
            lists_panes(self.base(), text::views(entries@), panes@),
    {
        let mut found: Vec<PaneDir> = Vec::new();
        let ghost names = text::views(entries@);
        let mut i: usize = 0;
        assert(pane_keys(found@) =~= Seq::empty());
        while i < entries.len()
            invariant
                i <= entries@.len(),
                names == text::views(entries@),
                pane_keys(found@) == panes_among(self.base(), names.take(i as int)),
            decreases entries@.len() - i,
        {
            assert(names.take(i + 1).drop_last() =~= names.take(i as int));
            assert(names.take(i + 1).last() == entries@[i as int]@);
            let name = entries[i].as_str();
            if let Some(id) = text::strip_prefix(name, PANE_DIR_PREFIX) {
                if let Some(id) = text::parse_u32(id) {
                    let ghost before = pane_keys(found@);
                    let pane = PaneDir { id, dir: path::join(self.root.as_str(), name) };
                    found.push(pane);
                    assert(pane_keys(found@) =~= before.push(pane_key(pane)));
                }
            }
            i += 1;
        }
        assert(names.take(i as int) =~= names);
        sorting::sort(found)
    }

    /// What freezes or thaws every pane of the session.
    pub fn set_all_frozen(&self, entries: &Vec<String>, frozen: bool) -> (writes: Vec<
        (u32, FileWrite),
    >)
        ensures
            exists|panes: Seq<PaneDir>|
                #![trigger lists_panes(self.base(), text::views(entries@), panes)]
                {
                    &&& lists_panes(self.base(), text::views(entries@), panes)
                    &&& writes@.len() == panes.len()
                    &&& forall|i: int|
                        0 <= i < panes.len() ==> (#[trigger] writes@[i]).0 == panes[i].id
                            && is_freeze_write(panes[i].dir@, frozen, writes@[i].1)
                },
    {
        let panes = self.list_panes(entries);
        let mut writes: Vec<(u32, FileWrite)> = Vec::new();
        let mut i: usize = 0;
        while i < panes.len()
            invariant
                i <= panes@.len(),
                writes@.len() == i,
                forall|j: int|
                    0 <= j < i ==> (#[trigger] writes@[j]).0 == panes@[j].id && is_freeze_write(
                        panes@[j].dir@,
                        frozen,
                        writes@[j].1,
                    ),
            decreases panes@.len() - i,
        {
            writes.push((panes[i].id, set_frozen(panes[i].dir.as_str(), frozen)));
            i += 1;
        }
        writes
    }

    /// What removes the session's groups, given the entries of its directory, if it could be read.
    pub fn remove_all(&self, entries: &Option<Vec<String>>, sock_dir: &str, session_name: &str) -> (
    teardown: Teardown)
        ensures
            teardown.root@ == self.base(),
            teardown.record@ == record_path(sock_dir@, session_name@),
            match *entries {
                None => teardown.panes@.len() == 0,
                Some(entries) => exists|panes: Seq<PaneDir>|
                    #![trigger lists_panes(self.base(), text::views(entries@), panes)]
                    {
                        &&& lists_panes(self.base(), text::views(entries@), panes)
                        &&& teardown.panes@.len() == panes.len()
                        &&& forall|i: int|
                            0 <= i < panes.len() ==> (#[trigger] teardown.panes@[i]).1@
                                == panes[i].dir@ && is_freeze_write(
                                panes[i].dir@,
                                false,
                                teardown.panes@[i].0,
                            )
                    },
            },
    {
        let mut steps: Vec<(FileWrite, String)> = Vec::new();
        if let Some(entries) = entries {
            let panes = self.list_panes(entries);
            let mut i: usize = 0;
            while i < panes.len()
                invariant
                    i <= panes@.len(),
                    steps@.len() == i,
                    forall|j: int|
                        0 <= j < i ==> (#[trigger] steps@[j]).1@ == panes@[j].dir@
                            && is_freeze_write(panes@[j].dir@, false, steps@[j].0),
                decreases panes@.len() - i,
            {
                let dir = panes[i].dir.as_str();
                steps.push((set_frozen(dir, false), dir.to_string()));
                i += 1;
            }
            assert(lists_panes(self.base(), text::views(entries@), panes@));
        }
        Teardown {
            panes: steps,
            root: self.root.clone(),
            record: record_file(sock_dir, session_name),
        }
    }
}

/// The record of a session leads back to its groups, unless the name of the session ends in white
/// space.
pub proof fn law_record_leads_back(memberships: Seq<char>, session: Seq<char>)
    requires
        session.len() > 0 ==> !text::is_white(session.last()),
    ensures
        own_dir(memberships) matches Some(own) ==> text::trimmed(session_root(own, session))
            == session_root(own, session),
{
    if let Some(own) = own_dir(memberships) {
        law_own_dir_is_below_the_mount(memberships);
        reveal_strlit("/sys/fs/cgroup");
        reveal_strlit("gezellij-");
        let mount = CGROUP_FS_ROOT@.push('/');
        assert(own.take(mount.len() as int)[0] == '/');
        let root = session_root(own, session);
        assert(root[0] == '/');
        assert(root.last() == if session.len() > 0 {
            session.last()
        } else {
            '-'
        });
    }
}

proof fn lemma_pane_name_is_plain(id: u32)
    ensures
        path::is_plain_name(pane_name(id)),
        pane_id(pane_name(id)) == Some(id as nat),
{
    let n = id as nat;
    let name = pane_name(id);
    reveal_strlit("pane-");
    text::law_decimal_reads_back(n);
    text::lemma_dec_digits(n);
    let k = PANE_DIR_PREFIX@.len() as int;
    assert(name.take(k) =~= PANE_DIR_PREFIX@);
    assert(name.skip(k) =~= text::dec(n));
    assert forall|i: int| 0 <= i < name.len() implies name[i] != '/' by {
        if i >= k {
            assert(name[i] == text::dec(n)[i - k]);
            assert(text::is_digit(text::dec(n)[i - k]));
        }
    }
}

/// A listing finds a pane's group again, under the id that it was made for and at the directory
/// that it was made at, whatever else stands beside it.
pub proof fn law_pane_is_found_again(root: Seq<char>, names: Seq<Seq<char>>, id: u32)
    requires
        names.contains(pane_name(id)),
    ensures
        panes_among(root, names).contains((id as nat, path::joined(root, pane_name(id)))),
    decreases names.len(),
{
    let front = panes_among(root, names.drop_last());
    let pane = (id as nat, path::joined(root, pane_name(id)));
    let all = panes_among(root, names);
    if names.last() == pane_name(id) {
        lemma_pane_name_is_plain(id);
        assert(all[all.len() - 1] == pane);
    } else {
        let k = choose|k: int| 0 <= k < names.len() && names[k] == pane_name(id);
        assert(names.drop_last()[k] == pane_name(id));
        law_pane_is_found_again(root, names.drop_last(), id);
        let j = choose|j: int| 0 <= j < front.len() && front[j] == pane;
        assert(all[j] == pane);
    }
}

/// Two panes have two groups.
pub proof fn law_panes_have_their_own_groups(root: Seq<char>, id: u32, other: u32)
    requires
        id != other,
    ensures
        path::joined(root, pane_name(id)) != path::joined(root, pane_name(other)),
{
    lemma_pane_name_is_plain(id);
    lemma_pane_name_is_plain(other);
    if path::joined(root, pane_name(id)) == path::joined(root, pane_name(other)) {
        path::lemma_joined_is_injective(root, pane_name(id), pane_name(other));
    }
}

// ---------------------------------------------------------------------------------------------
// how much of a session is frozen
// ---------------------------------------------------------------------------------------------

/// How many panes a session has, and how many of them are frozen.
#[derive(Debug, Clone, Copy, PartialEq, Eq, Structural)]
pub struct FreezeSummary {
    pub total: usize,
    pub frozen: usize,
}

impl Default for FreezeSummary {
    fn default() -> (summary: Self)
        ensures
            summary.total == 0,
            summary.frozen == 0,
    {
        FreezeSummary { total: 0, frozen: 0 }
    }
}

/// How many of the panes could be read.
pub open spec fn readable_panes(states: Seq<Option<FreezeState>>) -> nat
    decreases states.len(),
{
    if states.len() == 0 {
        0
    } else {
        readable_panes(states.drop_last()) + if states.last() is Some {
            1nat
        } else {
            0nat
        }
    }
}

/// How many of the panes could be read and are frozen.
pub open spec fn frozen_panes(states: Seq<Option<FreezeState>>) -> nat
    decreases states.len(),
{
    if states.len() == 0 {
        0
    } else {
        frozen_panes(states.drop_last()) + match states.last() {
            Some(state) => if state.frozen {
                1nat
            } else {
                0nat
            },
            None => 0nat,
        }
    }
}

impl FreezeSummary {
    /// Whether the session has panes and every one is frozen.
    pub fn all_frozen(&self) -> (b: bool)
        ensures
            b == (self.total > 0 && self.frozen == self.total),
    {
        self.total > 0 && self.frozen == self.total
    }

    /// Whether some panes are frozen and some are not.
    pub fn partly_frozen(&self) -> (b: bool)
        ensures
            b == (self.frozen > 0 && self.frozen < self.total),
    {
        self.frozen > 0 && self.frozen < self.total
    }
}

impl PaneCgroups {
    /// How many panes there are and how many are frozen, given the state of each pane that the
    /// listing found. Panes whose state could not be read (`None`) are left out.
    pub fn freeze_summary(states: &Vec<Option<FreezeState>>) -> (summary: FreezeSummary)
        ensures
            summary.total == readable_panes(states@),
            summary.frozen == frozen_panes(states@),
            summary.frozen <= summary.total <= states@.len(),
    {
        let mut summary = FreezeSummary { total: 0, frozen: 0 };
        let mut i: usize = 0;
        while i < states.len()
            invariant
                i <= states@.len(),
                summary.total == readable_panes(states@.take(i as int)),
                summary.frozen == frozen_panes(states@.take(i as int)),
                summary.frozen <= summary.total <= i,
            decreases states@.len() - i,
        {
            assert(states@.take(i + 1).drop_last() =~= states@.take(i as int));
            if let Some(state) = &states[i] {
                summary.total = summary.total + 1;
                if state.frozen {
                    summary.frozen = summary.frozen + 1;
                }
            }
            i += 1;
        }
        assert(states@.take(i as int) =~= states@);
        summary
    }

    /// Whether every pane is frozen; `None` where there is no pane at all.
    pub fn is_frozen(states: &Vec<Option<FreezeState>>) -> (r: Option<bool>)
        ensures
            r == (if readable_panes(states@) == 0 {
                None
            } else {
                Some(frozen_panes(states@) == readable_panes(states@))
            }),
    {
        let summary = PaneCgroups::freeze_summary(states);
        if summary.total == 0 {
            None
        } else {
            Some(summary.all_frozen())
        }
    }
}

/// The counts agree exactly when every pane that could be read is frozen.
pub proof fn law_all_frozen_means_every_pane(states: Seq<Option<FreezeState>>)
    ensures
        frozen_panes(states) <= readable_panes(states),
        frozen_panes(states) == readable_panes(states) <==> (forall|i: int|
            0 <= i < states.len() ==> (#[trigger] states[i] matches Some(state) ==> state.frozen)),
    decreases states.len(),
{
    if states.len() > 0 {
        let front = states.drop_last();
        law_all_frozen_means_every_pane(front);
        assert(forall|i: int| 0 <= i < front.len() ==> front[i] == states[i]);
        if frozen_panes(states) == readable_panes(states) {
            assert forall|i: int| 0 <= i < states.len() implies (#[trigger] states[i] matches Some(
                state,
            ) ==> state.frozen) by {
                if i < front.len() {
                    assert(front[i] == states[i]);
                }
            }
        }
        if forall|i: int|
            0 <= i < states.len() ==> (#[trigger] states[i] matches Some(state) ==> state.frozen) {
            assert forall|i: int| 0 <= i < front.len() implies (#[trigger] front[i] matches Some(
                state,
            ) ==> state.frozen) by {
                assert(front[i] == states[i]);
            }
            assert(states[states.len() - 1] == states.last());
        }
    }
}

/// How many writes went through.
pub open spec fn successes(results: Seq<bool>) -> nat
    decreases results.len(),
{
    if results.len() == 0 {
        0
    } else {
        successes(results.drop_last()) + if results.last() {
            1nat
        } else {
            0nat
        }
    }
}

/// How many panes of a session could be frozen or thawed and how many could not, given whether
/// each write went through; `None` where the session has no groups.
pub fn set_session_frozen(results: &Option<Vec<bool>>) -> (counts: Option<(usize, usize)>)
    ensures
        match *results {
            None => counts is None,
            Some(results) => counts matches Some((ok, failed)) && ok == successes(results@) && ok
                + failed == results@.len(),
        },
{
    match results {
        None => None,
        Some(results) => {
            let mut ok: usize = 0;
            let mut i: usize = 0;
            while i < results.len()
                invariant
                    i <= results@.len(),
                    ok == successes(results@.take(i as int)),
                    ok <= i,
                decreases results@.len() - i,
            {
                assert(results@.take(i + 1).drop_last() =~= results@.take(i as int));
                if results[i] {
                    ok += 1;
                }
                i += 1;
            }
            assert(results@.take(i as int) =~= results@);
            Some((ok, results.len() - ok))
        },
    }
}

/// The summary of a session, given the states of its panes; `None` where the session has no
/// groups.
pub fn session_freeze_summary(states: &Option<Vec<Option<FreezeState>>>) -> (summary: Option<
    FreezeSummary,
>)
    ensures
        match *states {
            None => summary is None,
            Some(states) => summary matches Some(summary) && summary.total == readable_panes(
                states@,
            ) && summary.frozen == frozen_panes(states@),
        },
{
    match states {
        Some(states) => Some(PaneCgroups::freeze_summary(states)),
        None => None,
    }
}

/// Whether every pane of a session is frozen, given the states of its panes; `None` where the
/// session has no groups or no pane.
pub fn session_is_frozen(states: &Option<Vec<Option<FreezeState>>>) -> (r: Option<bool>)
    ensures
        r == (match *states {
            None => None,
            Some(states) => if readable_panes(states@) == 0 {
                None
            } else {
                Some(frozen_panes(states@) == readable_panes(states@))
            },
        }),
{
    match states {
        Some(states) => PaneCgroups::is_frozen(states),
        None => None,
    }
}

// ---------------------------------------------------------------------------------------------
// leftovers
// ---------------------------------------------------------------------------------------------

/// Whether a directory beside a session's root is the root of some session.
pub fn is_session_root(name: &str) -> (b: bool)
    ensures
        b == text::has_prefix(name@, SESSION_DIR_PREFIX@),
{
    text::starts_with(name, SESSION_DIR_PREFIX)
}

/// Whether a directory below a session's root may be a pane's.
pub fn is_pane_entry(name: &str) -> (b: bool)
    ensures
        b == text::has_prefix(name@, PANE_DIR_PREFIX@),
{
    text::starts_with(name, PANE_DIR_PREFIX)
}

/// A directory beside a session's root, and the names in it, if it could be read.
#[derive(Debug, Clone, PartialEq, Eq)]
pub struct Leftover {
    pub name: String,
    pub entries: Option<Vec<String>>,
}

/// The directories to remove from a session's root: those of panes.
pub open spec fn pane_entries(root: Seq<char>, names: Seq<Seq<char>>) -> Seq<Seq<char>>
    decreases names.len(),
{
    if names.len() == 0 {
        seq![]
    } else {
        let front = pane_entries(root, names.drop_last());
        if text::has_prefix(names.last(), PANE_DIR_PREFIX@) {
            front.push(path::joined(root, names.last()))
        } else {
            front
        }
    }
}

/// The directories to remove, in order, to sweep the leftovers of dead sessions: of every root the
/// panes first, then the root. Removing refuses a group in which something lives.
pub open spec fn swept(parent: Seq<char>, siblings: Seq<Leftover>) -> Seq<Seq<char>>
    decreases siblings.len(),
{
    if siblings.len() == 0 {
        seq![]
    } else {
        let front = swept(parent, siblings.drop_last());
        let name = siblings.last().name@;
        let root = path::joined(parent, name);
        if text::has_prefix(name, SESSION_DIR_PREFIX@) {
            front + match siblings.last().entries {
                Some(entries) => pane_entries(root, text::views(entries@)),
                None => seq![],
            } + seq![root]
        } else {
            front
        }
    }
}

/// The directories to remove, in order, to sweep the leftovers of dead sessions.
pub fn sweep_stale_roots(parent: &str, siblings: &Vec<Leftover>) -> (dirs: Vec<String>)
    ensures
        text::views(dirs@) == swept(parent@, siblings@),
{
    let mut dirs: Vec<String> = Vec::new();
    let mut i: usize = 0;
    assert(text::views(dirs@) =~= Seq::empty());
    while i < siblings.len()
        invariant
            i <= siblings@.len(),
            text::views(dirs@) == swept(parent@, siblings@.take(i as int)),
        decreases siblings@.len() - i,
    {
        assert(siblings@.take(i + 1).drop_last() =~= siblings@.take(i as int));
        let ghost before = text::views(dirs@);
        if is_session_root(siblings[i].name.as_str()) {
            let root = path::join(parent, siblings[i].name.as_str());
            if let Some(entries) = &siblings[i].entries {
                let ghost names = text::views(entries@);
                let mut j: usize = 0;
                assert(before + Seq::<Seq<char>>::empty() =~= before);
                while j < entries.len()
                    invariant
                        j <= entries@.len(),
                        names == text::views(entries@),
                        text::views(dirs@) == before + pane_entries(root@, names.take(j as int)),
                    decreases entries@.len() - j,
                {
                    assert(names.take(j + 1).drop_last() =~= names.take(j as int));
                    assert(names.take(j + 1).last() == entries@[j as int]@);
                    let ghost so_far = text::views(dirs@);
                    if is_pane_entry(entries[j].as_str()) {
                        let dir = path::join(root.as_str(), entries[j].as_str());
                        dirs.push(dir);
                        assert(text::views(dirs@) =~= so_far.push(dir@));
                        assert(text::views(dirs@) =~= before + pane_entries(
                            root@,
                            names.take(j + 1),
                        ));
                    }
                    j += 1;
                }
                assert(names.take(j as int) =~= names);
            } else {
                assert(before + Seq::<Seq<char>>::empty() =~= before);
            }
            let ghost so_far = text::views(dirs@);
            dirs.push(root);
            assert(text::views(dirs@) =~= so_far + seq![root@]);
        }
        i += 1;
    }
    assert(siblings@.take(i as int) =~= siblings@);
    dirs
}

// ---------------------------------------------------------------------------------------------
// what is read from the kernel, and what is counted
// ---------------------------------------------------------------------------------------------

/// The group of a process is what follows `0::` in the first line that begins so, whatever the
/// lines around it say; without such a line there is none.
pub proof fn law_first_membership_counts(
    before: Seq<Seq<char>>,
    group: Seq<char>,
    after: Seq<Seq<char>>,
)
    requires
        forall|i: int| 0 <= i < before.len() ==> !text::has_prefix(#[trigger] before[i], "0::"@),
    ensures
        membership(before + seq!["0::"@ + group] + after) == Some(group),
        membership(before) is None,
    decreases before.len(),
{
    let lines = before + seq!["0::"@ + group] + after;
    text::law_beginnings_and_ends("0::"@ + group, "0::"@, group);
    if before.len() == 0 {
        assert(lines[0] == "0::"@ + group);
    } else {
        assert(!text::has_prefix(before[0], "0::"@));
        assert(lines[0] == before[0]);
        let rest = before.skip(1);
        assert forall|i: int| 0 <= i < rest.len() implies !text::has_prefix(
            #[trigger] rest[i],
            "0::"@,
        ) by {
            assert(rest[i] == before[i + 1]);
        }
        law_first_membership_counts(rest, group, after);
        assert(lines.skip(1) =~= rest + seq!["0::"@ + group] + after);
    }
}

/// The slashes that a text begins with are left out, all of them, and nothing else is.
pub proof fn law_leading_slashes_are_left_out(s: Seq<char>)
    ensures
        without_slashes(seq!['/'] + s) == without_slashes(s),
        s.len() == 0 || s[0] != '/' ==> without_slashes(s) == s,
{
    assert((seq!['/'] + s).skip(1) =~= s);
}

/// A process in the group `/<group>` has its directory at that place below the mount, whatever
/// white space stands after the group on its line.
pub proof fn law_own_dir_follows_the_group(group: Seq<char>, right: Seq<char>)
    requires
        group.len() > 0 && group[0] != '/' && !text::is_white(group.last()),
        !group.contains('\n'),
        forall|i: int| 0 <= i < right.len() ==> text::is_white(#[trigger] right[i]),
        !right.contains('\n'),
        right.len() == 0 || right.last() != '\r',
    ensures
        own_dir(("0::/"@ + group + right).push('\n')) == Some("/sys/fs/cgroup/"@ + group),
{
    reveal_strlit("0::/");
    reveal_strlit("0::");
    reveal_strlit("/sys/fs/cgroup");
    reveal_strlit("/sys/fs/cgroup/");
    let line = "0::/"@ + group + right;
    let rooted = seq!['/'] + group;
    let shown = rooted + right;
    let none = Seq::<char>::empty();
    assert(line =~= "0::"@ + shown);
    assert forall|i: int| 0 <= i < line.len() implies line[i] != '\n' by {
        if i >= 4 + group.len() {
            assert(line[i] == right[i - 4 - group.len()]);
            assert(right.contains(line[i]));
        } else if i >= 4 {
            assert(line[i] == group[i - 4]);
            assert(group.contains(group[i - 4]));
        }
    }
    text::law_lines_end_at_line_feeds(line, none);
    assert(line.push('\n') + none =~= line.push('\n'));
    assert(line.last() != '\r') by {
        assert(line.last() == if right.len() > 0 {
            right.last()
        } else {
            group.last()
        });
    }
    let lines = text::lines_of(line.push('\n'));
    assert(lines =~= seq![line]);
    let nothing = Seq::<Seq<char>>::empty();
    law_first_membership_counts(nothing, shown, nothing);
    assert(nothing + seq!["0::"@ + shown] + nothing =~= seq![line]);
    text::law_trimming_takes_white_space_only(none, rooted, right);
    assert(none + rooted + right =~= shown);
    law_leading_slashes_are_left_out(group);
    assert(CGROUP_FS_ROOT@.push('/') + group =~= "/sys/fs/cgroup/"@ + group);
}

/// Of the lines on a key the last one decides, and it sets the key exactly where its value is 1;
/// lines on other keys, and lines without a value, do not matter.
pub proof fn law_last_line_on_a_key_decides(
    lines: Seq<Seq<char>>,
    key: Seq<char>,
    other: Seq<char>,
    value: Seq<char>,
)
    requires
        !key.contains(' '),
        !other.contains(' '),
    ensures
        event_is_set(lines.push(key.push(' ') + value), key) <==> text::trimmed(value) == "1"@,
        key != other ==> event_is_set(lines.push(other.push(' ') + value), key) == event_is_set(
            lines,
            key,
        ),
        event_is_set(lines.push(other), key) == event_is_set(lines, key),
        !event_is_set(seq![], key),
{
    let own = lines.push(key.push(' ') + value);
    let foreign = lines.push(other.push(' ') + value);
    let bare = lines.push(other);
    text::law_cut_at_the_first(other, key, ' ', value);
    text::law_cut_at_the_first(other, other, ' ', value);
    assert(own.drop_last() =~= lines && own.last() == key.push(' ') + value);
    assert(foreign.drop_last() =~= lines && foreign.last() == other.push(' ') + value);
    assert(bare.drop_last() =~= lines && bare.last() == other);
}

/// Freezing and thawing write to one file of the group, a 1 to freeze it and a 0 to thaw it.
pub proof fn law_one_freezes_and_zero_thaws(
    dir: &str,
    freeze: FileWrite,
    thaw: FileWrite,
)
    requires
        call_ensures(set_frozen, (dir, true), freeze),
        call_ensures(set_frozen, (dir, false), thaw),
    ensures
        freeze.path@ == thaw.path@,
        freeze.path@ == path::joined(dir@, "cgroup.freeze"@),
        freeze.contents@ == seq!['1', '\n'],
        thaw.contents@ == seq!['0', '\n'],
{
    reveal_strlit("1\n");
    reveal_strlit("0\n");
}

/// A directory is a pane's exactly where it is named `pane-` and a number that fits a terminal id,
/// and then it is that of the terminal with that id.
pub proof fn law_pane_directories_carry_the_id(id: u32, rest: Seq<char>, name: Seq<char>)
    ensures
        pane_id("pane-"@ + text::dec(id as nat)) == Some(id as nat),
        pane_id("pane-"@ + rest) == text::number_up_to(rest, 0xffff_ffff),
        !text::has_prefix(name, "pane-"@) ==> pane_id(name) is None,
        pane_name(id) == "pane-"@ + text::dec(id as nat),
{
    lemma_pane_name_is_plain(id);
    text::law_beginnings_and_ends("pane-"@ + rest, "pane-"@, rest);
}

/// The panes of a session are found entry by entry, in order, each at its place below the root.
pub proof fn law_panes_are_found_one_by_one(
    root: Seq<char>,
    a: Seq<Seq<char>>,
    b: Seq<Seq<char>>,
    one: Seq<char>,
)
    ensures
        panes_among(root, a + b) == panes_among(root, a) + panes_among(root, b),
        panes_among(root, seq![one]) == (match pane_id(one) {
            Some(id) => seq![(id, path::joined(root, one))],
            None => seq![],
        }),
        pane_entries(root, a + b) == pane_entries(root, a) + pane_entries(root, b),
        pane_entries(root, seq![one]) == (if text::has_prefix(one, "pane-"@) {
            seq![path::joined(root, one)]
        } else {
            seq![]
        }),
    decreases b.len(),
{
    reveal_with_fuel(panes_among, 2);
    reveal_with_fuel(pane_entries, 2);
    assert(seq![one].drop_last() =~= Seq::<Seq<char>>::empty());
    if b.len() == 0 {
        assert(a + b =~= a);
    } else {
        law_panes_are_found_one_by_one(root, a, b.drop_last(), one);
        assert((a + b).drop_last() =~= a + b.drop_last());
    }
}

/// A listing of panes goes up by terminal id, holds as many panes as there are entries of panes,
/// and every pane in it is one of them.
pub proof fn law_panes_are_listed_by_id(
    root: Seq<char>,
    names: Seq<Seq<char>>,
    panes: Seq<PaneDir>,
    i: int,
    j: int,
)
    requires
        lists_panes(root, names, panes),
    ensures
        0 <= i < j < panes.len() ==> panes[i].id <= panes[j].id,
        panes.len() == panes_among(root, names).len(),
        0 <= i < panes.len() ==> panes_among(root, names).contains(
            (panes[i].id as nat, panes[i].dir@),
        ),
{
    let found = choose|found: Seq<PaneDir>|
        pane_keys(found) == panes_among(root, names) && #[trigger] sorting::sorted_from(
            found,
            panes,
        );
    if 0 <= i < panes.len() {
        sorting::law_sorting_only_moves_values(found, panes, i, j, panes[i]);
        sorting::law_sorting_keeps_values(found, panes, panes[i]);
        assert(panes.contains(panes[i]));
        let k = choose|k: int| 0 <= k < found.len() && found[k] == panes[i];
        assert(pane_keys(found)[k] == (panes[i].id as nat, panes[i].dir@));
    } else {
        sorting::law_sorting_only_moves_values(found, panes, i, j, found[0]);
    }
    assert(pane_keys(found).len() == found.len());
}

/// Panes are counted one by one: every one whose state could be read counts, and it counts as
/// frozen exactly where it is; a write counts exactly where it went through.
pub proof fn law_panes_are_counted_one_by_one(
    a: Seq<Option<FreezeState>>,
    b: Seq<Option<FreezeState>>,
    one: FreezeState,
    c: Seq<bool>,
    d: Seq<bool>,
)
    ensures
        readable_panes(a + b) == readable_panes(a) + readable_panes(b),
        frozen_panes(a + b) == frozen_panes(a) + frozen_panes(b),
        readable_panes(seq![Some(one)]) == 1 && readable_panes(seq![None]) == 0,
        frozen_panes(seq![Some(one)]) == (if one.frozen {
            1nat
        } else {
            0nat
        }) && frozen_panes(seq![None]) == 0,
        readable_panes(seq![]) == 0 && frozen_panes(seq![]) == 0 && successes(seq![]) == 0,
        successes(c + d) == successes(c) + successes(d),
        successes(seq![true]) == 1 && successes(seq![false]) == 0,
{
    lemma_counts_add_up(a, b);
    lemma_successes_add_up(c, d);
    reveal_with_fuel(readable_panes, 2);
    reveal_with_fuel(frozen_panes, 2);
    reveal_with_fuel(successes, 2);
    assert(seq![Some(one)].drop_last() =~= Seq::<Option<FreezeState>>::empty());
    assert(seq![None::<FreezeState>].drop_last() =~= Seq::<Option<FreezeState>>::empty());
    assert(seq![true].drop_last() =~= Seq::<bool>::empty());
    assert(seq![false].drop_last() =~= Seq::<bool>::empty());
}

proof fn lemma_counts_add_up(a: Seq<Option<FreezeState>>, b: Seq<Option<FreezeState>>)
    ensures
        readable_panes(a + b) == readable_panes(a) + readable_panes(b),
        frozen_panes(a + b) == frozen_panes(a) + frozen_panes(b),
    decreases b.len(),
{
    if b.len() == 0 {
        assert(a + b =~= a);
    } else {
        lemma_counts_add_up(a, b.drop_last());
        assert((a + b).drop_last() =~= a + b.drop_last());
    }
}

proof fn lemma_successes_add_up(c: Seq<bool>, d: Seq<bool>)
    ensures
        successes(c + d) == successes(c) + successes(d),
    decreases d.len(),
{
    if d.len() == 0 {
        assert(c + d =~= c);
    } else {
        lemma_successes_add_up(c, d.drop_last());
        assert((c + d).drop_last() =~= c + d.drop_last());
    }
}

/// A session is frozen exactly where it has panes and every one of them is frozen; where none could
/// be read, or where it has no groups, that is not known.
pub proof fn law_session_is_frozen_as_a_whole(
    states: Option<Vec<Option<FreezeState>>>,
    r: Option<bool>,
    summary: Option<FreezeSummary>,
    i: int,
)
    requires
        call_ensures(session_is_frozen, (&states,), r),
        call_ensures(session_freeze_summary, (&states,), summary),
    ensures
        states is None ==> r is None && summary is None,
        r == Some(true) ==> (states matches Some(states) && (0 <= i < states@.len()
            && states@[i] is Some ==> states@[i]->0.frozen)),
        states matches Some(states) ==> (0 <= i < states@.len() && (states@[i] matches Some(s)
            && !s.frozen) ==> r == Some(false)),
        summary matches Some(s) ==> s.frozen <= s.total && (r is None <==> s.total == 0) && (r
            == Some(true) <==> s.total > 0 && s.frozen == s.total),
{
    if let Some(list) = states {
        law_all_frozen_means_every_pane(list@);
        if 0 <= i < list@.len() && list@[i] is Some {
            lemma_readable_counts(list@, i);
            assert(list@[i] is Some);
        }
    }
}

proof fn lemma_readable_counts(states: Seq<Option<FreezeState>>, i: int)
    requires
        0 <= i < states.len(),
        states[i] is Some,
    ensures
        readable_panes(states) > 0,
    decreases states.len(),
{
    if i < states.len() - 1 {
        assert(states.drop_last()[i] == states[i]);
        lemma_readable_counts(states.drop_last(), i);
    }
}

/// Leftovers are swept root by root, in order: of a directory that is named as the root of a
/// session, the directories of panes go first and the root goes last; any other directory stays.
pub proof fn law_roots_are_swept_one_by_one(
    parent: Seq<char>,
    a: Seq<Leftover>,
    b: Seq<Leftover>,
    one: Leftover,
)
    ensures
        swept(parent, a + b) == swept(parent, a) + swept(parent, b),
        !text::has_prefix(one.name@, "gezellij-"@) ==> swept(parent, seq![one]) == Seq::<
            Seq<char>,
        >::empty(),
        text::has_prefix(one.name@, "gezellij-"@) ==> swept(parent, seq![one]) == (
        match one.entries {
            Some(entries) => pane_entries(
                path::joined(parent, one.name@),
                text::views(entries@),
            ),
            None => Seq::<Seq<char>>::empty(),
        }).push(path::joined(parent, one.name@)),
    decreases b.len(),
{
    reveal_with_fuel(swept, 2);
    assert(seq![one].drop_last() =~= Seq::<Leftover>::empty());
    let entries = match one.entries {
        Some(entries) => pane_entries(path::joined(parent, one.name@), text::views(entries@)),
        None => Seq::<Seq<char>>::empty(),
    };
    if text::has_prefix(one.name@, SESSION_DIR_PREFIX@) {
        assert(swept(parent, seq![one]) =~= entries.push(path::joined(parent, one.name@)));
    }
    if b.len() == 0 {
        assert(a + b =~= a);
    } else {
        law_roots_are_swept_one_by_one(parent, a, b.drop_last(), one);
        assert((a + b).drop_last() =~= a + b.drop_last());
        assert(swept(parent, a + b) =~= swept(parent, a) + swept(parent, b));
    }
}

/// A record that is not there, or that tells of a directory that is not there, tells of no groups;
/// that it could not be read is an error. The groups of a session are recorded where they are made.
pub proof fn law_record_tells_of_the_groups<E>(
    answer: FileAnswer<(PaneCgroups, bool), E>,
    r: Result<Option<PaneCgroups>, E>,
    is_mounted: bool,
    memberships: &str,
    sock_dir: &str,
    session_name: &str,
    made: Result<SessionPlan, CgroupError>,
)
    requires
        call_ensures(PaneCgroups::recorded::<E>, (answer,), r),
        call_ensures(
            PaneCgroups::create_for_session,
            (is_mounted, memberships, sock_dir, session_name),
            made,
        ),
    ensures
        r is Err <==> answer is Failed,
        r matches Ok(Some(tree)) ==> (answer matches FileAnswer::Done((t, true)) && t == tree),
        (answer matches FileAnswer::Done((_, true))) ==> (r matches Ok(Some(_))),
        made is Ok <==> is_mounted && own_dir(memberships@) is Some,
        made matches Err(CgroupError::NotMounted) <==> !is_mounted,
        made matches Ok(plan) ==> plan.record.contents@ == plan.tree.base() && plan.tree.base()
            == path::joined(own_dir(memberships@)->0, "gezellij-"@ + session_name@)
            && plan.record.path@ == path::joined(sock_dir@, session_name@ + ".cgroup-root"@),
{
}

/// A group is frozen, or has something living in it, exactly where the last line on that in its
/// events says 1.
pub proof fn law_events_tell_the_state(
    before: Seq<char>,
    frozen: bool,
    populated: bool,
    events: &str,
    state: FreezeState,
)
    requires
        call_ensures(freeze_state, (events,), state),
        before.len() == 0 || before.last() == '\n',
        events@ == before + "populated "@.push(if populated {
            '1'
        } else {
            '0'
        }).push('\n') + "frozen "@.push(if frozen {
            '1'
        } else {
            '0'
        }).push('\n'),
    ensures
        state.frozen == frozen,
        state.populated == populated,
{
    let (p, f) = (
        if populated {
            '1'
        } else {
            '0'
        },
        if frozen {
            '1'
        } else {
            '0'
        },
    );
    reveal_strlit("populated ");
    reveal_strlit("frozen ");
    reveal_strlit("populated");
    reveal_strlit("frozen");
    reveal_strlit("1");
    let none = Seq::<char>::empty();
    let first = "populated "@.push(p);
    let second = "frozen "@.push(f);
    assert(!first.contains('\n') && !second.contains('\n'));
    text::law_a_line_at_the_end_is_the_last(before, first);
    text::law_a_line_at_the_end_is_the_last(before + first.push('\n'), second);
    let lines = text::lines_of(before);
    let more = lines.push(first);
    assert(text::lines_of(events@) == more.push(second));
    assert("populated"@.push(' ') + seq![p] =~= first);
    assert("frozen"@.push(' ') + seq![f] =~= second);
    assert(!"populated"@.contains(' ') && !"frozen"@.contains(' '));
    assert("populated"@[0] != "frozen"@[0]);
    law_last_line_on_a_key_decides(lines, "populated"@, "frozen"@, seq![p]);
    law_last_line_on_a_key_decides(more, "frozen"@, "populated"@, seq![f]);
    law_last_line_on_a_key_decides(more, "populated"@, "frozen"@, seq![f]);
    text::law_trimming_takes_white_space_only(none, seq![p], none);
    text::law_trimming_takes_white_space_only(none, seq![f], none);
    assert(none + seq![p] + none =~= seq![p]);
    assert(none + seq![f] + none =~= seq![f]);
    assert("1"@ =~= seq!['1']);
    assert(seq![p][0] == p && seq![f][0] == f && "1"@[0] == '1');
}

/// Every pane of a session is frozen or thawed, each by one write to its own group; and when a
/// session is removed, every pane of it is thawed and removed, before the root and the record.
pub proof fn law_every_pane_is_written_to(
    tree: PaneCgroups,
    entries: Vec<String>,
    frozen: bool,
    writes: Vec<(u32, FileWrite)>,
    sock_dir: &str,
    session: &str,
    teardown: Teardown,
    i: int,
)
    requires
        call_ensures(PaneCgroups::set_all_frozen, (&tree, &entries, frozen), writes),
        call_ensures(PaneCgroups::remove_all, (&tree, &Some(entries), sock_dir, session), teardown),
    ensures
        writes@.len() == panes_among(tree.base(), text::views(entries@)).len(),
        teardown.panes@.len() == panes_among(tree.base(), text::views(entries@)).len(),
        0 <= i < writes@.len() ==> exists|dir: Seq<char>|
            #[trigger] panes_among(tree.base(), text::views(entries@)).contains(
                (writes@[i].0 as nat, dir),
            ) && writes@[i].1.path@ == path::joined(dir, "cgroup.freeze"@)
                && writes@[i].1.contents@ == (if frozen {
                "1\n"@
            } else {
                "0\n"@
            }),
        0 <= i < teardown.panes@.len() ==> teardown.panes@[i].0.path@ == path::joined(
            teardown.panes@[i].1@,
            "cgroup.freeze"@,
        ) && teardown.panes@[i].0.contents@ == "0\n"@,
        teardown.root@ == tree.base(),
        teardown.record@ == path::joined(sock_dir@, session@ + ".cgroup-root"@),
{
    let names = text::views(entries@);
    let panes = choose|panes: Seq<PaneDir>|
        #![trigger lists_panes(tree.base(), names, panes)]
        {
            &&& lists_panes(tree.base(), names, panes)
            &&& writes@.len() == panes.len()
            &&& forall|i: int|
                0 <= i < panes.len() ==> (#[trigger] writes@[i]).0 == panes[i].id
                    && is_freeze_write(panes[i].dir@, frozen, writes@[i].1)
        };
    law_panes_are_listed_by_id(tree.base(), names, panes, i, i);
    if 0 <= i < writes@.len() {
        assert(writes@[i].0 == panes[i].id);
        assert(panes_among(tree.base(), names).contains((writes@[i].0 as nat, panes[i].dir@)));
    }
    let gone = choose|gone: Seq<PaneDir>|
        #![trigger lists_panes(tree.base(), names, gone)]
        {
            &&& lists_panes(tree.base(), names, gone)
            &&& teardown.panes@.len() == gone.len()
            &&& forall|i: int|
                0 <= i < gone.len() ==> (#[trigger] teardown.panes@[i]).1@ == gone[i].dir@
                    && is_freeze_write(gone[i].dir@, false, teardown.panes@[i].0)
        };
    law_panes_are_listed_by_id(tree.base(), names, gone, i, i);
}

/// A pane's group is made, joined, thawed and removed at one place below the session's root; it is
/// removed exactly where it is there, and never while it is frozen.
pub proof fn law_pane_has_one_place(
    tree: PaneCgroups,
    id: u32,
    dir: String,
    made: (String, String),
    is_there: bool,
    steps: Option<(FileWrite, String)>,
)
    requires
        call_ensures(PaneCgroups::pane_dir, (&tree, id), dir),
        call_ensures(PaneCgroups::create_pane, (&tree, id), made),
        call_ensures(PaneCgroups::remove_pane, (&tree, id, is_there), steps),
    ensures
        dir@ == path::joined(tree.base(), "pane-"@ + text::dec(id as nat)),
        made.0@ == dir@ && made.1@ == path::joined(dir@, "cgroup.procs"@),
        steps is Some <==> is_there,
        steps matches Some((thaw, gone)) ==> gone@ == dir@ && thaw.path@ == path::joined(
            dir@,
            "cgroup.freeze"@,
        ) && thaw.contents@ == "0\n"@,
{
}

/// Panes that could be frozen and those that could not add up to all that were tried; the record of
/// a session is read as the place of its groups, without the white space around it.
pub proof fn law_tried_panes_add_up(
    results: Option<Vec<bool>>,
    counts: Option<(usize, usize)>,
    record: &str,
    tree: PaneCgroups,
    summary: FreezeSummary,
    all: bool,
    partly: bool,
)
    requires
        call_ensures(set_session_frozen, (&results,), counts),
        call_ensures(PaneCgroups::from_session_record, (record,), tree),
        call_ensures(FreezeSummary::all_frozen, (&summary,), all),
        call_ensures(FreezeSummary::partly_frozen, (&summary,), partly),
    ensures
        counts is Some <==> results is Some,
        counts matches Some((ok, failed)) ==> ok + failed == results->0@.len() && ok == successes(
            results->0@,
        ),
        tree.base() == text::trimmed(record@),
        all ==> summary.frozen > 0 && !partly,
        partly ==> 0 < summary.frozen < summary.total,
        summary.frozen > 0 && summary.frozen <= summary.total ==> all || partly,
{
}

/// A directory is swept as the root of a session exactly where its name is `gezellij-` and
/// something, and one in it as a pane's where it is `pane-` and something.
pub proof fn law_roots_and_panes_are_told_by_name(
    rest: Seq<char>,
    name: &str,
    is_root: bool,
    is_pane: bool,
)
    requires
        call_ensures(is_session_root, (name,), is_root),
        call_ensures(is_pane_entry, (name,), is_pane),
    ensures
        name@ == "gezellij-"@ + rest ==> is_root,
        name@ == "pane-"@ + rest ==> is_pane,
        is_root ==> name@ == "gezellij-"@ + name@.skip("gezellij-"@.len() as int),
        is_pane ==> name@ == "pane-"@ + name@.skip("pane-"@.len() as int),
{
    text::law_beginnings_and_ends(name@, "gezellij-"@, rest);
    text::law_beginnings_and_ends(name@, "pane-"@, rest);
}

/// The groups of a session and its record are named after the session, so two sessions share
/// neither.
pub proof fn law_sessions_have_their_own_groups(
    own: Seq<char>,
    a: Seq<char>,
    b: Seq<char>,
    sock_dir: &str,
    session: &str,
    record: String,
)
    requires
        path::is_plain_name(a),
        path::is_plain_name(b),
        call_ensures(record_file, (sock_dir, session), record),
    ensures
        session_root(own, a) == session_root(own, b) ==> a == b,
        record_path(own, a) == record_path(own, b) ==> a == b,
        record@ == record_path(sock_dir@, session@),
        record@ == path::joined(sock_dir@, session@ + ".cgroup-root"@),
{
    reveal_strlit("gezellij-");
    reveal_strlit(".cgroup-root");
    let (x, y) = (SESSION_DIR_PREFIX@ + a, SESSION_DIR_PREFIX@ + b);
    let (u, v) = (a + SESSION_RECORD_SUFFIX@, b + SESSION_RECORD_SUFFIX@);
    lemma_stays_plain(a);
    lemma_stays_plain(b);
    if session_root(own, a) == session_root(own, b) {
        path::lemma_joined_is_injective(own, x, y);
        assert(x.skip(9) =~= a && y.skip(9) =~= b);
    }
    if record_path(own, a) == record_path(own, b) {
        path::lemma_joined_is_injective(own, u, v);
        assert(u.take(u.len() - 12) =~= a && v.take(v.len() - 12) =~= b);
    }
}

proof fn lemma_stays_plain(name: Seq<char>)
    requires
        path::is_plain_name(name),
    ensures
        path::is_plain_name(SESSION_DIR_PREFIX@ + name),
        path::is_plain_name(name + SESSION_RECORD_SUFFIX@),
{
    reveal_strlit("gezellij-");
    reveal_strlit(".cgroup-root");
    let x = SESSION_DIR_PREFIX@ + name;
    let u = name + SESSION_RECORD_SUFFIX@;
    assert forall|i: int| 0 <= i < x.len() implies x[i] != '/' by {
        if i >= 9 {
            assert(x[i] == name[i - 9]);
            assert(name.contains(name[i - 9]));
        }
    }
    assert forall|i: int| 0 <= i < u.len() implies u[i] != '/' by {
        if i < name.len() {
            assert(u[i] == name[i]);
            assert(name.contains(name[i]));
        }
    }
}

} // verus!
