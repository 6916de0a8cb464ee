//! `upgrade-server`: replacing the server of a running session in place.
//!
//! The server is asked to hand over to the installed binary and is then watched until the new
//! binary serves the session under the old process id.
use crate::text;
use crate::time::Duration;
use crate::upgrade;
use vstd::prelude::*;

verus! {

/// How long, in seconds, an upgrade is waited for unless the user says otherwise.
pub const DEFAULT_UPGRADE_TIMEOUT_SECS: u64 = 30;

/// What stands for an executable that cannot be read.
pub const UNKNOWN_EXE: &'static str = "?";

/// The executable of a process as it is shown.
pub fn exe_of(link: Option<String>) -> (exe: String)
    ensures
        exe@ == (match link {
            Some(link) => link@,
            None => UNKNOWN_EXE@,
        }),
{
    match link {
        Some(link) => link,
        None => UNKNOWN_EXE.to_string(),
    }
}

/// Whether an upgrade goes ahead.
#[derive(Clone, Debug, PartialEq, Eq)]
pub enum UpgradePlan {
    /// There is nothing to upgrade; the text says so.
    Nothing(String),
    /// Signal this process; the text announces it.
    Signal { pid: u32, announcement: String },
}

/// What is said where the server's process is not known.
pub open spec fn no_pid_text(session: Seq<char>) -> Seq<char> {
    "Cannot find the server pid of session '"@ + session
        + "'. Its server predates upgrade support; restart the session once with this binary and it will be upgradable from then on."@
}

/// What is said where the server runs the binary that is on disk.
pub open spec fn up_to_date_text(session: Seq<char>, pid: u32, exe: Seq<char>) -> Seq<char> {
    "The server of session '"@ + session + "' (pid "@ + text::dec(pid as nat)
        + ") still runs the binary that is on disk ("@ + exe
        + "); nothing to upgrade.\nUse --force to re-exec it anyway.\n"@
}

/// What is said before the server is signalled.
pub open spec fn announcement_text(session: Seq<char>, pid: u32, exe: Seq<char>) -> Seq<char> {
    "Upgrading the server of session '"@ + session + "' (pid "@ + text::dec(pid as nat)
        + ", running "@ + exe
        + ") in place…\nAttached clients will be disconnected; re-attach with `zellij attach "@
        + session + "`.\n"@
}

/// Whether an upgrade goes ahead: the server's binary was replaced, or the user insists, or another
/// binary was named. `replaced` is `None` where it could not be told.
pub fn plan_upgrade(
    session: &str,
    pid: Option<u32>,
    replaced: Option<bool>,
    force: bool,
    overridden: bool,
    exe: &str,
) -> (r: Result<UpgradePlan, String>)
    ensures
        match pid {
            None => r matches Err(message) && message@ == no_pid_text(session@),
            Some(pid) => if replaced == Some(true) || force || overridden {
                r matches Ok(UpgradePlan::Signal { pid: p, announcement }) && p == pid
                    && announcement@ == announcement_text(session@, pid, exe@)
            } else {
                r matches Ok(UpgradePlan::Nothing(line)) && line@ == up_to_date_text(
                    session@,
                    pid,
                    exe@,
                )
            },
        },
{
    let pid: u32 = match pid {
        Some(pid) => pid,
        None => {
            let mut message = "Cannot find the server pid of session '".to_string();
            message.append(session);
            message.append(
                "'. Its server predates upgrade support; restart the session once with this binary and it will be upgradable from then on.",
            );
            return Err(message);
        },
    };
    let replaced = match replaced {
        Some(replaced) => replaced,
        None => false,
    };
    if !replaced && !force && !overridden {
        let mut line = "The server of session '".to_string();
        line.append(session);
        line.append("' (pid ");
        line.append(text::decimal(pid as u64).as_str());
        line.append(") still runs the binary that is on disk (");
        line.append(exe);
        line.append("); nothing to upgrade.\nUse --force to re-exec it anyway.\n");
        return Ok(UpgradePlan::Nothing(line));
    }
    let mut announcement = "Upgrading the server of session '".to_string();
    announcement.append(session);
    announcement.append("' (pid ");
    announcement.append(text::decimal(pid as u64).as_str());
    announcement.append(", running ");
    announcement.append(exe);
    announcement.append(
        ") in place…\nAttached clients will be disconnected; re-attach with `zellij attach ",
    );
    announcement.append(session);
    announcement.append("`.\n");
    Ok(UpgradePlan::Signal { pid, announcement })
}

/// What is known of the server of one of several sessions.
#[derive(Clone, Debug, PartialEq, Eq)]
pub struct SessionServer {
    pub session: String,
    /// Its process, if that is known.
    pub pid: Option<u32>,
    /// Whether its binary was replaced; `None` where that could not be told.
    pub replaced: Option<bool>,
}

/// Which of several sessions are to be upgraded.
#[derive(Clone, Debug, PartialEq, Eq)]
pub struct UpgradeGroups {
    pub up_to_date: Vec<String>,
    /// The process of the server is not known.
    pub not_upgradable: Vec<String>,
    pub upgrading: Vec<String>,
}

/// Where a session goes when all are to be upgraded.
#[derive(Clone, Copy, Debug, PartialEq, Eq, Structural)]
pub enum UpgradeGroup {
    UpToDate,
    NotUpgradable,
    Upgrading,
}

/// Where a session goes: it is upgraded where its server's process is known and runs an old binary.
pub open spec fn group_of(server: SessionServer) -> UpgradeGroup {
    match server.pid {
        None => UpgradeGroup::NotUpgradable,
        Some(_) => if server.replaced == Some(true) {
            UpgradeGroup::Upgrading
        } else {
            UpgradeGroup::UpToDate
        },
    }
}

/// The names of the sessions in a group, in the order in which they came.
pub open spec fn names_in(servers: Seq<SessionServer>, group: UpgradeGroup) -> Seq<Seq<char>>
    decreases servers.len(),
{
    if servers.len() == 0 {
        seq![]
    } else {
        let front = names_in(servers.drop_last(), group);
        if group_of(servers.last()) == group {
            front.push(servers.last().session@)
        } else {
            front
        }
    }
}

/// Sort all sessions into those that are up to date, those that cannot be upgraded, and those that
/// are upgraded now.
pub fn plan_upgrade_all(servers: &Vec<SessionServer>) -> (groups: UpgradeGroups)
    ensures
        text::views(groups.up_to_date@) == names_in(servers@, UpgradeGroup::UpToDate),
        text::views(groups.not_upgradable@) == names_in(servers@, UpgradeGroup::NotUpgradable),
        text::views(groups.upgrading@) == names_in(servers@, UpgradeGroup::Upgrading),
{
    let mut up_to_date: Vec<String> = Vec::new();
    let mut not_upgradable: Vec<String> = Vec::new();
    let mut upgrading: Vec<String> = Vec::new();
    let mut i: usize = 0;
    assert(text::views(up_to_date@) =~= Seq::empty());
    assert(text::views(not_upgradable@) =~= Seq::empty());
    assert(text::views(upgrading@) =~= Seq::empty());
    while i < servers.len()
        invariant
            i <= servers@.len(),
            text::views(up_to_date@) == names_in(servers@.take(i as int), UpgradeGroup::UpToDate),
            text::views(not_upgradable@) == names_in(
                servers@.take(i as int),
                UpgradeGroup::NotUpgradable,
            ),
            text::views(upgrading@) == names_in(servers@.take(i as int), UpgradeGroup::Upgrading),
        decreases servers@.len() - i,
    {
        assert(servers@.take(i + 1).drop_last() =~= servers@.take(i as int));
        let name = servers[i].session.clone();
        let replaced = match servers[i].replaced {
            Some(replaced) => replaced,
            None => false,
        };
        let ghost a = text::views(up_to_date@);
        let ghost b = text::views(not_upgradable@);
        let ghost c = text::views(upgrading@);
        if servers[i].pid.is_none() {
            not_upgradable.push(name);
            assert(text::views(not_upgradable@) =~= b.push(name@));
        } else if replaced {
            upgrading.push(name);
            assert(text::views(upgrading@) =~= c.push(name@));
        } else {
            up_to_date.push(name);
            assert(text::views(up_to_date@) =~= a.push(name@));
        }
        i += 1;
    }
    assert(servers@.take(i as int) =~= servers@);
    UpgradeGroups { up_to_date, not_upgradable, upgrading }
}

proof fn lemma_groups_add_up(servers: Seq<SessionServer>)
    ensures
        names_in(servers, UpgradeGroup::UpToDate).len() + names_in(
            servers,
            UpgradeGroup::NotUpgradable,
        ).len() + names_in(servers, UpgradeGroup::Upgrading).len() == servers.len(),
    decreases servers.len(),
{
    if servers.len() > 0 {
        lemma_groups_add_up(servers.drop_last());
    }
}

/// Every session goes to exactly one group: none is passed over, and none is counted twice.
pub proof fn law_every_session_has_a_group(servers: Seq<SessionServer>, i: int)
    requires
        0 <= i < servers.len(),
    ensures
        names_in(servers, group_of(servers[i])).contains(servers[i].session@),
        names_in(servers, UpgradeGroup::UpToDate).len() + names_in(
            servers,
            UpgradeGroup::NotUpgradable,
        ).len() + names_in(servers, UpgradeGroup::Upgrading).len() == servers.len(),
    decreases servers.len(),
{
    let front = servers.drop_last();
    let group = group_of(servers[i]);
    let names = names_in(servers, group);
    lemma_groups_add_up(servers);
    if i < front.len() {
        law_every_session_has_a_group(front, i);
        let before = names_in(front, group);
        assert(front[i] == servers[i]);
        let k = choose|k: int| 0 <= k < before.len() && before[k] == servers[i].session@;
        assert(names[k] == servers[i].session@);
    } else {
        assert(names[names.len() - 1] == servers[i].session@);
    }
}

/// The line on a group of sessions; nothing for an empty group.
pub open spec fn group_line(label: Seq<char>, names: Seq<Seq<char>>) -> Seq<char> {
    if names.len() == 0 {
        seq![]
    } else {
        label + ": "@ + text::joined_with(names, ", "@) + "\n"@
    }
}

/// What is printed before all sessions are upgraded.
pub open spec fn groups_text(
    up_to_date: Seq<Seq<char>>,
    not_upgradable: Seq<Seq<char>>,
    upgrading: Seq<Seq<char>>,
) -> Seq<char> {
    group_line("already up to date"@, up_to_date) + group_line(
        "cannot be upgraded"@,
        not_upgradable,
    ) + (if upgrading.len() == 0 {
        "Nothing to upgrade.\n"@
    } else {
        group_line("upgrading now"@, upgrading)
    })
}

/// The line on a group of sessions; nothing for an empty group.
fn write_group(label: &str, names: &Vec<String>) -> (s: String)
    ensures
        s@ == group_line(label@, text::views(names@)),
{
    if names.len() == 0 {
        return String::new();
    }
    let mut s = label.to_string();
    s.append(": ");
    s.append(text::join_with(names, ", ").as_str());
    s.append("\n");
    s
}

impl UpgradeGroups {
    /// What is printed before all sessions are upgraded.
    pub fn to_string(&self) -> (s: String)
        ensures
            s@ == groups_text(
                text::views(self.up_to_date@),
                text::views(self.not_upgradable@),
                text::views(self.upgrading@),
            ),
    {
        let mut s = write_group("already up to date", &self.up_to_date);
        s.append(write_group("cannot be upgraded", &self.not_upgradable).as_str());
        if self.upgrading.len() == 0 {
            s.append("Nothing to upgrade.\n");
        } else {
            s.append(write_group("upgrading now", &self.upgrading).as_str());
        }
        s
    }
}

/// What is said where the signal could not be sent.
pub fn signal_failed(pid: u32, e: &str) -> (message: String)
    ensures
        message@ == "Could not signal the server (pid "@ + text::dec(pid as nat) + "): "@ + e@,
{
    let mut message = "Could not signal the server (pid ".to_string();
    message.append(text::decimal(pid as u64).as_str());
    message.append("): ");
    message.append(e);
    message
}

/// The time to wait for an upgrade.
pub fn upgrade_timeout(secs: Option<u64>) -> (timeout: Duration)
    ensures
        timeout.seconds() == secs.unwrap_or(DEFAULT_UPGRADE_TIMEOUT_SECS),
        timeout.nanoseconds() == timeout.seconds() * 1_000_000_000,
{
    Duration::from_secs(
        match secs {
            Some(secs) => secs,
            None => DEFAULT_UPGRADE_TIMEOUT_SECS,
        },
    )
}

// ---------------------------------------------------------------------------------------------
// waiting
// ---------------------------------------------------------------------------------------------

/// What one look at a server in the middle of an upgrade shows.
#[derive(Clone, Debug, PartialEq, Eq)]
pub struct Observation {
    /// Whether the manifest was there at the start of the look.
    pub manifest_before: bool,
    /// Whether the process is there.
    pub alive: bool,
    /// The executable of the process.
    pub exe: String,
    /// Whether the manifest was there at the end of the look.
    pub manifest_after: bool,
    /// Whether the session is served.
    pub session_exists: bool,
    /// The time since the signal.
    pub elapsed: Duration,
}

/// What to do after a look.
#[derive(Clone, Debug, PartialEq, Eq)]
pub enum WaitStep {
    /// Look again in a moment.
    Again,
    /// The upgrade is done; the text says so.
    Done(String),
    /// The server is gone; the text says so.
    Gone(String),
    /// The time is up; the text says so.
    TimedOut(String),
}

/// Waiting for one upgrade.
#[derive(Clone, Debug)]
pub struct UpgradeWait {
    session: String,
    pid: u32,
    old_exe: String,
    timeout: Duration,
    saw_manifest: bool,
}

/// Whether a process that ran `old` now runs another binary, which is on disk.
pub open spec fn runs_new_binary(old: Seq<char>, new: Seq<char>) -> bool {
    new != old && !text::has_suffix(new, upgrade::DELETED_SUFFIX@)
}

/// What is said when the server is gone.
pub open spec fn gone_text(session: Seq<char>, pid: u32) -> Seq<char> {
    "The server (pid "@ + text::dec(pid as nat)
        + ") exited during the upgrade. Check the log at /tmp/zellij-<uid>/zellij-log/zellij.log; the session's resurrection layout is on disk, so `zellij attach "@
        + session + "` can rebuild it."@
}

/// What is said when the upgrade is done.
pub open spec fn done_text(session: Seq<char>, pid: u32, exe: Seq<char>) -> Seq<char> {
    "Done: session '"@ + session + "' is now served by "@ + exe + " (pid "@ + text::dec(pid as nat)
        + " unchanged).\n"@
}

/// What is said when the time is up.
pub open spec fn timed_out_text(pid: u32, exe: Seq<char>, timeout_secs: nat, saw: bool) -> Seq<
    char,
> {
    "Timed out after "@ + text::dec(timeout_secs) + "s waiting for the upgraded server (pid "@
        + text::dec(pid as nat) + " now runs "@ + exe + "; manifest seen: "@ + (if saw {
        "true"@
    } else {
        "false"@
    })
        + ").\nThe old server keeps running if the exec never happened; see the server log for details.\n"@
}

impl UpgradeWait {
    pub closed spec fn session_name(&self) -> Seq<char> {
        self.session@
    }

    pub closed spec fn process(&self) -> u32 {
        self.pid
    }

    /// The executable before the upgrade.
    pub closed spec fn exe_before(&self) -> Seq<char> {
        self.old_exe@
    }

    pub closed spec fn time_limit(&self) -> Duration {
        self.timeout
    }

    /// Whether the manifest was ever there.
    pub closed spec fn manifest_seen(&self) -> bool {
        self.saw_manifest
    }

    pub fn new(session: String, pid: u32, old_exe: String, timeout: Duration) -> (wait: Self)
        ensures
            wait.session_name() == session@,
            wait.process() == pid,
            wait.exe_before() == old_exe@,
            wait.time_limit() == timeout,
            !wait.manifest_seen(),
    {
        UpgradeWait { session, pid, old_exe, timeout, saw_manifest: false }
    }

    /// Take in one look. The upgrade is done once the same process runs a new binary, has taken the
    /// manifest away, and serves the session.
    pub fn step(&mut self, seen: Observation) -> (step: WaitStep)
        ensures
            final(self).session_name() == old(self).session_name(),
            final(self).process() == old(self).process(),
            final(self).exe_before() == old(self).exe_before(),
            final(self).time_limit() == old(self).time_limit(),
            final(self).manifest_seen() == (old(self).manifest_seen() || seen.manifest_before),
            if !seen.alive {
                step matches WaitStep::Gone(s) && s@ == gone_text(
                    old(self).session_name(),
                    old(self).process(),
                )
            } else if runs_new_binary(old(self).exe_before(), seen.exe@)
                && final(self).manifest_seen() && !seen.manifest_after && seen.session_exists {
                step matches WaitStep::Done(s) && s@ == done_text(
                    old(self).session_name(),
                    old(self).process(),
                    seen.exe@,
                )
            } else if seen.elapsed.nanoseconds() > old(self).time_limit().nanoseconds() {
                step matches WaitStep::TimedOut(s) && s@ == timed_out_text(
                    old(self).process(),
                    seen.exe@,
                    old(self).time_limit().seconds(),
                    final(self).manifest_seen(),
                )
            } else {
                step is Again
            },
    {
        if seen.manifest_before {
            self.saw_manifest = true;
        }
        if !seen.alive {
            let mut s = "The server (pid ".to_string();
            s.append(text::decimal(self.pid as u64).as_str());
            s.append(
                ") exited during the upgrade. Check the log at /tmp/zellij-<uid>/zellij-log/zellij.log; the session's resurrection layout is on disk, so `zellij attach ",
            );
            s.append(self.session.as_str());
            s.append("` can rebuild it.");
            return WaitStep::Gone(s);
        }
        let exe = seen.exe.as_str();
        let upgraded = !text::same_text(exe, self.old_exe.as_str()) && !text::ends_with(
            exe,
            upgrade::DELETED_SUFFIX,
        );
        if upgraded && self.saw_manifest && !seen.manifest_after && seen.session_exists {
            let mut s = "Done: session '".to_string();
            s.append(self.session.as_str());
            s.append("' is now served by ");
            s.append(exe);
            s.append(" (pid ");
            s.append(text::decimal(self.pid as u64).as_str());
            s.append(" unchanged).\n");
            return WaitStep::Done(s);
        }
        if self.timeout.is_shorter_than(&seen.elapsed) {
            let mut s = "Timed out after ".to_string();
            s.append(text::decimal(self.timeout.as_secs()).as_str());
            s.append("s waiting for the upgraded server (pid ");
            s.append(text::decimal(self.pid as u64).as_str());
            s.append(" now runs ");
            s.append(exe);
            s.append("; manifest seen: ");
            s.append(
                if self.saw_manifest {
                    "true"
                } else {
                    "false"
                },
            );
            s.append(
                ").\nThe old server keeps running if the exec never happened; see the server log for details.\n",
            );
            return WaitStep::TimedOut(s);
        }
        WaitStep::Again
    }
}

/// A process runs a new binary exactly where its executable is another one than before and is on
/// disk. So a server whose binary was replaced, which ran `path (deleted)`, runs the new one once
/// it runs `path`; one that was not upgraded does not, and neither does one whose binary was
/// replaced meanwhile.
pub proof fn law_replacement_is_a_new_binary(path: Seq<char>, other: Seq<char>)
    requires
        forall|q: Seq<char>| path != #[trigger] (q + " (deleted)"@),
    ensures
        runs_new_binary(path + " (deleted)"@, path),
        other != path ==> runs_new_binary(other, path),
        !runs_new_binary(path, path),
        !runs_new_binary(path, path + " (deleted)"@),
        !runs_new_binary(other, path + " (deleted)"@),
{
    reveal_strlit(" (deleted)");
    text::law_beginnings_and_ends(path, " (deleted)"@, path);
    assert(path != path.take(path.len() - 10) + " (deleted)"@);
    assert((path + " (deleted)"@).len() == path.len() + 10);
}

/// An upgrade is done exactly when the process is there, runs another executable than before, which
/// is on disk, has taken away the manifest that was there now or at an earlier look, and serves the
/// session. Where the process is gone the wait ends at once; where the time is up it ends unless
/// the upgrade is done; else it goes on.
pub proof fn law_upgrade_is_done_when_the_new_binary_serves(
    wait: &mut UpgradeWait,
    seen: Observation,
    step: WaitStep,
)
    requires
        call_ensures(UpgradeWait::step, (wait, seen), step),
    ensures
        ({
            let saw = old(wait).manifest_seen() || seen.manifest_before;
            let on_disk = forall|q: Seq<char>| seen.exe@ != #[trigger] (q + " (deleted)"@);
            let done = seen.alive && seen.exe@ != old(wait).exe_before() && on_disk && saw
                && !seen.manifest_after && seen.session_exists;
            let late = seen.elapsed.nanoseconds() > old(wait).time_limit().nanoseconds();
            &&& step is Gone <==> !seen.alive
            &&& step is Done <==> done
            &&& step is TimedOut <==> seen.alive && !done && late
            &&& step is Again <==> seen.alive && !done && !late
            &&& final(wait).manifest_seen() == saw
            &&& final(wait).exe_before() == old(wait).exe_before()
            &&& final(wait).time_limit() == old(wait).time_limit()
            &&& final(wait).session_name() == old(wait).session_name()
            &&& final(wait).process() == old(wait).process()
        }),
{
    let exe = seen.exe@;
    reveal_strlit(" (deleted)");
    assert(upgrade::DELETED_SUFFIX@ == " (deleted)"@);
    if text::has_suffix(exe, " (deleted)"@) {
        text::law_beginnings_and_ends(exe, " (deleted)"@, exe);
        assert(exe == exe.take(exe.len() - 10) + " (deleted)"@);
    } else {
        assert forall|q: Seq<char>| exe != #[trigger] (q + " (deleted)"@) by {
            text::law_beginnings_and_ends(exe, " (deleted)"@, q);
        }
    }
}

/// An upgrade goes ahead exactly where the process of the server is known and its binary was
/// replaced, or the user insists, or another binary was named; it then concerns that process. Where
/// the process is not known it is refused.
pub proof fn law_upgrade_goes_ahead(
    session: &str,
    pid: Option<u32>,
    replaced: Option<bool>,
    force: bool,
    overridden: bool,
    exe: &str,
    r: Result<UpgradePlan, String>,
)
    requires
        call_ensures(plan_upgrade, (session, pid, replaced, force, overridden, exe), r),
    ensures
        r is Err <==> pid is None,
        r matches Ok(UpgradePlan::Signal { pid: p, announcement: _ }) ==> pid == Some(p) && (force
            || overridden || replaced == Some(true)),
        r matches Ok(UpgradePlan::Nothing(_)) ==> pid is Some && !force && !overridden && replaced
            != Some(true),
{
}

/// When all sessions are upgraded, a session is upgraded exactly where its server's process is
/// known and runs a replaced binary, whatever its place in the list; it cannot be upgraded where
/// the process is not known. Two lists one after the other are sorted as each of them is, in order.
pub proof fn law_sessions_are_sorted_one_by_one(
    a: Seq<SessionServer>,
    b: Seq<SessionServer>,
    one: SessionServer,
    group: UpgradeGroup,
)
    ensures
        names_in(a + b, group) == names_in(a, group) + names_in(b, group),
        names_in(seq![one], group) == (if group == (if one.pid is None {
            UpgradeGroup::NotUpgradable
        } else if one.replaced == Some(true) {
            UpgradeGroup::Upgrading
        } else {
            UpgradeGroup::UpToDate
        }) {
            seq![one.session@]
        } else {
            seq![]
        }),
    decreases b.len(),
{
    reveal_with_fuel(names_in, 2);
    assert(seq![one].drop_last() =~= Seq::<SessionServer>::empty());
    if b.len() == 0 {
        assert(a + b =~= a);
    } else {
        law_sessions_are_sorted_one_by_one(a, b.drop_last(), one, group);
        assert((a + b).drop_last() =~= a + b.drop_last());
    }
}

/// A group of sessions is listed under its label, every name in order; a group without sessions is
/// not listed, but that nothing is upgraded is always said.
pub proof fn law_groups_are_listed(
    up_to_date: Seq<Seq<char>>,
    not_upgradable: Seq<Seq<char>>,
    upgrading: Seq<Seq<char>>,
    one: Seq<char>,
)
    ensures
        groups_text(seq![], seq![], seq![]) == "Nothing to upgrade.\n"@,
        groups_text(seq![], seq![], seq![one]) == "upgrading now"@ + ": "@ + one + "\n"@,
        groups_text(up_to_date, not_upgradable, upgrading) == (if up_to_date.len() == 0 {
            Seq::<char>::empty()
        } else {
            "already up to date"@ + ": "@ + text::joined_with(up_to_date, ", "@) + "\n"@
        }) + groups_text(seq![], not_upgradable, upgrading),
        groups_text(seq![], not_upgradable, upgrading) == (if not_upgradable.len() == 0 {
            Seq::<char>::empty()
        } else {
            "cannot be upgraded"@ + ": "@ + text::joined_with(not_upgradable, ", "@) + "\n"@
        }) + groups_text(seq![], seq![], upgrading),
{
    let none = Seq::<Seq<char>>::empty();
    let empty = Seq::<char>::empty();
    assert(empty + empty + "Nothing to upgrade.\n"@ =~= "Nothing to upgrade.\n"@);
    assert(groups_text(none, none, seq![one]) =~= group_line("upgrading now"@, seq![one]));
    assert(groups_text(up_to_date, not_upgradable, upgrading) =~= group_line(
        "already up to date"@,
        up_to_date,
    ) + groups_text(none, not_upgradable, upgrading));
    assert(groups_text(none, not_upgradable, upgrading) =~= group_line(
        "cannot be upgraded"@,
        not_upgradable,
    ) + groups_text(none, none, upgrading));
}

/// An upgrade is waited for as long as the user says, and half a minute where the user says
/// nothing.
pub proof fn law_upgrade_timeout(secs: Option<u64>, timeout: Duration)
    requires
        call_ensures(upgrade_timeout, (secs,), timeout),
    ensures
        secs matches Some(secs) ==> timeout.nanoseconds() == secs * 1_000_000_000,
        secs is None ==> timeout.nanoseconds() == 30_000_000_000,
{
}

/// The sessions that are upgraded are exactly those of the group, and so are the others.
pub proof fn law_upgrade_of_all_sorts_every_session(
    servers: Vec<SessionServer>,
    groups: UpgradeGroups,
    i: int,
)
    requires
        call_ensures(plan_upgrade_all, (&servers,), groups),
        0 <= i < servers@.len(),
    ensures
        ({
            let one = servers@[i];
            let name = one.session@;
            &&& one.pid is None ==> text::views(groups.not_upgradable@).contains(name)
            &&& one.pid is Some && one.replaced == Some(true) ==> text::views(
                groups.upgrading@,
            ).contains(name)
            &&& one.pid is Some && one.replaced != Some(true) ==> text::views(
                groups.up_to_date@,
            ).contains(name)
            &&& groups.up_to_date@.len() + groups.not_upgradable@.len() + groups.upgrading@.len()
                == servers@.len()
        }),
{
    law_every_session_has_a_group(servers@, i);
    assert(text::views(groups.up_to_date@).len() == groups.up_to_date@.len());
    assert(text::views(groups.not_upgradable@).len() == groups.not_upgradable@.len());
    assert(text::views(groups.upgrading@).len() == groups.upgrading@.len());
}

/// What is said when the time is up tells the time, the process, what it runs now, and whether the
/// manifest was ever there.
pub proof fn law_late_upgrade_tells_what_was_seen(pid: u32, exe: Seq<char>, secs: nat, saw: bool)
    ensures
        text::has_prefix(
            timed_out_text(pid, exe, secs, saw),
            "Timed out after "@ + text::dec(secs) + "s waiting for the upgraded server (pid "@
                + text::dec(pid as nat) + " now runs "@ + exe + "; manifest seen: "@ + (if saw {
                "true"@
            } else {
                "false"@
            }),
        ),
{
    let told = "Timed out after "@ + text::dec(secs)
        + "s waiting for the upgraded server (pid "@ + text::dec(pid as nat) + " now runs "@ + exe
        + "; manifest seen: "@ + (if saw {
        "true"@
    } else {
        "false"@
    });
    let end =
        ").\nThe old server keeps running if the exec never happened; see the server log for details.\n"@;
    text::law_beginnings_and_ends(timed_out_text(pid, exe, secs, saw), told, end);
    assert(timed_out_text(pid, exe, secs, saw) =~= told + end);
}

/// An executable that can be read is shown as it is.
pub proof fn law_readable_executable_is_shown(link: Option<String>, exe: String)
    requires
        call_ensures(exe_of, (link,), exe),
    ensures
        link matches Some(path) ==> exe@ == path@,
        link is None ==> exe@ == "?"@,
{
}

/// A wait begins without a manifest seen, and keeps what it is given.
pub proof fn law_wait_begins_without_a_manifest(
    session: String,
    pid: u32,
    old_exe: String,
    timeout: Duration,
    wait: UpgradeWait,
)
    requires
        call_ensures(UpgradeWait::new, (session, pid, old_exe, timeout), wait),
    ensures
        !wait.manifest_seen(),
        wait.session_name() == session@ && wait.process() == pid && wait.exe_before() == old_exe@
            && wait.time_limit() == timeout,
{
}

} // verus!
