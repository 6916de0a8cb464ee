//! Freezing a session that nobody is attached to.
//!
//! A session that has had no client for longer than a threshold has its panes frozen, and is thawed
//! the moment a client attaches. Whether the panes are frozen is always asked of the system, never
//! remembered: somebody may have frozen or thawed them by hand. All that is remembered is since when
//! nobody has been attached, and whether this supervisor froze the session since then.
use crate::cgroups;
use crate::cgroups::FreezeState;
use crate::cgroups::FreezeSummary;
use crate::text;
use crate::time;
use crate::time::Duration;
use vstd::prelude::*;

verus! {

/// How often, in seconds, the supervisor looks at the session.
pub const TICK_SECS: u64 = 15;

/// A span as whole seconds, for the log.
pub fn format_secs(duration: Duration) -> (s: String)
    ensures
        s@ == text::dec(duration.seconds()) + "s"@,
{
    let mut s = text::decimal(duration.as_secs());
    s.append("s");
    s
}

/// What one look at the session calls for: `Some(true)` to freeze it, `Some(false)` to thaw it,
/// `None` to leave it alone. `idle_for` is `None` while a client is attached.
pub open spec fn decision(
    idle_for: Option<nat>,
    frozen: bool,
    we_froze: bool,
    threshold: nat,
) -> Option<bool> {
    match idle_for {
        Some(idle) => if !frozen && !we_froze && idle >= threshold {
            Some(true)
        } else {
            None
        },
        None => if frozen && we_froze {
            Some(false)
        } else {
            None
        },
    }
}

/// A span that may be missing, in nanoseconds.
pub open spec fn optional_nanos(d: Option<Duration>) -> Option<nat> {
    match d {
        Some(d) => Some(d.nanoseconds()),
        None => None,
    }
}

/// What one look at the session calls for.
///
/// A session that we froze and that somebody thawed by hand is left thawed until a client has
/// attached and gone again; one that was frozen by hand while a client is attached is left frozen.
pub fn decide(
    idle_for: Option<Duration>,
    frozen: bool,
    we_froze: bool,
    threshold: Duration,
) -> (action: Option<bool>)
    ensures
        action == decision(optional_nanos(idle_for), frozen, we_froze, threshold.nanoseconds()),
{
    match idle_for {
        Some(idle_for) => {
            if frozen || we_froze || idle_for.is_shorter_than(&threshold) {
                None
            } else {
                Some(true)
            }
        },
        None => {
            if frozen && we_froze {
                Some(false)
            } else {
                None
            }
        },
    }
}

/// We only ever undo our own freeze, and only freeze a running session that has been idle for long
/// enough and that we have not frozen before.
pub proof fn law_decision_is_cautious(
    idle_for: Option<nat>,
    frozen: bool,
    we_froze: bool,
    threshold: nat,
)
    ensures
        decision(idle_for, frozen, we_froze, threshold) == Some(false) ==> we_froze && frozen
            && idle_for is None,
        decision(idle_for, frozen, we_froze, threshold) == Some(true) <==> !frozen && !we_froze && (
        idle_for matches Some(idle) && idle >= threshold),
{
}

// ---------------------------------------------------------------------------------------------
// the supervisor
// ---------------------------------------------------------------------------------------------

/// What the supervisor remembers.
pub struct Memory {
    /// Since when nobody has been attached, in nanoseconds; `None` while a client is.
    pub idle_since: Option<nat>,
    /// Whether we froze the session since then.
    pub we_froze: bool,
}

/// The supervisor of one session.
#[derive(Clone, Debug)]
pub struct AutoFreeze {
    session_name: String,
    threshold: Duration,
    idle_since: Option<Duration>,
    froze_this_idle_period: bool,
}

/// What remains remembered when it is known whether clients are attached: a client stops the idle
/// clock and clears the mark; their absence starts the clock, unless it runs already.
pub open spec fn after_clients(m: Memory, has_clients: bool, now: nat) -> Memory {
    if has_clients {
        Memory { idle_since: None, we_froze: false }
    } else if m.idle_since is None {
        Memory { idle_since: Some(now), ..m }
    } else {
        m
    }
}

/// How long nobody has been attached.
pub open spec fn idle_time(m: Memory, now: nat) -> Option<nat> {
    match m.idle_since {
        Some(since) => Some(time::elapsed(since, now)),
        None => None,
    }
}

/// What remains remembered after one look. `has_clients` is `None` where it could not be told.
pub open spec fn after_look(m: Memory, has_clients: Option<bool>, now: nat) -> Memory {
    match has_clients {
        Some(has_clients) => after_clients(m, has_clients, now),
        None => m,
    }
}

/// What one look calls for. `frozen` is `None` where the session has no panes that could be frozen,
/// or where that could not be told. The mark is the one from before the look.
pub open spec fn look(
    m: Memory,
    threshold: nat,
    has_clients: Option<bool>,
    frozen: Option<bool>,
    now: nat,
) -> Option<bool> {
    match frozen {
        Some(frozen) => decision(
            idle_time(after_look(m, has_clients, now), now),
            frozen,
            m.we_froze,
            threshold,
        ),
        None => None,
    }
}

/// What a client that attaches calls for: to thaw the session where any pane of it is frozen, by
/// whomever.
pub open spec fn thaw_on_attach(panes: Option<FreezeSummary>) -> Option<bool> {
    match panes {
        Some(panes) => if panes.frozen > 0 {
            Some(false)
        } else {
            None
        },
        None => None,
    }
}

/// What became of freezing or thawing: how many panes it worked for and how many not; `None` where
/// the session has no panes' groups at all.
pub open spec fn after_freeze(m: Memory, frozen: bool, counts: Option<(usize, usize)>) -> Memory {
    match counts {
        Some((ok, failed)) => if ok == 0 && failed == 0 {
            m
        } else {
            Memory { we_froze: frozen, ..m }
        },
        None => m,
    }
}

/// What one look calls for, and a warning for the log.
#[derive(Clone, Debug, PartialEq, Eq)]
pub struct TickOutcome {
    pub action: Option<bool>,
    pub warning: Option<String>,
}

/// What freezing or thawing came to, for the log.
#[derive(Clone, Debug, PartialEq, Eq)]
pub struct FreezeReport {
    pub info: Option<String>,
    pub warning: Option<String>,
}

/// The line for the log on what was done.
pub open spec fn done_line(
    session: Seq<char>,
    threshold_secs: nat,
    frozen: bool,
    ok: usize,
) -> Seq<char> {
    if frozen {
        "auto-freeze: froze "@ + text::dec(ok as nat) + " pane(s) of '"@ + session + "' after "@
            + text::dec(threshold_secs)
            + "s without an attached client; it will thaw when you attach"@
    } else {
        "auto-freeze: thawed "@ + text::dec(ok as nat) + " pane(s) of '"@ + session + "'"@
    }
}

/// The line for the log on what could not be done.
pub open spec fn failed_line(session: Seq<char>, frozen: bool, failed: usize) -> Seq<char> {
    "auto-freeze: "@ + text::dec(failed as nat) + " pane(s) of '"@ + session
        + "' could not be "@ + (if frozen {
        "frozen"@
    } else {
        "thawed"@
    })
}

/// The line for the log where nothing could be tried.
pub open spec fn error_line(session: Seq<char>, frozen: bool, e: Seq<char>) -> Seq<char> {
    "auto-freeze: could not "@ + (if frozen {
        "freeze"@
    } else {
        "thaw"@
    }) + " '"@ + session + "': "@ + e
}

/// The line for the log where the state could not be read.
pub open spec fn unread_line(session: Seq<char>, e: Seq<char>) -> Seq<char> {
    "auto-freeze: could not read the freezer state of '"@ + session + "': "@ + e
}

/// The line for the log when the supervisor starts.
pub open spec fn armed_line(session: Seq<char>, threshold_secs: nat) -> Seq<char> {
    "auto-freeze armed for session '"@ + session + "': freezing after "@ + text::dec(
        threshold_secs,
    ) + "s without an attached client"@
}

/// The warning where there is nothing to supervise with.
pub const NO_CGROUPS_WARNING: &'static str = "auto_freeze_after is set but cgroup v2 is not available; idle sessions will not be frozen";

impl AutoFreeze {
    /// What the supervisor remembers.
    pub closed spec fn memory(&self) -> Memory {
        Memory { idle_since: optional_nanos(self.idle_since), we_froze: self.froze_this_idle_period }
    }

    /// The session's name.
    pub closed spec fn session(&self) -> Seq<char> {
        self.session_name@
    }

    /// The threshold.
    pub closed spec fn threshold_time(&self) -> Duration {
        self.threshold
    }

    /// Whether the other supervisor watches the same session with the same threshold.
    pub open spec fn watches_as(&self, other: &AutoFreeze) -> bool {
        self.session() == other.session() && self.threshold_time() == other.threshold_time()
    }

    /// A supervisor of a session that has a client.
    pub fn new(session_name: String, threshold: Duration) -> (supervisor: Self)
        ensures
            supervisor.session() == session_name@,
            supervisor.threshold_time() == threshold,
            supervisor.memory() == (Memory { idle_since: None, we_froze: false }),
    {
        AutoFreeze { session_name, threshold, idle_since: None, froze_this_idle_period: false }
    }

    /// A supervisor, unless there are no control groups to freeze with; and a line for the log.
    pub fn spawn(has_cgroups: bool, session_name: String, threshold: Duration) -> (r: (
        Option<AutoFreeze>,
        String,
    ))
        ensures
            match r.0 {
                Some(supervisor) => {
                    &&& has_cgroups
                    &&& supervisor.session() == session_name@
                    &&& supervisor.threshold_time() == threshold
                    &&& supervisor.memory() == (Memory { idle_since: None, we_froze: false })
                    &&& r.1@ == armed_line(session_name@, threshold.seconds())
                },
                None => !has_cgroups && r.1@ == NO_CGROUPS_WARNING@,
            },
    {
        if !has_cgroups {
            return (None, NO_CGROUPS_WARNING.to_string());
        }
        let mut line = "auto-freeze armed for session '".to_string();
        line.append(session_name.as_str());
        line.append("': freezing after ");
        line.append(text::decimal(threshold.as_secs()).as_str());
        line.append("s without an attached client");
        (Some(AutoFreeze::new(session_name, threshold)), line)
    }

    /// Whether we froze the session since the last client left.
    pub fn we_froze(&self) -> (b: bool)
        ensures
            b == self.memory().we_froze,
    {
        self.froze_this_idle_period
    }

    /// It is known whether clients are attached: start or stop the idle clock.
    pub fn set_has_clients(&mut self, has_clients: bool, now: Duration)
        ensures
            final(self).memory() == after_clients(old(self).memory(), has_clients, now.nanoseconds()),
            final(self).watches_as(old(self)),
    {
        if has_clients {
            self.idle_since = None;
            self.froze_this_idle_period = false;
        } else if self.idle_since.is_none() {
            self.idle_since = Some(now);
        }
    }

    /// The set of clients may have changed; `None` where it could not be told.
    pub fn clients_changed(&mut self, has_clients: Option<bool>, now: Duration)
        ensures
            final(self).memory() == after_look(old(self).memory(), has_clients, now.nanoseconds()),
            final(self).watches_as(old(self)),
    {
        if let Some(has_clients) = has_clients {
            self.set_has_clients(has_clients, now);
        }
    }

    /// How long nobody has been attached; `None` while a client is.
    pub fn idle_for(&self, now: Duration) -> (idle: Option<Duration>)
        ensures
            optional_nanos(idle) == idle_time(self.memory(), now.nanoseconds()),
    {
        match &self.idle_since {
            Some(since) => Some(now.elapsed_since(since)),
            None => None,
        }
    }

    /// A client has attached: whatever is frozen is to be thawed right away. `panes` tells how many
    /// panes there are and how many are frozen; `Ok(None)` where the session has no groups, and an
    /// error where that could not be read.
    pub fn on_attach(&mut self, panes: Result<Option<FreezeSummary>, String>, now: Duration) -> (
    outcome: TickOutcome)
        ensures
            final(self).memory() == (Memory { idle_since: None, we_froze: false }),
            final(self).watches_as(old(self)),
            match panes {
                Ok(panes) => outcome.warning is None && outcome.action == thaw_on_attach(panes),
                Err(e) => outcome.action is None && (outcome.warning matches Some(w) && w@
                    == unread_line(old(self).session(), e@)),
            },
    {
        self.set_has_clients(true, now);
        self.thaw_now(panes)
    }

    /// What a session calls for when a client attaches: to be thawed where any pane is frozen.
    pub fn thaw_now(&self, panes: Result<Option<FreezeSummary>, String>) -> (outcome: TickOutcome)
        ensures
            match panes {
                Ok(panes) => outcome.warning is None && outcome.action == thaw_on_attach(panes),
                Err(e) => outcome.action is None && (outcome.warning matches Some(w) && w@
                    == unread_line(self.session(), e@)),
            },
    {
        match panes {
            Ok(Some(panes)) => TickOutcome {
                action: if panes.frozen > 0 {
                    Some(false)
                } else {
                    None
                },
                warning: None,
            },
            Ok(None) => TickOutcome { action: None, warning: None },
            Err(e) => TickOutcome { action: None, warning: Some(self.write_unread(e.as_str())) },
        }
    }

    /// The line for the log where the state could not be read.
    fn write_unread(&self, e: &str) -> (line: String)
        ensures
            line@ == unread_line(self.session(), e@),
    {
        let mut line = "auto-freeze: could not read the freezer state of '".to_string();
        line.append(self.session_name.as_str());
        line.append("': ");
        line.append(e);
        line
    }

    /// One look at the session. `frozen` is `Ok(None)` where there is nothing to freeze, and an
    /// error where that could not be read.
    pub fn tick(
        &mut self,
        has_clients: Option<bool>,
        frozen: Result<Option<bool>, String>,
        now: Duration,
    ) -> (outcome: TickOutcome)
        ensures
            final(self).memory() == after_look(old(self).memory(), has_clients, now.nanoseconds()),
            final(self).watches_as(old(self)),
            match frozen {
                Ok(frozen) => outcome.warning is None && outcome.action == look(
                    old(self).memory(),
                    old(self).threshold_time().nanoseconds(),
                    has_clients,
                    frozen,
                    now.nanoseconds(),
                ),
                Err(e) => outcome.action is None && (outcome.warning matches Some(w) && w@
                    == unread_line(old(self).session(), e@)),
            },
    {
        // the mark has to be read before `clients_changed`, which may clear it
        let we_froze = self.froze_this_idle_period;
        self.clients_changed(has_clients, now);
        match frozen {
            Ok(Some(frozen)) => TickOutcome {
                action: decide(self.idle_for(now), frozen, we_froze, self.threshold),
                warning: None,
            },
            Ok(None) => TickOutcome { action: None, warning: None },
            Err(e) => TickOutcome { action: None, warning: Some(self.write_unread(e.as_str())) },
        }
    }

    /// Take note of what freezing (or thawing) came to.
    pub fn freeze(&mut self, frozen: bool, result: Result<Option<(usize, usize)>, String>) -> (
    report: FreezeReport)
        ensures
            final(self).watches_as(old(self)),
            match result {
                Ok(counts) => {
                    &&& final(self).memory() == after_freeze(old(self).memory(), frozen, counts)
                    &&& match counts {
                        Some((ok, failed)) => if ok == 0 && failed == 0 {
                            report.info is None && report.warning is None
                        } else {
                            &&& report.info matches Some(line)
                            &&& line@ == done_line(
                                old(self).session(),
                                old(self).threshold_time().seconds(),
                                frozen,
                                ok,
                            )
                            &&& text::optional_view(report.warning) == (if failed > 0 {
                                Some(failed_line(old(self).session(), frozen, failed))
                            } else {
                                None
                            })
                        },
                        None => report.info is None && report.warning is None,
                    }
                },
                Err(e) => {
                    &&& final(self).memory() == old(self).memory()
                    &&& report.info is None
                    &&& report.warning matches Some(line)
                    &&& line@ == error_line(old(self).session(), frozen, e@)
                },
            },
    {
        match result {
            Ok(Some((ok, failed))) => {
                if ok == 0 && failed == 0 {
                    return FreezeReport { info: None, warning: None };
                }
                self.froze_this_idle_period = frozen;
                let mut info = if frozen {
                    "auto-freeze: froze ".to_string()
                } else {
                    "auto-freeze: thawed ".to_string()
                };
                info.append(text::decimal(ok as u64).as_str());
                info.append(" pane(s) of '");
                info.append(self.session_name.as_str());
                if frozen {
                    info.append("' after ");
                    info.append(text::decimal(self.threshold.as_secs()).as_str());
                    info.append("s without an attached client; it will thaw when you attach");
                } else {
                    info.append("'");
                }
                let warning = if failed > 0 {
                    let mut line = "auto-freeze: ".to_string();
                    line.append(text::decimal(failed as u64).as_str());
                    line.append(" pane(s) of '");
                    line.append(self.session_name.as_str());
                    line.append("' could not be ");
                    line.append(
                        if frozen {
                            "frozen"
                        } else {
                            "thawed"
                        },
                    );
                    Some(line)
                } else {
                    None
                };
                FreezeReport { info: Some(info), warning }
            },
            Ok(None) => FreezeReport { info: None, warning: None },
            Err(e) => {
                let mut line = "auto-freeze: could not ".to_string();
                line.append(
                    if frozen {
                        "freeze"
                    } else {
                        "thaw"
                    },
                );
                line.append(" '");
                line.append(self.session_name.as_str());
                line.append("': ");
                line.append(e.as_str());
                FreezeReport { info: None, warning: Some(line) }
            },
        }
    }
}

// ---------------------------------------------------------------------------------------------
// laws
// ---------------------------------------------------------------------------------------------

/// Hearing a second time that nobody is attached does not restart the idle clock, and an attached
/// client stops it and clears the mark.
pub proof fn law_idle_clock(m: Memory, earlier: nat, later: nat)
    ensures
        after_clients(after_clients(m, false, earlier), false, later) == after_clients(
            m,
            false,
            earlier,
        ),
        idle_time(after_clients(m, true, later), later) is None,
        !after_clients(m, true, later).we_froze,
{
}

/// A session without panes that could be frozen is never touched.
pub proof fn law_without_groups_untouched(
    m: Memory,
    threshold: nat,
    has_clients: Option<bool>,
    now: nat,
    frozen: bool,
)
    ensures
        look(m, threshold, has_clients, None, now) is None,
        after_freeze(m, frozen, None) == m,
{
}

/// A look at a session to which nobody is attached: whether it is frozen, and the time.
pub struct DetachedLook {
    pub frozen: Option<bool>,
    pub now: nat,
}

/// What is remembered after a row of looks while nobody is attached.
pub open spec fn after_detached(m: Memory, looks: Seq<DetachedLook>) -> Memory
    decreases looks.len(),
{
    if looks.len() == 0 {
        m
    } else {
        after_look(after_detached(m, looks.drop_last()), Some(false), looks.last().now)
    }
}

/// Once we have frozen a session it is left alone for as long as nobody attaches, however often we
/// look and whatever others do to it: a session thawed by hand stays thawed.
pub proof fn law_no_second_freeze(
    m: Memory,
    threshold: nat,
    looks: Seq<DetachedLook>,
    next: DetachedLook,
)
    requires
        m.we_froze,
    ensures
        after_detached(m, looks).we_froze,
        look(after_detached(m, looks), threshold, Some(false), next.frozen, next.now) is None,
    decreases looks.len(),
{
    if looks.len() > 0 {
        law_no_second_freeze(m, threshold, looks.drop_last(), next);
    }
}

/// After a client has attached and gone again, a session that stays running is frozen once it has
/// been idle for the threshold, and not before.
pub proof fn law_freezes_again_after_attach(
    m: Memory,
    threshold: nat,
    attached: nat,
    left: nat,
    now: nat,
)
    requires
        left <= now,
    ensures
        look(
            after_clients(after_clients(m, true, attached), false, left),
            threshold,
            Some(false),
            Some(false),
            now,
        ) == (if now - left >= threshold {
            Some(true)
        } else {
            None
        }),
{
}

/// Attaching always thaws: one frozen pane is enough, however many others are running, and whoever
/// froze it.
pub proof fn law_attaching_always_thaws(
    states: Seq<Option<FreezeState>>,
    k: int,
    panes: FreezeSummary,
)
    requires
        0 <= k < states.len(),
        states[k] matches Some(state) && state.frozen,
        panes.frozen == cgroups::frozen_panes(states),
    ensures
        thaw_on_attach(Some(panes)) == Some(false),
    decreases states.len(),
{
    if k < states.len() - 1 {
        let front = states.drop_last();
        let fewer = FreezeSummary { frozen: cgroups::frozen_panes(front) as usize, ..panes };
        assert(front[k] == states[k]);
        law_attaching_always_thaws(front, k, fewer);
    }
}

/// At a look at a session all of whose panes are frozen while a client is attached: one frozen by
/// hand stays frozen; one that we froze is thawed, even if the attaching client was missed.
pub proof fn law_attached_session(m: Memory, threshold: nat, now: nat)
    ensures
        look(m, threshold, Some(true), Some(true), now) == (if m.we_froze {
            Some(false)
        } else {
            None
        }),
        look(m, threshold, Some(true), Some(false), now) is None,
{
}

/// While nobody is attached the clock runs from the first time that this was heard, and a mark is
/// neither set nor cleared; a look that cannot tell whether somebody is attached changes nothing.
pub proof fn law_clock_runs_from_the_first_absence(m: Memory, now: nat, passed: nat)
    ensures
        m.idle_since is None ==> idle_time(after_clients(m, false, now), now + passed) == Some(
            passed,
        ),
        m.idle_since matches Some(since) ==> (since <= now ==> idle_time(
            after_clients(m, false, now),
            now,
        ) == Some((now - since) as nat)),
        after_clients(m, false, now).we_froze == m.we_froze,
        idle_time(after_clients(m, true, now), now + passed) is None,
        after_look(m, None, now) == m,
        after_look(m, Some(true), now) == after_clients(m, true, now),
        after_look(m, Some(false), now) == after_clients(m, false, now),
{
}

/// That we froze a session is remembered as soon as a single pane was tried, whether or not it
/// worked, and thawing it takes the mark away; where there was nothing to try, nothing is
/// remembered. The clock is not touched.
pub proof fn law_freezing_is_remembered(m: Memory, frozen: bool, ok: usize, failed: usize)
    ensures
        ok > 0 || failed > 0 ==> after_freeze(m, frozen, Some((ok, failed))).we_froze == frozen,
        after_freeze(m, frozen, Some((0usize, 0usize))) == m,
        after_freeze(m, frozen, None) == m,
        after_freeze(m, frozen, Some((ok, failed))).idle_since == m.idle_since,
{
}

/// One look freezes a session exactly where nobody is attached, its panes are not all frozen, we
/// have not frozen it since the last client left, and that is the threshold ago; it thaws one
/// exactly where somebody is attached, all its panes are frozen and it was us who froze them. A
/// state that could not be read is warned of, and nothing is done.
pub proof fn law_look_does_what_is_due(
    supervisor: &mut AutoFreeze,
    has_clients: Option<bool>,
    frozen: Result<Option<bool>, String>,
    now: Duration,
    outcome: TickOutcome,
)
    requires
        call_ensures(AutoFreeze::tick, (supervisor, has_clients, frozen, now), outcome),
    ensures
        ({
            let before = old(supervisor).memory();
            let after = final(supervisor).memory();
            let time = now.nanoseconds();
            let threshold = old(supervisor).threshold_time().nanoseconds();
            let attached = has_clients == Some(true) || (has_clients is None
                && before.idle_since is None);
            let since = match before.idle_since {
                Some(since) => since,
                None => time,
            };
            let due = time >= since + threshold || threshold == 0;
            &&& outcome.action == Some(true) <==> !attached && (frozen matches Ok(Some(false)))
                && !before.we_froze && due
            &&& outcome.action == Some(false) <==> attached && (frozen matches Ok(Some(true)))
                && before.we_froze
            &&& outcome.warning is Some <==> frozen is Err
            &&& attached ==> after.idle_since is None
            &&& !attached ==> after.idle_since == Some(since)
            &&& after.we_froze == (before.we_froze && has_clients != Some(true))
            &&& final(supervisor).session() == old(supervisor).session()
            &&& final(supervisor).threshold_time() == old(supervisor).threshold_time()
        }),
{
}

/// A client that attaches has the session thawed exactly where a pane of it is frozen, and nothing
/// is ever frozen then; the clock stops and the mark is gone. A state that could not be read is
/// warned of.
pub proof fn law_attaching_thaws_and_forgets(
    supervisor: &mut AutoFreeze,
    panes: Result<Option<FreezeSummary>, String>,
    now: Duration,
    outcome: TickOutcome,
)
    requires
        call_ensures(AutoFreeze::on_attach, (supervisor, panes, now), outcome),
    ensures
        outcome.action == Some(false) <==> (panes matches Ok(Some(p)) && p.frozen > 0),
        outcome.action != Some(true),
        outcome.warning is Some <==> panes is Err,
        final(supervisor).memory().idle_since is None,
        !final(supervisor).memory().we_froze,
        final(supervisor).session() == old(supervisor).session(),
        final(supervisor).threshold_time() == old(supervisor).threshold_time(),
{
}

/// What freezing or thawing came to is told exactly where something was tried, and warned of
/// exactly where something failed; the mark then says what was tried.
pub proof fn law_what_was_tried_is_told(
    supervisor: &mut AutoFreeze,
    frozen: bool,
    result: Result<Option<(usize, usize)>, String>,
    report: FreezeReport,
)
    requires
        call_ensures(AutoFreeze::freeze, (supervisor, frozen, result), report),
    ensures
        ({
            let tried = result matches Ok(Some((ok, failed))) && (ok > 0 || failed > 0);
            &&& report.info is Some <==> tried
            &&& report.warning is Some <==> result is Err || (result matches Ok(Some((_, failed)))
                && failed > 0)
            &&& final(supervisor).memory().we_froze == (if tried {
                frozen
            } else {
                old(supervisor).memory().we_froze
            })
            &&& final(supervisor).memory().idle_since == old(supervisor).memory().idle_since
            &&& final(supervisor).session() == old(supervisor).session()
            &&& final(supervisor).threshold_time() == old(supervisor).threshold_time()
        }),
{
}

/// There is a supervisor exactly where there are control groups to freeze with, and it begins with
/// nothing remembered.
pub proof fn law_supervisor_needs_control_groups(
    has_cgroups: bool,
    session_name: String,
    threshold: Duration,
    r: (Option<AutoFreeze>, String),
)
    requires
        call_ensures(AutoFreeze::spawn, (has_cgroups, session_name, threshold), r),
    ensures
        r.0 is Some <==> has_cgroups,
        r.0 matches Some(supervisor) ==> supervisor.memory().idle_since is None
            && !supervisor.memory().we_froze && supervisor.session() == session_name@
            && supervisor.threshold_time() == threshold,
{
}

/// The lines for the log say which way it went: frozen or thawed, tried or failed.
pub proof fn law_log_tells_freezing_from_thawing(
    session: Seq<char>,
    secs: nat,
    n: usize,
    e: Seq<char>,
)
    ensures
        text::has_prefix(
            done_line(session, secs, true, n),
            "auto-freeze: froze "@ + text::dec(n as nat) + " pane(s) of '"@ + session + "' after "@
                + text::dec(secs) + "s"@,
        ),
        done_line(session, secs, false, n) == "auto-freeze: thawed "@ + text::dec(n as nat)
            + " pane(s) of '"@ + session + "'"@,
        text::has_suffix(failed_line(session, true, n), "frozen"@),
        text::has_suffix(failed_line(session, false, n), "thawed"@),
        error_line(session, true, e) == "auto-freeze: could not freeze '"@ + session + "': "@ + e,
        error_line(session, false, e) == "auto-freeze: could not thaw '"@ + session + "': "@ + e,
{
    reveal_strlit("s without an attached client; it will thaw when you attach");
    reveal_strlit("s");
    reveal_strlit("auto-freeze: could not ");
    reveal_strlit("freeze");
    reveal_strlit("thaw");
    reveal_strlit(" '");
    reveal_strlit("auto-freeze: could not freeze '");
    reveal_strlit("auto-freeze: could not thaw '");
    let told = "auto-freeze: froze "@ + text::dec(n as nat) + " pane(s) of '"@ + session
        + "' after "@ + text::dec(secs) + "s"@;
    let rest = "s without an attached client; it will thaw when you attach"@.skip(1);
    assert("s without an attached client; it will thaw when you attach"@ =~= "s"@ + rest);
    assert(done_line(session, secs, true, n) =~= told + rest);
    text::law_beginnings_and_ends(told + rest, told, rest);
    let failed = "auto-freeze: "@ + text::dec(n as nat) + " pane(s) of '"@ + session
        + "' could not be "@;
    text::law_beginnings_and_ends(failed, "frozen"@, failed);
    text::law_beginnings_and_ends(failed, "thawed"@, failed);
    assert("auto-freeze: could not "@ + "freeze"@ + " '"@ =~= "auto-freeze: could not freeze '"@);
    assert("auto-freeze: could not "@ + "thaw"@ + " '"@ =~= "auto-freeze: could not thaw '"@);
}

/// What one look calls for is decided by the idle time in nanoseconds, and it is at the threshold
/// itself that a session is frozen.
pub proof fn law_threshold_itself_is_enough(
    idle: Option<Duration>,
    frozen: bool,
    we_froze: bool,
    threshold: Duration,
    action: Option<bool>,
)
    requires
        call_ensures(decide, (idle, frozen, we_froze, threshold), action),
    ensures
        action == Some(true) <==> !frozen && !we_froze && (idle matches Some(idle)
            && idle.nanoseconds() >= threshold.nanoseconds()),
        action == Some(false) <==> frozen && we_froze && idle is None,
{
}

/// The supervisor is idle for the time since it first heard that nobody is attached, and not at all
/// while somebody is; hearing of clients changes its memory and nothing else of it.
pub proof fn law_supervisor_keeps_the_clock(
    supervisor: &mut AutoFreeze,
    has_clients: bool,
    at: Duration,
    now: Duration,
    idle: Option<Duration>,
    froze: bool,
)
    requires
        call_ensures(AutoFreeze::set_has_clients, (supervisor, has_clients, at), ()),
        call_ensures(AutoFreeze::idle_for, (&*final(supervisor), now), idle),
        call_ensures(AutoFreeze::we_froze, (&*final(supervisor),), froze),
    ensures
        has_clients ==> idle is None && !froze,
        !has_clients ==> idle is Some && froze == old(supervisor).memory().we_froze,
        !has_clients && old(supervisor).memory().idle_since is None && at.nanoseconds()
            <= now.nanoseconds() ==> at.nanoseconds() + idle->0.nanoseconds() == now.nanoseconds(),
        final(supervisor).session() == old(supervisor).session(),
        final(supervisor).threshold_time() == old(supervisor).threshold_time(),
{
}

/// A span is logged by its whole seconds, and a new supervisor remembers nothing.
pub proof fn law_new_supervisor_remembers_nothing(
    span: Duration,
    shown: String,
    session: String,
    threshold: Duration,
    supervisor: AutoFreeze,
)
    requires
        call_ensures(format_secs, (span,), shown),
        call_ensures(AutoFreeze::new, (session, threshold), supervisor),
    ensures
        shown@ == text::dec(span.nanoseconds() / 1_000_000_000) + "s"@,
        supervisor.memory().idle_since is None && !supervisor.memory().we_froze,
        supervisor.session() == session@ && supervisor.threshold_time() == threshold,
{
}

} // verus!
