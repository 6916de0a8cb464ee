//! `freeze` and `thaw`: pausing and resuming the panes of a session from the command line.
use crate::cgroups::FreezeState;
use crate::cgroups::PaneCgroups;
use crate::cgroups::PaneDir;
use crate::text;
use vstd::prelude::*;

verus! {

/// What a command prints and how it exits.
#[derive(Clone, Debug, PartialEq, Eq)]
pub struct Output {
    pub stdout: String,
    pub stderr: String,
    pub status: i32,
}

// ---------------------------------------------------------------------------------------------
// which session
// ---------------------------------------------------------------------------------------------

/// The sessions that are active.
#[derive(Clone, Debug, PartialEq, Eq)]
pub enum ActiveSession {
    NoSession,
    One(String),
    Many(Vec<String>),
}

/// What is known of the session to act on.
#[derive(Clone, Debug, PartialEq, Eq)]
pub enum SessionChoice {
    /// The user named one, which exists or not.
    Named { name: String, exists: bool },
    /// The user named none.
    Unnamed(ActiveSession),
}

/// The session that the user named: as an argument, else as an option, else by being in it.
pub fn requested_session(
    argument: Option<String>,
    option: Option<String>,
    environment: Option<String>,
) -> (name: Option<String>)
    ensures
        name == (if argument is Some {
            argument
        } else if option is Some {
            option
        } else {
            environment
        }),
{
    match argument {
        Some(name) => Some(name),
        None => match option {
            Some(name) => Some(name),
            None => environment,
        },
    }
}

/// The session to act on, or why there is none.
pub open spec fn resolved(choice: SessionChoice) -> Result<Seq<char>, Seq<char>> {
    match choice {
        SessionChoice::Named { name, exists } => if exists {
            Ok(name@)
        } else {
            Err("No active session named '"@ + name@ + "'"@)
        },
        SessionChoice::Unnamed(active) => match active {
            ActiveSession::NoSession => Err("There is no active session!"@),
            ActiveSession::One(name) => Ok(name@),
            ActiveSession::Many(names) => Err(
                "Several sessions are active, please name one: "@ + text::joined_with(
                    text::views(names@),
                    ", "@,
                ),
            ),
        },
    }
}

/// The view of a result of texts.
pub open spec fn text_result(r: Result<String, String>) -> Result<Seq<char>, Seq<char>> {
    match r {
        Ok(s) => Ok(s@),
        Err(s) => Err(s@),
    }
}

/// The session to act on: the one that the user named, if it exists, else the only active one.
pub fn resolve_session(choice: SessionChoice) -> (r: Result<String, String>)
    ensures
        text_result(r) == resolved(choice),
{
    match choice {
        SessionChoice::Named { name, exists } => {
            if exists {
                Ok(name)
            } else {
                let mut message = "No active session named '".to_string();
                message.append(name.as_str());
                message.append("'");
                Err(message)
            }
        },
        SessionChoice::Unnamed(active) => match active {
            ActiveSession::NoSession => Err("There is no active session!".to_string()),
            ActiveSession::One(name) => Ok(name),
            ActiveSession::Many(names) => {
                let mut message = "Several sessions are active, please name one: ".to_string();
                message.append(text::join_with(&names, ", ").as_str());
                Err(message)
            },
        },
    }
}

// ---------------------------------------------------------------------------------------------
// which panes
// ---------------------------------------------------------------------------------------------

/// The number in the id of a terminal pane: `terminal_<n>`, or `<n>` alone.
pub open spec fn terminal_id(pane: Seq<char>) -> Option<nat> {
    match text::after_prefix(pane, "terminal_"@) {
        Some(digits) => text::number_up_to(digits, u32::MAX as nat),
        None => text::number_up_to(pane, u32::MAX as nat),
    }
}

/// The number in the id of a terminal pane. Plugin panes run inside the server and have none.
pub fn parse_terminal_id(pane_id: &str) -> (id: Result<u32, String>)
    ensures
        match id {
            Ok(id) => terminal_id(pane_id@) == Some(id as nat),
            Err(message) => terminal_id(pane_id@) is None && message@ == "Invalid pane id '"@
                + pane_id@
                + "': expected terminal_<n> or a bare number (plugin panes cannot be frozen)"@,
        },
{
    let digits = match text::strip_prefix(pane_id, "terminal_") {
        Some(digits) => digits,
        None => pane_id,
    };
    match text::parse_u32(digits) {
        Some(id) => Ok(id),
        None => {
            let mut message = "Invalid pane id '".to_string();
            message.append(pane_id);
            message.append(
                "': expected terminal_<n> or a bare number (plugin panes cannot be frozen)",
            );
            Err(message)
        },
    }
}

/// The panes with this id.
pub open spec fn with_id(panes: Seq<PaneDir>, id: u32) -> Seq<PaneDir> {
    panes.filter(|p: PaneDir| p.id == id)
}

/// The panes with this id.
fn keep_id(panes: Vec<PaneDir>, id: u32) -> (kept: Vec<PaneDir>)
    ensures
        kept@ == with_id(panes@, id),
{
    let mut rest = panes;
    let mut kept: Vec<PaneDir> = Vec::new();
    let ghost all = rest@;
    let ghost mut done: int = 0;
    assert(all.skip(0) =~= all);
    proof {
        reveal(Seq::filter);
    }
    while rest.len() > 0
        invariant
            0 <= done <= all.len(),
            rest@ == all.skip(done),
            kept@ == with_id(all.take(done), id),
        decreases rest@.len(),
    {
        let pane = rest.remove(0);
        assert(rest@ =~= all.skip(done + 1));
        assert(all.take(done + 1).drop_last() =~= all.take(done));
        proof {
            reveal(Seq::filter);
        }
        if pane.id == id {
            kept.push(pane);
        }
        proof {
            done = done + 1;
        }
    }
    assert(all.take(done) =~= all);
    kept
}

/// What a run acts on.
#[derive(Clone, Debug, PartialEq, Eq)]
pub enum FreezePlan {
    /// There is nothing to act on; the text says so.
    Nothing(String),
    /// Show the state of these panes.
    Status(Vec<PaneDir>),
    /// Freeze or thaw these panes.
    Act(Vec<PaneDir>),
}

/// The groups of a session, or why it cannot be frozen.
pub fn require_tree(session: &str, lookup: Result<Option<PaneCgroups>, String>) -> (r: Result<
    PaneCgroups,
    String,
>)
    ensures
        match lookup {
            Ok(Some(tree)) => r == Ok::<PaneCgroups, String>(tree),
            Ok(None) => r matches Err(message) && message@ == "Session '"@ + session@
                + "' has no pane cgroups. Its server was started without cgroup v2 delegation (or by an older version), so it cannot be frozen."@,
            Err(e) => r matches Err(message) && message@ == "Could not look up the cgroups of '"@
                + session@ + "': "@ + e@,
        },
{
    match lookup {
        Ok(Some(tree)) => Ok(tree),
        Ok(None) => {
            let mut message = "Session '".to_string();
            message.append(session);
            message.append(
                "' has no pane cgroups. Its server was started without cgroup v2 delegation (or by an older version), so it cannot be frozen.",
            );
            Err(message)
        },
        Err(e) => {
            let mut message = "Could not look up the cgroups of '".to_string();
            message.append(session);
            message.append("': ");
            message.append(e.as_str());
            Err(message)
        },
    }
}

/// The panes of a session, or why they could not be listed.
pub fn require_panes(session: &str, panes: Result<Vec<PaneDir>, String>) -> (r: Result<
    Vec<PaneDir>,
    String,
>)
    ensures
        match panes {
            Ok(panes) => r == Ok::<Vec<PaneDir>, String>(panes),
            Err(e) => r matches Err(message) && message@ == "Could not list the panes of '"@
                + session@ + "': "@ + e@,
        },
{
    match panes {
        Ok(panes) => Ok(panes),
        Err(e) => {
            let mut message = "Could not list the panes of '".to_string();
            message.append(session);
            message.append("': ");
            message.append(e.as_str());
            Err(message)
        },
    }
}

/// What to act on: the panes of the session, or, where one is named, that one.
pub fn plan_run(
    session: &str,
    panes: Vec<PaneDir>,
    pane_id: &Option<String>,
    status: bool,
) -> (r: Result<FreezePlan, String>)
    ensures
        ({
            let selected = match *pane_id {
                Some(pane) => match terminal_id(pane@) {
                    Some(id) => with_id(panes@, id as u32),
                    None => seq![],
                },
                None => panes@,
            };
            match r {
                Ok(FreezePlan::Nothing(line)) => pane_id is None && panes@.len() == 0 && line@
                    == "Session '"@ + session@ + "' has no terminal panes to act on.\n"@,
                Ok(FreezePlan::Status(list)) => status && list@ == selected && list@.len() > 0,
                Ok(FreezePlan::Act(list)) => !status && list@ == selected && list@.len() > 0,
                Err(message) => {
                    &&& selected.len() == 0
                    &&& *pane_id matches Some(pane)
                    &&& match terminal_id(pane@) {
                        None => message@ == "Invalid pane id '"@ + pane@
                            + "': expected terminal_<n> or a bare number (plugin panes cannot be frozen)"@,
                        Some(id) => message@ == "Pane terminal_"@ + text::dec(id) + " of '"@
                            + session@
                            + "' has no cgroup (not a command/shell pane, or already gone)"@,
                    }
                },
            }
        }),
{
    let selected = match pane_id {
        Some(pane_id) => {
            let wanted: u32 = match parse_terminal_id(pane_id.as_str()) {
                Ok(id) => id,
                Err(message) => {
                    return Err(message);
                },
            };
            let found = keep_id(panes, wanted);
            if found.len() == 0 {
                let mut message = "Pane terminal_".to_string();
                message.append(text::decimal(wanted as u64).as_str());
                message.append(" of '");
                message.append(session);
                message.append("' has no cgroup (not a command/shell pane, or already gone)");
                return Err(message);
            }
            found
        },
        None => panes,
    };
    if selected.len() == 0 {
        let mut line = "Session '".to_string();
        line.append(session);
        line.append("' has no terminal panes to act on.\n");
        return Ok(FreezePlan::Nothing(line));
    }
    if status {
        Ok(FreezePlan::Status(selected))
    } else {
        Ok(FreezePlan::Act(selected))
    }
}

// ---------------------------------------------------------------------------------------------
// what is printed
// ---------------------------------------------------------------------------------------------

/// A pane and its state, or why that could not be read.
#[derive(Debug, PartialEq, Eq)]
pub struct PaneStatus {
    pub id: u32,
    pub state: Result<FreezeState, String>,
}

/// One line of the status table.
pub open spec fn status_line(pane: PaneStatus) -> Seq<char> {
    let name = "terminal_"@ + text::padded(text::dec(pane.id as nat), 3) + " "@;
    match pane.state {
        Ok(state) => name + text::padded(
            if state.frozen {
                "frozen"@
            } else {
                "running"@
            },
            8,
        ) + " "@ + (if state.populated {
            "yes\n"@
        } else {
            "no\n"@
        }),
        Err(e) => name + text::padded("?"@, 8) + " ("@ + e@ + ")\n"@,
    }
}

/// The status table.
pub open spec fn status_text(panes: Seq<PaneStatus>) -> Seq<char>
    decreases panes.len(),
{
    if panes.len() == 0 {
        text::padded("PANE"@, 12) + " "@ + text::padded("STATE"@, 8) + " POPULATED\n"@
    } else {
        status_text(panes.drop_last()) + status_line(panes.last())
    }
}

/// One line of the status table.
fn write_status_line(pane: &PaneStatus) -> (s: String)
    ensures
        s@ == status_line(*pane),
{
    let mut s = "terminal_".to_string();
    s.append(text::pad(text::decimal(pane.id as u64).as_str(), 3).as_str());
    s.append(" ");
    match &pane.state {
        Ok(state) => {
            s.append(
                text::pad(
                    if state.frozen {
                        "frozen"
                    } else {
                        "running"
                    },
                    8,
                ).as_str(),
            );
            s.append(" ");
            s.append(
                if state.populated {
                    "yes\n"
                } else {
                    "no\n"
                },
            );
        },
        Err(e) => {
            s.append(text::pad("?", 8).as_str());
            s.append(" (");
            s.append(e.as_str());
            s.append(")\n");
        },
    }
    s
}

/// The status table.
pub fn status_table(panes: &Vec<PaneStatus>) -> (s: String)
    ensures
        s@ == status_text(panes@),
{
    let mut s = text::pad("PANE", 12);
    s.append(" ");
    s.append(text::pad("STATE", 8).as_str());
    s.append(" POPULATED\n");
    let mut i: usize = 0;
    assert(panes@.take(0) =~= Seq::empty());
    while i < panes.len()
        invariant
            i <= panes@.len(),
            s@ == status_text(panes@.take(i as int)),
        decreases panes@.len() - i,
    {
        s.append(write_status_line(&panes[i]).as_str());
        assert(panes@.take(i + 1).drop_last() =~= panes@.take(i as int));
        i += 1;
    }
    assert(panes@.take(i as int) =~= panes@);
    s
}

/// A pane, and why it could not be frozen or thawed, if it could not.
#[derive(Clone, Debug, PartialEq, Eq)]
pub struct PaneResult {
    pub id: u32,
    pub error: Option<String>,
}

/// How many panes failed.
pub open spec fn failures(results: Seq<PaneResult>) -> nat
    decreases results.len(),
{
    if results.len() == 0 {
        0
    } else {
        failures(results.drop_last()) + if results.last().error is Some {
            1nat
        } else {
            0nat
        }
    }
}

/// One line for every pane that failed.
pub open spec fn failure_lines(results: Seq<PaneResult>) -> Seq<char>
    decreases results.len(),
{
    if results.len() == 0 {
        seq![]
    } else {
        let front = failure_lines(results.drop_last());
        match results.last().error {
            Some(e) => front + "terminal_"@ + text::dec(results.last().id as nat) + ": "@ + e@
                + "\n"@,
            None => front,
        }
    }
}

/// The verb of the summary.
pub open spec fn verb(freeze: bool) -> Seq<char> {
    if freeze {
        "Froze"@
    } else {
        "Thawed"@
    }
}

/// What a run prints to the standard output when nothing failed.
pub open spec fn success_text(
    session: Seq<char>,
    one_pane: bool,
    freeze: bool,
    total: nat,
) -> Seq<char> {
    let summary = verb(freeze) + " "@ + (if one_pane {
        "pane"@
    } else {
        "all "@ + text::dec(total) + " panes"@
    }) + " of session '"@ + session + "'.\n"@;
    if freeze {
        summary + "Thaw with: zellij thaw "@ + session + "\n"@
    } else {
        summary
    }
}

/// What a run prints last to the standard error when something failed.
pub open spec fn failure_text(session: Seq<char>, freeze: bool, total: nat, failed: nat) -> Seq<
    char,
> {
    verb(freeze) + " "@ + text::dec((total - failed) as nat) + " of "@ + text::dec(total)
        + " panes of session '"@ + session + "' ("@ + text::dec(failed) + " failed).\n"@
}

/// What a run prints once it has tried to freeze or thaw the panes.
pub fn report_run(session: &str, one_pane: bool, freeze: bool, results: &Vec<PaneResult>) -> (
output: Output)
    ensures
        failures(results@) == 0 ==> {
            &&& output.stdout@ == success_text(session@, one_pane, freeze, results@.len())
            &&& output.stderr@ == Seq::<char>::empty()
            &&& output.status == 0
        },
        failures(results@) > 0 ==> {
            &&& output.stdout@ == Seq::<char>::empty()
            &&& output.stderr@ == failure_lines(results@) + failure_text(
                session@,
                freeze,
                results@.len(),
                failures(results@),
            )
            &&& output.status == 1
        },
{
    let mut failed: usize = 0;
    let mut stderr = String::new();
    let mut i: usize = 0;
    while i < results.len()
        invariant
            i <= results@.len(),
            failed <= i,
            failed == failures(results@.take(i as int)),
            stderr@ == failure_lines(results@.take(i as int)),
            failed == 0 ==> stderr@.len() == 0,
        decreases results@.len() - i,
    {
        assert(results@.take(i + 1).drop_last() =~= results@.take(i as int));
        if let Some(e) = &results[i].error {
            failed += 1;
            stderr.append("terminal_");
            stderr.append(text::decimal(results[i].id as u64).as_str());
            stderr.append(": ");
            stderr.append(e.as_str());
            stderr.append("\n");
        }
        i += 1;
    }
    assert(results@.take(i as int) =~= results@);
    let mut summary = if freeze {
        "Froze".to_string()
    } else {
        "Thawed".to_string()
    };
    summary.append(" ");
    if failed == 0 {
        if one_pane {
            summary.append("pane");
        } else {
            let mut scope = "all ".to_string();
            scope.append(text::decimal(results.len() as u64).as_str());
            scope.append(" panes");
            summary.append(scope.as_str());
        }
        summary.append(" of session '");
        summary.append(session);
        summary.append("'.\n");
        if freeze {
            summary.append("Thaw with: zellij thaw ");
            summary.append(session);
            summary.append("\n");
        }
        Output { stdout: summary, stderr, status: 0 }
    } else {
        summary.append(text::decimal((results.len() - failed) as u64).as_str());
        summary.append(" of ");
        summary.append(text::decimal(results.len() as u64).as_str());
        summary.append(" panes of session '");
        summary.append(session);
        summary.append("' (");
        summary.append(text::decimal(failed as u64).as_str());
        summary.append(" failed).\n");
        stderr.append(summary.as_str());
        Output { stdout: String::new(), stderr, status: 1 }
    }
}

// ---------------------------------------------------------------------------------------------
// laws
// ---------------------------------------------------------------------------------------------

/// What the user names as an argument comes before what they name as an option, and that before the
/// session they are in. A session that is named is taken where it exists; without a name the only
/// active one is, and where there are none or several nothing is.
pub proof fn law_named_session_comes_first(
    argument: Option<String>,
    option: Option<String>,
    environment: Option<String>,
    name: Option<String>,
    choice: SessionChoice,
    r: Result<String, String>,
)
    requires
        call_ensures(requested_session, (argument, option, environment), name),
        call_ensures(resolve_session, (choice,), r),
    ensures
        argument is Some ==> name == argument,
        argument is None && option is Some ==> name == option,
        argument is None && option is None ==> name == environment,
        choice matches SessionChoice::Named { name, exists } ==> (r is Ok <==> exists) && (r matches Ok(
            s,
        ) ==> s@ == name@),
        choice matches SessionChoice::Unnamed(active) ==> (r is Ok <==> active is One) && (
        active matches ActiveSession::One(only) ==> r->Ok_0@ == only@),
{
}

/// A pane is named by its number, alone or after `terminal_`; what is neither, such as the name of
/// a plugin pane, is no terminal's.
pub proof fn law_panes_are_named_by_number(id: u32, rest: Seq<char>, name: Seq<char>)
    ensures
        terminal_id(text::dec(id as nat)) == Some(id as nat),
        terminal_id("terminal_"@ + text::dec(id as nat)) == Some(id as nat),
        terminal_id("terminal_"@ + rest) == text::number_up_to(rest, 0xffff_ffff),
        name.len() > 0 && name[0] != 't' && name[0] != '+' && !('0' <= name[0] <= '9')
            ==> terminal_id(name) is None,
        !text::has_prefix(name, "terminal_"@) ==> terminal_id(name) == text::number_up_to(
            name,
            0xffff_ffff,
        ),
{
    let digits = text::dec(id as nat);
    reveal_strlit("terminal_");
    text::lemma_dec_digits(id as nat);
    text::law_decimal_reads_back(id as nat);
    text::law_beginnings_and_ends(digits, "terminal_"@, digits);
    text::law_beginnings_and_ends(digits, "terminal_"@, rest);
    assert(text::is_digit(digits[0]));
    if text::has_prefix(digits, "terminal_"@) {
        assert(digits.take(9)[0] == 't');
    }
    if name.len() > 0 && text::has_prefix(name, "terminal_"@) {
        assert(name.take(9)[0] == 't');
    }
    if name.len() > 0 && name[0] != 't' && name[0] != '+' && !('0' <= name[0] <= '9') {
        assert(!text::is_digit(name[0]));
    }
}

/// Of several panes exactly those with the id asked for are kept, in order.
pub proof fn law_panes_are_kept_by_id(a: Seq<PaneDir>, b: Seq<PaneDir>, one: PaneDir, id: u32)
    ensures
        with_id(a + b, id) == with_id(a, id) + with_id(b, id),
        with_id(seq![one], id) == (if one.id == id {
            seq![one]
        } else {
            seq![]
        }),
{
    reveal(Seq::filter);
    Seq::filter_distributes_over_add(a, b, |p: PaneDir| p.id == id);
    let s = seq![one];
    assert(s.drop_last() =~= Seq::<PaneDir>::empty());
    assert(s.drop_last().filter(|p: PaneDir| p.id == id) =~= Seq::<PaneDir>::empty());
    assert(Seq::<PaneDir>::empty().push(one) =~= s);
}

/// All panes are acted on unless one is named, and then that one; they are only looked at where the
/// status is asked for. Naming a pane that is not there is an error, having none at all is not.
pub proof fn law_named_pane_is_acted_on(
    session: &str,
    panes: Vec<PaneDir>,
    pane_id: Option<String>,
    status: bool,
    r: Result<FreezePlan, String>,
)
    requires
        call_ensures(plan_run, (session, panes, &pane_id, status), r),
    ensures
        ({
            let wanted = match pane_id {
                Some(pane) => terminal_id(pane@),
                None => None,
            };
            let found = wanted is Some && with_id(panes@, wanted->0 as u32).len() > 0;
            &&& r is Err <==> pane_id is Some && !found
            &&& (r matches Ok(FreezePlan::Nothing(_))) <==> pane_id is None && panes@.len() == 0
            &&& (r matches Ok(FreezePlan::Status(list)) ==> status && list@ == (
            if pane_id is None {
                panes@
            } else {
                with_id(panes@, wanted->0 as u32)
            }))
            &&& (r matches Ok(FreezePlan::Act(list)) ==> !status && list@ == (if pane_id is None {
                panes@
            } else {
                with_id(panes@, wanted->0 as u32)
            }))
        }),
{
}

/// The table of panes has one line per pane, in order, after the header; a pane's line tells its
/// number, whether it is frozen and whether anything lives in it, or why that is not known.
pub proof fn law_every_pane_has_a_line(a: Seq<PaneStatus>, b: Seq<PaneStatus>, one: PaneStatus)
    ensures
        status_text(a + b) == status_text(a) + status_text(b).skip(
            status_text(seq![]).len() as int,
        ),
        ({
            let line = status_text(seq![one]).skip(status_text(seq![]).len() as int);
            let name = "terminal_"@ + text::padded(text::dec(one.id as nat), 3);
            &&& one.state matches Ok(state) ==> line == name + " "@ + text::padded(
                if state.frozen {
                    "frozen"@
                } else {
                    "running"@
                },
                8,
            ) + " "@ + (if state.populated {
                "yes\n"@
            } else {
                "no\n"@
            })
            &&& one.state matches Err(e) ==> line == name + " "@ + text::padded("?"@, 8) + " ("@ + e@
                + ")\n"@
        }),
    decreases b.len(),
{
    let header = status_text(seq![]);
    reveal_with_fuel(status_text, 2);
    assert(seq![one].drop_last() =~= Seq::<PaneStatus>::empty());
    assert(status_text(seq![one]).skip(header.len() as int) =~= status_line(one));
    if b.len() == 0 {
        assert(a + b =~= a);
        assert(b =~= Seq::<PaneStatus>::empty());
        assert(status_text(a) + header.skip(header.len() as int) =~= status_text(a));
    } else {
        let front = b.drop_last();
        law_every_pane_has_a_line(a, front, one);
        lemma_header_comes_first(front);
        assert((a + b).drop_last() =~= a + front);
        assert(status_text(b).skip(header.len() as int) =~= status_text(front).skip(
            header.len() as int,
        ) + status_line(b.last()));
        assert(status_text(a + b) =~= status_text(a) + status_text(b).skip(header.len() as int));
    }
}

proof fn lemma_header_comes_first(panes: Seq<PaneStatus>)
    ensures
        status_text(panes).len() >= status_text(seq![]).len(),
    decreases panes.len(),
{
    if panes.len() > 0 {
        lemma_header_comes_first(panes.drop_last());
    } else {
        assert(panes =~= Seq::<PaneStatus>::empty());
    }
}

/// Every pane that failed is counted once and has a line of its own, in order; a pane that did not
/// fail is not counted and has none.
pub proof fn law_failures_are_told_one_by_one(
    a: Seq<PaneResult>,
    b: Seq<PaneResult>,
    one: PaneResult,
)
    ensures
        failures(a + b) == failures(a) + failures(b),
        failure_lines(a + b) == failure_lines(a) + failure_lines(b),
        failures(a) <= a.len(),
        one.error is None ==> failures(seq![one]) == 0 && failure_lines(seq![one]).len() == 0,
        one.error matches Some(e) ==> failures(seq![one]) == 1 && failure_lines(seq![one])
            == "terminal_"@ + text::dec(one.id as nat) + ": "@ + e@ + "\n"@,
{
    lemma_failures_add_up(a, b);
    lemma_failures_add_up(a, a);
    reveal_with_fuel(failures, 2);
    reveal_with_fuel(failure_lines, 2);
    assert(seq![one].drop_last() =~= Seq::<PaneResult>::empty());
    if let Some(e) = one.error {
        assert(Seq::<char>::empty() + "terminal_"@ =~= "terminal_"@);
    }
}

proof fn lemma_failures_add_up(a: Seq<PaneResult>, b: Seq<PaneResult>)
    ensures
        failures(a + b) == failures(a) + failures(b),
        failure_lines(a + b) == failure_lines(a) + failure_lines(b),
        failures(b) <= b.len(),
    decreases b.len(),
{
    if b.len() == 0 {
        assert(a + b =~= a);
    } else {
        lemma_failures_add_up(a, b.drop_last());
        assert((a + b).drop_last() =~= a + b.drop_last());
        assert(failure_lines(a + b) =~= failure_lines(a) + failure_lines(b));
    }
}

/// A run succeeds exactly where no pane failed; it then says so on the standard output alone, and
/// else on the standard error alone.
pub proof fn law_one_failure_fails_the_run(
    session: &str,
    one_pane: bool,
    freeze: bool,
    results: Vec<PaneResult>,
    output: Output,
    i: int,
)
    requires
        call_ensures(report_run, (session, one_pane, freeze, &results), output),
    ensures
        output.status == 0 || output.status == 1,
        0 <= i < results@.len() && results@[i].error is Some ==> output.status == 1,
        output.status == 1 ==> exists|k: int| 0 <= k < results@.len()
            && (#[trigger] results@[k]).error is Some,
        output.status == 0 ==> output.stderr@.len() == 0,
        output.status == 1 ==> output.stdout@.len() == 0,
{
    lemma_failures_found(results@, i);
}

proof fn lemma_failures_found(results: Seq<PaneResult>, i: int)
    ensures
        0 <= i < results.len() && results[i].error is Some ==> failures(results) > 0,
        failures(results) > 0 ==> exists|k: int| 0 <= k < results.len()
            && (#[trigger] results[k]).error is Some,
    decreases results.len(),
{
    if results.len() > 0 {
        let front = results.drop_last();
        lemma_failures_found(front, i);
        if i < front.len() {
            assert(0 <= i ==> front[i] == results[i]);
        }
        if results.last().error is Some {
            assert(results[results.len() - 1].error is Some);
        } else if failures(results) > 0 {
            let k = choose|k: int| 0 <= k < front.len() && (#[trigger] front[k]).error is Some;
            assert(results[k] == front[k]);
        }
    }
}

/// What a run says tells what was done and to how many panes; how to thaw again is said exactly
/// where the session was frozen.
pub proof fn law_summary_tells_the_counts(
    session: Seq<char>,
    freeze: bool,
    total: nat,
    ok: nat,
    failed: nat,
)
    ensures
        success_text(session, true, false, total) == "Thawed pane of session '"@ + session
            + "'.\n"@,
        success_text(session, false, false, total) == "Thawed all "@ + text::dec(total)
            + " panes of session '"@ + session + "'.\n"@,
        success_text(session, true, true, total) == "Froze pane of session '"@ + session + "'.\n"@
            + "Thaw with: zellij thaw "@ + session + "\n"@,
        success_text(session, false, true, total) == "Froze all "@ + text::dec(total)
            + " panes of session '"@ + session + "'.\n"@ + "Thaw with: zellij thaw "@ + session
            + "\n"@,
        failure_text(session, freeze, ok + failed, failed) == (if freeze {
            "Froze "@
        } else {
            "Thawed "@
        }) + text::dec(ok) + " of "@ + text::dec(ok + failed) + " panes of session '"@ + session
            + "' ("@ + text::dec(failed) + " failed).\n"@,
{
    reveal_strlit("Froze");
    reveal_strlit("Thawed");
    reveal_strlit(" ");
    reveal_strlit("Froze ");
    reveal_strlit("Thawed ");
    reveal_strlit("pane");
    reveal_strlit("all ");
    reveal_strlit(" panes");
    reveal_strlit(" of session '");
    reveal_strlit("Thawed pane of session '");
    reveal_strlit("Froze pane of session '");
    reveal_strlit("Thawed all ");
    reveal_strlit("Froze all ");
    reveal_strlit(" panes of session '");
    assert("Froze"@ + " "@ =~= "Froze "@);
    assert("Thawed"@ + " "@ =~= "Thawed "@);
    assert("Thawed "@ + "pane"@ + " of session '"@ =~= "Thawed pane of session '"@);
    assert("Froze "@ + "pane"@ + " of session '"@ =~= "Froze pane of session '"@);
    assert(success_text(session, false, false, total) =~= "Thawed all "@ + text::dec(total)
        + " panes of session '"@ + session + "'.\n"@);
    assert(success_text(session, false, true, total) =~= "Froze all "@ + text::dec(total)
        + " panes of session '"@ + session + "'.\n"@ + "Thaw with: zellij thaw "@ + session
        + "\n"@);
}

/// Groups and panes that were found are handed on as they are, and what was not found is an error.
pub proof fn law_found_panes_are_handed_on(
    session: &str,
    lookup: Result<Option<PaneCgroups>, String>,
    tree: Result<PaneCgroups, String>,
    listed: Result<Vec<PaneDir>, String>,
    panes: Result<Vec<PaneDir>, String>,
    pane: &str,
    id: Result<u32, String>,
)
    requires
        call_ensures(require_tree, (session, lookup), tree),
        call_ensures(require_panes, (session, listed), panes),
        call_ensures(parse_terminal_id, (pane,), id),
    ensures
        tree is Ok <==> (lookup matches Ok(Some(_))),
        tree matches Ok(found) ==> lookup == Ok::<Option<PaneCgroups>, String>(Some(found)),
        panes is Ok <==> listed is Ok,
        panes matches Ok(found) ==> listed == Ok::<Vec<PaneDir>, String>(found),
        id is Ok <==> terminal_id(pane@) is Some,
        id matches Ok(n) ==> terminal_id(pane@) == Some(n as nat),
{
}

} // verus!
