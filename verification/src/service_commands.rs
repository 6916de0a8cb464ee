//! `service ...`: defining, running and looking at services from the command line.
use crate::cgroups::FreezeSummary;
use crate::command;
use crate::command::RestartPolicy;
use crate::ipv6;
use crate::ipv6::SocketAddrV6;
use crate::net;
use crate::net::NetExportFormat;
use crate::net::UlaPrefix;
use crate::path;
use crate::path::FileAnswer;
use crate::services;
use crate::services::ServiceDefinition;
use crate::text;
use crate::time::Duration;
use vstd::prelude::*;

verus! {

/// The escape sequence that makes what follows green.
pub const GREEN: &'static str = "\u{1b}[32m";

/// The escape sequence that makes what follows red.
pub const RED: &'static str = "\u{1b}[31m";

/// The escape sequence that makes what follows cyan.
pub const CYAN: &'static str = "\u{1b}[36m";

/// The escape sequence that ends a colour.
pub const RESET: &'static str = "\u{1b}[0m";

// ---------------------------------------------------------------------------------------------
// the table of services
// ---------------------------------------------------------------------------------------------

/// An address and a port as they are shown.
pub open spec fn socket_text(address: Seq<u8>, port: u16) -> Seq<char> {
    "["@ + ipv6::address_text(address) + "]:"@ + text::dec(port as nat)
}

/// The bytes of a service's address.
pub open spec fn address_bytes(prefix: UlaPrefix, service: ServiceDefinition) -> Seq<u8> {
    prefix.network() + net::interface_for(services::address_id_of(service.name@, service.id@))
}

/// Whether the address of a service can be derived.
pub open spec fn has_hashable_id(service: ServiceDefinition) -> bool {
    net::is_hashable(services::address_id_of(service.name@, service.id@))
}

/// Whether the addresses of all services can be derived.
pub open spec fn have_hashable_ids(list: Seq<ServiceDefinition>) -> bool {
    forall|i: int| 0 <= i < list.len() ==> has_hashable_id(#[trigger] list[i])
}

/// How a service is doing.
#[derive(Clone, Copy, Debug, PartialEq, Eq, Structural)]
pub enum ServiceStatus {
    Stopped,
    Running,
    /// It runs, and some of its panes are frozen.
    PartlyFrozen,
    /// It runs, and all of its panes are frozen.
    Frozen,
}

/// How a service is doing, given whether its session is there and how many of its panes are frozen,
/// as far as that is known.
pub fn service_status(running: bool, panes: Option<FreezeSummary>) -> (status: ServiceStatus)
    ensures
        status == (if !running {
            ServiceStatus::Stopped
        } else {
            match panes {
                Some(panes) => if panes.total > 0 && panes.frozen == panes.total {
                    ServiceStatus::Frozen
                } else if panes.frozen > 0 && panes.frozen < panes.total {
                    ServiceStatus::PartlyFrozen
                } else {
                    ServiceStatus::Running
                },
                None => ServiceStatus::Running,
            }
        }),
{
    if !running {
        return ServiceStatus::Stopped;
    }
    match panes {
        Some(panes) => {
            if panes.all_frozen() {
                ServiceStatus::Frozen
            } else if panes.partly_frozen() {
                ServiceStatus::PartlyFrozen
            } else {
                ServiceStatus::Running
            }
        },
        None => ServiceStatus::Running,
    }
}

/// The cell for the status.
pub open spec fn status_cell(status: ServiceStatus) -> Seq<char> {
    match status {
        ServiceStatus::Stopped => "stopped"@,
        ServiceStatus::Running => "running"@,
        ServiceStatus::PartlyFrozen => "partly frozen"@,
        ServiceStatus::Frozen => "frozen"@,
    }
}

/// The colour of a status.
pub open spec fn status_colour(status: ServiceStatus) -> Seq<char> {
    match status {
        ServiceStatus::Stopped => RED@,
        ServiceStatus::Running => GREEN@,
        ServiceStatus::PartlyFrozen => CYAN@,
        ServiceStatus::Frozen => CYAN@,
    }
}

impl ServiceStatus {
    /// The status as it is shown.
    pub fn as_str(&self) -> (s: &'static str)
        ensures
            s@ == status_cell(*self),
    {
        match self {
            ServiceStatus::Stopped => "stopped",
            ServiceStatus::Running => "running",
            ServiceStatus::PartlyFrozen => "partly frozen",
            ServiceStatus::Frozen => "frozen",
        }
    }

    /// The colour of the status.
    fn colour(&self) -> (s: &'static str)
        ensures
            s@ == status_colour(*self),
    {
        match self {
            ServiceStatus::Stopped => RED,
            ServiceStatus::Running => GREEN,
            ServiceStatus::PartlyFrozen => CYAN,
            ServiceStatus::Frozen => CYAN,
        }
    }
}

/// The cell for the address.
pub open spec fn address_cell(prefix: Option<UlaPrefix>, service: ServiceDefinition) -> Seq<char> {
    match prefix {
        Some(prefix) => if service.bind_ip {
            socket_text(address_bytes(prefix, service), net::SERVICE_PORT)
        } else {
            "-"@
        },
        None => "-"@,
    }
}

/// The cell for the working directory.
pub open spec fn cwd_cell(service: ServiceDefinition) -> Seq<char> {
    match service.cwd {
        Some(cwd) => cwd@,
        None => "-"@,
    }
}

/// The cell for the command.
pub open spec fn command_cell(service: ServiceDefinition) -> Seq<char> {
    text::joined_by(services::shown_words(text::views(service.command@)), ' ')
}

/// The columns of the table: one text per service.
pub struct Columns {
    pub names: Seq<Seq<char>>,
    pub statuses: Seq<Seq<char>>,
    pub restarts: Seq<Seq<char>>,
    pub addresses: Seq<Seq<char>>,
    pub cwds: Seq<Seq<char>>,
    pub commands: Seq<Seq<char>>,
}

/// The columns of the table.
pub open spec fn columns_of(
    prefix: Option<UlaPrefix>,
    list: Seq<ServiceDefinition>,
    statuses: Seq<ServiceStatus>,
) -> Columns {
    Columns {
        names: list.map_values(|s: ServiceDefinition| s.name@),
        statuses: statuses.map_values(|s: ServiceStatus| status_cell(s)),
        restarts: list.map_values(|s: ServiceDefinition| command::policy_name(s.restart)),
        addresses: list.map_values(|s: ServiceDefinition| address_cell(prefix, s)),
        cwds: list.map_values(|s: ServiceDefinition| cwd_cell(s)),
        commands: list.map_values(|s: ServiceDefinition| command_cell(s)),
    }
}

/// The width of a column: that of its widest cell, its header included.
pub open spec fn column_width(header: Seq<char>, cells: Seq<Seq<char>>) -> nat
    decreases cells.len(),
{
    if cells.len() == 0 {
        header.len()
    } else if cells.last().len() > column_width(header, cells.drop_last()) {
        cells.last().len()
    } else {
        column_width(header, cells.drop_last())
    }
}

/// The widths of the columns; the last one is not padded.
pub struct Widths {
    pub name: nat,
    pub status: nat,
    pub restart: nat,
    pub address: nat,
    pub cwd: nat,
}

/// The widths to which the columns are padded: plain text is not aligned.
pub open spec fn widths_of(c: Columns, plain: bool) -> Widths {
    if plain {
        Widths { name: 0, status: 0, restart: 0, address: 0, cwd: 0 }
    } else {
        Widths {
            name: column_width("NAME"@, c.names),
            status: column_width("STATUS"@, c.statuses),
            restart: column_width("RESTART"@, c.restarts),
            address: column_width("ADDRESS"@, c.addresses),
            cwd: column_width("CWD"@, c.cwds),
        }
    }
}

/// One line of the table, whose status is already padded.
pub open spec fn table_line(
    w: Widths,
    name: Seq<char>,
    padded_status: Seq<char>,
    restart: Seq<char>,
    address: Seq<char>,
    cwd: Seq<char>,
    command: Seq<char>,
) -> Seq<char> {
    text::padded(name, w.name) + "  "@ + padded_status + "  "@ + text::padded(restart, w.restart)
        + "  "@ + text::padded(address, w.address) + "  "@ + text::padded(cwd, w.cwd) + "  "@
        + command + "\n"@
}

/// The status, padded and, unless plain text is asked for, coloured.
pub open spec fn shown_status(status: ServiceStatus, width: nat, plain: bool) -> Seq<char> {
    let padded = text::padded(status_cell(status), width);
    if plain {
        padded
    } else {
        status_colour(status) + padded + RESET@
    }
}

/// The header of the table and its first `n` lines.
pub open spec fn table_text(
    c: Columns,
    statuses: Seq<ServiceStatus>,
    plain: bool,
    n: nat,
) -> Seq<char>
    decreases n,
{
    let w = widths_of(c, plain);
    if n == 0 {
        table_line(
            w,
            "NAME"@,
            text::padded("STATUS"@, w.status),
            "RESTART"@,
            "ADDRESS"@,
            "CWD"@,
            "COMMAND"@,
        )
    } else {
        let i = n - 1;
        table_text(c, statuses, plain, i as nat) + table_line(
            w,
            c.names[i],
            shown_status(statuses[i], w.status, plain),
            c.restarts[i],
            c.addresses[i],
            c.cwds[i],
            c.commands[i],
        )
    }
}

/// What is printed where there are no services.
pub const NO_SERVICES: &'static str = "No services defined. Add one with: zellij service add --name <name> -- <command>\n";

/// The width of a column.
fn width(header: &str, cells: &Vec<String>) -> (w: usize)
    ensures
        w == column_width(header@, text::views(cells@)),
{
    let ghost v = text::views(cells@);
    let mut w: usize = header.unicode_len();
    let mut i: usize = 0;
    while i < cells.len()
        invariant
            i <= cells@.len(),
            v == text::views(cells@),
            w == column_width(header@, v.take(i as int)),
        decreases cells@.len() - i,
    {
        let len: usize = cells[i].as_str().unicode_len();
        assert(v.take(i + 1).drop_last() =~= v.take(i as int));
        if len > w {
            w = len;
        }
        i += 1;
    }
    assert(v.take(i as int) =~= v);
    w
}

/// The cell for the address.
fn write_address_cell(prefix: &Option<UlaPrefix>, service: &ServiceDefinition) -> (s: String)
    requires
        has_hashable_id(*service),
    ensures
        s@ == address_cell(*prefix, *service),
{
    match prefix {
        Some(prefix) => match net::bind_address_for(prefix, service) {
            Some(address) => write_socket(&address),
            None => "-".to_string(),
        },
        None => "-".to_string(),
    }
}

/// An address and a port as they are shown.
fn write_socket(address: &SocketAddrV6) -> (s: String)
    ensures
        s@ == socket_text(address.address().bytes(), address.port_number()),
{
    let mut s = "[".to_string();
    s.append(address.ip().to_string().as_str());
    s.append("]:");
    s.append(text::decimal(address.port() as u64).as_str());
    s
}

/// One line of the table.
fn write_line(
    widths: (usize, usize, usize, usize),
    name: &str,
    padded_status: &str,
    restart: &str,
    address: &str,
    cwd: &str,
    command: &str,
    Ghost(w): Ghost<Widths>,
) -> (s: String)
    requires
        w.name == widths.0,
        w.restart == widths.1,
        w.address == widths.2,
        w.cwd == widths.3,
    ensures
        s@ == table_line(w, name@, padded_status@, restart@, address@, cwd@, command@),
{
    let mut s = text::pad(name, widths.0);
    s.append("  ");
    s.append(padded_status);
    s.append("  ");
    s.append(text::pad(restart, widths.1).as_str());
    s.append("  ");
    s.append(text::pad(address, widths.2).as_str());
    s.append("  ");
    s.append(text::pad(cwd, widths.3).as_str());
    s.append("  ");
    s.append(command);
    s.append("\n");
    s
}

/// The status, padded and, unless plain text is asked for, coloured.
fn write_status(status: ServiceStatus, width: usize, plain: bool) -> (s: String)
    ensures
        s@ == shown_status(status, width as nat, plain),
{
    let padded = text::pad(status.as_str(), width);
    if plain {
        return padded;
    }
    let mut s = status.colour().to_string();
    s.append(padded.as_str());
    s.append(RESET);
    s
}

/// What `service list` prints: a table of the services, of which `statuses` says how each one is
/// doing. Its columns are aligned, by the width of the plain text, and the status is coloured,
/// unless no formatting is asked for.
pub fn list_services(
    prefix: &Option<UlaPrefix>,
    list: &Vec<ServiceDefinition>,
    statuses: &Vec<ServiceStatus>,
    no_formatting: bool,
) -> (s: String)
    requires
        statuses@.len() == list@.len(),
        have_hashable_ids(list@),
    ensures
        s@ == (if list@.len() == 0 {
            NO_SERVICES@
        } else {
            table_text(
                columns_of(*prefix, list@, statuses@),
                statuses@,
                no_formatting,
                list@.len(),
            )
        }),
{
    if list.len() == 0 {
        return NO_SERVICES.to_string();
    }
    let ghost c = columns_of(*prefix, list@, statuses@);
    let mut names: Vec<String> = Vec::new();
    let mut states: Vec<String> = Vec::new();
    let mut restarts: Vec<String> = Vec::new();
    let mut addresses: Vec<String> = Vec::new();
    let mut cwds: Vec<String> = Vec::new();
    let mut commands: Vec<String> = Vec::new();
    let mut i: usize = 0;
    while i < list.len()
        invariant
            i <= list@.len(),
            statuses@.len() == list@.len(),
            have_hashable_ids(list@),
            c == columns_of(*prefix, list@, statuses@),
            text::views(names@) == c.names.take(i as int),
            text::views(states@) == c.statuses.take(i as int),
            text::views(restarts@) == c.restarts.take(i as int),
            text::views(addresses@) == c.addresses.take(i as int),
            text::views(cwds@) == c.cwds.take(i as int),
            text::views(commands@) == c.commands.take(i as int),
        decreases list@.len() - i,
    {
        let service = &list[i];
        assert(has_hashable_id(list@[i as int]));
        let name = service.name.clone();
        let state = statuses[i].as_str().to_string();
        let restart = service.restart.to_string();
        let address = write_address_cell(prefix, service);
        let cwd = match &service.cwd {
            Some(cwd) => cwd.clone(),
            None => "-".to_string(),
        };
        let command = service.command_display();
        proof {
            let k = i as int;
            text::lemma_views_grow(names@, name, c.names, k);
            text::lemma_views_grow(states@, state, c.statuses, k);
            text::lemma_views_grow(restarts@, restart, c.restarts, k);
            text::lemma_views_grow(addresses@, address, c.addresses, k);
            text::lemma_views_grow(cwds@, cwd, c.cwds, k);
            text::lemma_views_grow(commands@, command, c.commands, k);
        }
        names.push(name);
        states.push(state);
        restarts.push(restart);
        addresses.push(address);
        cwds.push(cwd);
        commands.push(command);
        i += 1;
    }
    assert(text::views(names@) =~= c.names);
    assert(text::views(states@) =~= c.statuses);
    assert(text::views(restarts@) =~= c.restarts);
    assert(text::views(addresses@) =~= c.addresses);
    assert(text::views(cwds@) =~= c.cwds);
    assert(text::views(commands@) =~= c.commands);
    let ghost w = widths_of(c, no_formatting);
    let (status_w, widths): (usize, (usize, usize, usize, usize)) = if no_formatting {
        (0, (0, 0, 0, 0))
    } else {
        (
            width("STATUS", &states),
            (
                width("NAME", &names),
                width("RESTART", &restarts),
                width("ADDRESS", &addresses),
                width("CWD", &cwds),
            ),
        )
    };
    let mut s = write_line(
        widths,
        "NAME",
        text::pad("STATUS", status_w).as_str(),
        "RESTART",
        "ADDRESS",
        "CWD",
        "COMMAND",
        Ghost(w),
    );
    let mut i: usize = 0;
    while i < list.len()
        invariant
            i <= list@.len(),
            statuses@.len() == list@.len(),
            c == columns_of(*prefix, list@, statuses@),
            text::views(names@) == c.names,
            text::views(restarts@) == c.restarts,
            text::views(addresses@) == c.addresses,
            text::views(cwds@) == c.cwds,
            text::views(commands@) == c.commands,
            names@.len() == list@.len(),
            restarts@.len() == list@.len(),
            addresses@.len() == list@.len(),
            cwds@.len() == list@.len(),
            commands@.len() == list@.len(),
            w == widths_of(c, no_formatting),
            w.name == widths.0,
            w.restart == widths.1,
            w.address == widths.2,
            w.cwd == widths.3,
            w.status == status_w,
            s@ == table_text(c, statuses@, no_formatting, i as nat),
        decreases list@.len() - i,
    {
        let status = write_status(statuses[i], status_w, no_formatting);
        let line = write_line(
            widths,
            names[i].as_str(),
            status.as_str(),
            restarts[i].as_str(),
            addresses[i].as_str(),
            cwds[i].as_str(),
            commands[i].as_str(),
            Ghost(w),
        );
        assert(c.names[i as int] == names@[i as int]@);
        assert(c.restarts[i as int] == restarts@[i as int]@);
        assert(c.addresses[i as int] == addresses@[i as int]@);
        assert(c.cwds[i as int] == cwds@[i as int]@);
        assert(c.commands[i as int] == commands@[i as int]@);
        s.append(line.as_str());
        i += 1;
    }
    s
}

/// Every cell of a column, and its header, fits the column's width, and one of them fills it; so
/// the columns of all lines begin at the same place.
pub proof fn law_column_width_is_tight(header: Seq<char>, cells: Seq<Seq<char>>)
    ensures
        header.len() <= column_width(header, cells),
        forall|i: int|
            0 <= i < cells.len() ==> (#[trigger] cells[i]).len() <= column_width(header, cells),
        column_width(header, cells) == header.len() || exists|i: int|
            0 <= i < cells.len() && (#[trigger] cells[i]).len() == column_width(header, cells),
    decreases cells.len(),
{
    if cells.len() > 0 {
        let front = cells.drop_last();
        law_column_width_is_tight(header, front);
        assert forall|i: int| 0 <= i < cells.len() implies (#[trigger] cells[i]).len()
            <= column_width(header, cells) by {
            if i < front.len() {
                assert(front[i] == cells[i]);
            }
        }
        if column_width(header, cells) == cells.last().len() {
            assert(cells[cells.len() - 1].len() == column_width(header, cells));
        } else if column_width(header, front) != header.len() {
            let i = choose|i: int|
                0 <= i < front.len() && (#[trigger] front[i]).len() == column_width(header, front);
            assert(cells[i] == front[i]);
        }
    }
}

/// A service whose session is not there is stopped, whatever is known of its panes. Of one that
/// runs, all panes are frozen, or some but not all, or none; with no panes to speak of it just
/// runs.
pub proof fn law_status_follows_the_panes(
    running: bool,
    panes: Option<FreezeSummary>,
    status: ServiceStatus,
)
    requires
        call_ensures(service_status, (running, panes), status),
    ensures
        status is Stopped <==> !running,
        status is Frozen <==> running && (panes matches Some(p) && 0 < p.frozen && p.frozen
            == p.total),
        status is PartlyFrozen <==> running && (panes matches Some(p) && 0 < p.frozen < p.total),
        panes is None && running ==> status is Running,
{
}

/// Two statuses are shown alike only where they are the same; red is for what is stopped, green for
/// what runs freely.
pub proof fn law_statuses_look_different(a: ServiceStatus, b: ServiceStatus)
    ensures
        status_cell(a) == status_cell(b) ==> a == b,
        status_colour(a) == RED@ <==> a is Stopped,
        status_colour(a) == GREEN@ <==> a is Running,
        status_colour(a) == CYAN@ <==> a is Frozen || a is PartlyFrozen,
{
    reveal_strlit("stopped");
    reveal_strlit("running");
    reveal_strlit("partly frozen");
    reveal_strlit("frozen");
    reveal_strlit("\u{1b}[31m");
    reveal_strlit("\u{1b}[32m");
    reveal_strlit("\u{1b}[36m");
    assert("stopped"@[0] == 's' && "running"@[0] == 'r' && "partly frozen"@[0] == 'p'
        && "frozen"@[0] == 'f');
    assert(RED@[3] == '1' && GREEN@[3] == '2' && CYAN@[3] == '6');
}

/// A service's address is shown exactly where it has one of its own and the prefix is known, and
/// then with the port that all services share.
pub proof fn law_own_addresses_are_shown(
    prefix: UlaPrefix,
    service: ServiceDefinition,
    other: ServiceDefinition,
)
    ensures
        address_cell(None, service) == "-"@,
        !service.bind_ip ==> address_cell(Some(prefix), service) == "-"@,
        service.bind_ip ==> address_cell(Some(prefix), service) == "["@ + ipv6::address_text(
            prefix.network() + net::interface_for(
                services::address_id_of(service.name@, service.id@),
            ),
        ) + "]:"@ + text::dec(8080),
        service.bind_ip && other.bind_ip && service.id@.len() > 0 && service.id@ == other.id@
            ==> address_cell(Some(prefix), service) == address_cell(Some(prefix), other),
{
}

/// Without formatting a service's line is its cells with two blanks between each two, in the order
/// of the header, and no line but its own; the lines come in the order of the list.
pub proof fn law_every_service_has_its_line(
    prefix: Option<UlaPrefix>,
    list: Seq<ServiceDefinition>,
    statuses: Seq<ServiceStatus>,
    i: nat,
)
    requires
        i < list.len(),
        statuses.len() == list.len(),
    ensures
        ({
            let c = columns_of(prefix, list, statuses);
            let one = list[i as int];
            &&& table_text(c, statuses, true, i + 1) == table_text(c, statuses, true, i)
                + one.name@ + "  "@ + status_cell(statuses[i as int]) + "  "@
                + command::policy_name(one.restart) + "  "@ + address_cell(prefix, one) + "  "@
                + (match one.cwd {
                Some(cwd) => cwd@,
                None => "-"@,
            }) + "  "@ + text::joined_by(
                services::shown_words(text::views(one.command@)),
                ' ',
            ) + "\n"@
            &&& table_text(c, statuses, true, 0) == "NAME"@ + "  "@ + "STATUS"@ + "  "@ + "RESTART"@
                + "  "@ + "ADDRESS"@ + "  "@ + "CWD"@ + "  "@ + "COMMAND"@ + "\n"@
        }),
{
    let c = columns_of(prefix, list, statuses);
    let one = list[i as int];
    lemma_line_follows(
        table_text(c, statuses, true, i),
        widths_of(c, true),
        one.name@,
        status_cell(statuses[i as int]),
        command::policy_name(one.restart),
        address_cell(prefix, one),
        cwd_cell(one),
        command_cell(one),
    );
}

proof fn lemma_parts_follow(a: Seq<char>, b: Seq<char>, c: Seq<char>)
    ensures
        a + (b + c) == a + b + c,
{
    assert(a + (b + c) =~= a + b + c);
}

proof fn lemma_line_follows(
    before: Seq<char>,
    w: Widths,
    name: Seq<char>,
    padded_status: Seq<char>,
    restart: Seq<char>,
    address: Seq<char>,
    cwd: Seq<char>,
    command: Seq<char>,
)
    ensures
        before + table_line(w, name, padded_status, restart, address, cwd, command) == before
            + text::padded(name, w.name) + "  "@ + padded_status + "  "@ + text::padded(
            restart,
            w.restart,
        ) + "  "@ + text::padded(address, w.address) + "  "@ + text::padded(cwd, w.cwd) + "  "@
            + command + "\n"@,
{
    let a = text::padded(name, w.name);
    let b = a + "  "@;
    let c = b + padded_status;
    let d = c + "  "@;
    let e = d + text::padded(restart, w.restart);
    let f = e + "  "@;
    let g = f + text::padded(address, w.address);
    let h = g + "  "@;
    let i = h + text::padded(cwd, w.cwd);
    let j = i + "  "@;
    let k = j + command;
    lemma_parts_follow(before, a, "  "@);
    lemma_parts_follow(before, b, padded_status);
    lemma_parts_follow(before, c, "  "@);
    lemma_parts_follow(before, d, text::padded(restart, w.restart));
    lemma_parts_follow(before, e, "  "@);
    lemma_parts_follow(before, f, text::padded(address, w.address));
    lemma_parts_follow(before, g, "  "@);
    lemma_parts_follow(before, h, text::padded(cwd, w.cwd));
    lemma_parts_follow(before, i, "  "@);
    lemma_parts_follow(before, j, command);
    lemma_parts_follow(before, k, "\n"@);
}

/// With formatting every cell of a column is as wide as the column, its header too, and a status
/// stands between its colour and the end of the colour, which do not count.
pub proof fn law_columns_are_aligned(c: Columns, i: int, status: ServiceStatus)
    ensures
        ({
            let w = widths_of(c, false);
            &&& text::padded("NAME"@, w.name).len() == w.name
            &&& text::padded("STATUS"@, w.status).len() == w.status
            &&& text::padded("RESTART"@, w.restart).len() == w.restart
            &&& text::padded("ADDRESS"@, w.address).len() == w.address
            &&& text::padded("CWD"@, w.cwd).len() == w.cwd
            &&& 0 <= i < c.names.len() ==> text::padded(c.names[i], w.name).len() == w.name
            &&& 0 <= i < c.restarts.len() ==> text::padded(c.restarts[i], w.restart).len()
                == w.restart
            &&& 0 <= i < c.addresses.len() ==> text::padded(c.addresses[i], w.address).len()
                == w.address
            &&& 0 <= i < c.cwds.len() ==> text::padded(c.cwds[i], w.cwd).len() == w.cwd
            &&& 0 <= i < c.statuses.len() ==> text::padded(c.statuses[i], w.status).len()
                == w.status
            &&& shown_status(status, w.status, false) == status_colour(status) + shown_status(
                status,
                w.status,
                true,
            ) + RESET@
            &&& shown_status(status, w.status, true) == text::padded(status_cell(status), w.status)
        }),
{
    law_column_width_is_tight("NAME"@, c.names);
    law_column_width_is_tight("STATUS"@, c.statuses);
    law_column_width_is_tight("RESTART"@, c.restarts);
    law_column_width_is_tight("ADDRESS"@, c.addresses);
    law_column_width_is_tight("CWD"@, c.cwds);
    let w = widths_of(c, false);
    text::law_padding_fills_the_width("NAME"@, w.name, 0);
    text::law_padding_fills_the_width("STATUS"@, w.status, 0);
    text::law_padding_fills_the_width("RESTART"@, w.restart, 0);
    text::law_padding_fills_the_width("ADDRESS"@, w.address, 0);
    text::law_padding_fills_the_width("CWD"@, w.cwd, 0);
}

// ---------------------------------------------------------------------------------------------
// looking up a service
// ---------------------------------------------------------------------------------------------

/// The config directory: the one that the user named, else the default one.
pub fn choose_config_dir(named: Option<String>, default: Option<String>) -> (r: Result<
    String,
    String,
>)
    ensures
        match (named, default) {
            (Some(dir), _) => r == Ok::<String, String>(dir),
            (None, Some(dir)) => r == Ok::<String, String>(dir),
            (None, None) => r matches Err(message) && message@
                == "Could not determine the Zellij config directory; pass --config-dir explicitly"@,
        },
{
    match named {
        Some(dir) => Ok(dir),
        None => match default {
            Some(dir) => Ok(dir),
            None => Err(
                "Could not determine the Zellij config directory; pass --config-dir explicitly".to_string(),
            ),
        },
    }
}

/// Refuse a name that no service can have.
pub fn require_valid_name(name: &str) -> (r: Result<(), String>)
    ensures
        match r {
            Ok(_) => services::is_service_name(name@),
            Err(message) => {
                &&& services::name_error(name@) matches Some(e)
                &&& message@ == "Invalid service name: "@ + services::name_error_text(
                    e,
                    services::shown_in_error(e),
                )
            },
        },
{
    match services::validate_service_name(name) {
        Ok(_) => Ok(()),
        Err(e) => {
            let mut message = "Invalid service name: ".to_string();
            message.append(e.as_str());
            Err(message)
        },
    }
}

/// The definition of a service, or why there is none, given what reading it came to.
pub fn load_or_fail(name: &str, read: Result<Option<ServiceDefinition>, String>) -> (r: Result<
    ServiceDefinition,
    String,
>)
    ensures
        match services::name_error(name@) {
            Some(e) => r matches Err(message) && message@ == "Invalid service name: "@
                + services::name_error_text(e, services::shown_in_error(e)),
            None => match read {
                Ok(Some(service)) => r == Ok::<ServiceDefinition, String>(service),
                Ok(None) => r matches Err(message) && message@ == "No service named '"@ + name@
                    + "'. Define one with: zellij service add --name "@ + name@
                    + " -- <command>"@,
                Err(e) => r matches Err(message) && message@
                    == "Could not read the definition of '"@ + name@ + "': "@ + e@,
            },
        },
{
    proof {
        services::law_name_rule(name@);
    }
    match require_valid_name(name) {
        Err(message) => {
            return Err(message);
        },
        Ok(_) => {},
    }
    match read {
        Ok(Some(service)) => Ok(service),
        Ok(None) => {
            let mut message = "No service named '".to_string();
            message.append(name);
            message.append("'. Define one with: zellij service add --name ");
            message.append(name);
            message.append(" -- <command>");
            Err(message)
        },
        Err(e) => {
            let mut message = "Could not read the definition of '".to_string();
            message.append(name);
            message.append("': ");
            message.append(e.as_str());
            Err(message)
        },
    }
}

/// What is said where a service has to run and does not.
pub open spec fn not_running_text(name: Seq<char>) -> Seq<char> {
    "Service '"@ + name + "' is not running; start it with: zellij service start "@ + name
}

/// Refuse to go on with a service that does not run.
pub fn require_running(name: &str, running: bool) -> (r: Result<(), String>)
    ensures
        match r {
            Ok(_) => running,
            Err(message) => !running && message@ == not_running_text(name@),
        },
{
    if running {
        return Ok(());
    }
    let mut message = "Service '".to_string();
    message.append(name);
    message.append("' is not running; start it with: zellij service start ");
    message.append(name);
    Err(message)
}

/// A warning about the saved layout of a session, where it could not be removed. A layout that is not
/// there is no reason to warn.
pub fn cache_warning(session: &str, answer: FileAnswer<(), String>) -> (warning: Option<String>)
    ensures
        text::optional_view(warning) == (match answer {
            FileAnswer::Failed(e) => Some(
                "Warning: could not clear the saved layout of session '"@ + session@ + "': "@ + e@,
            ),
            _ => None,
        }),
{
    match path::removal(answer) {
        Err(e) => {
            let mut s = "Warning: could not clear the saved layout of session '".to_string();
            s.append(session);
            s.append("': ");
            s.append(e.as_str());
            Some(s)
        },
        Ok(_) => None,
    }
}

/// The directory that the user names is taken, whatever the default; without either there is none.
pub proof fn law_named_directory_is_taken(
    named: Option<String>,
    default: Option<String>,
    r: Result<String, String>,
)
    requires
        call_ensures(choose_config_dir, (named, default), r),
    ensures
        named matches Some(dir) ==> r == Ok::<String, String>(dir),
        named is None ==> (default matches Some(dir) ==> r == Ok::<String, String>(dir)),
        r is Err <==> named is None && default is None,
{
}

/// A definition is handed out exactly where the name is one that a service can have and its
/// definition was read, and then it is the one that was read.
pub proof fn law_definition_is_the_one_that_was_read(
    name: &str,
    read: Result<Option<ServiceDefinition>, String>,
    r: Result<ServiceDefinition, String>,
    valid: Result<(), String>,
)
    requires
        call_ensures(load_or_fail, (name, read), r),
        call_ensures(require_valid_name, (name,), valid),
    ensures
        valid is Ok <==> services::is_service_name(name@),
        r is Ok <==> services::is_service_name(name@) && (read matches Ok(Some(_))),
        r matches Ok(service) ==> read == Ok::<Option<ServiceDefinition>, String>(Some(service)),
{
    services::law_name_rule(name@);
}

/// A saved layout that is not there, or that was removed, is no reason to warn; that it could not
/// be removed is.
pub proof fn law_only_a_failure_is_warned_of(
    session: &str,
    answer: FileAnswer<(), String>,
    warning: Option<String>,
)
    requires
        call_ensures(cache_warning, (session, answer), warning),
    ensures
        warning is Some <==> answer is Failed,
{
}

// ---------------------------------------------------------------------------------------------
// the address of a service in its environment
// ---------------------------------------------------------------------------------------------

/// An environment variable.
#[derive(Clone, Debug, PartialEq, Eq)]
pub struct EnvVar {
    pub name: String,
    pub value: String,
}

/// The names and values of environment variables.
pub open spec fn env_views(vars: Seq<EnvVar>) -> Seq<(Seq<char>, Seq<char>)> {
    vars.map_values(|v: EnvVar| (v.name@, v.value@))
}

/// An environment variable.
fn env_var(name: &str, value: String) -> (v: EnvVar)
    ensures
        v.name@ == name@,
        v.value == value,
{
    EnvVar { name: name.to_string(), value }
}

/// What tells a service of its address.
#[derive(Clone, Debug)]
pub struct BindEnv {
    pub address: SocketAddrV6,
    pub vars: Vec<EnvVar>,
    /// What to warn of where the prefix is not routed to this machine.
    pub unrouted_warning: String,
}

/// The warning where the prefix is not routed to this machine.
pub open spec fn unrouted_text(prefix: UlaPrefix, name: Seq<char>, address: Seq<u8>) -> Seq<char> {
    "Warning: "@ + prefix.text() + " is not routed on this machine yet, so service '"@ + name
        + "' cannot bind "@ + ipv6::address_text(address) + ".\n"@ + net::SETUP_INTRO@
        + prefix.text() + net::SETUP_ROUTE@ + prefix.text() + net::SETUP_CHECK@
        + ipv6::address_text(prefix.octets()) + net::SETUP_UNIT@ + prefix.text()
        + net::SETUP_STOP@ + prefix.text() + net::SETUP_END@ + "\n"@
}

/// What tells a service of its address, if it asked for one.
pub fn export_bind_env(prefix: &UlaPrefix, service: &ServiceDefinition) -> (env: Option<BindEnv>)
    requires
        has_hashable_id(*service),
    ensures
        match env {
            None => !service.bind_ip,
            Some(env) => {
                let address = address_bytes(*prefix, *service);
                &&& service.bind_ip
                &&& env.address.address().bytes() == address
                &&& env.address.port_number() == net::SERVICE_PORT
                &&& env_views(env.vars@) == seq![
                    ("GEZELLIJ_BIND_ADDR"@, ipv6::address_text(address)),
                    ("GEZELLIJ_BIND_PORT"@, text::dec(net::SERVICE_PORT as nat)),
                    ("GEZELLIJ_BIND_URL"@, net::url_of(address, net::SERVICE_PORT)),
                ]
                &&& env.unrouted_warning@ == unrouted_text(*prefix, service.name@, address)
            },
        },
{
    let address = match net::bind_address_for(prefix, service) {
        Some(address) => address,
        None => {
            return None;
        },
    };
    let mut vars: Vec<EnvVar> = Vec::new();
    vars.push(env_var("GEZELLIJ_BIND_ADDR", address.ip().to_string()));
    vars.push(env_var("GEZELLIJ_BIND_PORT", text::decimal(address.port() as u64)));
    vars.push(env_var("GEZELLIJ_BIND_URL", net::bind_url(&address)));
    assert(env_views(vars@) =~= seq![
        ("GEZELLIJ_BIND_ADDR"@, ipv6::address_text(address.address().bytes())),
        ("GEZELLIJ_BIND_PORT"@, text::dec(net::SERVICE_PORT as nat)),
        ("GEZELLIJ_BIND_URL"@, net::url_of(address.address().bytes(), net::SERVICE_PORT)),
    ]);
    let mut warning = "Warning: ".to_string();
    warning.append(prefix.to_string().as_str());
    warning.append(" is not routed on this machine yet, so service '");
    warning.append(service.name.as_str());
    warning.append("' cannot bind ");
    warning.append(address.ip().to_string().as_str());
    warning.append(".\n");
    warning.append(net::setup_instructions(prefix).as_str());
    warning.append("\n");
    assert(warning@ =~= unrouted_text(*prefix, service.name@, address.address().bytes()));
    Some(BindEnv { address, vars, unrouted_warning: warning })
}

/// What is said where the prefix could be neither read nor made.
pub fn prefix_failed(config_dir: &str, e: &str) -> (s: String)
    ensures
        s@ == "Could not read or create the loopback IPv6 prefix in "@ + config_dir@ + ": "@ + e@,
{
    let mut s = "Could not read or create the loopback IPv6 prefix in ".to_string();
    s.append(config_dir);
    s.append(": ");
    s.append(e);
    s
}

// ---------------------------------------------------------------------------------------------
// starting and stopping
// ---------------------------------------------------------------------------------------------

/// How the session of a service is attached to, or made in the background.
#[derive(Clone, Debug)]
pub struct AttachRequest {
    pub session_name: String,
    pub create_background: bool,
    pub initial_command: Vec<String>,
    pub restart: Option<RestartPolicy>,
}

/// How to attach to a session (`None`), or how to make the session of a service in the background.
pub fn attach_opts(session_name: String, service: Option<&ServiceDefinition>) -> (r: AttachRequest)
    ensures
        r.session_name == session_name,
        match service {
            Some(service) => {
                &&& r.create_background
                &&& text::views(r.initial_command@) == text::views(service.command@)
                &&& r.restart == Some(service.restart)
            },
            None => {
                &&& !r.create_background
                &&& r.initial_command@.len() == 0
                &&& r.restart is None
            },
        },
{
    match service {
        Some(service) => AttachRequest {
            session_name,
            create_background: true,
            initial_command: text::copy_list(&service.command),
            restart: Some(service.restart),
        },
        None => AttachRequest {
            session_name,
            create_background: false,
            initial_command: Vec::new(),
            restart: None,
        },
    }
}

/// What starting a service takes.
#[derive(Clone, Debug)]
pub enum StartPlan {
    /// It runs already; the text says so.
    AlreadyRunning(String),
    /// Clear the saved layout of the session, enter the directory, and make the session.
    Start { session: String, cwd: Option<String>, request: AttachRequest },
}

/// What starting a service takes, given whether it runs.
pub fn start_service(service: &ServiceDefinition, running: bool) -> (plan: StartPlan)
    ensures
        match plan {
            StartPlan::AlreadyRunning(line) => running && line@ == "Service '"@ + service.name@
                + "' is already running (session "@ + services::session_of(service.name@) + ")\n"@,
            StartPlan::Start { session, cwd, request } => {
                &&& !running
                &&& session@ == services::session_of(service.name@)
                &&& text::optional_view(cwd) == text::optional_view(service.cwd)
                &&& request.session_name@ == session@
                &&& request.create_background
                &&& text::views(request.initial_command@) == text::views(service.command@)
                &&& request.restart == Some(service.restart)
            },
        },
{
    let session = service.session_name();
    if running {
        let mut line = "Service '".to_string();
        line.append(service.name.as_str());
        line.append("' is already running (session ");
        line.append(session.as_str());
        line.append(")\n");
        return StartPlan::AlreadyRunning(line);
    }
    let request = attach_opts(session.clone(), Some(service));
    StartPlan::Start { session, cwd: text::copy_optional(&service.cwd), request }
}

/// What is said where the directory of a service cannot be entered.
pub fn cwd_failed(cwd: &str, name: &str, e: &str) -> (s: String)
    ensures
        s@ == "Could not enter the working directory "@ + cwd@ + " of service '"@ + name@ + "': "@
            + e@,
{
    let mut s = "Could not enter the working directory ".to_string();
    s.append(cwd);
    s.append(" of service '");
    s.append(name);
    s.append("': ");
    s.append(e);
    s
}

/// The line on the address of a service that has one.
pub open spec fn listening_text(address: Option<SocketAddrV6>) -> Seq<char> {
    match address {
        Some(address) => "  listening on "@ + net::url_of(
            address.address().bytes(),
            address.port_number(),
        ) + "\n"@,
        None => seq![],
    }
}

/// What is printed once a service has been started.
pub open spec fn started_text(service: ServiceDefinition, address: Option<SocketAddrV6>) -> Seq<
    char,
> {
    "Started service '"@ + service.name@ + "' in background session "@ + services::session_of(
        service.name@,
    ) + " (restart: "@ + command::policy_name(service.restart) + ")\n"@ + listening_text(address)
}

/// What is printed once a service has been started.
pub fn started(service: &ServiceDefinition, address: Option<SocketAddrV6>) -> (s: String)
    ensures
        s@ == started_text(*service, address),
{
    let mut s = "Started service '".to_string();
    s.append(service.name.as_str());
    s.append("' in background session ");
    s.append(service.session_name().as_str());
    s.append(" (restart: ");
    s.append(service.restart.as_str());
    s.append(")\n");
    s.append(listening(address).as_str());
    s
}

/// The line on the address of a service that has one.
fn listening(address: Option<SocketAddrV6>) -> (s: String)
    ensures
        s@ == listening_text(address),
{
    match address {
        Some(address) => {
            let mut s = "  listening on ".to_string();
            s.append(net::bind_url(&address).as_str());
            s.append("\n");
            s
        },
        None => String::new(),
    }
}

/// What stopping a service takes: whether its session is to be killed, and what to print. The saved
/// layout of the session is cleared either way.
#[derive(Clone, Debug, PartialEq, Eq)]
pub struct StopPlan {
    pub session: String,
    pub kill: bool,
    pub line: String,
}

/// What stopping a service takes, given whether it runs.
pub fn stop_service(service: &ServiceDefinition, running: bool) -> (plan: StopPlan)
    ensures
        plan.session@ == services::session_of(service.name@),
        plan.kill == running,
        plan.line@ == (if running {
            "Stopped service '"@ + service.name@ + "' (session "@ + services::session_of(
                service.name@,
            ) + ")\n"@
        } else {
            "Service '"@ + service.name@ + "' is not running\n"@
        }),
{
    let session = service.session_name();
    let mut line: String;
    if running {
        line = "Stopped service '".to_string();
        line.append(service.name.as_str());
        line.append("' (session ");
        line.append(session.as_str());
        line.append(")\n");
    } else {
        line = "Service '".to_string();
        line.append(service.name.as_str());
        line.append("' is not running\n");
    }
    StopPlan { session, kill: running, line }
}

/// What is printed, or said, after a definition was to be removed: `Ok(false)` where there was none.
pub fn removed(name: &str, result: Result<bool, String>) -> (r: Result<String, String>)
    ensures
        match result {
            Ok(true) => r matches Ok(line) && line@ == "Removed service '"@ + name@ + "'\n"@,
            Ok(false) => r matches Ok(line) && line@ == "Service '"@ + name@
                + "' had no definition to remove\n"@,
            Err(e) => r matches Err(message) && message@ == "Could not remove service '"@ + name@
                + "': "@ + e@,
        },
{
    match result {
        Ok(true) => {
            let mut line = "Removed service '".to_string();
            line.append(name);
            line.append("'\n");
            Ok(line)
        },
        Ok(false) => {
            let mut line = "Service '".to_string();
            line.append(name);
            line.append("' had no definition to remove\n");
            Ok(line)
        },
        Err(e) => {
            let mut message = "Could not remove service '".to_string();
            message.append(name);
            message.append("': ");
            message.append(e.as_str());
            Err(message)
        },
    }
}

/// A service is started exactly where it does not run, and killed exactly where it does; it is the
/// same session that is started, stopped and run in the foreground, with the command, the policy
/// and the directory of the definition.
pub proof fn law_start_and_stop_concern_one_session(
    service: ServiceDefinition,
    running: bool,
    start: StartPlan,
    stop: StopPlan,
    sock_dir: &str,
    debug: bool,
    foreground: Result<ForegroundPlan, String>,
)
    requires
        call_ensures(start_service, (&service, running), start),
        call_ensures(stop_service, (&service, running), stop),
        call_ensures(run_service_in_foreground, (&service, running, sock_dir, debug), foreground),
    ensures
        start is Start <==> !running,
        stop.kill <==> running,
        foreground is Ok <==> !running,
        start matches StartPlan::Start { session, cwd, request } ==> session@ == stop.session@
            && request.session_name@ == stop.session@ && request.create_background && text::views(
            request.initial_command@,
        ) == text::views(service.command@) && request.restart == Some(service.restart)
            && text::optional_view(cwd) == text::optional_view(service.cwd),
        foreground matches Ok(plan) ==> plan.session@ == stop.session@ && text::optional_view(
            plan.cwd,
        ) == text::optional_view(service.cwd) && plan.socket_path@ == path::joined(
            sock_dir@,
            stop.session@,
        ),
{
}

/// The server of a session is told its socket and that it is in the foreground, and to log more
/// exactly where that is asked for.
pub proof fn law_server_is_told_its_socket(socket_path: Seq<char>, debug: bool)
    ensures
        server_args(socket_path, debug).take(3) == seq![
            "--server"@,
            socket_path,
            "--server-foreground"@,
        ],
        server_args(socket_path, true) == server_args(socket_path, false).push("--debug"@),
        server_args(socket_path, false).len() == 3,
{
    assert(server_args(socket_path, debug).take(3) =~= seq![
        "--server"@,
        socket_path,
        "--server-foreground"@,
    ]);
}

// ---------------------------------------------------------------------------------------------
// running in the foreground
// ---------------------------------------------------------------------------------------------

/// How long, in seconds, the session server is waited for.
pub const SERVER_START_TIMEOUT_SECS: u64 = 15;

/// What running a service in the foreground takes.
#[derive(Clone, Debug, PartialEq, Eq)]
pub struct ForegroundPlan {
    pub session: String,
    pub cwd: Option<String>,
    /// The socket at which the server will listen.
    pub socket_path: String,
    /// The arguments of the server's process.
    pub server_args: Vec<String>,
}

/// The arguments of the server's process.
pub open spec fn server_args(socket_path: Seq<char>, debug: bool) -> Seq<Seq<char>> {
    let args = seq!["--server"@, socket_path, "--server-foreground"@];
    if debug {
        args.push("--debug"@)
    } else {
        args
    }
}

/// What running a service in the foreground takes, given whether it runs already.
pub fn run_service_in_foreground(
    service: &ServiceDefinition,
    running: bool,
    sock_dir: &str,
    debug: bool,
) -> (r: Result<ForegroundPlan, String>)
    ensures
        match r {
            Ok(plan) => {
                &&& !running
                &&& plan.session@ == services::session_of(service.name@)
                &&& text::optional_view(plan.cwd) == text::optional_view(service.cwd)
                &&& plan.socket_path@ == path::joined(sock_dir@, plan.session@)
                &&& text::views(plan.server_args@) == server_args(plan.socket_path@, debug)
            },
            Err(message) => running && message@ == "Service '"@ + service.name@
                + "' is already running (session "@ + services::session_of(service.name@)
                + "); stop it first if a supervisor should own it"@,
        },
{
    let session = service.session_name();
    if running {
        let mut message = "Service '".to_string();
        message.append(service.name.as_str());
        message.append("' is already running (session ");
        message.append(session.as_str());
        message.append("); stop it first if a supervisor should own it");
        return Err(message);
    }
    let socket_path = path::join(sock_dir, session.as_str());
    let mut args: Vec<String> = Vec::new();
    args.push("--server".to_string());
    args.push(socket_path.clone());
    args.push("--server-foreground".to_string());
    if debug {
        args.push("--debug".to_string());
    }
    assert(text::views(args@) =~= server_args(socket_path@, debug));
    Ok(
        ForegroundPlan {
            session,
            cwd: text::copy_optional(&service.cwd),
            socket_path,
            server_args: args,
        },
    )
}

/// What to do while the session server starts.
#[derive(Clone, Debug, PartialEq, Eq)]
pub enum ServerStart {
    /// It listens.
    Ready,
    /// Look again in a moment.
    Again,
    /// It is gone; the text says so.
    Exited(String),
    /// Kill it; the text says why.
    TimedOut(String),
}

/// What to do while the session server starts: whether its socket is there, the status it exited
/// with, if it did, and the time since it was started.
pub fn server_start_step(socket_exists: bool, exit_status: &Option<String>, elapsed: Duration) -> (
step: ServerStart)
    ensures
        if socket_exists {
            step is Ready
        } else {
            match *exit_status {
                Some(status) => step matches ServerStart::Exited(s) && s@
                    == "The session server exited before it was ready (status "@ + status@ + ")"@,
                None => if elapsed.nanoseconds() > SERVER_START_TIMEOUT_SECS * 1_000_000_000 {
                    step matches ServerStart::TimedOut(s) && s@
                        == "Timed out waiting for the session server to start"@
                } else {
                    step is Again
                },
            }
        },
{
    if socket_exists {
        return ServerStart::Ready;
    }
    if let Some(status) = exit_status {
        let mut s = "The session server exited before it was ready (status ".to_string();
        s.append(status.as_str());
        s.append(")");
        return ServerStart::Exited(s);
    }
    if Duration::from_secs(SERVER_START_TIMEOUT_SECS).is_shorter_than(&elapsed) {
        return ServerStart::TimedOut(
            "Timed out waiting for the session server to start".to_string(),
        );
    }
    ServerStart::Again
}

/// A server whose socket is there is ready, whatever else is known of it; one that has exited is
/// not waited for; one that does neither is given fifteen seconds.
pub proof fn law_server_start_is_waited_for(
    socket_exists: bool,
    exit_status: Option<String>,
    elapsed: Duration,
    step: ServerStart,
)
    requires
        call_ensures(server_start_step, (socket_exists, &exit_status, elapsed), step),
    ensures
        step is Ready <==> socket_exists,
        step is Exited <==> !socket_exists && exit_status is Some,
        step is TimedOut <==> !socket_exists && exit_status is None && elapsed.nanoseconds()
            > 15_000_000_000,
        step is Again <==> !socket_exists && exit_status is None && elapsed.nanoseconds()
            <= 15_000_000_000,
{
}

/// What is said once the service runs in the foreground, under a server with this process id.
pub fn running_in_foreground(
    service: &ServiceDefinition,
    server_pid: u32,
    address: Option<SocketAddrV6>,
) -> (s: String)
    ensures
        s@ == "Running service '"@ + service.name@ + "' in the foreground (session "@
            + services::session_of(service.name@) + ", restart: "@ + command::policy_name(
            service.restart,
        ) + "); the session server is pid "@ + text::dec(server_pid as nat) + "\n"@
            + listening_text(address),
{
    let mut s = "Running service '".to_string();
    s.append(service.name.as_str());
    s.append("' in the foreground (session ");
    s.append(service.session_name().as_str());
    s.append(", restart: ");
    s.append(service.restart.as_str());
    s.append("); the session server is pid ");
    s.append(text::decimal(server_pid as u64).as_str());
    s.append("\n");
    s.append(listening(address).as_str());
    s
}

/// The status to exit with after the server: its own, or one where it was killed by a signal.
pub fn foreground_exit_status(code: Option<i32>) -> (status: i32)
    ensures
        status == code.unwrap_or(1),
{
    match code {
        Some(code) => code,
        None => 1,
    }
}

// ---------------------------------------------------------------------------------------------
// the output of a service
// ---------------------------------------------------------------------------------------------

/// What the id of a terminal pane begins with.
pub const TERMINAL_PREFIX: &'static str = "terminal_";

/// The first word that is the id of a terminal pane.
pub open spec fn first_terminal(words: Seq<Seq<char>>) -> Option<Seq<char>>
    decreases words.len(),
{
    if words.len() == 0 {
        None
    } else if text::has_prefix(words[0], TERMINAL_PREFIX@) {
        Some(words[0])
    } else {
        first_terminal(words.skip(1))
    }
}

/// The pane of a service: the first terminal pane that the session's listing of clients names.
pub fn service_pane_id(listing: &str) -> (pane: Option<String>)
    ensures
        text::optional_view(pane) == first_terminal(text::words_of(listing@)),
{
    let words = text::split_whitespace(listing);
    let ghost v = text::words_of(listing@);
    let mut i: usize = 0;
    assert(v.skip(0) =~= v);
    while i < words.len()
        invariant
            i <= words@.len(),
            v == text::views(words@),
            first_terminal(v.skip(i as int)) == first_terminal(v),
            v == text::words_of(listing@),
        decreases words@.len() - i,
    {
        assert(v.skip(i as int)[0] == words@[i as int]@);
        if text::starts_with(words[i].as_str(), TERMINAL_PREFIX) {
            return Some(words[i].clone());
        }
        assert(v.skip(i as int).skip(1) =~= v.skip(i + 1));
        i += 1;
    }
    None
}

/// The pane of a service is a word of the listing that begins with `terminal_`, and no word before
/// it does; there is none only where no word does.
pub proof fn law_first_terminal_is_the_first(words: Seq<Seq<char>>, i: int)
    ensures
        first_terminal(words) is None && 0 <= i < words.len() ==> !text::has_prefix(
            words[i],
            "terminal_"@,
        ),
        first_terminal(words) matches Some(word) ==> exists|k: int|
            0 <= k < words.len() && #[trigger] words[k] == word && text::has_prefix(
                word,
                "terminal_"@,
            ) && (0 <= i < k ==> !text::has_prefix(words[i], "terminal_"@)),
    decreases words.len(),
{
    if words.len() > 0 {
        if text::has_prefix(words[0], TERMINAL_PREFIX@) {
            assert(words[0] == words[0]);
        } else {
            let rest = words.skip(1);
            law_first_terminal_is_the_first(rest, i - 1);
            if 1 <= i < words.len() {
                assert(rest[i - 1] == words[i]);
            }
            if let Some(word) = first_terminal(words) {
                let k = choose|k: int|
                    0 <= k < rest.len() && #[trigger] rest[k] == word && text::has_prefix(
                        word,
                        "terminal_"@,
                    ) && (0 <= i - 1 < k ==> !text::has_prefix(rest[i - 1], "terminal_"@));
                assert(words[k + 1] == word);
            }
        }
    }
}

/// What showing the output of a service takes.
#[derive(Clone, Debug, PartialEq, Eq)]
pub enum LogPlan {
    /// Subscribe to the pane, beginning with this many lines.
    Follow { session: String, pane_id: String, scrollback: usize },
    /// Have the pane dumped to the file by a process with these arguments.
    Dump { session: String, file_name: String, args: Vec<String> },
}

/// The pane to show: the one that was found, else the first of the session.
pub open spec fn pane_to_show(found: Option<Seq<char>>) -> Seq<char> {
    match found {
        Some(pane) => pane,
        None => "terminal_0"@,
    }
}

/// The file that the pane is dumped to.
pub open spec fn dump_file_name(name: Seq<char>, pid: u32) -> Seq<char> {
    "gezellij-logs-"@ + name + "-"@ + text::dec(pid as nat) + ".txt"@
}

/// The arguments of the process that dumps a pane.
pub open spec fn dump_args(session: Seq<char>, pane: Seq<char>, file: Seq<char>) -> Seq<Seq<char>> {
    seq![
        "--session"@,
        session,
        "action"@,
        "dump-screen"@,
        "--full"@,
        "--pane-id"@,
        pane,
        "--path"@,
        file,
    ]
}

/// What showing the output of a service takes. It has to run. `temp_dir` and `pid` make the name of
/// the file.
pub fn print_logs(
    service: &ServiceDefinition,
    running: bool,
    pane: Option<String>,
    tail: Option<usize>,
    follow: bool,
    temp_dir: &str,
    pid: u32,
) -> (r: Result<LogPlan, String>)
    ensures
        ({
            let session_name = services::session_of(service.name@);
            let shown = pane_to_show(text::optional_view(pane));
            match r {
                Err(message) => !running && message@ == not_running_text(service.name@),
                Ok(LogPlan::Follow { session, pane_id, scrollback }) => {
                    &&& running && follow
                    &&& session@ == session_name
                    &&& pane_id@ == shown
                    &&& scrollback == tail.unwrap_or(0)
                },
                Ok(LogPlan::Dump { session, file_name, args }) => {
                    &&& running && !follow
                    &&& session@ == session_name
                    &&& file_name@ == path::joined(temp_dir@, dump_file_name(service.name@, pid))
                    &&& text::views(args@) == dump_args(session_name, shown, file_name@)
                },
            }
        }),
{
    match require_running(service.name.as_str(), running) {
        Err(message) => {
            return Err(message);
        },
        Ok(_) => {},
    }
    let session = service.session_name();
    let pane_id = match pane {
        Some(pane) => pane,
        None => "terminal_0".to_string(),
    };
    if follow {
        let scrollback: usize = match tail {
            Some(tail) => tail,
            None => 0,
        };
        return Ok(LogPlan::Follow { session, pane_id, scrollback });
    }
    let mut name = "gezellij-logs-".to_string();
    name.append(service.name.as_str());
    name.append("-");
    name.append(text::decimal(pid as u64).as_str());
    name.append(".txt");
    let file_name = path::join(temp_dir, name.as_str());
    let mut args: Vec<String> = Vec::new();
    args.push("--session".to_string());
    args.push(session.clone());
    args.push("action".to_string());
    args.push("dump-screen".to_string());
    args.push("--full".to_string());
    args.push("--pane-id".to_string());
    args.push(pane_id.clone());
    args.push("--path".to_string());
    args.push(file_name.clone());
    assert(text::views(args@) =~= dump_args(session@, pane_id@, file_name@));
    Ok(LogPlan::Dump { session, file_name, args })
}

/// The output of a service is shown exactly where it runs: followed where that is asked for, else
/// dumped. It is that of the pane that was found, else of the first pane; following begins with as
/// many lines as asked for, and with none where no number is given.
pub proof fn law_output_is_that_of_the_service_pane(
    service: ServiceDefinition,
    running: bool,
    pane: Option<String>,
    tail: Option<usize>,
    follow: bool,
    temp_dir: &str,
    pid: u32,
    r: Result<LogPlan, String>,
)
    requires
        call_ensures(print_logs, (&service, running, pane, tail, follow, temp_dir, pid), r),
    ensures
        ({
            let shown = match pane {
                Some(pane) => pane@,
                None => "terminal_0"@,
            };
            let of = services::session_of(service.name@);
            &&& r is Ok <==> running
            &&& (r matches Ok(LogPlan::Follow { .. })) <==> running && follow
            &&& (r matches Ok(LogPlan::Follow { session, pane_id, scrollback }) ==> session@ == of
                && pane_id@ == shown && (tail matches Some(n) ==> scrollback == n) && (
            tail is None ==> scrollback == 0))
            &&& (r matches Ok(LogPlan::Dump { session, file_name, args }) ==> session@ == of
                && args@.len() == 9 && args@[1]@ == of && args@[6]@ == shown && args@[8]@
                == file_name@)
        }),
{
    if let Ok(LogPlan::Dump { session, file_name, args }) = r {
        let v = text::views(args@);
        assert(v.len() == 9);
        assert(v[1] == args@[1]@ && v[6] == args@[6]@ && v[8] == args@[8]@);
    }
}

/// What is said where the output of a service could not be had.
pub fn logs_failed(name: &str, e: &str) -> (s: String)
    ensures
        s@ == "Could not read the output of service '"@ + name@ + "': "@ + e@,
{
    let mut s = "Could not read the output of service '".to_string();
    s.append(name);
    s.append("': ");
    s.append(e);
    s
}

/// What is said where the process that dumps the pane failed.
pub fn dump_failed(name: &str, status: &str) -> (s: String)
    ensures
        s@ == "Could not read the output of service '"@ + name@ + "' (dump-screen exited with "@
            + status@ + ")"@,
{
    let mut s = "Could not read the output of service '".to_string();
    s.append(name);
    s.append("' (dump-screen exited with ");
    s.append(status);
    s.append(")");
    s
}

/// `lines` without the blank ones at its end.
pub open spec fn without_blank_end(lines: Seq<Seq<char>>) -> Seq<Seq<char>>
    decreases lines.len(),
{
    if lines.len() > 0 && text::trimmed(lines.last()).len() == 0 {
        without_blank_end(lines.drop_last())
    } else {
        lines
    }
}

/// The last `tail` lines, or all of them.
pub open spec fn last_lines(lines: Seq<Seq<char>>, tail: Option<usize>) -> Seq<Seq<char>> {
    match tail {
        Some(tail) => if tail < lines.len() {
            lines.skip(lines.len() - tail)
        } else {
            lines
        },
        None => lines,
    }
}

/// The lines of a dumped pane that are output: a dump is padded with blank lines up to the height
/// of the pane, and those are not. With `tail` the last so many of them.
pub fn log_lines(contents: &str, tail: Option<usize>) -> (lines: Vec<String>)
    ensures
        text::views(lines@) == last_lines(without_blank_end(text::lines_of(contents@)), tail),
{
    let mut lines = text::lines(contents);
    let ghost v = text::lines_of(contents@);
    loop
        invariant
            without_blank_end(text::views(lines@)) == without_blank_end(v),
            v == text::lines_of(contents@),
        ensures
            text::views(lines@) == without_blank_end(v),
            v == text::lines_of(contents@),
        decreases lines@.len(),
    {
        let ghost now = text::views(lines@);
        let n: usize = lines.len();
        if n == 0 {
            break;
        }
        assert(now.last() == lines@[n - 1]@);
        if !text::trim(lines[n - 1].as_str()).as_str().is_empty() {
            break;
        }
        lines.pop();
        assert(text::views(lines@) =~= now.drop_last());
    }
    let ghost shown = text::views(lines@);
    let start: usize = match tail {
        Some(tail) => {
            if tail < lines.len() {
                lines.len() - tail
            } else {
                0
            }
        },
        None => 0,
    };
    let rest = lines.split_off(start);
    assert(text::views(rest@) =~= shown.skip(start as int));
    assert(shown.skip(0) =~= shown);
    rest
}

proof fn lemma_without_blank_end(lines: Seq<Seq<char>>)
    ensures
        without_blank_end(lines).len() <= lines.len(),
        without_blank_end(lines) == lines.take(without_blank_end(lines).len() as int),
        forall|i: int|
            without_blank_end(lines).len() <= i < lines.len() ==> text::trimmed(
                #[trigger] lines[i],
            ).len() == 0,
    decreases lines.len(),
{
    if lines.len() > 0 && text::trimmed(lines.last()).len() == 0 {
        let front = lines.drop_last();
        lemma_without_blank_end(front);
        let n = without_blank_end(front).len() as int;
        assert(lines.take(n) =~= front.take(n));
        assert forall|i: int| n <= i < lines.len() implies text::trimmed(#[trigger] lines[i]).len()
            == 0 by {
            if i < front.len() {
                assert(front[i] == lines[i]);
            }
        }
    } else {
        assert(lines.take(lines.len() as int) =~= lines);
    }
}

/// What is shown of a dump is a run of its lines: nothing but blank lines follows it, it does not
/// end in a blank one, and it is as long as asked for where there are enough lines.
pub proof fn law_logs_are_the_last_output(lines: Seq<Seq<char>>, tail: Option<usize>)
    ensures
        ({
            let output = without_blank_end(lines);
            let shown = last_lines(output, tail);
            &&& output == lines.take(output.len() as int)
            &&& forall|i: int|
                output.len() <= i < lines.len() ==> text::trimmed(#[trigger] lines[i]).len() == 0
            &&& output.len() > 0 ==> text::trimmed(output.last()).len() > 0
            &&& shown == output.skip(output.len() - shown.len())
            &&& shown.len() == (match tail {
                Some(tail) => if tail < output.len() {
                    tail as nat
                } else {
                    output.len()
                },
                None => output.len(),
            })
        }),
    decreases lines.len(),
{
    lemma_without_blank_end(lines);
    let output = without_blank_end(lines);
    assert(output.skip(0) =~= output);
    if lines.len() > 0 && text::trimmed(lines.last()).len() == 0 {
        law_logs_are_the_last_output(lines.drop_last(), tail);
    }
}

// ---------------------------------------------------------------------------------------------
// defining a service
// ---------------------------------------------------------------------------------------------

/// What the user asks for when a service is defined.
#[derive(Clone, Debug)]
pub struct AddRequest {
    pub name: String,
    pub restart: RestartPolicy,
    pub cwd: Option<String>,
    pub no_start: bool,
    pub force: bool,
    pub bind_ip: bool,
    pub command: Vec<String>,
}

/// The policy of a new service for which the user names none.
pub fn default_restart() -> (policy: RestartPolicy)
    ensures
        policy == RestartPolicy::OnFailure,
{
    RestartPolicy::OnFailure
}

/// The working directory of a new service: the one asked for, seen from where the user is.
pub open spec fn new_cwd(current: Seq<char>, asked: Option<Seq<char>>) -> Seq<char> {
    match asked {
        Some(dir) => path::joined(current, dir),
        None => current,
    }
}

/// Refuse to define a service under a bad name, or under one that is taken unless the user insists.
pub fn check_new_service(name: &str, exists: bool, force: bool) -> (r: Result<(), String>)
    ensures
        match services::name_error(name@) {
            Some(e) => r matches Err(message) && message@ == "Invalid service name: "@
                + services::name_error_text(e, services::shown_in_error(e)),
            None => if exists && !force {
                r matches Err(message) && message@ == "service '"@ + name@
                    + "' already exists (use --force to overwrite)"@
            } else {
                r is Ok
            },
        },
{
    proof {
        services::law_name_rule(name@);
    }
    match require_valid_name(name) {
        Err(message) => {
            return Err(message);
        },
        Ok(_) => {},
    }
    if exists && !force {
        let mut message = "service '".to_string();
        message.append(name);
        message.append("' already exists (use --force to overwrite)");
        return Err(message);
    }
    Ok(())
}

/// A service is defined exactly where its name is one that a service can have and is not taken, or
/// the user insists.
pub proof fn law_taken_name_is_refused(
    name: &str,
    exists: bool,
    force: bool,
    r: Result<(), String>,
)
    requires
        call_ensures(check_new_service, (name, exists, force), r),
    ensures
        r is Ok <==> services::is_service_name(name@) && (force || !exists),
{
    services::law_name_rule(name@);
}

/// The definition that the user asks for, with a fresh identity.
pub fn define_service(request: &AddRequest, current_dir: &str) -> (service: ServiceDefinition)
    ensures
        service.name@ == request.name@,
        service.id@.len() == 32,
        services::is_random_id(service.id@),
        text::views(service.command@) == text::views(request.command@),
        text::optional_view(service.cwd) == Some(
            new_cwd(current_dir@, text::optional_view(request.cwd)),
        ),
        service.restart == request.restart,
        service.bind_ip == request.bind_ip,
{
    let cwd = match &request.cwd {
        Some(cwd) => path::join(current_dir, cwd.as_str()),
        None => current_dir.to_string(),
    };
    let mut service = ServiceDefinition::new(
        request.name.clone(),
        text::copy_list(&request.command),
        Some(cwd),
        request.restart,
    );
    service.bind_ip = request.bind_ip;
    service
}

/// What is printed, or said, after a definition was to be saved.
pub fn saved(name: &str, result: Result<String, String>) -> (r: Result<String, String>)
    ensures
        match result {
            Ok(path) => r matches Ok(line) && line@ == "Saved service '"@ + name@ + "' -> "@
                + path@ + "\n"@,
            Err(e) => r matches Err(message) && message@ == "Could not save service '"@ + name@
                + "': "@ + e@,
        },
{
    match result {
        Ok(path) => {
            let mut line = "Saved service '".to_string();
            line.append(name);
            line.append("' -> ");
            line.append(path.as_str());
            line.append("\n");
            Ok(line)
        },
        Err(e) => {
            let mut message = "Could not save service '".to_string();
            message.append(name);
            message.append("': ");
            message.append(e.as_str());
            Err(message)
        },
    }
}

/// The line on the address of a new service; nothing where it did not ask for one.
pub fn own_address(prefix: &UlaPrefix, service: &ServiceDefinition) -> (s: String)
    requires
        has_hashable_id(*service),
    ensures
        s@ == (if service.bind_ip {
            "  own address: "@ + socket_text(address_bytes(*prefix, *service), net::SERVICE_PORT)
                + " (GEZELLIJ_BIND_URL="@ + net::url_of(
                address_bytes(*prefix, *service),
                net::SERVICE_PORT,
            ) + ")\n"@
        } else {
            seq![]
        }),
{
    match net::bind_address_for(prefix, service) {
        Some(address) => {
            let mut s = "  own address: ".to_string();
            s.append(write_socket(&address).as_str());
            s.append(" (GEZELLIJ_BIND_URL=");
            s.append(net::bind_url(&address).as_str());
            s.append(")\n");
            s
        },
        None => String::new(),
    }
}

/// A new definition's address can always be derived.
pub proof fn law_new_service_has_address(id: Seq<char>, name: Seq<char>)
    requires
        id.len() == 32,
    ensures
        net::is_hashable(services::address_id_of(name, id)),
{
    lemma_utf8_at_most_four(id);
    net::lemma_domain_bytes();
}

proof fn lemma_utf8_at_most_four(s: Seq<char>)
    ensures
        vstd::utf8::encode_utf8(s).len() <= 4 * s.len(),
    decreases s.len(),
{
    if s.len() > 0 {
        lemma_utf8_at_most_four(s.drop_first());
    }
}

// ---------------------------------------------------------------------------------------------
// the network
// ---------------------------------------------------------------------------------------------

/// What `service net-setup` prints.
pub open spec fn net_setup_text(prefix: UlaPrefix, file: Seq<char>, routed: bool) -> Seq<char> {
    let head = "Prefix:  "@ + prefix.text() + "\nStored:  "@ + file + "\nPort:    "@ + text::dec(
        net::SERVICE_PORT as nat,
    ) + " (the same for every service)\n"@;
    if routed {
        head
            + "Routed:  yes - services can bind their own address right now\n\n    sudo ip -6 route add local "@
            + prefix.text() + " dev lo    # already done\n"@
    } else {
        head + "Routed:  no - run the command below once, as root\n\n"@ + (net::SETUP_INTRO@
            + prefix.text() + net::SETUP_ROUTE@ + prefix.text() + net::SETUP_CHECK@
            + ipv6::address_text(prefix.octets()) + net::SETUP_UNIT@ + prefix.text()
            + net::SETUP_STOP@ + prefix.text() + net::SETUP_END@)
    }
}

/// What `service net-setup` prints, given whether the prefix is routed to this machine.
pub fn net_setup(prefix: &UlaPrefix, config_dir: &str, routed: bool) -> (s: String)
    ensures
        s@ == net_setup_text(
            *prefix,
            path::joined(config_dir@, net::NETWORK_FILE_NAME@),
            routed,
        ),
{
    let shown = prefix.to_string();
    let mut s = "Prefix:  ".to_string();
    s.append(shown.as_str());
    s.append("\nStored:  ");
    s.append(net::network_file(config_dir).as_str());
    s.append("\nPort:    ");
    s.append(text::decimal(net::default_port() as u64).as_str());
    s.append(" (the same for every service)\n");
    if routed {
        s.append(
            "Routed:  yes - services can bind their own address right now\n\n    sudo ip -6 route add local ",
        );
        s.append(shown.as_str());
        s.append(" dev lo    # already done\n");
    } else {
        s.append("Routed:  no - run the command below once, as root\n\n");
        s.append(net::setup_instructions(prefix).as_str());
    }
    s
}

/// The entry for a service; nothing for one without an address of its own.
pub open spec fn export_entry(
    prefix: UlaPrefix,
    service: ServiceDefinition,
    format: NetExportFormat,
) -> Seq<char> {
    let hostname = service.name@ + ".localhost"@;
    if !service.bind_ip {
        seq![]
    } else {
        match format {
            NetExportFormat::Caddy => net::caddy_text(
                hostname,
                address_bytes(prefix, service),
                net::SERVICE_PORT,
            ),
            NetExportFormat::Hosts => net::hosts_text(address_bytes(prefix, service), hostname),
        }
    }
}

/// The entries for a list of services.
pub open spec fn export_text(
    prefix: UlaPrefix,
    list: Seq<ServiceDefinition>,
    format: NetExportFormat,
) -> Seq<char>
    decreases list.len(),
{
    if list.len() == 0 {
        seq![]
    } else {
        export_text(prefix, list.drop_last(), format) + export_entry(prefix, list.last(), format)
    }
}

/// Every service of the list with an address of its own is in the export, in list order: the export
/// of two lists one after the other is the export of the first followed by that of the second, and
/// the export of one service with an address is its entry, which names its host and its address.
/// A service without an address of its own is not in it.
pub proof fn law_export_keeps_every_service(
    prefix: UlaPrefix,
    a: Seq<ServiceDefinition>,
    b: Seq<ServiceDefinition>,
    one: ServiceDefinition,
    format: NetExportFormat,
)
    ensures
        export_text(prefix, a + b, format) == export_text(prefix, a, format) + export_text(
            prefix,
            b,
            format,
        ),
        export_text(prefix, seq![], format) == Seq::<char>::empty(),
        !one.bind_ip ==> export_text(prefix, seq![one], format) == Seq::<char>::empty(),
        one.bind_ip ==> export_text(prefix, seq![one], NetExportFormat::Hosts) == net::hosts_text(
            address_bytes(prefix, one),
            one.name@ + ".localhost"@,
        ),
        one.bind_ip ==> export_text(prefix, seq![one], NetExportFormat::Caddy) == net::caddy_text(
            one.name@ + ".localhost"@,
            address_bytes(prefix, one),
            8080,
        ),
    decreases b.len(),
{
    reveal_with_fuel(export_text, 2);
    assert(seq![one].drop_last() =~= Seq::<ServiceDefinition>::empty());
    assert(export_text(prefix, seq![one], format) =~= export_entry(prefix, one, format));
    assert(export_text(prefix, seq![one], NetExportFormat::Hosts) =~= export_entry(
        prefix,
        one,
        NetExportFormat::Hosts,
    ));
    assert(export_text(prefix, seq![one], NetExportFormat::Caddy) =~= export_entry(
        prefix,
        one,
        NetExportFormat::Caddy,
    ));
    if b.len() == 0 {
        assert(a + b =~= a);
        assert(export_text(prefix, a, format) + export_text(prefix, b, format) =~= export_text(
            prefix,
            a,
            format,
        ));
    } else {
        law_export_keeps_every_service(prefix, a, b.drop_last(), one, format);
        assert((a + b).drop_last() =~= a + b.drop_last());
        assert(export_text(prefix, a + b, format) =~= export_text(prefix, a, format) + export_text(
            prefix,
            b,
            format,
        ));
    }
}

/// The export is exactly what `export_text` says of the whole list, and it comes with a warning
/// exactly where no service of the list has an address of its own.
pub proof fn law_empty_export_is_warned_of(
    prefix: UlaPrefix,
    list: Vec<ServiceDefinition>,
    format: NetExportFormat,
    export: Export,
    i: int,
)
    requires
        call_ensures(net_export, (&prefix, &list, format), export),
    ensures
        export.stdout@ == export_text(prefix, list@, format),
        0 <= i < list@.len() && list@[i].bind_ip ==> export.warning is None,
        export.warning is None ==> exists|k: int| 0 <= k < list@.len() && (#[trigger] list@[k]).bind_ip,
{
}

/// What an export prints, and what it says where there was nothing to export.
#[derive(Clone, Debug, PartialEq, Eq)]
pub struct Export {
    pub stdout: String,
    pub warning: Option<String>,
}

/// What is said where there was nothing to export.
pub const NOTHING_EXPORTED: &'static str = "No service has an address of its own; add one with: zellij service add --bind-ip ...\n";

/// What `service net-export` prints.
pub fn net_export(
    prefix: &UlaPrefix,
    list: &Vec<ServiceDefinition>,
    format: NetExportFormat,
) -> (export: Export)
    requires
        have_hashable_ids(list@),
    ensures
        export.stdout@ == export_text(*prefix, list@, format),
        text::optional_view(export.warning) == (if exists|i: int|
            0 <= i < list@.len() && (#[trigger] list@[i]).bind_ip {
            None
        } else {
            Some(NOTHING_EXPORTED@)
        }),
{
    let mut stdout = String::new();
    let mut exported = false;
    let mut i: usize = 0;
    while i < list.len()
        invariant
            i <= list@.len(),
            have_hashable_ids(list@),
            stdout@ == export_text(*prefix, list@.take(i as int), format),
            exported ==> exists|j: int| 0 <= j < list@.len() && (#[trigger] list@[j]).bind_ip,
            !exported ==> forall|j: int| 0 <= j < i ==> !(#[trigger] list@[j]).bind_ip,
        decreases list@.len() - i,
    {
        let service = &list[i];
        assert(has_hashable_id(list@[i as int]));
        assert(list@.take(i + 1).drop_last() =~= list@.take(i as int));
        let ghost before = stdout@;
        match net::bind_address_for(prefix, service) {
            Some(address) => {
                exported = true;
                assert(list@[i as int].bind_ip);
                let hostname = net::hostname_for(service.name.as_str());
                let entry = match format {
                    NetExportFormat::Caddy => net::caddy_snippet(
                        hostname.as_str(),
                        address.ip(),
                        address.port(),
                    ),
                    NetExportFormat::Hosts => net::hosts_line(address.ip(), hostname.as_str()),
                };
                stdout.append(entry.as_str());
            },
            None => {
                assert(before + Seq::<char>::empty() =~= before);
            },
        }
        i += 1;
    }
    assert(list@.take(i as int) =~= list@);
    let warning = if exported {
        None
    } else {
        Some(NOTHING_EXPORTED.to_string())
    };
    Export { stdout, warning }
}

/// The prefix for an export, which is never made by exporting.
pub fn require_prefix(loaded: Result<Option<UlaPrefix>, String>) -> (r: Result<UlaPrefix, String>)
    ensures
        match loaded {
            Ok(Some(prefix)) => r == Ok::<UlaPrefix, String>(prefix),
            Ok(None) => r matches Err(message) && message@
                == "No loopback IPv6 prefix has been generated yet; run: zellij service net-setup"@,
            Err(e) => r matches Err(message) && message@
                == "Could not read the loopback IPv6 prefix: "@ + e@,
        },
{
    match loaded {
        Ok(Some(prefix)) => Ok(prefix),
        Ok(None) => Err(
            "No loopback IPv6 prefix has been generated yet; run: zellij service net-setup".to_string(),
        ),
        Err(e) => {
            let mut message = "Could not read the loopback IPv6 prefix: ".to_string();
            message.append(e.as_str());
            Err(message)
        },
    }
}

/// The prefix for a listing, and a warning where it could not be read. A listing goes on without
/// one, and never makes one.
pub fn prefix_for_listing(loaded: Result<Option<UlaPrefix>, String>) -> (r: (
    Option<UlaPrefix>,
    Option<String>,
))
    ensures
        match loaded {
            Ok(prefix) => r.0 == prefix && r.1 is None,
            Err(e) => r.0 is None && text::optional_view(r.1) == Some(
                "Warning: could not read the loopback IPv6 prefix: "@ + e@ + "\n"@,
            ),
        },
{
    match loaded {
        Ok(prefix) => (prefix, None),
        Err(e) => {
            let mut warning = "Warning: could not read the loopback IPv6 prefix: ".to_string();
            warning.append(e.as_str());
            warning.append("\n");
            (None, Some(warning))
        },
    }
}

/// The variables that a unit hands on to the service: where the sockets and the configuration are,
/// as far as the user has said so.
pub fn systemd_env(socket_dir: Option<String>, config_dir: Option<String>) -> (vars: Vec<EnvVar>)
    ensures
        env_views(vars@) == (match text::optional_view(socket_dir) {
            Some(dir) => seq![("ZELLIJ_SOCKET_DIR"@, dir)],
            None => seq![],
        }) + (match text::optional_view(config_dir) {
            Some(dir) => seq![("ZELLIJ_CONFIG_DIR"@, dir)],
            None => seq![],
        }),
{
    let mut vars: Vec<EnvVar> = Vec::new();
    if let Some(dir) = socket_dir {
        vars.push(env_var("ZELLIJ_SOCKET_DIR", dir));
    }
    if let Some(dir) = config_dir {
        vars.push(env_var("ZELLIJ_CONFIG_DIR", dir));
    }
    assert(env_views(vars@) =~= (match text::optional_view(socket_dir) {
        Some(dir) => seq![("ZELLIJ_SOCKET_DIR"@, dir)],
        None => seq![],
    }) + (match text::optional_view(config_dir) {
        Some(dir) => seq![("ZELLIJ_CONFIG_DIR"@, dir)],
        None => seq![],
    }));
    vars
}

/// An export needs a prefix that was made before; a listing goes on without one, and warns exactly
/// where it could not be read.
pub proof fn law_listing_goes_on_without_a_prefix(
    loaded: Result<Option<UlaPrefix>, String>,
    required: Result<UlaPrefix, String>,
    listed: (Option<UlaPrefix>, Option<String>),
)
    requires
        call_ensures(require_prefix, (loaded,), required),
        call_ensures(prefix_for_listing, (loaded,), listed),
    ensures
        required is Ok <==> (loaded matches Ok(Some(_))),
        required matches Ok(prefix) ==> loaded == Ok::<Option<UlaPrefix>, String>(Some(prefix))
            && listed.0 == Some(prefix),
        listed.0 is Some ==> required is Ok,
        listed.1 is Some <==> loaded is Err,
{
}

/// What is printed once a unit has been installed.
pub fn unit_installed(path: &str, unit_name: &str) -> (s: String)
    ensures
        s@ == "Wrote "@ + path@
            + "\nEnable it with: systemctl --user daemon-reload && systemctl --user enable --now "@
            + unit_name@ + "\n"@,
{
    let mut s = "Wrote ".to_string();
    s.append(path);
    s.append(
        "\nEnable it with: systemctl --user daemon-reload && systemctl --user enable --now ",
    );
    s.append(unit_name);
    s.append("\n");
    s
}

// ---------------------------------------------------------------------------------------------
// the commands
// ---------------------------------------------------------------------------------------------

/// What the user asks for.
#[derive(Clone, Debug)]
pub enum ServiceCommand {
    Add(AddRequest),
    Start { name: String },
    Run { name: String },
    Stop { name: String },
    Remove { name: String },
    Freeze { name: String },
    Thaw { name: String },
    List { no_formatting: bool },
    NetSetup,
    NetExport { only: Option<String>, format: NetExportFormat },
    Attach { name: String },
    Logs { name: String, tail: Option<usize>, follow: bool },
    ExportSystemd { name: String, install: bool },
}

/// One thing to do for a command; the first that fails ends it.
#[derive(Clone, Copy, Debug, PartialEq, Eq, Structural)]
pub enum Operation {
    /// Refuse a bad or taken name.
    CheckNewName,
    /// Make the definition and save it.
    Save,
    /// Make sure there is a prefix, and tell the address.
    TellAddress,
    /// Read the definition.
    Load,
    /// Refuse to go on unless the service runs.
    RequireRunning,
    /// Start the service in the background.
    Start,
    /// Run the service in the foreground.
    RunInForeground,
    /// Stop the service.
    Stop,
    /// Freeze every pane of the service's session.
    Freeze,
    /// Thaw every pane of the service's session.
    Thaw,
    /// Remove the definition.
    RemoveDefinition,
    /// Attach to the service's session.
    Attach,
    /// Show the service's output.
    PrintLogs,
    /// Write the service's unit.
    ExportSystemd,
    /// Show the table of services.
    List,
    /// Read the prefix, which has to be there.
    RequirePrefix,
    /// Read all definitions.
    LoadAll,
    /// Make sure there is a prefix, and tell how it is set up.
    NetSetup,
    /// Show the addresses of the definitions that were read.
    NetExport,
}

/// What a command takes, in order.
pub open spec fn operations(command: ServiceCommand) -> Seq<Operation> {
    match command {
        ServiceCommand::Add(request) => seq![Operation::CheckNewName, Operation::Save] + (
        if request.bind_ip {
            seq![Operation::TellAddress]
        } else {
            seq![]
        }) + (if request.no_start {
            seq![]
        } else {
            seq![Operation::Start]
        }),
        ServiceCommand::Start { .. } => seq![Operation::Load, Operation::Start],
        ServiceCommand::Run { .. } => seq![Operation::Load, Operation::RunInForeground],
        ServiceCommand::Stop { .. } => seq![Operation::Load, Operation::Stop],
        ServiceCommand::Remove { .. } => seq![
            Operation::Load,
            Operation::Stop,
            Operation::RemoveDefinition,
        ],
        ServiceCommand::Freeze { .. } => seq![
            Operation::Load,
            Operation::RequireRunning,
            Operation::Freeze,
        ],
        ServiceCommand::Thaw { .. } => seq![
            Operation::Load,
            Operation::RequireRunning,
            Operation::Thaw,
        ],
        ServiceCommand::List { .. } => seq![Operation::List],
        ServiceCommand::NetSetup => seq![Operation::NetSetup],
        ServiceCommand::NetExport { only, .. } => seq![
            Operation::RequirePrefix,
            if only is Some {
                Operation::Load
            } else {
                Operation::LoadAll
            },
            Operation::NetExport,
        ],
        ServiceCommand::Attach { .. } => seq![
            Operation::Load,
            Operation::RequireRunning,
            Operation::Attach,
        ],
        ServiceCommand::Logs { .. } => seq![Operation::Load, Operation::PrintLogs],
        ServiceCommand::ExportSystemd { .. } => seq![Operation::Load, Operation::ExportSystemd],
    }
}

/// What a command takes, in order.
pub fn run_service_command(command: &ServiceCommand) -> (list: Vec<Operation>)
    ensures
        list@ == operations(*command),
{
    let mut list: Vec<Operation> = Vec::new();
    match command {
        ServiceCommand::Add(request) => {
            list.push(Operation::CheckNewName);
            list.push(Operation::Save);
            if request.bind_ip {
                list.push(Operation::TellAddress);
            }
            if !request.no_start {
                list.push(Operation::Start);
            }
        },
        ServiceCommand::Start { .. } => {
            list.push(Operation::Load);
            list.push(Operation::Start);
        },
        ServiceCommand::Run { .. } => {
            list.push(Operation::Load);
            list.push(Operation::RunInForeground);
        },
        ServiceCommand::Stop { .. } => {
            list.push(Operation::Load);
            list.push(Operation::Stop);
        },
        ServiceCommand::Remove { .. } => {
            list.push(Operation::Load);
            list.push(Operation::Stop);
            list.push(Operation::RemoveDefinition);
        },
        ServiceCommand::Freeze { .. } => {
            list.push(Operation::Load);
            list.push(Operation::RequireRunning);
            list.push(Operation::Freeze);
        },
        ServiceCommand::Thaw { .. } => {
            list.push(Operation::Load);
            list.push(Operation::RequireRunning);
            list.push(Operation::Thaw);
        },
        ServiceCommand::List { .. } => {
            list.push(Operation::List);
        },
        ServiceCommand::NetSetup => {
            list.push(Operation::NetSetup);
        },
        ServiceCommand::NetExport { only, .. } => {
            list.push(Operation::RequirePrefix);
            if only.is_some() {
                list.push(Operation::Load);
            } else {
                list.push(Operation::LoadAll);
            }
            list.push(Operation::NetExport);
        },
        ServiceCommand::Attach { .. } => {
            list.push(Operation::Load);
            list.push(Operation::RequireRunning);
            list.push(Operation::Attach);
        },
        ServiceCommand::Logs { .. } => {
            list.push(Operation::Load);
            list.push(Operation::PrintLogs);
        },
        ServiceCommand::ExportSystemd { .. } => {
            list.push(Operation::Load);
            list.push(Operation::ExportSystemd);
        },
    }
    assert(list@ =~= operations(*command));
    list
}

/// Whether an operation acts on a definition that was read or made before.
pub open spec fn needs_definition(op: Operation) -> bool {
    match op {
        Operation::TellAddress
        | Operation::RequireRunning
        | Operation::Start
        | Operation::RunInForeground
        | Operation::Stop
        | Operation::Freeze
        | Operation::Thaw
        | Operation::RemoveDefinition
        | Operation::Attach
        | Operation::PrintLogs
        | Operation::ExportSystemd
        | Operation::NetExport => true,
        _ => false,
    }
}

/// Nothing is done to a service before its definition has been read, or made and saved; a name is
/// checked before anything else is done with it, and only defining a service saves one.
pub proof fn law_definition_comes_first(command: ServiceCommand)
    ensures
        forall|i: int|
            0 <= i < operations(command).len() && needs_definition(#[trigger] operations(command)[i])
                ==> exists|j: int|
                0 <= j < i && (operations(command)[j] == Operation::Load || operations(command)[j]
                    == Operation::LoadAll || #[trigger] operations(command)[j] == Operation::Save),
        forall|i: int|
            0 <= i < operations(command).len() && #[trigger] operations(command)[i]
                == Operation::Save ==> command is Add && i == 1 && operations(command)[0]
                == Operation::CheckNewName,
{
    let ops = operations(command);
    assert forall|i: int| 0 <= i < ops.len() && needs_definition(#[trigger] ops[i]) implies exists|
        j: int,
    |
        0 <= j < i && (ops[j] == Operation::Load || ops[j] == Operation::LoadAll || #[trigger] ops[j]
            == Operation::Save) by {
        if command is NetExport {
            assert(ops[1] == Operation::Load || ops[1] == Operation::LoadAll);
        } else if command is Add {
            assert(ops[1] == Operation::Save);
        } else {
            assert(ops[0] == Operation::Load);
        }
    }
}

/// Each command does what it is named for, once and in its last step, and no other command does it:
/// starting is for starting and for adding, unless that is declined; stopping for stopping and for
/// removing; and so on. What freezes, thaws or attaches to a service makes sure just before that it
/// runs.
pub proof fn law_each_command_does_what_it_is_named_for(command: ServiceCommand)
    ensures
        ({
            let ops = operations(command);
            let adds = command matches ServiceCommand::Add(request) && !request.no_start;
            let tells = command matches ServiceCommand::Add(request) && request.bind_ip;
            let of_one = command matches ServiceCommand::NetExport { only: Some(_), .. };
            let of_all = command matches ServiceCommand::NetExport { only: None, .. };
            let runs = command is Freeze || command is Thaw || command is Attach;
            let by_name = runs || command is Start || command is Run || command is Stop
                || command is Remove || command is Logs || command is ExportSystemd;
            &&& ops.no_duplicates()
            &&& ops.len() > 0
            &&& ops.contains(Operation::Start) <==> command is Start || adds
            &&& ops.contains(Operation::RunInForeground) <==> command is Run
            &&& ops.contains(Operation::Stop) <==> command is Stop || command is Remove
            &&& ops.contains(Operation::RemoveDefinition) <==> command is Remove
            &&& ops.contains(Operation::Freeze) <==> command is Freeze
            &&& ops.contains(Operation::Thaw) <==> command is Thaw
            &&& ops.contains(Operation::Attach) <==> command is Attach
            &&& ops.contains(Operation::PrintLogs) <==> command is Logs
            &&& ops.contains(Operation::ExportSystemd) <==> command is ExportSystemd
            &&& ops.contains(Operation::List) <==> command is List
            &&& ops.contains(Operation::NetSetup) <==> command is NetSetup
            &&& ops.contains(Operation::NetExport) <==> command is NetExport
            &&& ops.contains(Operation::RequirePrefix) <==> command is NetExport
            &&& ops.contains(Operation::LoadAll) <==> of_all
            &&& ops.contains(Operation::Load) <==> by_name || of_one
            &&& ops.contains(Operation::RequireRunning) <==> runs
            &&& ops.contains(Operation::Save) <==> command is Add
            &&& ops.contains(Operation::CheckNewName) <==> command is Add
            &&& ops.contains(Operation::TellAddress) <==> tells
            &&& command is Start || adds ==> ops.last() == Operation::Start
            &&& command is Run ==> ops.last() == Operation::RunInForeground
            &&& command is Stop ==> ops == seq![Operation::Load, Operation::Stop]
            &&& command is Remove ==> ops.last() == Operation::RemoveDefinition
            &&& command is Freeze ==> ops.last() == Operation::Freeze
            &&& command is Thaw ==> ops.last() == Operation::Thaw
            &&& command is Attach ==> ops.last() == Operation::Attach
            &&& command is Logs ==> ops.last() == Operation::PrintLogs
            &&& command is ExportSystemd ==> ops.last() == Operation::ExportSystemd
            &&& command is NetExport ==> ops.last() == Operation::NetExport && ops[0]
                == Operation::RequirePrefix
            &&& command is Add ==> ops[0] == Operation::CheckNewName && ops[1] == Operation::Save
            &&& by_name ==> ops[0] == Operation::Load
            &&& runs ==> ops.len() > 1 && ops[ops.len() - 2] == Operation::RequireRunning
        }),
{
    let ops = operations(command);
    assert(ops.len() <= 4);
    assert(ops.len() > 0 ==> ops.contains(ops[0]));
    assert(ops.len() > 1 ==> ops.contains(ops[1]));
    assert(ops.len() > 2 ==> ops.contains(ops[2]));
    assert(ops.len() > 3 ==> ops.contains(ops[3]));
    assert forall|op: Operation| #[trigger] ops.contains(op) implies op == ops[0] || (ops.len() > 1
        && op == ops[1]) || (ops.len() > 2 && op == ops[2]) || (ops.len() > 3 && op == ops[3]) by {
        let k = choose|k: int| 0 <= k < ops.len() && ops[k] == op;
        assert(k == 0 || k == 1 || k == 2 || k == 3);
    }
}

/// Of a dumped pane exactly the last lines of output are shown: with `end` lines up to the last
/// that is not blank, the last `tail` of these, or all of them where there are fewer or no number
/// is given.
pub proof fn law_shown_lines_end_the_output(
    contents: &str,
    tail: Option<usize>,
    shown: Vec<String>,
    end: int,
)
    requires
        call_ensures(log_lines, (contents, tail), shown),
        0 <= end <= text::lines_of(contents@).len(),
        end > 0 ==> text::trimmed(text::lines_of(contents@)[end - 1]).len() > 0,
        forall|i: int|
            end <= i < text::lines_of(contents@).len() ==> text::trimmed(
                #[trigger] text::lines_of(contents@)[i],
            ).len() == 0,
    ensures
        tail is None ==> text::views(shown@) == text::lines_of(contents@).take(end),
        tail matches Some(n) ==> text::views(shown@) == text::lines_of(contents@).subrange(
            if n < end {
                end - n
            } else {
                0
            },
            end,
        ),
{
    let lines = text::lines_of(contents@);
    law_logs_are_the_last_output(lines, tail);
    lemma_without_blank_end(lines);
    let output = without_blank_end(lines);
    let n = output.len() as int;
    if n > end {
        assert(output.last() == lines[n - 1]);
    } else if n < end {
        assert(text::trimmed(lines[end - 1]).len() == 0);
    }
    assert(output == lines.take(end));
    let from = match tail {
        Some(k) => if k < end {
            end - k
        } else {
            0
        },
        None => 0,
    };
    assert(text::views(shown@) =~= lines.subrange(from, end));
    assert(lines.subrange(0, end) =~= lines.take(end));
}

/// The pane of a service is found among the words of the listing, and missed only where none of
/// them is a terminal pane's.
pub proof fn law_service_pane_is_a_word_of_the_listing(
    listing: &str,
    pane: Option<String>,
    i: int,
)
    requires
        call_ensures(service_pane_id, (listing,), pane),
    ensures
        pane matches Some(id) ==> text::words_of(listing@).contains(id@) && text::has_prefix(
            id@,
            "terminal_"@,
        ),
        pane is None && 0 <= i < text::words_of(listing@).len() ==> !text::has_prefix(
            text::words_of(listing@)[i],
            "terminal_"@,
        ),
{
    law_first_terminal_is_the_first(text::words_of(listing@), i);
}

/// The environment tells a service its address, its port, and the URL made of the two, exactly
/// where it has an address of its own.
pub proof fn law_environment_tells_the_address(
    prefix: UlaPrefix,
    service: ServiceDefinition,
    env: Option<BindEnv>,
)
    requires
        call_ensures(export_bind_env, (&prefix, &service), env),
    ensures
        env is Some <==> service.bind_ip,
        env matches Some(env) ==> ({
            let vars = env.vars@;
            &&& vars.len() == 3
            &&& vars[0].name@ == "GEZELLIJ_BIND_ADDR"@
            &&& vars[1].name@ == "GEZELLIJ_BIND_PORT"@
            &&& vars[2].name@ == "GEZELLIJ_BIND_URL"@
            &&& vars[0].value@ == ipv6::address_text(env.address.address().bytes())
            &&& vars[1].value@ == text::dec(env.address.port_number() as nat)
            &&& vars[2].value@ == "http://["@ + vars[0].value@ + "]:"@ + vars[1].value@
            &&& env.address.address().bytes() == address_bytes(prefix, service)
            &&& env.address.port_number() == 8080
        }),
{
    if let Some(env) = env {
        let views = env_views(env.vars@);
        assert(views.len() == 3);
        assert(views[0] == (env.vars@[0].name@, env.vars@[0].value@));
        assert(views[1] == (env.vars@[1].name@, env.vars@[1].value@));
        assert(views[2] == (env.vars@[2].name@, env.vars@[2].value@));
    }
}

/// Attaching makes no session and runs nothing; making the session of a service does both, with the
/// command and the policy of its definition.
pub proof fn law_attaching_starts_nothing(
    session: String,
    service: Option<&ServiceDefinition>,
    r: AttachRequest,
)
    requires
        call_ensures(attach_opts, (session, service), r),
    ensures
        r.session_name == session,
        r.create_background <==> service is Some,
        service is None ==> r.initial_command@.len() == 0 && r.restart is None,
        service matches Some(s) ==> text::views(r.initial_command@) == text::views(s.command@)
            && r.restart == Some(s.restart),
{
}

/// A new service is what the user asked for; its directory is the one they named, seen from where
/// they are, and else the one they are in.
pub proof fn law_new_service_is_what_was_asked_for(
    request: AddRequest,
    current_dir: &str,
    service: ServiceDefinition,
    policy: RestartPolicy,
)
    requires
        call_ensures(define_service, (&request, current_dir), service),
        call_ensures(default_restart, (), policy),
    ensures
        service.name@ == request.name@ && service.restart == request.restart && service.bind_ip
            == request.bind_ip,
        text::views(service.command@) == text::views(request.command@),
        service.cwd is Some,
        request.cwd is None ==> service.cwd->0@ == current_dir@,
        request.cwd matches Some(dir) ==> service.cwd->0@ == path::joined(current_dir@, dir@),
        has_hashable_id(service),
        policy is OnFailure,
{
    law_new_service_has_address(service.id@, service.name@);
}

/// What is removed or saved is told, and what could not be is an error; a service that has to run
/// is refused exactly where it does not.
pub proof fn law_outcomes_are_told(
    name: &str,
    removal: Result<bool, String>,
    removed_line: Result<String, String>,
    saving: Result<String, String>,
    saved_line: Result<String, String>,
    running: bool,
    required: Result<(), String>,
    code: Option<i32>,
    status: i32,
)
    requires
        call_ensures(removed, (name, removal), removed_line),
        call_ensures(saved, (name, saving), saved_line),
        call_ensures(require_running, (name, running), required),
        call_ensures(foreground_exit_status, (code,), status),
    ensures
        removed_line is Ok <==> removal is Ok,
        saved_line is Ok <==> saving is Ok,
        required is Ok <==> running,
        code matches Some(code) ==> status == code,
        code is None ==> status == 1,
{
}

/// A unit hands on where the sockets and the configuration are, each exactly where the user has
/// said so.
pub proof fn law_unit_hands_on_what_was_said(
    socket_dir: Option<String>,
    config_dir: Option<String>,
    vars: Vec<EnvVar>,
)
    requires
        call_ensures(systemd_env, (socket_dir, config_dir), vars),
    ensures
        vars@.len() == (if socket_dir is Some {
            1int
        } else {
            0
        }) + (if config_dir is Some {
            1int
        } else {
            0
        }),
        socket_dir matches Some(dir) ==> vars@[0].name@ == "ZELLIJ_SOCKET_DIR"@ && vars@[0].value@
            == dir@,
        config_dir matches Some(dir) ==> vars@.last().name@ == "ZELLIJ_CONFIG_DIR"@
            && vars@.last().value@ == dir@,
{
    let views = env_views(vars@);
    assert(views.len() == vars@.len());
    if vars@.len() > 0 {
        assert(views[0] == (vars@[0].name@, vars@[0].value@));
        assert(views[vars@.len() - 1] == (vars@.last().name@, vars@.last().value@));
    }
}

/// What is done for a command are exactly its operations, and what `service list` prints is the
/// table of all services, or that there are none.
pub proof fn law_commands_and_listing_are_complete(
    command: ServiceCommand,
    list: Vec<Operation>,
    prefix: Option<UlaPrefix>,
    services: Vec<ServiceDefinition>,
    statuses: Vec<ServiceStatus>,
    no_formatting: bool,
    table: String,
)
    requires
        call_ensures(run_service_command, (&command,), list),
        call_ensures(list_services, (&prefix, &services, &statuses, no_formatting), table),
    ensures
        list@ == operations(command),
        services@.len() > 0 ==> table@ == table_text(
            columns_of(prefix, services@, statuses@),
            statuses@,
            no_formatting,
            services@.len(),
        ),
        services@.len() == 0 ==> table@ == NO_SERVICES@,
{
}

/// A line on an address is printed exactly where there is one.
pub proof fn law_address_is_told_where_there_is_one(
    prefix: UlaPrefix,
    service: ServiceDefinition,
    line: String,
    address: SocketAddrV6,
)
    requires
        call_ensures(own_address, (&prefix, &service), line),
    ensures
        line@.len() > 0 <==> service.bind_ip,
        listening_text(None) == Seq::<char>::empty(),
        listening_text(Some(address)) == "  listening on "@ + ("http://["@ + ipv6::address_text(
            address.address().bytes(),
        ) + "]:"@ + text::dec(address.port_number() as nat)) + "\n"@,
{
    reveal_strlit("  own address: ");
    if service.bind_ip {
        assert(line@[0] == "  own address: "@[0]);
    }
}

/// With formatting a service's line is its cells, each filled up to the width of its column, with
/// two blanks between each two, in the order of the header; the last cell is not filled up.
pub proof fn law_formatted_line_is_padded(
    c: Columns,
    statuses: Seq<ServiceStatus>,
    i: nat,
)
    ensures
        ({
            let w = widths_of(c, false);
            let k = i as int;
            &&& table_text(c, statuses, false, i + 1) == table_text(c, statuses, false, i)
                + text::padded(c.names[k], w.name) + "  "@ + (status_colour(statuses[k])
                + text::padded(status_cell(statuses[k]), w.status) + RESET@) + "  "@
                + text::padded(c.restarts[k], w.restart) + "  "@ + text::padded(
                c.addresses[k],
                w.address,
            ) + "  "@ + text::padded(c.cwds[k], w.cwd) + "  "@ + c.commands[k] + "\n"@
            &&& table_text(c, statuses, false, 0) == text::padded("NAME"@, w.name) + "  "@
                + text::padded("STATUS"@, w.status) + "  "@ + text::padded("RESTART"@, w.restart)
                + "  "@ + text::padded("ADDRESS"@, w.address) + "  "@ + text::padded("CWD"@, w.cwd)
                + "  "@ + "COMMAND"@ + "\n"@
        }),
{
    let w = widths_of(c, false);
    let k = i as int;
    lemma_line_follows(
        table_text(c, statuses, false, i),
        w,
        c.names[k],
        shown_status(statuses[k], w.status, false),
        c.restarts[k],
        c.addresses[k],
        c.cwds[k],
        c.commands[k],
    );
}

/// What is dumped is the whole of the pane that was asked for, of the session, to the file.
pub proof fn law_dump_names_session_pane_and_file(
    session: Seq<char>,
    pane: Seq<char>,
    file: Seq<char>,
    name: Seq<char>,
    pid: u32,
    other: u32,
)
    ensures
        dump_args(session, pane, file).take(2) == seq!["--session"@, session],
        dump_args(session, pane, file).subrange(2, 5) == seq!["action"@, "dump-screen"@, "--full"@],
        dump_args(session, pane, file).subrange(5, 7) == seq!["--pane-id"@, pane],
        dump_args(session, pane, file).skip(7) == seq!["--path"@, file],
        dump_file_name(name, pid) == dump_file_name(name, other) ==> pid == other,
        pane_to_show(None) == "terminal_0"@,
        pane_to_show(Some(pane)) == pane,
{
    assert(dump_args(session, pane, file).take(2) =~= seq!["--session"@, session]);
    assert(dump_args(session, pane, file).subrange(2, 5) =~= seq![
        "action"@,
        "dump-screen"@,
        "--full"@,
    ]);
    assert(dump_args(session, pane, file).subrange(5, 7) =~= seq!["--pane-id"@, pane]);
    assert(dump_args(session, pane, file).skip(7) =~= seq!["--path"@, file]);
    let head = "gezellij-logs-"@ + name + "-"@;
    let (a, b) = (text::dec(pid as nat), text::dec(other as nat));
    let (x, y) = (dump_file_name(name, pid), dump_file_name(name, other));
    let (n, e) = (head.len() as int, ".txt"@.len() as int);
    assert(x.subrange(n, x.len() - e) =~= a);
    assert(y.subrange(n, y.len() - e) =~= b);
    text::law_decimal_reads_back(pid as nat);
    text::law_decimal_reads_back(other as nat);
}

/// Setting up the network tells the prefix, its file and the port, routed or not, and the command
/// that is still needed exactly where it is not.
pub proof fn law_setup_tells_prefix_and_port(prefix: UlaPrefix, file: Seq<char>, routed: bool)
    ensures
        text::has_prefix(
            net_setup_text(prefix, file, routed),
            "Prefix:  "@ + prefix.text() + "\nStored:  "@ + file + "\nPort:    "@ + text::dec(8080)
                + " (the same for every service)\n"@ + (if routed {
                "Routed:  yes"@
            } else {
                "Routed:  no"@
            }),
        ),
{
    reveal_strlit("Routed:  yes");
    reveal_strlit("Routed:  no");
    reveal_strlit(
        "Routed:  yes - services can bind their own address right now\n\n    sudo ip -6 route add local ",
    );
    reveal_strlit("Routed:  no - run the command below once, as root\n\n");
    let yes =
        "Routed:  yes - services can bind their own address right now\n\n    sudo ip -6 route add local "@;
    let no = "Routed:  no - run the command below once, as root\n\n"@;
    let told = "Prefix:  "@ + prefix.text() + "\nStored:  "@ + file + "\nPort:    "@ + text::dec(
        8080,
    ) + " (the same for every service)\n"@ + (if routed {
        "Routed:  yes"@
    } else {
        "Routed:  no"@
    });
    let whole = net_setup_text(prefix, file, routed);
    assert(whole.take(told.len() as int) =~= told);
}

} // verus!
