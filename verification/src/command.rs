//! What a pane runs: the command, how it is held, and what happens when it exits.
use crate::text;
use vstd::prelude::*;

verus! {

/// The plugin on whose behalf something was opened.
#[derive(Clone, Debug, PartialEq, Eq)]
pub struct OriginatingPlugin {
    pub plugin_id: u32,
    pub client_id: u16,
    pub context: Vec<(String, String)>,
}

/// Where a new pane goes, seen from the pane that is in focus.
#[derive(Clone, Copy, Debug, PartialEq, Eq, Structural)]
pub enum Direction {
    Left,
    Right,
    Up,
    Down,
}

#[derive(Clone, Debug)]
pub enum TerminalAction {
    OpenFile(OpenFilePayload),
    RunCommand(RunCommand),
}

impl TerminalAction {
    /// Let the action run in `new_cwd`; nothing else about it changes.
    pub fn change_cwd(&mut self, new_cwd: String)
        ensures
            *final(self) == (match *old(self) {
                TerminalAction::OpenFile(payload) => TerminalAction::OpenFile(
                    (OpenFilePayload { cwd: Some(new_cwd), ..payload }),
                ),
                TerminalAction::RunCommand(run) => TerminalAction::RunCommand(
                    (RunCommand { cwd: Some(new_cwd), ..run }),
                ),
            }),
    {
        match self {
            TerminalAction::OpenFile(open_file_payload) => {
                open_file_payload.cwd = Some(new_cwd);
            },
            TerminalAction::RunCommand(run_command) => {
                run_command.cwd = Some(new_cwd);
            },
        }
    }
}

#[derive(Clone, Debug, PartialEq, Eq)]
pub struct OpenFilePayload {
    pub path: String,
    pub line_number: Option<usize>,
    pub cwd: Option<String>,
    pub originating_plugin: Option<OriginatingPlugin>,
}

impl Default for OpenFilePayload {
    fn default() -> (payload: Self)
        ensures
            payload.path@ == Seq::<char>::empty(),
            payload.line_number is None,
            payload.cwd is None,
            payload.originating_plugin is None,
    {
        OpenFilePayload {
            path: String::new(),
            line_number: None,
            cwd: None,
            originating_plugin: None,
        }
    }
}

impl OpenFilePayload {
    pub fn new(path: String, line_number: Option<usize>, cwd: Option<String>) -> (payload: Self)
        ensures
            payload == (OpenFilePayload { path, line_number, cwd, originating_plugin: None }),
    {
        OpenFilePayload { path, line_number, cwd, originating_plugin: None }
    }

    pub fn with_originating_plugin(self, originating_plugin: OriginatingPlugin) -> (payload: Self)
        ensures
            payload == (OpenFilePayload { originating_plugin: Some(originating_plugin), ..self }),
    {
        let mut payload = self;
        payload.originating_plugin = Some(originating_plugin);
        payload
    }
}

/// What the server should do when a command pane's process exits.
///
/// A pane whose command carries a policy other than [`RestartPolicy::No`] is run again instead of
/// merely being held for the user to press ENTER.
#[derive(Clone, Copy, Debug, PartialEq, Eq, Hash, Structural)]
pub enum RestartPolicy {
    /// Never restart automatically.
    No,
    /// Restart only when the command exits with a non-zero status, or is killed by a signal.
    OnFailure,
    /// Restart whenever the command exits, regardless of status.
    Always,
}

impl Default for RestartPolicy {
    fn default() -> (policy: Self)
        ensures
            policy == RestartPolicy::No,
    {
        RestartPolicy::No
    }
}

/// The spelling under which a policy is shown.
pub open spec fn policy_name(policy: RestartPolicy) -> Seq<char> {
    match policy {
        RestartPolicy::No => "no"@,
        RestartPolicy::OnFailure => "on-failure"@,
        RestartPolicy::Always => "always"@,
    }
}

/// The policy that `word`, in lower case, stands for.
pub open spec fn policy_of_word(word: Seq<char>) -> Option<RestartPolicy> {
    if word == "no"@ || word == "never"@ || word == "false"@ {
        Some(RestartPolicy::No)
    } else if word == "on-failure"@ || word == "on_failure"@ || word == "onfailure"@ {
        Some(RestartPolicy::OnFailure)
    } else if word == "always"@ || word == "true"@ {
        Some(RestartPolicy::Always)
    } else {
        None
    }
}

/// The policy that `s` spells, whatever the case of its letters and the white space around it.
pub open spec fn policy_of(s: Seq<char>) -> Option<RestartPolicy> {
    policy_of_word(text::lowered(text::trimmed(s)))
}

impl RestartPolicy {
    pub fn is_no(&self) -> (b: bool)
        ensures
            b == (*self == RestartPolicy::No),
    {
        matches!(self, RestartPolicy::No)
    }

    /// Whether a process that exited with `exit_status` (`None`: killed by a signal, or unknown)
    /// should be restarted under this policy.
    pub fn should_restart(&self, exit_status: Option<i32>) -> (b: bool)
        ensures
            b == (match *self {
                RestartPolicy::No => false,
                RestartPolicy::Always => true,
                RestartPolicy::OnFailure => exit_status != Some(0i32),
            }),
    {
        match self {
            RestartPolicy::No => false,
            RestartPolicy::Always => true,
            RestartPolicy::OnFailure => match exit_status {
                Some(status) => status != 0,
                None => true,
            },
        }
    }

    pub fn as_str(&self) -> (s: &'static str)
        ensures
            s@ == policy_name(*self),
    {
        match self {
            RestartPolicy::No => "no",
            RestartPolicy::OnFailure => "on-failure",
            RestartPolicy::Always => "always",
        }
    }

    /// The policy as it is shown.
    pub fn to_string(&self) -> (s: String)
        ensures
            s@ == policy_name(*self),
    {
        self.as_str().to_string()
    }

    /// Read a policy, or say which word was not one.
    pub fn from_str(s: &str) -> (policy: Result<Self, String>)
        ensures
            match policy {
                Ok(policy) => policy_of(s@) == Some(policy),
                Err(message) => policy_of(s@) is None && message@ == "invalid restart policy '"@
                    + text::lowered(text::trimmed(s@))
                    + "', expected one of: no, on-failure, always"@,
            },
    {
        let word = text::to_ascii_lowercase(text::trim(s).as_str());
        let w = word.as_str();
        if text::same_text(w, "no") || text::same_text(w, "never") || text::same_text(w, "false") {
            Ok(RestartPolicy::No)
        } else if text::same_text(w, "on-failure") || text::same_text(w, "on_failure")
            || text::same_text(w, "onfailure") {
            Ok(RestartPolicy::OnFailure)
        } else if text::same_text(w, "always") || text::same_text(w, "true") {
            Ok(RestartPolicy::Always)
        } else {
            let mut message = "invalid restart policy '".to_string();
            message.append(w);
            message.append("', expected one of: no, on-failure, always");
            Err(message)
        }
    }
}

impl std::str::FromStr for RestartPolicy {
    type Err = String;

    fn from_str(s: &str) -> (policy: Result<Self, String>)
        ensures
            match policy {
                Ok(policy) => policy_of(s@) == Some(policy),
                Err(message) => policy_of(s@) is None && message@ == "invalid restart policy '"@
                    + text::lowered(text::trimmed(s@))
                    + "', expected one of: no, on-failure, always"@,
            },
    {
        RestartPolicy::from_str(s)
    }
}

/// A policy is read back from the way it is shown.
pub proof fn law_policy_reads_back(policy: RestartPolicy)
    ensures
        policy_of(policy_name(policy)) == Some(policy),
{
    let name = policy_name(policy);
    reveal_strlit("no");
    reveal_strlit("never");
    reveal_strlit("false");
    reveal_strlit("on-failure");
    reveal_strlit("on_failure");
    reveal_strlit("onfailure");
    reveal_strlit("always");
    reveal_strlit("true");
    assert(name.len() > 0 && !text::is_white(name[0]) && !text::is_white(name.last()));
    assert(text::trimmed(name) == name);
    assert(text::lowered(name) =~= name);
    assert(name.len() == 2 || name.len() == 10 || name.len() == 6);
    assert("never"@.len() == 5 && "false"@.len() == 5);
    if policy == RestartPolicy::OnFailure {
        assert(name[2] == '-');
    }
}

#[derive(Clone, Debug, PartialEq, Eq)]
pub struct RunCommand {
    pub command: String,
    pub args: Vec<String>,
    pub cwd: Option<String>,
    pub hold_on_close: bool,
    pub hold_on_start: bool,
    pub originating_plugin: Option<OriginatingPlugin>,
    pub use_terminal_title: bool,
    /// Supervision policy applied when the command exits.
    pub restart: RestartPolicy,
}

/// Whether every field of `run` but the command is what it is by default.
pub open spec fn plain_run(run: RunCommand) -> bool {
    &&& run.args@.len() == 0
    &&& run.cwd is None
    &&& !run.hold_on_close
    &&& !run.hold_on_start
    &&& run.originating_plugin is None
    &&& !run.use_terminal_title
    &&& run.restart == RestartPolicy::No
}

impl Default for RunCommand {
    fn default() -> (run: Self)
        ensures
            run.command@ == Seq::<char>::empty(),
            plain_run(run),
    {
        RunCommand {
            command: String::new(),
            args: Vec::new(),
            cwd: None,
            hold_on_close: false,
            hold_on_start: false,
            originating_plugin: None,
            use_terminal_title: false,
            restart: RestartPolicy::No,
        }
    }
}

/// `command`, followed by the arguments, each after a blank.
pub open spec fn command_line(command: Seq<char>, args: Seq<Seq<char>>) -> Seq<char>
    decreases args.len(),
{
    if args.len() == 0 {
        command
    } else {
        command_line(command, args.drop_last()).push(' ') + args.last()
    }
}

impl RunCommand {
    pub fn new(command: String) -> (run: Self)
        ensures
            run.command == command,
            plain_run(run),
    {
        RunCommand {
            command,
            args: Vec::new(),
            cwd: None,
            hold_on_close: false,
            hold_on_start: false,
            originating_plugin: None,
            use_terminal_title: false,
            restart: RestartPolicy::No,
        }
    }

    pub fn with_cwd(self, cwd: String) -> (run: Self)
        ensures
            run == (RunCommand { cwd: Some(cwd), ..self }),
    {
        let mut run = self;
        run.cwd = Some(cwd);
        run
    }

    pub fn with_restart(self, restart: RestartPolicy) -> (run: Self)
        ensures
            run == (RunCommand { restart, ..self }),
    {
        let mut run = self;
        run.restart = restart;
        run
    }

    /// The command and its arguments, parted by blanks.
    pub fn to_string(&self) -> (line: String)
        ensures
            line@ == command_line(self.command@, text::views(self.args@)),
    {
        let mut line = self.command.clone();
        let ghost args = text::views(self.args@);
        let mut i: usize = 0;
        assert(args.take(0) =~= Seq::empty());
        while i < self.args.len()
            invariant
                i <= self.args@.len(),
                args == text::views(self.args@),
                line@ == command_line(self.command@, args.take(i as int)),
            decreases self.args@.len() - i,
        {
            line.push(' ');
            line.append(self.args[i].as_str());
            assert(args.take(i + 1).drop_last() =~= args.take(i as int));
            i += 1;
        }
        assert(args.take(i as int) =~= args);
        line
    }
}

/// A command on its way from the user to the pane, with the direction in which the pane opens.
#[derive(Clone, Debug, PartialEq, Eq)]
pub struct RunCommandAction {
    pub command: String,
    pub args: Vec<String>,
    pub cwd: Option<String>,
    pub direction: Option<Direction>,
    pub hold_on_close: bool,
    pub hold_on_start: bool,
    pub originating_plugin: Option<OriginatingPlugin>,
    pub use_terminal_title: bool,
    /// Supervision policy applied when the command exits.
    pub restart: RestartPolicy,
}

/// Whether every field of `action` but the command and its arguments is what it is by default.
pub open spec fn plain_action(action: RunCommandAction) -> bool {
    &&& action.cwd is None
    &&& action.direction is None
    &&& !action.hold_on_close
    &&& !action.hold_on_start
    &&& action.originating_plugin is None
    &&& !action.use_terminal_title
    &&& action.restart == RestartPolicy::No
}

impl Default for RunCommandAction {
    fn default() -> (action: Self)
        ensures
            action.command@ == Seq::<char>::empty(),
            action.args@.len() == 0,
            plain_action(action),
    {
        RunCommandAction {
            command: String::new(),
            args: Vec::new(),
            cwd: None,
            direction: None,
            hold_on_close: false,
            hold_on_start: false,
            originating_plugin: None,
            use_terminal_title: false,
            restart: RestartPolicy::No,
        }
    }
}

impl RunCommandAction {
    /// The first word is the command, the others are its arguments.
    pub fn new(command: Vec<String>) -> (action: Self)
        ensures
            plain_action(action),
            command@.len() == 0 ==> action.command@ == Seq::<char>::empty() && action.args@.len()
                == 0,
            command@.len() > 0 ==> action.command == command@[0] && action.args@ == command@.skip(
                1,
            ),
    {
        let mut command = command;
        if command.len() == 0 {
            RunCommandAction::default()
        } else {
            let ghost given = command@;
            let first = command.remove(0);
            assert(command@ =~= given.skip(1));
            RunCommandAction {
                command: first,
                args: command,
                cwd: None,
                direction: None,
                hold_on_close: false,
                hold_on_start: false,
                originating_plugin: None,
                use_terminal_title: false,
                restart: RestartPolicy::No,
            }
        }
    }

    pub fn populate_originating_plugin(&mut self, originating_plugin: OriginatingPlugin)
        ensures
            *final(self) == (RunCommandAction {
                originating_plugin: Some(originating_plugin),
                ..*old(self)
            }),
    {
        self.originating_plugin = Some(originating_plugin);
    }
}

/// The command of an action: the action without its direction.
pub open spec fn run_of_action(action: RunCommandAction) -> RunCommand {
    RunCommand {
        command: action.command,
        args: action.args,
        cwd: action.cwd,
        hold_on_close: action.hold_on_close,
        hold_on_start: action.hold_on_start,
        originating_plugin: action.originating_plugin,
        use_terminal_title: action.use_terminal_title,
        restart: action.restart,
    }
}

/// The action that runs a command: no direction is asked for.
pub open spec fn action_of_run(run: RunCommand) -> RunCommandAction {
    RunCommandAction {
        command: run.command,
        args: run.args,
        cwd: run.cwd,
        direction: None,
        hold_on_close: run.hold_on_close,
        hold_on_start: run.hold_on_start,
        originating_plugin: run.originating_plugin,
        use_terminal_title: run.use_terminal_title,
        restart: run.restart,
    }
}

impl vstd::std_specs::convert::FromSpecImpl<RunCommandAction> for RunCommand {
    open spec fn obeys_from_spec() -> bool {
        true
    }

    open spec fn from_spec(action: RunCommandAction) -> Self {
        run_of_action(action)
    }
}

impl From<RunCommandAction> for RunCommand {
    fn from(action: RunCommandAction) -> (run: Self) {
        RunCommand {
            command: action.command,
            args: action.args,
            cwd: action.cwd,
            hold_on_close: action.hold_on_close,
            hold_on_start: action.hold_on_start,
            originating_plugin: action.originating_plugin,
            use_terminal_title: action.use_terminal_title,
            restart: action.restart,
        }
    }
}

impl vstd::std_specs::convert::FromSpecImpl<RunCommand> for RunCommandAction {
    open spec fn obeys_from_spec() -> bool {
        true
    }

    open spec fn from_spec(run: RunCommand) -> Self {
        action_of_run(run)
    }
}

impl From<RunCommand> for RunCommandAction {
    fn from(run_command: RunCommand) -> (action: Self) {
        RunCommandAction {
            command: run_command.command,
            args: run_command.args,
            cwd: run_command.cwd,
            direction: None,
            hold_on_close: run_command.hold_on_close,
            hold_on_start: run_command.hold_on_start,
            originating_plugin: run_command.originating_plugin,
            use_terminal_title: run_command.use_terminal_title,
            restart: run_command.restart,
        }
    }
}

/// Turning a command into an action and back keeps it whole; the other way round only the
/// direction is lost.
pub proof fn law_command_survives_as_action(run: RunCommand, action: RunCommandAction)
    ensures
        run_of_action(action_of_run(run)) == run,
        action_of_run(run_of_action(action)) == (RunCommandAction { direction: None, ..action }),
{
}

/// Of what a command and its action have in common, each part is the same in both; only the
/// direction belongs to the action alone.
pub proof fn law_action_keeps_every_part(run: RunCommand, action: RunCommandAction)
    ensures
        run_of_action(action).command == action.command && action_of_run(run).command
            == run.command,
        run_of_action(action).args == action.args && action_of_run(run).args == run.args,
        run_of_action(action).cwd == action.cwd && action_of_run(run).cwd == run.cwd,
        run_of_action(action).hold_on_close == action.hold_on_close && action_of_run(
            run,
        ).hold_on_close == run.hold_on_close,
        run_of_action(action).hold_on_start == action.hold_on_start && action_of_run(
            run,
        ).hold_on_start == run.hold_on_start,
        run_of_action(action).originating_plugin == action.originating_plugin && action_of_run(
            run,
        ).originating_plugin == run.originating_plugin,
        run_of_action(action).use_terminal_title == action.use_terminal_title && action_of_run(
            run,
        ).use_terminal_title == run.use_terminal_title,
        run_of_action(action).restart == action.restart && action_of_run(run).restart
            == run.restart,
        action_of_run(run).direction is None,
{
}

/// A command line is the command and its arguments with one blank between each two, every argument
/// in its place; more arguments only make it longer.
pub proof fn law_command_line_holds_every_argument(
    command: Seq<char>,
    a: Seq<Seq<char>>,
    b: Seq<Seq<char>>,
)
    ensures
        command_line(command, a) == text::joined_by(seq![command] + a, ' '),
        command_line(command, a + b) == command_line(command_line(command, a), b),
    decreases a.len() + b.len(),
{
    if a.len() == 0 {
        assert(seq![command] + a =~= seq![command]);
    } else {
        let front = a.drop_last();
        law_command_line_holds_every_argument(command, front, seq![]);
        text::law_joining_a_list_in_two_parts(
            seq![command] + front,
            seq![a.last()],
            a.last(),
            ' ',
            seq![' '],
        );
        assert(seq![command] + a =~= (seq![command] + front) + seq![a.last()]);
    }
    if b.len() == 0 {
        assert(a + b =~= a);
    } else {
        law_command_line_holds_every_argument(command, a, b.drop_last());
        assert((a + b).drop_last() =~= a + b.drop_last());
    }
}

/// A policy is read from exactly these words, whatever the case of their letters and the white
/// space around them.
pub proof fn law_policy_spellings(left: Seq<char>, word: Seq<char>, right: Seq<char>)
    requires
        forall|i: int| 0 <= i < left.len() ==> text::is_white(#[trigger] left[i]),
        forall|i: int| 0 <= i < right.len() ==> text::is_white(#[trigger] right[i]),
        word.len() > 0 ==> !text::is_white(word[0]) && !text::is_white(word[word.len() - 1]),
    ensures
        policy_of(left + word + right) == policy_of(word),
        policy_of(left + word + right) == Some(RestartPolicy::No) <==> {
            let w = text::lowered(word);
            w == "no"@ || w == "never"@ || w == "false"@
        },
        policy_of(left + word + right) == Some(RestartPolicy::OnFailure) <==> {
            let w = text::lowered(word);
            w == "on-failure"@ || w == "on_failure"@ || w == "onfailure"@
        },
        policy_of(left + word + right) == Some(RestartPolicy::Always) <==> {
            let w = text::lowered(word);
            w == "always"@ || w == "true"@
        },
{
    let none = Seq::<char>::empty();
    text::law_trimming_takes_white_space_only(left, word, right);
    text::law_trimming_takes_white_space_only(none, word, none);
    assert(none + word + none =~= word);
    reveal_strlit("no");
    reveal_strlit("never");
    reveal_strlit("false");
    reveal_strlit("on-failure");
    reveal_strlit("on_failure");
    reveal_strlit("onfailure");
    reveal_strlit("always");
    reveal_strlit("true");
    assert("no"@[0] == 'n' && "never"@[0] == 'n' && "false"@[0] == 'f');
    assert("on-failure"@[0] == 'o' && "on_failure"@[0] == 'o' && "onfailure"@[0] == 'o');
    assert("always"@[0] == 'a' && "true"@[0] == 't');
}

/// Without a policy nothing is restarted; `always` restarts whatever the status; `on-failure`
/// restarts exactly what did not exit with the status zero, what was killed among it.
pub proof fn law_restart_follows_the_policy(
    policy: RestartPolicy,
    exit_status: Option<i32>,
    b: bool,
    no: bool,
)
    requires
        call_ensures(RestartPolicy::should_restart, (&policy, exit_status), b),
        call_ensures(RestartPolicy::is_no, (&policy,), no),
    ensures
        no <==> policy is No,
        no ==> !b,
        policy is Always ==> b,
        policy is OnFailure && exit_status is None ==> b,
        policy is OnFailure ==> (exit_status matches Some(status) ==> (b <==> status != 0)),
{
}

/// A command of several words runs the first with the others as its arguments, in order; what an
/// action runs in changes with its directory, and nothing else.
pub proof fn law_words_become_command_and_arguments(
    words: Vec<String>,
    action: RunCommandAction,
    target: &mut TerminalAction,
    new_cwd: String,
)
    requires
        call_ensures(RunCommandAction::new, (words,), action),
        call_ensures(TerminalAction::change_cwd, (target, new_cwd), ()),
    ensures
        words@.len() > 0 ==> seq![action.command] + action.args@ == words@,
        words@.len() == 0 ==> action.command@.len() == 0 && action.args@.len() == 0,
        *old(target) is OpenFile <==> *final(target) is OpenFile,
        *old(target) matches TerminalAction::RunCommand(before) ==> (
        *final(target) matches TerminalAction::RunCommand(after) && after.cwd == Some(new_cwd)
            && before == (RunCommand { cwd: before.cwd, ..after })),
        *old(target) matches TerminalAction::OpenFile(before) ==> (
        *final(target) matches TerminalAction::OpenFile(after) && after.cwd == Some(new_cwd)
            && before == (OpenFilePayload { cwd: before.cwd, ..after })),
{
    if words@.len() > 0 {
        assert(seq![action.command] + action.args@ =~= words@);
    }
}

/// A policy is read back from its own name, whichever way it is written and read.
pub proof fn law_shown_policy_is_read(
    policy: RestartPolicy,
    shown: String,
    name: &str,
    s: &str,
    r: Result<RestartPolicy, String>,
)
    requires
        call_ensures(RestartPolicy::to_string, (&policy,), shown),
        call_ensures(RestartPolicy::as_str, (&policy,), name),
        call_ensures(RestartPolicy::from_str, (s,), r),
    ensures
        shown@ == name@,
        s@ == name@ ==> r == Ok::<RestartPolicy, String>(policy),
        r is Ok <==> policy_of(s@) is Some,
        r matches Ok(read) ==> policy_of(s@) == Some(read),
{
    law_policy_reads_back(policy);
}

/// Naming a directory, a policy or a plugin changes that and nothing else.
pub proof fn law_one_part_changes_at_a_time(
    run: RunCommand,
    cwd: String,
    moved: RunCommand,
    policy: RestartPolicy,
    supervised: RunCommand,
    payload: OpenFilePayload,
    plugin: OriginatingPlugin,
    opened: OpenFilePayload,
    action: &mut RunCommandAction,
)
    requires
        call_ensures(RunCommand::with_cwd, (run, cwd), moved),
        call_ensures(RunCommand::with_restart, (run, policy), supervised),
        call_ensures(OpenFilePayload::with_originating_plugin, (payload, plugin), opened),
        call_ensures(RunCommandAction::populate_originating_plugin, (action, plugin), ()),
    ensures
        moved.cwd == Some(cwd) && run == (RunCommand { cwd: run.cwd, ..moved }),
        supervised.restart == policy && run == (RunCommand { restart: run.restart, ..supervised }),
        opened.originating_plugin == Some(plugin) && payload == (OpenFilePayload {
            originating_plugin: payload.originating_plugin,
            ..opened
        }),
        final(action).originating_plugin == Some(plugin) && *old(action) == (RunCommandAction {
            originating_plugin: old(action).originating_plugin,
            ..*final(action)
        }),
{
}

/// A plain command or action is one of which nothing but the words is said: nothing is held,
/// nothing restarted, and no directory, direction or plugin is named. A new one is plain.
pub proof fn law_new_command_is_plain(
    command: String,
    run: RunCommand,
    action: RunCommandAction,
    path: String,
    line: Option<usize>,
    cwd: Option<String>,
    payload: OpenFilePayload,
)
    requires
        call_ensures(RunCommand::new, (command,), run),
        plain_action(action),
        call_ensures(OpenFilePayload::new, (path, line, cwd), payload),
    ensures
        run.command == command && run.args@.len() == 0 && run.cwd is None && !run.hold_on_close
            && !run.hold_on_start && run.originating_plugin is None && !run.use_terminal_title
            && run.restart is No,
        action.cwd is None && action.direction is None && !action.hold_on_close
            && !action.hold_on_start && action.originating_plugin is None
            && !action.use_terminal_title && action.restart is No,
        payload.path == path && payload.line_number == line && payload.cwd == cwd
            && payload.originating_plugin is None,
{
}

} // verus!
