//! The registry of services.
//!
//! A service is a named, supervised command. It runs in a detached session of its own, and its
//! definition is a small file in a directory of such files.
use crate::command::RestartPolicy;
use crate::outside;
use crate::path;
use crate::path::FileAnswer;
use crate::sorting;
use crate::text;
use vstd::prelude::*;

verus! {

/// What the name of a service's session begins with.
pub const SERVICE_SESSION_PREFIX: &'static str = "svc-";

/// Name of the directory, inside the config directory, that holds the definitions.
pub const SERVICES_DIR_NAME: &'static str = "services";

/// What the name of a definition's file ends with.
pub const DEFINITION_SUFFIX: &'static str = ".json";

/// The longest service name, in bytes.
pub const MAX_SERVICE_NAME_LEN: usize = 64;

// ---------------------------------------------------------------------------------------------
// definitions
// ---------------------------------------------------------------------------------------------

#[derive(Clone, Debug, PartialEq, Eq)]
pub struct ServiceDefinition {
    pub name: String,
    /// The stable identity of the service, from which its address is derived, so that renaming the
    /// service does not move it. Old definitions have none.
    pub id: String,
    /// The program and its arguments.
    pub command: Vec<String>,
    pub cwd: Option<String>,
    pub restart: RestartPolicy,
    /// When the definition was made, in seconds since the Unix epoch.
    pub created_at: u64,
    /// Whether the service gets a loopback address of its own.
    pub bind_ip: bool,
}

/// Two hexadecimal digits for each byte.
pub open spec fn hex_pairs(bytes: Seq<u8>) -> Seq<char>
    decreases bytes.len(),
{
    if bytes.len() == 0 {
        seq![]
    } else {
        hex_pairs(bytes.drop_last()).push(text::digit((bytes.last() / 16) as nat)).push(
            text::digit((bytes.last() % 16) as nat),
        )
    }
}

/// Whether `id` is what a random identity looks like: sixteen bytes with the version four and the
/// variant binary 10, in hexadecimal.
pub open spec fn is_random_id(id: Seq<char>) -> bool {
    exists|uuid: Seq<u8>|
        uuid.len() == 16 && uuid[6] / 16 == 4 && uuid[8] / 64 == 2 && id == #[trigger] hex_pairs(
            uuid,
        )
}

proof fn lemma_hex_pairs_len(bytes: Seq<u8>)
    ensures
        hex_pairs(bytes).len() == 2 * bytes.len(),
    decreases bytes.len(),
{
    if bytes.len() > 0 {
        lemma_hex_pairs_len(bytes.drop_last());
    }
}

/// Two hexadecimal digits for each byte.
fn write_hex_pairs(bytes: &[u8; 16]) -> (s: String)
    ensures
        s@ == hex_pairs(bytes@),
{
    let mut s = String::new();
    let mut i: usize = 0;
    assert(bytes@.take(0) =~= Seq::empty());
    while i < 16
        invariant
            i <= 16,
            bytes@.len() == 16,
            s@ == hex_pairs(bytes@.take(i as int)),
        decreases 16 - i,
    {
        let b: u8 = bytes[i];
        s.push(text::digit_char(b / 16));
        s.push(text::digit_char(b % 16));
        assert(bytes@.take(i + 1).drop_last() =~= bytes@.take(i as int));
        i += 1;
    }
    assert(bytes@.take(16) =~= bytes@);
    s
}

/// The text from which the address of a service with this name and id is derived: the id, or, for
/// want of one, the name.
pub open spec fn address_id_of(name: Seq<char>, id: Seq<char>) -> Seq<char> {
    if id.len() == 0 {
        "name:"@ + name
    } else {
        id
    }
}

/// Whether a word of a command is shown quoted: it is empty, or holds white space.
pub open spec fn is_quoted_when_shown(word: Seq<char>) -> bool {
    word.len() == 0 || exists|i: int| 0 <= i < word.len() && text::is_white(#[trigger] word[i])
}

/// A word of a command as it is shown.
pub open spec fn shown_word(word: Seq<char>) -> Seq<char> {
    if is_quoted_when_shown(word) {
        outside::debug_text(word)
    } else {
        word
    }
}

/// The words of a command as they are shown.
pub open spec fn shown_words(words: Seq<Seq<char>>) -> Seq<Seq<char>> {
    words.map_values(|w: Seq<char>| shown_word(w))
}

/// Whether a word of a command is shown quoted.
pub fn needs_quoting(word: &str) -> (b: bool)
    ensures
        b == is_quoted_when_shown(word@),
{
    let chars = text::chars_of(word);
    let mut i: usize = 0;
    while i < chars.len()
        invariant
            i <= chars@.len(),
            chars@ == word@,
            forall|j: int| 0 <= j < i ==> !text::is_white(#[trigger] chars@[j]),
        decreases chars@.len() - i,
    {
        if text::is_whitespace(chars[i]) {
            assert(text::is_white(word@[i as int]));
            return true;
        }
        i += 1;
    }
    chars.len() == 0
}

/// A word of a command as it is shown, given its quoted form.
pub fn choose_shown(word: &str, quoted: String) -> (s: String)
    ensures
        s@ == (if is_quoted_when_shown(word@) {
            quoted@
        } else {
            word@
        }),
{
    if needs_quoting(word) {
        quoted
    } else {
        word.to_string()
    }
}

impl ServiceDefinition {
    /// A new definition, made at `seconds` since the epoch (`None`: before it), whose identity is
    /// `uuid`.
    pub fn with_identity(
        name: String,
        uuid: [u8; 16],
        seconds: Option<u64>,
        command: Vec<String>,
        cwd: Option<String>,
        restart: RestartPolicy,
    ) -> (service: Self)
        ensures
            service.name == name,
            service.id@ == hex_pairs(uuid@),
            service.command == command,
            service.cwd == cwd,
            service.restart == restart,
            service.created_at == seconds.unwrap_or(0),
            !service.bind_ip,
    {
        let created_at: u64 = match seconds {
            Some(s) => s,
            None => 0,
        };
        ServiceDefinition {
            name,
            id: write_hex_pairs(&uuid),
            command,
            cwd,
            restart,
            created_at,
            bind_ip: false,
        }
    }

    /// A new definition, made now, with a fresh random identity.
    pub fn new(
        name: String,
        command: Vec<String>,
        cwd: Option<String>,
        restart: RestartPolicy,
    ) -> (service: Self)
        ensures
            service.name == name,
            service.id@.len() == 32,
            is_random_id(service.id@),
            service.command == command,
            service.cwd == cwd,
            service.restart == restart,
            !service.bind_ip,
    {
        let uuid = outside::random_uuid();
        let service = ServiceDefinition::with_identity(
            name,
            uuid,
            outside::seconds_since_epoch(),
            command,
            cwd,
            restart,
        );
        proof {
            lemma_hex_pairs_len(uuid@);
        }
        service
    }

    /// The text from which the service's address is derived.
    pub fn address_id(&self) -> (id: String)
        ensures
            id@ == address_id_of(self.name@, self.id@),
    {
        if self.id.as_str().is_empty() {
            let mut id = "name:".to_string();
            id.append(self.name.as_str());
            id
        } else {
            self.id.clone()
        }
    }

    /// The session that the service runs in.
    pub fn session_name(&self) -> (s: String)
        ensures
            s@ == session_of(self.name@),
    {
        session_name_for(self.name.as_str())
    }

    /// The command on one line, for people to read.
    pub fn command_display(&self) -> (s: String)
        ensures
            s@ == text::joined_by(shown_words(text::views(self.command@)), ' '),
    {
        let ghost words = text::views(self.command@);
        let mut shown: Vec<String> = Vec::new();
        let mut i: usize = 0;
        while i < self.command.len()
            invariant
                i <= self.command@.len(),
                words == text::views(self.command@),
                text::views(shown@) == shown_words(words.take(i as int)),
            decreases self.command@.len() - i,
        {
            let word = self.command[i].as_str();
            let ghost before = text::views(shown@);
            shown.push(choose_shown(word, outside::quoted(word)));
            assert(text::views(shown@) =~= before.push(shown_word(words[i as int])));
            assert(shown_words(words.take(i + 1)) =~= shown_words(words.take(i as int)).push(
                shown_word(words[i as int]),
            ));
            i += 1;
        }
        assert(words.take(i as int) =~= words);
        text::join(&shown, ' ')
    }
}

/// The session of a service.
pub open spec fn session_of(name: Seq<char>) -> Seq<char> {
    SERVICE_SESSION_PREFIX@ + name
}

/// The session that a service runs in.
pub fn session_name_for(service_name: &str) -> (s: String)
    ensures
        s@ == session_of(service_name@),
{
    let mut s = SERVICE_SESSION_PREFIX.to_string();
    s.append(service_name);
    s
}

/// The session of a service is told by its prefix, and two services never share one.
pub proof fn law_sessions_are_distinct(a: Seq<char>, b: Seq<char>)
    ensures
        text::after_prefix(session_of(a), SERVICE_SESSION_PREFIX@) == Some(a),
        session_of(a) == session_of(b) ==> a == b,
{
    let n = SERVICE_SESSION_PREFIX@.len() as int;
    assert(session_of(a).take(n) =~= SERVICE_SESSION_PREFIX@);
    assert(session_of(a).skip(n) =~= a);
    assert(session_of(b).skip(n) =~= b);
}

/// The address of a service rests on its id alone: renaming the service does not move it. One
/// without an id rests on its name.
pub proof fn law_renaming_does_not_move(name: Seq<char>, new_name: Seq<char>, id: Seq<char>)
    ensures
        id.len() > 0 ==> address_id_of(name, id) == address_id_of(new_name, id),
        id.len() == 0 ==> address_id_of(name, id) == "name:"@ + name,
{
}

// ---------------------------------------------------------------------------------------------
// names
// ---------------------------------------------------------------------------------------------

/// Whether `c` may stand in a service name: an ASCII letter or digit, `-`, `_` or `.`.
pub open spec fn is_name_char(c: char) -> bool {
    ||| 'a' <= c && c <= 'z'
    ||| 'A' <= c && c <= 'Z'
    ||| '0' <= c && c <= '9'
    ||| c == '-'
    ||| c == '_'
    ||| c == '.'
}

/// A name that a service may have: one to 64 characters out of letters, digits, `-`, `_` and `.`,
/// of which the first is neither `.` nor `-`.
pub open spec fn is_service_name(name: Seq<char>) -> bool {
    &&& 1 <= name.len() <= MAX_SERVICE_NAME_LEN
    &&& name[0] != '.' && name[0] != '-'
    &&& forall|i: int| 0 <= i < name.len() ==> is_name_char(#[trigger] name[i])
}

/// What is wrong with a service name.
#[derive(Clone, Copy, Debug, PartialEq, Eq)]
pub enum ServiceNameError {
    Empty,
    /// More than 64 bytes.
    TooLong,
    /// It begins with `.` or `-`.
    BadStart,
    /// The first character that may not stand in a name.
    BadCharacter(char),
}

/// The first character that may not stand in a name.
pub open spec fn first_bad_char(name: Seq<char>) -> Option<char>
    decreases name.len(),
{
    if name.len() == 0 {
        None
    } else if !is_name_char(name[0]) {
        Some(name[0])
    } else {
        first_bad_char(name.skip(1))
    }
}

/// What is wrong with a name, if anything.
pub open spec fn name_error(name: Seq<char>) -> Option<ServiceNameError> {
    if name.len() == 0 {
        Some(ServiceNameError::Empty)
    } else if vstd::utf8::encode_utf8(name).len() > MAX_SERVICE_NAME_LEN {
        Some(ServiceNameError::TooLong)
    } else if name[0] == '.' || name[0] == '-' {
        Some(ServiceNameError::BadStart)
    } else {
        match first_bad_char(name) {
            Some(c) => Some(ServiceNameError::BadCharacter(c)),
            None => None,
        }
    }
}

/// The message for an error; `shown` is how the formatter shows the bad character.
pub open spec fn name_error_text(e: ServiceNameError, shown: Seq<char>) -> Seq<char> {
    match e {
        ServiceNameError::Empty => "service name cannot be empty"@,
        ServiceNameError::TooLong => "service name cannot be longer than 64 characters"@,
        ServiceNameError::BadStart => "service name cannot start with '.' or '-'"@,
        ServiceNameError::BadCharacter(_) => "service name contains invalid character "@ + shown
            + "; allowed: letters, digits, '-', '_', '.'"@,
    }
}

/// How the formatter shows the character that an error is about.
pub open spec fn shown_in_error(e: ServiceNameError) -> Seq<char> {
    match e {
        ServiceNameError::BadCharacter(c) => outside::debug_char(c),
        _ => seq![],
    }
}

/// The first character that may not stand in a name.
fn find_bad_char(name: &str) -> (bad: Option<char>)
    ensures
        bad == first_bad_char(name@),
{
    let chars = text::chars_of(name);
    let mut i: usize = 0;
    assert(chars@.skip(0) =~= chars@);
    while i < chars.len()
        invariant
            i <= chars@.len(),
            chars@ == name@,
            first_bad_char(chars@.skip(i as int)) == first_bad_char(name@),
        decreases chars@.len() - i,
    {
        let c = chars[i];
        assert(chars@.skip(i as int)[0] == c);
        if !(('a' <= c && c <= 'z') || ('A' <= c && c <= 'Z') || ('0' <= c && c <= '9') || c == '-'
            || c == '_' || c == '.') {
            return Some(c);
        }
        assert(chars@.skip(i as int).skip(1) =~= chars@.skip(i + 1));
        i += 1;
    }
    None
}

/// Say what is wrong with a name, if anything.
pub fn check_service_name(name: &str) -> (r: Result<(), ServiceNameError>)
    ensures
        match r {
            Ok(_) => name_error(name@) is None,
            Err(e) => name_error(name@) == Some(e),
        },
{
    if name.is_empty() {
        return Err(ServiceNameError::Empty);
    }
    if name.as_bytes().len() > MAX_SERVICE_NAME_LEN {
        return Err(ServiceNameError::TooLong);
    }
    let first = name.get_char(0);
    if first == '.' || first == '-' {
        return Err(ServiceNameError::BadStart);
    }
    match find_bad_char(name) {
        Some(bad) => Err(ServiceNameError::BadCharacter(bad)),
        None => Ok(()),
    }
}

impl ServiceNameError {
    /// The message, given how the formatter shows the bad character.
    pub fn message(&self, shown: &str) -> (s: String)
        ensures
            s@ == name_error_text(*self, shown@),
    {
        match self {
            ServiceNameError::Empty => "service name cannot be empty".to_string(),
            ServiceNameError::TooLong =>
                "service name cannot be longer than 64 characters".to_string(),
            ServiceNameError::BadStart => "service name cannot start with '.' or '-'".to_string(),
            ServiceNameError::BadCharacter(_) => {
                let mut s = "service name contains invalid character ".to_string();
                s.append(shown);
                s.append("; allowed: letters, digits, '-', '_', '.'");
                s
            },
        }
    }
}

/// Refuse a name that is not fit to be a file name and part of a session name.
pub fn validate_service_name(name: &str) -> (r: Result<(), String>)
    ensures
        match r {
            Ok(_) => is_service_name(name@),
            Err(message) => {
                &&& !is_service_name(name@)
                &&& name_error(name@) matches Some(e)
                &&& message@ == name_error_text(e, shown_in_error(e))
            },
        },
{
    proof {
        law_name_rule(name@);
    }
    match check_service_name(name) {
        Ok(_) => Ok(()),
        Err(ServiceNameError::BadCharacter(c)) => Err(
            ServiceNameError::BadCharacter(c).message(outside::quoted_char(c).as_str()),
        ),
        Err(e) => {
            let nothing = String::new();
            assert(nothing@ =~= shown_in_error(e));
            Err(e.message(nothing.as_str()))
        },
    }
}

proof fn lemma_first_bad_char(name: Seq<char>)
    ensures
        first_bad_char(name) is None <==> (forall|i: int|
            0 <= i < name.len() ==> is_name_char(#[trigger] name[i])),
    decreases name.len(),
{
    if name.len() > 0 {
        let rest = name.skip(1);
        lemma_first_bad_char(rest);
        if first_bad_char(rest) is None && is_name_char(name[0]) {
            assert forall|i: int| 0 <= i < name.len() implies is_name_char(#[trigger] name[i]) by {
                if i > 0 {
                    assert(name[i] == rest[i - 1]);
                }
            }
        }
        if forall|i: int| 0 <= i < name.len() ==> is_name_char(#[trigger] name[i]) {
            assert forall|i: int| 0 <= i < rest.len() implies is_name_char(#[trigger] rest[i]) by {
                assert(rest[i] == name[i + 1]);
            }
        }
    }
}

proof fn lemma_utf8_at_least_chars(s: Seq<char>)
    ensures
        vstd::utf8::encode_utf8(s).len() >= s.len(),
    decreases s.len(),
{
    if s.len() > 0 {
        lemma_utf8_at_least_chars(s.drop_first());
    }
}

/// A name is accepted exactly when it has one to 64 characters out of letters, digits, `-`, `_`
/// and `.`, and begins with neither `.` nor `-`.
pub proof fn law_name_rule(name: Seq<char>)
    ensures
        name_error(name) is None <==> is_service_name(name),
{
    lemma_first_bad_char(name);
    lemma_utf8_at_least_chars(name);
    if forall|i: int| 0 <= i < name.len() ==> is_name_char(#[trigger] name[i]) {
        assert(vstd::utf8::is_ascii_chars(name)) by {
            assert forall|i: int| 0 <= i < name.len() implies '\0' <= #[trigger] name[i] && name[i]
                <= '\u{7f}' by {
                assert(is_name_char(name[i]));
            }
        }
        vstd::utf8::is_ascii_chars_encode_utf8(name);
    }
}

// ---------------------------------------------------------------------------------------------
// the registry
// ---------------------------------------------------------------------------------------------

/// A directory of definitions, one file `<name>.json` each.
#[derive(Clone, Debug)]
pub struct ServiceRegistry {
    dir: String,
}

/// How a definition gets onto the disk: the directory is made, the file is written under the
/// temporary path and then moved, so that a crash never leaves half a definition behind.
#[derive(Clone, Debug, PartialEq, Eq)]
pub struct SavePlan {
    pub dir: String,
    pub tmp: String,
    pub path: String,
}

/// A definition's file as it was found: its name, and the definition in it or why it has none.
#[derive(Debug, PartialEq, Eq)]
pub struct DefinitionFile {
    pub file_name: String,
    pub content: Result<ServiceDefinition, String>,
}

/// The definitions in a directory, and a line for the log on each file that could not be read.
#[derive(Clone, Debug, PartialEq, Eq)]
pub struct Listing {
    pub services: Vec<ServiceDefinition>,
    pub skipped: Vec<String>,
}

/// The file of a service's definition.
pub open spec fn definition_file(name: Seq<char>) -> Seq<char> {
    name + DEFINITION_SUFFIX@
}

/// The file that a service's definition is first written to.
pub open spec fn temporary_file(name: Seq<char>) -> Seq<char> {
    seq!['.'] + name + ".json.tmp"@
}

/// Whether a file in the directory holds a definition: it is not hidden, and ends in `.json`.
pub open spec fn is_definition(file_name: Seq<char>) -> bool {
    !text::has_prefix(file_name, seq!['.']) && text::has_suffix(file_name, DEFINITION_SUFFIX@)
}

/// Whether a file in the directory holds a definition.
pub fn is_definition_file(file_name: &str) -> (b: bool)
    ensures
        b == is_definition(file_name@),
{
    if file_name.is_empty() {
        proof {
            reveal_strlit(".json");
        }
        return false;
    }
    assert(text::has_prefix(file_name@, seq!['.']) <==> file_name@[0] == '.') by {
        assert(file_name@.take(1) =~= seq![file_name@[0]]);
        assert(seq!['.'][0] == '.' && seq![file_name@[0]][0] == file_name@[0]);
    }
    file_name.get_char(0) != '.' && text::ends_with(file_name, DEFINITION_SUFFIX)
}

/// The definitions among the files, in the order in which the files came.
pub open spec fn readable(files: Seq<DefinitionFile>) -> Seq<ServiceDefinition>
    decreases files.len(),
{
    if files.len() == 0 {
        seq![]
    } else {
        let front = readable(files.drop_last());
        match files.last().content {
            Ok(service) => if is_definition(files.last().file_name@) {
                front.push(service)
            } else {
                front
            },
            Err(_) => front,
        }
    }
}

/// The lines for the log on the definitions that could not be read.
pub open spec fn unreadable(dir: Seq<char>, files: Seq<DefinitionFile>) -> Seq<Seq<char>>
    decreases files.len(),
{
    if files.len() == 0 {
        seq![]
    } else {
        let front = unreadable(dir, files.drop_last());
        match files.last().content {
            Ok(_) => front,
            Err(e) => if is_definition(files.last().file_name@) {
                front.push(
                    "Skipping unreadable service definition "@ + path::joined(
                        dir,
                        files.last().file_name@,
                    ) + ": "@ + e@,
                )
            } else {
                front
            },
        }
    }
}

/// The definition that reading a file gives.
pub open spec fn definition_in<E>(
    answer: FileAnswer<Result<ServiceDefinition, E>, E>,
) -> Result<Option<ServiceDefinition>, E> {
    match answer {
        FileAnswer::Done(Ok(service)) => Ok(Some(service)),
        FileAnswer::Done(Err(e)) => Err(e),
        FileAnswer::Missing => Ok(None),
        FileAnswer::Failed(e) => Err(e),
    }
}

/// The path of a service's definition.
pub open spec fn definition_path(dir: Seq<char>, name: Seq<char>) -> Seq<char> {
    path::joined(dir, definition_file(name))
}

/// The definitions on a disk, by path, once one has been saved: it was written to the temporary path
/// and moved from there.
pub open spec fn after_save(
    files: Map<Seq<char>, ServiceDefinition>,
    dir: Seq<char>,
    service: ServiceDefinition,
) -> Map<Seq<char>, ServiceDefinition> {
    files.remove(path::joined(dir, temporary_file(service.name@))).insert(
        definition_path(dir, service.name@),
        service,
    )
}

/// What a disk that works answers when the definition of a service is read.
pub open spec fn read_answer<E>(
    files: Map<Seq<char>, ServiceDefinition>,
    dir: Seq<char>,
    name: Seq<char>,
) -> FileAnswer<Result<ServiceDefinition, E>, E> {
    if files.contains_key(definition_path(dir, name)) {
        FileAnswer::Done(Ok(files[definition_path(dir, name)]))
    } else {
        FileAnswer::Missing
    }
}

/// What a disk that works answers when the definition of a service is removed.
pub open spec fn remove_answer<E>(
    files: Map<Seq<char>, ServiceDefinition>,
    dir: Seq<char>,
    name: Seq<char>,
) -> FileAnswer<(), E> {
    if files.contains_key(definition_path(dir, name)) {
        FileAnswer::Done(())
    } else {
        FileAnswer::Missing
    }
}

/// The definitions on a disk once that of a service has been removed.
pub open spec fn after_remove(
    files: Map<Seq<char>, ServiceDefinition>,
    dir: Seq<char>,
    name: Seq<char>,
) -> Map<Seq<char>, ServiceDefinition> {
    files.remove(definition_path(dir, name))
}

impl sorting::Ranked for ServiceDefinition {
    /// Services are ranked by name.
    open spec fn at_most(&self, other: &Self) -> bool {
        text::not_after(self.name@, other.name@)
    }

    proof fn ranks_are_total(a: &Self, b: &Self) {
        text::lemma_order_is_total(a.name@, b.name@);
    }

    proof fn ranks_are_transitive(a: &Self, b: &Self, c: &Self) {
        text::lemma_order_is_transitive(a.name@, b.name@, c.name@);
    }

    fn is_at_most(&self, other: &Self) -> (b: bool) {
        text::is_not_after(self.name.as_str(), other.name.as_str())
    }
}

impl ServiceRegistry {
    /// The directory.
    pub closed spec fn directory(&self) -> Seq<char> {
        self.dir@
    }

    /// The registry inside a config directory.
    pub fn in_config_dir(config_dir: &str) -> (registry: Self)
        ensures
            registry.directory() == path::joined(config_dir@, SERVICES_DIR_NAME@),
    {
        ServiceRegistry { dir: path::join(config_dir, SERVICES_DIR_NAME) }
    }

    pub fn at(dir: String) -> (registry: Self)
        ensures
            registry.directory() == dir@,
    {
        ServiceRegistry { dir }
    }

    pub fn dir(&self) -> (dir: &str)
        ensures
            dir@ == self.directory(),
    {
        self.dir.as_str()
    }

    /// The path of a service's definition.
    pub fn file_for(&self, name: &str) -> (path: String)
        ensures
            path@ == path::joined(self.directory(), definition_file(name@)),
    {
        let mut file = name.to_string();
        file.append(DEFINITION_SUFFIX);
        path::join(self.dir.as_str(), file.as_str())
    }

    /// Where to write a definition. The name has to be valid.
    pub fn save(&self, service: &ServiceDefinition) -> (r: Result<SavePlan, String>)
        ensures
            match r {
                Ok(plan) => {
                    &&& is_service_name(service.name@)
                    &&& plan.dir@ == self.directory()
                    &&& plan.path@ == path::joined(
                        self.directory(),
                        definition_file(service.name@),
                    )
                    &&& plan.tmp@ == path::joined(self.directory(), temporary_file(service.name@))
                },
                Err(message) => {
                    &&& name_error(service.name@) matches Some(e)
                    &&& message@ == name_error_text(e, shown_in_error(e))
                },
            },
    {
        match validate_service_name(service.name.as_str()) {
            Err(message) => Err(message),
            Ok(_) => {
                let mut tmp = String::new();
                tmp.push('.');
                tmp.append(service.name.as_str());
                tmp.append(".json.tmp");
                assert(tmp@ =~= temporary_file(service.name@));
                Ok(
                    SavePlan {
                        dir: self.dir.clone(),
                        tmp: path::join(self.dir.as_str(), tmp.as_str()),
                        path: self.file_for(service.name.as_str()),
                    },
                )
            },
        }
    }

    /// Where to read a definition. The name has to be valid.
    pub fn load(&self, name: &str) -> (r: Result<String, String>)
        ensures
            match r {
                Ok(path) => is_service_name(name@) && path@ == path::joined(
                    self.directory(),
                    definition_file(name@),
                ),
                Err(message) => {
                    &&& name_error(name@) matches Some(e)
                    &&& message@ == name_error_text(e, shown_in_error(e))
                },
            },
    {
        match validate_service_name(name) {
            Err(message) => Err(message),
            Ok(_) => Ok(self.file_for(name)),
        }
    }

    /// The definition in the file that was read, given what became of reading it; where there is no
    /// file there is no definition. What the file holds may not be a definition: that is an error.
    pub fn loaded<E>(answer: FileAnswer<Result<ServiceDefinition, E>, E>) -> (r: Result<
        Option<ServiceDefinition>,
        E,
    >)
        ensures
            r == definition_in(answer),
    {
        match path::if_present(answer) {
            Ok(Some(Ok(service))) => Ok(Some(service)),
            Ok(Some(Err(e))) => Err(e),
            Ok(None) => Ok(None),
            Err(e) => Err(e),
        }
    }

    /// Which file to remove. The name has to be valid.
    pub fn remove(&self, name: &str) -> (r: Result<String, String>)
        ensures
            match r {
                Ok(path) => is_service_name(name@) && path@ == path::joined(
                    self.directory(),
                    definition_file(name@),
                ),
                Err(message) => {
                    &&& name_error(name@) matches Some(e)
                    &&& message@ == name_error_text(e, shown_in_error(e))
                },
            },
    {
        self.load(name)
    }

    /// The definitions in the directory, given what became of reading it; where there is no directory
    /// there are none.
    pub fn list_dir<E>(&self, answer: FileAnswer<Vec<DefinitionFile>, E>) -> (r: Result<Listing, E>)
        ensures
            match answer {
                FileAnswer::Done(files) => r matches Ok(listing) && sorting::sorted_from(
                    readable(files@),
                    listing.services@,
                ) && text::views(listing.skipped@) == unreadable(self.directory(), files@),
                FileAnswer::Missing => r matches Ok(listing) && listing.services@.len() == 0
                    && listing.skipped@.len() == 0,
                FileAnswer::Failed(e) => r == Err::<Listing, E>(e),
            },
    {
        match answer {
            FileAnswer::Done(files) => Ok(self.list(files)),
            FileAnswer::Missing => Ok(Listing { services: Vec::new(), skipped: Vec::new() }),
            FileAnswer::Failed(e) => Err(e),
        }
    }

    /// All definitions among the files, sorted by name. Files that could not be read are skipped.
    pub fn list(&self, files: Vec<DefinitionFile>) -> (listing: Listing)
        ensures
            sorting::sorted_from(readable(files@), listing.services@),
            text::views(listing.skipped@) == unreadable(self.directory(), files@),
    {
        let mut rest = files;
        let mut services: Vec<ServiceDefinition> = Vec::new();
        let mut skipped: Vec<String> = Vec::new();
        let ghost all = rest@;
        let ghost mut done: int = 0;
        assert(all.skip(0) =~= all);
        assert(all.take(0) =~= Seq::empty());
        assert(text::views(skipped@) =~= Seq::empty());
        while rest.len() > 0
            invariant
                0 <= done <= all.len(),
                rest@ == all.skip(done),
                services@ == readable(all.take(done)),
                text::views(skipped@) == unreadable(self.directory(), all.take(done)),
            decreases rest@.len(),
        {
            let file = rest.remove(0);
            assert(rest@ =~= all.skip(done + 1));
            assert(file == all[done]);
            assert(all.take(done + 1).drop_last() =~= all.take(done));
            if is_definition_file(file.file_name.as_str()) {
                match file.content {
                    Ok(service) => {
                        services.push(service);
                    },
                    Err(e) => {
                        let ghost before = text::views(skipped@);
                        let mut line = "Skipping unreadable service definition ".to_string();
                        line.append(
                            path::join(self.dir.as_str(), file.file_name.as_str()).as_str(),
                        );
                        line.append(": ");
                        line.append(e.as_str());
                        skipped.push(line);
                        assert(text::views(skipped@) =~= before.push(line@));
                    },
                }
            }
            proof {
                done = done + 1;
            }
        }
        assert(all.take(done) =~= all);
        Listing { services: sorting::sort(services), skipped }
    }
}

/// A saved definition is found again by a listing, the file it is first written to never is, and
/// both lie in the registry's directory.
pub proof fn law_saved_definition_is_listed(dir: Seq<char>, name: Seq<char>)
    requires
        is_service_name(name),
    ensures
        is_definition(definition_file(name)),
        !is_definition(temporary_file(name)),
        text::has_prefix(path::joined(dir, definition_file(name)), dir),
        text::has_prefix(path::joined(dir, temporary_file(name)), dir),
{
    reveal_strlit(".json");
    reveal_strlit(".json.tmp");
    let file = definition_file(name);
    let tmp = temporary_file(name);
    assert(file.skip(file.len() - 5) =~= ".json"@);
    assert(file.take(1) =~= seq![name[0]]);
    assert(tmp.take(1) =~= seq!['.']);
    assert forall|i: int| 0 <= i < file.len() implies file[i] != '/' by {
        if i < name.len() {
            assert(is_name_char(name[i]));
        }
    }
    assert forall|i: int| 0 <= i < tmp.len() implies tmp[i] != '/' by {
        if 0 < i <= name.len() {
            assert(tmp[i] == name[i - 1]);
            assert(is_name_char(name[i - 1]));
        }
    }
    path::lemma_joined_stays_below(dir, file);
    path::lemma_joined_stays_below(dir, tmp);
}

/// On a disk that works and whose files keep what is written to them, a saved definition is what is
/// loaded under its name, and saving it leaves what is loaded under every other name as it was.
pub proof fn law_saved_definition_is_loaded<E>(
    files: Map<Seq<char>, ServiceDefinition>,
    dir: Seq<char>,
    service: ServiceDefinition,
    other: Seq<char>,
)
    requires
        is_service_name(service.name@),
        is_service_name(other),
    ensures
        ({
            let now = after_save(files, dir, service);
            &&& definition_in(read_answer::<E>(now, dir, service.name@)) == Ok::<
                Option<ServiceDefinition>,
                E,
            >(Some(service))
            &&& other != service.name@ ==> read_answer::<E>(now, dir, other) == read_answer::<E>(
                files,
                dir,
                other,
            )
        }),
{
    lemma_temporary_is_no_definition(dir, service.name@, other);
    if other != service.name@ && definition_path(dir, other) == definition_path(
        dir,
        service.name@,
    ) {
        law_definition_files_are_distinct(dir, other, service.name@);
    }
}

/// On a disk that works, removing a definition tells whether there was one; it is then gone, a
/// second removal finds nothing, which is no error, and what is loaded under every other name is as
/// it was.
pub proof fn law_second_removal_finds_nothing<E>(
    files: Map<Seq<char>, ServiceDefinition>,
    dir: Seq<char>,
    name: Seq<char>,
    other: Seq<char>,
)
    requires
        is_service_name(name),
        is_service_name(other),
    ensures
        ({
            let now = after_remove(files, dir, name);
            let found = definition_in(read_answer::<E>(files, dir, name))->Ok_0 is Some;
            &&& path::removed(remove_answer::<E>(files, dir, name)) == Ok::<bool, E>(found)
            &&& definition_in(read_answer::<E>(now, dir, name)) == Ok::<
                Option<ServiceDefinition>,
                E,
            >(None)
            &&& path::removed(remove_answer::<E>(now, dir, name)) == Ok::<bool, E>(false)
            &&& other != name ==> read_answer::<E>(now, dir, other) == read_answer::<E>(
                files,
                dir,
                other,
            )
        }),
{
    if other != name && definition_path(dir, other) == definition_path(dir, name) {
        law_definition_files_are_distinct(dir, other, name);
    }
}

proof fn lemma_temporary_is_no_definition(dir: Seq<char>, name: Seq<char>, other: Seq<char>)
    requires
        is_service_name(name),
        is_service_name(other),
    ensures
        path::joined(dir, temporary_file(name)) != definition_path(dir, other),
{
    reveal_strlit(".json");
    reveal_strlit(".json.tmp");
    let tmp = temporary_file(name);
    let file = definition_file(other);
    assert forall|i: int| 0 <= i < file.len() implies file[i] != '/' by {
        if i < other.len() {
            assert(is_name_char(other[i]));
        }
    }
    assert forall|i: int| 0 <= i < tmp.len() implies tmp[i] != '/' by {
        if 0 < i <= name.len() {
            assert(tmp[i] == name[i - 1]);
            assert(is_name_char(name[i - 1]));
        }
    }
    if path::joined(dir, tmp) == definition_path(dir, other) {
        path::lemma_joined_is_injective(dir, tmp, file);
        assert(tmp[0] == '.' && file[0] == other[0]);
    }
}

/// A listing holds every definition that could be read, and only those.
pub proof fn law_listing_holds_what_is_readable(
    files: Seq<DefinitionFile>,
    services: Seq<ServiceDefinition>,
    service: ServiceDefinition,
)
    requires
        sorting::sorted_from(readable(files), services),
    ensures
        services.contains(service) <==> exists|i: int|
            0 <= i < files.len() && is_definition(#[trigger] files[i].file_name@)
                && files[i].content == Ok::<ServiceDefinition, String>(service),
{
    sorting::law_sorting_keeps_values(readable(files), services, service);
    lemma_readable(files, service);
}

proof fn lemma_readable(files: Seq<DefinitionFile>, service: ServiceDefinition)
    ensures
        readable(files).contains(service) <==> exists|i: int|
            0 <= i < files.len() && is_definition(#[trigger] files[i].file_name@)
                && files[i].content == Ok::<ServiceDefinition, String>(service),
    decreases files.len(),
{
    if files.len() > 0 {
        let front = files.drop_last();
        let before = readable(front);
        let all = readable(files);
        lemma_readable(front, service);
        if all.contains(service) {
            let k = choose|k: int| 0 <= k < all.len() && all[k] == service;
            if k < before.len() {
                assert(before[k] == service);
                let i = choose|i: int|
                    0 <= i < front.len() && is_definition(#[trigger] front[i].file_name@)
                        && front[i].content == Ok::<ServiceDefinition, String>(service);
                assert(files[i] == front[i]);
                assert(is_definition(files[i].file_name@));
            } else {
                assert(is_definition(files[files.len() - 1].file_name@));
            }
        }
        if exists|i: int|
            0 <= i < files.len() && is_definition(#[trigger] files[i].file_name@)
                && files[i].content == Ok::<ServiceDefinition, String>(service) {
            let i = choose|i: int|
                0 <= i < files.len() && is_definition(#[trigger] files[i].file_name@)
                    && files[i].content == Ok::<ServiceDefinition, String>(service);
            if i < front.len() {
                assert(is_definition(front[i].file_name@));
                let k = choose|k: int| 0 <= k < before.len() && before[k] == service;
                assert(all[k] == service);
            } else {
                assert(all[all.len() - 1] == service);
            }
        }
    }
}

/// Two services have two definition files.
pub proof fn law_definition_files_are_distinct(dir: Seq<char>, a: Seq<char>, b: Seq<char>)
    requires
        is_service_name(a),
        is_service_name(b),
        path::joined(dir, definition_file(a)) == path::joined(dir, definition_file(b)),
    ensures
        a == b,
{
    reveal_strlit(".json");
    let fa = definition_file(a);
    let fb = definition_file(b);
    assert forall|i: int| 0 <= i < fa.len() implies fa[i] != '/' by {
        if i < a.len() {
            assert(is_name_char(a[i]));
        }
    }
    assert forall|i: int| 0 <= i < fb.len() implies fb[i] != '/' by {
        if i < b.len() {
            assert(is_name_char(b[i]));
        }
    }
    path::lemma_joined_is_injective(dir, fa, fb);
    assert(fa.take(fa.len() - 5) =~= a);
    assert(fb.take(fb.len() - 5) =~= b);
}

/// An identity in hexadecimal is two digits for each byte, the high one first, in the order of the
/// bytes; so two identities look alike only where they are the same.
pub proof fn law_identities_look_different(a: Seq<u8>, b: Seq<u8>, byte: u8)
    ensures
        hex_pairs(a + b) == hex_pairs(a) + hex_pairs(b),
        hex_pairs(seq![byte]) == seq![
            "0123456789abcdef"@[(byte / 16) as int],
            "0123456789abcdef"@[(byte % 16) as int],
        ],
        hex_pairs(a).len() == 2 * a.len(),
        hex_pairs(a) == hex_pairs(b) ==> a == b,
    decreases b.len(),
{
    text::law_numbers_are_positional(0, (byte / 16) as nat);
    text::law_numbers_are_positional(0, (byte % 16) as nat);
    reveal_with_fuel(hex_pairs, 2);
    assert(seq![byte].drop_last() =~= Seq::<u8>::empty());
    assert(hex_pairs(seq![byte]) =~= seq![
        "0123456789abcdef"@[(byte / 16) as int],
        "0123456789abcdef"@[(byte % 16) as int],
    ]);
    lemma_hex_pairs_len(a);
    lemma_hex_pairs_len(b);
    if b.len() == 0 {
        assert(a + b =~= a);
        if a.len() == 0 {
            assert(a =~= b);
        }
    } else {
        law_identities_look_different(a, b.drop_last(), byte);
        assert((a + b).drop_last() =~= a + b.drop_last());
        assert(hex_pairs(a + b) =~= hex_pairs(a) + hex_pairs(b));
        if hex_pairs(a) == hex_pairs(b) {
            let (x, y) = (hex_pairs(a), hex_pairs(b));
            assert(a.len() == b.len());
            law_identities_look_different(a.drop_last(), b.drop_last(), byte);
            assert(x.drop_last().drop_last() =~= hex_pairs(a.drop_last()));
            assert(y.drop_last().drop_last() =~= hex_pairs(b.drop_last()));
            assert(x[x.len() - 1] == y[y.len() - 1] && x[x.len() - 2] == y[y.len() - 2]);
            lemma_digit_is_injective((a.last() / 16) as nat, (b.last() / 16) as nat);
            lemma_digit_is_injective((a.last() % 16) as nat, (b.last() % 16) as nat);
            assert(a =~= a.drop_last().push(a.last()));
            assert(b =~= b.drop_last().push(b.last()));
        }
    }
}

proof fn lemma_digit_is_injective(a: nat, b: nat)
    requires
        a < 16,
        b < 16,
        text::digit(a) == text::digit(b),
    ensures
        a == b,
{
}

/// The address of a service rests on its whole id where it has one, and else on its whole name; so
/// two services share what it rests on only where they share the id or, without ids, the name.
pub proof fn law_address_rests_on_the_whole_id(
    name: Seq<char>,
    other: Seq<char>,
    id: Seq<char>,
    other_id: Seq<char>,
)
    ensures
        id.len() > 0 ==> address_id_of(name, id) == id,
        address_id_of(name, seq![]) == "name:"@ + name,
        address_id_of(name, seq![]) == address_id_of(other, seq![]) ==> name == other,
        id.len() > 0 && other_id.len() > 0 && address_id_of(name, id) == address_id_of(
            other,
            other_id,
        ) ==> id == other_id,
{
    let n = "name:"@.len() as int;
    assert(("name:"@ + name).skip(n) =~= name);
    assert(("name:"@ + other).skip(n) =~= other);
}

/// A word of a command is quoted exactly where it is empty or has white space in it, wherever that
/// stands; every word is shown, in its place.
pub proof fn law_words_with_white_space_are_quoted(
    words: Seq<Seq<char>>,
    i: int,
    left: Seq<char>,
    c: char,
    right: Seq<char>,
)
    ensures
        is_quoted_when_shown(left.push(c) + right) <==> text::is_white(c) || (left.len() > 0
            && is_quoted_when_shown(left)) || (right.len() > 0 && is_quoted_when_shown(right)),
        is_quoted_when_shown(seq![]),
        shown_words(words).len() == words.len(),
        0 <= i < words.len() ==> shown_words(words)[i] == (if is_quoted_when_shown(words[i]) {
            outside::debug_text(words[i])
        } else {
            words[i]
        }),
{
    let whole = left.push(c) + right;
    let n = left.len() as int;
    assert(whole[n] == c);
    if is_quoted_when_shown(whole) {
        let k = choose|k: int| 0 <= k < whole.len() && text::is_white(#[trigger] whole[k]);
        if k < n {
            assert(text::is_white(left[k]));
        } else if k > n {
            assert(text::is_white(right[k - n - 1]));
        }
    }
    if left.len() > 0 && is_quoted_when_shown(left) {
        let k = choose|k: int| 0 <= k < left.len() && text::is_white(#[trigger] left[k]);
        assert(text::is_white(whole[k]));
    }
    if right.len() > 0 && is_quoted_when_shown(right) {
        let k = choose|k: int| 0 <= k < right.len() && text::is_white(#[trigger] right[k]);
        assert(text::is_white(whole[n + 1 + k]));
    }
}

/// Exactly these characters may stand in a name.
pub open spec fn name_alphabet() -> Seq<char> {
    "abcdefghijklmnopqrstuvwxyzABCDEFGHIJKLMNOPQRSTUVWXYZ0123456789-_."@
}

/// A name is made of letters, digits, `-`, `_` and `.`; any of them but `.` and `-` is a name by
/// itself, and a name that is followed by one more of them is a name again until it has 64. A
/// session is named `svc-` and the name of its service.
pub proof fn law_names_grow_by_one_character(name: Seq<char>, c: char)
    ensures
        is_name_char(c) <==> name_alphabet().contains(c),
        is_service_name(seq![c]) <==> is_name_char(c) && c != '.' && c != '-',
        name.len() > 0 ==> (is_service_name(name.push(c)) <==> is_service_name(name)
            && is_name_char(c) && name.len() < 64),
        !is_service_name(seq![]),
        session_of(name) == "svc-"@ + name,
{
    lemma_name_alphabet(c);
    let longer = name.push(c);
    if is_service_name(seq![c]) {
        assert(is_name_char(seq![c][0]));
    }
    if name.len() > 0 {
        assert(longer[0] == name[0]);
        if is_service_name(longer) {
            assert(is_name_char(longer[longer.len() - 1]));
            assert forall|i: int| 0 <= i < name.len() implies is_name_char(#[trigger] name[i]) by {
                assert(is_name_char(longer[i]));
            }
        }
        if is_service_name(name) && is_name_char(c) && name.len() < 64 {
            assert forall|i: int| 0 <= i < longer.len() implies is_name_char(
                #[trigger] longer[i],
            ) by {
                if i < name.len() {
                    assert(is_name_char(name[i]));
                }
            }
        }
    }
}

proof fn lemma_name_alphabet(c: char)
    ensures
        is_name_char(c) <==> name_alphabet().contains(c),
{
    reveal_strlit("abcdefghijklmnopqrstuvwxyzABCDEFGHIJKLMNOPQRSTUVWXYZ0123456789-_.");
    let all = name_alphabet();
    assert(all.len() == 65);
    if 'a' <= c && c <= 'z' {
        assert(all[c as int - 97] == c);
    } else if 'A' <= c && c <= 'Z' {
        assert(all[c as int - 65 + 26] == c);
    } else if '0' <= c && c <= '9' {
        assert(all[c as int - 48 + 52] == c);
    } else if c == '-' {
        assert(all[62] == c);
    } else if c == '_' {
        assert(all[63] == c);
    } else if c == '.' {
        assert(all[64] == c);
    }
}

/// The character that is blamed for a bad name is the first bad one; a name is blamed for being
/// empty, for its length in bytes, for its beginning and for its characters, in this order.
pub proof fn law_first_fault_is_blamed(name: Seq<char>, good: Seq<char>, c: char, rest: Seq<char>)
    ensures
        (forall|i: int| 0 <= i < good.len() ==> is_name_char(#[trigger] good[i])) ==> first_bad_char(
            good,
        ) is None && (!is_name_char(c) ==> first_bad_char(good.push(c) + rest) == Some(c)),
        name_error(name) == Some(ServiceNameError::Empty) <==> name.len() == 0,
        name_error(name) == Some(ServiceNameError::TooLong) <==> vstd::utf8::encode_utf8(name).len()
            > 64,
        name_error(name) == Some(ServiceNameError::BadStart) <==> vstd::utf8::encode_utf8(
            name,
        ).len() <= 64 && name.len() > 0 && (name[0] == '.' || name[0] == '-'),
        (name_error(name) matches Some(ServiceNameError::BadCharacter(bad)) ==> first_bad_char(name)
            == Some(bad)),
{
    lemma_utf8_at_least_chars(name);
    vstd::utf8::is_ascii_chars_encode_utf8(Seq::<char>::empty());
    if name.len() == 0 {
        assert(name =~= Seq::<char>::empty());
    }
    if forall|i: int| 0 <= i < good.len() ==> is_name_char(#[trigger] good[i]) {
        lemma_first_bad_char(good);
        if !is_name_char(c) {
            lemma_first_bad_char_is(good, c, rest);
        }
    }
}

proof fn lemma_first_bad_char_is(good: Seq<char>, c: char, rest: Seq<char>)
    requires
        forall|i: int| 0 <= i < good.len() ==> is_name_char(#[trigger] good[i]),
        !is_name_char(c),
    ensures
        first_bad_char(good.push(c) + rest) == Some(c),
    decreases good.len(),
{
    let whole = good.push(c) + rest;
    if good.len() == 0 {
        assert(whole[0] == c);
    } else {
        assert(is_name_char(good[0]) && whole[0] == good[0]);
        let tail = good.skip(1);
        assert forall|i: int| 0 <= i < tail.len() implies is_name_char(#[trigger] tail[i]) by {
            assert(is_name_char(good[i + 1]));
        }
        lemma_first_bad_char_is(tail, c, rest);
        assert(whole.skip(1) =~= tail.push(c) + rest);
    }
}

/// A file holds a definition exactly where its name does not begin with a dot and is something
/// followed by `.json`.
pub proof fn law_definitions_end_in_json(stem: Seq<char>, file: Seq<char>)
    ensures
        is_definition(stem + ".json"@) <==> stem.len() > 0 && stem[0] != '.',
        !is_definition(seq!['.'] + stem),
        is_definition(file) ==> file == file.take(file.len() - 5) + ".json"@,
        definition_file(stem) == stem + ".json"@,
        temporary_file(stem) == seq!['.'] + stem + ".json.tmp"@,
{
    reveal_strlit(".json");
    assert(DEFINITION_SUFFIX@ == ".json"@);
    let whole = stem + ".json"@;
    text::law_beginnings_and_ends(whole, ".json"@, stem);
    text::law_beginnings_and_ends(file, ".json"@, stem);
    text::law_beginnings_and_ends(seq!['.'] + stem, seq!['.'], stem);
    text::law_beginnings_and_ends(whole, seq!['.'], whole.skip(1));
    if whole[0] == '.' {
        assert(whole =~= seq!['.'] + whole.skip(1));
    } else if text::has_prefix(whole, seq!['.']) {
        assert(whole.take(1)[0] == seq!['.'][0]);
    }
}

/// A directory is listed file by file, in order: a file that holds a definition gives it, one whose
/// definition could not be read gives a line for the log, and any other file gives nothing.
pub proof fn law_files_are_read_one_by_one(
    dir: Seq<char>,
    a: Seq<DefinitionFile>,
    b: Seq<DefinitionFile>,
    one: DefinitionFile,
)
    ensures
        readable(a + b) == readable(a) + readable(b),
        unreadable(dir, a + b) == unreadable(dir, a) + unreadable(dir, b),
        readable(seq![one]) == (match one.content {
            Ok(service) => if is_definition(one.file_name@) {
                seq![service]
            } else {
                seq![]
            },
            Err(_) => seq![],
        }),
        one.content is Ok || !is_definition(one.file_name@) ==> unreadable(dir, seq![one]).len()
            == 0,
        one.content matches Err(e) ==> (is_definition(one.file_name@) ==> unreadable(
            dir,
            seq![one],
        ) == seq![
            "Skipping unreadable service definition "@ + path::joined(dir, one.file_name@) + ": "@
                + e@,
        ]),
    decreases b.len(),
{
    reveal_with_fuel(readable, 2);
    reveal_with_fuel(unreadable, 2);
    assert(seq![one].drop_last() =~= Seq::<DefinitionFile>::empty());
    if b.len() == 0 {
        assert(a + b =~= a);
    } else {
        law_files_are_read_one_by_one(dir, a, b.drop_last(), one);
        assert((a + b).drop_last() =~= a + b.drop_last());
    }
}

/// Saving, loading and removing take the same names and go to the same file; what is written first
/// goes to another one. Exactly the names that a service can have are taken.
pub proof fn law_save_and_load_meet(
    registry: ServiceRegistry,
    service: ServiceDefinition,
    name: &str,
    saved: Result<SavePlan, String>,
    loaded: Result<String, String>,
    removed: Result<String, String>,
)
    requires
        name@ == service.name@,
        call_ensures(ServiceRegistry::save, (&registry, &service), saved),
        call_ensures(ServiceRegistry::load, (&registry, name), loaded),
        call_ensures(ServiceRegistry::remove, (&registry, name), removed),
    ensures
        saved is Ok <==> is_service_name(service.name@),
        loaded is Ok <==> is_service_name(service.name@),
        removed is Ok <==> is_service_name(service.name@),
        saved matches Ok(plan) ==> plan.path@ == loaded->Ok_0@ && plan.path@ == removed->Ok_0@
            && plan.tmp@ != plan.path@ && text::has_prefix(plan.path@, plan.dir@)
            && text::has_prefix(plan.tmp@, plan.dir@) && plan.dir@ == registry.directory(),
{
    law_name_rule(service.name@);
    if is_service_name(service.name@) {
        law_saved_definition_is_listed(registry.directory(), service.name@);
        lemma_temporary_is_no_definition(registry.directory(), service.name@, service.name@);
    }
}

/// What reading a definition came to: the definition where the file was there and held one, nothing
/// where it was not there, and an error else. A directory that is not there holds no definitions.
pub proof fn law_missing_definition_is_no_error<E>(
    registry: ServiceRegistry,
    answer: FileAnswer<Result<ServiceDefinition, E>, E>,
    r: Result<Option<ServiceDefinition>, E>,
    files: FileAnswer<Vec<DefinitionFile>, E>,
    listed: Result<Listing, E>,
)
    requires
        call_ensures(ServiceRegistry::loaded::<E>, (answer,), r),
        call_ensures(ServiceRegistry::list_dir::<E>, (&registry, files), listed),
    ensures
        r matches Ok(Some(service)) ==> (answer matches FileAnswer::Done(Ok(read)) && read
            == service),
        r matches Ok(None) <==> answer is Missing,
        r is Err <==> answer is Failed || (answer matches FileAnswer::Done(Err(_))),
        listed is Err <==> files is Failed,
        files is Missing ==> listed->Ok_0.services@.len() == 0,
{
}

/// A definition keeps what it is made of; it has no address of its own until it asks for one, and
/// was made at the epoch where the clock stands before it.
pub proof fn law_definition_keeps_what_it_is_made_of(
    name: String,
    uuid: [u8; 16],
    seconds: Option<u64>,
    command: Vec<String>,
    cwd: Option<String>,
    restart: RestartPolicy,
    service: ServiceDefinition,
    session: String,
    id: String,
)
    requires
        call_ensures(
            ServiceDefinition::with_identity,
            (name, uuid, seconds, command, cwd, restart),
            service,
        ),
        call_ensures(ServiceDefinition::session_name, (&service,), session),
        call_ensures(ServiceDefinition::address_id, (&service,), id),
    ensures
        service.name == name && service.command == command && service.cwd == cwd
            && service.restart == restart && !service.bind_ip,
        seconds matches Some(s) ==> service.created_at == s,
        seconds is None ==> service.created_at == 0,
        service.id@ == hex_pairs(uuid@) && service.id@.len() == 32,
        session@ == "svc-"@ + name@,
        id@ == service.id@,
{
    lemma_hex_pairs_len(uuid@);
}

/// A command is shown word by word with one blank between each two, each word as it is shown by
/// itself.
pub proof fn law_command_is_shown_word_by_word(
    service: ServiceDefinition,
    shown: String,
    word: &str,
    quoted: String,
    one: String,
)
    requires
        call_ensures(ServiceDefinition::command_display, (&service,), shown),
        call_ensures(choose_shown, (word, quoted), one),
    ensures
        shown@ == text::joined_by(
            Seq::new(
                service.command@.len(),
                |k: int|
                    if is_quoted_when_shown(service.command@[k]@) {
                        outside::debug_text(service.command@[k]@)
                    } else {
                        service.command@[k]@
                    },
            ),
            ' ',
        ),
        is_quoted_when_shown(word@) ==> one@ == quoted@,
        !is_quoted_when_shown(word@) ==> one@ == word@,
{
    assert(shown_words(text::views(service.command@)) =~= Seq::new(
        service.command@.len(),
        |k: int|
            if is_quoted_when_shown(service.command@[k]@) {
                outside::debug_text(service.command@[k]@)
            } else {
                service.command@[k]@
            },
    ));
}

/// A listing holds every definition that could be read, sorted by name, and tells of every one that
/// could not.
pub proof fn law_listing_is_sorted_by_name(
    registry: ServiceRegistry,
    files: Vec<DefinitionFile>,
    listing: Listing,
    i: int,
    j: int,
)
    requires
        call_ensures(ServiceRegistry::list, (&registry, files), listing),
    ensures
        0 <= i < j < listing.services@.len() ==> text::not_after(
            listing.services@[i].name@,
            listing.services@[j].name@,
        ),
        listing.services@.to_multiset() == readable(files@).to_multiset(),
        listing.skipped@.len() == unreadable(registry.directory(), files@).len(),
{
    let services = listing.services@;
    sorting::law_sorting_only_moves_values(readable(files@), services, i, j, services[i]);
    assert(text::views(listing.skipped@).len() == listing.skipped@.len());
}

/// The registry of a config directory is the directory `services` in it; a definition's path is the
/// one that is saved to.
pub proof fn law_registry_is_in_the_config_dir(
    config_dir: &str,
    registry: ServiceRegistry,
    name: &str,
    file: String,
    is_one: bool,
)
    requires
        call_ensures(ServiceRegistry::in_config_dir, (config_dir,), registry),
        call_ensures(ServiceRegistry::file_for, (&registry, name), file),
        call_ensures(is_definition_file, (name,), is_one),
    ensures
        registry.directory() == path::joined(config_dir@, "services"@),
        file@ == definition_path(registry.directory(), name@),
        is_one <==> is_definition(name@),
{
}

/// A random identity is 32 hexadecimal digits, of which the thirteenth is a 4 and the seventeenth
/// one of 8, 9, a and b.
pub proof fn law_random_identity_shows_its_kind(id: Seq<char>)
    requires
        is_random_id(id),
    ensures
        id.len() == 32,
        id[12] == '4',
        id[16] == '8' || id[16] == '9' || id[16] == 'a' || id[16] == 'b',
{
    let uuid = choose|uuid: Seq<u8>|
        uuid.len() == 16 && uuid[6] / 16 == 4 && uuid[8] / 64 == 2 && id == #[trigger] hex_pairs(
            uuid,
        );
    lemma_hex_pair_at(uuid, 6);
    lemma_hex_pair_at(uuid, 8);
}

proof fn lemma_hex_pair_at(bytes: Seq<u8>, i: int)
    requires
        0 <= i < bytes.len(),
    ensures
        hex_pairs(bytes).len() == 2 * bytes.len(),
        hex_pairs(bytes)[2 * i] == text::digit((bytes[i] / 16) as nat),
    decreases bytes.len(),
{
    lemma_hex_pairs_len(bytes);
    let front = bytes.drop_last();
    lemma_hex_pairs_len(front);
    if i < front.len() {
        lemma_hex_pair_at(front, i);
        assert(hex_pairs(bytes)[2 * i] == hex_pairs(front)[2 * i]);
    }
}

} // verus!
