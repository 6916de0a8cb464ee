//! Loopback addresses for services.
//!
//! Every service gets an address of its own instead of a port of its own: one locally assigned /64
//! prefix is routed to this machine, and every service binds the same well-known port on its own
//! address in it. The prefix is made once per installation and kept.
use crate::ipv6;
use crate::ipv6::Ipv6Addr;
use crate::ipv6::SocketAddrV6;
use crate::outside;
use crate::path;
use crate::services;
use crate::services::ServiceDefinition;
use crate::text;
use vstd::prelude::*;

verus! {

/// Name of the file, inside the config directory, that holds the prefix.
pub const NETWORK_FILE_NAME: &'static str = "network.json";

/// Name of the file that the prefix is first written to.
pub const NETWORK_TMP_NAME: &'static str = ".network.json.tmp";

/// The well-known port.
pub const SERVICE_PORT: u16 = 8080;

/// What is put before a service's id when its interface id is derived.
pub const ADDRESS_DOMAIN: &'static str = "gezellij-service-address:";

/// The well-known port that every service may bind on its own address.
pub fn default_port() -> (port: u16)
    ensures
        port == SERVICE_PORT,
{
    SERVICE_PORT
}

// ---------------------------------------------------------------------------------------------
// the prefix
// ---------------------------------------------------------------------------------------------

/// A /64 prefix out of the locally assigned unique local addresses: the byte `fd`, forty random
/// bits, and a subnet of sixteen bits.
#[derive(Debug, Clone, Copy, PartialEq, Eq)]
pub struct UlaPrefix {
    global_id: [u8; 5],
    subnet: u16,
}

/// The first eight bytes of every address in a prefix.
pub open spec fn network_of(global_id: Seq<u8>, subnet: u16) -> Seq<u8> {
    seq![0xfdu8] + global_id + seq![(subnet / 256) as u8, (subnet % 256) as u8]
}

/// Eight zero bytes.
pub open spec fn no_interface() -> Seq<u8> {
    seq![0u8, 0u8, 0u8, 0u8, 0u8, 0u8, 0u8, 0u8]
}

/// Why a text is not a prefix.
#[derive(Clone, Debug, PartialEq, Eq)]
pub enum PrefixError {
    /// A length other than 64.
    WrongLength { len: String },
    /// Not an IPv6 address at all.
    NotAnAddress { text: String },
    /// An address that does not begin with `fd`.
    NotLocal { address: Ipv6Addr },
    /// An address whose last eight bytes are not zero.
    HasInterface { address: Ipv6Addr },
}

/// The text of the address and of the length in the text of a prefix.
pub open spec fn prefix_parts(s: Seq<char>) -> (Seq<char>, Option<Seq<char>>) {
    match text::split_at_first(text::trimmed(s), '/') {
        Some((address, len)) => (address, Some(len)),
        None => (text::trimmed(s), None),
    }
}

/// Whether the length in the text of a prefix, if there is one, is 64.
pub open spec fn has_right_length(s: Seq<char>) -> bool {
    match prefix_parts(s).1 {
        Some(len) => text::trimmed(len) == "64"@,
        None => true,
    }
}

/// The sixteen bytes of the network address that a text names, if it names a prefix: those of an
/// address that begins with `fd` and ends in eight zero bytes, alone or followed by `/64`.
pub open spec fn is_prefix_text(s: Seq<char>, octets: Seq<u8>) -> bool {
    &&& has_right_length(s)
    &&& octets.len() == 16
    &&& ipv6::address_of(prefix_parts(s).0) == Some(ipv6::groups_of(octets))
    &&& octets[0] == 0xfd
    &&& octets.skip(8) == no_interface()
}

/// Whether `e` is what is wrong with a text.
pub open spec fn is_prefix_error(s: Seq<char>, e: PrefixError) -> bool {
    let address_text = prefix_parts(s).0;
    match e {
        PrefixError::WrongLength { len } => !has_right_length(s) && prefix_parts(s).1 == Some(len@),
        PrefixError::NotAnAddress { text } => has_right_length(s) && text@ == address_text
            && ipv6::address_of(address_text) is None,
        PrefixError::NotLocal { address } => has_right_length(s) && ipv6::address_of(address_text)
            == Some(ipv6::groups_of(address.bytes())) && address.bytes()[0] != 0xfd,
        PrefixError::HasInterface { address } => has_right_length(s) && ipv6::address_of(
            address_text,
        ) == Some(ipv6::groups_of(address.bytes())) && address.bytes()[0] == 0xfd
            && address.bytes().skip(8) != no_interface(),
    }
}

/// Whether `r` is what reading a text as a prefix comes to: the prefix that the text names, or, where
/// it names none, what is wrong with it.
pub open spec fn reads_prefix(s: Seq<char>, r: Result<UlaPrefix, String>) -> bool {
    match r {
        Ok(prefix) => is_prefix_text(s, prefix.octets()),
        Err(message) => {
            &&& names_no_prefix(s)
            &&& exists|e: PrefixError|
                #[trigger] is_prefix_error(s, e) && message@ == prefix_error_text(e)
        },
    }
}

/// Whether a text names no prefix at all.
pub open spec fn names_no_prefix(s: Seq<char>) -> bool {
    forall|octets: Seq<u8>| !#[trigger] is_prefix_text(s, octets)
}

/// The message for an error.
pub open spec fn prefix_error_text(e: PrefixError) -> Seq<char> {
    match e {
        PrefixError::WrongLength { len } => "only /64 ULA prefixes are supported, got /"@ + len@,
        PrefixError::NotAnAddress { text } => outside::debug_text(text@)
            + " is not an IPv6 address: invalid IPv6 address syntax"@,
        PrefixError::NotLocal { address } => ipv6::address_text(address.bytes())
            + " is not a locally assigned ULA prefix (RFC 4193 requires it to start with fd)"@,
        PrefixError::HasInterface { address } => ipv6::address_text(address.bytes())
            + " has a non-zero interface id; a /64 prefix must end in ::"@,
    }
}

impl PrefixError {
    /// The message; `quoted` is the formatter's quoted form of a text that is not an address.
    pub fn message(&self, quoted: &str) -> (s: String)
        ensures
            s@ == (match *self {
                PrefixError::NotAnAddress { text: _ } => quoted@
                    + " is not an IPv6 address: invalid IPv6 address syntax"@,
                e => prefix_error_text(e),
            }),
    {
        match self {
            PrefixError::WrongLength { len } => {
                let mut s = "only /64 ULA prefixes are supported, got /".to_string();
                s.append(len.as_str());
                s
            },
            PrefixError::NotAnAddress { .. } => {
                let mut s = quoted.to_string();
                s.append(" is not an IPv6 address: invalid IPv6 address syntax");
                s
            },
            PrefixError::NotLocal { address } => {
                let mut s = address.to_string();
                s.append(
                    " is not a locally assigned ULA prefix (RFC 4193 requires it to start with fd)",
                );
                s
            },
            PrefixError::HasInterface { address } => {
                let mut s = address.to_string();
                s.append(" has a non-zero interface id; a /64 prefix must end in ::");
                s
            },
        }
    }
}

impl UlaPrefix {
    /// The forty random bits.
    pub closed spec fn global(&self) -> Seq<u8> {
        self.global_id@
    }

    /// The subnet.
    pub closed spec fn subnet_id(&self) -> u16 {
        self.subnet
    }

    /// The random bits are five bytes.
    pub proof fn lemma_five_bytes(&self)
        ensures
            self.global().len() == 5,
            self.octets().len() == 16,
    {
    }

    /// The network address determines the prefix.
    pub proof fn lemma_octets_determine(&self, other: &UlaPrefix)
        requires
            self.octets() == other.octets(),
        ensures
            *self == *other,
    {
        let (a, b) = (self.octets(), other.octets());
        assert forall|i: int| 0 <= i < 5 implies self.global_id[i] == other.global_id[i] by {
            assert(a[i + 1] == self.global_id[i] && b[i + 1] == other.global_id[i]);
        }
        assert(self.global_id =~= other.global_id);
        assert(a[6] == (self.subnet / 256) as u8 && b[6] == (other.subnet / 256) as u8);
        assert(a[7] == (self.subnet % 256) as u8 && b[7] == (other.subnet % 256) as u8);
    }

    /// The first eight bytes of every address in this prefix.
    pub open spec fn network(&self) -> Seq<u8> {
        network_of(self.global(), self.subnet_id())
    }

    /// The sixteen bytes of the network address.
    pub open spec fn octets(&self) -> Seq<u8> {
        self.network() + no_interface()
    }

    /// The prefix as text.
    pub open spec fn text(&self) -> Seq<char> {
        ipv6::address_text(self.octets()) + "/64"@
    }

    /// The prefix whose random bits are the first five bytes of `random`.
    pub fn from_random(random: [u8; 16]) -> (prefix: Self)
        ensures
            prefix.global() == random@.take(5),
            prefix.subnet_id() == 0,
    {
        let global_id: [u8; 5] = [random[0], random[1], random[2], random[3], random[4]];
        assert(global_id@ =~= random@.take(5));
        UlaPrefix { global_id, subnet: 0 }
    }

    /// A fresh prefix with random bits from the operating system.
    pub fn generate() -> (prefix: Self)
        ensures
            prefix.global().len() == 5,
            prefix.subnet_id() == 0,
    {
        UlaPrefix::from_random(outside::random_uuid())
    }

    /// The first eight bytes of every address in this prefix.
    pub fn network_bytes(&self) -> (bytes: [u8; 8])
        ensures
            bytes@ == self.network(),
    {
        let g = self.global_id;
        let bytes: [u8; 8] = [
            0xfd,
            g[0],
            g[1],
            g[2],
            g[3],
            g[4],
            (self.subnet / 256) as u8,
            (self.subnet % 256) as u8,
        ];
        assert(bytes@ =~= self.network());
        bytes
    }

    /// The network address.
    pub fn network_address(&self) -> (address: Ipv6Addr)
        ensures
            address.bytes() == self.octets(),
    {
        let zero: [u8; 8] = [0, 0, 0, 0, 0, 0, 0, 0];
        assert(zero@ =~= no_interface());
        self.address_with_interface_id(zero)
    }

    /// The address with this interface id.
    pub fn address_with_interface_id(&self, interface_id: [u8; 8]) -> (address: Ipv6Addr)
        ensures
            address.bytes() == self.network() + interface_id@,
    {
        let n = self.network_bytes();
        let i = interface_id;
        let octets: [u8; 16] = [
            n[0],
            n[1],
            n[2],
            n[3],
            n[4],
            n[5],
            n[6],
            n[7],
            i[0],
            i[1],
            i[2],
            i[3],
            i[4],
            i[5],
            i[6],
            i[7],
        ];
        assert(octets@ =~= n@ + i@);
        Ipv6Addr::from_octets(octets)
    }

    /// The address that ends in `::1`, by which it is found out whether the prefix is routed.
    pub fn probe_address(&self) -> (address: Ipv6Addr)
        ensures
            address.bytes() == self.network() + seq![0u8, 0u8, 0u8, 0u8, 0u8, 0u8, 0u8, 1u8],
    {
        let one: [u8; 8] = [0, 0, 0, 0, 0, 0, 0, 1];
        assert(one@ =~= seq![0u8, 0u8, 0u8, 0u8, 0u8, 0u8, 0u8, 1u8]);
        self.address_with_interface_id(one)
    }

    /// The prefix as text.
    pub fn to_string(&self) -> (s: String)
        ensures
            s@ == self.text(),
    {
        let mut s = self.network_address().to_string();
        s.append("/64");
        s
    }

    /// Read a prefix: an address alone or followed by `/64`.
    pub fn check(s: &str) -> (r: Result<Self, PrefixError>)
        ensures
            match r {
                Ok(prefix) => is_prefix_text(s@, prefix.octets()),
                Err(e) => is_prefix_error(s@, e) && names_no_prefix(s@),
            },
    {
        let trimmed = text::trim(s);
        let (address_text, len) = match text::split_once(trimmed.as_str(), '/') {
            Some((address, len)) => (address, Some(len)),
            None => (trimmed, None),
        };
        if let Some(len) = len {
            if !text::same_text(text::trim(len.as_str()).as_str(), "64") {
                return Err(PrefixError::WrongLength { len });
            }
        }
        let address = match Ipv6Addr::parse(address_text.as_str()) {
            Some(address) => address,
            None => {
                return Err(PrefixError::NotAnAddress { text: address_text });
            },
        };
        let o = address.octets();
        proof {
            assert forall|octets: Seq<u8>| #[trigger] is_prefix_text(s@, octets) implies octets
                == o@ by {
                ipv6::lemma_groups_determine(octets, o@);
            }
        }
        if o[0] != 0xfd {
            return Err(PrefixError::NotLocal { address });
        }
        if !(o[8] == 0 && o[9] == 0 && o[10] == 0 && o[11] == 0 && o[12] == 0 && o[13] == 0
            && o[14] == 0 && o[15] == 0) {
            proof {
                let low = address.bytes().skip(8);
                if low == no_interface() {
                    assert(forall|i: int| 0 <= i < 8 ==> low[i] == #[trigger] o@[8 + i]);
                    assert(o@[8] == low[0] && o@[9] == low[1] && o@[10] == low[2] && o@[11]
                        == low[3] && o@[12] == low[4] && o@[13] == low[5] && o@[14] == low[6]
                        && o@[15] == low[7]);
                }
            }
            return Err(PrefixError::HasInterface { address });
        }
        let prefix = UlaPrefix {
            global_id: [o[1], o[2], o[3], o[4], o[5]],
            subnet: o[6] as u16 * 256 + o[7] as u16,
        };
        assert(prefix.octets() =~= o@);
        assert(prefix.octets().skip(8) =~= no_interface());
        Ok(prefix)
    }

    /// Read a prefix, or say why the text is none.
    pub fn from_str(s: &str) -> (r: Result<Self, String>)
        ensures
            reads_prefix(s@, r),
    {
        match UlaPrefix::check(s) {
            Ok(prefix) => Ok(prefix),
            Err(e) => {
                let quoted = match &e {
                    PrefixError::NotAnAddress { text } => outside::quoted(text.as_str()),
                    _ => String::new(),
                };
                Err(e.message(quoted.as_str()))
            },
        }
    }
}

impl std::str::FromStr for UlaPrefix {
    type Err = String;

    fn from_str(s: &str) -> (r: Result<Self, String>)
        ensures
            reads_prefix(s@, r),
    {
        UlaPrefix::from_str(s)
    }
}

proof fn lemma_trimmed_keeps(s: Seq<char>)
    requires
        s.len() > 0,
        !text::is_white(s[0]),
        !text::is_white(s.last()),
    ensures
        text::trimmed(s) == s,
{
}

/// A prefix is read back from its text, with the length and without it.
pub proof fn law_prefix_reads_back(global_id: Seq<u8>, subnet: u16)
    requires
        global_id.len() == 5,
    ensures
        ({
            let octets = network_of(global_id, subnet) + no_interface();
            &&& is_prefix_text(ipv6::address_text(octets) + "/64"@, octets)
            &&& is_prefix_text(ipv6::address_text(octets), octets)
        }),
{
    let octets = network_of(global_id, subnet) + no_interface();
    let bare = ipv6::address_text(octets);
    let full = bare + "/64"@;
    reveal_strlit("/64");
    reveal_strlit("64");
    assert(octets[0] == 0xfd);
    assert(!ipv6::is_ipv4_mapped(octets));
    ipv6::lemma_address_chars(octets);
    ipv6::law_address_reads_back(octets);
    assert(octets.skip(8) =~= no_interface());
    assert forall|i: int| 0 <= i < bare.len() implies bare[i] != '/' && !text::is_white(
        bare[i],
    ) by {
        assert(ipv6::is_address_char(bare[i]));
    }
    lemma_trimmed_keeps(bare);
    text::lemma_position_is(bare, '/', bare.len() as int);
    lemma_trimmed_keeps(full);
    assert forall|i: int| 0 <= i < bare.len() implies full[i] != '/' by {
        assert(full[i] == bare[i]);
    }
    text::lemma_position_is(full, '/', bare.len() as int);
    assert(full.take(bare.len() as int) =~= bare);
    assert(full.skip(bare.len() as int + 1) =~= "64"@);
    lemma_trimmed_keeps("64"@);
}

/// Whatever the prefix, reading its text gives it back, with the length and without it.
pub proof fn law_prefix_survives_as_text(
    prefix: UlaPrefix,
    full: Result<UlaPrefix, String>,
    bare: Result<UlaPrefix, String>,
)
    requires
        reads_prefix(prefix.text(), full),
        reads_prefix(ipv6::address_text(prefix.octets()), bare),
    ensures
        full == Ok::<UlaPrefix, String>(prefix),
        bare == Ok::<UlaPrefix, String>(prefix),
{
    prefix.lemma_five_bytes();
    law_prefix_reads_back(prefix.global(), prefix.subnet_id());
    assert(is_prefix_text(prefix.text(), prefix.octets()));
    assert(is_prefix_text(ipv6::address_text(prefix.octets()), prefix.octets()));
    if let Ok(q) = full {
        law_prefix_text_is_unambiguous(prefix.text(), q.octets(), prefix.octets());
        q.lemma_octets_determine(&prefix);
    }
    if let Ok(q) = bare {
        law_prefix_text_is_unambiguous(
            ipv6::address_text(prefix.octets()),
            q.octets(),
            prefix.octets(),
        );
        q.lemma_octets_determine(&prefix);
    }
}

/// A text names at most one prefix.
pub proof fn law_prefix_text_is_unambiguous(s: Seq<char>, a: Seq<u8>, b: Seq<u8>)
    requires
        is_prefix_text(s, a),
        is_prefix_text(s, b),
    ensures
        a == b,
{
    ipv6::lemma_groups_determine(a, b);
}

/// The network of a prefix is the byte `fd`, the five random bytes, and the subnet, its high byte
/// first; so two prefixes have one network only where they are the same.
pub proof fn law_network_holds_the_whole_prefix(global_id: Seq<u8>, subnet: u16, i: int)
    requires
        global_id.len() == 5,
    ensures
        network_of(global_id, subnet).len() == 8,
        network_of(global_id, subnet)[0] == 0xfd,
        0 <= i < 5 ==> network_of(global_id, subnet)[i + 1] == global_id[i],
        network_of(global_id, subnet)[6] * 256 + network_of(global_id, subnet)[7] == subnet,
        0 <= i < 8 ==> no_interface()[i] == 0,
        no_interface().len() == 8,
{
}

/// A text names a prefix only where its length, if it gives one, is 64, and where the address
/// before it begins with `fd` and ends in eight zero bytes; white space around the text does not
/// matter.
pub proof fn law_only_a_local_64_is_a_prefix(
    left: Seq<char>,
    address: Seq<char>,
    len: Seq<char>,
    right: Seq<char>,
    octets: Seq<u8>,
)
    requires
        forall|i: int| 0 <= i < left.len() ==> text::is_white(#[trigger] left[i]),
        forall|i: int| 0 <= i < right.len() ==> text::is_white(#[trigger] right[i]),
        address.len() > 0 && !text::is_white(address[0]) && !text::is_white(address.last()),
        len.len() > 0 && !text::is_white(len[0]) && !text::is_white(len.last()),
        !address.contains('/'),
    ensures
        is_prefix_text(left + (address.push('/') + len) + right, octets) <==> len == "64"@
            && is_prefix_text(address, octets),
        is_prefix_text(left + address + right, octets) <==> is_prefix_text(address, octets),
        is_prefix_text(address, octets) <==> octets.len() == 16 && ipv6::address_of(address) == Some(
            ipv6::groups_of(octets),
        ) && octets[0] == 0xfd && forall|i: int| 8 <= i < 16 ==> #[trigger] octets[i] == 0,
{
    let full = address.push('/') + len;
    text::law_trimming_takes_white_space_only(left, full, right);
    text::law_trimming_takes_white_space_only(left, address, right);
    text::law_cut_at_the_first(full, address, '/', len);
    text::law_cut_at_the_first(address, address, '/', len);
    lemma_trimmed_keeps(len);
    lemma_trimmed_keeps(address);
    if octets.len() == 16 {
        let low = octets.skip(8);
        if low == no_interface() {
            assert forall|i: int| 8 <= i < 16 implies #[trigger] octets[i] == 0 by {
                assert(low[i - 8] == no_interface()[i - 8]);
            }
        }
        if forall|i: int| 8 <= i < 16 ==> #[trigger] octets[i] == 0 {
            assert(low =~= no_interface());
        }
    }
}

/// A prefix made of random bytes has the first five of them and the subnet zero, so two prefixes
/// are the same only where those bytes are; the address that is probed lies in it and ends in
/// `::1`.
pub proof fn law_prefix_keeps_its_random_bytes(
    random: [u8; 16],
    prefix: UlaPrefix,
    probe: Ipv6Addr,
    i: int,
)
    requires
        call_ensures(UlaPrefix::from_random, (random,), prefix),
        call_ensures(UlaPrefix::probe_address, (&prefix,), probe),
    ensures
        0 <= i < 5 ==> prefix.octets()[i + 1] == random@[i],
        prefix.octets()[0] == 0xfd,
        6 <= i < 16 ==> prefix.octets()[i] == 0,
        probe.bytes().take(8) == prefix.octets().take(8),
        8 <= i < 15 ==> probe.bytes()[i] == 0,
        probe.bytes()[15] == 1,
{
    prefix.lemma_five_bytes();
    assert(probe.bytes().take(8) =~= prefix.octets().take(8));
}

// ---------------------------------------------------------------------------------------------
// keeping the prefix
// ---------------------------------------------------------------------------------------------

/// The file that holds the prefix.
pub fn network_file(config_dir: &str) -> (path: String)
    ensures
        path@ == path::joined(config_dir@, NETWORK_FILE_NAME@),
{
    path::join(config_dir, NETWORK_FILE_NAME)
}

/// What became of reading the prefix's file.
#[derive(Clone, Debug, PartialEq, Eq)]
pub enum PrefixFile {
    /// It holds this prefix.
    Prefix(UlaPrefix),
    /// There is none.
    Missing,
    /// It is there and does not hold a prefix.
    Broken(String),
    /// It could not be read.
    Unreadable(String),
}

/// Why the prefix could not be read.
#[derive(Clone, Debug, PartialEq, Eq)]
pub enum PrefixFileError {
    /// The file is there and does not hold a prefix.
    InvalidData(String),
    /// The file could not be read.
    Io(String),
}

/// The installation's prefix, if one was ever made. A broken file is an error and no reason to
/// make a new prefix: that would invalidate the route that the user has installed.
pub fn load_prefix(file: PrefixFile) -> (r: Result<Option<UlaPrefix>, PrefixFileError>)
    ensures
        r == (match file {
            PrefixFile::Prefix(prefix) => Ok::<Option<UlaPrefix>, PrefixFileError>(Some(prefix)),
            PrefixFile::Missing => Ok::<Option<UlaPrefix>, PrefixFileError>(None),
            PrefixFile::Broken(e) => Err::<Option<UlaPrefix>, PrefixFileError>(
                PrefixFileError::InvalidData(e),
            ),
            PrefixFile::Unreadable(e) => Err::<Option<UlaPrefix>, PrefixFileError>(
                PrefixFileError::Io(e),
            ),
        }),
{
    match file {
        PrefixFile::Prefix(prefix) => Ok(Some(prefix)),
        PrefixFile::Missing => Ok(None),
        PrefixFile::Broken(e) => Err(PrefixFileError::InvalidData(e)),
        PrefixFile::Unreadable(e) => Err(PrefixFileError::Io(e)),
    }
}

/// The installation's prefix, and whether it is new and has to be saved. One is made only where
/// there is no file at all; an existing prefix is never replaced.
pub fn load_or_create_prefix(file: PrefixFile) -> (r: Result<(UlaPrefix, bool), PrefixFileError>)
    ensures
        match r {
            Ok((prefix, is_new)) => match file {
                PrefixFile::Prefix(kept) => !is_new && prefix == kept,
                PrefixFile::Missing => is_new && prefix.subnet_id() == 0,
                _ => false,
            },
            Err(e) => match file {
                PrefixFile::Broken(m) => e == PrefixFileError::InvalidData(m),
                PrefixFile::Unreadable(m) => e == PrefixFileError::Io(m),
                _ => false,
            },
        },
{
    match load_prefix(file) {
        Err(e) => Err(e),
        Ok(Some(prefix)) => Ok((prefix, false)),
        Ok(None) => Ok((UlaPrefix::generate(), true)),
    }
}

/// A prefix that is on disk is kept, and a new one is made only where there is no file; a file that
/// is broken or cannot be read is an error for both ways of asking, and the two are told apart.
pub proof fn law_existing_prefix_is_kept(
    file: PrefixFile,
    loaded: Result<Option<UlaPrefix>, PrefixFileError>,
    made: Result<(UlaPrefix, bool), PrefixFileError>,
)
    requires
        call_ensures(load_prefix, (file,), loaded),
        call_ensures(load_or_create_prefix, (file,), made),
    ensures
        loaded is Err <==> made is Err,
        loaded is Err <==> file is Broken || file is Unreadable,
        loaded matches Ok(None) <==> file is Missing,
        loaded matches Ok(Some(prefix)) ==> file == PrefixFile::Prefix(prefix) && made == Ok::<
            (UlaPrefix, bool),
            PrefixFileError,
        >((prefix, false)),
        made matches Ok((_, true)) <==> file is Missing,
        (loaded matches Err(PrefixFileError::InvalidData(_))) <==> file is Broken,
        (made matches Err(PrefixFileError::InvalidData(_))) <==> file is Broken,
{
}

/// How a prefix gets onto the disk: the directory is made, the contents are written to the
/// temporary file, which is then moved, so that a crash never leaves half a file behind.
#[derive(Clone, Debug, PartialEq, Eq)]
pub struct PrefixSavePlan {
    pub dir: String,
    pub tmp: String,
    pub path: String,
    pub contents: String,
}

/// How to save a prefix, given its file as JSON.
pub fn save_prefix(config_dir: &str, json: &str) -> (plan: PrefixSavePlan)
    ensures
        plan.dir@ == config_dir@,
        plan.tmp@ == path::joined(config_dir@, NETWORK_TMP_NAME@),
        plan.path@ == path::joined(config_dir@, NETWORK_FILE_NAME@),
        plan.contents@ == json@.push('\n'),
{
    let mut contents = json.to_string();
    contents.push('\n');
    PrefixSavePlan {
        dir: config_dir.to_string(),
        tmp: path::join(config_dir, NETWORK_TMP_NAME),
        path: network_file(config_dir),
        contents,
    }
}

// ---------------------------------------------------------------------------------------------
// addresses of services
// ---------------------------------------------------------------------------------------------

/// What is hashed for a service's interface id.
pub open spec fn address_message(service_id: Seq<char>) -> Seq<u8> {
    vstd::utf8::encode_utf8(ADDRESS_DOMAIN@) + vstd::utf8::encode_utf8(service_id)
}

/// Whether an id is short enough to be hashed: its bytes, and the few before them, number fewer
/// than 2^61.
pub open spec fn is_hashable(service_id: Seq<char>) -> bool {
    address_message(service_id).len() < 0x2000_0000_0000_0000
}

/// The first eight bytes of a digest, of which the last becomes one where all are zero: that
/// interface id is reserved.
pub open spec fn interface_of(digest: Seq<u8>) -> Seq<u8> {
    if digest.take(8) == no_interface() {
        seq![0u8, 0u8, 0u8, 0u8, 0u8, 0u8, 0u8, 1u8]
    } else {
        digest.take(8)
    }
}

/// The interface id of a service.
pub open spec fn interface_for(service_id: Seq<char>) -> Seq<u8> {
    interface_of(outside::sha256(address_message(service_id)))
}

/// The interface id that a digest gives.
pub fn interface_id_from_digest(digest: &[u8; 32]) -> (id: [u8; 8])
    ensures
        id@ == interface_of(digest@),
{
    let d = *digest;
    let id: [u8; 8] = [d[0], d[1], d[2], d[3], d[4], d[5], d[6], d[7]];
    assert(id@ =~= digest@.take(8));
    if d[0] == 0 && d[1] == 0 && d[2] == 0 && d[3] == 0 && d[4] == 0 && d[5] == 0 && d[6] == 0
        && d[7] == 0 {
        assert(digest@.take(8) =~= no_interface());
        let one: [u8; 8] = [0, 0, 0, 0, 0, 0, 0, 1];
        assert(one@ =~= seq![0u8, 0u8, 0u8, 0u8, 0u8, 0u8, 0u8, 1u8]);
        one
    } else {
        proof {
            if digest@.take(8) == no_interface() {
                let z = no_interface();
                assert(z[0] == id@[0] && z[1] == id@[1] && z[2] == id@[2] && z[3] == id@[3] && z[4]
                    == id@[4] && z[5] == id@[5] && z[6] == id@[6] && z[7] == id@[7]);
            }
        }
        id
    }
}

/// The interface id of a service. It is derived from the service's opaque id; the name plays no
/// part.
pub fn interface_id_for(service_id: &str) -> (id: [u8; 8])
    requires
        is_hashable(service_id@),
    ensures
        id@ == interface_for(service_id@),
{
    let mut message = ADDRESS_DOMAIN.as_bytes_vec();
    message.extend_from_slice(service_id.as_bytes());
    assert(message@ =~= address_message(service_id@));
    interface_id_from_digest(&outside::sha256_of(message.as_slice()))
}

/// What stands before an id is 25 bytes long.
pub proof fn lemma_domain_bytes()
    ensures
        vstd::utf8::encode_utf8(ADDRESS_DOMAIN@).len() == 25,
{
    reveal_strlit("gezellij-service-address:");
    assert(vstd::utf8::is_ascii_chars(ADDRESS_DOMAIN@));
    vstd::utf8::is_ascii_chars_encode_utf8(ADDRESS_DOMAIN@);
}

/// What is hashed tells ids apart: it is the 25 bytes that stand before every id, followed by all
/// bytes of the id, so two ids are hashed alike only where they are the same.
pub proof fn law_hashed_message_tells_ids_apart(a: Seq<char>, b: Seq<char>)
    ensures
        address_message(a) == address_message(b) ==> a == b,
        address_message(a).len() == 25 + vstd::utf8::encode_utf8(a).len(),
        address_message(a).take(25) == address_message(b).take(25),
        address_message(a).take(25) == vstd::utf8::encode_utf8("gezellij-service-address:"@),
        address_message(a).skip(25) == vstd::utf8::encode_utf8(a),
        is_hashable(a) <==> 25 + vstd::utf8::encode_utf8(a).len() < 0x2000_0000_0000_0000,
{
    lemma_domain_bytes();
    assert(address_message(a).take(25) =~= vstd::utf8::encode_utf8(ADDRESS_DOMAIN@));
    assert(address_message(b).take(25) =~= vstd::utf8::encode_utf8(ADDRESS_DOMAIN@));
    assert(address_message(a).skip(25) =~= vstd::utf8::encode_utf8(a));
    assert(address_message(b).skip(25) =~= vstd::utf8::encode_utf8(b));
    vstd::utf8::encode_utf8_decode_utf8(a);
    vstd::utf8::encode_utf8_decode_utf8(b);
}

/// The interface id of a service is what its digest begins with, byte for byte, except where that
/// is all zero: then its last byte is one. It is never all zero.
pub proof fn law_interface_id_begins_the_digest(service_id: &str, id: [u8; 8], i: int)
    requires
        call_ensures(interface_id_for, (service_id,), id),
        outside::sha256(address_message(service_id@)).len() == 32,
        0 <= i < 8,
    ensures
        ({
            let digest = outside::sha256(address_message(service_id@));
            &&& (exists|k: int| 0 <= k < 8 && #[trigger] digest[k] != 0) ==> id@[i] == digest[i]
            &&& (forall|k: int| 0 <= k < 8 ==> #[trigger] digest[k] == 0) ==> id@[i] == (if i == 7 {
                1u8
            } else {
                0u8
            })
            &&& exists|k: int| 0 <= k < 8 && #[trigger] id@[k] != 0
        }),
{
    let digest = outside::sha256(address_message(service_id@));
    let zero = no_interface();
    if exists|k: int| 0 <= k < 8 && #[trigger] digest[k] != 0 {
        let k = choose|k: int| 0 <= k < 8 && #[trigger] digest[k] != 0;
        assert(digest.take(8)[k] != zero[k]);
        assert(id@[k] == digest[k]);
    } else {
        assert(digest.take(8) =~= zero);
        assert(id@[7] == 1);
    }
}

/// The address of the service with this id.
pub fn service_address(prefix: &UlaPrefix, service_id: &str) -> (address: Ipv6Addr)
    requires
        is_hashable(service_id@),
    ensures
        address.bytes() == prefix.network() + interface_for(service_id@),
{
    prefix.address_with_interface_id(interface_id_for(service_id))
}

/// The socket that a service should bind, or `None` when it did not ask for an address.
pub fn bind_address_for(prefix: &UlaPrefix, service: &ServiceDefinition) -> (socket: Option<
    SocketAddrV6,
>)
    requires
        is_hashable(services::address_id_of(service.name@, service.id@)),
    ensures
        match socket {
            Some(socket) => {
                &&& service.bind_ip
                &&& socket.address().bytes() == prefix.network() + interface_for(
                    services::address_id_of(service.name@, service.id@),
                )
                &&& socket.port_number() == SERVICE_PORT
            },
            None => !service.bind_ip,
        },
{
    if !service.bind_ip {
        return None;
    }
    let address = service_address(prefix, service.address_id().as_str());
    Some(SocketAddrV6::new(address, default_port()))
}

/// A service's address lies in the prefix and is never the network address, whatever the digest.
pub proof fn law_service_address_is_usable(network: Seq<u8>, digest: Seq<u8>)
    requires
        network.len() == 8,
        digest.len() == 32,
    ensures
        (network + interface_of(digest)).len() == 16,
        (network + interface_of(digest)).take(8) == network,
        network + interface_of(digest) != network + no_interface(),
{
    let address = network + interface_of(digest);
    assert(address.take(8) =~= network);
    if address == network + no_interface() {
        assert(address.skip(8) =~= interface_of(digest));
        assert((network + no_interface()).skip(8) =~= no_interface());
        assert(seq![0u8, 0u8, 0u8, 0u8, 0u8, 0u8, 0u8, 1u8][7] == 1 && no_interface()[7] == 0);
    }
}

// ---------------------------------------------------------------------------------------------
// texts for people and for other programs
// ---------------------------------------------------------------------------------------------

/// The URL of a socket.
pub open spec fn url_of(address: Seq<u8>, port: u16) -> Seq<char> {
    "http://["@ + ipv6::address_text(address) + "]:"@ + text::dec(port as nat)
}

/// The URL of a bind address.
pub fn bind_url(address: &SocketAddrV6) -> (url: String)
    ensures
        url@ == url_of(address.address().bytes(), address.port_number()),
{
    let mut url = "http://[".to_string();
    url.append(address.ip().to_string().as_str());
    url.append("]:");
    url.append(text::decimal(address.port() as u64).as_str());
    url
}

/// The suggested hostname of a service.
pub fn hostname_for(service_name: &str) -> (s: String)
    ensures
        s@ == service_name@ + ".localhost"@,
{
    let mut s = service_name.to_string();
    s.append(".localhost");
    s
}

/// A Caddyfile site block that points a hostname at an address.
pub open spec fn caddy_text(hostname: Seq<char>, address: Seq<u8>, port: u16) -> Seq<char> {
    hostname + " {\n\treverse_proxy ["@ + ipv6::address_text(address) + "]:"@ + text::dec(
        port as nat,
    ) + "\n}\n"@
}

/// A Caddyfile site block that points a hostname at a service's address.
pub fn caddy_snippet(hostname: &str, address: &Ipv6Addr, port: u16) -> (s: String)
    ensures
        s@ == caddy_text(hostname@, address.bytes(), port),
{
    let mut s = hostname.to_string();
    s.append(" {\n\treverse_proxy [");
    s.append(address.to_string().as_str());
    s.append("]:");
    s.append(text::decimal(port as u64).as_str());
    s.append("\n}\n");
    s
}

/// An `/etc/hosts` line.
pub open spec fn hosts_text(address: Seq<u8>, name: Seq<char>) -> Seq<char> {
    ipv6::address_text(address) + "\t"@ + name + "\n"@
}

/// An `/etc/hosts` line for a service's address.
pub fn hosts_line(address: &Ipv6Addr, name: &str) -> (s: String)
    ensures
        s@ == hosts_text(address.bytes(), name@),
{
    let mut s = address.to_string();
    s.append("\t");
    s.append(name);
    s.append("\n");
    s
}

/// What an export is written for.
#[derive(Debug, Clone, Copy, PartialEq, Eq, Structural)]
pub enum NetExportFormat {
    /// Caddyfile site blocks.
    Caddy,
    /// `/etc/hosts` lines.
    Hosts,
}

impl Default for NetExportFormat {
    fn default() -> (format: Self)
        ensures
            format == NetExportFormat::Caddy,
    {
        NetExportFormat::Caddy
    }
}

/// The setup instructions up to the prefix.
pub const SETUP_INTRO: &'static str = "Gezellij gives each service its own loopback IPv6 address out of ";

/// The setup instructions up to the route command's prefix.
pub const SETUP_ROUTE: &'static str = "\n(a locally assigned ULA prefix, RFC 4193, generated once for this installation).\n\nFor the kernel to accept those addresses as local, add the route once as root:\n\n    sudo ip -6 route add local ";

/// The setup instructions up to the network address.
pub const SETUP_CHECK: &'static str = " dev lo\n\nCheck it with:\n\n    ip -6 route show table local | grep ";

/// The setup instructions up to the unit's first prefix.
pub const SETUP_UNIT: &'static str = "\n\nTo make it survive a reboot, install a tiny system unit\n(/etc/systemd/system/gezellij-ula.service):\n\n    [Unit]\n    Description=Gezellij loopback ULA prefix\n    After=network-pre.target\n    Before=network.target\n\n    [Service]\n    Type=oneshot\n    RemainAfterExit=yes\n    ExecStart=/usr/bin/ip -6 route add local ";

/// The setup instructions up to the unit's second prefix.
pub const SETUP_STOP: &'static str = " dev lo\n    ExecStop=/usr/bin/ip -6 route del local ";

/// The end of the setup instructions.
pub const SETUP_END: &'static str = " dev lo\n\n    [Install]\n    WantedBy=multi-user.target\n\n    sudo systemctl daemon-reload && sudo systemctl enable --now gezellij-ula.service\n\n(If your network is managed by systemd-networkd you can instead add the same route to the `lo`\n.network file; the unit above works regardless of who manages `lo`.)\n";

/// The one-time setup for a prefix.
pub fn setup_instructions(prefix: &UlaPrefix) -> (s: String)
    ensures
        s@ == SETUP_INTRO@ + prefix.text() + SETUP_ROUTE@ + prefix.text() + SETUP_CHECK@
            + ipv6::address_text(prefix.octets()) + SETUP_UNIT@ + prefix.text() + SETUP_STOP@
            + prefix.text() + SETUP_END@,
{
    let shown = prefix.to_string();
    let mut s = SETUP_INTRO.to_string();
    s.append(shown.as_str());
    s.append(SETUP_ROUTE);
    s.append(shown.as_str());
    s.append(SETUP_CHECK);
    s.append(prefix.network_address().to_string().as_str());
    s.append(SETUP_UNIT);
    s.append(shown.as_str());
    s.append(SETUP_STOP);
    s.append(shown.as_str());
    s.append(SETUP_END);
    s
}

/// The address of a service lies in the prefix and ends in its interface id. It has one exactly
/// where it asked for one, at the port that all services share; two services with one id have one
/// address, whatever their names.
pub proof fn law_address_is_prefix_and_interface(
    prefix: UlaPrefix,
    service: ServiceDefinition,
    other: ServiceDefinition,
    socket: Option<SocketAddrV6>,
    other_socket: Option<SocketAddrV6>,
)
    requires
        call_ensures(bind_address_for, (&prefix, &service), socket),
        call_ensures(bind_address_for, (&prefix, &other), other_socket),
    ensures
        socket is Some <==> service.bind_ip,
        socket matches Some(s) ==> s.port_number() == 8080 && s.address().bytes().take(8)
            == prefix.octets().take(8) && s.address().bytes().skip(8) == interface_for(
            services::address_id_of(service.name@, service.id@),
        ),
        socket is Some && other_socket is Some && service.id@ == other.id@ && service.id@.len() > 0
            ==> socket->0.address().bytes() == other_socket->0.address().bytes(),
{
    prefix.lemma_five_bytes();
    if let Some(s) = socket {
        assert(s.address().bytes().take(8) =~= prefix.octets().take(8));
        assert(s.address().bytes().skip(8) =~= interface_for(
            services::address_id_of(service.name@, service.id@),
        ));
    }
}

/// A prefix is written to its file by way of another file beside it, with a line feed at the end;
/// it is the file that is read.
pub proof fn law_prefix_is_saved_where_it_is_read(
    config_dir: &str,
    json: &str,
    plan: PrefixSavePlan,
    file: String,
)
    requires
        call_ensures(save_prefix, (config_dir, json), plan),
        call_ensures(network_file, (config_dir,), file),
    ensures
        plan.path@ == file@,
        plan.tmp@ != plan.path@,
        text::has_prefix(plan.path@, config_dir@) && text::has_prefix(plan.tmp@, config_dir@),
        plan.dir@ == config_dir@,
        plan.contents@ == json@ + seq!['\n'],
{
    reveal_strlit("network.json");
    reveal_strlit(".network.json.tmp");
    let name = NETWORK_FILE_NAME@;
    let tmp = NETWORK_TMP_NAME@;
    assert(!name.contains('/'));
    assert(!tmp.contains('/'));
    path::lemma_joined_stays_below(config_dir@, name);
    path::lemma_joined_stays_below(config_dir@, tmp);
    if plan.tmp@ == plan.path@ {
        path::lemma_joined_is_injective(config_dir@, name, tmp);
    }
}

/// A prefix that is shown is read back, and a text is read as a prefix or refused, never both.
pub proof fn law_shown_prefix_is_read(
    prefix: UlaPrefix,
    shown: String,
    s: &str,
    r: Result<UlaPrefix, String>,
    checked: Result<UlaPrefix, PrefixError>,
)
    requires
        call_ensures(UlaPrefix::to_string, (&prefix,), shown),
        call_ensures(UlaPrefix::from_str, (s,), r),
        call_ensures(UlaPrefix::check, (s,), checked),
    ensures
        s@ == shown@ ==> r == Ok::<UlaPrefix, String>(prefix),
        r is Ok <==> checked is Ok,
        r matches Ok(found) ==> is_prefix_text(s@, found.octets()),
        r is Err ==> names_no_prefix(s@),
{
    prefix.lemma_five_bytes();
    law_prefix_reads_back(prefix.global(), prefix.subnet_id());
    if s@ == shown@ {
        lemma_prefix_survives_with_its_length(prefix, r);
    }
    if let Ok(found) = r {
        assert(is_prefix_text(s@, found.octets()));
    }
    if let Ok(found) = checked {
        assert(is_prefix_text(s@, found.octets()));
    }
}

proof fn lemma_prefix_survives_with_its_length(prefix: UlaPrefix, r: Result<UlaPrefix, String>)
    requires
        reads_prefix(prefix.text(), r),
    ensures
        r == Ok::<UlaPrefix, String>(prefix),
{
    prefix.lemma_five_bytes();
    law_prefix_reads_back(prefix.global(), prefix.subnet_id());
    assert(is_prefix_text(prefix.text(), prefix.octets()));
    if let Ok(found) = r {
        law_prefix_text_is_unambiguous(prefix.text(), found.octets(), prefix.octets());
        found.lemma_octets_determine(&prefix);
    }
}

/// What is wrong with a text is found in this order: a length other than 64, no address at all, an
/// address that is not local, and one that names an interface.
pub proof fn law_first_fault_of_a_prefix_is_told(s: &str, e: PrefixError)
    requires
        call_ensures(UlaPrefix::check, (s,), Err::<UlaPrefix, PrefixError>(e)),
    ensures
        e is WrongLength <==> !has_right_length(s@),
        e is NotAnAddress <==> has_right_length(s@) && ipv6::address_of(prefix_parts(s@).0) is None,
        e matches PrefixError::NotLocal { address } ==> address.bytes()[0] != 0xfd,
        e matches PrefixError::HasInterface { address } ==> address.bytes()[0] == 0xfd && exists|
            i: int,
        |
            8 <= i < 16 && #[trigger] address.bytes()[i] != 0,
{
    if let PrefixError::HasInterface { address } = e {
        address.lemma_sixteen_bytes();
        let low = address.bytes().skip(8);
        if forall|i: int| 8 <= i < 16 ==> #[trigger] address.bytes()[i] == 0 {
            assert(low =~= no_interface());
        }
    }
}

/// White space around the length of a prefix does not matter either.
pub proof fn law_length_may_stand_apart(
    address: Seq<char>,
    left: Seq<char>,
    right: Seq<char>,
    octets: Seq<u8>,
)
    requires
        address.len() > 0 && !text::is_white(address[0]) && !text::is_white(address.last()),
        !address.contains('/'),
        forall|i: int| 0 <= i < left.len() ==> text::is_white(#[trigger] left[i]),
        forall|i: int| 0 <= i < right.len() ==> text::is_white(#[trigger] right[i]),
    ensures
        is_prefix_text(address.push('/') + (left + "64"@) + right, octets) <==> is_prefix_text(
            address,
            octets,
        ),
{
    reveal_strlit("64");
    let none = Seq::<char>::empty();
    let len = left + "64"@;
    let full = address.push('/') + len;
    text::law_trimming_takes_white_space_only(none, full, right);
    assert(none + full + right =~= full + right);
    text::law_cut_at_the_first(full, address, '/', len);
    text::law_cut_at_the_first(address, address, '/', len);
    text::law_trimming_takes_white_space_only(left, "64"@, none);
    assert(left + "64"@ + none =~= len);
    lemma_trimmed_keeps(address);
}

/// A line for `/etc/hosts` is the address, a tab and the name; a block for Caddy is the name and,
/// in braces, the address and the port that it is passed on to.
pub proof fn law_entries_name_host_and_address(address: Seq<u8>, name: Seq<char>, port: u16)
    requires
        address.len() == 16,
        !ipv6::is_ipv4_mapped(address),
        !name.contains(' '),
    ensures
        text::split_at_first(hosts_text(address, name), '\t') == Some(
            (ipv6::address_text(address), name + "\n"@),
        ),
        text::split_at_first(caddy_text(name, address, port), ' ') == Some(
            (
                name,
                "{\n\treverse_proxy ["@ + ipv6::address_text(address) + "]:"@ + text::dec(
                    port as nat,
                ) + "\n}\n"@,
            ),
        ),
{
    reveal_strlit("\t");
    reveal_strlit(" {\n\treverse_proxy [");
    reveal_strlit("{\n\treverse_proxy [");
    let shown = ipv6::address_text(address);
    ipv6::lemma_address_chars(address);
    assert(!shown.contains('\t')) by {
        assert forall|i: int| 0 <= i < shown.len() implies shown[i] != '\t' by {
            assert(ipv6::is_address_char(shown[i]));
        }
    }
    text::law_cut_at_the_first(shown, shown, '\t', name + "\n"@);
    assert(hosts_text(address, name) =~= shown.push('\t') + (name + "\n"@));
    let rest = "{\n\treverse_proxy ["@ + shown + "]:"@ + text::dec(port as nat) + "\n}\n"@;
    text::law_cut_at_the_first(name, name, ' ', rest);
    assert(caddy_text(name, address, port) =~= name.push(' ') + rest);
}

} // verus!
