//! IPv6 addresses and their text form.
use crate::text;
use vstd::prelude::*;

verus! {

/// An IPv6 address.
#[derive(Clone, Copy, Debug, PartialEq, Eq)]
pub struct Ipv6Addr {
    octets: [u8; 16],
}

/// An IPv6 address and a port on it.
#[derive(Clone, Copy, Debug, PartialEq, Eq)]
pub struct SocketAddrV6 {
    ip: Ipv6Addr,
    port: u16,
}

/// The `i`th group of sixteen bits.
pub open spec fn group_at(octets: Seq<u8>, i: int) -> u16 {
    (octets[2 * i] * 256 + octets[2 * i + 1]) as u16
}

/// The eight groups of sixteen bits.
pub open spec fn groups_of(octets: Seq<u8>) -> Seq<u16> {
    Seq::new(8, |i: int| group_at(octets, i))
}

// ---------------------------------------------------------------------------------------------
// writing
// ---------------------------------------------------------------------------------------------

/// How many zero groups stand in a row from index `i` on.
pub open spec fn zeros_from(groups: Seq<u16>, i: int) -> nat
    decreases groups.len() - i,
{
    if 0 <= i < groups.len() && groups[i] == 0 {
        1 + zeros_from(groups, i + 1)
    } else {
        0
    }
}

/// The longest run of zero groups that begins at index `i` or later, as start and length; of two
/// equally long ones the first.
pub open spec fn longest_zeros(groups: Seq<u16>, i: int) -> (int, nat)
    decreases groups.len() - i,
{
    if 0 <= i < groups.len() {
        let later = longest_zeros(groups, i + 1);
        if zeros_from(groups, i) >= later.1 {
            (i, zeros_from(groups, i))
        } else {
            later
        }
    } else {
        (i, 0)
    }
}

/// The hexadecimal texts of the groups.
pub open spec fn group_texts(groups: Seq<u16>) -> Seq<Seq<char>> {
    groups.map_values(|g: u16| text::hex(g as nat))
}

/// The groups in hexadecimal with colons between them.
pub open spec fn groups_text(groups: Seq<u16>) -> Seq<char> {
    text::joined_by(group_texts(groups), ':')
}

/// Whether the address stands for an IPv4 address, which its last four bytes hold.
pub open spec fn is_ipv4_mapped(octets: Seq<u8>) -> bool {
    (forall|i: int| 0 <= i < 10 ==> octets[i] == 0) && octets[10] == 255 && octets[11] == 255
}

/// Four bytes in decimal with dots between them.
pub open spec fn ipv4_text(a: u8, b: u8, c: u8, d: u8) -> Seq<char> {
    text::joined_by(quad_texts(a, b, c, d), '.')
}

/// Four bytes in decimal.
pub open spec fn quad_texts(a: u8, b: u8, c: u8, d: u8) -> Seq<Seq<char>> {
    seq![text::dec(a as nat), text::dec(b as nat), text::dec(c as nat), text::dec(d as nat)]
}

/// An address as text: its groups in hexadecimal, with the longest run of two or more zero groups
/// left out between two colons; a mapped IPv4 address keeps its dotted form.
pub open spec fn address_text(octets: Seq<u8>) -> Seq<char> {
    let groups = groups_of(octets);
    let (start, len) = longest_zeros(groups, 0);
    if is_ipv4_mapped(octets) {
        "::ffff:"@ + ipv4_text(octets[12], octets[13], octets[14], octets[15])
    } else if len > 1 {
        groups_text(groups.take(start)) + "::"@ + groups_text(groups.skip(start + len as int))
    } else {
        groups_text(groups)
    }
}

/// The groups of `groups` from `from` up to `to` in hexadecimal with colons between them.
fn write_groups(groups: &[u16; 8], from: usize, to: usize) -> (s: String)
    requires
        from <= to <= 8,
    ensures
        s@ == groups_text(groups@.subrange(from as int, to as int)),
    decreases to - from,
{
    let ghost list = group_texts(groups@.subrange(from as int, to as int));
    if from == to {
        return String::new();
    }
    let mut s = text::hexadecimal(groups[from] as u32);
    if from + 1 < to {
        s.push(':');
        let rest = write_groups(groups, from + 1, to);
        assert(list.skip(1) =~= group_texts(groups@.subrange(from + 1, to as int)));
        s.append(rest.as_str());
    }
    s
}

/// The longest run of zero groups.
fn longest_run(groups: &[u16; 8]) -> (run: (usize, usize))
    ensures
        longest_zeros(groups@, 0) == (run.0 as int, run.1 as nat),
        run.0 + run.1 <= 8,
{
    let mut i: usize = 8;
    let mut here: usize = 0;
    let mut start: usize = 8;
    let mut len: usize = 0;
    while i > 0
        invariant
            i <= 8,
            groups@.len() == 8,
            here == zeros_from(groups@, i as int),
            here + i <= 8,
            longest_zeros(groups@, i as int) == (start as int, len as nat),
            start + len <= 8,
        decreases i,
    {
        i -= 1;
        if groups[i] == 0 {
            here += 1;
        } else {
            here = 0;
        }
        if here >= len {
            start = i;
            len = here;
        }
    }
    (start, len)
}

impl Ipv6Addr {
    /// The sixteen bytes, the most significant one first.
    pub closed spec fn bytes(&self) -> Seq<u8> {
        self.octets@
    }

    /// An address has sixteen bytes.
    pub proof fn lemma_sixteen_bytes(&self)
        ensures
            self.bytes().len() == 16,
    {
    }

    /// The address made of sixteen bytes.
    pub fn from_octets(octets: [u8; 16]) -> (address: Self)
        ensures
            address.bytes() == octets@,
    {
        Ipv6Addr { octets }
    }

    /// The sixteen bytes of the address.
    pub fn octets(&self) -> (octets: [u8; 16])
        ensures
            octets@ == self.bytes(),
    {
        self.octets
    }

    /// The eight groups of sixteen bits.
    pub fn segments(&self) -> (groups: [u16; 8])
        ensures
            groups@ == groups_of(self.bytes()),
    {
        let o = self.octets;
        let groups: [u16; 8] = [
            o[0] as u16 * 256 + o[1] as u16,
            o[2] as u16 * 256 + o[3] as u16,
            o[4] as u16 * 256 + o[5] as u16,
            o[6] as u16 * 256 + o[7] as u16,
            o[8] as u16 * 256 + o[9] as u16,
            o[10] as u16 * 256 + o[11] as u16,
            o[12] as u16 * 256 + o[13] as u16,
            o[14] as u16 * 256 + o[15] as u16,
        ];
        assert(groups@ =~= groups_of(o@));
        groups
    }

    /// Whether the address stands for an IPv4 address.
    fn is_mapped(&self) -> (b: bool)
        ensures
            b == is_ipv4_mapped(self.bytes()),
    {
        let mut i: usize = 0;
        while i < 10
            invariant
                i <= 10,
                forall|j: int| 0 <= j < i ==> self.octets@[j] == 0,
            decreases 10 - i,
        {
            if self.octets[i] != 0 {
                return false;
            }
            i += 1;
        }
        self.octets[10] == 255 && self.octets[11] == 255
    }

    /// The address as text.
    pub fn to_string(&self) -> (s: String)
        ensures
            s@ == address_text(self.bytes()),
    {
        if self.is_mapped() {
            let mut quad: Vec<String> = Vec::new();
            quad.push(text::decimal(self.octets[12] as u64));
            quad.push(text::decimal(self.octets[13] as u64));
            quad.push(text::decimal(self.octets[14] as u64));
            quad.push(text::decimal(self.octets[15] as u64));
            assert(text::views(quad@) =~= quad_texts(
                self.octets@[12],
                self.octets@[13],
                self.octets@[14],
                self.octets@[15],
            ));
            let mut s = "::ffff:".to_string();
            s.append(text::join(&quad, '.').as_str());
            return s;
        }
        let groups = self.segments();
        let (start, len) = longest_run(&groups);
        if len > 1 {
            let mut s = write_groups(&groups, 0, start);
            s.append("::");
            s.append(write_groups(&groups, start + len, 8).as_str());
            assert(groups@.subrange(0, start as int) =~= groups@.take(start as int));
            assert(groups@.subrange(start + len, 8) =~= groups@.skip(start + len));
            s
        } else {
            assert(groups@.subrange(0, 8) =~= groups@);
            write_groups(&groups, 0, 8)
        }
    }
}

impl SocketAddrV6 {
    /// The address.
    pub closed spec fn address(&self) -> Ipv6Addr {
        self.ip
    }

    /// The port.
    pub closed spec fn port_number(&self) -> u16 {
        self.port
    }

    pub fn new(ip: Ipv6Addr, port: u16) -> (socket: Self)
        ensures
            socket.address() == ip,
            socket.port_number() == port,
    {
        SocketAddrV6 { ip, port }
    }

    pub fn ip(&self) -> (ip: &Ipv6Addr)
        ensures
            *ip == self.address(),
    {
        &self.ip
    }

    pub fn port(&self) -> (port: u16)
        ensures
            port == self.port_number(),
    {
        self.port
    }
}

// ---------------------------------------------------------------------------------------------
// reading
// ---------------------------------------------------------------------------------------------

/// What a hexadecimal digit of either case stands for.
pub open spec fn hex_digit(c: char) -> Option<nat> {
    if '0' <= c && c <= '9' {
        Some((c as int - 48) as nat)
    } else if 'a' <= c && c <= 'f' {
        Some((c as int - 87) as nat)
    } else if 'A' <= c && c <= 'F' {
        Some((c as int - 55) as nat)
    } else {
        None
    }
}

/// Whether every character is a hexadecimal digit.
pub open spec fn all_hex(s: Seq<char>) -> bool {
    forall|i: int| 0 <= i < s.len() ==> hex_digit(#[trigger] s[i]) is Some
}

/// What a run of hexadecimal digits stands for.
pub open spec fn hex_value(s: Seq<char>) -> nat
    decreases s.len(),
{
    if s.len() == 0 {
        0
    } else {
        hex_value(s.drop_last()) * 16 + hex_digit(s.last()).unwrap_or(0)
    }
}

/// A group: one to four hexadecimal digits.
pub open spec fn group_of(s: Seq<char>) -> Option<u16> {
    if 1 <= s.len() <= 4 && all_hex(s) {
        Some(hex_value(s) as u16)
    } else {
        None
    }
}

/// A byte of an IPv4 address: decimal, at most 255, without leading zeros.
pub open spec fn byte_of(s: Seq<char>) -> Option<u8> {
    if 1 <= s.len() <= 3 && text::all_digits(s) && (s.len() == 1 || s[0] != '0')
        && text::digits_value(s) <= 255 {
        Some(text::digits_value(s) as u8)
    } else {
        None
    }
}

/// The two groups that an IPv4 address, four bytes with dots between them, stands for.
pub open spec fn quad_of(s: Seq<char>) -> Option<(u16, u16)> {
    let p = text::pieces(s, '.');
    if p.len() == 4 && byte_of(p[0]) is Some && byte_of(p[1]) is Some && byte_of(p[2]) is Some
        && byte_of(p[3]) is Some {
        Some(
            (
                (byte_of(p[0])->0 * 256 + byte_of(p[1])->0) as u16,
                (byte_of(p[2])->0 * 256 + byte_of(p[3])->0) as u16,
            ),
        )
    } else {
        None
    }
}

/// The groups that the pieces between colons stand for. Where `quad` is set, the last piece may be
/// an IPv4 address.
pub open spec fn read_pieces(p: Seq<Seq<char>>, quad: bool) -> Option<Seq<u16>>
    decreases p.len(),
{
    if p.len() == 0 {
        Some(seq![])
    } else if p.len() == 1 && quad && quad_of(p[0]) is Some {
        let q = quad_of(p[0])->0;
        Some(seq![q.0, q.1])
    } else {
        match (group_of(p[0]), read_pieces(p.skip(1), quad)) {
            (Some(g), Some(rest)) => Some(seq![g] + rest),
            _ => None,
        }
    }
}

/// The groups in a text with colons between them; an empty text has none.
pub open spec fn read_groups(s: Seq<char>, quad: bool) -> Option<Seq<u16>> {
    if s.len() == 0 {
        Some(seq![])
    } else {
        read_pieces(text::pieces(s, ':'), quad)
    }
}

/// The first index at which two colons stand in a row, or the length of the text.
pub open spec fn double_colon(s: Seq<char>) -> int
    decreases s.len(),
{
    if s.len() < 2 {
        s.len() as int
    } else if s[0] == ':' && s[1] == ':' {
        0
    } else {
        1 + double_colon(s.skip(1))
    }
}

/// The eight groups of the address that a text spells: all of them, or fewer than eight with two
/// colons in place of the zero groups.
pub open spec fn address_of(s: Seq<char>) -> Option<Seq<u16>> {
    let k = double_colon(s);
    if k >= s.len() {
        match read_groups(s, true) {
            Some(groups) => if groups.len() == 8 {
                Some(groups)
            } else {
                None
            },
            None => None,
        }
    } else {
        match (read_groups(s.take(k), false), read_groups(s.skip(k + 2), true)) {
            (Some(head), Some(tail)) => if head.len() + tail.len() <= 7 {
                Some(head + zeros((8 - head.len() - tail.len()) as nat) + tail)
            } else {
                None
            },
            _ => None,
        }
    }
}

/// This many zero groups.
pub open spec fn zeros(n: nat) -> Seq<u16> {
    Seq::new(n, |i: int| 0u16)
}

/// Read a group.
fn parse_group(s: &str) -> (g: Option<u16>)
    ensures
        g == group_of(s@),
{
    let chars = text::chars_of(s);
    if chars.len() == 0 || chars.len() > 4 {
        return None;
    }
    let mut n: u32 = 0;
    let mut i: usize = 0;
    let ghost mut bound: int = 1;
    while i < chars.len()
        invariant
            i <= chars@.len() <= 4,
            chars@ == s@,
            s@.len() > 0,
            all_hex(chars@.take(i as int)),
            n == hex_value(chars@.take(i as int)),
            bound == (if i == 0 {
                1int
            } else if i == 1 {
                16
            } else if i == 2 {
                256
            } else if i == 3 {
                4096
            } else {
                65536
            }),
            n < bound,
        decreases chars@.len() - i,
    {
        let c = chars[i];
        let d: u32 = if '0' <= c && c <= '9' {
            c as u32 - 48
        } else if 'a' <= c && c <= 'f' {
            c as u32 - 87
        } else if 'A' <= c && c <= 'F' {
            c as u32 - 55
        } else {
            return None;
        };
        let ghost now = chars@.take(i as int);
        let ghost next = chars@.take(i + 1);
        assert(next.drop_last() =~= now);
        assert forall|j: int| 0 <= j < next.len() implies hex_digit(#[trigger] next[j]) is Some by {
            if j < now.len() {
                assert(next[j] == now[j]);
            }
        }
        n = n * 16 + d;
        i += 1;
        proof {
            bound = bound * 16;
        }
    }
    assert(chars@.take(i as int) =~= chars@);
    Some(n as u16)
}

/// Read a byte of an IPv4 address.
fn parse_byte(s: &str) -> (b: Option<u8>)
    ensures
        b == byte_of(s@),
{
    let len: usize = s.unicode_len();
    if len == 0 || len > 3 {
        return None;
    }
    let first = s.get_char(0);
    if first == '+' || (len > 1 && first == '0') {
        proof {
            if first == '+' {
                assert(!text::is_digit(s@[0]));
            }
        }
        return None;
    }
    match text::parse_number(s, 255) {
        Some(n) => Some(n as u8),
        None => None,
    }
}

/// Read an IPv4 address as two groups.
fn parse_quad(s: &str) -> (q: Option<(u16, u16)>)
    ensures
        q == quad_of(s@),
{
    let p = text::split(s, '.');
    let ghost v = text::pieces(s@, '.');
    if p.len() != 4 {
        return None;
    }
    assert(p@[0]@ == v[0] && p@[1]@ == v[1] && p@[2]@ == v[2] && p@[3]@ == v[3]);
    let a = parse_byte(p[0].as_str());
    let b = parse_byte(p[1].as_str());
    let c = parse_byte(p[2].as_str());
    let d = parse_byte(p[3].as_str());
    match (a, b, c, d) {
        (Some(a), Some(b), Some(c), Some(d)) => Some(
            (a as u16 * 256 + b as u16, c as u16 * 256 + d as u16),
        ),
        _ => None,
    }
}

/// The views of groups that may be missing.
pub open spec fn groups_view(groups: Option<Vec<u16>>) -> Option<Seq<u16>> {
    match groups {
        Some(groups) => Some(groups@),
        None => None,
    }
}

/// Read the groups in a text with colons between them.
fn parse_groups(s: &str, quad: bool) -> (groups: Option<Vec<u16>>)
    ensures
        groups_view(groups) == read_groups(s@, quad),
{
    if s.is_empty() {
        return Some(Vec::new());
    }
    let p = text::split(s, ':');
    let ghost v = text::pieces(s@, ':');
    let mut groups: Vec<u16> = Vec::new();
    let mut i: usize = 0;
    assert(v.skip(0) =~= v);
    proof {
        if let Some(r) = read_pieces(v, quad) {
            assert(groups@ + r =~= r);
        }
    }
    while i < p.len()
        invariant
            i <= p@.len(),
            v == text::views(p@),
            match read_pieces(v.skip(i as int), quad) {
                Some(r) => read_pieces(v, quad) == Some(groups@ + r),
                None => read_pieces(v, quad) is None,
            },
            s@.len() > 0,
            v == text::pieces(s@, ':'),
        decreases p@.len() - i,
    {
        let ghost rest = v.skip(i as int);
        let ghost before = groups@;
        assert(rest[0] == p@[i as int]@);
        assert(rest.skip(1) =~= v.skip(i + 1));
        if quad && i + 1 == p.len() {
            if let Some((a, b)) = parse_quad(p[i].as_str()) {
                groups.push(a);
                groups.push(b);
                assert(groups@ =~= before + seq![a, b]);
                return Some(groups);
            }
        }
        match parse_group(p[i].as_str()) {
            Some(g) => {
                groups.push(g);
                proof {
                    if let Some(r) = read_pieces(v.skip(i + 1), quad) {
                        assert(groups@ + r =~= before + (seq![g] + r));
                    }
                }
            },
            None => {
                return None;
            },
        }
        i += 1;
    }
    assert(groups@ + Seq::<u16>::empty() =~= groups@);
    Some(groups)
}

/// The first index at which two colons stand in a row.
fn find_double_colon(chars: &Vec<char>) -> (k: usize)
    ensures
        k == double_colon(chars@),
        k < chars@.len() ==> k + 2 <= chars@.len(),
{
    let len: usize = chars.len();
    let mut i: usize = 0;
    assert(chars@.skip(0) =~= chars@);
    while len - i >= 2
        invariant
            i <= len == chars@.len(),
            double_colon(chars@) == i + double_colon(chars@.skip(i as int)),
        decreases len - i,
    {
        let ghost rest = chars@.skip(i as int);
        if chars[i] == ':' && chars[i + 1] == ':' {
            assert(rest[0] == ':' && rest[1] == ':');
            return i;
        }
        assert(rest[0] == chars@[i as int] && rest[1] == chars@[i + 1]);
        assert(rest.skip(1) =~= chars@.skip(i + 1));
        i += 1;
    }
    len
}

/// The address made of eight groups.
fn address_from_groups(g: &Vec<u16>) -> (address: Ipv6Addr)
    requires
        g@.len() == 8,
    ensures
        groups_of(address.bytes()) == g@,
{
    let octets: [u8; 16] = [
        (g[0] / 256) as u8,
        (g[0] % 256) as u8,
        (g[1] / 256) as u8,
        (g[1] % 256) as u8,
        (g[2] / 256) as u8,
        (g[2] % 256) as u8,
        (g[3] / 256) as u8,
        (g[3] % 256) as u8,
        (g[4] / 256) as u8,
        (g[4] % 256) as u8,
        (g[5] / 256) as u8,
        (g[5] % 256) as u8,
        (g[6] / 256) as u8,
        (g[6] % 256) as u8,
        (g[7] / 256) as u8,
        (g[7] % 256) as u8,
    ];
    assert(groups_of(octets@) =~= g@);
    Ipv6Addr { octets }
}

impl Ipv6Addr {
    /// Read an address.
    pub fn parse(s: &str) -> (address: Option<Self>)
        ensures
            match address {
                Some(address) => address_of(s@) == Some(groups_of(address.bytes())),
                None => address_of(s@) is None,
            },
    {
        let chars = text::chars_of(s);
        let k: usize = find_double_colon(&chars);
        if k >= chars.len() {
            match parse_groups(s, true) {
                Some(groups) => {
                    if groups.len() == 8 {
                        Some(address_from_groups(&groups))
                    } else {
                        None
                    }
                },
                None => None,
            }
        } else {
            let head = text::string_between(&chars, 0, k);
            let tail = text::string_between(&chars, k + 2, chars.len());
            assert(head@ =~= s@.take(k as int));
            assert(tail@ =~= s@.skip(k + 2));
            match (parse_groups(head.as_str(), false), parse_groups(tail.as_str(), true)) {
                (Some(head), Some(tail)) => {
                    let h: usize = head.len();
                    let t: usize = tail.len();
                    if h > 7 || t > 7 - h {
                        return None;
                    }
                    let ghost start = head@;
                    let mut groups = head;
                    while groups.len() < 8 - t
                        invariant
                            h + t <= 7,
                            h == start.len(),
                            h <= groups@.len() <= 8 - t,
                            groups@ == start + zeros((groups@.len() - h) as nat),
                        decreases 8 - groups@.len(),
                    {
                        groups.push(0);
                        assert(groups@ =~= start + zeros((groups@.len() - h) as nat));
                    }
                    let mut tail = tail;
                    groups.append(&mut tail);
                    Some(address_from_groups(&groups))
                },
                _ => None,
            }
        }
    }
}

// ---------------------------------------------------------------------------------------------
// reading back what was written
// ---------------------------------------------------------------------------------------------

proof fn lemma_hex_digits(n: nat)
    ensures
        text::hex(n).len() > 0,
        all_hex(text::hex(n)),
        hex_value(text::hex(n)) == n,
        forall|i: int|
            0 <= i < text::hex(n).len() ==> (#[trigger] text::hex(n)[i]) != ':' && text::hex(n)[i]
                != '.',
    decreases n,
{
    let s = text::hex(n);
    if n < 16 {
        assert(s.drop_last() =~= Seq::<char>::empty());
        reveal_with_fuel(hex_value, 2);
    } else {
        let front = text::hex(n / 16);
        lemma_hex_digits(n / 16);
        assert(s.drop_last() =~= front);
        assert forall|i: int| 0 <= i < s.len() implies hex_digit(#[trigger] s[i]) is Some && s[i]
            != ':' && s[i] != '.' by {
            if i < front.len() {
                assert(s[i] == front[i]);
            }
        }
    }
}

proof fn lemma_group_reads_back(g: u16)
    ensures
        group_of(text::hex(g as nat)) == Some(g),
        !text::hex(g as nat).contains(':'),
        !text::hex(g as nat).contains('.'),
{
    let n = g as nat;
    lemma_hex_digits(n);
    reveal_with_fuel(text::hex, 5);
    assert(text::hex(n).len() <= 4);
}

/// Whether no two colons stand in a row.
spec fn single_colons(s: Seq<char>) -> bool {
    forall|i: int| 0 <= i < s.len() - 1 ==> !(#[trigger] s[i] == ':' && s[i + 1] == ':')
}

proof fn lemma_groups_text(groups: Seq<u16>)
    requires
        groups.len() > 0,
    ensures
        groups_text(groups).len() > 0,
        groups_text(groups)[0] != ':',
        groups_text(groups).last() != ':',
        single_colons(groups_text(groups)),
    decreases groups.len(),
{
    let s = groups_text(groups);
    let list = group_texts(groups);
    let first = text::hex(groups[0] as nat);
    lemma_hex_digits(groups[0] as nat);
    assert(list[0] == first);
    if groups.len() > 1 {
        let rest = groups.skip(1);
        lemma_groups_text(rest);
        assert(list.skip(1) =~= group_texts(rest));
        assert(s == first.push(':') + groups_text(rest));
        assert forall|i: int| 0 <= i < s.len() - 1 implies !(#[trigger] s[i] == ':' && s[i + 1]
            == ':') by {
            if i > first.len() {
                assert(s[i] == groups_text(rest)[i - first.len() - 1]);
                assert(s[i + 1] == groups_text(rest)[i - first.len()]);
            } else if i == first.len() {
                assert(s[i + 1] == groups_text(rest)[0]);
            } else {
                assert(s[i] == first[i]);
            }
        }
    }
}

proof fn lemma_pieces_without(s: Seq<char>, c: char)
    requires
        !s.contains(c),
    ensures
        text::pieces(s, c) == seq![s],
{
    assert forall|i: int| 0 <= i < s.len() implies s[i] != c by {
        assert(s.contains(s[i]));
    }
    text::lemma_position_is(s, c, s.len() as int);
}

proof fn lemma_pieces_read_back(groups: Seq<u16>, quad: bool)
    ensures
        read_pieces(group_texts(groups), quad) == Some(groups),
    decreases groups.len(),
{
    let list = group_texts(groups);
    if groups.len() == 0 {
        assert(groups =~= Seq::empty());
    } else {
        let rest = groups.skip(1);
        lemma_group_reads_back(groups[0]);
        lemma_pieces_without(list[0], '.');
        lemma_pieces_read_back(rest, quad);
        assert(list.skip(1) =~= group_texts(rest));
        assert(seq![groups[0]] + rest =~= groups);
    }
}

proof fn lemma_groups_read_back(groups: Seq<u16>, quad: bool)
    ensures
        read_groups(groups_text(groups), quad) == Some(groups),
{
    let list = group_texts(groups);
    if groups.len() == 0 {
        assert(groups =~= Seq::empty());
    } else {
        lemma_groups_text(groups);
        assert forall|i: int| 0 <= i < list.len() implies !(#[trigger] list[i]).contains(':') by {
            lemma_group_reads_back(groups[i]);
        }
        text::law_split_undoes_join(list, ':');
        lemma_pieces_read_back(groups, quad);
    }
}

proof fn lemma_double_colon_is(s: Seq<char>, k: int)
    requires
        0 <= k <= s.len(),
        k == s.len() || (k + 2 <= s.len() && s[k] == ':' && s[k + 1] == ':'),
        forall|i: int| 0 <= i < k && i + 1 < s.len() ==> !(#[trigger] s[i] == ':' && s[i + 1] == ':'),
    ensures
        double_colon(s) == k,
    decreases s.len(),
{
    if s.len() >= 2 && k > 0 {
        assert(!(s[0] == ':' && s[1] == ':'));
        let rest = s.skip(1);
        assert forall|i: int| 0 <= i < k - 1 && i + 1 < rest.len() implies !(#[trigger] rest[i]
            == ':' && rest[i + 1] == ':') by {
            assert(rest[i] == s[i + 1] && rest[i + 1] == s[i + 2]);
        }
        lemma_double_colon_is(rest, k - 1);
    }
}

proof fn lemma_longest_zeros(groups: Seq<u16>, i: int)
    requires
        0 <= i <= groups.len(),
    ensures
        ({
            let (start, len) = longest_zeros(groups, i);
            &&& i <= start
            &&& start + len <= groups.len()
            &&& forall|j: int| start <= j < start + len ==> groups[j] == 0
        }),
    decreases groups.len() - i,
{
    if i < groups.len() {
        lemma_longest_zeros(groups, i + 1);
        lemma_zeros_from(groups, i);
    }
}

proof fn lemma_zeros_from(groups: Seq<u16>, i: int)
    requires
        0 <= i <= groups.len(),
    ensures
        i + zeros_from(groups, i) <= groups.len(),
        forall|j: int| i <= j < i + zeros_from(groups, i) ==> groups[j] == 0,
    decreases groups.len() - i,
{
    if i < groups.len() {
        lemma_zeros_from(groups, i + 1);
    }
}

proof fn lemma_byte_reads_back(b: u8)
    ensures
        byte_of(text::dec(b as nat)) == Some(b),
        !text::dec(b as nat).contains(':'),
        !text::dec(b as nat).contains('.'),
{
    let n = b as nat;
    let s = text::dec(n);
    text::lemma_dec_digits(n);
    reveal_with_fuel(text::dec, 3);
    assert forall|i: int| 0 <= i < s.len() implies s[i] != ':' && s[i] != '.' by {
        assert(text::is_digit(s[i]));
    }
    if n >= 100 {
        assert(n / 10 / 10 < 10 && n / 10 / 10 > 0);
        assert(s.len() == 3);
        assert(s[0] == text::digit(n / 10 / 10));
    } else if n >= 10 {
        assert(s.len() == 2);
        assert(s[0] == text::digit(n / 10));
    }
}

proof fn lemma_quad_reads_back(a: u8, b: u8, c: u8, d: u8)
    ensures
        quad_of(ipv4_text(a, b, c, d)) == Some(((a * 256 + b) as u16, (c * 256 + d) as u16)),
        !ipv4_text(a, b, c, d).contains(':'),
{
    lemma_byte_reads_back(a);
    lemma_byte_reads_back(b);
    lemma_byte_reads_back(c);
    lemma_byte_reads_back(d);
    text::law_split_undoes_join(quad_texts(a, b, c, d), '.');
    text::lemma_joined_lacks(quad_texts(a, b, c, d), '.', ':');
}

proof fn lemma_ffff_group()
    ensures
        group_of(seq!['f', 'f', 'f', 'f']) == Some(65535u16),
{
    let ffff = seq!['f', 'f', 'f', 'f'];
    reveal_with_fuel(hex_value, 5);
    assert(ffff.drop_last() =~= seq!['f', 'f', 'f']);
    assert(ffff.drop_last().drop_last() =~= seq!['f', 'f']);
    assert(ffff.drop_last().drop_last().drop_last() =~= seq!['f']);
}

proof fn lemma_mapped_tail(a: u8, b: u8, c: u8, d: u8)
    ensures
        read_groups(seq!['f', 'f', 'f', 'f', ':'] + ipv4_text(a, b, c, d), true) == Some(
            seq![65535u16, (a * 256 + b) as u16, (c * 256 + d) as u16],
        ),
{
    let quad = ipv4_text(a, b, c, d);
    let ffff = seq!['f', 'f', 'f', 'f'];
    let list = seq![ffff, quad];
    let low = seq![(a * 256 + b) as u16, (c * 256 + d) as u16];
    lemma_quad_reads_back(a, b, c, d);
    lemma_ffff_group();
    assert(list.skip(1) =~= seq![quad]);
    assert(text::joined_by(list.skip(1), ':') == quad);
    assert(text::joined_by(list, ':') == ffff.push(':') + quad);
    assert(ffff.push(':') =~= seq!['f', 'f', 'f', 'f', ':']);
    assert(!ffff.contains(':'));
    text::law_split_undoes_join(list, ':');
    assert(read_pieces(list.skip(1), true) == Some(low));
    assert(read_pieces(list, true) == Some(seq![65535u16] + low));
    assert(seq![65535u16] + low =~= seq![65535u16, low[0], low[1]]);
}

proof fn lemma_mapped_reads_back(octets: Seq<u8>)
    requires
        octets.len() == 16,
        is_ipv4_mapped(octets),
    ensures
        address_of(address_text(octets)) == Some(groups_of(octets)),
{
    let s = address_text(octets);
    let quad = ipv4_text(octets[12], octets[13], octets[14], octets[15]);
    reveal_strlit("::ffff:");
    lemma_mapped_tail(octets[12], octets[13], octets[14], octets[15]);
    lemma_double_colon_is(s, 0);
    assert(s.skip(2) =~= seq!['f', 'f', 'f', 'f', ':'] + quad);
    assert(s.take(0) =~= Seq::empty());
    let low = seq![
        65535u16,
        (octets[12] * 256 + octets[13]) as u16,
        (octets[14] * 256 + octets[15]) as u16,
    ];
    let groups = groups_of(octets);
    assert forall|i: int| 0 <= i < 5 implies groups[i] == 0 by {
        assert(octets[2 * i] == 0 && octets[2 * i + 1] == 0);
    }
    assert(Seq::<u16>::empty() + zeros(5) + low =~= groups);
}

proof fn lemma_shortened_reads_back(groups: Seq<u16>, start: int, len: nat)
    requires
        groups.len() == 8,
        0 <= start,
        1 <= len,
        start + len <= 8,
        forall|j: int| start <= j < start + len ==> groups[j] == 0,
    ensures
        address_of(
            groups_text(groups.take(start)) + "::"@ + groups_text(groups.skip(start + len as int)),
        ) == Some(groups),
{
    let head = groups.take(start);
    let tail = groups.skip(start + len as int);
    let h = groups_text(head);
    let t = groups_text(tail);
    let s = h + "::"@ + t;
    reveal_strlit("::");
    lemma_groups_read_back(head, false);
    lemma_groups_read_back(tail, true);
    if head.len() > 0 {
        lemma_groups_text(head);
    }
    assert forall|i: int| 0 <= i < h.len() && i + 1 < s.len() implies !(#[trigger] s[i] == ':'
        && s[i + 1] == ':') by {
        assert(s[i] == h[i]);
        if i + 1 < h.len() {
            assert(s[i + 1] == h[i + 1]);
        }
    }
    lemma_double_colon_is(s, h.len() as int);
    assert(s.take(h.len() as int) =~= h);
    assert(s.skip(h.len() as int + 2) =~= t);
    assert(head + zeros(len) + tail =~= groups);
}

/// An address is read back from its text.
pub proof fn law_address_reads_back(octets: Seq<u8>)
    requires
        octets.len() == 16,
    ensures
        address_of(address_text(octets)) == Some(groups_of(octets)),
{
    let groups = groups_of(octets);
    let (start, len) = longest_zeros(groups, 0);
    lemma_longest_zeros(groups, 0);
    if is_ipv4_mapped(octets) {
        lemma_mapped_reads_back(octets);
    } else if len > 1 {
        lemma_shortened_reads_back(groups, start, len);
    } else {
        let s = groups_text(groups);
        lemma_groups_text(groups);
        lemma_double_colon_is(s, s.len() as int);
        lemma_groups_read_back(groups, true);
    }
}

/// Whether `c` is a hexadecimal digit or a colon.
pub open spec fn is_address_char(c: char) -> bool {
    hex_digit(c) is Some || c == ':'
}

proof fn lemma_groups_chars(groups: Seq<u16>)
    ensures
        forall|i: int|
            0 <= i < groups_text(groups).len() ==> is_address_char(#[trigger] groups_text(groups)[i]),
    decreases groups.len(),
{
    let s = groups_text(groups);
    let list = group_texts(groups);
    if groups.len() > 0 {
        let first = text::hex(groups[0] as nat);
        lemma_hex_digits(groups[0] as nat);
        assert(list[0] == first);
        if groups.len() > 1 {
            let rest = groups.skip(1);
            lemma_groups_chars(rest);
            assert(list.skip(1) =~= group_texts(rest));
            assert forall|i: int| 0 <= i < s.len() implies is_address_char(#[trigger] s[i]) by {
                if i < first.len() {
                    assert(s[i] == first[i]);
                } else if i > first.len() {
                    assert(s[i] == groups_text(rest)[i - first.len() - 1]);
                }
            }
        } else {
            assert(s == first);
        }
    }
}

/// The text of an address that is no mapped IPv4 address holds nothing but hexadecimal digits and
/// colons.
pub proof fn lemma_address_chars(octets: Seq<u8>)
    requires
        octets.len() == 16,
        !is_ipv4_mapped(octets),
    ensures
        address_text(octets).len() > 0,
        forall|i: int|
            0 <= i < address_text(octets).len() ==> is_address_char(
                #[trigger] address_text(octets)[i],
            ),
{
    let groups = groups_of(octets);
    let (start, len) = longest_zeros(groups, 0);
    lemma_longest_zeros(groups, 0);
    reveal_strlit("::");
    lemma_groups_chars(groups);
    lemma_groups_text(groups);
    if len > 1 {
        let h = groups_text(groups.take(start));
        let t = groups_text(groups.skip(start + len as int));
        let s = address_text(octets);
        lemma_groups_chars(groups.take(start));
        lemma_groups_chars(groups.skip(start + len as int));
        assert forall|i: int| 0 <= i < s.len() implies is_address_char(#[trigger] s[i]) by {
            if i < h.len() {
                assert(s[i] == h[i]);
            } else if i >= h.len() + 2 {
                assert(s[i] == t[i - h.len() - 2]);
            }
        }
    }
}

/// The eight groups determine the sixteen bytes.
pub proof fn lemma_groups_determine(a: Seq<u8>, b: Seq<u8>)
    requires
        a.len() == 16,
        b.len() == 16,
        groups_of(a) == groups_of(b),
    ensures
        a == b,
{
    assert forall|i: int| 0 <= i < 16 implies a[i] == b[i] by {
        let k = i / 2;
        assert(groups_of(a)[k] == group_at(a, k) && groups_of(b)[k] == group_at(b, k));
        let (ah, al, bh, bl) = (a[2 * k], a[2 * k + 1], b[2 * k], b[2 * k + 1]);
        assert((ah * 256 + al) as u16 == ah * 256 + al);
        assert((bh * 256 + bl) as u16 == bh * 256 + bl);
        assert(i == 2 * k || i == 2 * k + 1);
    }
    assert(a =~= b);
}

// ---------------------------------------------------------------------------------------------
// what is left out of a text, and what is read from one
// ---------------------------------------------------------------------------------------------

/// Whether the `n` groups from index `i` on are there and are all zero.
pub open spec fn is_zero_run(groups: Seq<u16>, i: int, n: nat) -> bool {
    0 <= i && i + n <= groups.len() && forall|k: int| i <= k < i + n ==> #[trigger] groups[k] == 0
}

proof fn lemma_zero_run_is_counted(groups: Seq<u16>, i: int, n: nat)
    requires
        is_zero_run(groups, i, n),
    ensures
        zeros_from(groups, i) >= n,
    decreases n,
{
    if n > 0 {
        assert(groups[i] == 0);
        lemma_zero_run_is_counted(groups, i + 1, (n - 1) as nat);
    }
}

proof fn lemma_no_longer_run(groups: Seq<u16>, i: int, j: int, n: nat)
    requires
        0 <= i <= j,
        is_zero_run(groups, j, n),
    ensures
        n <= longest_zeros(groups, i).1,
        n > 0 && n == longest_zeros(groups, i).1 ==> longest_zeros(groups, i).0 <= j,
    decreases groups.len() - i,
{
    if i < groups.len() {
        if j > i {
            lemma_no_longer_run(groups, i + 1, j, n);
        } else {
            lemma_zero_run_is_counted(groups, i, n);
        }
        if i + 1 <= groups.len() {
            lemma_longest_zeros(groups, i + 1);
        }
    }
}

/// The run of zero groups that is left out of a text is the longest one, and of several equally
/// long ones the first.
pub proof fn law_longest_run_is_the_first_of_its_length(groups: Seq<u16>, j: int, n: nat)
    ensures
        is_zero_run(groups, longest_zeros(groups, 0).0, longest_zeros(groups, 0).1),
        is_zero_run(groups, j, n) ==> n <= longest_zeros(groups, 0).1,
        is_zero_run(groups, j, n) && n > 0 && n == longest_zeros(groups, 0).1 ==> longest_zeros(
            groups,
            0,
        ).0 <= j,
{
    lemma_longest_zeros(groups, 0);
    if is_zero_run(groups, j, n) {
        lemma_no_longer_run(groups, 0, j, n);
    }
}

/// An address is written group by group, in hexadecimal and without leading zeros. Where two or
/// more zero groups stand in a row, the first of the longest such runs is left out between two
/// colons, and nothing else ever is; an address that stands for an IPv4 address ends in that
/// address.
pub proof fn law_first_longest_run_is_left_out(octets: Seq<u8>, j: int, n: nat)
    requires
        octets.len() == 16,
    ensures
        ({
            let groups = groups_of(octets);
            let mapped = (forall|i: int| 0 <= i < 10 ==> #[trigger] octets[i] == 0) && octets[10]
                == 0xff && octets[11] == 0xff;
            &&& mapped ==> address_text(octets) == "::ffff:"@ + (text::dec(octets[12] as nat).push(
                '.',
            ) + (text::dec(octets[13] as nat).push('.') + (text::dec(octets[14] as nat).push('.')
                + text::dec(octets[15] as nat))))
            &&& !mapped && (forall|i: int| 0 <= i < 7 ==> !is_zero_run(groups, i, 2))
                ==> address_text(octets) == groups_text(groups)
            &&& !mapped && n >= 2 && is_zero_run(groups, j, n) && (forall|i: int, m: nat| #[trigger]
                is_zero_run(groups, i, m) ==> m < n || (m == n && j <= i)) ==> address_text(octets)
                == groups_text(groups.take(j)) + "::"@ + groups_text(groups.skip(j + n))
        }),
{
    let groups = groups_of(octets);
    let (start, len) = longest_zeros(groups, 0);
    law_longest_run_is_the_first_of_its_length(groups, j, n);
    assert(is_zero_run(groups, start, len));
    if len > 1 {
        assert(is_zero_run(groups, start, 2)) by {
            assert forall|k: int| start <= k < start + 2 implies #[trigger] groups[k] == 0 by {}
        }
    }
    let quad = quad_texts(octets[12], octets[13], octets[14], octets[15]);
    reveal_with_fuel(text::joined_by, 4);
    assert(quad.skip(1).skip(1).skip(1) =~= seq![quad[3]]);
    assert(quad.skip(1)[0] == quad[1] && quad.skip(1).skip(1)[0] == quad[2]);
}

/// The groups of an address are pairs of its bytes, the first byte the higher one; they are written
/// one after the other with colons between them.
pub proof fn law_groups_are_pairs_of_bytes(
    octets: Seq<u8>,
    i: int,
    a: Seq<u16>,
    b: Seq<u16>,
    one: u16,
)
    ensures
        groups_of(octets).len() == 8,
        0 <= i < 8 ==> groups_of(octets)[i] == 256 * octets[2 * i] + octets[2 * i + 1],
        a.len() > 0 && b.len() > 0 ==> groups_text(a + b) == groups_text(a).push(':')
            + groups_text(b),
        groups_text(seq![one]) == text::hex(one as nat),
{
    assert(group_texts(a + b) =~= group_texts(a) + group_texts(b));
    assert(group_texts(seq![one]) =~= seq![text::hex(one as nat)]);
    text::law_joining_a_list_in_two_parts(
        group_texts(a),
        group_texts(b),
        text::hex(one as nat),
        ':',
        seq![':'],
    );
}

/// A group is one to four hexadecimal digits of either case, each worth sixteen times the next; a
/// byte of an IPv4 address is one to three decimal ones, without a zero before another digit, up to
/// 255.
pub proof fn law_digits_of_groups(s: Seq<char>, d: nat, b: u8)
    ensures
        d < 16 ==> hex_digit("0123456789abcdef"@[d as int]) == Some(d) && hex_digit(
            "0123456789ABCDEF"@[d as int],
        ) == Some(d),
        d < 16 ==> group_of(seq!["0123456789abcdef"@[d as int]]) == Some(d as u16),
        d < 16 && s.len() < 4 && group_of(s) is Some ==> group_of(
            s.push("0123456789abcdef"@[d as int]),
        ) == Some((group_of(s)->0 * 16 + d) as u16),
        s.len() == 0 || s.len() > 4 ==> group_of(s) is None,
        byte_of(s) is Some ==> text::number_of(s) == Some(byte_of(s)->0 as nat) && text::all_digits(
            s,
        ) && (s.len() > 1 ==> s[0] != '0'),
        byte_of(text::dec(b as nat)) == Some(b),
{
    reveal_strlit("0123456789abcdef");
    reveal_strlit("0123456789ABCDEF");
    reveal_with_fuel(hex_value, 2);
    lemma_byte_reads_back(b);
    if d < 16 {
        let c = "0123456789abcdef"@[d as int];
        assert(seq![c].drop_last() =~= Seq::<char>::empty());
        assert(hex_digit(c) == Some(d));
        if s.len() < 4 && group_of(s) is Some {
            let longer = s.push(c);
            assert(longer.drop_last() =~= s);
            assert forall|k: int| 0 <= k < longer.len() implies hex_digit(
                #[trigger] longer[k],
            ) is Some by {
                if k < s.len() {
                    assert(hex_digit(s[k]) is Some);
                }
            }
            lemma_hex_value_bound(s);
        }
    }
    if byte_of(s) is Some {
        assert(text::is_digit(s[0]));
    }
}

proof fn lemma_hex_value_bound(s: Seq<char>)
    requires
        s.len() <= 3,
        all_hex(s),
    ensures
        hex_value(s) < 4096,
{
    reveal_with_fuel(hex_value, 4);
    assert forall|k: int| 0 <= k < s.len() implies hex_digit(#[trigger] s[k]).unwrap_or(0) < 16 by {
        assert(hex_digit(s[k]) is Some);
    }
    if s.len() > 0 {
        assert(s.last() == s[s.len() - 1]);
        let t = s.drop_last();
        if t.len() > 0 {
            assert(t.last() == s[s.len() - 2]);
            let u = t.drop_last();
            if u.len() > 0 {
                assert(u.last() == s[0]);
            }
        }
    }
}

/// Whether each of `texts` spells the group at its place.
pub open spec fn spell(texts: Seq<Seq<char>>, groups: Seq<u16>) -> bool {
    texts.len() == groups.len() && forall|i: int|
        0 <= i < texts.len() ==> group_of(#[trigger] texts[i]) == Some(groups[i])
}

proof fn lemma_spelled_group(s: Seq<char>)
    requires
        group_of(s) is Some,
    ensures
        s.len() > 0,
        !s.contains(':'),
        !s.contains('.'),
{
    assert forall|i: int| 0 <= i < s.len() implies s[i] != ':' && s[i] != '.' by {
        assert(hex_digit(s[i]) is Some);
    }
}

proof fn lemma_spelled_pieces(texts: Seq<Seq<char>>, groups: Seq<u16>, quad: bool)
    requires
        spell(texts, groups),
    ensures
        read_pieces(texts, quad) == Some(groups),
    decreases texts.len(),
{
    if texts.len() == 0 {
        assert(groups =~= Seq::empty());
    } else {
        assert(group_of(texts[0]) == Some(groups[0]));
        lemma_spelled_group(texts[0]);
        lemma_pieces_without(texts[0], '.');
        let rest = texts.skip(1);
        assert forall|i: int| 0 <= i < rest.len() implies group_of(#[trigger] rest[i]) == Some(
            groups.skip(1)[i],
        ) by {
            assert(rest[i] == texts[i + 1]);
        }
        lemma_spelled_pieces(rest, groups.skip(1), quad);
        assert(seq![groups[0]] + groups.skip(1) =~= groups);
    }
}

proof fn lemma_spelled_text(texts: Seq<Seq<char>>, groups: Seq<u16>)
    requires
        spell(texts, groups),
        texts.len() > 0,
    ensures
        text::joined_by(texts, ':').len() > 0,
        text::joined_by(texts, ':')[0] != ':',
        text::joined_by(texts, ':').last() != ':',
        single_colons(text::joined_by(texts, ':')),
    decreases texts.len(),
{
    let s = text::joined_by(texts, ':');
    let first = texts[0];
    assert(group_of(first) is Some);
    lemma_spelled_group(first);
    assert forall|i: int| 0 <= i < first.len() implies first[i] != ':' by {
        assert(first.contains(first[i]));
    }
    if texts.len() > 1 {
        let rest = texts.skip(1);
        let after = text::joined_by(rest, ':');
        assert forall|i: int| 0 <= i < rest.len() implies group_of(#[trigger] rest[i]) == Some(
            groups.skip(1)[i],
        ) by {
            assert(rest[i] == texts[i + 1]);
        }
        lemma_spelled_text(rest, groups.skip(1));
        assert(s == first.push(':') + after);
        assert forall|i: int| 0 <= i < s.len() - 1 implies !(#[trigger] s[i] == ':' && s[i + 1]
            == ':') by {
            if i > first.len() {
                assert(s[i] == after[i - first.len() - 1]);
                assert(s[i + 1] == after[i - first.len()]);
            } else if i == first.len() {
                assert(s[i + 1] == after[0]);
            } else {
                assert(s[i] == first[i]);
            }
        }
    }
}

proof fn lemma_spelled_groups(texts: Seq<Seq<char>>, groups: Seq<u16>, quad: bool)
    requires
        spell(texts, groups),
    ensures
        read_groups(text::joined_by(texts, ':'), quad) == Some(groups),
{
    if texts.len() == 0 {
        assert(groups =~= Seq::empty());
    } else {
        lemma_spelled_text(texts, groups);
        assert forall|i: int| 0 <= i < texts.len() implies !(#[trigger] texts[i]).contains(':') by {
            assert(group_of(texts[i]) is Some);
            lemma_spelled_group(texts[i]);
        }
        text::law_split_undoes_join(texts, ':');
        lemma_spelled_pieces(texts, groups, quad);
    }
}

/// However its groups are spelled, a text of groups with colons between them is an address exactly
/// where there are eight of them; with two colons in a row between a head and a tail it is one
/// exactly where those are at most seven, and then zero groups stand between them.
pub proof fn law_groups_are_read_however_spelled(
    head_texts: Seq<Seq<char>>,
    head: Seq<u16>,
    tail_texts: Seq<Seq<char>>,
    tail: Seq<u16>,
)
    requires
        spell(head_texts, head),
        spell(tail_texts, tail),
    ensures
        address_of(text::joined_by(head_texts, ':')) == (if head.len() == 8 {
            Some(head)
        } else {
            None
        }),
        address_of(
            text::joined_by(head_texts, ':') + "::"@ + text::joined_by(tail_texts, ':'),
        ) == (if head.len() + tail.len() <= 7 {
            Some(head + Seq::new((8 - head.len() - tail.len()) as nat, |i: int| 0u16) + tail)
        } else {
            None
        }),
{
    let h = text::joined_by(head_texts, ':');
    let t = text::joined_by(tail_texts, ':');
    let s = h + "::"@ + t;
    reveal_strlit("::");
    lemma_spelled_groups(head_texts, head, true);
    lemma_spelled_groups(head_texts, head, false);
    lemma_spelled_groups(tail_texts, tail, true);
    if head_texts.len() > 0 {
        lemma_spelled_text(head_texts, head);
    }
    lemma_double_colon_is(h, h.len() as int);
    assert forall|i: int| 0 <= i < h.len() && i + 1 < s.len() implies !(#[trigger] s[i] == ':'
        && s[i + 1] == ':') by {
        assert(s[i] == h[i]);
        if i + 1 < h.len() {
            assert(s[i + 1] == h[i + 1]);
        }
    }
    lemma_double_colon_is(s, h.len() as int);
    assert(s.take(h.len() as int) =~= h);
    assert(s.skip(h.len() as int + 2) =~= t);
}

/// An address is read back from its text, byte for byte; what is read as an address is one whose
/// groups the text spells.
pub proof fn law_shown_address_is_read(
    address: Ipv6Addr,
    shown: String,
    s: &str,
    read: Option<Ipv6Addr>,
    groups: [u16; 8],
)
    requires
        call_ensures(Ipv6Addr::to_string, (&address,), shown),
        call_ensures(Ipv6Addr::parse, (s,), read),
        call_ensures(Ipv6Addr::segments, (&address,), groups),
    ensures
        s@ == shown@ ==> (read matches Some(back) && back.bytes() == address.bytes()),
        read is Some <==> address_of(s@) is Some,
        read matches Some(found) ==> address_of(s@) == Some(groups_of(found.bytes())),
        groups@ == groups_of(address.bytes()),
{
    address.lemma_sixteen_bytes();
    law_address_reads_back(address.bytes());
    if let Some(back) = read {
        back.lemma_sixteen_bytes();
        if s@ == shown@ {
            lemma_groups_determine(back.bytes(), address.bytes());
        }
    }
}

} // verus!
