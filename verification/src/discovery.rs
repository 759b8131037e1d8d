//! Finding opponents: the packets of fixed length that players broadcast and
//! send each other before there is a connection.
use vstd::prelude::*;

use vstd::string::StringSliceAdditionalSpecFns;
use vstd::utf8::{decode_utf8, encode_utf8, is_char_boundary, valid_utf8};

use crate::bytes::{le_bytes, le_value, lemma_le_bytes_len, lemma_two_bytes, low_bytes, read_two};

verus! {

/// The port on which opponents are sought.
pub const DISCOVERY_PORT: u16 = 39393;

/// The port of a match, unless it is taken.
pub const DEFAULT_TCP_PORT: u16 = 39394;

/// Milliseconds after which a player who is not heard of any more is dropped.
pub const DISCOVERY_TIMEOUT_MS: u64 = 5000;

/// Milliseconds that an invitation waits for its answer.
pub const INVITE_TIMEOUT_MS: u64 = 10000;

/// Milliseconds that a connection may take.
pub const TCP_CONNECT_TIMEOUT_MS: u64 = 3000;

/// Milliseconds between two announcements.
pub const HELLO_BROADCAST_INTERVAL_MS: u64 = 1000;

/// How many ports in a row are tried for discovery.
pub const DISCOVERY_PORT_RANGE_COUNT: u16 = 8;

/// The length of a packet.
pub const DISCOVERY_PACKET_LEN: usize = 60;

/// The version of the packets.
pub const DISCOVERY_PROTOCOL_VERSION: u8 = 1;

/// The bytes that a name may take up.
pub const PLAYER_NAME_LEN: usize = 16;

/// What a packet is about.
#[derive(Debug, Clone, Copy, PartialEq, Eq, Structural)]
pub enum PacketType {
    /// A player is there.
    Hello,
    Invite,
    Accept,
    Decline,
    /// A player is gone.
    Bye,
    /// A guest starts the match.
    RequestStart,
}

/// The byte of a packet type.
pub open spec fn type_byte(t: PacketType) -> u8 {
    match t {
        PacketType::Hello => 0x01,
        PacketType::Invite => 0x02,
        PacketType::Accept => 0x03,
        PacketType::Decline => 0x04,
        PacketType::Bye => 0x05,
        PacketType::RequestStart => 0x06,
    }
}

/// The packet type of a byte.
pub open spec fn byte_type(byte: u8) -> Option<PacketType> {
    if byte == 0x01 {
        Some(PacketType::Hello)
    } else if byte == 0x02 {
        Some(PacketType::Invite)
    } else if byte == 0x03 {
        Some(PacketType::Accept)
    } else if byte == 0x04 {
        Some(PacketType::Decline)
    } else if byte == 0x05 {
        Some(PacketType::Bye)
    } else if byte == 0x06 {
        Some(PacketType::RequestStart)
    } else {
        None
    }
}

/// Every type has its byte, and every byte that stands for a type is that of
/// the type.
pub proof fn law_type_bytes(t: PacketType, byte: u8)
    ensures
        byte_type(type_byte(t)) == Some(t),
        byte_type(byte) matches Some(u) ==> type_byte(u) == byte,
{
}

impl PacketType {
    /// The byte of the type.
    pub fn to_byte(self) -> (byte: u8)
        ensures
            byte == type_byte(self),
    {
        match self {
            PacketType::Hello => 0x01,
            PacketType::Invite => 0x02,
            PacketType::Accept => 0x03,
            PacketType::Decline => 0x04,
            PacketType::Bye => 0x05,
            PacketType::RequestStart => 0x06,
        }
    }

    /// The type of a byte, if it stands for one.
    pub fn from_byte(byte: u8) -> (t: Option<PacketType>)
        ensures
            t == byte_type(byte),
    {
        match byte {
            0x01 => Some(PacketType::Hello),
            0x02 => Some(PacketType::Invite),
            0x03 => Some(PacketType::Accept),
            0x04 => Some(PacketType::Decline),
            0x05 => Some(PacketType::Bye),
            0x06 => Some(PacketType::RequestStart),
            _ => None,
        }
    }
}

/// The sixteen bytes by which a player is known.
#[derive(Debug, Clone, Copy, PartialEq, Eq)]
pub struct PeerId {
    pub bytes: [u8; 16],
}

impl View for PeerId {
    type V = Seq<u8>;

    open spec fn view(&self) -> Seq<u8> {
        self.bytes@
    }
}

impl PeerId {
    /// The id of nobody.
    pub fn nil() -> (id: PeerId)
        ensures
            id@ == Seq::new(16, |i: int| 0u8),
    {
        let id = PeerId { bytes: [0u8; 16] };
        assert(id@ =~= Seq::new(16, |i: int| 0u8));
        id
    }

    /// Whether two ids are the same.
    pub fn same(&self, other: &PeerId) -> (r: bool)
        ensures
            r == (self@ == other@),
    {
        let mut i: usize = 0;
        while i < 16
            invariant
                i <= 16,
                forall|k: int| 0 <= k < i ==> #[trigger] self@[k] == other@[k],
            decreases 16 - i,
        {
            if self.bytes[i] != other.bytes[i] {
                assert(self@[i as int] != other@[i as int]);
                return false;
            }
            i = i + 1;
        }
        assert(self@ =~= other@);
        true
    }
}

/// A packet.
#[derive(Debug, Clone, PartialEq, Eq)]
pub struct DiscoveryPacket {
    pub packet_type: PacketType,
    pub sender_id: PeerId,
    /// Whom the packet is for; nobody in particular if it is a broadcast.
    pub target_id: PeerId,
    pub player_name: String,
    /// The port on which the sender waits for a match.
    pub tcp_port: u16,
}

/// The mathematical packet.
#[verifier::ext_equal]
pub struct Packet {
    pub packet_type: PacketType,
    pub sender_id: Seq<u8>,
    pub target_id: Seq<u8>,
    pub player_name: Seq<char>,
    pub tcp_port: u16,
}

impl View for DiscoveryPacket {
    type V = Packet;

    open spec fn view(&self) -> Packet {
        Packet {
            packet_type: self.packet_type,
            sender_id: self.sender_id@,
            target_id: self.target_id@,
            player_name: self.player_name@,
            tcp_port: self.tcp_port,
        }
    }
}

/// The largest place at or before `k` at which a character begins or the text
/// ends.
pub open spec fn boundary_before(bytes: Seq<u8>, k: int) -> int
    decreases k,
{
    if k <= 0 {
        0
    } else if is_char_boundary(bytes, k) {
        k
    } else {
        boundary_before(bytes, k - 1)
    }
}

/// How many bytes of a text fit into `max` without cutting a character.
pub open spec fn fitting(bytes: Seq<u8>, max: int) -> int {
    if bytes.len() <= max {
        bytes.len() as int
    } else {
        boundary_before(bytes, max)
    }
}

/// What fits begins and ends with whole characters.
pub proof fn lemma_fitting(bytes: Seq<u8>, max: int)
    requires
        valid_utf8(bytes),
        max >= 0,
    ensures
        0 <= fitting(bytes, max) <= bytes.len(),
        fitting(bytes, max) <= max,
        is_char_boundary(bytes, fitting(bytes, max)),
        forall|k: int| fitting(bytes, max) < k <= max ==> !#[trigger] is_char_boundary(bytes, k) || k > bytes.len(),
{
    vstd::utf8::is_char_boundary_start_end_of_seq(bytes);
    if bytes.len() > max {
        lemma_boundary_before(bytes, max);
    }
}

proof fn lemma_boundary_before(bytes: Seq<u8>, k: int)
    requires
        valid_utf8(bytes),
        k >= 0,
    ensures
        0 <= boundary_before(bytes, k) <= k,
        is_char_boundary(bytes, boundary_before(bytes, k)),
        forall|j: int| boundary_before(bytes, k) < j <= k ==> !#[trigger] is_char_boundary(bytes, j),
    decreases k,
{
    vstd::utf8::is_char_boundary_start_end_of_seq(bytes);
    if k > 0 && !is_char_boundary(bytes, k) {
        lemma_boundary_before(bytes, k - 1);
    }
}

/// The longest beginning of a name that fits into `max_bytes` without cutting a
/// character.
pub fn truncate_on_char_boundary(name: &str, max_bytes: usize) -> (cut: &str)
    ensures
        cut.spec_bytes() == name.spec_bytes().take(fitting(name.spec_bytes(), max_bytes as int)),
{
    let ghost bytes = name.spec_bytes();
    proof {
        vstd::utf8::encode_utf8_valid_utf8(name@);
        vstd::utf8::is_char_boundary_start_end_of_seq(bytes);
    }
    let n: usize = name.as_bytes().len();
    if n <= max_bytes {
        assert(bytes.take(n as int) =~= bytes);
        return name;
    }
    let mut end: usize = max_bytes;
    while end > 0 && !name.is_char_boundary(end)
        invariant
            bytes == name.spec_bytes(),
            valid_utf8(bytes),
            is_char_boundary(bytes, 0),
            end <= max_bytes < bytes.len(),
            boundary_before(bytes, max_bytes as int) == boundary_before(bytes, end as int),
        decreases end,
    {
        end = end - 1;
    }
    let (cut, rest) = name.split_at(end);
    assert(bytes.take(end as int) =~= bytes.subrange(0, end as int));
    cut
}

/// The text before the first zero byte.
pub open spec fn before_zero(bytes: Seq<u8>) -> Seq<u8>
    decreases bytes.len(),
{
    if bytes.len() == 0 || bytes[0] == 0 {
        Seq::empty()
    } else {
        seq![bytes[0]] + before_zero(bytes.drop_first())
    }
}

/// The text that bytes stand for which are not UTF-8.
pub uninterp spec fn lossy_text(bytes: Seq<u8>) -> Seq<char>;

/// The text that bytes stand for, whether or not they are UTF-8.
pub open spec fn text_of(bytes: Seq<u8>) -> Seq<char> {
    if valid_utf8(bytes) {
        decode_utf8(bytes)
    } else {
        lossy_text(bytes)
    }
}

/// Calls `String::from_utf8_lossy`. Bytes that are UTF-8 are taken as they are.
/// What others are read as depends on the bytes alone, but is not stated.
#[verifier::external_body]
fn from_utf8_lossy(bytes: &[u8]) -> (text: String)
    ensures
        text@ == (if valid_utf8(bytes@) {
            decode_utf8(bytes@)
        } else {
            lossy_text(bytes@)
        }),
{
    String::from_utf8_lossy(bytes).into_owned()
}

/// Text without a zero byte ends at the first one behind it.
proof fn lemma_before_zero(text: Seq<u8>, rest: Seq<u8>)
    requires
        forall|i: int| 0 <= i < text.len() ==> #[trigger] text[i] != 0,
        rest.len() == 0 || rest[0] == 0,
    ensures
        before_zero(text + rest) == text,
    decreases text.len(),
{
    if text.len() == 0 {
        assert(text + rest =~= rest);
        assert(before_zero(rest) =~= text);
    } else {
        let tail = text.drop_first();
        assert forall|i: int| 0 <= i < tail.len() implies #[trigger] tail[i] != 0 by {
            assert(tail[i] == text[i + 1]);
        }
        lemma_before_zero(tail, rest);
        assert((text + rest).drop_first() =~= tail + rest);
        assert(seq![text[0]] + tail =~= text);
    }
}

/// Reads a name out of its bytes, up to the first zero. What is not UTF-8 is
/// replaced.
pub fn decode_player_name(bytes: &[u8]) -> (name: String)
    ensures
        name@ == text_of(before_zero(bytes@)),
{
    let mut text: Vec<u8> = Vec::new();
    let mut i: usize = 0;
    assert(bytes@.skip(0) =~= bytes@);
    while i < bytes.len() && bytes[i] != 0
        invariant
            i <= bytes@.len(),
            text@ =~= bytes@.take(i as int),
            forall|k: int| 0 <= k < i ==> #[trigger] bytes@[k] != 0,
        decreases bytes@.len() - i,
    {
        text.push(bytes[i]);
        i = i + 1;
    }
    proof {
        lemma_before_zero(bytes@.take(i as int), bytes@.skip(i as int));
        assert(bytes@.take(i as int) + bytes@.skip(i as int) =~= bytes@);
    }
    from_utf8_lossy(text.as_slice())
}

/// The four bytes with which a packet begins.
pub open spec fn magic() -> Seq<u8> {
    seq![0x4du8, 0x44u8, 0x54u8, 0x31u8]
}

/// So many zero bytes.
pub open spec fn zeros(n: nat) -> Seq<u8> {
    Seq::new(n, |i: int| 0u8)
}

/// The name as it goes into a packet: what fits of it, filled up with zeros.
pub open spec fn name_field(name: Seq<char>) -> Seq<u8> {
    let text = encode_utf8(name);
    let kept = text.take(fitting(text, PLAYER_NAME_LEN as int));
    kept + zeros((PLAYER_NAME_LEN - kept.len()) as nat)
}

/// The bytes of a packet: the magic, the type, the version, who sends it, whom
/// it is for, the name, the port, and four bytes in reserve.
pub open spec fn packet_bytes(p: Packet) -> Seq<u8> {
    magic() + seq![type_byte(p.packet_type), DISCOVERY_PROTOCOL_VERSION] + p.sender_id + p.target_id + name_field(
        p.player_name,
    ) + le_bytes(p.tcp_port as nat, 2) + zeros(4)
}

/// The packet that bytes stand for. They must be long enough and begin with
/// the magic and a type; the version and the reserve are not looked at.
pub open spec fn bytes_packet(bytes: Seq<u8>) -> Option<Packet> {
    if bytes.len() < DISCOVERY_PACKET_LEN || bytes.take(4) != magic() {
        None
    } else {
        match byte_type(bytes[4]) {
            None => None,
            Some(packet_type) => Some(
                Packet {
                    packet_type,
                    sender_id: bytes.subrange(6, 22),
                    target_id: bytes.subrange(22, 38),
                    player_name: text_of(before_zero(bytes.subrange(38, 54))),
                    tcp_port: le_value(bytes.subrange(54, 56)) as u16,
                },
            ),
        }
    }
}

/// The field of a name has its length.
proof fn lemma_name_field(name: Seq<char>)
    ensures
        name_field(name).len() == PLAYER_NAME_LEN,
{
    let text = encode_utf8(name);
    vstd::utf8::encode_utf8_valid_utf8(name);
    lemma_fitting(text, PLAYER_NAME_LEN as int);
}

/// Appends bytes to others.
fn append_bytes(to: &mut Vec<u8>, more: &[u8])
    ensures
        final(to)@ == old(to)@ + more@,
{
    let ghost before = to@;
    let mut i: usize = 0;
    while i < more.len()
        invariant
            i <= more@.len(),
            to@ =~= before + more@.take(i as int),
        decreases more@.len() - i,
    {
        to.push(more[i]);
        i = i + 1;
    }
    assert(more@.take(more@.len() as int) =~= more@);
}

/// Appends so many zero bytes.
fn append_zeros(to: &mut Vec<u8>, n: usize)
    ensures
        final(to)@ == old(to)@ + zeros(n as nat),
{
    let ghost before = to@;
    let mut i: usize = 0;
    while i < n
        invariant
            i <= n,
            to@ =~= before + zeros(i as nat),
        decreases n - i,
    {
        to.push(0);
        i = i + 1;
    }
}

/// Copies sixteen bytes.
fn sixteen_at(bytes: &[u8], from: usize) -> (id: PeerId)
    requires
        from + 16 <= bytes@.len(),
    ensures
        id@ == bytes@.subrange(from as int, from + 16),
{
    let id = PeerId {
        bytes: [
            bytes[from],
            bytes[from + 1],
            bytes[from + 2],
            bytes[from + 3],
            bytes[from + 4],
            bytes[from + 5],
            bytes[from + 6],
            bytes[from + 7],
            bytes[from + 8],
            bytes[from + 9],
            bytes[from + 10],
            bytes[from + 11],
            bytes[from + 12],
            bytes[from + 13],
            bytes[from + 14],
            bytes[from + 15],
        ],
    };
    assert(id@ =~= bytes@.subrange(from as int, from + 16));
    id
}

impl DiscoveryPacket {
    /// The bytes of the packet.
    pub fn encode(&self) -> (bytes: Vec<u8>)
        ensures
            bytes@ == packet_bytes(self@),
            bytes@.len() == DISCOVERY_PACKET_LEN,
    {
        let mut bytes: Vec<u8> = Vec::new();
        bytes.push(0x4d);
        bytes.push(0x44);
        bytes.push(0x54);
        bytes.push(0x31);
        bytes.push(self.packet_type.to_byte());
        bytes.push(DISCOVERY_PROTOCOL_VERSION);
        append_bytes(&mut bytes, self.sender_id.bytes.as_slice());
        append_bytes(&mut bytes, self.target_id.bytes.as_slice());
        proof {
            vstd::utf8::encode_utf8_valid_utf8(self.player_name@);
            lemma_fitting(encode_utf8(self.player_name@), PLAYER_NAME_LEN as int);
            lemma_name_field(self.player_name@);
            lemma_le_bytes_len(self.tcp_port as nat, 2);
        }
        let name: &str = truncate_on_char_boundary(self.player_name.as_str(), PLAYER_NAME_LEN);
        let text: &[u8] = name.as_bytes();
        append_bytes(&mut bytes, text);
        append_zeros(&mut bytes, PLAYER_NAME_LEN - text.len());
        let port: Vec<u8> = low_bytes(self.tcp_port as u64, 2);
        append_bytes(&mut bytes, port.as_slice());
        append_zeros(&mut bytes, 4);
        assert(bytes@ =~= packet_bytes(self@));
        bytes
    }

    /// Reads a packet. `None` if the bytes are too few or begin with something
    /// else.
    pub fn decode(bytes: &[u8]) -> (p: Option<DiscoveryPacket>)
        ensures
            match bytes_packet(bytes@) {
                Some(want) => p matches Some(got) && got@ == want,
                None => p is None,
            },
    {
        if bytes.len() < DISCOVERY_PACKET_LEN {
            return None;
        }
        let ghost head = bytes@.take(4);
        if bytes[0] != 0x4d || bytes[1] != 0x44 || bytes[2] != 0x54 || bytes[3] != 0x31 {
            assert(head[0] != magic()[0] || head[1] != magic()[1] || head[2] != magic()[2] || head[3]
                != magic()[3]);
            return None;
        }
        assert(head =~= magic());
        match PacketType::from_byte(bytes[4]) {
            None => None,
            Some(packet_type) => {
                let sender_id: PeerId = sixteen_at(bytes, 6);
                let target_id: PeerId = sixteen_at(bytes, 22);
                let field: PeerId = sixteen_at(bytes, 38);
                let player_name: String = decode_player_name(field.bytes.as_slice());
                let tcp_port: u16 = read_two(bytes[54], bytes[55]);
                assert(bytes@.subrange(54, 56) =~= seq![bytes@[54], bytes@[55]]);
                Some(DiscoveryPacket { packet_type, sender_id, target_id, player_name, tcp_port })
            },
        }
    }
}

/// A name without a zero that fits into its field.
pub open spec fn fits_field(name: Seq<char>) -> bool {
    &&& encode_utf8(name).len() <= PLAYER_NAME_LEN
    &&& forall|i: int| 0 <= i < encode_utf8(name).len() ==> #[trigger] encode_utf8(name)[i] != 0
}

/// The parts of an encoded packet lie where they are read.
pub proof fn lemma_packet_parts(p: Packet)
    requires
        p.sender_id.len() == 16,
        p.target_id.len() == 16,
    ensures
        ({
            let bytes = packet_bytes(p);
            &&& bytes.len() == DISCOVERY_PACKET_LEN
            &&& bytes.take(4) == magic()
            &&& bytes[4] == type_byte(p.packet_type)
            &&& bytes.subrange(6, 22) == p.sender_id
            &&& bytes.subrange(22, 38) == p.target_id
            &&& bytes.subrange(38, 54) == name_field(p.player_name)
            &&& bytes.subrange(54, 56) == le_bytes(p.tcp_port as nat, 2)
        }),
{
    lemma_name_field(p.player_name);
    lemma_le_bytes_len(p.tcp_port as nat, 2);
    let bytes = packet_bytes(p);
    assert(bytes.take(4) =~= magic());
    assert(bytes.subrange(6, 22) =~= p.sender_id);
    assert(bytes.subrange(22, 38) =~= p.target_id);
    assert(bytes.subrange(38, 54) =~= name_field(p.player_name));
    assert(bytes.subrange(54, 56) =~= le_bytes(p.tcp_port as nat, 2));
}

/// What is sent is read back. A name that does not fit into its field is cut.
pub proof fn law_packets_are_read_back(p: Packet)
    requires
        p.sender_id.len() == 16,
        p.target_id.len() == 16,
    ensures
        bytes_packet(packet_bytes(p)) == Some(
            Packet { player_name: text_of(before_zero(name_field(p.player_name))), ..p },
        ),
        fits_field(p.player_name) ==> bytes_packet(packet_bytes(p)) == Some(p),
{
    lemma_packet_parts(p);
    lemma_two_bytes(p.tcp_port as nat);
    law_type_bytes(p.packet_type, 0);
    if fits_field(p.player_name) {
        let text = encode_utf8(p.player_name);
        vstd::utf8::encode_utf8_valid_utf8(p.player_name);
        vstd::utf8::encode_utf8_decode_utf8(p.player_name);
        assert(text.take(text.len() as int) =~= text);
        lemma_before_zero(text, zeros((PLAYER_NAME_LEN - text.len()) as nat));
    }
}

/// A name without a zero that is too long for its field is read back as far as
/// it fits: the beginning of it, in whole characters, and the longest such.
pub proof fn law_long_names_are_cut(name: Seq<char>)
    requires
        forall|i: int| 0 <= i < encode_utf8(name).len() ==> #[trigger] encode_utf8(name)[i] != 0,
    ensures
        ({
            let text = encode_utf8(name);
            let k = fitting(text, PLAYER_NAME_LEN as int);
            &&& text_of(before_zero(name_field(name))) == decode_utf8(text.take(k))
            &&& decode_utf8(text.take(k)) + decode_utf8(text.skip(k)) == name
            &&& forall|j: int|
                k < j <= PLAYER_NAME_LEN && j <= text.len() ==> !#[trigger] is_char_boundary(text, j)
        }),
{
    let text = encode_utf8(name);
    let k = fitting(text, PLAYER_NAME_LEN as int);
    vstd::utf8::encode_utf8_valid_utf8(name);
    vstd::utf8::encode_utf8_decode_utf8(name);
    lemma_fitting(text, PLAYER_NAME_LEN as int);
    vstd::utf8::valid_utf8_split(text, k);
    vstd::utf8::decode_utf8_split(text, k);
    assert(text.take(k) =~= text.subrange(0, k));
    assert(text.skip(k) =~= text.subrange(k, text.len() as int));
    lemma_before_zero(text.take(k), zeros((PLAYER_NAME_LEN - k) as nat));
}

/// The version and the reserve of a packet are not looked at when it is read.
pub proof fn law_version_and_reserve_are_ignored(a: Seq<u8>, b: Seq<u8>)
    requires
        a.len() >= DISCOVERY_PACKET_LEN,
        b.len() >= DISCOVERY_PACKET_LEN,
        forall|i: int| 0 <= i < 56 && i != 5 ==> #[trigger] a[i] == b[i],
    ensures
        bytes_packet(a) == bytes_packet(b),
{
    assert(a.take(4) =~= b.take(4));
    assert(a.subrange(6, 22) =~= b.subrange(6, 22));
    assert(a.subrange(22, 38) =~= b.subrange(22, 38));
    assert(a.subrange(38, 54) =~= b.subrange(38, 54));
    assert(a.subrange(54, 56) =~= b.subrange(54, 56));
}

} // verus!
