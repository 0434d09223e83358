//! FMTP packets: a 5-byte header (version 2, a reserved 0 byte, the big-endian total
//! length, the packet type) followed by the payload; the control packets of the
//! protocol and the identification handshake.

use crate::bytes::{bytes_debug, bytes_eq, debug_bytes, u16_from_be_bytes, u16_to_be_bytes, utf8_text};
use crate::config::{Config, ConnectionConfig, ConnectionMap};
use crate::error::FmtpError;
use crate::identifier::FmtpIdentifier;
use crate::message::{display_line, FmtpMessage, MessageView, MAX_PAYLOAD};
use vstd::prelude::*;

verus! {

/// Number of bytes in a packet header.
pub const HEADER_LEN: usize = 5;

/// FMTP packet type.
#[derive(Clone, Copy, Debug, PartialEq, Eq, Structural)]
pub enum FmtpType {
    /// Operational message packet (e.g. OLDI messages).
    Operational,
    /// Operator message packet (operator communication).
    Operator,
    /// Identification packet (connection handshaking).
    Identification,
    /// System packet (protocol control).
    System,
}

impl FmtpType {
    /// The byte that encodes the type in a header.
    pub open spec fn code(self) -> u8 {
        match self {
            FmtpType::Operational => 1,
            FmtpType::Operator => 2,
            FmtpType::Identification => 3,
            FmtpType::System => 4,
        }
    }

    /// The type that byte `b` encodes, if any.
    pub open spec fn from_code(b: u8) -> Option<FmtpType> {
        if b == 1 {
            Some(FmtpType::Operational)
        } else if b == 2 {
            Some(FmtpType::Operator)
        } else if b == 3 {
            Some(FmtpType::Identification)
        } else if b == 4 {
            Some(FmtpType::System)
        } else {
            None
        }
    }

    /// The byte that encodes this type in a header.
    pub fn to_u8(self) -> (b: u8)
        ensures
            b == self.code(),
    {
        match self {
            FmtpType::Operational => 1,
            FmtpType::Operator => 2,
            FmtpType::Identification => 3,
            FmtpType::System => 4,
        }
    }

    /// The type that byte `b` encodes, or `None` for a byte that encodes none.
    pub fn from_u8(b: u8) -> (t: Option<FmtpType>)
        ensures
            t == FmtpType::from_code(b),
    {
        if b == 1 {
            Some(FmtpType::Operational)
        } else if b == 2 {
            Some(FmtpType::Operator)
        } else if b == 3 {
            Some(FmtpType::Identification)
        } else if b == 4 {
            Some(FmtpType::System)
        } else {
            None
        }
    }
}

/// The name of packet type `t`.
pub open spec fn kind_label(t: FmtpType) -> Seq<char> {
    match t {
        FmtpType::Operational => "Operational"@,
        FmtpType::Operator => "Operator"@,
        FmtpType::Identification => "Identification"@,
        FmtpType::System => "System"@,
    }
}

impl FmtpType {
    /// The name of the type.
    pub fn name(self) -> (s: &'static str)
        ensures
            s@ == kind_label(self),
    {
        match self {
            FmtpType::Operational => "Operational",
            FmtpType::Operator => "Operator",
            FmtpType::Identification => "Identification",
            FmtpType::System => "System",
        }
    }
}

/// A payload shown as text: its UTF-8 decoding where it is valid UTF-8, else the list of
/// its bytes.
pub open spec fn payload_text(payload: Seq<u8>) -> Seq<char> {
    if vstd::utf8::valid_utf8(payload) {
        vstd::utf8::decode_utf8(payload)
    } else {
        bytes_debug(payload)
    }
}

/// Payload of a SHUTDOWN system packet: `"00"`.
pub open spec fn shutdown_payload() -> Seq<u8> {
    seq![48u8, 48u8]
}

/// Payload of a STARTUP system packet: `"01"`.
pub open spec fn startup_payload() -> Seq<u8> {
    seq![48u8, 49u8]
}

/// Payload of a HEARTBEAT system packet: `"03"`.
pub open spec fn heartbeat_payload() -> Seq<u8> {
    seq![48u8, 51u8]
}

/// Payload of an ACCEPT identification packet: `"ACCEPT"`.
pub open spec fn accept_payload() -> Seq<u8> {
    seq![65u8, 67u8, 67u8, 69u8, 80u8, 84u8]
}

/// Payload of a REJECT identification packet: `"REJECT"`.
pub open spec fn reject_payload() -> Seq<u8> {
    seq![82u8, 69u8, 74u8, 69u8, 67u8, 84u8]
}

/// Payload of an identification packet sent by `local` to `remote`: `local-remote`.
pub open spec fn handshake_payload(local: Seq<u8>, remote: Seq<u8>) -> Seq<u8> {
    local + seq![45u8] + remote
}

/// What a packet is: its type, the total length its header declares, its payload.
pub struct PacketView {
    pub typ: FmtpType,
    pub length: u16,
    pub payload: Seq<u8>,
}

impl PacketView {
    /// The packet of type `typ` carrying `payload`, its length counting the header.
    pub open spec fn of(typ: FmtpType, payload: Seq<u8>) -> PacketView {
        PacketView { typ, length: (payload.len() + HEADER_LEN) as u16, payload }
    }

    /// The declared length counts the header and the payload, and the payload fits.
    pub open spec fn well_formed(self) -> bool {
        &&& self.payload.len() <= MAX_PAYLOAD
        &&& self.length == self.payload.len() + HEADER_LEN
    }

    /// The bytes of the packet on the wire.
    pub open spec fn encode(self) -> Seq<u8> {
        header_bytes(self.typ, self.length) + self.payload
    }

    /// The message that the packet carries, or why it carries none.
    pub open spec fn to_message(self) -> Result<MessageView, FmtpError> {
        match self.typ {
            FmtpType::Operational => Ok(MessageView::Operational(self.payload)),
            FmtpType::Operator => Ok(MessageView::Operator(self.payload)),
            FmtpType::Identification => Err(FmtpError::NotAMessage(FmtpType::Identification)),
            FmtpType::System => Err(FmtpError::NotAMessage(FmtpType::System)),
        }
    }
}

/// The packet that carries message `m`.
pub open spec fn message_packet(m: MessageView) -> PacketView {
    match m {
        MessageView::Operational(d) => PacketView::of(FmtpType::Operational, d),
        MessageView::Operator(d) => PacketView::of(FmtpType::Operator, d),
    }
}

/// The header bytes of a packet of type `typ` declaring total length `length`.
pub open spec fn header_bytes(typ: FmtpType, length: u16) -> Seq<u8> {
    seq![2u8, 0u8, (length / 256) as u8, (length % 256) as u8, typ.code()]
}

/// The total length that the header at the front of `bytes` declares.
pub open spec fn declared_length(bytes: Seq<u8>) -> int {
    bytes[2] * 256 + bytes[3]
}

/// Whether `bytes` starts with a header of version 2, reserved byte 0 and a known type.
pub open spec fn header_valid(bytes: Seq<u8>) -> bool {
    &&& bytes.len() >= HEADER_LEN
    &&& bytes[0] == 2
    &&& bytes[1] == 0
    &&& FmtpType::from_code(bytes[4]) is Some
}

/// The largest total length (header and payload) a packet may declare.
pub open spec fn max_packet_len() -> int {
    MAX_PAYLOAD + HEADER_LEN
}

/// The packet at the front of `bytes`, or why there is none: too few bytes for a header,
/// an invalid header, a payload over 10240 bytes, a declared length under the header's,
/// or fewer bytes than the header declares.
pub open spec fn decode(bytes: Seq<u8>) -> Result<PacketView, FmtpError> {
    if bytes.len() < HEADER_LEN {
        Err(FmtpError::PacketTooShort)
    } else if !header_valid(bytes) {
        Err(FmtpError::InvalidHeader)
    } else if declared_length(bytes) > max_packet_len() {
        Err(FmtpError::PayloadTooLarge)
    } else if declared_length(bytes) < HEADER_LEN {
        Err(FmtpError::InvalidHeader)
    } else if bytes.len() < declared_length(bytes) {
        Err(FmtpError::PacketTooShort)
    } else {
        Ok(
            PacketView {
                typ: FmtpType::from_code(bytes[4])->0,
                length: declared_length(bytes) as u16,
                payload: bytes.subrange(HEADER_LEN as int, declared_length(bytes)),
            },
        )
    }
}

/// The value of a decoding result, its packet taken by view.
pub open spec fn decoded(r: Result<FmtpPacket, FmtpError>) -> Result<PacketView, FmtpError> {
    match r {
        Ok(p) => Ok(p@),
        Err(e) => Err(e),
    }
}

/// FMTP packet header: version 2, a reserved 0 byte, the total packet length, the type.
#[derive(Clone, Copy, Debug, PartialEq, Eq)]
pub struct FmtpPacketHeader {
    length: u16,
    /// Packet type.
    pub typ: FmtpType,
}

impl FmtpPacketHeader {
    /// The total length (header included) that the header declares.
    pub closed spec fn declared(self) -> u16 {
        self.length
    }

    /// The packet type that the header declares.
    pub closed spec fn kind(self) -> FmtpType {
        self.typ
    }

    /// A header of type `typ` declaring total length `length`.
    pub fn new(typ: FmtpType, length: u16) -> (h: FmtpPacketHeader)
        ensures
            h.kind() == typ,
            h.declared() == length,
    {
        FmtpPacketHeader { length, typ }
    }

    /// The total length (header included) that the header declares.
    pub fn length(&self) -> (n: u16)
        ensures
            n == self.declared(),
    {
        self.length
    }

    /// The five bytes of the header on the wire.
    pub fn as_bytes(&self) -> (b: [u8; 5])
        ensures
            b@ == header_bytes(self.kind(), self.declared()),
    {
        let len = u16_to_be_bytes(self.length);
        let b = [2u8, 0u8, len[0], len[1], self.typ.to_u8()];
        assert(b@ =~= header_bytes(self.kind(), self.declared()));
        b
    }
}

/// A complete FMTP packet: header and payload.
#[derive(Debug, PartialEq, Eq)]
pub struct FmtpPacket {
    /// The header: version, reserved byte, length and type.
    pub header: FmtpPacketHeader,
    data: Vec<u8>,
}

impl View for FmtpPacket {
    type V = PacketView;

    closed spec fn view(&self) -> PacketView {
        PacketView { typ: self.header.typ, length: self.header.length, payload: self.data@ }
    }
}

impl Clone for FmtpPacket {
    fn clone(&self) -> (p: Self)
        ensures
            p@ == self@,
    {
        FmtpPacket { header: self.header, data: vstd::slice::slice_to_vec(self.data.as_slice()) }
    }
}

/// The identification payload that an end configured as `cc` expects from its peer:
/// the peer's identifier, a hyphen, then this end's identifier.
pub open spec fn expected_handshake(cc: ConnectionConfig) -> Seq<u8> {
    handshake_payload(cc.remote_id@, cc.local_id@)
}

/// Whether `p` is the identification packet that an end configured as `cc` expects.
pub open spec fn identifies(p: PacketView, cc: ConnectionConfig) -> bool {
    p.typ == FmtpType::Identification && p.payload == expected_handshake(cc)
}

/// The name that an optional borrowed name holds.
pub open spec fn name_of(n: Option<&String>) -> Option<Seq<char>> {
    match n {
        Some(s) => Some(s@),
        None => None,
    }
}

/// The name that an optional name holds.
pub open spec fn name_view(n: Option<String>) -> Option<Seq<char>> {
    match n {
        Some(s) => Some(s@),
        None => None,
    }
}

/// The first connection of `m`, from position `i` on in the map's order, whose
/// configuration expects identification packet `p`.
pub open spec fn first_identified_from(m: ConnectionMap, p: PacketView, i: int) -> Option<
    Seq<char>,
>
    decreases m.count() - i,
{
    if i < 0 || i >= m.count() {
        None
    } else if identifies(p, m@[m.key_at(i)]) {
        Some(m.key_at(i))
    } else {
        first_identified_from(m, p, i + 1)
    }
}

/// The name that checking identification packet `p` against `config` answers, given the
/// connection name `cid` already known: for a known configured name, that name exactly
/// when its configuration expects `p`; otherwise the first configured connection, in the
/// map's order, whose configuration expects `p`.
pub open spec fn handshake_result(p: PacketView, config: Config, cid: Option<Seq<char>>) -> Option<
    Seq<char>,
> {
    let conns = config.connections@;
    if cid is Some && conns.contains_key(cid->0) {
        if identifies(p, conns[cid->0]) {
            cid
        } else {
            None
        }
    } else {
        first_identified_from(config.connections, p, 0)
    }
}

/// A name found from position `i` on is configured and its configuration expects `p`;
/// where none is found, no configuration from position `i` on expects `p`.
proof fn lemma_first_identified(m: ConnectionMap, p: PacketView, i: int)
    requires
        0 <= i,
    ensures
        first_identified_from(m, p, i) matches Some(k) ==> m@.contains_key(k) && identifies(p, m@[k]),
        first_identified_from(m, p, i) is None ==> forall|j: int|
            i <= j < m.count() ==> !identifies(p, m@[#[trigger] m.key_at(j)]),
    decreases m.count() - i,
{
    if i < m.count() {
        m.lemma_position_keyed(i);
        if !identifies(p, m@[m.key_at(i)]) {
            lemma_first_identified(m, p, i + 1);
        }
    }
}

/// What a handshake check answers: for a known configured name, that name exactly when
/// its configuration expects `p`; otherwise a configured name whose configuration expects
/// `p`, and no name only when no configuration expects `p`.
pub proof fn lemma_handshake_result(p: PacketView, config: Config, cid: Option<Seq<char>>)
    ensures
        ({
            let conns = config.connections@;
            let r = handshake_result(p, config, cid);
            if cid is Some && conns.contains_key(cid->0) {
                r == (if identifies(p, conns[cid->0]) { cid } else { None })
            } else {
                &&& r matches Some(k) ==> conns.contains_key(k) && identifies(p, conns[k])
                &&& r is None ==> forall|k: Seq<char>| #[trigger]
                    conns.contains_key(k) ==> !identifies(p, conns[k])
            }
        }),
{
    let m = config.connections;
    lemma_first_identified(m, p, 0);
    if !(cid is Some && m@.contains_key(cid->0)) && first_identified_from(m, p, 0) is None {
        assert forall|k: Seq<char>| #[trigger] m@.contains_key(k) implies !identifies(p, m@[k]) by {
            m.lemma_key_positioned(k);
            let j = choose|j: int| 0 <= j < m.count() && #[trigger] m.key_at(j) == k;
            assert(!identifies(p, m@[m.key_at(j)]));
        }
    }
}

impl FmtpPacket {
    /// Whether this is the identification packet that an end configured as `cc` expects.
    fn identifies_config(&self, cc: &ConnectionConfig) -> (b: bool)
        ensures
            b == identifies(self@, *cc),
    {
        let mut expected = vstd::slice::slice_to_vec(cc.remote_id.as_bytes());
        expected.push(45u8);
        let mut rest = vstd::slice::slice_to_vec(cc.local_id.as_bytes());
        expected.append(&mut rest);
        assert(expected@ =~= expected_handshake(*cc));
        self.header.typ == FmtpType::Identification && bytes_eq(self.data.as_slice(), expected.as_slice())
    }

    /// Checks an identification packet against the configured connections: where
    /// `connection_id` names a configured connection only that one is considered,
    /// otherwise every configured connection is. Answers the name of a connection whose
    /// configuration expects this packet.
    pub fn check_handshake<'c>(&self, config: &'c Config, connection_id: Option<&'c String>) -> (r:
        Option<&'c String>)
        ensures
            name_of(r) == handshake_result(self@, *config, name_of(connection_id)),
    {
        if let Some(cid) = connection_id {
            if let Some(cc) = config.connections.get(cid) {
                if self.identifies_config(cc) {
                    return Some(cid);
                } else {
                    return None;
                }
            }
        }
        let n = config.connections.len();
        let mut i: usize = 0;
        while i < n
            invariant
                n == config.connections.count(),
                i <= n,
                !(name_of(connection_id) is Some && config.connections@.contains_key(
                    name_of(connection_id)->0,
                )),
                first_identified_from(config.connections, self@, 0) == first_identified_from(
                    config.connections,
                    self@,
                    i as int,
                ),
            decreases n - i,
        {
            let (k, cc) = config.connections.entry(i);
            if self.identifies_config(cc) {
                return Some(k);
            }
            i = i + 1;
        }
        None
    }
}

impl FmtpPacket {
    /// A packet of type `typ` carrying `data`; fails where `data` is empty or exceeds
    /// 10240 bytes.
    pub fn new(typ: FmtpType, data: Vec<u8>) -> (r: Result<FmtpPacket, FmtpError>)
        ensures
            r is Ok <==> 1 <= data@.len() <= MAX_PAYLOAD,
            r matches Ok(p) ==> p@ == PacketView::of(typ, data@) && p@.well_formed(),
            r matches Err(e) ==> (e == FmtpError::EmptyPayload <==> data@.len() == 0),
            r matches Err(e) ==> (e == FmtpError::PayloadTooLarge <==> data@.len() > MAX_PAYLOAD),
    {
        if data.len() == 0 {
            return Err(FmtpError::EmptyPayload);
        }
        if data.len() > MAX_PAYLOAD {
            return Err(FmtpError::PayloadTooLarge);
        }
        let length = (HEADER_LEN + data.len()) as u16;
        Ok(FmtpPacket { header: FmtpPacketHeader { length, typ }, data })
    }

    /// The packet type.
    pub fn typ(&self) -> (t: FmtpType)
        ensures
            t == self@.typ,
    {
        self.header.typ
    }

    /// The payload.
    pub fn data(&self) -> (d: &[u8])
        ensures
            d@ == self@.payload,
    {
        self.data.as_slice()
    }

    /// The bytes of the packet on the wire: header, then payload.
    pub fn into_bytes(self) -> (b: Vec<u8>)
        ensures
            b@ == self@.encode(),
    {
        let header = self.header.as_bytes();
        let mut out: Vec<u8> = Vec::new();
        out.push(header[0]);
        out.push(header[1]);
        out.push(header[2]);
        out.push(header[3]);
        out.push(header[4]);
        let mut data = self.data;
        out.append(&mut data);
        assert(out@ =~= self@.encode());
        out
    }

    /// Decodes the packet at the front of `bytes`; bytes after its declared length are
    /// ignored.
    pub fn from_bytes(bytes: &[u8]) -> (r: Result<FmtpPacket, FmtpError>)
        ensures
            decoded(r) == decode(bytes@),
            r matches Ok(p) ==> p@.well_formed(),
    {
        if bytes.len() < HEADER_LEN {
            return Err(FmtpError::PacketTooShort);
        }
        if bytes[0] != 2 || bytes[1] != 0 {
            return Err(FmtpError::InvalidHeader);
        }
        let typ = match FmtpType::from_u8(bytes[4]) {
            Some(t) => t,
            None => {
                return Err(FmtpError::InvalidHeader);
            },
        };
        let length = u16_from_be_bytes([bytes[2], bytes[3]]);
        if length as usize > MAX_PAYLOAD + HEADER_LEN {
            return Err(FmtpError::PayloadTooLarge);
        }
        if (length as usize) < HEADER_LEN {
            return Err(FmtpError::InvalidHeader);
        }
        if bytes.len() < length as usize {
            return Err(FmtpError::PacketTooShort);
        }
        let payload = vstd::slice::slice_subrange(bytes, HEADER_LEN, length as usize);
        let data = vstd::slice::slice_to_vec(payload);
        Ok(FmtpPacket { header: FmtpPacketHeader { length, typ }, data })
    }

    /// The packet that carries message `msg`.
    pub fn from_msg(msg: FmtpMessage) -> (p: FmtpPacket)
        requires
            msg@.payload().len() <= MAX_PAYLOAD,
        ensures
            p@ == message_packet(msg@),
            p@.well_formed(),
    {
        let (typ, data) = match msg {
            FmtpMessage::Operational(d) => (FmtpType::Operational, d),
            FmtpMessage::Operator(d) => (FmtpType::Operator, d),
        };
        let length = (HEADER_LEN + data.len()) as u16;
        FmtpPacket { header: FmtpPacketHeader { length, typ }, data }
    }

    /// The message that the packet carries; identification and system packets carry none.
    pub fn try_to_msg(self) -> (r: Result<FmtpMessage, FmtpError>)
        ensures
            match r {
                Ok(m) => self@.to_message() == Ok::<MessageView, FmtpError>(m@),
                Err(e) => self@.to_message() == Err::<MessageView, FmtpError>(e),
            },
    {
        match self.header.typ {
            FmtpType::Operational => Ok(FmtpMessage::Operational(self.data)),
            FmtpType::Operator => Ok(FmtpMessage::Operator(self.data)),
            FmtpType::Identification => Err(FmtpError::NotAMessage(FmtpType::Identification)),
            FmtpType::System => Err(FmtpError::NotAMessage(FmtpType::System)),
        }
    }

    /// A packet of type `typ` whose payload is `payload`, known to fit.
    fn fixed(typ: FmtpType, payload: Vec<u8>) -> (p: FmtpPacket)
        requires
            payload@.len() <= MAX_PAYLOAD,
        ensures
            p@ == PacketView::of(typ, payload@),
            p@.well_formed(),
    {
        let length = (HEADER_LEN + payload.len()) as u16;
        FmtpPacket { header: FmtpPacketHeader { length, typ }, data: payload }
    }

    /// The identification packet that `local_id` sends to `remote_id`.
    pub fn handshake(local_id: &FmtpIdentifier, remote_id: &FmtpIdentifier) -> (p: FmtpPacket)
        ensures
            p@ == PacketView::of(FmtpType::Identification, handshake_payload(local_id@, remote_id@)),
            p@.well_formed(),
    {
        let mut payload = vstd::slice::slice_to_vec(local_id.as_bytes());
        payload.push(45u8);
        let mut rest = vstd::slice::slice_to_vec(remote_id.as_bytes());
        payload.append(&mut rest);
        assert(payload@ =~= handshake_payload(local_id@, remote_id@));
        Self::fixed(FmtpType::Identification, payload)
    }

    /// The identification packet that accepts the remote end.
    pub fn accept() -> (p: FmtpPacket)
        ensures
            p@ == PacketView::of(FmtpType::Identification, accept_payload()),
    {
        let payload = vec![65u8, 67u8, 67u8, 69u8, 80u8, 84u8];
        assert(payload@ =~= accept_payload());
        Self::fixed(FmtpType::Identification, payload)
    }

    /// The identification packet that rejects the remote end.
    pub fn reject() -> (p: FmtpPacket)
        ensures
            p@ == PacketView::of(FmtpType::Identification, reject_payload()),
    {
        let payload = vec![82u8, 69u8, 74u8, 69u8, 67u8, 84u8];
        assert(payload@ =~= reject_payload());
        Self::fixed(FmtpType::Identification, payload)
    }

    /// The system packet that starts an association.
    pub fn startup() -> (p: FmtpPacket)
        ensures
            p@ == PacketView::of(FmtpType::System, startup_payload()),
    {
        let payload = vec![48u8, 49u8];
        assert(payload@ =~= startup_payload());
        Self::fixed(FmtpType::System, payload)
    }

    /// The system packet that ends an association.
    pub fn shutdown() -> (p: FmtpPacket)
        ensures
            p@ == PacketView::of(FmtpType::System, shutdown_payload()),
    {
        let payload = vec![48u8, 48u8];
        assert(payload@ =~= shutdown_payload());
        Self::fixed(FmtpType::System, payload)
    }

    /// The system packet that keeps an association alive.
    pub fn heartbeat() -> (p: FmtpPacket)
        ensures
            p@ == PacketView::of(FmtpType::System, heartbeat_payload()),
    {
        let payload = vec![48u8, 51u8];
        assert(payload@ =~= heartbeat_payload());
        Self::fixed(FmtpType::System, payload)
    }

    /// The packet shown as text: its type, a colon, its payload (as UTF-8 text where it is
    /// valid UTF-8, else as the list of its bytes), and a line break.
    pub fn to_display_string(&self) -> (line: String)
        ensures
            line@ == kind_label(self@.typ) + ": "@ + payload_text(self@.payload) + "\n"@,
    {
        let text = match utf8_text(vstd::slice::slice_to_vec(self.data.as_slice())) {
            Some(t) => t,
            None => debug_bytes(self.data.as_slice()),
        };
        display_line(self.header.typ.name(), text.as_str())
    }

    /// Whether the packet has type `typ` and payload `expected`.
    fn is_control(&self, typ: FmtpType, expected: &[u8]) -> (b: bool)
        ensures
            b == (self@.typ == typ && self@.payload == expected@),
    {
        self.header.typ == typ && bytes_eq(self.data.as_slice(), expected)
    }

    /// Whether this is the ACCEPT identification packet.
    pub fn is_accept(&self) -> (b: bool)
        ensures
            b == (self@.typ == FmtpType::Identification && self@.payload == accept_payload()),
    {
        let expected = [65u8, 67u8, 67u8, 69u8, 80u8, 84u8];
        assert(expected@ =~= accept_payload());
        self.is_control(FmtpType::Identification, &expected)
    }

    /// Whether this is the REJECT identification packet.
    pub fn is_reject(&self) -> (b: bool)
        ensures
            b == (self@.typ == FmtpType::Identification && self@.payload == reject_payload()),
    {
        let expected = [82u8, 69u8, 74u8, 69u8, 67u8, 84u8];
        assert(expected@ =~= reject_payload());
        self.is_control(FmtpType::Identification, &expected)
    }

    /// Whether this is the STARTUP system packet.
    pub fn is_startup(&self) -> (b: bool)
        ensures
            b == (self@.typ == FmtpType::System && self@.payload == startup_payload()),
    {
        let expected = [48u8, 49u8];
        assert(expected@ =~= startup_payload());
        self.is_control(FmtpType::System, &expected)
    }

    /// Whether this is the SHUTDOWN system packet.
    pub fn is_shutdown(&self) -> (b: bool)
        ensures
            b == (self@.typ == FmtpType::System && self@.payload == shutdown_payload()),
    {
        let expected = [48u8, 48u8];
        assert(expected@ =~= shutdown_payload());
        self.is_control(FmtpType::System, &expected)
    }

    /// Whether this is the HEARTBEAT system packet.
    pub fn is_heartbeat(&self) -> (b: bool)
        ensures
            b == (self@.typ == FmtpType::System && self@.payload == heartbeat_payload()),
    {
        let expected = [48u8, 51u8];
        assert(expected@ =~= heartbeat_payload());
        self.is_control(FmtpType::System, &expected)
    }
}

/// Encoding a packet and decoding the bytes gives the packet back, for every well-formed
/// packet (in particular every packet that [`FmtpPacket::new`] builds).
pub proof fn lemma_decode_encode(p: PacketView)
    requires
        p.well_formed(),
    ensures
        decode(p.encode()) == Ok::<PacketView, FmtpError>(p),
{
    let b = p.encode();
    let len = p.length;
    assert((len / 256) as u8 * 256 + (len % 256) as u8 == len) by (bit_vector);
    assert(b[2] == (len / 256) as u8 && b[3] == (len % 256) as u8);
    assert(declared_length(b) == len);
    assert(FmtpType::from_code(b[4]) == Some(p.typ));
    assert(b.subrange(HEADER_LEN as int, len as int) =~= p.payload);
}

/// Whatever decodes to a packet is that packet's encoding, followed by bytes that decoding
/// ignores; every decoded packet is well-formed.
pub proof fn lemma_encode_decode(bytes: Seq<u8>)
    requires
        decode(bytes) is Ok,
    ensures
        decode(bytes)->Ok_0.well_formed(),
        decode(bytes)->Ok_0.encode() == bytes.subrange(0, decode(bytes)->Ok_0.length as int),
{
    let p = decode(bytes)->Ok_0;
    let len = declared_length(bytes);
    let b2 = bytes[2];
    let b3 = bytes[3];
    assert(((b2 as u16) * 256 + b3 as u16) / 256 == b2 && ((b2 as u16) * 256 + b3 as u16) % 256 == b3)
        by (bit_vector);
    assert(b2 * 256 + b3 == (b2 as u16) * 256 + b3 as u16);
    assert(p.length == len);
    assert(p.encode() =~= bytes.subrange(0, len));
}

/// Decoding reads no further than the declared length: bytes appended after a packet
/// change nothing.
pub proof fn lemma_decode_ignores_trailing(bytes: Seq<u8>, extra: Seq<u8>)
    requires
        decode(bytes) is Ok,
    ensures
        decode(bytes + extra) == decode(bytes),
{
    let all = bytes + extra;
    let len = declared_length(bytes);
    assert(all[0] == bytes[0] && all[1] == bytes[1] && all[2] == bytes[2] && all[3] == bytes[3]
        && all[4] == bytes[4]);
    assert(all.subrange(HEADER_LEN as int, len) =~= bytes.subrange(HEADER_LEN as int, len));
}

/// A message put into a packet comes back out of it unchanged.
pub proof fn lemma_message_roundtrip(m: MessageView)
    ensures
        message_packet(m).to_message() == Ok::<MessageView, FmtpError>(m),
        m.payload().len() <= MAX_PAYLOAD ==> message_packet(m).well_formed(),
{
}

/// The identification packet that one end sends is the one its peer expects, when each
/// end's configuration names the other's identifier as remote.
pub proof fn lemma_peer_identifies(sender: ConnectionConfig, receiver: ConnectionConfig)
    requires
        receiver.remote_id@ == sender.local_id@,
        receiver.local_id@ == sender.remote_id@,
    ensures
        identifies(
            PacketView::of(FmtpType::Identification, handshake_payload(sender.local_id@, sender.remote_id@)),
            receiver,
        ),
{
}

/// The control payloads differ from one another, and no identification payload of the
/// form `local-remote` is ACCEPT or REJECT.
pub proof fn lemma_control_payloads_distinct(local: Seq<u8>, remote: Seq<u8>)
    ensures
        startup_payload() != shutdown_payload(),
        startup_payload() != heartbeat_payload(),
        shutdown_payload() != heartbeat_payload(),
        accept_payload() != reject_payload(),
        handshake_payload(local, remote) != accept_payload(),
        handshake_payload(local, remote) != reject_payload(),
{
    assert(startup_payload()[1] != shutdown_payload()[1]);
    assert(startup_payload()[1] != heartbeat_payload()[1]);
    assert(shutdown_payload()[1] != heartbeat_payload()[1]);
    assert(accept_payload()[0] != reject_payload()[0]);
    let h = handshake_payload(local, remote);
    let l = local.len() as int;
    assert(h[l] == 45u8);
    if h.len() == 6 {
        assert(0 <= l < 6);
        assert(accept_payload()[l] != 45u8);
        assert(reject_payload()[l] != 45u8);
    }
}

} // verus!
