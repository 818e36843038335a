//! One frame of the protocol, and its layout on the wire.
//!
//! A frame is a length field, a request id, a type code, the body and two
//! zero bytes. The three integers are signed, 32 bits wide and little-endian.
//! The length field counts everything that follows it.

use crate::endian::{le_bytes, le_value, lemma_le_value_of_bytes, read_i32_le, write_i32_le};
use vstd::prelude::*;
use vstd::slice::{slice_subrange, slice_to_vec};
use vstd::string::StringSliceAdditionalSpecFns;
use vstd::utf8::{decode_utf8, encode_utf8, valid_utf8};

verus! {

/// The bytes of a frame that are not body: length field, id, type code and
/// the two terminators.
pub const FRAME_OVERHEAD: usize = 14;

/// The least value a length field can hold: id, type code and terminators
/// around an empty body.
pub const MIN_FRAME_LEN: i32 = 10;

/// The longest body, in bytes, whose frame the length field can still
/// count: the greatest 32-bit value less the ten bytes around the body.
pub const MAX_BODY_LEN: usize = 2_147_483_637;

/// Whether `body` is short enough to travel in a frame.
pub open spec fn body_fits(body: Seq<char>) -> bool {
    encode_utf8(body).len() <= MAX_BODY_LEN
}

/// What a frame is for.
#[derive(Clone, Copy, Debug, PartialEq, Eq, Structural)]
pub enum PacketType {
    /// A login request; the body is the password.
    Auth,
    /// A command request; the body is the command.
    ExecCommand,
    /// A reply of the server. Every code that is none of the other two is
    /// read as this.
    ResponseValue,
}

impl PacketType {
    /// The code that stands for this type on the wire.
    pub open spec fn code(self) -> i32 {
        match self {
            PacketType::Auth => 3,
            PacketType::ExecCommand => 2,
            PacketType::ResponseValue => 0,
        }
    }

    /// The type that a code on the wire stands for.
    pub open spec fn of_code(code: i32) -> PacketType {
        if code == 3 {
            PacketType::Auth
        } else if code == 2 {
            PacketType::ExecCommand
        } else {
            PacketType::ResponseValue
        }
    }

    /// The code to write for this type.
    pub fn to_i32(self) -> (code: i32)
        ensures
            code == self.code(),
    {
        match self {
            PacketType::Auth => 3,
            PacketType::ExecCommand => 2,
            PacketType::ResponseValue => 0,
        }
    }

    /// The type to report for a code that was read.
    pub fn from_i32(code: i32) -> (ptype: PacketType)
        ensures
            ptype == PacketType::of_code(code),
    {
        if code == 3 {
            PacketType::Auth
        } else if code == 2 {
            PacketType::ExecCommand
        } else {
            PacketType::ResponseValue
        }
    }
}

/// A frame as a mathematical value: what `Packet` stands for in contracts.
pub struct PacketView {
    pub id: i32,
    pub ptype: PacketType,
    pub body: Seq<char>,
}

impl PacketView {
    /// The body as it travels: the UTF-8 encoding of the text.
    pub open spec fn body_bytes(self) -> Seq<u8> {
        encode_utf8(self.body)
    }

    /// Whether the length field can hold the size of this frame.
    pub open spec fn fits(self) -> bool {
        body_fits(self.body)
    }

    /// The frame on the wire.
    pub open spec fn wire(self) -> Seq<u8> {
        frame(self.id, self.ptype.code(), self.body_bytes())
    }
}

/// The bytes of a frame with the given id, type code and body.
pub open spec fn frame(id: i32, code: i32, body: Seq<u8>) -> Seq<u8> {
    le_bytes((body.len() + MIN_FRAME_LEN) as i32) + le_bytes(id) + le_bytes(code) + body
        + seq![0u8, 0u8]
}

/// The part of a frame that holds the body: what lies between the header
/// and the two terminators.
pub open spec fn body_part(bytes: Seq<u8>) -> Seq<u8> {
    bytes.subrange(12, bytes.len() - 2)
}

/// Whether `bytes` is exactly one frame: the length field counts the bytes
/// that follow it, they have room for id, type code and terminators, and the
/// body is valid UTF-8. The terminators themselves are not looked at.
pub open spec fn well_formed(bytes: Seq<u8>) -> bool {
    &&& bytes.len() >= FRAME_OVERHEAD
    &&& le_value(bytes) == bytes.len() - 4
    &&& valid_utf8(body_part(bytes))
}

/// The frame that well-formed `bytes` hold.
pub open spec fn parsed(bytes: Seq<u8>) -> PacketView {
    PacketView {
        id: le_value(bytes.subrange(4, 8)),
        ptype: PacketType::of_code(le_value(bytes.subrange(8, 12))),
        body: decode_utf8(body_part(bytes)),
    }
}

/// A frame in memory.
#[derive(Debug)]
pub struct Packet {
    id: i32,
    ptype: PacketType,
    body: String,
}

impl View for Packet {
    type V = PacketView;

    closed spec fn view(&self) -> PacketView {
        PacketView { id: self.id, ptype: self.ptype, body: self.body@ }
    }
}

/// Trusted: `String::from_utf8` of the standard library.
///
/// It returns the text when the bytes are valid UTF-8 and an error when they
/// are not. The contract claims that, with `None` for the error, and that the
/// text is the decoding of the bytes.
#[verifier::external_body]
fn string_from_utf8(bytes: Vec<u8>) -> (r: Option<String>)
    ensures
        match r {
            Some(text) => valid_utf8(bytes@) && text@ == decode_utf8(bytes@),
            None => !valid_utf8(bytes@),
        },
{
    String::from_utf8(bytes).ok()
}

/// Trusted: `std::io::Error::new`, which makes an error of the kind
/// `InvalidData` that carries `reason`. Nothing is claimed of the error.
#[verifier::external_body]
fn invalid_data(reason: &str) -> std::io::Error {
    std::io::Error::new(std::io::ErrorKind::InvalidData, reason)
}

impl Packet {
    /// A frame with the given id, type and body.
    pub fn new(id: i32, ptype: PacketType, body: String) -> (packet: Packet)
        ensures
            packet@ == (PacketView { id, ptype, body: body@ }),
    {
        Packet { id, ptype, body }
    }

    /// The request id.
    pub fn get_id(&self) -> (id: i32)
        ensures
            id == self@.id,
    {
        self.id
    }

    /// The type.
    pub fn get_type(&self) -> (ptype: PacketType)
        ensures
            ptype == self@.ptype,
    {
        self.ptype
    }

    /// The body.
    pub fn get_body(&self) -> (body: &str)
        ensures
            body@ == self@.body,
    {
        self.body.as_str()
    }

    /// Whether this frame, read as the reply to a login, says that the
    /// password was refused: its id is -1.
    pub fn is_error(&self) -> (refused: bool)
        ensures
            refused == (self@.id == -1),
    {
        self.id == -1
    }

    /// Appends the frame to `w`, as it goes on the wire.
    ///
    /// The length field of what is appended holds the size of the body plus
    /// eight bytes for id and type code and two for the terminators.
    pub fn serialize(&self, w: &mut Vec<u8>)
        requires
            self@.fits(),
        ensures
            final(w)@ == old(w)@ + self@.wire(),
            le_value(final(w)@.subrange(old(w)@.len() as int, final(w)@.len() as int)) == 8
                + self@.body_bytes().len() + 2,
    {
        let body = self.body.as_str().as_bytes();
        let length: i32 = (body.len() + 10) as i32;
        let _ = write_i32_le(w, length);
        let _ = write_i32_le(w, self.id);
        let _ = write_i32_le(w, self.ptype.to_i32());
        w.extend_from_slice(body);
        w.push(0u8);
        w.push(0u8);
        proof {
            lemma_le_value_of_bytes(length);
            assert(final(w)@ =~= old(w)@ + self@.wire());
            assert(final(w)@.subrange(old(w)@.len() as int, final(w)@.len() as int)
                =~= self@.wire());
        }
    }

    /// The value of the length field that `header` starts with: how many
    /// bytes of the frame follow the field.
    ///
    /// Fails when `header` has fewer than four bytes, and when the value
    /// leaves no room for id, type code and terminators.
    pub fn frame_len(header: &[u8]) -> (r: Result<usize, std::io::Error>)
        ensures
            match r {
                Ok(n) => header@.len() >= 4 && n == le_value(header@) && n >= MIN_FRAME_LEN,
                Err(_) => header@.len() < 4 || le_value(header@) < MIN_FRAME_LEN,
            },
    {
        match read_i32_le(header) {
            Ok(length) => {
                if length < MIN_FRAME_LEN {
                    Err(invalid_data("frame length leaves no room for a frame"))
                } else {
                    Ok(length as usize)
                }
            },
            Err(e) => Err(e),
        }
    }

    /// Reads `frame` as exactly one frame.
    ///
    /// Succeeds on well-formed bytes and on no others. The two terminators
    /// are dropped unread and are no part of the body.
    pub fn deserialize(frame: &[u8]) -> (r: Result<Packet, std::io::Error>)
        ensures
            match r {
                Ok(packet) => well_formed(frame@) && packet@ == parsed(frame@),
                Err(_) => !well_formed(frame@),
            },
    {
        let length = match Packet::frame_len(frame) {
            Ok(n) => n,
            Err(e) => { return Err(e); },
        };
        if frame.len() - 4 != length {
            return Err(invalid_data("frame and its length field disagree"));
        }
        let id = match read_i32_le(slice_subrange(frame, 4, 8)) {
            Ok(v) => v,
            Err(e) => { return Err(e); },
        };
        let code = match read_i32_le(slice_subrange(frame, 8, 12)) {
            Ok(v) => v,
            Err(e) => { return Err(e); },
        };
        let text = slice_to_vec(slice_subrange(frame, 12, frame.len() - 2));
        match string_from_utf8(text) {
            Some(body) => Ok(Packet { id, ptype: PacketType::from_i32(code), body }),
            None => Err(invalid_data("body is not valid UTF-8")),
        }
    }
}

/// A frame that is written and then read is the frame that was written: the
/// bytes are well formed, and id, type and body come back unchanged.
pub proof fn lemma_round_trip(p: PacketView)
    requires
        p.fits(),
    ensures
        well_formed(p.wire()),
        parsed(p.wire()) == p,
{
    let body = p.body_bytes();
    let bytes = p.wire();
    lemma_le_value_of_bytes((body.len() + MIN_FRAME_LEN) as i32);
    lemma_le_value_of_bytes(p.id);
    lemma_le_value_of_bytes(p.ptype.code());
    vstd::utf8::encode_utf8_valid_utf8(p.body);
    vstd::utf8::encode_utf8_decode_utf8(p.body);
    assert(bytes.subrange(0, 4) =~= le_bytes((body.len() + MIN_FRAME_LEN) as i32));
    assert(bytes.subrange(4, 8) =~= le_bytes(p.id));
    assert(bytes.subrange(8, 12) =~= le_bytes(p.ptype.code()));
    assert(body_part(bytes) =~= body);
}

} // verus!
