//! The session: request ids, the login, commands, and replies that arrive
//! in several frames.
//!
//! Nothing here reads or writes a stream. An operation that sends returns the
//! bytes to write; an operation that waits for the server takes each frame
//! that was read and says what follows from it. The caller does the
//! transfers in between, in order: the server answers requests in the order
//! in which they arrive, and the rules below rely on that.

use crate::error::Error;
use crate::packet::{body_fits, parsed, well_formed, Packet, PacketType, PacketView};
use vstd::prelude::*;
use vstd::string::{StringExecFns, StringSliceAdditionalSpecFns};
use vstd::utf8::encode_utf8;

verus! {

/// The id of the first request of a session.
pub const INITIAL_PACKET_ID: i32 = 1;

/// The longest command, in bytes, that a session sends. Longer ones are
/// known to get lost on some servers, though the frame format has room for
/// them.
pub const MAX_COMMAND_LEN: usize = 1413;

/// The id that follows `id`: one more, and the first id again after the
/// greatest. Negative ids are the server's, so the count never wraps into
/// them.
pub open spec fn successor(id: i32) -> i32 {
    if id == i32::MAX {
        INITIAL_PACKET_ID
    } else {
        (id + 1) as i32
    }
}

/// The id of the request that `n` others went before in the same session:
/// 1, 2, 3 and so on up to the greatest 32-bit value, and then 1 again.
pub open spec fn nth_id(n: nat) -> i32 {
    (n % (i32::MAX as nat) + 1) as i32
}

/// The frame that carries `text` as a command under `id`.
pub open spec fn command_frame(id: i32, text: Seq<char>) -> Seq<u8> {
    (PacketView { id, ptype: PacketType::ExecCommand, body: text }).wire()
}

/// The frame that carries `password` as a login under `id`.
pub open spec fn login_frame(id: i32, password: Seq<char>) -> Seq<u8> {
    (PacketView { id, ptype: PacketType::Auth, body: password }).wire()
}

/// The ids of a session start at 1, each is followed by its successor, and
/// none is zero or negative.
pub proof fn lemma_ids_in_order(n: nat)
    ensures
        nth_id(0) == INITIAL_PACKET_ID,
        nth_id(n + 1) == successor(nth_id(n)),
        1 <= nth_id(n) <= i32::MAX,
{
}

/// The id that follows `id`.
pub fn next_packet_id(id: i32) -> (next: i32)
    ensures
        next == successor(id),
{
    id.checked_add(1).unwrap_or(INITIAL_PACKET_ID)
}

/// An authenticated session.
///
/// There is no way to make one but to log in: `Connection::connect` starts
/// the login and `Login::auth` hands the session out once the server has
/// accepted the password.
///
/// In contracts a session stands for the number of ids it has handed out.
pub struct Connection {
    next_packet_id: i32,
    issued: Ghost<nat>,
}

/// A session that has sent its password and waits for the verdict.
pub struct Login {
    conn: Connection,
}

/// A reply that is being put together from the frames that arrive.
#[derive(Debug)]
pub struct Reply {
    end_id: i32,
    text: String,
}

/// Where a reply stands after one more frame.
#[derive(Debug)]
pub enum Step {
    /// More frames are to come; hand the next one to the reply held here.
    More(Reply),
    /// The reply is complete, and this is its text.
    Done(String),
}

/// A reply as a mathematical value: the id whose frame ends it, and the text
/// collected so far.
pub struct ReplyView {
    pub end_id: i32,
    pub text: Seq<char>,
}

/// What `Step` stands for in contracts.
pub enum Progress {
    More(ReplyView),
    Done(Seq<char>),
}

impl View for Reply {
    type V = ReplyView;

    closed spec fn view(&self) -> ReplyView {
        ReplyView { end_id: self.end_id, text: self.text@ }
    }
}

impl View for Step {
    type V = Progress;

    open spec fn view(&self) -> Progress {
        match *self {
            Step::More(reply) => Progress::More(reply@),
            Step::Done(text) => Progress::Done(text@),
        }
    }
}

impl ReplyView {
    /// What one more frame does to a reply. The frame with the end id
    /// completes it, and the body of that frame is dropped; the body of any
    /// other frame is added to the text.
    pub open spec fn step(self, frame: PacketView) -> Progress {
        if frame.id == self.end_id {
            Progress::Done(self.text)
        } else {
            Progress::More(ReplyView { end_id: self.end_id, text: self.text + frame.body })
        }
    }

    /// What a run of frames does to a reply: they are taken in order until
    /// one completes it, and the rest is left alone.
    pub open spec fn run(self, frames: Seq<PacketView>) -> Progress
        decreases frames.len(),
    {
        if frames.len() == 0 {
            Progress::More(self)
        } else {
            match self.step(frames.first()) {
                Progress::Done(text) => Progress::Done(text),
                Progress::More(next) => next.run(frames.drop_first()),
            }
        }
    }
}

/// The bodies of `frames`, one after the other.
pub open spec fn joined(frames: Seq<PacketView>) -> Seq<char>
    decreases frames.len(),
{
    if frames.len() == 0 {
        Seq::empty()
    } else {
        frames.first().body + joined(frames.drop_first())
    }
}

/// A reply is what came before the end frame: after any frames of other ids
/// the text has grown by their bodies, in order, and the end frame then hands
/// out exactly that text.
pub proof fn lemma_reply_is_what_came_before_the_end(
    reply: ReplyView,
    fragments: Seq<PacketView>,
    end: PacketView,
)
    requires
        forall|i: int| 0 <= i < fragments.len() ==> (#[trigger] fragments[i]).id != reply.end_id,
        end.id == reply.end_id,
    ensures
        reply.run(fragments) == Progress::More(
            ReplyView { end_id: reply.end_id, text: reply.text + joined(fragments) },
        ),
        reply.run(fragments.push(end)) == Progress::Done(reply.text + joined(fragments)),
    decreases fragments.len(),
{
    if fragments.len() == 0 {
        assert(reply.text + joined(fragments) =~= reply.text);
        assert(fragments.push(end).drop_first() =~= fragments);
    } else {
        let next = ReplyView { end_id: reply.end_id, text: reply.text + fragments.first().body };
        let rest = fragments.drop_first();
        lemma_reply_is_what_came_before_the_end(next, rest, end);
        assert(fragments.push(end).drop_first() =~= rest.push(end));
        assert(next.text + joined(rest) =~= reply.text + joined(fragments));
    }
}

impl Connection {
    #[verifier::type_invariant]
    spec fn counts(&self) -> bool {
        self.next_packet_id == nth_id(self.issued@)
    }

    /// How many ids the session has handed out so far, the one of the login
    /// included.
    pub closed spec fn issued(&self) -> nat {
        self.issued@
    }

    /// The id that the next request will carry.
    pub open spec fn next_id(&self) -> i32 {
        nth_id(self.issued())
    }

    /// Starts a session: returns the login frame to write, and the login that
    /// takes the server's reply to it.
    ///
    /// The password must fit a frame: `MAX_BODY_LEN` bytes at most.
    pub fn connect(password: &str) -> (r: (Login, Vec<u8>))
        requires
            body_fits(password@),
        ensures
            r.1@ == login_frame(INITIAL_PACKET_ID, password@),
            r.0.issued() == 1,
    {
        let mut conn = Connection { next_packet_id: INITIAL_PACKET_ID, issued: Ghost(0) };
        let mut w: Vec<u8> = Vec::new();
        let _ = conn.send(PacketType::Auth, password, &mut w);
        (Login { conn }, w)
    }

    /// Prepares one command: returns its id and the frame to write. No reply
    /// is awaited.
    ///
    /// A command of more than 1413 bytes is refused, and then the session is
    /// as it was and there is nothing to write.
    pub fn cmd(&mut self, cmd: &str) -> (r: Result<(i32, Vec<u8>), Error>)
        ensures
            match r {
                Ok((id, bytes)) => {
                    &&& encode_utf8(cmd@).len() <= MAX_COMMAND_LEN
                    &&& id == old(self).next_id()
                    &&& bytes@ == command_frame(id, cmd@)
                    &&& final(self).issued() == old(self).issued() + 1
                },
                Err(e) => {
                    &&& e is CommandTooLong
                    &&& encode_utf8(cmd@).len() > MAX_COMMAND_LEN
                    &&& final(self).issued() == old(self).issued()
                },
            },
    {
        if let Some(Err(e)) = Connection::check_len(cmd.as_bytes().len()) {
            return Err(e);
        }
        let mut w: Vec<u8> = Vec::new();
        let id = self.send(PacketType::ExecCommand, cmd, &mut w);
        Ok((id, w))
    }

    /// Prepares one command whose reply is wanted: returns the bytes to
    /// write and the reply that takes the frames that come back.
    ///
    /// The bytes are two frames: the command, and after it an empty command
    /// whose id marks the end. A server answers in order, so whatever comes
    /// before the answer to the second frame belongs to the first.
    ///
    /// A command of more than 1413 bytes is refused, and then the session is
    /// as it was and there is nothing to write.
    pub fn response(&mut self, cmd: &str) -> (r: Result<(Reply, Vec<u8>), Error>)
        ensures
            match r {
                Ok((reply, bytes)) => {
                    let id = nth_id(old(self).issued());
                    let end_id = nth_id(old(self).issued() + 1);
                    &&& encode_utf8(cmd@).len() <= MAX_COMMAND_LEN
                    &&& bytes@ == command_frame(id, cmd@) + command_frame(end_id, Seq::empty())
                    &&& reply@ == (ReplyView { end_id, text: Seq::empty() })
                    &&& final(self).issued() == old(self).issued() + 2
                },
                Err(e) => {
                    &&& e is CommandTooLong
                    &&& encode_utf8(cmd@).len() > MAX_COMMAND_LEN
                    &&& final(self).issued() == old(self).issued()
                },
            },
    {
        if let Some(Err(e)) = Connection::check_len(cmd.as_bytes().len()) {
            return Err(e);
        }
        let mut w: Vec<u8> = Vec::new();
        let _ = self.send(PacketType::ExecCommand, cmd, &mut w);
        proof {
            reveal_strlit("");
            lemma_empty_text_is_no_bytes();
            assert(""@ =~= Seq::<char>::empty());
        }
        let end_id = self.send(PacketType::ExecCommand, "", &mut w);
        Ok((Reply { end_id, text: String::new() }, w))
    }

    /// Tells whether a command of `length` bytes is too long: `None` when it
    /// may be sent, the error when it may not.
    pub fn check_len(length: usize) -> (r: Option<Result<String, Error>>)
        ensures
            length <= MAX_COMMAND_LEN ==> r is None,
            length > MAX_COMMAND_LEN ==> r matches Some(Err(Error::CommandTooLong)),
    {
        if length > MAX_COMMAND_LEN {
            return Some(Err(Error::CommandTooLong));
        }
        None
    }

    /// Gives the request a fresh id and appends its frame to `w`.
    fn send(&mut self, ptype: PacketType, body: &str, w: &mut Vec<u8>) -> (id: i32)
        requires
            body_fits(body@),
        ensures
            id == old(self).next_id(),
            final(self).issued() == old(self).issued() + 1,
            final(w)@ == old(w)@ + (PacketView { id, ptype, body: body@ }).wire(),
    {
        let id = self.generate_packet_id();
        let packet = Packet::new(id, ptype, String::from_str(body));
        packet.serialize(w);
        id
    }

    /// Hands out the next id and moves on to the one after it.
    ///
    /// The ids of a session are 1, 2, 3 and so on; after the greatest 32-bit
    /// value comes 1 again, never zero or a negative number.
    pub fn generate_packet_id(&mut self) -> (id: i32)
        ensures
            id == old(self).next_id(),
            id >= 1,
            final(self).issued() == old(self).issued() + 1,
    {
        proof {
            use_type_invariant(&*self);
            lemma_ids_in_order(self.issued@);
        }
        let id = self.next_packet_id;
        *self = Connection {
            next_packet_id: next_packet_id(id),
            issued: Ghost(self.issued@ + 1),
        };
        id
    }
}

/// The empty text takes no bytes on the wire.
proof fn lemma_empty_text_is_no_bytes()
    ensures
        encode_utf8(Seq::<char>::empty()) == Seq::<u8>::empty(),
{
    reveal_with_fuel(encode_utf8, 2);
    assert(encode_utf8(Seq::<char>::empty()) =~= Seq::<u8>::empty());
}

impl Login {
    /// How many ids the session has handed out so far.
    pub closed spec fn issued(&self) -> nat {
        self.conn.issued()
    }

    /// Judges the frame that came back for the login.
    ///
    /// A frame with id -1 means that the server refused the password: the
    /// login fails and no session comes out of it. Any other frame makes the
    /// session. Bytes that are no frame fail as an I/O error.
    pub fn auth(self, reply: &[u8]) -> (r: Result<Connection, Error>)
        ensures
            match r {
                Ok(conn) => {
                    &&& well_formed(reply@)
                    &&& parsed(reply@).id != -1
                    &&& conn.issued() == self.issued()
                },
                Err(Error::Auth) => well_formed(reply@) && parsed(reply@).id == -1,
                Err(Error::Io(_)) => !well_formed(reply@),
                Err(Error::CommandTooLong) => false,
            },
    {
        let received_packet = match Packet::deserialize(reply) {
            Ok(packet) => packet,
            Err(e) => { return Err(Error::from(e)); },
        };
        if received_packet.is_error() {
            Err(Error::Auth)
        } else {
            Ok(self.conn)
        }
    }
}

impl Reply {
    /// Takes the next frame that came back.
    ///
    /// The frame that carries the end id completes the reply; its own body
    /// is dropped. The body of any other frame is added to the text. Bytes
    /// that are no frame fail as an I/O error, and the text so far is lost.
    pub fn receive(self, frame: &[u8]) -> (r: Result<Step, Error>)
        ensures
            match r {
                Ok(step) => well_formed(frame@) && step@ == self@.step(parsed(frame@)),
                Err(e) => e is Io && !well_formed(frame@),
            },
    {
        let received_packet = match Packet::deserialize(frame) {
            Ok(packet) => packet,
            Err(e) => { return Err(Error::from(e)); },
        };
        if received_packet.get_id() == self.end_id {
            return Ok(Step::Done(self.text));
        }
        let mut text = self.text;
        text.append(received_packet.get_body());
        Ok(Step::More(Reply { end_id: self.end_id, text }))
    }
}

} // verus!
