//! One producer connection: its identity, its two states and its end.
//!
//! A connection starts by waiting for a handshake, is open once it has seen
//! one, and ends by being finished, which tells the bus that its activity is
//! gone. Finishing consumes the connection, so it is done at most once.

use crate::dispatch::{dispatch_spec, handle_incoming_value_at, outcome_event};
use crate::event::{
    counted_opt, extended, lemma_published_extend, lemma_published_seq, published, published_opt,
    published_seq, EventBus, EventKind, EventModel,
};
use crate::frame::{decode_frame, decode_spec, encode_frame, frame_bytes, u32_le_at, IpcOp};
use crate::json::{json_text, Json, JsonModel};
use crate::metrics::Metrics;
use crate::protocol::{ready_frame, ready_frame_json};
use vstd::prelude::*;
use vstd::utf8::*;

verus! {

/// The most bytes that the body of one frame or one message may have.
pub const MAX_PAYLOAD: usize = 65536;

/// The length of a socket id that the broker gives out: a UUID in the
/// hyphenated form.
pub const SOCKET_ID_LEN: usize = 36;

/// How a connection reached the broker.
#[derive(Debug, Clone, Copy, PartialEq, Eq, Structural)]
pub enum Transport {
    Ipc,
    Ws,
}

/// How frames are written on a connection.
#[derive(Debug, Clone, Copy, PartialEq, Eq, Structural)]
pub enum Encoding {
    Json,
    BinaryTerm,
}

/// A producer connection.
#[derive(Debug)]
pub struct Connection {
    pub socket_id: String,
    pub handshook: bool,
    pub transport: Transport,
    pub encoding: Encoding,
}

/// What to do after a frame of the stream transport.
#[derive(Debug, PartialEq, Eq)]
pub enum IpcAction {
    /// Write these bytes to the peer and go on reading.
    Send(Vec<u8>),
    /// Go on reading.
    Nothing,
    /// Close the connection without a reply.
    Close,
}

/// The mathematical value of an [`IpcAction`].
pub ghost enum IpcActionModel {
    Send(Seq<u8>),
    Nothing,
    Close,
}

impl View for IpcAction {
    type V = IpcActionModel;

    open spec fn view(&self) -> IpcActionModel {
        match self {
            IpcAction::Send(b) => IpcActionModel::Send(b@),
            IpcAction::Nothing => IpcActionModel::Nothing,
            IpcAction::Close => IpcActionModel::Close,
        }
    }
}

/// What a frame of the stream transport leads to.
pub ghost struct IpcStep {
    /// Whether the connection has seen its handshake afterwards.
    pub handshook: bool,
    pub action: IpcActionModel,
    /// The event that goes on the bus.
    pub event: Option<EventModel>,
}

/// The bytes of a frame with the given op and JSON body.
pub open spec fn json_frame(op: IpcOp, body: JsonModel) -> Seq<u8> {
    frame_bytes(op, encode_utf8(json_text(body)))
}

/// What the buffer `buf`, which holds one frame, leads to on a connection
/// with the given id that has or has not seen its handshake, at the time
/// `now_ms`.
///
/// A body that is declared longer than [`MAX_PAYLOAD`] and a buffer that does
/// not decode close the connection. Before the handshake only a handshake is
/// accepted, and is answered with the greeting. After it a ping is answered
/// with a pong, a frame with the reply to its command, a close frame closes,
/// and any other op is passed over.
pub open spec fn ipc_step(socket_id: Seq<char>, handshook: bool, buf: Seq<u8>, now_ms: u64) -> IpcStep {
    if buf.len() >= 8 && u32_le_at(buf, 4) > MAX_PAYLOAD {
        IpcStep { handshook, action: IpcActionModel::Close, event: None }
    } else {
        match decode_spec(buf) {
            Err(_) => IpcStep { handshook, action: IpcActionModel::Close, event: None },
            Ok((op, body)) => if !handshook {
                if op == IpcOp::Handshake {
                    IpcStep {
                        handshook: true,
                        action: IpcActionModel::Send(json_frame(IpcOp::Frame, ready_frame_json())),
                        event: None,
                    }
                } else {
                    IpcStep { handshook, action: IpcActionModel::Close, event: None }
                }
            } else {
                match op {
                    IpcOp::Ping => IpcStep {
                        handshook,
                        action: IpcActionModel::Send(
                            json_frame(IpcOp::Pong, JsonModel::Obj(Map::empty())),
                        ),
                        event: None,
                    },
                    IpcOp::Frame => IpcStep {
                        handshook,
                        action: IpcActionModel::Send(
                            json_frame(IpcOp::Frame, dispatch_spec(body, now_ms).reply),
                        ),
                        event: outcome_event(dispatch_spec(body, now_ms), socket_id),
                    },
                    IpcOp::Close => IpcStep { handshook, action: IpcActionModel::Close, event: None },
                    _ => IpcStep { handshook, action: IpcActionModel::Nothing, event: None },
                }
            },
        }
    }
}

/// A step was taken: the action is the step's, the connection is in the
/// step's state, and the bus has the step's event behind what it had.
pub open spec fn step_taken(
    step: IpcStep,
    action: IpcActionModel,
    handshook: bool,
    queues_before: Seq<Option<Seq<EventModel>>>,
    counters_before: Metrics,
    queues_after: Seq<Option<Seq<EventModel>>>,
    counters_after: Metrics,
) -> bool {
    &&& action == step.action
    &&& handshook == step.handshook
    &&& queues_after == published_opt(queues_before, step.event)
    &&& counters_after == counted_opt(counters_before, step.event)
}

/// The length that the header at the start of `buf` declares for the body.
pub fn declared_length(buf: &[u8]) -> (r: Option<u32>)
    ensures
        r == (if buf@.len() >= 8 {
            Some(u32_le_at(buf@, 4))
        } else {
            None
        }),
{
    if buf.len() < 8 {
        return None;
    }
    let b0: u32 = buf[4] as u32;
    let b1: u32 = buf[5] as u32;
    let b2: u32 = buf[6] as u32;
    let b3: u32 = buf[7] as u32;
    Some(b0 + 256 * b1 + 65536 * b2 + 16777216 * b3)
}

impl Connection {
    /// A connection with the given id that has not seen a handshake yet.
    pub fn with_id(socket_id: String, transport: Transport, encoding: Encoding) -> (r: Connection)
        ensures
            r.socket_id == socket_id,
            !r.handshook,
            r.transport == transport,
            r.encoding == encoding,
    {
        Connection { socket_id, handshook: false, transport, encoding }
    }

    /// Accepts a connection: gives it a fresh id and counts it as active.
    pub fn open(transport: Transport, encoding: Encoding, bus: &mut EventBus) -> (r: Connection)
        ensures
            r.socket_id@.len() == SOCKET_ID_LEN,
            !r.handshook,
            r.transport == transport,
            r.encoding == encoding,
            final(bus).queues() == old(bus).queues(),
            final(bus).counters() == (Metrics {
                active_connections: old(bus).counters().active_connections.wrapping_add(1),
                ..old(bus).counters()
            }),
    {
        bus.connection_opened();
        Connection::with_id(fresh_socket_id(), transport, encoding)
    }

    /// Handles one frame of the stream transport at the time `now_ms`.
    pub fn on_ipc_frame_at(&mut self, buf: &[u8], bus: &mut EventBus, now_ms: u64) -> (r: IpcAction)
        ensures
            r@ == ipc_step(old(self).socket_id@, old(self).handshook, buf@, now_ms).action,
            final(self).handshook == ipc_step(
                old(self).socket_id@,
                old(self).handshook,
                buf@,
                now_ms,
            ).handshook,
            final(self).socket_id == old(self).socket_id,
            final(self).transport == old(self).transport,
            final(self).encoding == old(self).encoding,
            final(bus).queues() == published_opt(
                old(bus).queues(),
                ipc_step(old(self).socket_id@, old(self).handshook, buf@, now_ms).event,
            ),
            final(bus).counters() == counted_opt(
                old(bus).counters(),
                ipc_step(old(self).socket_id@, old(self).handshook, buf@, now_ms).event,
            ),
    {
        match declared_length(buf) {
            Some(len) => if len as u64 > MAX_PAYLOAD as u64 {
                return IpcAction::Close;
            },
            None => {},
        }
        let frame = match decode_frame(buf) {
            Ok(f) => f,
            Err(_) => {
                return IpcAction::Close;
            },
        };
        if !self.handshook {
            if frame.op == IpcOp::Handshake {
                self.handshook = true;
                IpcAction::Send(encode_frame(IpcOp::Frame, &ready_frame().to_json()))
            } else {
                IpcAction::Close
            }
        } else {
            match frame.op {
                IpcOp::Ping => IpcAction::Send(encode_frame(IpcOp::Pong, &Json::empty_object())),
                IpcOp::Frame => {
                    let reply = handle_incoming_value_at(
                        &frame.body,
                        bus,
                        self.socket_id.as_str(),
                        now_ms,
                    );
                    IpcAction::Send(encode_frame(IpcOp::Frame, &reply))
                },
                IpcOp::Close => IpcAction::Close,
                _ => IpcAction::Nothing,
            }
        }
    }

    /// Handles one frame of the stream transport at the current time.
    pub fn on_ipc_frame(&mut self, buf: &[u8], bus: &mut EventBus) -> (r: IpcAction)
        ensures
            final(self).socket_id == old(self).socket_id,
            final(self).transport == old(self).transport,
            final(self).encoding == old(self).encoding,
            exists|now_ms: u64|
                step_taken(
                    #[trigger] ipc_step(old(self).socket_id@, old(self).handshook, buf@, now_ms),
                    r@,
                    final(self).handshook,
                    old(bus).queues(),
                    old(bus).counters(),
                    final(bus).queues(),
                    final(bus).counters(),
                ),
    {
        let now_ms = crate::activity::current_millis();
        let r = self.on_ipc_frame_at(buf, bus, now_ms);
        assert(step_taken(
            ipc_step(old(self).socket_id@, old(self).handshook, buf@, now_ms),
            r@,
            self.handshook,
            old(bus).queues(),
            old(bus).counters(),
            bus.queues(),
            bus.counters(),
        ));
        r
    }

    /// Ends the connection: tells every subscriber that its activity is
    /// cleared, and counts it as no longer active.
    pub fn finish(self, bus: &mut EventBus)
        ensures
            final(bus).queues() == published(
                old(bus).queues(),
                EventModel::Clear { socket_id: self.socket_id@ },
            ),
            final(bus).counters() == (Metrics {
                active_connections: old(bus).counters().active_connections.wrapping_sub(1),
                ..old(bus).counters()
            }),
    {
        bus.publish(EventKind::Clear { socket_id: self.socket_id });
        bus.connection_closed();
    }
}

/// `Uuid::new_v4` written out by `to_string`: a random id in the hyphenated
/// form, which has 36 characters.
#[verifier::external_body]
fn fresh_socket_id() -> (r: String)
    ensures
        r@.len() == SOCKET_ID_LEN,
{
    uuid::Uuid::new_v4().to_string()
}


// ---------------------------------------------------------------------------
// Whole sessions
// ---------------------------------------------------------------------------

/// The events that a connection puts on the bus while it handles the given
/// frames, each with the time at which it is handled, one after another. A
/// frame that closes the connection is the last one handled.
pub open spec fn ipc_run(socket_id: Seq<char>, handshook: bool, frames: Seq<(Seq<u8>, u64)>) -> Seq<
    EventModel,
>
    decreases frames.len(),
{
    if frames.len() == 0 {
        Seq::empty()
    } else {
        let step = ipc_step(socket_id, handshook, frames[0].0, frames[0].1);
        let first = match step.event {
            Some(e) => seq![e],
            None => Seq::empty(),
        };
        if step.action is Close {
            first
        } else {
            first + ipc_run(socket_id, step.handshook, frames.drop_first())
        }
    }
}

/// What a connection writes to its peer while it handles the given frames,
/// each with the time at which it is handled, one after another: the bytes
/// of each answer, in order. A frame that closes the connection is the last
/// one handled.
pub open spec fn ipc_replies(socket_id: Seq<char>, handshook: bool, frames: Seq<(Seq<u8>, u64)>) -> Seq<
    Seq<u8>,
>
    decreases frames.len(),
{
    if frames.len() == 0 {
        Seq::empty()
    } else {
        let step = ipc_step(socket_id, handshook, frames[0].0, frames[0].1);
        match step.action {
            IpcActionModel::Send(bytes) => seq![bytes] + ipc_replies(
                socket_id,
                step.handshook,
                frames.drop_first(),
            ),
            IpcActionModel::Nothing => ipc_replies(socket_id, step.handshook, frames.drop_first()),
            IpcActionModel::Close => Seq::empty(),
        }
    }
}

/// The bytes of a list of buffers, one by one.
pub open spec fn buffers_model(buffers: Seq<Vec<u8>>) -> Seq<Seq<u8>> {
    Seq::new(buffers.len(), |i: int| buffers[i]@)
}

/// Everything that a connection puts on the bus from its first frame to its
/// end: what its frames lead to, then the clear that ends it.
pub open spec fn ipc_session(socket_id: Seq<char>, frames: Seq<(Seq<u8>, u64)>) -> Seq<EventModel> {
    ipc_run(socket_id, false, frames).push(EventModel::Clear { socket_id })
}

/// While it lives, a connection publishes nothing but updates of its own activity.
pub proof fn lemma_run_publishes_own_updates(
    socket_id: Seq<char>,
    handshook: bool,
    frames: Seq<(Seq<u8>, u64)>,
)
    ensures
        forall|i: int|
            0 <= i < ipc_run(socket_id, handshook, frames).len() ==> (#[trigger] ipc_run(
                socket_id,
                handshook,
                frames,
            )[i]) is ActivityUpdate && ipc_run(socket_id, handshook, frames)[i]->ActivityUpdate_socket_id
                == socket_id,
    decreases frames.len(),
{
    if frames.len() > 0 {
        let step = ipc_step(socket_id, handshook, frames[0].0, frames[0].1);
        lemma_run_publishes_own_updates(socket_id, step.handshook, frames.drop_first());
    }
}

/// Whatever a connection was sent, the bus gets exactly one clear for it, and
/// gets it last: everything before is an update of the connection's own
/// activity.
pub proof fn lemma_session_ends_with_one_clear(socket_id: Seq<char>, frames: Seq<(Seq<u8>, u64)>)
    ensures
        ipc_session(socket_id, frames).len() >= 1,
        ipc_session(socket_id, frames).last() == (EventModel::Clear { socket_id }),
        forall|i: int|
            0 <= i < ipc_session(socket_id, frames).len() - 1 ==> (#[trigger] ipc_session(
                socket_id,
                frames,
            )[i]) is ActivityUpdate && ipc_session(socket_id, frames)[i]->ActivityUpdate_socket_id
                == socket_id,
{
    lemma_run_publishes_own_updates(socket_id, false, frames);
    let run = ipc_run(socket_id, false, frames);
    assert forall|i: int| 0 <= i < ipc_session(socket_id, frames).len() - 1 implies (
    #[trigger] ipc_session(socket_id, frames)[i]) is ActivityUpdate && ipc_session(
        socket_id,
        frames,
    )[i]->ActivityUpdate_socket_id == socket_id by {
        assert(ipc_session(socket_id, frames)[i] == run[i]);
    }
}

/// A connection whose first frame is no handshake publishes nothing but the
/// clear that ends it.
pub proof fn lemma_no_handshake_no_update(socket_id: Seq<char>, frames: Seq<(Seq<u8>, u64)>)
    requires
        frames.len() > 0,
        !(decode_spec(frames[0].0) matches Ok((IpcOp::Handshake, _))),
    ensures
        ipc_session(socket_id, frames) == seq![EventModel::Clear { socket_id }],
{
    let step = ipc_step(socket_id, false, frames[0].0, frames[0].1);
    assert(step.action is Close);
    assert(step.event is None);
    assert(ipc_run(socket_id, false, frames) =~= Seq::empty());
    assert(ipc_session(socket_id, frames) =~= seq![EventModel::Clear { socket_id }]);
}

/// The frames with the time at which each is handled.
pub open spec fn timed(frames: Seq<Vec<u8>>, now_ms: u64) -> Seq<(Seq<u8>, u64)> {
    Seq::new(frames.len(), |i: int| (frames[i]@, now_ms))
}

impl Connection {
    /// Serves a connection from frames that were received already, all at the
    /// time `now_ms`: handles them in order up to the first that closes the
    /// connection, then ends the connection. Gives what was to be written to
    /// the peer, frame by frame.
    pub fn serve_ipc_frames_at(self, frames: &Vec<Vec<u8>>, bus: &mut EventBus, now_ms: u64) -> (out:
        Vec<Vec<u8>>)
        requires
            !self.handshook,
        ensures
            buffers_model(out@) == ipc_replies(self.socket_id@, false, timed(frames@, now_ms)),
            final(bus).queues().len() == old(bus).queues().len(),
            forall|i: int|
                0 <= i < old(bus).queues().len() ==> #[trigger] final(bus).queues()[i] == extended(
                    old(bus).queues()[i],
                    ipc_session(self.socket_id@, timed(frames@, now_ms)),
                ),
    {
        let mut conn = self;
        let mut out: Vec<Vec<u8>> = Vec::new();
        let mut i: usize = 0;
        let ghost id = self.socket_id@;
        let ghost all = timed(frames@, now_ms);
        let ghost mut done: Seq<EventModel> = Seq::empty();
        let ghost mut sent: Seq<Seq<u8>> = Seq::empty();
        proof {
            assert(all.skip(0) =~= all);
            assert(buffers_model(out@) =~= sent);
            assert(sent + ipc_replies(id, false, all) =~= ipc_replies(id, false, all));
            lemma_published_seq(old(bus).queues(), done);
            assert(bus.queues() =~= published_seq(old(bus).queues(), done));
        }
        let mut closed = false;
        while i < frames.len() && !closed
            invariant
                i <= frames.len(),
                conn.socket_id@ == id,
                all == timed(frames@, now_ms),
                bus.queues() == published_seq(old(bus).queues(), done),
                !closed ==> ipc_run(id, false, all) == done + ipc_run(
                    id,
                    conn.handshook,
                    all.skip(i as int),
                ),
                closed ==> ipc_run(id, false, all) == done,
                buffers_model(out@) == sent,
                !closed ==> ipc_replies(id, false, all) == sent + ipc_replies(
                    id,
                    conn.handshook,
                    all.skip(i as int),
                ),
                closed ==> ipc_replies(id, false, all) == sent,
            decreases frames.len() - i, if closed { 0int } else { 1int },
        {
            let ghost before = bus.queues();
            let ghost step = ipc_step(id, conn.handshook, frames@[i as int]@, now_ms);
            proof {
                assert(all.skip(i as int)[0] == (frames@[i as int]@, now_ms));
                assert(all.skip(i as int).drop_first() =~= all.skip(i + 1));
            }
            let action = conn.on_ipc_frame_at(frames[i].as_slice(), bus, now_ms);
            proof {
                let first = match step.event {
                    Some(e) => seq![e],
                    None => Seq::empty(),
                };
                lemma_published_extend(old(bus).queues(), done, step.event);
                if step.action is Close {
                    assert(ipc_run(id, false, all) == done + first);
                } else {
                    assert(done + (first + ipc_run(id, step.handshook, all.skip(i + 1))) =~= (done
                        + first) + ipc_run(id, step.handshook, all.skip(i + 1)));
                }
                done = done + first;
                match step.action {
                    IpcActionModel::Send(bytes) => {
                        assert(sent + (seq![bytes] + ipc_replies(
                            id,
                            step.handshook,
                            all.skip(i + 1),
                        )) =~= sent.push(bytes) + ipc_replies(
                            id,
                            step.handshook,
                            all.skip(i + 1),
                        ));
                        sent = sent.push(bytes);
                    },
                    IpcActionModel::Nothing => {},
                    IpcActionModel::Close => {
                        assert(sent + Seq::<Seq<u8>>::empty() =~= sent);
                    },
                }
            }
            match action {
                IpcAction::Send(bytes) => {
                    let ghost before_out = out@;
                    out.push(bytes);
                    assert(buffers_model(out@) =~= buffers_model(before_out).push(bytes@));
                },
                IpcAction::Nothing => {},
                IpcAction::Close => {
                    closed = true;
                },
            }
            i += 1;
        }
        proof {
            if !closed {
                assert(all.skip(i as int) =~= Seq::empty());
                assert(done + Seq::<EventModel>::empty() =~= done);
                assert(sent + Seq::<Seq<u8>>::empty() =~= sent);
            }
            lemma_published_extend(
                old(bus).queues(),
                done,
                Some(EventModel::Clear { socket_id: id }),
            );
            lemma_published_seq(old(bus).queues(), ipc_session(id, all));
            assert(done + seq![EventModel::Clear { socket_id: id }] =~= ipc_session(id, all));
        }
        conn.finish(bus);
        out
    }
}

} // verus!
