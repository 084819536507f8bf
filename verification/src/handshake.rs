//! The rendezvous handshake: the one-time, four-step address exchange by
//! which two independently launched processes — the editor, which spawns
//! the runtime and passes it one endpoint name out of band, and the
//! runtime — end up holding the two halves of two one-directional
//! channels, oriented correctly, with no pre-shared address.
//!
//! Channels and one-shot endpoints are identified here by plain numbers;
//! the host maps them to its real transport.  Failure at any step is
//! fatal to startup: there is no partial-handshake recovery.

use vstd::prelude::*;
use crate::channel::received_in_full;

verus! {

/// The sending half of one channel.
#[derive(Debug, Clone, Copy, PartialEq, Eq, Structural)]
pub struct SenderEnd {
    pub channel: u64,
}

/// The receiving half of one channel.
#[derive(Debug, Clone, Copy, PartialEq, Eq, Structural)]
pub struct ReceiverEnd {
    pub channel: u64,
}

/// The step-two payload: the sending half of the editor→runtime channel,
/// and the name of the runtime's own fresh one-shot endpoint, on which
/// it awaits the reply.
#[derive(Debug, Clone, Copy, PartialEq, Eq, Structural)]
pub struct RendezvousReply {
    pub to_runtime: SenderEnd,
    pub reply_endpoint: u64,
}

/// What the editor holds when the handshake is done.
#[derive(Debug, Clone, Copy, PartialEq, Eq, Structural)]
pub struct EditorLinks {
    pub sender: SenderEnd,
    pub receiver: ReceiverEnd,
}

/// What the runtime holds when the handshake is done.
#[derive(Debug, Clone, Copy, PartialEq, Eq, Structural)]
pub struct RuntimeLinks {
    pub sender: SenderEnd,
    pub receiver: ReceiverEnd,
}

/// The runtime's side between steps two and four.
#[derive(Debug, Clone, Copy, PartialEq, Eq, Structural)]
pub struct RuntimePending {
    pub receiver: ReceiverEnd,
    pub reply_endpoint: u64,
}

/// Why a handshake step failed.  Any failure is an unrecoverable startup
/// error for the process that sees it; the peer detects it later through
/// receive failure.
#[derive(Debug, Clone, Copy, PartialEq, Eq, Structural)]
pub enum HandshakeError {
    NoReply,
}

/// Step two, runtime side, as a function of the fresh channel and
/// endpoint the host allotted.
pub open spec fn spec_runtime_respond(channel_one: u64, reply_endpoint: u64) -> (
    RuntimePending,
    RendezvousReply,
) {
    (
        RuntimePending { receiver: ReceiverEnd { channel: channel_one }, reply_endpoint },
        RendezvousReply { to_runtime: SenderEnd { channel: channel_one }, reply_endpoint },
    )
}

/// Step three, editor side: what it holds, what it must send, and where
/// to — or the deterministic failure when step two never arrived.
pub open spec fn spec_editor_complete(
    reply: Option<RendezvousReply>,
    channel_two: u64,
) -> Result<(EditorLinks, SenderEnd, u64), HandshakeError> {
    match reply {
        Some(rp) => Ok(
            (
                EditorLinks {
                    sender: rp.to_runtime,
                    receiver: ReceiverEnd { channel: channel_two },
                },
                SenderEnd { channel: channel_two },
                rp.reply_endpoint,
            ),
        ),
        None => Err(HandshakeError::NoReply),
    }
}

/// Step four, runtime side.
pub open spec fn spec_runtime_complete(
    pending: RuntimePending,
    reply: Option<SenderEnd>,
) -> Result<RuntimeLinks, HandshakeError> {
    match reply {
        Some(s) => Ok(RuntimeLinks { sender: s, receiver: pending.receiver }),
        None => Err(HandshakeError::NoReply),
    }
}

/// Step two, runtime side: the runtime has created the editor→runtime
/// channel (`channel_one`) and a fresh one-shot endpoint
/// (`reply_endpoint`).  It keeps the receiving half and hands back the
/// payload to send to the editor's rendezvous endpoint.
pub fn runtime_respond(channel_one: u64, reply_endpoint: u64) -> (r: (
    RuntimePending,
    RendezvousReply,
))
    ensures
        r == spec_runtime_respond(channel_one, reply_endpoint),
{
    (
        RuntimePending { receiver: ReceiverEnd { channel: channel_one }, reply_endpoint },
        RendezvousReply { to_runtime: SenderEnd { channel: channel_one }, reply_endpoint },
    )
}

/// Step three, editor side: `reply` is what the bounded wait on the
/// rendezvous endpoint produced — `None` when it timed out, which fails
/// deterministically rather than blocking forever.  On success the
/// editor has both halves oriented correctly and must still deliver the
/// returned sending half to the returned endpoint.
pub fn editor_complete(reply: Option<RendezvousReply>, channel_two: u64) -> (r: Result<
    (EditorLinks, SenderEnd, u64),
    HandshakeError,
>)
    ensures
        r == spec_editor_complete(reply, channel_two),
{
    match reply {
        Some(rp) => Ok(
            (
                EditorLinks {
                    sender: rp.to_runtime,
                    receiver: ReceiverEnd { channel: channel_two },
                },
                SenderEnd { channel: channel_two },
                rp.reply_endpoint,
            ),
        ),
        None => Err(HandshakeError::NoReply),
    }
}

/// Step four, runtime side: `reply` is what the wait on the runtime's
/// own one-shot endpoint produced.
pub fn runtime_complete(pending: RuntimePending, reply: Option<SenderEnd>) -> (r: Result<
    RuntimeLinks,
    HandshakeError,
>)
    ensures
        r == spec_runtime_complete(pending, reply),
{
    match reply {
        Some(s) => Ok(RuntimeLinks { sender: s, receiver: pending.receiver }),
        None => Err(HandshakeError::NoReply),
    }
}

/// HANDSHAKE SYMMETRY: whatever channels and endpoint names the hosts
/// allot, after the four steps succeed the editor's sending half and the
/// runtime's receiving half name one and the same channel, and the
/// runtime's sending half and the editor's receiving half name the
/// other; the reply travelled to exactly the endpoint the runtime had
/// opened.
pub proof fn lemma_handshake_symmetry(channel_one: u64, channel_two: u64, reply_endpoint: u64)
    ensures
        ({
            let (pending, reply) = spec_runtime_respond(channel_one, reply_endpoint);
            spec_editor_complete(Some(reply), channel_two) matches Ok(step3)
                && spec_runtime_complete(pending, Some(step3.1)) matches Ok(runtime_links)
                && step3.0.sender.channel == runtime_links.receiver.channel
                && step3.0.receiver.channel == runtime_links.sender.channel && step3.2
                == reply_endpoint
        }),
{
}

/// No loss for the first message after the handshake: both channels
/// start empty, so the first message queued on a direction is the first
/// — and only — message its receiver drains.
pub proof fn lemma_first_message_delivered<T>(m: T)
    ensures
        received_in_full(Seq::<T>::empty().push(m)) == seq![m],
{
    let q = Seq::<T>::empty().push(m);
    assert(q.len() == 1 && q.first() == m);
    assert(q.drop_first() =~= Seq::<T>::empty());
    assert(received_in_full(Seq::<T>::empty()) =~= Seq::<T>::empty());
    assert(received_in_full(q) == seq![q.first()] + received_in_full(q.drop_first()));
    assert(seq![m] + Seq::<T>::empty() =~= seq![m]);
}

/// A handshake whose second step never arrives fails at once, with the
/// one error the protocol has for it: the editor's bounded wait maps a
/// timeout to `None`, and completion on `None` is exactly `NoReply`.
pub proof fn lemma_no_reply_is_deterministic(channel_two: u64)
    ensures
        spec_editor_complete(None, channel_two) == Err::<
            (EditorLinks, SenderEnd, u64),
            HandshakeError,
        >(HandshakeError::NoReply),
{
}

} // verus!
