//! Chat among the viewers of a channel. On the wire a message is its length in
//! bytes, as two bytes, and then its bytes.

use std::string::FromUtf8Error;
use vstd::prelude::*;
use vstd::slice::slice_to_vec;
use vstd::utf8::{
    decode_utf8, decode_utf8_encode_utf8, encode_utf8, encode_utf8_decode_utf8,
    encode_utf8_valid_utf8, is_ascii_chars_encode_utf8, valid_utf8,
};

use crate::buffer;
use crate::proto;
use crate::proto::{from_le16, le16};
use crate::text;
use crate::text::{lowered, trimmed};

verus! {

/// The length that goes before a message of so many bytes. It is sent modulo
/// 65536.
pub open spec fn length_field(bytes: nat) -> u16 {
    (bytes % 65536) as u16
}

/// A message on the wire.
pub open spec fn frame(message: Seq<char>) -> Seq<u8> {
    le16(length_field(encode_utf8(message).len())) + encode_utf8(message)
}

/// A message on the wire.
pub fn chat_frame(message: &str) -> (bytes: Vec<u8>)
    requires
        encode_utf8(message@).len() + 2 <= isize::MAX,
    ensures
        bytes@ == frame(message@),
{
    let body = message.as_bytes();
    let length = (body.len() % 65536) as u16;
    let mut buf = buffer::with_capacity(2 + length as usize);
    buffer::put_u16_le(&mut buf, length);
    buffer::extend_from_slice(&mut buf, body);
    assert(buffer::contents(buf) =~= frame(message@));
    buffer::to_vec(&buf)
}

/// What a viewer says on entering.
pub open spec fn entrance(username: Seq<char>) -> Seq<char> {
    username + " "@ + "has entered the chat!"@
}

/// What a viewer's line becomes.
pub open spec fn said(username: Seq<char>, line: Seq<char>) -> Seq<char> {
    username + ": "@ + trimmed(line)
}

/// Whether a line means to leave the chat: the letter q in either case, with
/// or without white space around it.
pub open spec fn is_quit(line: Seq<char>) -> bool {
    lowered(trimmed(line)) == "q"@
}

/// The message with which a viewer enters the chat, on the wire.
pub fn entrance_frame(username: &str) -> (bytes: Vec<u8>)
    requires
        encode_utf8(entrance(username@)).len() + 2 <= isize::MAX,
    ensures
        bytes@ == frame(entrance(username@)),
{
    let mut message = username.to_string();
    message.append(" ");
    message.append("has entered the chat!");
    chat_frame(message.as_str())
}

/// What a viewer does with a line that was typed in the chat.
#[derive(Debug, PartialEq, Eq)]
pub enum Typed {
    /// Leave the chat.
    Quit,
    /// Send these bytes.
    Send(Vec<u8>),
}

/// What a line that was typed in the chat does: it leaves the chat, or it is sent
/// under the viewer's name.
pub open spec fn types(username: Seq<char>, line: Seq<char>, typed: Typed) -> bool {
    match typed {
        Typed::Quit => is_quit(line),
        Typed::Send(bytes) => !is_quit(line) && bytes@ == frame(said(username, line)),
    }
}

/// Decides what a line that was typed in the chat does.
pub fn send_chat_messages(username: &str, line: &str) -> (typed: Typed)
    requires
        !is_quit(line@) ==> encode_utf8(said(username@, line@)).len() + 2 <= isize::MAX,
    ensures
        types(username@, line@, typed),
{
    let words = text::trim(line);
    let mut message = username.to_string();
    message.append(": ");
    message.append(words);
    if text::is_word(words, "q") {
        Typed::Quit
    } else {
        Typed::Send(chat_frame(message.as_str()))
    }
}

/// What the server waits for while it relays the chat of one viewer.
#[derive(Debug, Clone, Copy, PartialEq, Eq, Structural)]
pub enum RelayState {
    /// The length of a message from the viewer, or a message for the viewer.
    Ready,
    /// The bytes of a message from the viewer.
    Body { length: u16 },
    /// A message for the viewer to be written.
    Sending,
    /// Nothing: the relay is over.
    Over,
}

/// What happened in the chat of one viewer.
#[derive(Debug)]
pub enum RelayEvent {
    /// The length of a message came from the viewer.
    Header([u8; 2]),
    /// The length of a message could not be read.
    HeaderLost,
    /// The bytes of a message came from the viewer.
    Body(Vec<u8>),
    /// The bytes of a message could not be read.
    BodyLost,
    /// A message was broadcast on the channel.
    Message(String),
    /// Messages on the channel were missed.
    Missed(u64),
    /// The channel is closed.
    ChannelClosed,
    /// A message was written to the viewer.
    Sent,
    /// A message could not be written to the viewer.
    SendLost,
}

/// What the relay does next.
#[derive(Debug)]
pub enum RelayAction {
    /// Read so many bytes of a message.
    ReadBody(u16),
    /// Broadcast the message on the channel.
    Broadcast(String),
    /// Drop a message that is not text.
    Skip(FromUtf8Error),
    /// Write the length, then the bytes, to the viewer.
    Send { header: Vec<u8>, body: Vec<u8> },
    /// Wait for what comes next.
    Continue,
    /// Stop relaying.
    Stop,
}

/// Whether an event is one that the relay waits for.
pub open spec fn relay_awaits(state: RelayState, event: RelayEvent) -> bool {
    match state {
        RelayState::Ready => {
            ||| event is Header
            ||| event is HeaderLost
            ||| event is Message
            ||| event is Missed
            ||| event is ChannelClosed
        },
        RelayState::Body { .. } => event is Body || event is BodyLost,
        RelayState::Sending => event is Sent || event is SendLost,
        RelayState::Over => false,
    }
}

/// How the relay goes on after an event.
pub open spec fn relays(event: RelayEvent, next: RelayState, action: RelayAction) -> bool {
    match event {
        RelayEvent::Header(header) => {
            let length = from_le16(header@[0], header@[1]);
            next == RelayState::Body { length } && action == RelayAction::ReadBody(length)
        },
        RelayEvent::Body(bytes) => {
            &&& next is Ready
            &&& if valid_utf8(bytes@) {
                action matches RelayAction::Broadcast(message) && message@ == decode_utf8(bytes@)
            } else {
                action is Skip
            }
        },
        RelayEvent::Message(message) => {
            &&& next is Sending
            &&& action matches RelayAction::Send { header, body }
            &&& header@ == le16(length_field(encode_utf8(message@).len()))
            &&& body@ == encode_utf8(message@)
        },
        RelayEvent::Missed(_) => next is Ready && action is Continue,
        RelayEvent::Sent => next is Ready && action is Continue,
        RelayEvent::HeaderLost => next is Over && action is Stop,
        RelayEvent::BodyLost => next is Over && action is Stop,
        RelayEvent::ChannelClosed => next is Over && action is Stop,
        RelayEvent::SendLost => next is Over && action is Stop,
    }
}

/// Decides how the relay of one viewer's chat goes on after an event.
pub fn handle_chat_messages(state: RelayState, event: RelayEvent) -> (res: (
    RelayState,
    RelayAction,
))
    requires
        relay_awaits(state, event),
    ensures
        relays(event, res.0, res.1),
{
    match event {
        RelayEvent::Header(header) => {
            let length = proto::read_u16(header[0], header[1]);
            (RelayState::Body { length }, RelayAction::ReadBody(length))
        },
        RelayEvent::Body(bytes) => match String::from_utf8(bytes) {
            Ok(message) => (RelayState::Ready, RelayAction::Broadcast(message)),
            Err(error) => (RelayState::Ready, RelayAction::Skip(error)),
        },
        RelayEvent::Message(message) => {
            let bytes = message.as_str().as_bytes();
            let length = (bytes.len() % 65536) as u16;
            let mut header: Vec<u8> = Vec::new();
            header.push((length % 256) as u8);
            header.push((length / 256) as u8);
            assert(header@ =~= le16(length));
            (RelayState::Sending, RelayAction::Send { header, body: slice_to_vec(bytes) })
        },
        RelayEvent::Missed(_) => (RelayState::Ready, RelayAction::Continue),
        RelayEvent::Sent => (RelayState::Ready, RelayAction::Continue),
        RelayEvent::HeaderLost => (RelayState::Over, RelayAction::Stop),
        RelayEvent::BodyLost => (RelayState::Over, RelayAction::Stop),
        RelayEvent::ChannelClosed => (RelayState::Over, RelayAction::Stop),
        RelayEvent::SendLost => (RelayState::Over, RelayAction::Stop),
    }
}

/// What a viewer waits for while chat messages come in.
#[derive(Debug, Clone, Copy, PartialEq, Eq, Structural)]
pub enum ReceiverState {
    /// The length of a message.
    Header,
    /// The bytes of a message.
    Body { length: u16 },
    /// Nothing: no more messages are received.
    Over,
}

/// What came in from the server.
#[derive(Debug)]
pub enum ReceiverEvent {
    /// The length of a message.
    Header([u8; 2]),
    /// The bytes of a message.
    Body(Vec<u8>),
    /// Nothing: the stream could not be read.
    Lost,
}

/// What the viewer does next.
#[derive(Debug)]
pub enum ReceiverAction {
    /// Read so many bytes of a message.
    ReadBody(u16),
    /// Show the message.
    Show(String),
    /// Fail: the message is not text.
    Fail(FromUtf8Error),
    /// Stop receiving.
    Stop,
}

/// Whether an event is one that the viewer waits for.
pub open spec fn receiver_awaits(state: ReceiverState, event: ReceiverEvent) -> bool {
    match state {
        ReceiverState::Header => event is Header || event is Lost,
        ReceiverState::Body { .. } => event is Body || event is Lost,
        ReceiverState::Over => false,
    }
}

/// How the viewer goes on after an event.
pub open spec fn receives(
    event: ReceiverEvent,
    next: ReceiverState,
    action: ReceiverAction,
) -> bool {
    match event {
        ReceiverEvent::Header(header) => {
            let length = from_le16(header@[0], header@[1]);
            next == ReceiverState::Body { length } && action == ReceiverAction::ReadBody(length)
        },
        ReceiverEvent::Body(bytes) => if valid_utf8(bytes@) {
            &&& next is Header
            &&& action matches ReceiverAction::Show(message)
            &&& message@ == decode_utf8(bytes@)
        } else {
            next is Over && action is Fail
        },
        ReceiverEvent::Lost => next is Over && action is Stop,
    }
}

/// Decides how a viewer that receives chat messages goes on after an event.
pub fn receive_chat_messages(state: ReceiverState, event: ReceiverEvent) -> (res: (
    ReceiverState,
    ReceiverAction,
))
    requires
        receiver_awaits(state, event),
    ensures
        receives(event, res.0, res.1),
{
    match event {
        ReceiverEvent::Header(header) => {
            let length = proto::read_u16(header[0], header[1]);
            (ReceiverState::Body { length }, ReceiverAction::ReadBody(length))
        },
        ReceiverEvent::Body(bytes) => match String::from_utf8(bytes) {
            Ok(message) => (ReceiverState::Header, ReceiverAction::Show(message)),
            Err(error) => (ReceiverState::Over, ReceiverAction::Fail(error)),
        },
        ReceiverEvent::Lost => (ReceiverState::Over, ReceiverAction::Stop),
    }
}

proof fn lemma_frame(message: Seq<char>)
    requires
        encode_utf8(message).len() <= u16::MAX,
    ensures
        frame(message).len() == 2 + encode_utf8(message).len(),
        from_le16(frame(message)[0], frame(message)[1]) == encode_utf8(message).len(),
        frame(message).skip(2) == encode_utf8(message),
        valid_utf8(encode_utf8(message)),
        decode_utf8(encode_utf8(message)) == message,
{
    let bytes = encode_utf8(message);
    proto::law_le16_round_trip(length_field(bytes.len()), 0, 0);
    assert(frame(message).skip(2) =~= bytes);
    encode_utf8_valid_utf8(message);
    encode_utf8_decode_utf8(message);
}

/// A message of at most 65535 bytes that a viewer writes is broadcast by the
/// server unchanged, and the server then waits for the next one.
pub proof fn law_message_reaches_the_channel(
    message: Seq<char>,
    header: [u8; 2],
    body: Vec<u8>,
    reading: RelayState,
    read: RelayAction,
    next: RelayState,
    action: RelayAction,
)
    requires
        encode_utf8(message).len() <= u16::MAX,
        header@ == frame(message).take(2),
        relays(RelayEvent::Header(header), reading, read),
        body@ == frame(message).skip(2),
        relays(RelayEvent::Body(body), next, action),
    ensures
        read matches RelayAction::ReadBody(length) && length == body@.len(),
        reading matches RelayState::Body { length } && length == body@.len(),
        action matches RelayAction::Broadcast(text) && text@ == message,
        next is Ready,
{
    lemma_frame(message);
    assert(header@[0] == frame(message)[0] && header@[1] == frame(message)[1]);
}

/// What the server writes for a broadcast message is the message on the wire.
/// The viewer that reads it shows the message unchanged, if it has at most
/// 65535 bytes, and then waits for the next one.
pub proof fn law_broadcast_reaches_the_viewer(
    message: String,
    sending: RelayState,
    sent: RelayAction,
    header: [u8; 2],
    body: Vec<u8>,
    reading: ReceiverState,
    read: ReceiverAction,
    next: ReceiverState,
    action: ReceiverAction,
)
    requires
        encode_utf8(message@).len() <= u16::MAX,
        relays(RelayEvent::Message(message), sending, sent),
        sent matches RelayAction::Send { header: length, body: bytes } && header@ == length@
            && body@ == bytes@,
        receives(ReceiverEvent::Header(header), reading, read),
        receives(ReceiverEvent::Body(body), next, action),
    ensures
        header@ + body@ == frame(message@),
        read matches ReceiverAction::ReadBody(length) && length == body@.len(),
        action matches ReceiverAction::Show(text) && text@ == message@,
        next is Header,
{
    lemma_frame(message@);
    assert(header@ + body@ =~= frame(message@));
    assert(header@[0] == frame(message@)[0] && header@[1] == frame(message@)[1]);
}

/// What a viewer types is shown to each viewer whom the broadcast reaches, under
/// the name of the first: the bytes that are sent make the server broadcast the
/// words, and what it writes for that broadcast makes the other viewer show
/// them. Lines that leave the chat are left out, and messages of more than 65535
/// bytes.
pub proof fn law_typed_line_is_shown(
    username: Seq<char>,
    line: Seq<char>,
    typed: Typed,
    header: [u8; 2],
    body: Vec<u8>,
    relayed: (RelayState, RelayAction),
    broadcast: (RelayState, RelayAction),
    message: String,
    written: (RelayState, RelayAction),
    shown_header: [u8; 2],
    shown_body: Vec<u8>,
    read: (ReceiverState, ReceiverAction),
    shown: (ReceiverState, ReceiverAction),
)
    requires
        !is_quit(line),
        encode_utf8(said(username, line)).len() <= u16::MAX,
        types(username, line, typed),
        typed matches Typed::Send(bytes) ==> bytes@ == header@ + body@,
        relays(RelayEvent::Header(header), relayed.0, relayed.1),
        relays(RelayEvent::Body(body), broadcast.0, broadcast.1),
        broadcast.1 matches RelayAction::Broadcast(text) ==> message@ == text@,
        relays(RelayEvent::Message(message), written.0, written.1),
        written.1 matches RelayAction::Send { header: length, body: bytes } ==> shown_header@
            == length@ && shown_body@ == bytes@,
        receives(ReceiverEvent::Header(shown_header), read.0, read.1),
        receives(ReceiverEvent::Body(shown_body), shown.0, shown.1),
    ensures
        relayed.1 matches RelayAction::ReadBody(length) && length == body@.len(),
        read.1 matches ReceiverAction::ReadBody(length) && length == shown_body@.len(),
        shown.1 matches ReceiverAction::Show(text) && text@ == said(username, line),
{
    let words = said(username, line);
    assert(header@ =~= frame(words).take(2));
    assert(body@ =~= frame(words).skip(2));
    law_message_reaches_the_channel(
        words,
        header,
        body,
        relayed.0,
        relayed.1,
        broadcast.0,
        broadcast.1,
    );
    law_broadcast_reaches_the_viewer(
        message,
        written.0,
        written.1,
        shown_header,
        shown_body,
        read.0,
        read.1,
        shown.0,
        shown.1,
    );
}

/// The messages in a stream of bytes that ends with a whole message, each
/// being text.
pub open spec fn messages_in(stream: Seq<u8>) -> Option<Seq<Seq<char>>>
    decreases stream.len(),
{
    if stream.len() == 0 {
        Some(seq![])
    } else if stream.len() < 2 {
        None
    } else {
        let end = 2 + from_le16(stream[0], stream[1]);
        if end > stream.len() || !valid_utf8(stream.subrange(2, end)) {
            None
        } else {
            match messages_in(stream.skip(end)) {
                Some(rest) => Some(seq![decode_utf8(stream.subrange(2, end))] + rest),
                None => None,
            }
        }
    }
}

/// Messages on the wire, one after the other.
pub open spec fn frames(messages: Seq<Seq<char>>) -> Seq<u8>
    decreases messages.len(),
{
    if messages.len() == 0 {
        seq![]
    } else {
        frame(messages[0]) + frames(messages.drop_first())
    }
}

/// Any number of messages of at most 65535 bytes each, written one after the
/// other, are read back in the same order and unchanged.
pub proof fn law_stream_read_back(messages: Seq<Seq<char>>)
    requires
        forall|i: int|
            0 <= i < messages.len() ==> encode_utf8(#[trigger] messages[i]).len() <= u16::MAX,
    ensures
        messages_in(frames(messages)) == Some(messages),
    decreases messages.len(),
{
    if messages.len() > 0 {
        let first = messages[0];
        let rest = messages.drop_first();
        let stream = frames(messages);
        assert forall|i: int| 0 <= i < rest.len() implies encode_utf8(#[trigger] rest[i]).len()
            <= u16::MAX by {
            assert(rest[i] == messages[i + 1]);
        }
        law_stream_read_back(rest);
        lemma_frame(first);
        let end = frame(first).len() as int;
        assert(stream[0] == frame(first)[0] && stream[1] == frame(first)[1]);
        assert(stream.subrange(2, end) =~= frame(first).skip(2));
        assert(stream.skip(end) =~= frames(rest));
        assert(seq![first] + rest =~= messages);
    } else {
        assert(messages =~= seq![]);
    }
}

/// Bodies of messages on the wire, one after the other, each behind its length.
pub open spec fn wire(bodies: Seq<Seq<u8>>) -> Seq<u8>
    decreases bodies.len(),
{
    if bodies.len() == 0 {
        seq![]
    } else {
        wire(bodies.drop_last()) + le16(length_field(bodies.last().len())) + bodies.last()
    }
}

proof fn lemma_wire_front(bodies: Seq<Seq<u8>>)
    requires
        bodies.len() > 0,
    ensures
        wire(bodies) == le16(length_field(bodies[0].len())) + bodies[0] + wire(bodies.drop_first()),
    decreases bodies.len(),
{
    let rest = bodies.drop_first();
    if bodies.len() == 1 {
        assert(bodies.drop_last() =~= seq![]);
        assert(rest =~= seq![]);
        assert(wire(bodies) =~= le16(length_field(bodies[0].len())) + bodies[0] + wire(rest));
    } else {
        lemma_wire_front(bodies.drop_last());
        assert(bodies.drop_last().drop_first() =~= rest.drop_last());
        assert(wire(bodies) =~= le16(length_field(bodies[0].len())) + bodies[0] + wire(rest));
    }
}

/// The texts that some bodies of messages hold.
spec fn decoded(bodies: Seq<Seq<u8>>) -> Seq<Seq<char>> {
    bodies.map_values(|body: Seq<u8>| decode_utf8(body))
}

proof fn lemma_messages_in_wire(bodies: Seq<Seq<u8>>, messages: Seq<Seq<char>>)
    requires
        forall|i: int| 0 <= i < bodies.len() ==> (#[trigger] bodies[i]).len() <= u16::MAX,
        messages_in(wire(bodies)) == Some(messages),
    ensures
        forall|i: int| 0 <= i < bodies.len() ==> valid_utf8(#[trigger] bodies[i]),
        decoded(bodies) == messages,
    decreases bodies.len(),
{
    if bodies.len() == 0 {
        assert(decoded(bodies) =~= messages);
    } else {
        let rest = bodies.drop_first();
        let stream = wire(bodies);
        lemma_wire_front(bodies);
        proto::law_le16_round_trip(length_field(bodies[0].len()), 0, 0);
        let end = 2 + bodies[0].len() as int;
        assert(stream[0] == le16(length_field(bodies[0].len()))[0]);
        assert(stream[1] == le16(length_field(bodies[0].len()))[1]);
        assert(stream.subrange(2, end) =~= bodies[0]);
        assert(stream.skip(end) =~= wire(rest));
        let tail = messages_in(wire(rest))->Some_0;
        assert forall|i: int| 0 <= i < rest.len() implies (#[trigger] rest[i]).len() <= u16::MAX by {
            assert(rest[i] == bodies[i + 1]);
        }
        lemma_messages_in_wire(rest, tail);
        assert forall|i: int| 0 <= i < bodies.len() implies valid_utf8(#[trigger] bodies[i]) by {
            if i > 0 {
                assert(bodies[i] == rest[i - 1]);
            }
        }
        assert(decoded(bodies) =~= seq![decode_utf8(bodies[0])] + decoded(rest));
    }
}

/// A run of the relay from its beginning: each event is one that it waits for,
/// each body is as long as it asked for, and it goes on as it does.
pub open spec fn relay_run(
    states: Seq<RelayState>,
    events: Seq<RelayEvent>,
    actions: Seq<RelayAction>,
) -> bool {
    &&& states.len() == events.len() + 1
    &&& actions.len() == events.len()
    &&& states[0] is Ready
    &&& forall|i: int|
        0 <= i < events.len() ==> {
            &&& relay_awaits(states[i], #[trigger] events[i])
            &&& relays(events[i], states[i + 1], actions[i])
            &&& events[i] matches RelayEvent::Body(bytes) ==> states[i] == RelayState::Body {
                length: bytes@.len() as u16,
            } && bytes@.len() <= u16::MAX
        }
}

/// The bytes that came from the viewer.
pub open spec fn viewer_bytes(run: Seq<RelayEvent>) -> Seq<u8>
    decreases run.len(),
{
    if run.len() == 0 {
        seq![]
    } else {
        match run.last() {
            RelayEvent::Header(header) => viewer_bytes(run.drop_last()) + header@,
            RelayEvent::Body(body) => viewer_bytes(run.drop_last()) + body@,
            _ => viewer_bytes(run.drop_last()),
        }
    }
}

/// The messages that were broadcast.
pub open spec fn broadcasts(run: Seq<RelayAction>) -> Seq<Seq<char>>
    decreases run.len(),
{
    if run.len() == 0 {
        seq![]
    } else {
        match run.last() {
            RelayAction::Broadcast(message) => broadcasts(run.drop_last()).push(message@),
            _ => broadcasts(run.drop_last()),
        }
    }
}

/// The messages that came from the channel.
pub open spec fn channel_messages(run: Seq<RelayEvent>) -> Seq<Seq<char>>
    decreases run.len(),
{
    if run.len() == 0 {
        seq![]
    } else {
        match run.last() {
            RelayEvent::Message(message) => channel_messages(run.drop_last()).push(message@),
            _ => channel_messages(run.drop_last()),
        }
    }
}

/// The bytes that were written to the viewer.
pub open spec fn written_bytes(run: Seq<RelayAction>) -> Seq<u8>
    decreases run.len(),
{
    if run.len() == 0 {
        seq![]
    } else {
        match run.last() {
            RelayAction::Send { header, body } => written_bytes(run.drop_last()) + header@ + body@,
            _ => written_bytes(run.drop_last()),
        }
    }
}

/// The bodies of the messages that came from the viewer.
pub open spec fn relay_bodies(run: Seq<RelayEvent>) -> Seq<Seq<u8>>
    decreases run.len(),
{
    if run.len() == 0 {
        seq![]
    } else {
        match run.last() {
            RelayEvent::Body(body) => relay_bodies(run.drop_last()).push(body@),
            _ => relay_bodies(run.drop_last()),
        }
    }
}

proof fn lemma_shorter_relay_run(
    states: Seq<RelayState>,
    events: Seq<RelayEvent>,
    actions: Seq<RelayAction>,
)
    requires
        relay_run(states, events, actions),
        events.len() > 0,
    ensures
        relay_run(states.drop_last(), events.drop_last(), actions.drop_last()),
{
    let shorter = events.drop_last();
    assert forall|i: int| 0 <= i < shorter.len() implies {
        &&& relay_awaits(states.drop_last()[i], #[trigger] shorter[i])
        &&& relays(shorter[i], states.drop_last()[i + 1], actions.drop_last()[i])
        &&& shorter[i] matches RelayEvent::Body(bytes) ==> states.drop_last()[i]
            == RelayState::Body { length: bytes@.len() as u16 } && bytes@.len() <= u16::MAX
    } by {
        assert(shorter[i] == events[i]);
    }
}

/// The texts that those of some bodies hold that are text, in order.
pub open spec fn texts_among(bodies: Seq<Seq<u8>>) -> Seq<Seq<char>>
    decreases bodies.len(),
{
    if bodies.len() == 0 {
        seq![]
    } else if valid_utf8(bodies.last()) {
        texts_among(bodies.drop_last()).push(decode_utf8(bodies.last()))
    } else {
        texts_among(bodies.drop_last())
    }
}

/// Whether the body of no message is lost.
pub open spec fn loses_no_message(run: Seq<RelayEvent>) -> bool {
    forall|i: int| 0 <= i < run.len() ==> !(#[trigger] run[i] is BodyLost)
}

/// Whatever a viewer sends, the relay broadcasts the messages that are text, in
/// the same order and unchanged, and drops the others. The bodies are those that
/// the viewer sent, each behind its length; the length of one that is still to come
/// or was lost may stand behind them.
pub proof fn law_relay_broadcasts_all_texts(
    states: Seq<RelayState>,
    events: Seq<RelayEvent>,
    actions: Seq<RelayAction>,
)
    requires
        relay_run(states, events, actions),
    ensures
        broadcasts(actions) == texts_among(relay_bodies(events)),
        viewer_bytes(events) == wire(relay_bodies(events)) || exists|length: u16|
            viewer_bytes(events) == wire(relay_bodies(events)) + #[trigger] le16(length),
        forall|i: int|
            0 <= i < relay_bodies(events).len() ==> (#[trigger] relay_bodies(events)[i]).len()
                <= u16::MAX,
        loses_no_message(events) && !(states.last() is Body) ==> viewer_bytes(events) == wire(
            relay_bodies(events),
        ),
        states.last() is Ready || states.last() is Sending ==> viewer_bytes(events) == wire(
            relay_bodies(events),
        ),
        states.last() matches RelayState::Body { length } ==> viewer_bytes(events) == wire(
            relay_bodies(events),
        ) + le16(length),
    decreases events.len(),
{
    let bodies = relay_bodies(events);
    if events.len() > 0 {
        let last = events.len() - 1;
        let before = relay_bodies(events.drop_last());
        lemma_shorter_relay_run(states, events, actions);
        law_relay_broadcasts_all_texts(
            states.drop_last(),
            events.drop_last(),
            actions.drop_last(),
        );
        assert(relay_awaits(states[last], events[last]));
        assert(relays(events[last], states[last + 1], actions[last]));
        assert(states.drop_last().last() == states[last]);
        if loses_no_message(events) {
            assert forall|i: int| 0 <= i < last implies !(#[trigger] events.drop_last()[i] is
                BodyLost) by {
                assert(events.drop_last()[i] == events[i]);
            }
            assert(!(events[last] is BodyLost));
        }
        match events[last] {
            RelayEvent::Header(header) => {
                proto::law_le16_round_trip(0, header@[0], header@[1]);
                assert(header@ =~= le16(from_le16(header@[0], header@[1])));
            },
            RelayEvent::Body(body) => {
                assert(bodies.drop_last() =~= before);
                assert(viewer_bytes(events) =~= wire(bodies));
                assert forall|i: int| 0 <= i < bodies.len() implies (#[trigger] bodies[i]).len()
                    <= u16::MAX by {
                    if i < before.len() {
                        assert(bodies[i] == before[i]);
                    }
                }
            },
            _ => {},
        }
    }
}

proof fn lemma_frames_push(messages: Seq<Seq<char>>, message: Seq<char>)
    ensures
        frames(messages.push(message)) == frames(messages) + frame(message),
    decreases messages.len(),
{
    let all = messages.push(message);
    if messages.len() == 0 {
        reveal_with_fuel(frames, 2);
        assert(all.drop_first() =~= seq![]);
        assert(frames(all) =~= frames(messages) + frame(message));
    } else {
        lemma_frames_push(messages.drop_first(), message);
        assert(all.drop_first() =~= messages.drop_first().push(message));
        assert(frames(all) =~= frames(messages) + frame(message));
    }
}

/// Whatever else happens meanwhile, what the relay writes to a viewer are the
/// frames of the messages that came from the channel, in the same order.
pub proof fn law_relay_writes_the_stream(
    states: Seq<RelayState>,
    events: Seq<RelayEvent>,
    actions: Seq<RelayAction>,
)
    requires
        relay_run(states, events, actions),
    ensures
        written_bytes(actions) == frames(channel_messages(events)),
    decreases events.len(),
{
    if events.len() > 0 {
        let last = events.len() - 1;
        lemma_shorter_relay_run(states, events, actions);
        law_relay_writes_the_stream(states.drop_last(), events.drop_last(), actions.drop_last());
        assert(relays(events[last], states[last + 1], actions[last]));
        if let RelayEvent::Message(message) = events[last] {
            lemma_frames_push(channel_messages(events.drop_last()), message@);
            assert(written_bytes(actions) =~= frames(channel_messages(events)));
        }
    }
}

/// A run of a viewer that receives messages, from its beginning: each event is
/// one that it waits for, each body is as long as it asked for, and it goes on
/// as it does.
pub open spec fn receiver_run(
    states: Seq<ReceiverState>,
    events: Seq<ReceiverEvent>,
    actions: Seq<ReceiverAction>,
) -> bool {
    &&& states.len() == events.len() + 1
    &&& actions.len() == events.len()
    &&& states[0] is Header
    &&& forall|i: int|
        0 <= i < events.len() ==> {
            &&& receiver_awaits(states[i], #[trigger] events[i])
            &&& receives(events[i], states[i + 1], actions[i])
            &&& events[i] matches ReceiverEvent::Body(bytes) ==> states[i] == ReceiverState::Body {
                length: bytes@.len() as u16,
            } && bytes@.len() <= u16::MAX
        }
}

/// The bytes that came from the server.
pub open spec fn server_bytes(run: Seq<ReceiverEvent>) -> Seq<u8>
    decreases run.len(),
{
    if run.len() == 0 {
        seq![]
    } else {
        match run.last() {
            ReceiverEvent::Header(header) => server_bytes(run.drop_last()) + header@,
            ReceiverEvent::Body(body) => server_bytes(run.drop_last()) + body@,
            _ => server_bytes(run.drop_last()),
        }
    }
}

/// The messages that were shown.
pub open spec fn shown_messages(run: Seq<ReceiverAction>) -> Seq<Seq<char>>
    decreases run.len(),
{
    if run.len() == 0 {
        seq![]
    } else {
        match run.last() {
            ReceiverAction::Show(message) => shown_messages(run.drop_last()).push(message@),
            _ => shown_messages(run.drop_last()),
        }
    }
}

/// The bodies of the messages that came from the server.
pub open spec fn receiver_bodies(run: Seq<ReceiverEvent>) -> Seq<Seq<u8>>
    decreases run.len(),
{
    if run.len() == 0 {
        seq![]
    } else {
        match run.last() {
            ReceiverEvent::Body(body) => receiver_bodies(run.drop_last()).push(body@),
            _ => receiver_bodies(run.drop_last()),
        }
    }
}

/// Whether a viewer loses the stream only between two messages, if it does.
pub open spec fn loses_no_body(states: Seq<ReceiverState>, events: Seq<ReceiverEvent>) -> bool {
    forall|i: int| 0 <= i < events.len() && #[trigger] events[i] is Lost ==> states[i] is Header
}

proof fn lemma_shorter_receiver_run(
    states: Seq<ReceiverState>,
    events: Seq<ReceiverEvent>,
    actions: Seq<ReceiverAction>,
)
    requires
        receiver_run(states, events, actions),
        events.len() > 0,
    ensures
        receiver_run(states.drop_last(), events.drop_last(), actions.drop_last()),
{
    let shorter = events.drop_last();
    assert forall|i: int| 0 <= i < shorter.len() implies {
        &&& receiver_awaits(states.drop_last()[i], #[trigger] shorter[i])
        &&& receives(shorter[i], states.drop_last()[i + 1], actions.drop_last()[i])
        &&& shorter[i] matches ReceiverEvent::Body(bytes) ==> states.drop_last()[i]
            == ReceiverState::Body { length: bytes@.len() as u16 } && bytes@.len() <= u16::MAX
    } by {
        assert(shorter[i] == events[i]);
    }
}

/// The texts that some bodies hold before the first one that is not text.
pub open spec fn texts_before_fault(bodies: Seq<Seq<u8>>) -> Seq<Seq<char>>
    decreases bodies.len(),
{
    if bodies.len() == 0 || !valid_utf8(bodies[0]) {
        seq![]
    } else {
        seq![decode_utf8(bodies[0])] + texts_before_fault(bodies.drop_first())
    }
}

proof fn lemma_texts_before_fault_push(bodies: Seq<Seq<u8>>, body: Seq<u8>)
    requires
        forall|i: int| 0 <= i < bodies.len() ==> valid_utf8(#[trigger] bodies[i]),
    ensures
        texts_before_fault(bodies.push(body)) == if valid_utf8(body) {
            texts_before_fault(bodies).push(decode_utf8(body))
        } else {
            texts_before_fault(bodies)
        },
    decreases bodies.len(),
{
    let all = bodies.push(body);
    if bodies.len() == 0 {
        reveal_with_fuel(texts_before_fault, 2);
        assert(all.drop_first() =~= seq![]);
        assert(texts_before_fault(all) =~= if valid_utf8(body) {
            seq![decode_utf8(body)]
        } else {
            seq![]
        });
    } else {
        let rest = bodies.drop_first();
        assert forall|i: int| 0 <= i < rest.len() implies valid_utf8(#[trigger] rest[i]) by {
            assert(rest[i] == bodies[i + 1]);
        }
        lemma_texts_before_fault_push(rest, body);
        assert(all.drop_first() =~= rest.push(body));
        assert(valid_utf8(bodies[0]));
        assert(texts_before_fault(all) =~= if valid_utf8(body) {
            texts_before_fault(bodies).push(decode_utf8(body))
        } else {
            texts_before_fault(bodies)
        });
    }
}

/// Whatever the server sends, a viewer shows the messages before the first one that
/// is not text, in the same order and unchanged, and none after it. The bodies are
/// those that the server sent, each behind its length; the length of one that is
/// still to come or was lost may stand behind them.
pub proof fn law_receiver_shows_texts_before_fault(
    states: Seq<ReceiverState>,
    events: Seq<ReceiverEvent>,
    actions: Seq<ReceiverAction>,
)
    requires
        receiver_run(states, events, actions),
    ensures
        shown_messages(actions) == texts_before_fault(receiver_bodies(events)),
        server_bytes(events) == wire(receiver_bodies(events)) || exists|length: u16|
            server_bytes(events) == wire(receiver_bodies(events)) + #[trigger] le16(length),
        forall|i: int|
            0 <= i < receiver_bodies(events).len() ==> (#[trigger] receiver_bodies(events)[i]).len()
                <= u16::MAX,
        loses_no_body(states, events) && !(states.last() is Body) ==> server_bytes(events) == wire(
            receiver_bodies(events),
        ),
        states.last() is Header ==> server_bytes(events) == wire(receiver_bodies(events)),
        states.last() matches ReceiverState::Body { length } ==> server_bytes(events) == wire(
            receiver_bodies(events),
        ) + le16(length),
        !(states.last() is Over) ==> forall|i: int|
            0 <= i < receiver_bodies(events).len() ==> valid_utf8(
                #[trigger] receiver_bodies(events)[i],
            ),
    decreases events.len(),
{
    let bodies = receiver_bodies(events);
    if events.len() > 0 {
        let last = events.len() - 1;
        let before = receiver_bodies(events.drop_last());
        lemma_shorter_receiver_run(states, events, actions);
        law_receiver_shows_texts_before_fault(
            states.drop_last(),
            events.drop_last(),
            actions.drop_last(),
        );
        assert(receiver_awaits(states[last], events[last]));
        assert(receives(events[last], states[last + 1], actions[last]));
        assert(states.drop_last().last() == states[last]);
        if loses_no_body(states, events) {
            assert(events[last] is Lost ==> states[last] is Header);
            assert forall|i: int| 0 <= i < last && #[trigger] events.drop_last()[i] is
                Lost implies states.drop_last()[i] is Header by {
                assert(events.drop_last()[i] == events[i]);
            }
        }
        match events[last] {
            ReceiverEvent::Header(header) => {
                proto::law_le16_round_trip(0, header@[0], header@[1]);
                assert(header@ =~= le16(from_le16(header@[0], header@[1])));
            },
            ReceiverEvent::Body(body) => {
                assert(bodies.drop_last() =~= before);
                assert(server_bytes(events) =~= wire(bodies));
                assert forall|i: int| 0 <= i < bodies.len() implies (#[trigger] bodies[i]).len()
                    <= u16::MAX by {
                    if i < before.len() {
                        assert(bodies[i] == before[i]);
                    }
                }
                lemma_texts_before_fault_push(before, body@);
            },
            ReceiverEvent::Lost => {},
        }
    }
}

proof fn lemma_all_texts(bodies: Seq<Seq<u8>>)
    requires
        forall|i: int| 0 <= i < bodies.len() ==> valid_utf8(#[trigger] bodies[i]),
    ensures
        texts_among(bodies) == decoded(bodies),
        texts_before_fault(bodies) == decoded(bodies),
    decreases bodies.len(),
{
    if bodies.len() == 0 {
        assert(texts_among(bodies) =~= decoded(bodies));
        assert(texts_before_fault(bodies) =~= decoded(bodies));
    } else {
        let front = bodies.drop_last();
        assert forall|i: int| 0 <= i < front.len() implies valid_utf8(#[trigger] front[i]) by {
            assert(front[i] == bodies[i]);
        }
        lemma_all_texts(front);
        lemma_texts_before_fault_push(front, bodies.last());
        assert(front.push(bodies.last()) =~= bodies);
        assert(valid_utf8(bodies[bodies.len() - 1]));
        assert(texts_among(bodies) =~= decoded(bodies));
        assert(texts_before_fault(bodies) =~= decoded(bodies));
    }
}

/// Whatever else happens meanwhile, the relay broadcasts exactly the messages
/// whose frames a viewer sends, in the same order and unchanged, for messages of
/// at most 65535 bytes each. The run ends between two messages.
pub proof fn law_relay_broadcasts_the_stream(
    states: Seq<RelayState>,
    events: Seq<RelayEvent>,
    actions: Seq<RelayAction>,
    messages: Seq<Seq<char>>,
)
    requires
        relay_run(states, events, actions),
        loses_no_message(events),
        !(states.last() is Body),
        viewer_bytes(events) == frames(messages),
        forall|i: int|
            0 <= i < messages.len() ==> encode_utf8(#[trigger] messages[i]).len() <= u16::MAX,
    ensures
        broadcasts(actions) == messages,
{
    law_relay_broadcasts_all_texts(states, events, actions);
    law_stream_read_back(messages);
    lemma_messages_in_wire(relay_bodies(events), messages);
    lemma_all_texts(relay_bodies(events));
}

/// A viewer shows exactly the messages whose frames the server writes, in the
/// same order and unchanged, for messages of at most 65535 bytes each. The run
/// ends between two messages.
pub proof fn law_receiver_shows_the_stream(
    states: Seq<ReceiverState>,
    events: Seq<ReceiverEvent>,
    actions: Seq<ReceiverAction>,
    messages: Seq<Seq<char>>,
)
    requires
        receiver_run(states, events, actions),
        loses_no_body(states, events),
        !(states.last() is Body),
        server_bytes(events) == frames(messages),
        forall|i: int|
            0 <= i < messages.len() ==> encode_utf8(#[trigger] messages[i]).len() <= u16::MAX,
    ensures
        shown_messages(actions) == messages,
{
    law_receiver_shows_texts_before_fault(states, events, actions);
    law_stream_read_back(messages);
    lemma_messages_in_wire(receiver_bodies(events), messages);
    lemma_all_texts(receiver_bodies(events));
}

/// The lines that leave the chat are q and Q, white space around them aside.
pub proof fn law_quit_ignores_case_and_space(line: Seq<char>)
    ensures
        is_quit(line) <==> trimmed(line) == "q"@ || trimmed(line) == "Q"@,
{
    reveal_strlit("q");
    reveal_strlit("Q");
    let words = trimmed(line);
    if is_quit(line) {
        assert(lowered(words).len() == 1);
        assert(lowered(words)[0] == 'q');
        assert(text::ascii_lower(words[0]) == 'q');
        if words[0] == 'q' {
            assert(words =~= "q"@);
        } else {
            assert(words[0] == 'Q');
            assert(words =~= "Q"@);
        }
    }
    if words == "q"@ || words == "Q"@ {
        assert(lowered(words) =~= "q"@);
    }
}

/// Whether an event can come of an action of the relay.
pub open spec fn relay_brings(action: RelayAction, event: RelayEvent) -> bool {
    match action {
        RelayAction::ReadBody(_) => event is Body || event is BodyLost,
        RelayAction::Send { .. } => event is Sent || event is SendLost,
        RelayAction::Stop => false,
        _ => {
            ||| event is Header
            ||| event is HeaderLost
            ||| event is Message
            ||| event is Missed
            ||| event is ChannelClosed
        },
    }
}

/// The relay is never caught off guard: what can come of its action is what it
/// then waits for.
pub proof fn law_relay_keeps_step(
    event: RelayEvent,
    next: RelayState,
    action: RelayAction,
    following: RelayEvent,
)
    requires
        relays(event, next, action),
    ensures
        relay_brings(action, following) <==> relay_awaits(next, following),
{
}

/// Whether an event can come of an action of a viewer that receives messages.
pub open spec fn receiver_brings(action: ReceiverAction, event: ReceiverEvent) -> bool {
    match action {
        ReceiverAction::ReadBody(_) => event is Body || event is Lost,
        ReceiverAction::Show(_) => event is Header || event is Lost,
        _ => false,
    }
}

/// A viewer that receives messages is never caught off guard: what can come of
/// its action is what it then waits for.
pub proof fn law_receiver_keeps_step(
    event: ReceiverEvent,
    next: ReceiverState,
    action: ReceiverAction,
    following: ReceiverEvent,
)
    requires
        receives(event, next, action),
    ensures
        receiver_brings(action, following) <==> receiver_awaits(next, following),
{
}

/// What a typed line becomes is no longer, in bytes, than the name, the line
/// and two bytes more.
pub proof fn law_said_length(username: Seq<char>, line: Seq<char>)
    ensures
        encode_utf8(said(username, line)).len() <= encode_utf8(username).len() + encode_utf8(
            line,
        ).len() + 2,
{
    reveal_strlit(": ");
    text::law_cut_shortens(line, text::CutSet::WhiteSpace);
    text::law_encode_concat(username + ": "@, trimmed(line));
    text::law_encode_concat(username, ": "@);
    is_ascii_chars_encode_utf8(": "@);
}

/// What a viewer says on entering is 22 bytes longer than the viewer's name.
pub proof fn law_entrance_length(username: Seq<char>)
    ensures
        encode_utf8(entrance(username)).len() == encode_utf8(username).len() + 22,
{
    reveal_strlit(" ");
    reveal_strlit("has entered the chat!");
    text::law_encode_concat(username + " "@, "has entered the chat!"@);
    text::law_encode_concat(username, " "@);
    is_ascii_chars_encode_utf8(" "@);
    is_ascii_chars_encode_utf8("has entered the chat!"@);
}

/// On the wire a message is its number of bytes, modulo 65536, in two bytes, and
/// then all its bytes.
pub proof fn law_frame_in_bytes(message: Seq<char>)
    ensures
        frame(message).len() == 2 + encode_utf8(message).len(),
        frame(message)[0] + 256 * frame(message)[1] == encode_utf8(message).len() % 65536,
        frame(message).skip(2) == encode_utf8(message),
{
    proto::law_number_in_bytes(length_field(encode_utf8(message).len()), 0, 0);
    assert(frame(message).skip(2) =~= encode_utf8(message));
}

/// What a viewer says on entering is the whole name and then the same words for
/// everyone.
pub proof fn law_entrance_in_characters(username: Seq<char>)
    ensures
        entrance(username).take(username.len() as int) == username,
        entrance(username).skip(username.len() as int) == " has entered the chat!"@,
{
    reveal_strlit(" ");
    reveal_strlit("has entered the chat!");
    reveal_strlit(" has entered the chat!");
    assert(entrance(username).take(username.len() as int) =~= username);
    assert(entrance(username).skip(username.len() as int) =~= " has entered the chat!"@);
}

/// A line leaves the chat if its only character other than white space is a q, small
/// or capital. Any other line is sent whole: the text in the frame is the name, a
/// colon, a space and all characters of the line from its first to its last one
/// that is not white space.
pub proof fn law_line_is_sent_whole(username: Seq<char>, line: Seq<char>, typed: Typed)
    requires
        types(username, line, typed),
    ensures
        typed is Quit <==> exists|at: int|
            {
                &&& 0 <= at < line.len()
                &&& (#[trigger] line[at] == 'q' || line[at] == 'Q')
                &&& forall|i: int|
                    0 <= i < line.len() && i != at ==> text::is_white_space(#[trigger] line[i])
            },
        typed matches Typed::Send(bytes) ==> {
            let message = decode_utf8(bytes@.skip(2));
            let named = username.len() as int;
            &&& bytes@.skip(2) == encode_utf8(message)
            &&& bytes@.len() >= 2
            &&& bytes@[0] + 256 * bytes@[1] == encode_utf8(message).len() % 65536
            &&& exists|start: int, end: int|
                {
                    &&& 0 <= start <= end <= line.len()
                    &&& start < end ==> !text::is_white_space(line[start])
                        && !text::is_white_space(line[end - 1])
                    &&& forall|i: int|
                        0 <= i < start || end <= i < line.len() ==> text::is_white_space(
                            #[trigger] line[i],
                        )
                    &&& message.len() == named + 2 + (end - start)
                    &&& message.take(named) == username
                    &&& message[named] == ':'
                    &&& message[named + 1] == ' '
                    &&& message.skip(named + 2) == #[trigger] line.subrange(start, end)
                }
        },
{
    reveal_strlit("q");
    reveal_strlit("Q");
    reveal_strlit(": ");
    text::law_trimmed(line);
    let (start, end) = choose|start: int, end: int|
        {
            &&& 0 <= start <= end <= line.len()
            &&& trimmed(line) == #[trigger] line.subrange(start, end)
            &&& start < end ==> !text::is_white_space(line[start]) && !text::is_white_space(
                line[end - 1],
            )
            &&& forall|i: int|
                0 <= i < start || end <= i < line.len() ==> text::is_white_space(#[trigger] line[i])
        };
    law_quit_ignores_case_and_space(line);
    if is_quit(line) {
        assert(end == start + 1);
        assert(trimmed(line)[0] == line[start]);
    }
    assert forall|at: int|
        {
            &&& 0 <= at < line.len()
            &&& (#[trigger] line[at] == 'q' || line[at] == 'Q')
            &&& forall|i: int|
                0 <= i < line.len() && i != at ==> text::is_white_space(#[trigger] line[i])
        } implies is_quit(line) by {
        assert(!text::is_white_space(line[at]));
        assert(start <= at < end);
        assert(start == at);
        assert(end == at + 1);
        if line[at] == 'q' {
            assert(trimmed(line) =~= "q"@);
        } else {
            assert(trimmed(line) =~= "Q"@);
        }
    }
    if let Typed::Send(bytes) = typed {
        let words = said(username, line);
        law_frame_in_bytes(words);
        encode_utf8_decode_utf8(words);
        assert(words.take(username.len() as int) =~= username);
        assert(words.skip(username.len() as int + 2) =~= line.subrange(start, end));
    }
}

/// How the relay goes on after any event: it ends when something is lost or the
/// channel is closed, and never otherwise; two bytes from the viewer tell how many
/// to read; the bytes that are read are broadcast as the text that has these very
/// bytes, if there is one; and a message is written with its number of bytes,
/// modulo 65536, before it.
pub proof fn law_relay_in_bytes(event: RelayEvent, next: RelayState, action: RelayAction)
    requires
        relays(event, next, action),
    ensures
        next is Over <==> event is HeaderLost || event is BodyLost || event is ChannelClosed
            || event is SendLost,
        action is Stop <==> next is Over,
        event matches RelayEvent::Header(header) ==> (next matches RelayState::Body { length }
            && length == header@[0] + 256 * header@[1] && action == RelayAction::ReadBody(length)),
        event matches RelayEvent::Body(bytes) ==> next is Ready && if valid_utf8(bytes@) {
            action matches RelayAction::Broadcast(message) && encode_utf8(message@) == bytes@
        } else {
            action is Skip
        },
        event matches RelayEvent::Message(message) ==> next is Sending && (
        action matches RelayAction::Send { header, body } && body@ == encode_utf8(message@)
            && header@.len() == 2 && header@[0] + 256 * header@[1] == body@.len() % 65536),
        event is Missed || event is Sent ==> next is Ready && action is Continue,
{
    match event {
        RelayEvent::Header(header) => {
            proto::law_number_in_bytes(0, header@[0], header@[1]);
        },
        RelayEvent::Body(bytes) => {
            if valid_utf8(bytes@) {
                decode_utf8_encode_utf8(bytes@);
            }
        },
        RelayEvent::Message(message) => {
            proto::law_number_in_bytes(length_field(encode_utf8(message@).len()), 0, 0);
        },
        _ => {},
    }
}

/// How a viewer that receives messages goes on after any event: two bytes tell how
/// many to read; the bytes that are read are shown as the text that has these very
/// bytes; where there is no such text, or the stream is lost, it is over.
pub proof fn law_receiver_in_bytes(
    event: ReceiverEvent,
    next: ReceiverState,
    action: ReceiverAction,
)
    requires
        receives(event, next, action),
    ensures
        event matches ReceiverEvent::Header(header) ==> (
        next matches ReceiverState::Body { length } && length == header@[0] + 256 * header@[1]
            && action == ReceiverAction::ReadBody(length)),
        event matches ReceiverEvent::Body(bytes) ==> if valid_utf8(bytes@) {
            next is Header && (action matches ReceiverAction::Show(message) && encode_utf8(message@)
                == bytes@)
        } else {
            next is Over && action is Fail
        },
        event is Lost ==> next is Over && action is Stop,
{
    match event {
        ReceiverEvent::Header(header) => {
            proto::law_number_in_bytes(0, header@[0], header@[1]);
        },
        ReceiverEvent::Body(bytes) => {
            if valid_utf8(bytes@) {
                decode_utf8_encode_utf8(bytes@);
            }
        },
        _ => {},
    }
}

} // verus!
