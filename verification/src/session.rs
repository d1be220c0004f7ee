//! The server's side of a connection, from the greeting of a viewer to the
//! point where a channel is streamed or a video has been taken in.

use std::string::FromUtf8Error;
use vstd::prelude::*;
use vstd::utf8::{
    char_u32_cast, decode_first_scalar, decode_utf8, encode_scalar, encode_utf8, encode_utf8_decode_utf8,
    encode_utf8_first_scalar, encode_utf8_valid_utf8, valid_utf8,
};

use crate::proto;
use crate::proto::{announced_count, from_le16, numbered, ProtoCommands};
use crate::text;
use crate::text::{cut, CutSet};

verus! {

/// What the server waits for.
#[derive(Debug)]
pub enum Stage {
    /// The three bytes of a greeting.
    Greeting,
    /// The three bytes of a request.
    Request,
    /// The rest of a link whose first bytes came with the request.
    Link { head: Vec<u8> },
    /// A video to be downloaded and to become a channel.
    Download,
    /// Nothing: the conversation on this stream is over.
    Closed,
}

/// What happened on a connection.
#[derive(Debug)]
pub enum Event {
    /// Three bytes came from the viewer.
    Frame([u8; 3]),
    /// The rest of a link was read into this buffer, which was zero before.
    LinkRead(Vec<u8>),
    /// The video behind the link has become a channel.
    ChannelAdded,
    /// There is no video behind the link, or it could not be had.
    DownloadFailed,
}

/// What the server does next.
#[derive(Debug)]
pub enum Action {
    /// Leave: what came was no greeting.
    Leave,
    /// Send the announcement of the channels.
    Announce(Vec<u8>),
    /// Send the reply, then stream the channel.
    Stream { reply: Vec<u8>, channel: u16 },
    /// Send the reply: the channel is not on offer.
    Refuse { reply: Vec<u8>, channel: u16 },
    /// Read the rest of a link.
    ReadLink,
    /// Leave: what came was no request.
    Ignore,
    /// Fail: the link is not text.
    Fail(FromUtf8Error),
    /// Send the reply: there is no link.
    Decline(Vec<u8>),
    /// Download the video behind the link and make it a channel.
    Download(String),
    /// Send the reply: the upload is done.
    Confirm(Vec<u8>),
    /// Leave without a reply: the upload has failed.
    Abandon,
}

/// Whether an event is one that a stage waits for.
pub open spec fn awaits(stage: Stage, event: Event) -> bool {
    match stage {
        Stage::Greeting => event is Frame,
        Stage::Request => event is Frame,
        Stage::Link { .. } => event is LinkRead,
        Stage::Download => event is ChannelAdded || event is DownloadFailed,
        Stage::Closed => false,
    }
}

/// The bytes of a link that come with an upload request. A zero byte ends
/// them.
pub open spec fn link_head(first: u8, second: u8) -> Seq<u8> {
    if first == 0 {
        seq![]
    } else if second == 0 {
        seq![first]
    } else {
        seq![first, second]
    }
}

/// The link that bytes hold between the zeros around it, if they are text.
pub open spec fn link_text(bytes: Seq<u8>) -> Option<Seq<char>> {
    if valid_utf8(bytes) {
        Some(cut(decode_utf8(bytes), CutSet::Nul))
    } else {
        None
    }
}

/// How the server answers a greeting.
pub open spec fn answers_greeting(
    frame: Seq<u8>,
    num_channels: usize,
    next: Stage,
    action: Action,
) -> bool {
    if frame[0] == ProtoCommands::Hello.code() {
        &&& next is Request
        &&& action matches Action::Announce(reply)
        &&& reply@ == numbered(ProtoCommands::ChannelList, (num_channels % 65536) as u16)
    } else {
        &&& next is Closed
        &&& action is Leave
    }
}

/// How the server answers a request.
pub open spec fn answers_request(
    frame: Seq<u8>,
    num_channels: usize,
    next: Stage,
    action: Action,
) -> bool {
    let chosen = from_le16(frame[1], frame[2]);
    if frame[0] == ProtoCommands::ChooseTvChannel.code() {
        &&& next is Closed
        &&& if chosen < num_channels {
            &&& action matches Action::Stream { reply, channel }
            &&& channel == chosen
            &&& reply@ == numbered(ProtoCommands::Connected, chosen)
        } else {
            &&& action matches Action::Refuse { reply, channel }
            &&& channel == chosen
            &&& reply@ == seq![ProtoCommands::InvalidChannel.code()]
        }
    } else if frame[0] == ProtoCommands::Upload.code() {
        &&& action is ReadLink
        &&& next matches Stage::Link { head }
        &&& head@ == link_head(frame[1], frame[2])
    } else {
        &&& next is Closed
        &&& action is Ignore
    }
}

/// How the server goes on once it has all bytes of a link.
pub open spec fn answers_link(bytes: Seq<u8>, next: Stage, action: Action) -> bool {
    match link_text(bytes) {
        None => next is Closed && action is Fail,
        Some(link) => if link.len() == 0 {
            &&& next is Closed
            &&& action matches Action::Decline(reply)
            &&& reply@ == seq![ProtoCommands::FailedUpload.code()]
        } else {
            &&& next is Download
            &&& action matches Action::Download(text)
            &&& text@ == link
        },
    }
}

/// How the server goes on from any stage.
pub open spec fn answers(
    stage: Stage,
    event: Event,
    num_channels: usize,
    next: Stage,
    action: Action,
) -> bool {
    match (stage, event) {
        (Stage::Greeting, Event::Frame(frame)) => answers_greeting(
            frame@,
            num_channels,
            next,
            action,
        ),
        (Stage::Request, Event::Frame(frame)) => answers_request(
            frame@,
            num_channels,
            next,
            action,
        ),
        (Stage::Link { head }, Event::LinkRead(rest)) => answers_link(
            head@ + rest@,
            next,
            action,
        ),
        (Stage::Download, Event::ChannelAdded) => {
            &&& next is Closed
            &&& action matches Action::Confirm(reply)
            &&& reply@ == seq![ProtoCommands::Upload.code()]
        },
        (Stage::Download, Event::DownloadFailed) => next is Closed && action is Abandon,
        _ => false,
    }
}

/// The size of the buffer into which the rest of a link is read at once.
pub const LINK_BUFFER: usize = 1024;

/// Decides how the server goes on after an event, given the number of channels
/// on offer.
pub fn handle_stream(stage: Stage, event: Event, num_channels: usize) -> (res: (Stage, Action))
    requires
        awaits(stage, event),
    ensures
        answers(stage, event, num_channels, res.0, res.1),
{
    match stage {
        Stage::Greeting => match event {
            Event::Frame(frame) => handle_greeting(frame, num_channels),
            _ => (Stage::Closed, Action::Leave),
        },
        Stage::Request => match event {
            Event::Frame(frame) => handle_request(frame, num_channels),
            _ => (Stage::Closed, Action::Leave),
        },
        Stage::Link { head } => match event {
            Event::LinkRead(rest) => handle_link(head, &rest),
            _ => (Stage::Closed, Action::Leave),
        },
        Stage::Download => match event {
            Event::ChannelAdded => (
                Stage::Closed,
                Action::Confirm(proto::upload_done_message()),
            ),
            _ => (Stage::Closed, Action::Abandon),
        },
        Stage::Closed => (Stage::Closed, Action::Leave),
    }
}

fn handle_greeting(frame: [u8; 3], num_channels: usize) -> (res: (Stage, Action))
    ensures
        answers_greeting(frame@, num_channels, res.0, res.1),
{
    if frame[0] == ProtoCommands::Hello.to_u8() {
        (Stage::Request, Action::Announce(proto::channel_list_message(num_channels)))
    } else {
        (Stage::Closed, Action::Leave)
    }
}

fn handle_request(frame: [u8; 3], num_channels: usize) -> (res: (Stage, Action))
    ensures
        answers_request(frame@, num_channels, res.0, res.1),
{
    if frame[0] == ProtoCommands::ChooseTvChannel.to_u8() {
        let channel = proto::read_u16(frame[1], frame[2]);
        if (channel as usize) < num_channels {
            (Stage::Closed, Action::Stream { reply: proto::connected_message(channel), channel })
        } else {
            (Stage::Closed, Action::Refuse { reply: proto::invalid_channel_message(), channel })
        }
    } else if frame[0] == ProtoCommands::Upload.to_u8() {
        let mut head: Vec<u8> = Vec::new();
        if frame[1] != 0 {
            head.push(frame[1]);
            if frame[2] != 0 {
                head.push(frame[2]);
            }
        }
        assert(head@ =~= link_head(frame@[1], frame@[2]));
        (Stage::Link { head }, Action::ReadLink)
    } else {
        (Stage::Closed, Action::Ignore)
    }
}

fn handle_link(head: Vec<u8>, rest: &Vec<u8>) -> (res: (Stage, Action))
    ensures
        answers_link(head@ + rest@, res.0, res.1),
{
    let mut bytes = head;
    bytes.extend_from_slice(rest.as_slice());
    assert(bytes@ =~= head@ + rest@);
    match String::from_utf8(bytes) {
        Err(error) => (Stage::Closed, Action::Fail(error)),
        Ok(padded) => {
            let link = text::cut_ends(padded.as_str(), CutSet::Nul);
            if link.is_empty() {
                (Stage::Closed, Action::Decline(proto::failed_upload_message()))
            } else {
                (Stage::Download, Action::Download(link.to_string()))
            }
        },
    }
}

/// A viewer that greets is told how many channels there are, modulo 65536, and
/// is then heard.
pub proof fn law_greeting_is_answered(num_channels: usize, next: Stage, action: Action)
    requires
        answers_greeting(numbered(ProtoCommands::Hello, 0), num_channels, next, action),
    ensures
        next is Request,
        action matches Action::Announce(reply) && announced_count(reply@) == Some(
            (num_channels % 65536) as u16,
        ),
{
    proto::law_announcement_read_back(num_channels);
}

/// Whatever channel a viewer picks below the announced number is connected:
/// the server streams that very channel and says so.
pub proof fn law_announced_channel_is_connected(
    num_channels: usize,
    announcement: Seq<u8>,
    count: u16,
    picked: u16,
    next: Stage,
    action: Action,
)
    requires
        announcement == numbered(ProtoCommands::ChannelList, (num_channels % 65536) as u16),
        announced_count(announcement) == Some(count),
        picked < count,
        answers_request(
            numbered(ProtoCommands::ChooseTvChannel, picked),
            num_channels,
            next,
            action,
        ),
    ensures
        action matches Action::Stream { reply, channel } && channel == picked && reply@
            == numbered(ProtoCommands::Connected, picked) && channel < num_channels,
{
    proto::law_announcement_read_back(num_channels);
    proto::law_le16_round_trip(picked, 0, 0);
}

/// A request for a channel beyond those on offer is refused, and answered with
/// the one byte that says so.
pub proof fn law_unknown_channel_is_refused(
    num_channels: usize,
    picked: u16,
    next: Stage,
    action: Action,
)
    requires
        picked >= num_channels,
        answers_request(
            numbered(ProtoCommands::ChooseTvChannel, picked),
            num_channels,
            next,
            action,
        ),
    ensures
        next is Closed,
        action matches Action::Refuse { reply, channel } && channel == picked && reply@
            == seq![ProtoCommands::InvalidChannel.code()],
{
    proto::law_le16_round_trip(picked, 0, 0);
}

proof fn lemma_zeros_are_nuls(count: nat)
    ensures
        encode_utf8(Seq::new(count, |i: int| '\0')) == Seq::new(count, |i: int| 0u8),
    decreases count,
{
    let nuls = Seq::new(count, |i: int| '\0');
    let zeros = Seq::new(count, |i: int| 0u8);
    if count == 0 {
        assert(encode_utf8(nuls) =~= zeros);
    } else {
        lemma_zeros_are_nuls((count - 1) as nat);
        assert(nuls.drop_first() =~= Seq::new((count - 1) as nat, |i: int| '\0'));
        assert(0u32 & 0x7f == 0) by (bit_vector);
        assert(encode_scalar('\0' as u32) =~= seq![0u8]);
        assert(encode_utf8(nuls) =~= zeros);
    }
}

proof fn lemma_first_byte(link: Seq<char>)
    requires
        link.len() > 0,
        link[0] != '\0',
    ensures
        encode_utf8(link).len() > 0,
        encode_utf8(link)[0] != 0,
{
    encode_utf8_first_scalar(link);
    let bytes = encode_utf8(link);
    if bytes[0] == 0 {
        assert(0u8 & 0x7f == 0) by (bit_vector);
        assert(decode_first_scalar(bytes) == 0);
        char_u32_cast(link[0], 0);
        char_u32_cast('\0', 0);
    }
}

/// The server downloads exactly the link that a viewer uploads, when its bytes
/// arrive as three bytes and then the rest in a buffer of zeros. The link has
/// at least two bytes, a zero byte is neither its first, its second nor its
/// last.
pub proof fn law_uploaded_link_read_back(
    link: Seq<char>,
    unused: nat,
    num_channels: usize,
    waiting: Stage,
    reading: Action,
    next: Stage,
    action: Action,
)
    requires
        link.len() > 0,
        link[0] != '\0',
        link.last() != '\0',
        encode_utf8(link).len() >= 2,
        encode_utf8(link)[1] != 0,
        answers_request(
            (seq![ProtoCommands::Upload.code()] + encode_utf8(link)).take(3),
            num_channels,
            waiting,
            reading,
        ),
        waiting matches Stage::Link { head } && answers_link(
            head@ + (encode_utf8(link).skip(2) + Seq::new(unused, |i: int| 0u8)),
            next,
            action,
        ),
    ensures
        next is Download,
        action matches Action::Download(text) && text@ == link,
{
    let bytes = encode_utf8(link);
    let zeros = Seq::new(unused, |i: int| 0u8);
    let nuls = Seq::new(unused, |i: int| '\0');
    let frame = (seq![ProtoCommands::Upload.code()] + bytes).take(3);
    lemma_first_byte(link);
    assert(frame[1] == bytes[0] && frame[2] == bytes[1]);
    let head = waiting->head@;
    assert(head + (bytes.skip(2) + zeros) =~= bytes + zeros);
    lemma_zeros_are_nuls(unused);
    text::law_encode_concat(link, nuls);
    encode_utf8_valid_utf8(link + nuls);
    encode_utf8_decode_utf8(link + nuls);
    text::law_cut_undoes_padding(link, nuls, CutSet::Nul);
}

/// The bytes that an action sends to the viewer, if it sends any.
pub open spec fn reply_of(action: Action) -> Option<Seq<u8>> {
    match action {
        Action::Announce(reply) => Some(reply@),
        Action::Stream { reply, .. } => Some(reply@),
        Action::Refuse { reply, .. } => Some(reply@),
        Action::Decline(reply) => Some(reply@),
        Action::Confirm(reply) => Some(reply@),
        _ => None,
    }
}

/// An upload is answered with the one byte that confirms it exactly when its
/// video has become a channel; when it has failed, nothing is sent. Either way
/// the conversation is over.
pub proof fn law_upload_is_answered_if_done(
    event: Event,
    num_channels: usize,
    next: Stage,
    action: Action,
)
    requires
        awaits(Stage::Download, event),
        answers(Stage::Download, event, num_channels, next, action),
    ensures
        next is Closed,
        event is ChannelAdded ==> reply_of(action) == Some(seq![ProtoCommands::Upload.code()]),
        event is DownloadFailed ==> reply_of(action) is None,
{
}

/// Whether an event can come of an action.
pub open spec fn brings(action: Action, event: Event) -> bool {
    match action {
        Action::Announce(_) => event is Frame,
        Action::ReadLink => event is LinkRead,
        Action::Download(_) => event is ChannelAdded || event is DownloadFailed,
        _ => false,
    }
}

/// The server is never caught off guard: what can come of its action is what
/// it then waits for, and it waits for nothing exactly when nothing can come.
pub proof fn law_session_keeps_step(
    stage: Stage,
    event: Event,
    num_channels: usize,
    next: Stage,
    action: Action,
    following: Event,
)
    requires
        answers(stage, event, num_channels, next, action),
    ensures
        brings(action, following) <==> awaits(next, following),
{
}

/// A conversation goes on after three bytes of which the first is 33, and only then:
/// the answer is a zero byte and the number of channels, modulo 65536.
pub proof fn law_greeting_in_bytes(
    frame: [u8; 3],
    num_channels: usize,
    next: Stage,
    action: Action,
)
    requires
        answers(Stage::Greeting, Event::Frame(frame), num_channels, next, action),
    ensures
        frame@[0] == 33 ==> next is Request && action is Announce,
        frame@[0] != 33 ==> next is Closed && action is Leave,
        action matches Action::Announce(reply) ==> reply@.len() == 3 && reply@[0] == 0 && reply@[1]
            + 256 * reply@[2] == num_channels % 65536,
{
    proto::law_numbered_in_bytes(ProtoCommands::ChannelList, (num_channels % 65536) as u16);
}

/// A request that begins with 34 names a channel in its other two bytes: one below
/// the number of channels is streamed, and answered with 2 and the same two bytes;
/// any other is refused with 1. A request that begins with 3 brings the first bytes
/// of a link, up to a zero byte. Any other is ignored.
pub proof fn law_request_in_bytes(
    frame: [u8; 3],
    num_channels: usize,
    next: Stage,
    action: Action,
)
    requires
        answers(Stage::Request, Event::Frame(frame), num_channels, next, action),
    ensures
        frame@[0] == 34 && frame@[1] + 256 * frame@[2] < num_channels ==> next is Closed && (
        action matches Action::Stream { reply, channel } && channel == frame@[1] + 256 * frame@[2]
            && reply@ == seq![2u8, frame@[1], frame@[2]]),
        frame@[0] == 34 && frame@[1] + 256 * frame@[2] >= num_channels ==> next is Closed && (
        action matches Action::Refuse { reply, channel } && channel == frame@[1] + 256 * frame@[2]
            && reply@ == seq![1u8]),
        frame@[0] == 3 ==> action is ReadLink && next is Link,
        next matches Stage::Link { head } ==> {
            &&& head@.len() <= 2
            &&& head@ == frame@.subrange(1, 1 + head@.len() as int)
            &&& forall|i: int| 0 <= i < head@.len() ==> #[trigger] head@[i] != 0
            &&& head@.len() < 2 ==> frame@[1 + head@.len() as int] == 0
        },
        frame@[0] != 34 && frame@[0] != 3 ==> next is Closed && action is Ignore,
{
    let chosen = from_le16(frame@[1], frame@[2]);
    proto::law_number_in_bytes(chosen, frame@[1], frame@[2]);
    proto::law_le16_round_trip(chosen, frame@[1], frame@[2]);
    assert(numbered(ProtoCommands::Connected, chosen) =~= seq![2u8, frame@[1], frame@[2]]);
    if let Stage::Link { head } = next {
        assert(head@ =~= frame@.subrange(1, 1 + head@.len() as int));
    }
}

/// Of the bytes of a link, that which is downloaded is everything from the first to
/// the last character other than zero. Without such a character the upload is
/// declined with 4, and bytes that are not text are a failure.
pub proof fn law_link_in_characters(
    head: Vec<u8>,
    rest: Vec<u8>,
    num_channels: usize,
    next: Stage,
    action: Action,
)
    requires
        answers(Stage::Link { head }, Event::LinkRead(rest), num_channels, next, action),
    ensures
        !valid_utf8(head@ + rest@) ==> next is Closed && action is Fail,
        valid_utf8(head@ + rest@) ==> ({
            let text = decode_utf8(head@ + rest@);
            if forall|i: int| 0 <= i < text.len() ==> #[trigger] text[i] == '\0' {
                next is Closed && (action matches Action::Decline(reply) && reply@ == seq![4u8])
            } else {
                next is Download && (action matches Action::Download(link) && exists|
                    start: int,
                    end: int,
                |
                    {
                        &&& 0 <= start < end <= text.len()
                        &&& link@ == #[trigger] text.subrange(start, end)
                        &&& text[start] != '\0' && text[end - 1] != '\0'
                        &&& forall|i: int|
                            0 <= i < start || end <= i < text.len() ==> #[trigger] text[i] == '\0'
                    })
            }
        }),
{
    let bytes = head@ + rest@;
    if valid_utf8(bytes) {
        let text = decode_utf8(bytes);
        let link = cut(text, CutSet::Nul);
        text::law_cut(text, CutSet::Nul);
        let (start, end) = choose|start: int, end: int|
            {
                &&& 0 <= start <= end <= text.len()
                &&& link == #[trigger] text.subrange(start, end)
                &&& forall|i: int|
                    0 <= i < start || end <= i < text.len() ==> CutSet::Nul.has(#[trigger] text[i])
            };
        assert forall|i: int| 0 <= i < start || end <= i < text.len() implies #[trigger] text[i]
            == '\0' by {
            assert(CutSet::Nul.has(text[i]));
        }
        if start < end {
            assert(link[0] == text[start]);
            assert(link.last() == text[end - 1]);
        }
    }
}

/// The end of a download is the end of the conversation: one that made a channel is
/// answered with 3, one that failed with nothing.
pub proof fn law_upload_answer_in_bytes(
    event: Event,
    num_channels: usize,
    next: Stage,
    action: Action,
)
    requires
        answers(Stage::Download, event, num_channels, next, action),
    ensures
        next is Closed,
        event is ChannelAdded || event is DownloadFailed,
        event is ChannelAdded ==> (action matches Action::Confirm(reply) && reply@ == seq![3u8]),
        event is DownloadFailed ==> action is Abandon,
{
}

/// A link of up to 1026 bytes can come in whole: two bytes with the request and the
/// others in one buffer.
pub proof fn law_longest_link(link: Seq<u8>)
    ensures
        link.len() <= 1026 <==> link.len() <= 2 + LINK_BUFFER,
{
}

} // verus!
