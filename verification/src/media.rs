//! Moving video: from a file to a channel, from a channel to a viewer, and from
//! the network to the viewer's player.

use vstd::prelude::*;
use vstd::slice::{slice_subrange, slice_to_vec};

use crate::download;
use crate::download::texts;

verus! {

/// The size of the buffer into which the output of the converting program is read.
pub const CHUNK_BUFFER: usize = 1024;

/// The size of the buffer into which video from the server is read.
pub const PLAYER_BUFFER: usize = 4096;

/// Whether some bytes are the part of a buffer that a read has filled.
pub open spec fn is_filled_part(buffer: Seq<u8>, count: nat, data: Seq<u8>) -> bool {
    data == buffer.take(count as int)
}

/// The part of a buffer that a read has filled.
pub fn filled_part(buffer: &[u8], count: usize) -> (data: Vec<u8>)
    requires
        count <= buffer@.len(),
    ensures
        is_filled_part(buffer@, count as nat, data@),
        data@.len() == count,
{
    let data = slice_to_vec(slice_subrange(buffer, 0, count));
    assert(data@ =~= buffer@.take(count as int));
    data
}

/// What the program is told that turns a video file into a stream.
pub open spec fn conversion(path: Seq<char>) -> Seq<Seq<char>> {
    seq!["-re"@, "-i"@, path, "-c"@, "copy"@, "-f"@, "mpegts"@, "pipe:1"@]
}

/// What the program is told that turns a video file into a stream: to go at the
/// speed of the video, to copy it as it is and to write to its output.
pub fn converter_args(path: &str) -> (args: Vec<String>)
    ensures
        texts(args@) == conversion(path@),
{
    let args = vec![
        "-re".to_string(),
        "-i".to_string(),
        path.to_string(),
        "-c".to_string(),
        "copy".to_string(),
        "-f".to_string(),
        "mpegts".to_string(),
        "pipe:1".to_string(),
    ];
    assert(texts(args@) =~= conversion(path@));
    args
}

/// What the player is told: to buffer, to repeat, to read from its input, to
/// fill half the screen and to be quiet.
pub fn player_args() -> (args: Vec<String>)
    ensures
        texts(args@) == seq![
            "--cache=yes"@,
            "--loop"@,
            "-"@,
            "--geometry=50%x50%"@,
            "--msg-level=all=no"@,
        ],
{
    let args = vec![
        "--cache=yes".to_string(),
        "--loop".to_string(),
        "-".to_string(),
        "--geometry=50%x50%".to_string(),
        "--msg-level=all=no".to_string(),
    ];
    assert(texts(args@) =~= seq![
        "--cache=yes"@,
        "--loop"@,
        "-"@,
        "--geometry=50%x50%"@,
        "--msg-level=all=no"@,
    ]);
    args
}

/// How far the endless showing of a video file has come.
#[derive(Debug, Clone, Copy, PartialEq, Eq, Structural)]
pub enum LoopState {
    /// The output of the converting program is read.
    Reading,
    /// The converting program is about to end.
    Ending,
}

/// What happened to the converting program.
#[derive(Debug, PartialEq, Eq)]
pub enum LoopEvent {
    /// A read of its output brought these bytes; none, at the end.
    Read(Vec<u8>),
    /// It has ended.
    Ended,
}

/// What to do next for a video file.
#[derive(Debug, PartialEq, Eq)]
pub enum LoopAction {
    /// Broadcast the bytes and read on.
    Broadcast(Vec<u8>),
    /// Await the end of the converting program.
    AwaitEnd,
    /// Start the video from the beginning.
    Restart,
}

/// Whether an event is one that the showing of a file waits for.
pub open spec fn loop_awaits(state: LoopState, event: LoopEvent) -> bool {
    match state {
        LoopState::Reading => event is Read,
        LoopState::Ending => event is Ended,
    }
}

/// How the showing of a file goes on: all bytes are broadcast as they are read,
/// and after the end comes the beginning.
pub open spec fn shows(event: LoopEvent, next: LoopState, action: LoopAction) -> bool {
    match event {
        LoopEvent::Read(data) => if data@.len() == 0 {
            next is Ending && action is AwaitEnd
        } else {
            &&& next is Reading
            &&& action matches LoopAction::Broadcast(sent)
            &&& sent@ == data@
        },
        LoopEvent::Ended => next is Reading && action is Restart,
    }
}

/// Decides how the showing of a video file goes on after an event.
pub fn stream_mp4_to_broadcast_channel(state: LoopState, event: LoopEvent) -> (res: (
    LoopState,
    LoopAction,
))
    requires
        loop_awaits(state, event),
    ensures
        shows(event, res.0, res.1),
{
    match event {
        LoopEvent::Read(data) => if data.len() == 0 {
            (LoopState::Ending, LoopAction::AwaitEnd)
        } else {
            (LoopState::Reading, LoopAction::Broadcast(data))
        },
        LoopEvent::Ended => (LoopState::Reading, LoopAction::Restart),
    }
}

/// What the server waits for while it streams a channel to a viewer.
#[derive(Debug, Clone, Copy, PartialEq, Eq, Structural)]
pub enum FeedState {
    /// Video from the channel.
    Waiting,
    /// Video to be written to the viewer.
    Sending,
    /// Nothing: the streaming is over.
    Over,
}

/// What happened to the streaming of a channel.
#[derive(Debug, PartialEq, Eq)]
pub enum FeedEvent {
    /// Video came from the channel.
    Data(Vec<u8>),
    /// Video on the channel was missed.
    Missed,
    /// The channel is closed.
    ChannelClosed,
    /// Video was written to the viewer.
    Sent,
    /// Video could not be written to the viewer.
    SendLost,
}

/// What to do next for the streaming of a channel.
#[derive(Debug, PartialEq, Eq)]
pub enum FeedAction {
    /// Write the bytes to the viewer.
    Send(Vec<u8>),
    /// Wait for video from the channel.
    Continue,
    /// Stop streaming.
    Stop,
}

/// Whether an event is one that the streaming waits for.
pub open spec fn feed_awaits(state: FeedState, event: FeedEvent) -> bool {
    match state {
        FeedState::Waiting => event is Data || event is Missed || event is ChannelClosed,
        FeedState::Sending => event is Sent || event is SendLost,
        FeedState::Over => false,
    }
}

/// How the streaming of a channel goes on: a viewer that falls behind misses
/// video and is kept; one that cannot be written to is not.
pub open spec fn feeds(event: FeedEvent, next: FeedState, action: FeedAction) -> bool {
    match event {
        FeedEvent::Data(data) => {
            &&& next is Sending
            &&& action matches FeedAction::Send(sent)
            &&& sent@ == data@
        },
        FeedEvent::Missed => next is Waiting && action is Continue,
        FeedEvent::Sent => next is Waiting && action is Continue,
        FeedEvent::ChannelClosed => next is Over && action is Stop,
        FeedEvent::SendLost => next is Over && action is Stop,
    }
}

/// Decides how the streaming of a channel to a viewer goes on after an event.
pub fn handle_video_streaming(state: FeedState, event: FeedEvent) -> (res: (FeedState, FeedAction))
    requires
        feed_awaits(state, event),
    ensures
        feeds(event, res.0, res.1),
{
    match event {
        FeedEvent::Data(data) => (FeedState::Sending, FeedAction::Send(data)),
        FeedEvent::Missed => (FeedState::Waiting, FeedAction::Continue),
        FeedEvent::Sent => (FeedState::Waiting, FeedAction::Continue),
        FeedEvent::ChannelClosed => (FeedState::Over, FeedAction::Stop),
        FeedEvent::SendLost => (FeedState::Over, FeedAction::Stop),
    }
}

/// How far the playing of a stream has come.
#[derive(Debug, Clone, Copy, PartialEq, Eq, Structural)]
pub enum PlayerState {
    /// The player on the search path is started.
    OnPath,
    /// The player beside the viewer is started.
    Local,
    /// Video from the server is awaited.
    Reading,
    /// Video is handed to the player.
    Writing,
    /// The player is asked whether it still runs.
    Checking,
    /// The playing is over.
    Over,
}

/// What happened to the playing of a stream.
#[derive(Debug, PartialEq, Eq)]
pub enum PlayerEvent {
    /// The player has started.
    Started,
    /// The player could not be started.
    NotStarted,
    /// Video came from the server.
    Data(Vec<u8>),
    /// The server has closed the stream.
    StreamClosed,
    /// The stream could not be read.
    ReadLost,
    /// Video was handed to the player.
    Written,
    /// Video could not be handed to the player.
    WriteLost,
    /// The player still runs.
    Running,
    /// The player has ended.
    Ended { success: bool },
    /// The player could not be asked.
    StatusLost,
}

/// Why the playing of a stream is over.
#[derive(Debug, Clone, Copy, PartialEq, Eq, Structural)]
pub enum Ending {
    /// The player takes no more video.
    PlayerGone,
    /// The player has ended with an error.
    PlayerFailed,
    /// The player has ended without an error.
    PlayerDone,
    /// The server has closed the stream.
    StreamClosed,
    /// The stream could not be read.
    ReadLost,
    /// The player could not be asked whether it still runs.
    StatusLost,
}

impl Ending {
    /// Whether the viewer is told how to leave the chat: whenever the player is
    /// what ended.
    pub fn hints_at_chat(self) -> (hint: bool)
        ensures
            hint == (self is PlayerGone || self is PlayerFailed || self is PlayerDone),
    {
        match self {
            Ending::PlayerGone => true,
            Ending::PlayerFailed => true,
            Ending::PlayerDone => true,
            _ => false,
        }
    }
}

/// What to do next for the playing of a stream.
#[derive(Debug, PartialEq, Eq)]
pub enum PlayerAction {
    /// Start this player.
    Start(String),
    /// Fail: there is no player.
    Fail,
    /// Read from the server.
    Read,
    /// Hand the bytes to the player.
    Write(Vec<u8>),
    /// Ask whether the player still runs.
    Check,
    /// Stop playing.
    Stop(Ending),
}

/// The player that is started first.
pub fn first_player() -> (program: String)
    ensures
        program@ == "mpv"@,
{
    "mpv".to_string()
}

/// Whether an event is one that the playing waits for.
pub open spec fn player_awaits(state: PlayerState, event: PlayerEvent) -> bool {
    match state {
        PlayerState::OnPath => event is Started || event is NotStarted,
        PlayerState::Local => event is Started || event is NotStarted,
        PlayerState::Reading => event is Data || event is StreamClosed || event is ReadLost,
        PlayerState::Writing => event is Written || event is WriteLost,
        PlayerState::Checking => event is Running || event is Ended || event is StatusLost,
        PlayerState::Over => false,
    }
}

/// How the playing of a stream goes on.
pub open spec fn plays(
    state: PlayerState,
    event: PlayerEvent,
    next: PlayerState,
    action: PlayerAction,
) -> bool {
    match event {
        PlayerEvent::Started => next is Reading && action is Read,
        PlayerEvent::NotStarted => if state is OnPath {
            &&& next is Local
            &&& action matches PlayerAction::Start(program)
            &&& program@ == "./mpv"@
        } else {
            next is Over && action is Fail
        },
        PlayerEvent::Data(data) => {
            &&& next is Writing
            &&& action matches PlayerAction::Write(written)
            &&& written@ == data@
        },
        PlayerEvent::StreamClosed => next is Over && action == PlayerAction::Stop(
            Ending::StreamClosed,
        ),
        PlayerEvent::ReadLost => next is Over && action == PlayerAction::Stop(Ending::ReadLost),
        PlayerEvent::Written => next is Checking && action is Check,
        PlayerEvent::WriteLost => next is Over && action == PlayerAction::Stop(Ending::PlayerGone),
        PlayerEvent::Running => next is Reading && action is Read,
        PlayerEvent::Ended { success } => next is Over && action == PlayerAction::Stop(
            if success {
                Ending::PlayerDone
            } else {
                Ending::PlayerFailed
            },
        ),
        PlayerEvent::StatusLost => next is Over && action == PlayerAction::Stop(
            Ending::StatusLost,
        ),
    }
}

/// Decides how the playing of a stream goes on after an event.
pub fn handle_video_stream(state: PlayerState, event: PlayerEvent) -> (res: (
    PlayerState,
    PlayerAction,
))
    requires
        player_awaits(state, event),
    ensures
        plays(state, event, res.0, res.1),
{
    match event {
        PlayerEvent::Started => (PlayerState::Reading, PlayerAction::Read),
        PlayerEvent::NotStarted => match state {
            PlayerState::OnPath => (PlayerState::Local, PlayerAction::Start("./mpv".to_string())),
            _ => (PlayerState::Over, PlayerAction::Fail),
        },
        PlayerEvent::Data(data) => (PlayerState::Writing, PlayerAction::Write(data)),
        PlayerEvent::StreamClosed => (PlayerState::Over, PlayerAction::Stop(Ending::StreamClosed)),
        PlayerEvent::ReadLost => (PlayerState::Over, PlayerAction::Stop(Ending::ReadLost)),
        PlayerEvent::Written => (PlayerState::Checking, PlayerAction::Check),
        PlayerEvent::WriteLost => (PlayerState::Over, PlayerAction::Stop(Ending::PlayerGone)),
        PlayerEvent::Running => (PlayerState::Reading, PlayerAction::Read),
        PlayerEvent::Ended { success } => {
            let ending = if success {
                Ending::PlayerDone
            } else {
                Ending::PlayerFailed
            };
            (PlayerState::Over, PlayerAction::Stop(ending))
        },
        PlayerEvent::StatusLost => (PlayerState::Over, PlayerAction::Stop(Ending::StatusLost)),
    }
}

/// Whether an event can come of an action on a video file.
pub open spec fn loop_brings(action: LoopAction, event: LoopEvent) -> bool {
    match action {
        LoopAction::AwaitEnd => event is Ended,
        _ => event is Read,
    }
}

/// The showing of a file is never caught off guard: what can come of its
/// action is what it then waits for.
pub proof fn law_loop_keeps_step(
    event: LoopEvent,
    next: LoopState,
    action: LoopAction,
    following: LoopEvent,
)
    requires
        shows(event, next, action),
    ensures
        loop_brings(action, following) <==> loop_awaits(next, following),
{
}

/// Whether an event can come of an action on the streaming of a channel.
pub open spec fn feed_brings(action: FeedAction, event: FeedEvent) -> bool {
    match action {
        FeedAction::Send(_) => event is Sent || event is SendLost,
        FeedAction::Continue => event is Data || event is Missed || event is ChannelClosed,
        FeedAction::Stop => false,
    }
}

/// The streaming of a channel is never caught off guard: what can come of its
/// action is what it then waits for.
pub proof fn law_feed_keeps_step(
    event: FeedEvent,
    next: FeedState,
    action: FeedAction,
    following: FeedEvent,
)
    requires
        feeds(event, next, action),
    ensures
        feed_brings(action, following) <==> feed_awaits(next, following),
{
}

/// Whether an event can come of an action on the playing of a stream.
pub open spec fn player_brings(action: PlayerAction, event: PlayerEvent) -> bool {
    match action {
        PlayerAction::Start(_) => event is Started || event is NotStarted,
        PlayerAction::Read => event is Data || event is StreamClosed || event is ReadLost,
        PlayerAction::Write(_) => event is Written || event is WriteLost,
        PlayerAction::Check => event is Running || event is Ended || event is StatusLost,
        _ => false,
    }
}

/// The playing of a stream is never caught off guard: what can come of its
/// action is what it then waits for.
pub proof fn law_player_keeps_step(
    state: PlayerState,
    event: PlayerEvent,
    next: PlayerState,
    action: PlayerAction,
    following: PlayerEvent,
)
    requires
        plays(state, event, next, action),
    ensures
        player_brings(action, following) <==> player_awaits(next, following),
{
}

/// The bytes that were read from a file.
pub open spec fn read_bytes(run: Seq<LoopEvent>) -> Seq<u8>
    decreases run.len(),
{
    if run.len() == 0 {
        seq![]
    } else {
        match run.last() {
            LoopEvent::Read(data) => read_bytes(run.drop_last()) + data@,
            _ => read_bytes(run.drop_last()),
        }
    }
}

/// The bytes that were broadcast.
pub open spec fn broadcast_bytes(run: Seq<LoopAction>) -> Seq<u8>
    decreases run.len(),
{
    if run.len() == 0 {
        seq![]
    } else {
        match run.last() {
            LoopAction::Broadcast(data) => broadcast_bytes(run.drop_last()) + data@,
            _ => broadcast_bytes(run.drop_last()),
        }
    }
}

/// All video that is read from a file is broadcast, in the same order and
/// unchanged, however long the showing lasts.
pub proof fn law_loop_is_faithful(
    states: Seq<LoopState>,
    events: Seq<LoopEvent>,
    actions: Seq<LoopAction>,
)
    requires
        states.len() == events.len() + 1,
        events.len() == actions.len(),
        forall|i: int|
            0 <= i < events.len() ==> shows(#[trigger] events[i], states[i + 1], actions[i]),
    ensures
        broadcast_bytes(actions) == read_bytes(events),
    decreases events.len(),
{
    if events.len() > 0 {
        let last = events.len() - 1;
        let shorter_states = states.drop_last();
        let shorter_events = events.drop_last();
        let shorter_actions = actions.drop_last();
        assert forall|i: int| 0 <= i < shorter_events.len() implies shows(
            #[trigger] shorter_events[i],
            shorter_states[i + 1],
            shorter_actions[i],
        ) by {
            assert(shorter_events[i] == events[i]);
        }
        law_loop_is_faithful(shorter_states, shorter_events, shorter_actions);
        assert(shows(events[last], states[last + 1], actions[last]));
    }
}

/// No chunk that is broadcast is empty, and none is longer than the buffer from
/// whose filled part it comes.
pub proof fn law_chunk_is_bounded(
    buffer: Seq<u8>,
    count: usize,
    data: Vec<u8>,
    next: LoopState,
    action: LoopAction,
    chunk: Vec<u8>,
)
    requires
        buffer.len() == CHUNK_BUFFER,
        count <= buffer.len(),
        is_filled_part(buffer, count as nat, data@),
        shows(LoopEvent::Read(data), next, action),
        action == LoopAction::Broadcast(chunk),
    ensures
        1 <= chunk@.len() <= CHUNK_BUFFER,
        chunk@ == buffer.take(count as int),
{
}

/// No more is handed to the player at once than the buffer holds from whose
/// filled part it comes.
pub proof fn law_played_part_is_bounded(
    buffer: Seq<u8>,
    count: usize,
    data: Vec<u8>,
    state: PlayerState,
    next: PlayerState,
    action: PlayerAction,
    part: Vec<u8>,
)
    requires
        buffer.len() == PLAYER_BUFFER,
        count <= buffer.len(),
        is_filled_part(buffer, count as nat, data@),
        plays(state, PlayerEvent::Data(data), next, action),
        action == PlayerAction::Write(part),
    ensures
        part@.len() <= PLAYER_BUFFER,
        part@ == buffer.take(count as int),
{
}

/// The video that came from a channel.
pub open spec fn channel_bytes(run: Seq<FeedEvent>) -> Seq<u8>
    decreases run.len(),
{
    if run.len() == 0 {
        seq![]
    } else {
        match run.last() {
            FeedEvent::Data(data) => channel_bytes(run.drop_last()) + data@,
            _ => channel_bytes(run.drop_last()),
        }
    }
}

/// The video that was sent to a viewer.
pub open spec fn sent_bytes(run: Seq<FeedAction>) -> Seq<u8>
    decreases run.len(),
{
    if run.len() == 0 {
        seq![]
    } else {
        match run.last() {
            FeedAction::Send(data) => sent_bytes(run.drop_last()) + data@,
            _ => sent_bytes(run.drop_last()),
        }
    }
}

/// All video that comes from a channel is sent to the viewer, in the same order
/// and unchanged, however long the streaming lasts.
pub proof fn law_feed_is_faithful(
    states: Seq<FeedState>,
    events: Seq<FeedEvent>,
    actions: Seq<FeedAction>,
)
    requires
        states.len() == events.len() + 1,
        events.len() == actions.len(),
        forall|i: int|
            0 <= i < events.len() ==> feeds(#[trigger] events[i], states[i + 1], actions[i]),
    ensures
        sent_bytes(actions) == channel_bytes(events),
    decreases events.len(),
{
    if events.len() > 0 {
        let last = events.len() - 1;
        let shorter_states = states.drop_last();
        let shorter_events = events.drop_last();
        let shorter_actions = actions.drop_last();
        assert forall|i: int| 0 <= i < shorter_events.len() implies feeds(
            #[trigger] shorter_events[i],
            shorter_states[i + 1],
            shorter_actions[i],
        ) by {
            assert(shorter_events[i] == events[i]);
        }
        law_feed_is_faithful(shorter_states, shorter_events, shorter_actions);
        assert(feeds(events[last], states[last + 1], actions[last]));
    }
}

/// The video that came from the server.
pub open spec fn received_bytes(run: Seq<PlayerEvent>) -> Seq<u8>
    decreases run.len(),
{
    if run.len() == 0 {
        seq![]
    } else {
        match run.last() {
            PlayerEvent::Data(data) => received_bytes(run.drop_last()) + data@,
            _ => received_bytes(run.drop_last()),
        }
    }
}

/// The video that was handed to the player.
pub open spec fn played_bytes(run: Seq<PlayerAction>) -> Seq<u8>
    decreases run.len(),
{
    if run.len() == 0 {
        seq![]
    } else {
        match run.last() {
            PlayerAction::Write(data) => played_bytes(run.drop_last()) + data@,
            _ => played_bytes(run.drop_last()),
        }
    }
}

/// All video that comes from the server is handed to the player, in the same
/// order and unchanged, however long the playing lasts.
pub proof fn law_player_is_faithful(
    states: Seq<PlayerState>,
    events: Seq<PlayerEvent>,
    actions: Seq<PlayerAction>,
)
    requires
        states.len() == events.len() + 1,
        events.len() == actions.len(),
        forall|i: int|
            0 <= i < events.len() ==> plays(
                states[i],
                #[trigger] events[i],
                states[i + 1],
                actions[i],
            ),
    ensures
        played_bytes(actions) == received_bytes(events),
    decreases events.len(),
{
    if events.len() > 0 {
        let last = events.len() - 1;
        let shorter_states = states.drop_last();
        let shorter_events = events.drop_last();
        let shorter_actions = actions.drop_last();
        assert forall|i: int| 0 <= i < shorter_events.len() implies plays(
            shorter_states[i],
            #[trigger] shorter_events[i],
            shorter_states[i + 1],
            shorter_actions[i],
        ) by {
            assert(shorter_events[i] == events[i]);
        }
        law_player_is_faithful(shorter_states, shorter_events, shorter_actions);
        assert(plays(states[last], events[last], states[last + 1], actions[last]));
    }
}

/// How the showing of a file goes on after any event: what was read is broadcast,
/// byte for byte; at the end of the file the program is awaited, and after the
/// program the file begins anew.
pub proof fn law_loop_step(event: LoopEvent, next: LoopState, action: LoopAction)
    requires
        shows(event, next, action),
    ensures
        event matches LoopEvent::Read(data) && data@.len() > 0 ==> next is Reading
            && action is Broadcast,
        event matches LoopEvent::Read(data) && data@.len() == 0 ==> next is Ending
            && action is AwaitEnd,
        event is Ended ==> next is Reading && action is Restart,
        action matches LoopAction::Broadcast(chunk) ==> (event matches LoopEvent::Read(data)
            && chunk@.len() == data@.len() && forall|i: int|
            0 <= i < data@.len() ==> #[trigger] chunk@[i] == data@[i]),
{
}

/// How the streaming of a channel goes on after any event: what came from the channel
/// is written, byte for byte; only a closed channel or a lost viewer ends it.
pub proof fn law_feed_step(event: FeedEvent, next: FeedState, action: FeedAction)
    requires
        feeds(event, next, action),
    ensures
        event is Data <==> action is Send,
        action is Send ==> next is Sending,
        action matches FeedAction::Send(sent) ==> (event matches FeedEvent::Data(data)
            && sent@.len() == data@.len() && forall|i: int|
            0 <= i < data@.len() ==> #[trigger] sent@[i] == data@[i]),
        event is ChannelClosed || event is SendLost <==> action is Stop,
        action is Stop <==> next is Over,
        event is Missed || event is Sent ==> next is Waiting && action is Continue,
{
}

/// How the playing of a stream goes on after any event: what came from the server is
/// handed to the player, byte for byte; a player that does not start is followed by
/// the one beside the viewer, once; and playing ends with the player, with the
/// stream or with an error, and for that reason.
pub proof fn law_player_step(
    state: PlayerState,
    event: PlayerEvent,
    next: PlayerState,
    action: PlayerAction,
)
    requires
        plays(state, event, next, action),
    ensures
        event is Data <==> action is Write,
        action is Write ==> next is Writing,
        action matches PlayerAction::Write(part) ==> (event matches PlayerEvent::Data(data)
            && part@.len() == data@.len() && forall|i: int|
            0 <= i < data@.len() ==> #[trigger] part@[i] == data@[i]),
        event is Started || event is Running <==> action is Read,
        action is Read ==> next is Reading,
        event is Written <==> action is Check,
        action is Check ==> next is Checking,
        action is Start <==> event is NotStarted && state is OnPath,
        action matches PlayerAction::Start(program) ==> next is Local && program@ == "./mpv"@,
        action is Fail <==> event is NotStarted && !(state is OnPath),
        action is Fail || action is Stop <==> next is Over,
        event is StreamClosed <==> action == PlayerAction::Stop(Ending::StreamClosed),
        event is ReadLost <==> action == PlayerAction::Stop(Ending::ReadLost),
        event is WriteLost <==> action == PlayerAction::Stop(Ending::PlayerGone),
        event is StatusLost <==> action == PlayerAction::Stop(Ending::StatusLost),
        event == (PlayerEvent::Ended { success: true }) <==> action == PlayerAction::Stop(
            Ending::PlayerDone,
        ),
        event == (PlayerEvent::Ended { success: false }) <==> action == PlayerAction::Stop(
            Ending::PlayerFailed,
        ),
{
}

/// The bytes that count of a buffer are those that were read into it, each in its
/// place, and no others.
pub proof fn law_filled_part(buffer: Seq<u8>, count: nat, data: Seq<u8>)
    requires
        count <= buffer.len(),
        is_filled_part(buffer, count, data),
    ensures
        data.len() == count,
        forall|i: int| 0 <= i < count ==> #[trigger] data[i] == buffer[i],
{
}

/// The converting program gets the whole path of the file, whatever it is, and seven
/// fixed options besides.
pub proof fn law_converter_gets_the_path(path: Seq<char>, args: Seq<String>)
    requires
        texts(args) == conversion(path),
    ensures
        args.len() == 8,
        args[0]@ == "-re"@,
        args[1]@ == "-i"@,
        args[2]@ == path,
        args[3]@ == "-c"@,
        args[4]@ == "copy"@,
        args[5]@ == "-f"@,
        args[6]@ == "mpegts"@,
        args[7]@ == "pipe:1"@,
{
    download::law_texts(args);
    let told = conversion(path);
    assert(told.len() == 8);
    assert(texts(args)[0] == told[0] && texts(args)[1] == told[1] && texts(args)[2] == told[2]
        && texts(args)[3] == told[3] && texts(args)[4] == told[4] && texts(args)[5] == told[5]
        && texts(args)[6] == told[6] && texts(args)[7] == told[7]);
}

} // verus!
