//! The viewer's side of a connection: picking a channel or handing in a link.

use vstd::prelude::*;
use vstd::utf8::encode_utf8;

use crate::proto;
use crate::proto::{announced_count, numbered, ProtoCommands};
use crate::session;
use crate::session::{answers_greeting, answers_request, Action, Stage};
use crate::text;
use crate::text::{decimal, lowered, number_value, split_at_space, trimmed};

verus! {

/// What a viewer is greeted with.
pub open spec fn welcome_text(num_channels: u16) -> Seq<char> {
    "Welcome to BU-Tube! There are "@ + decimal(num_channels as nat) + " TV stations available."@
}

/// What a viewer is greeted with.
pub fn welcome(num_channels: u16) -> (message: String)
    ensures
        message@ == welcome_text(num_channels),
{
    let mut message = "Welcome to BU-Tube! There are ".to_string();
    text::append_number(&mut message, num_channels as u32);
    message.append(" TV stations available.");
    message
}

/// The question for a channel, given how many there are.
pub open spec fn prompt_text(num_channels: u16) -> Seq<char> {
    "To upload a YouTube video, enter 'u'.\nTo exit the program, enter 'exit'\nSelect a channel by entering (0-"@
        + decimal((num_channels - 1) as nat) + ") username (e.g. '0 alice')"@
}

/// The question for a channel, given how many there are.
pub fn selection_prompt(num_channels: u16) -> (message: String)
    requires
        num_channels > 0,
    ensures
        message@ == prompt_text(num_channels),
{
    let mut message =
        "To upload a YouTube video, enter 'u'.\nTo exit the program, enter 'exit'\nSelect a channel by entering (0-".to_string();
    text::append_number(&mut message, num_channels as u32 - 1);
    message.append(") username (e.g. '0 alice')");
    message
}

/// Why no channel was connected.
#[derive(Debug, PartialEq, Eq)]
pub enum ChoiceError {
    /// The channel is beyond the last one.
    OutOfRange { last: u16 },
    /// What stands for the channel is no number of two bytes.
    NotANumber { entered: String },
    /// There is no name after the channel.
    NoUsername,
    /// The server knows no such channel.
    Refused,
    /// The server answered with something else.
    Unexpected { code: u8 },
}

impl ChoiceError {
    /// The error in words.
    pub open spec fn words(self) -> Seq<char> {
        match self {
            ChoiceError::OutOfRange { last } => "Channel number is out of range (0-"@ + decimal(
                last as nat,
            ) + ")"@,
            ChoiceError::NotANumber { entered } => "'"@ + entered@ + "' is not a valid number"@,
            ChoiceError::NoUsername =>
                "Input must include a channel number and a username (e.g., '0 alice')"@,
            ChoiceError::Refused => "Invalid channel selected."@,
            ChoiceError::Unexpected { code } => "Unexpected response from server: "@ + decimal(
                code as nat,
            ),
        }
    }

    /// The error in words.
    pub fn message(&self) -> (message: String)
        ensures
            message@ == self.words(),
    {
        match self {
            ChoiceError::OutOfRange { last } => {
                let mut message = "Channel number is out of range (0-".to_string();
                text::append_number(&mut message, *last as u32);
                message.append(")");
                message
            },
            ChoiceError::NotANumber { entered } => {
                let mut message = "'".to_string();
                message.append(entered.as_str());
                message.append("' is not a valid number");
                message
            },
            ChoiceError::NoUsername =>
                "Input must include a channel number and a username (e.g., '0 alice')".to_string(),
            ChoiceError::Refused => "Invalid channel selected.".to_string(),
            ChoiceError::Unexpected { code } => {
                let mut message = "Unexpected response from server: ".to_string();
                text::append_number(&mut message, *code as u32);
                message
            },
        }
    }
}

/// A channel to ask for, under a name.
#[derive(Debug, PartialEq, Eq)]
pub struct Choice {
    pub channel: u16,
    pub username: String,
    /// What to send to the server.
    pub request: Vec<u8>,
}

/// The number before the first space of an input, if there is one.
pub open spec fn entered_number(input: Seq<char>) -> Option<nat> {
    match split_at_space(input) {
        Some((number, _)) => match number_value(number, u16::MAX as nat) {
            Ok(channel) => Some(channel),
            Err(_) => None,
        },
        None => None,
    }
}

/// What an input asks for, given how many channels there are.
pub open spec fn chooses(
    input: Seq<char>,
    num_channels: u16,
    result: Result<Choice, ChoiceError>,
) -> bool {
    match split_at_space(input) {
        None => result matches Err(error) && error is NoUsername,
        Some((number, username)) => match entered_number(input) {
            None => result matches Err(ChoiceError::NotANumber { entered }) && entered@ == number,
            Some(channel) => if channel >= num_channels {
                result matches Err(ChoiceError::OutOfRange { last }) && last == num_channels - 1
            } else {
                &&& result matches Ok(choice)
                &&& choice.channel == channel
                &&& choice.username@ == username
                &&& choice.request@ == numbered(ProtoCommands::ChooseTvChannel, channel as u16)
            },
        },
    }
}

/// Reads a channel and a name from an input.
pub fn handle_channel_choice(input: &str, num_channels: u16) -> (result: Result<
    Choice,
    ChoiceError,
>)
    requires
        num_channels == 0 ==> entered_number(input@) is None,
    ensures
        chooses(input@, num_channels, result),
{
    match text::split_space(input) {
        None => Err(ChoiceError::NoUsername),
        Some((number, username)) => match text::parse_number(number, u16::MAX as u32) {
            Err(_) => Err(ChoiceError::NotANumber { entered: number.to_string() }),
            Ok(channel) => {
                let channel = channel as u16;
                if channel >= num_channels {
                    Err(ChoiceError::OutOfRange { last: num_channels - 1 })
                } else {
                    Ok(
                        Choice {
                            channel,
                            username: username.to_string(),
                            request: proto::choose_message(channel),
                        },
                    )
                }
            },
        },
    }
}

/// What the server's answer to a choice means.
pub open spec fn concludes(
    response: Seq<u8>,
    username: Seq<char>,
    result: Result<String, ChoiceError>,
) -> bool {
    if response[0] == ProtoCommands::Connected.code() {
        result matches Ok(name) && name@ == username
    } else if response[0] == ProtoCommands::InvalidChannel.code() {
        result matches Err(error) && error is Refused
    } else {
        result == Err::<String, ChoiceError>(ChoiceError::Unexpected { code: response[0] })
    }
}

/// Reads the server's answer to a choice: the name under which the viewer is
/// connected, or why there is no connection.
pub fn choice_outcome(response: [u8; 3], username: String) -> (result: Result<String, ChoiceError>)
    ensures
        concludes(response@, username@, result),
{
    match ProtoCommands::from_u8(response[0]) {
        Some(ProtoCommands::Connected) => Ok(username),
        Some(ProtoCommands::InvalidChannel) => Err(ChoiceError::Refused),
        _ => Err(ChoiceError::Unexpected { code: response[0] }),
    }
}

/// What a viewer wants.
#[derive(Debug, PartialEq, Eq)]
pub enum Selection {
    /// To leave.
    Exit,
    /// Nothing more: there is no further input.
    InputClosed,
    /// To hand in a link.
    Upload,
    /// To watch a channel.
    Watch(Choice),
    /// Something that cannot be had.
    Invalid(ChoiceError),
}

/// What a line selects, given how many channels there are.
pub open spec fn selects(line: Seq<char>, num_channels: u16, selection: Selection) -> bool {
    let input = trimmed(line);
    if lowered(input) == "exit"@ {
        selection is Exit
    } else if lowered(input) == "u"@ {
        selection is Upload
    } else {
        match selection {
            Selection::Watch(choice) => chooses(input, num_channels, Ok(choice)),
            Selection::Invalid(error) => chooses(input, num_channels, Err(error)),
            _ => false,
        }
    }
}

/// Decides what a viewer wants from the next line of input.
pub fn handle_channel_selection(line: Option<String>, num_channels: u16) -> (selection: Selection)
    requires
        num_channels > 0,
    ensures
        match line {
            Some(line) => selects(line@, num_channels, selection),
            None => selection is InputClosed,
        },
{
    match line {
        None => Selection::InputClosed,
        Some(line) => {
            let input = text::trim(line.as_str());
            if text::is_word(input, "exit") {
                Selection::Exit
            } else if text::is_word(input, "u") {
                Selection::Upload
            } else {
                match handle_channel_choice(input, num_channels) {
                    Ok(choice) => Selection::Watch(choice),
                    Err(error) => Selection::Invalid(error),
                }
            }
        },
    }
}

/// What a viewer does with the line that should hold a link.
#[derive(Debug, PartialEq, Eq)]
pub enum UploadStep {
    /// Give up: there is no further input.
    InputClosed,
    /// Give up: there is no link.
    NoLink,
    /// Write the command, then the link, and await the answer.
    Send { command: Vec<u8>, link: Vec<u8> },
}

/// Decides what to do with the line that should hold a link.
pub fn handle_upload(line: Option<String>) -> (step: UploadStep)
    ensures
        match line {
            None => step is InputClosed,
            Some(line) => if trimmed(line@).len() == 0 {
                step is NoLink
            } else {
                &&& step matches UploadStep::Send { command, link }
                &&& command@ == seq![ProtoCommands::Upload.code()]
                &&& link@ == encode_utf8(trimmed(line@))
            },
        },
{
    match line {
        None => UploadStep::InputClosed,
        Some(line) => {
            let link = text::trim(line.as_str());
            if link.is_empty() {
                UploadStep::NoLink
            } else {
                let (command, link) = proto::upload_messages(link);
                UploadStep::Send { command, link }
            }
        },
    }
}

/// What the server's answer to an upload means.
pub open spec fn upload_result(code: u8) -> ProtoCommands {
    if code == ProtoCommands::Upload.code() {
        ProtoCommands::Upload
    } else {
        ProtoCommands::FailedUpload
    }
}

/// What the server's answer to an upload means, in words.
pub open spec fn upload_notice(code: u8) -> Seq<char> {
    if code == ProtoCommands::Upload.code() {
        "Upload successful."@
    } else {
        "Unexpected response from server during upload."@
    }
}

/// What the server's answer to an upload means, as a command and in words.
pub fn upload_outcome(code: u8) -> (outcome: (ProtoCommands, String))
    ensures
        outcome.0 == upload_result(code),
        outcome.1@ == upload_notice(code),
{
    match ProtoCommands::from_u8(code) {
        Some(ProtoCommands::Upload) => (ProtoCommands::Upload, "Upload successful.".to_string()),
        _ => (
            ProtoCommands::FailedUpload,
            "Unexpected response from server during upload.".to_string(),
        ),
    }
}

/// What a viewer waits for, from the announcement of the channels to the
/// point where one is watched.
#[derive(Debug, PartialEq, Eq)]
pub enum ViewerStage {
    /// The announcement of the channels.
    Announcement,
    /// A line that selects something, when there are so many channels.
    Selecting { num_channels: u16 },
    /// The answer to a choice.
    Answer { num_channels: u16, channel: u16, username: String },
    /// A line that holds a link.
    Link,
    /// The answer to an upload.
    UploadAnswer,
    /// Nothing: this connection is used up, or a channel is watched on it.
    Over,
}

/// What happened to a viewer.
#[derive(Debug, PartialEq, Eq)]
pub enum ViewerEvent {
    /// Three bytes came from the server.
    Frame([u8; 3]),
    /// One byte came from the server.
    Byte(u8),
    /// The server's answer could not be read.
    AnswerLost,
    /// A line was typed, or there is no further input.
    Line(Option<String>),
}

/// What a viewer does next.
#[derive(Debug, PartialEq, Eq)]
pub enum ViewerAction {
    /// Show the text and read a line.
    Ask(String),
    /// Send the bytes and read three bytes.
    SendChoice(Vec<u8>),
    /// Write the command, then the link, and read one byte.
    SendLink { command: Vec<u8>, link: Vec<u8> },
    /// Show the text and watch the channel under this name.
    Watch { notice: String, username: String },
    /// Show the text, if there is one, and connect anew.
    Reconnect(Option<String>),
    /// Show the text and leave.
    Exit(String),
}

/// Whether an event is one that a stage waits for. An announcement of no
/// channel at all leaves no channel to ask for.
pub open spec fn viewer_awaits(stage: ViewerStage, event: ViewerEvent) -> bool {
    match stage {
        ViewerStage::Announcement => match event {
            ViewerEvent::Frame(frame) => announced_count(frame@) != Some(0u16),
            _ => false,
        },
        ViewerStage::Selecting { num_channels } => num_channels > 0 && event is Line,
        ViewerStage::Answer { num_channels, .. } => {
            num_channels > 0 && (event is Frame || event is AnswerLost)
        },
        ViewerStage::Link => event is Line,
        ViewerStage::UploadAnswer => event is Byte || event is AnswerLost,
        ViewerStage::Over => false,
    }
}

/// Asking for a channel, after something that is to be shown.
pub open spec fn asks_after(
    shown: Seq<char>,
    num_channels: u16,
    next: ViewerStage,
    action: ViewerAction,
) -> bool {
    &&& next == ViewerStage::Selecting { num_channels }
    &&& action matches ViewerAction::Ask(text)
    &&& text@ == shown + prompt_text(num_channels)
}

/// How a viewer goes on after the announcement of the channels.
pub open spec fn answers_announcement(
    frame: Seq<u8>,
    next: ViewerStage,
    action: ViewerAction,
) -> bool {
    match announced_count(frame) {
        Some(count) => asks_after(welcome_text(count) + "\n"@, count, next, action),
        None => {
            &&& next is Over
            &&& action matches ViewerAction::Reconnect(Some(notice))
            &&& notice@ == "Unexpected message from server"@
        },
    }
}

/// How a viewer goes on after a line that selects something.
pub open spec fn answers_selection(
    line: Option<String>,
    num_channels: u16,
    next: ViewerStage,
    action: ViewerAction,
) -> bool {
    match line {
        None => {
            &&& next is Over
            &&& action matches ViewerAction::Exit(notice)
            &&& notice@ == "User input channel closed. Exiting."@
        },
        Some(line) => {
            let input = trimmed(line@);
            if lowered(input) == "exit"@ {
                &&& next is Over
                &&& action matches ViewerAction::Exit(notice)
                &&& notice@ == "Exiting..."@
            } else if lowered(input) == "u"@ {
                &&& next is Link
                &&& action matches ViewerAction::Ask(text)
                &&& text@ == "Please enter the YouTube link to upload:"@
            } else {
                match action {
                    ViewerAction::SendChoice(request) => exists|choice: Choice|
                        {
                            &&& chooses(input, num_channels, Ok(choice))
                            &&& request@ == choice.request@
                            &&& next matches ViewerStage::Answer {
                                num_channels: count,
                                channel,
                                username,
                            }
                            &&& count == num_channels
                            &&& channel == choice.channel
                            &&& username@ == choice.username@
                        },
                    _ => exists|error: ChoiceError|
                        {
                            &&& #[trigger] chooses(input, num_channels, Err(error))
                            &&& asks_after(
                                "Error: "@ + error.words() + "\n"@,
                                num_channels,
                                next,
                                action,
                            )
                        },
                }
            }
        },
    }
}

/// What a viewer is told about a connected channel.
pub open spec fn connected_text(channel: u16) -> Seq<char> {
    "Connected to TV Channel "@ + decimal(channel as nat)
}

/// How a viewer goes on after the answer to a choice: a connected channel is
/// watched under the chosen name, whatever that name is.
pub open spec fn answers_answer(
    response: Seq<u8>,
    num_channels: u16,
    channel: u16,
    username: Seq<char>,
    next: ViewerStage,
    action: ViewerAction,
) -> bool {
    if response[0] == ProtoCommands::Connected.code() {
        &&& next is Over
        &&& action matches ViewerAction::Watch { notice, username: name }
        &&& notice@ == connected_text(channel)
        &&& name@ == username
    } else {
        let error = if response[0] == ProtoCommands::InvalidChannel.code() {
            ChoiceError::Refused
        } else {
            ChoiceError::Unexpected { code: response[0] }
        };
        asks_after("Error: "@ + error.words() + "\n"@, num_channels, next, action)
    }
}

/// How a viewer goes on after a line that should hold a link.
pub open spec fn answers_link_line(
    line: Option<String>,
    next: ViewerStage,
    action: ViewerAction,
) -> bool {
    match line {
        None => next is Over && action == ViewerAction::Reconnect(None),
        Some(line) => if trimmed(line@).len() == 0 {
            &&& next is Over
            &&& action matches ViewerAction::Reconnect(Some(notice))
            &&& notice@ == "You must provide a valid YouTube link."@
        } else {
            &&& next is UploadAnswer
            &&& action matches ViewerAction::SendLink { command, link }
            &&& command@ == seq![ProtoCommands::Upload.code()]
            &&& link@ == encode_utf8(trimmed(line@))
        },
    }
}

/// How a viewer goes on from any stage.
pub open spec fn proceeds(
    stage: ViewerStage,
    event: ViewerEvent,
    next: ViewerStage,
    action: ViewerAction,
) -> bool {
    match (stage, event) {
        (ViewerStage::Announcement, ViewerEvent::Frame(frame)) => answers_announcement(
            frame@,
            next,
            action,
        ),
        (ViewerStage::Selecting { num_channels }, ViewerEvent::Line(line)) => answers_selection(
            line,
            num_channels,
            next,
            action,
        ),
        (
            ViewerStage::Answer { num_channels, channel, username },
            ViewerEvent::Frame(frame),
        ) => answers_answer(frame@, num_channels, channel, username@, next, action),
        (ViewerStage::Answer { num_channels, .. }, ViewerEvent::AnswerLost) => asks_after(
            ""@,
            num_channels,
            next,
            action,
        ),
        (ViewerStage::Link, ViewerEvent::Line(line)) => answers_link_line(line, next, action),
        (ViewerStage::UploadAnswer, ViewerEvent::Byte(code)) => {
            &&& next is Over
            &&& action matches ViewerAction::Reconnect(Some(notice))
            &&& notice@ == upload_notice(code)
        },
        (ViewerStage::UploadAnswer, ViewerEvent::AnswerLost) => {
            next is Over && action == ViewerAction::Reconnect(None)
        },
        _ => false,
    }
}

fn ask_after(shown: String, num_channels: u16) -> (res: (ViewerStage, ViewerAction))
    requires
        num_channels > 0,
    ensures
        asks_after(shown@, num_channels, res.0, res.1),
{
    let mut text = shown;
    text.append(selection_prompt(num_channels).as_str());
    (ViewerStage::Selecting { num_channels }, ViewerAction::Ask(text))
}

fn ask_after_error(error: &ChoiceError, num_channels: u16) -> (res: (ViewerStage, ViewerAction))
    requires
        num_channels > 0,
    ensures
        asks_after("Error: "@ + error.words() + "\n"@, num_channels, res.0, res.1),
{
    let mut shown = "Error: ".to_string();
    shown.append(error.message().as_str());
    shown.append("\n");
    ask_after(shown, num_channels)
}

fn handle_announcement(frame: [u8; 3]) -> (res: (ViewerStage, ViewerAction))
    requires
        announced_count(frame@) != Some(0u16),
    ensures
        answers_announcement(frame@, res.0, res.1),
{
    match proto::channel_count(frame) {
        Some(count) => {
            let mut shown = welcome(count);
            shown.append("\n");
            ask_after(shown, count)
        },
        None => (
            ViewerStage::Over,
            ViewerAction::Reconnect(Some("Unexpected message from server".to_string())),
        ),
    }
}

fn handle_selection(line: Option<String>, num_channels: u16) -> (res: (ViewerStage, ViewerAction))
    requires
        num_channels > 0,
    ensures
        answers_selection(line, num_channels, res.0, res.1),
{
    match handle_channel_selection(line, num_channels) {
        Selection::InputClosed => (
            ViewerStage::Over,
            ViewerAction::Exit("User input channel closed. Exiting.".to_string()),
        ),
        Selection::Exit => (ViewerStage::Over, ViewerAction::Exit("Exiting...".to_string())),
        Selection::Upload => (
            ViewerStage::Link,
            ViewerAction::Ask("Please enter the YouTube link to upload:".to_string()),
        ),
        Selection::Watch(choice) => {
            assert(chooses(trimmed(line->Some_0@), num_channels, Ok(choice)));
            (
                ViewerStage::Answer {
                    num_channels,
                    channel: choice.channel,
                    username: choice.username,
                },
                ViewerAction::SendChoice(choice.request),
            )
        },
        Selection::Invalid(error) => {
            assert(chooses(trimmed(line->Some_0@), num_channels, Err(error)));
            ask_after_error(&error, num_channels)
        },
    }
}

fn handle_answer(
    frame: [u8; 3],
    num_channels: u16,
    channel: u16,
    username: String,
) -> (res: (ViewerStage, ViewerAction))
    requires
        num_channels > 0,
    ensures
        answers_answer(frame@, num_channels, channel, username@, res.0, res.1),
{
    match choice_outcome(frame, username) {
        Ok(username) => {
            let mut notice = "Connected to TV Channel ".to_string();
            text::append_number(&mut notice, channel as u32);
            (ViewerStage::Over, ViewerAction::Watch { notice, username })
        },
        Err(error) => ask_after_error(&error, num_channels),
    }
}

/// Decides how a viewer goes on after an event, from the announcement of the
/// channels to the point where one is watched.
pub fn user_ops(stage: ViewerStage, event: ViewerEvent) -> (res: (ViewerStage, ViewerAction))
    requires
        viewer_awaits(stage, event),
    ensures
        proceeds(stage, event, res.0, res.1),
{
    match (stage, event) {
        (ViewerStage::Announcement, ViewerEvent::Frame(frame)) => handle_announcement(frame),
        (ViewerStage::Selecting { num_channels }, ViewerEvent::Line(line)) => handle_selection(
            line,
            num_channels,
        ),
        (
            ViewerStage::Answer { num_channels, channel, username },
            ViewerEvent::Frame(frame),
        ) => handle_answer(frame, num_channels, channel, username),
        (ViewerStage::Answer { num_channels, .. }, _) => ask_after("".to_string(), num_channels),
        (ViewerStage::Link, ViewerEvent::Line(line)) => match handle_upload(line) {
            UploadStep::InputClosed => (ViewerStage::Over, ViewerAction::Reconnect(None)),
            UploadStep::NoLink => (
                ViewerStage::Over,
                ViewerAction::Reconnect(Some("You must provide a valid YouTube link.".to_string())),
            ),
            UploadStep::Send { command, link } => (
                ViewerStage::UploadAnswer,
                ViewerAction::SendLink { command, link },
            ),
        },
        (ViewerStage::UploadAnswer, ViewerEvent::Byte(code)) => {
            let (_, notice) = upload_outcome(code);
            (ViewerStage::Over, ViewerAction::Reconnect(Some(notice)))
        },
        (_, _) => (ViewerStage::Over, ViewerAction::Reconnect(None)),
    }
}

/// Every choice that a viewer can make from an announcement is connected: the
/// server streams the chosen channel, and its reply tells the viewer so.
pub proof fn law_choice_is_connected(
    num_channels: usize,
    count: u16,
    input: Seq<char>,
    choice: Choice,
    next: Stage,
    action: Action,
    username: Seq<char>,
    result: Result<String, ChoiceError>,
)
    requires
        announced_count(numbered(ProtoCommands::ChannelList, (num_channels % 65536) as u16))
            == Some(count),
        chooses(input, count, Ok(choice)),
        answers_request(choice.request@, num_channels, next, action),
        action matches Action::Stream { reply, .. } ==> concludes(reply@, username, result),
    ensures
        action matches Action::Stream { channel, .. } && channel == choice.channel,
        result matches Ok(name) && name@ == username,
{
    let announcement = numbered(ProtoCommands::ChannelList, (num_channels % 65536) as u16);
    session::law_announced_channel_is_connected(
        num_channels,
        announcement,
        count,
        choice.channel,
        next,
        action,
    );
}

/// Every choice that a viewer makes from an announcement ends with the viewer
/// watching: the server streams the chosen channel, and the viewer watches it
/// under the chosen name. The two sides have greeted each other, and each reads
/// what the other sends.
pub proof fn law_choice_is_watched(
    num_channels: usize,
    greeted: (Stage, Action),
    announcement: [u8; 3],
    asked: (ViewerStage, ViewerAction),
    line: String,
    choice: Choice,
    sent: (ViewerStage, ViewerAction),
    request: [u8; 3],
    answered: (Stage, Action),
    response: [u8; 3],
    concluded: (ViewerStage, ViewerAction),
)
    requires
        answers_greeting(numbered(ProtoCommands::Hello, 0), num_channels, greeted.0, greeted.1),
        greeted.1 matches Action::Announce(reply) ==> announcement@ == reply@,
        announced_count(announcement@) != Some(0u16),
        proceeds(
            ViewerStage::Announcement,
            ViewerEvent::Frame(announcement),
            asked.0,
            asked.1,
        ),
        asked.0 matches ViewerStage::Selecting { num_channels: count } ==> selects(
            line@,
            count,
            Selection::Watch(choice),
        ),
        proceeds(asked.0, ViewerEvent::Line(Some(line)), sent.0, sent.1),
        sent.1 matches ViewerAction::SendChoice(bytes) ==> request@ == bytes@,
        answers_request(request@, num_channels, answered.0, answered.1),
        answered.1 matches Action::Stream { reply, .. } ==> response@ == reply@,
        proceeds(sent.0, ViewerEvent::Frame(response), concluded.0, concluded.1),
    ensures
        answered.1 matches Action::Stream { channel, .. } && channel == choice.channel,
        concluded.0 is Over,
        concluded.1 matches ViewerAction::Watch { notice, username } && username@
            == choice.username@ && notice@ == connected_text(choice.channel),
{
    session::law_greeting_is_answered(num_channels, greeted.0, greeted.1);
    let count = (num_channels % 65536) as u16;
    assert(asked.0 == ViewerStage::Selecting { num_channels: count });
    assert(chooses(trimmed(line@), count, Ok(choice)));
    assert(sent.1 is SendChoice);
    assert(request@ == choice.request@);
    session::law_announced_channel_is_connected(
        num_channels,
        announcement@,
        count,
        choice.channel,
        answered.0,
        answered.1,
    );
}

/// A viewer takes an upload for done exactly when the server answers that it
/// is; the answer that there was no link counts as a failure.
pub proof fn law_upload_answer_is_understood(code: u8)
    ensures
        upload_result(code) is Upload <==> code == ProtoCommands::Upload.code(),
        upload_result(ProtoCommands::FailedUpload.code()) is FailedUpload,
{
}

/// A viewer that reads the byte of a refusal reports the channel as invalid.
pub proof fn law_refusal_is_reported(
    response: Seq<u8>,
    username: Seq<char>,
    result: Result<String, ChoiceError>,
)
    requires
        response.len() > 0,
        response[0] == ProtoCommands::InvalidChannel.code(),
        concludes(response, username, result),
    ensures
        result matches Err(error) && error.words() == "Invalid channel selected."@,
{
}

/// The channel that a viewer asks for is below the number of channels, and a
/// name is never empty: the line is trimmed before it is split.
pub proof fn law_choice_is_sound(line: Seq<char>, num_channels: u16, choice: Choice)
    requires
        selects(line, num_channels, Selection::Watch(choice)),
    ensures
        choice.channel < num_channels,
        choice.username@.len() > 0,
        !text::is_white_space(choice.username@.last()),
{
    let input = trimmed(line);
    text::law_cut(line, text::CutSet::WhiteSpace);
    text::law_split_at_space(input);
    if choice.username@.len() == 0 {
        assert(input.last() == ' ');
    } else {
        assert(choice.username@.last() == input.last());
    }
}

/// A link that a viewer uploads reaches the server unchanged, when its bytes
/// arrive as three bytes and then the rest in a buffer of zeros. Of the links
/// that can be typed, those of a single byte are left out, and those with a
/// zero byte as the first, the second or the last.
pub proof fn law_typed_link_is_downloaded(
    line: Seq<char>,
    command: Seq<u8>,
    link: Seq<u8>,
    unused: nat,
    num_channels: usize,
    waiting: Stage,
    reading: Action,
    next: Stage,
    action: Action,
)
    requires
        trimmed(line).len() > 0,
        command == seq![ProtoCommands::Upload.code()],
        link == encode_utf8(trimmed(line)),
        link.len() >= 2,
        trimmed(line)[0] != '\0',
        trimmed(line).last() != '\0',
        link[1] != 0,
        answers_request((command + link).take(3), num_channels, waiting, reading),
        waiting matches Stage::Link { head } && session::answers_link(
            head@ + (link.skip(2) + Seq::new(unused, |i: int| 0u8)),
            next,
            action,
        ),
    ensures
        next is Download,
        action matches Action::Download(text) && text@ == trimmed(line),
{
    session::law_uploaded_link_read_back(
        trimmed(line),
        unused,
        num_channels,
        waiting,
        reading,
        next,
        action,
    );
}

/// Whether an event can come of an action. The next line may be anything, and
/// so may the bytes from the server.
pub open spec fn viewer_brings(action: ViewerAction, event: ViewerEvent) -> bool {
    match action {
        ViewerAction::Ask(_) => event is Line,
        ViewerAction::SendChoice(_) => event is Frame || event is AnswerLost,
        ViewerAction::SendLink { .. } => event is Byte || event is AnswerLost,
        _ => false,
    }
}

/// A viewer is never caught off guard: what can come of its action is what it
/// then waits for.
pub proof fn law_viewer_keeps_step(
    stage: ViewerStage,
    event: ViewerEvent,
    next: ViewerStage,
    action: ViewerAction,
    following: ViewerEvent,
)
    requires
        viewer_awaits(stage, event),
        proceeds(stage, event, next, action),
    ensures
        viewer_brings(action, following) <==> viewer_awaits(next, following),
{
}

/// The texts for a viewer that name a number name that very number, between the same
/// words for every number.
pub proof fn law_texts_name_the_number(number: u16, code: u8)
    ensures
        welcome_text(number).take(30) == "Welcome to BU-Tube! There are "@,
        welcome_text(number).skip(30) == decimal(number as nat) + " TV stations available."@,
        number > 0 ==> prompt_text(number).take(104)
            == "To upload a YouTube video, enter 'u'.\nTo exit the program, enter 'exit'\nSelect a channel by entering (0-"@,
        number > 0 ==> prompt_text(number).skip(104) == decimal((number - 1) as nat)
            + ") username (e.g. '0 alice')"@,
        connected_text(number).take(24) == "Connected to TV Channel "@,
        connected_text(number).skip(24) == decimal(number as nat),
        (ChoiceError::OutOfRange { last: number }).words().take(34)
            == "Channel number is out of range (0-"@,
        (ChoiceError::OutOfRange { last: number }).words().skip(34) == decimal(
            number as nat,
        ) + ")"@,
        (ChoiceError::Unexpected { code }).words().take(33)
            == "Unexpected response from server: "@,
        (ChoiceError::Unexpected { code }).words().skip(33) == decimal(code as nat),
{
    reveal_strlit("Welcome to BU-Tube! There are ");
    reveal_strlit(" TV stations available.");
    reveal_strlit("To upload a YouTube video, enter 'u'.\nTo exit the program, enter 'exit'\nSelect a channel by entering (0-");
    reveal_strlit(") username (e.g. '0 alice')");
    reveal_strlit("Connected to TV Channel ");
    reveal_strlit("Channel number is out of range (0-");
    reveal_strlit(")");
    reveal_strlit("Unexpected response from server: ");
    assert(welcome_text(number).take(30) =~= "Welcome to BU-Tube! There are "@);
    assert(welcome_text(number).skip(30) =~= decimal(number as nat) + " TV stations available."@);
    if number > 0 {
        assert(prompt_text(number).take(104)
            =~= "To upload a YouTube video, enter 'u'.\nTo exit the program, enter 'exit'\nSelect a channel by entering (0-"@);
        assert(prompt_text(number).skip(104) =~= decimal((number - 1) as nat)
            + ") username (e.g. '0 alice')"@);
    }
    assert(connected_text(number).take(24) =~= "Connected to TV Channel "@);
    assert(connected_text(number).skip(24) =~= decimal(number as nat));
    let range = ChoiceError::OutOfRange { last: number };
    assert(range.words().take(34) =~= "Channel number is out of range (0-"@);
    assert(range.words().skip(34) =~= decimal(number as nat) + ")"@);
    let unexpected = ChoiceError::Unexpected { code };
    assert(unexpected.words().take(33) =~= "Unexpected response from server: "@);
    assert(unexpected.words().skip(33) =~= decimal(code as nat));
}

/// An input that is no number is reported whole, between quotes.
pub proof fn law_entered_text_is_reported(entered: String)
    ensures
        ({
            let words = (ChoiceError::NotANumber { entered }).words();
            &&& words.len() == entered@.len() + 24
            &&& words[0] == '\''
            &&& words.subrange(1, 1 + entered@.len() as int) == entered@
            &&& words.skip(1 + entered@.len() as int) == "' is not a valid number"@
        }),
{
    reveal_strlit("'");
    reveal_strlit("' is not a valid number");
    let words = (ChoiceError::NotANumber { entered }).words();
    assert(words.subrange(1, 1 + entered@.len() as int) =~= entered@);
    assert(words.skip(1 + entered@.len() as int) =~= "' is not a valid number"@);
}

/// Whoever enters the digits of a channel on offer, a space and a name gets that very
/// channel under that very name, and the request names it.
pub proof fn law_entered_channel_is_chosen(
    channel: u16,
    name: Seq<char>,
    num_channels: u16,
    result: Result<Choice, ChoiceError>,
)
    requires
        channel < num_channels,
        chooses(decimal(channel as nat) + seq![' '] + name, num_channels, result),
    ensures
        result matches Ok(choice) && choice.channel == channel && choice.username@ == name
            && choice.request@.len() == 3 && choice.request@[0] == 34 && choice.request@[1] + 256
            * choice.request@[2] == channel,
{
    let digits = decimal(channel as nat);
    let input = digits + seq![' '] + name;
    text::law_number_read_back(channel as nat, u16::MAX as nat);
    text::law_split_at_space(input);
    assert(input[digits.len() as int] == ' ');
    assert(input.contains(' '));
    let (head, tail) = split_at_space(input)->Some_0;
    lemma_same_split(digits, name, head, tail);
    proto::law_numbered_in_bytes(ProtoCommands::ChooseTvChannel, channel);
}

proof fn lemma_same_split(
    digits: Seq<char>,
    name: Seq<char>,
    head: Seq<char>,
    tail: Seq<char>,
)
    requires
        forall|i: int| 0 <= i < digits.len() ==> #[trigger] digits[i] != ' ',
        !head.contains(' '),
        digits + seq![' '] + name == head + seq![' '] + tail,
    ensures
        digits == head,
        name == tail,
{
    let input = digits + seq![' '] + name;
    let other = head + seq![' '] + tail;
    if head.len() < digits.len() {
        assert(other[head.len() as int] == ' ');
        assert(input[head.len() as int] == digits[head.len() as int]);
    }
    if digits.len() < head.len() {
        assert(input[digits.len() as int] == ' ');
        assert(other[digits.len() as int] == head[digits.len() as int]);
        assert(head.contains(' '));
    }
    assert(digits =~= head) by {
        assert forall|i: int| 0 <= i < digits.len() implies digits[i] == head[i] by {
            assert(input[i] == digits[i] && other[i] == head[i]);
        }
    }
    assert(name =~= tail) by {
        assert(input.len() == other.len());
        assert forall|i: int| 0 <= i < name.len() implies name[i] == tail[i] by {
            let at = digits.len() + 1 + i;
            assert(input[at] == name[i] && other[at] == tail[i]);
        }
    }
}

/// What any input asks for, by what stands before and after its first space: the
/// number before it is the channel if it is on offer, what follows is the name, and
/// an input without a space, without a number or with one that is too large is
/// refused for that reason.
pub proof fn law_choice_of_any_input(
    input: Seq<char>,
    head: Seq<char>,
    tail: Seq<char>,
    num_channels: u16,
    result: Result<Choice, ChoiceError>,
)
    requires
        chooses(input, num_channels, result),
    ensures
        !input.contains(' ') ==> (result matches Err(error) && error is NoUsername),
        input == head + seq![' '] + tail && !head.contains(' ') ==> match number_value(
            head,
            65535,
        ) {
            Err(_) => result matches Err(ChoiceError::NotANumber { entered }) && entered@ == head,
            Ok(number) => if number < num_channels {
                result matches Ok(choice) && choice.channel == number && choice.username@ == tail
                    && choice.request@.len() == 3 && choice.request@[0] == 34 && choice.request@[1]
                    + 256 * choice.request@[2] == number
            } else {
                result matches Err(ChoiceError::OutOfRange { last }) && last == num_channels - 1
            },
        },
{
    text::law_split_at_space(input);
    if !input.contains(' ') {
        if let Some((first, rest)) = split_at_space(input) {
            assert(input[first.len() as int] == ' ');
        }
    }
    if input == head + seq![' '] + tail && !head.contains(' ') {
        assert(input[head.len() as int] == ' ');
        let (first, rest) = split_at_space(input)->Some_0;
        assert forall|i: int| 0 <= i < head.len() implies #[trigger] head[i] != ' ' by {
            if head[i] == ' ' {
                assert(head.contains(' '));
            }
        }
        lemma_same_split(head, tail, first, rest);
        if let Ok(number) = number_value(head, 65535) {
            text::law_number_within_bound(head, 65535);
            proto::law_numbered_in_bytes(ProtoCommands::ChooseTvChannel, number as u16);
        }
    }
}

/// An answer that begins with 2 connects the viewer under its name; one that begins
/// with 1 refuses; any other is unexpected, and its first byte is reported.
pub proof fn law_answer_in_bytes(
    response: Seq<u8>,
    username: Seq<char>,
    result: Result<String, ChoiceError>,
)
    requires
        response.len() > 0,
        concludes(response, username, result),
    ensures
        response[0] == 2 ==> (result matches Ok(name) && name@ == username),
        response[0] == 1 ==> (result matches Err(error) && error is Refused),
        response[0] != 1 && response[0] != 2 ==> (
        result matches Err(ChoiceError::Unexpected { code }) && code == response[0]),
{
}

/// The lines that mean to leave are the word exit in any case, those that mean to
/// upload the letter u in either case, white space around them aside. Any other line
/// is a choice, by all that stands between the white space.
pub proof fn law_selection_of_any_line(line: Seq<char>, num_channels: u16, selection: Selection)
    requires
        selects(line, num_channels, selection),
    ensures
        ({
            let input = trimmed(line);
            &&& selection is Exit <==> {
                &&& input.len() == 4
                &&& (input[0] == 'e' || input[0] == 'E')
                &&& (input[1] == 'x' || input[1] == 'X')
                &&& (input[2] == 'i' || input[2] == 'I')
                &&& (input[3] == 't' || input[3] == 'T')
            }
            &&& selection is Upload <==> input.len() == 1 && (input[0] == 'u' || input[0] == 'U')
            &&& !(selection is InputClosed)
            &&& selection matches Selection::Watch(choice) ==> chooses(
                input,
                num_channels,
                Ok(choice),
            )
            &&& selection matches Selection::Invalid(error) ==> chooses(
                input,
                num_channels,
                Err(error),
            )
        }),
{
    reveal_strlit("exit");
    reveal_strlit("u");
    lemma_words(trimmed(line));
}

proof fn lemma_words(input: Seq<char>)
    ensures
        lowered(input) == "exit"@ <==> {
            &&& input.len() == 4
            &&& (input[0] == 'e' || input[0] == 'E')
            &&& (input[1] == 'x' || input[1] == 'X')
            &&& (input[2] == 'i' || input[2] == 'I')
            &&& (input[3] == 't' || input[3] == 'T')
        },
        lowered(input) == "u"@ <==> input.len() == 1 && (input[0] == 'u' || input[0] == 'U'),
{
    reveal_strlit("exit");
    reveal_strlit("u");
    let low = lowered(input);
    assert(low.len() == input.len());
    if input.len() == 4 {
        assert(low[0] == text::ascii_lower(input[0]) && low[1] == text::ascii_lower(input[1])
            && low[2] == text::ascii_lower(input[2]) && low[3] == text::ascii_lower(input[3]));
        assert(low =~= "exit"@ <==> low[0] == 'e' && low[1] == 'x' && low[2] == 'i' && low[3]
            == 't');
    }
    if input.len() == 1 {
        assert(low[0] == text::ascii_lower(input[0]));
        assert(low =~= "u"@ <==> low[0] == 'u');
    }
    if low == "exit"@ {
        assert(low.len() == 4);
    }
    if low == "u"@ {
        assert(low.len() == 1);
    }
}

/// An upload has succeeded exactly when the answer is 3, and the viewer is told so.
pub proof fn law_upload_answer_in_words(code: u8)
    ensures
        upload_result(code) is Upload <==> code == 3,
        upload_result(code) is Upload || upload_result(code) is FailedUpload,
        code == 3 ==> upload_notice(code) == "Upload successful."@,
        code != 3 ==> upload_notice(code) == "Unexpected response from server during upload."@,
{
}

/// An announcement makes the viewer ask for one of the announced channels, after a
/// welcome; anything else makes it connect anew.
pub proof fn law_viewer_after_announcement(
    frame: [u8; 3],
    next: ViewerStage,
    action: ViewerAction,
)
    requires
        proceeds(ViewerStage::Announcement, ViewerEvent::Frame(frame), next, action),
    ensures
        frame@[0] == 0 ==> (next matches ViewerStage::Selecting { num_channels } && num_channels
            == frame@[1] + 256 * frame@[2] && (action matches ViewerAction::Ask(text) && text@
            == welcome_text(num_channels) + "\n"@ + prompt_text(num_channels))),
        frame@[0] != 0 ==> next is Over && (action matches ViewerAction::Reconnect(Some(notice))
            && notice@ == "Unexpected message from server"@),
{
    proto::law_announcement_in_bytes(frame@);
}

/// A line that selects something makes the viewer leave, ask for a link, send the
/// request of the choice and remember it, or ask again after the error.
pub proof fn law_viewer_after_selection(
    num_channels: u16,
    line: Option<String>,
    next: ViewerStage,
    action: ViewerAction,
    choice: Choice,
    error: ChoiceError,
)
    requires
        num_channels > 0,
        proceeds(ViewerStage::Selecting { num_channels }, ViewerEvent::Line(line), next, action),
    ensures
        line is None ==> next is Over && (action matches ViewerAction::Exit(notice) && notice@
            == "User input channel closed. Exiting."@),
        line matches Some(text) ==> {
            let input = trimmed(text@);
            let exits = selects(text@, num_channels, Selection::Exit);
            let uploads = selects(text@, num_channels, Selection::Upload);
            &&& exits ==> next is Over && (action matches ViewerAction::Exit(notice) && notice@
                == "Exiting..."@)
            &&& uploads ==> next is Link && (action matches ViewerAction::Ask(question)
                && question@ == "Please enter the YouTube link to upload:"@)
            &&& !exits && !uploads && chooses(input, num_channels, Ok(choice)) ==> (
            action matches ViewerAction::SendChoice(request) && request@ == choice.request@) && (
            next matches ViewerStage::Answer { num_channels: count, channel, username } && count
                == num_channels && channel == choice.channel && username@ == choice.username@)
            &&& !exits && !uploads && chooses(input, num_channels, Err(error)) ==> next == (
            ViewerStage::Selecting { num_channels }) && (action matches ViewerAction::Ask(question)
                && question@ == "Error: "@ + error.words() + "\n"@ + prompt_text(num_channels))
        },
{
    if let Some(text) = line {
        let input = trimmed(text@);
        lemma_words(input);
        if lowered(input) != "exit"@ && lowered(input) != "u"@ {
            if let ViewerAction::SendChoice(_) = action {
                let made = choose|made: Choice|
                    {
                        &&& chooses(input, num_channels, Ok(made))
                        &&& action->SendChoice_0@ == made.request@
                        &&& next matches ViewerStage::Answer {
                            num_channels: count,
                            channel,
                            username,
                        }
                        &&& count == num_channels
                        &&& channel == made.channel
                        &&& username@ == made.username@
                    };
                assert(chooses(input, num_channels, Ok(made)));
            } else {
                let made = choose|made: ChoiceError|
                    {
                        &&& #[trigger] chooses(input, num_channels, Err(made))
                        &&& asks_after(
                            "Error: "@ + made.words() + "\n"@,
                            num_channels,
                            next,
                            action,
                        )
                    };
                if chooses(input, num_channels, Err(error)) {
                    assert(made.words() == error.words());
                }
            }
        }
    }
}

/// After the answer to a choice the viewer watches the channel under its name if the
/// answer begins with 2, and asks again if it does not, after the error if there was
/// an answer at all.
pub proof fn law_viewer_after_answer(
    num_channels: u16,
    channel: u16,
    username: String,
    event: ViewerEvent,
    next: ViewerStage,
    action: ViewerAction,
)
    requires
        proceeds(
            ViewerStage::Answer { num_channels, channel, username },
            event,
            next,
            action,
        ),
    ensures
        event is AnswerLost ==> next == (ViewerStage::Selecting { num_channels }) && (
        action matches ViewerAction::Ask(question) && question@ == prompt_text(num_channels)),
        event matches ViewerEvent::Frame(frame) ==> {
            &&& frame@[0] == 2 ==> next is Over && (
            action matches ViewerAction::Watch { notice, username: name } && name@ == username@
                && notice@ == connected_text(channel))
            &&& frame@[0] == 1 ==> next == (ViewerStage::Selecting { num_channels }) && (
            action matches ViewerAction::Ask(question) && question@
                == "Error: Invalid channel selected.\n"@ + prompt_text(num_channels))
            &&& frame@[0] != 1 && frame@[0] != 2 ==> next == (
            ViewerStage::Selecting { num_channels }) && (action matches ViewerAction::Ask(question)
                && question@ == "Error: Unexpected response from server: "@ + decimal(
                frame@[0] as nat,
            ) + "\n"@ + prompt_text(num_channels))
        },
        event is AnswerLost || event is Frame,
{
    reveal_strlit("");
    reveal_strlit("\n");
    reveal_strlit("Error: ");
    reveal_strlit("Invalid channel selected.");
    reveal_strlit("Error: Invalid channel selected.\n");
    reveal_strlit("Unexpected response from server: ");
    reveal_strlit("Error: Unexpected response from server: ");
    match event {
        ViewerEvent::AnswerLost => {
            assert(""@ + prompt_text(num_channels) =~= prompt_text(num_channels));
        },
        ViewerEvent::Frame(frame) => {
            assert("Error: "@ + "Invalid channel selected."@ + "\n"@
                =~= "Error: Invalid channel selected.\n"@);
            assert("Error: "@ + ("Unexpected response from server: "@ + decimal(frame@[0] as nat))
                =~= "Error: Unexpected response from server: "@ + decimal(frame@[0] as nat));
        },
        _ => {},
    }
}

/// A line that should hold a link makes the viewer send 3 and then the bytes of all
/// that stands between the white space around the line, and connect anew where
/// nothing does.
pub proof fn law_viewer_after_link(line: Option<String>, next: ViewerStage, action: ViewerAction)
    requires
        proceeds(ViewerStage::Link, ViewerEvent::Line(line), next, action),
    ensures
        line is None ==> next is Over && action == ViewerAction::Reconnect(None),
        line matches Some(typed) ==> if trimmed(typed@).len() == 0 {
            next is Over && (action matches ViewerAction::Reconnect(Some(notice)) && notice@
                == "You must provide a valid YouTube link."@)
        } else {
            next is UploadAnswer && (action matches ViewerAction::SendLink { command, link }
                && command@ == seq![3u8] && link@ == encode_utf8(trimmed(typed@)))
        },
{
}

/// After the answer to an upload the viewer connects anew, whatever the answer is, and
/// says what it was if there was one.
pub proof fn law_viewer_after_upload(event: ViewerEvent, next: ViewerStage, action: ViewerAction)
    requires
        proceeds(ViewerStage::UploadAnswer, event, next, action),
    ensures
        next is Over,
        event is Byte || event is AnswerLost,
        event is AnswerLost ==> action == ViewerAction::Reconnect(None),
        event matches ViewerEvent::Byte(code) ==> (
        action matches ViewerAction::Reconnect(Some(notice)) && notice@ == upload_notice(code)),
{
}

} // verus!
