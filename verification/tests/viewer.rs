use bear_tv::chat::{chat_frame, entrance_frame};
use bear_tv::proto::ProtoCommands;
use bear_tv::session::{handle_stream, Action, Event, Stage};
use bear_tv::viewer::{
    choice_outcome, handle_channel_choice, handle_channel_selection, handle_upload,
    selection_prompt, upload_outcome, user_ops, welcome, Choice, ChoiceError, Selection,
    UploadStep, ViewerAction, ViewerEvent, ViewerStage,
};

fn line(text: &str) -> Option<String> {
    Some(text.to_string())
}

fn choice(channel: u16, username: &str, request: [u8; 3]) -> Choice {
    Choice { channel, username: username.to_string(), request: request.to_vec() }
}

#[test]
fn texts_name_the_channels() {
    assert_eq!(welcome(12), "Welcome to BU-Tube! There are 12 TV stations available.");
    assert_eq!(
        selection_prompt(3),
        "To upload a YouTube video, enter 'u'.\n\
         To exit the program, enter 'exit'\n\
         Select a channel by entering (0-2) username (e.g. '0 alice')"
    );
}

#[test]
fn a_channel_and_a_name_are_a_choice() {
    assert_eq!(handle_channel_choice("0 alice", 1), Ok(choice(0, "alice", [34, 0, 0])));
    assert_eq!(
        handle_channel_choice("+258 alice smith", 300),
        Ok(choice(258, "alice smith", [34, 2, 1]))
    );
    assert_eq!(handle_channel_choice("1  bob", 2), Ok(choice(1, " bob", [34, 1, 0])));
}

#[test]
fn each_choice_error_says_why() {
    let cases = [
        ("3 alice", "Channel number is out of range (0-2)"),
        ("x alice", "'x' is not a valid number"),
        ("-1 alice", "'-1' is not a valid number"),
        ("65536 alice", "'65536' is not a valid number"),
        ("0", "Input must include a channel number and a username (e.g., '0 alice')"),
        ("", "Input must include a channel number and a username (e.g., '0 alice')"),
    ];
    for (input, message) in cases {
        assert_eq!(handle_channel_choice(input, 3).unwrap_err().message(), message);
    }
    assert_eq!(handle_channel_choice("x y", 0).unwrap_err().message(), "'x' is not a valid number");
}

#[test]
fn answers_to_a_choice_are_understood() {
    let name = "alice".to_string();
    assert_eq!(choice_outcome([2, 0, 0], name.clone()), Ok(name.clone()));
    let refused = choice_outcome([1, 0, 0], name.clone()).unwrap_err();
    assert_eq!(refused, ChoiceError::Refused);
    assert_eq!(refused.message(), "Invalid channel selected.");
    for code in [0, 3, 4, 33, 34, 200] {
        let unexpected = choice_outcome([code, 0, 0], name.clone()).unwrap_err();
        assert_eq!(unexpected.message(), format!("Unexpected response from server: {code}"));
    }
}

#[test]
fn lines_select() {
    assert_eq!(handle_channel_selection(line(" EXIT "), 2), Selection::Exit);
    assert_eq!(handle_channel_selection(line("U"), 2), Selection::Upload);
    assert_eq!(handle_channel_selection(None, 2), Selection::InputClosed);
    assert_eq!(
        handle_channel_selection(line(" 1 alice\n"), 2),
        Selection::Watch(choice(1, "alice", [34, 1, 0]))
    );
    assert_eq!(
        handle_channel_selection(line("1 "), 2),
        Selection::Invalid(ChoiceError::NoUsername)
    );
}

#[test]
fn links_are_trimmed_and_sent() {
    assert_eq!(
        handle_upload(line("  hé \n")),
        UploadStep::Send { command: vec![3], link: vec![0x68, 0xc3, 0xa9] }
    );
    assert_eq!(handle_upload(line(" \t ")), UploadStep::NoLink);
    assert_eq!(handle_upload(None), UploadStep::InputClosed);
}

#[test]
fn answers_to_an_upload_are_understood() {
    assert_eq!(upload_outcome(3), (ProtoCommands::Upload, "Upload successful.".to_string()));
    for code in [0, 1, 2, 4, 33, 255] {
        let (command, notice) = upload_outcome(code);
        assert_eq!(command, ProtoCommands::FailedUpload);
        assert_eq!(notice, "Unexpected response from server during upload.");
    }
}

#[test]
fn a_viewer_picks_a_channel_and_watches() {
    let (stage, action) = user_ops(ViewerStage::Announcement, ViewerEvent::Frame([0, 2, 0]));
    assert_eq!(stage, ViewerStage::Selecting { num_channels: 2 });
    let asked = format!("{}\n{}", welcome(2), selection_prompt(2));
    assert_eq!(action, ViewerAction::Ask(asked));
    let (stage, action) = user_ops(stage, ViewerEvent::Line(line("5 alice")));
    assert_eq!(stage, ViewerStage::Selecting { num_channels: 2 });
    let asked = format!("Error: Channel number is out of range (0-1)\n{}", selection_prompt(2));
    assert_eq!(action, ViewerAction::Ask(asked));
    let (stage, action) = user_ops(stage, ViewerEvent::Line(line("1 alice")));
    assert_eq!(action, ViewerAction::SendChoice(vec![34, 1, 0]));
    let (stage, action) = user_ops(stage, ViewerEvent::Frame([2, 1, 0]));
    assert_eq!(stage, ViewerStage::Over);
    assert_eq!(
        action,
        ViewerAction::Watch {
            notice: "Connected to TV Channel 1".to_string(),
            username: "alice".to_string()
        }
    );
}

fn awaiting_answer(username: &str) -> ViewerStage {
    ViewerStage::Answer { num_channels: 4, channel: 3, username: username.to_string() }
}

#[test]
fn a_viewer_without_an_answer_asks_again() {
    let (stage, action) = user_ops(awaiting_answer("bob"), ViewerEvent::AnswerLost);
    assert_eq!(stage, ViewerStage::Selecting { num_channels: 4 });
    assert_eq!(action, ViewerAction::Ask(selection_prompt(4)));
    let (stage, action) = user_ops(awaiting_answer("bob"), ViewerEvent::Frame([1, 0, 0]));
    assert_eq!(stage, ViewerStage::Selecting { num_channels: 4 });
    let asked = format!("Error: Invalid channel selected.\n{}", selection_prompt(4));
    assert_eq!(action, ViewerAction::Ask(asked));
}

#[test]
fn a_viewer_may_go_by_any_name() {
    for name in ["u", "U", "exit", "q", "é"] {
        let (stage, _) = user_ops(ViewerStage::Announcement, ViewerEvent::Frame([0, 1, 0]));
        let (stage, action) = user_ops(stage, ViewerEvent::Line(line(&format!("0 {name}"))));
        assert_eq!(action, ViewerAction::SendChoice(vec![34, 0, 0]));
        let (stage, action) = user_ops(stage, ViewerEvent::Frame([2, 0, 0]));
        assert_eq!(stage, ViewerStage::Over);
        let notice = "Connected to TV Channel 0".to_string();
        assert_eq!(action, ViewerAction::Watch { notice, username: name.to_string() });
    }
    assert_eq!(entrance_frame("u"), chat_frame("u has entered the chat!"));
}

#[test]
fn a_viewer_connects_anew_after_an_upload() {
    let selecting = ViewerStage::Selecting { num_channels: 1 };
    let (stage, action) = user_ops(selecting, ViewerEvent::Line(line("u")));
    assert_eq!(stage, ViewerStage::Link);
    let asked = "Please enter the YouTube link to upload:".to_string();
    assert_eq!(action, ViewerAction::Ask(asked));
    let (stage, action) = user_ops(stage, ViewerEvent::Line(line("https://x")));
    assert_eq!(stage, ViewerStage::UploadAnswer);
    let link = b"https://x".to_vec();
    assert_eq!(action, ViewerAction::SendLink { command: vec![3], link });
    let (stage, action) = user_ops(stage, ViewerEvent::Byte(3));
    assert_eq!(stage, ViewerStage::Over);
    assert_eq!(action, ViewerAction::Reconnect(Some("Upload successful.".to_string())));
    let (_, action) = user_ops(ViewerStage::UploadAnswer, ViewerEvent::AnswerLost);
    assert_eq!(action, ViewerAction::Reconnect(None));
    let (_, action) = user_ops(ViewerStage::Link, ViewerEvent::Line(line(" ")));
    let notice = "You must provide a valid YouTube link.".to_string();
    assert_eq!(action, ViewerAction::Reconnect(Some(notice)));
    let (_, action) = user_ops(ViewerStage::Link, ViewerEvent::Line(None));
    assert_eq!(action, ViewerAction::Reconnect(None));
}

#[test]
fn a_viewer_leaves_on_request_or_without_input() {
    for (input, notice) in [
        (line("exit"), "Exiting..."),
        (None, "User input channel closed. Exiting."),
    ] {
        let selecting = ViewerStage::Selecting { num_channels: 1 };
        let (stage, action) = user_ops(selecting, ViewerEvent::Line(input));
        assert_eq!(stage, ViewerStage::Over);
        assert_eq!(action, ViewerAction::Exit(notice.to_string()));
    }
}

#[test]
fn a_viewer_expects_an_announcement() {
    let (stage, action) = user_ops(ViewerStage::Announcement, ViewerEvent::Frame([2, 1, 0]));
    assert_eq!(stage, ViewerStage::Over);
    let notice = "Unexpected message from server".to_string();
    assert_eq!(action, ViewerAction::Reconnect(Some(notice)));
}

#[test]
fn every_choice_from_an_announcement_is_connected() {
    let num_channels = 65541;
    let (_, action) = handle_stream(Stage::Greeting, Event::Frame([33, 0, 0]), num_channels);
    let announcement = match action {
        Action::Announce(reply) => reply,
        _ => panic!("no announcement"),
    };
    let frame = [announcement[0], announcement[1], announcement[2]];
    let (stage, _) = user_ops(ViewerStage::Announcement, ViewerEvent::Frame(frame));
    assert_eq!(stage, ViewerStage::Selecting { num_channels: 5 });
    for channel in 0..5u16 {
        let choice = handle_channel_choice(&format!("{channel} bob"), 5).unwrap();
        let request = [choice.request[0], choice.request[1], choice.request[2]];
        let (_, action) = handle_stream(Stage::Request, Event::Frame(request), num_channels);
        match action {
            Action::Stream { reply, channel: streamed } => {
                assert_eq!(streamed, channel);
                let response = [reply[0], reply[1], reply[2]];
                assert_eq!(choice_outcome(response, choice.username), Ok("bob".to_string()));
            }
            _ => panic!("not connected"),
        }
    }
}
