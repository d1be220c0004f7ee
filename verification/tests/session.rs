use bear_tv::proto::{choose_message, hello_message, upload_messages};
use bear_tv::session::{handle_stream, Action, Event, Stage, LINK_BUFFER};

fn frame(bytes: &[u8]) -> Event {
    Event::Frame([bytes[0], bytes[1], bytes[2]])
}

#[test]
fn a_greeting_is_answered_with_the_channels() {
    let (stage, action) = handle_stream(Stage::Greeting, frame(&hello_message()), 258);
    assert!(matches!(stage, Stage::Request));
    assert!(matches!(action, Action::Announce(reply) if reply == vec![0, 2, 1]));
}

#[test]
fn anything_but_a_greeting_is_left_alone() {
    for first in [0, 1, 2, 3, 4, 34, 255] {
        let (stage, action) = handle_stream(Stage::Greeting, Event::Frame([first, 0, 0]), 3);
        assert!(matches!(stage, Stage::Closed));
        assert!(matches!(action, Action::Leave));
    }
}

#[test]
fn a_channel_on_offer_is_streamed() {
    let (stage, action) = handle_stream(Stage::Request, frame(&choose_message(2)), 3);
    assert!(matches!(stage, Stage::Closed));
    match action {
        Action::Stream { reply, channel } => {
            assert_eq!(reply, vec![2, 2, 0]);
            assert_eq!(channel, 2);
        }
        _ => panic!("not streamed"),
    }
}

#[test]
fn a_channel_beyond_the_offer_is_refused() {
    let (stage, action) = handle_stream(Stage::Request, frame(&choose_message(3)), 3);
    assert!(matches!(stage, Stage::Closed));
    match action {
        Action::Refuse { reply, channel } => {
            assert_eq!(reply, vec![1]);
            assert_eq!(channel, 3);
        }
        _ => panic!("not refused"),
    }
}

#[test]
fn an_unknown_request_is_ignored() {
    let (stage, action) = handle_stream(Stage::Request, Event::Frame([33, 0, 0]), 3);
    assert!(matches!(stage, Stage::Closed));
    assert!(matches!(action, Action::Ignore));
}

#[test]
fn the_head_of_a_link_ends_at_a_zero() {
    for (second, third, expected) in [
        (b'h', b't', vec![b'h', b't']),
        (b'h', 0, vec![b'h']),
        (0, b't', vec![]),
        (0, 0, vec![]),
    ] {
        let (stage, action) = handle_stream(Stage::Request, Event::Frame([3, second, third]), 1);
        assert!(matches!(action, Action::ReadLink));
        assert!(matches!(stage, Stage::Link { head } if head == expected));
    }
}

fn upload(link: &str) -> (Stage, Action) {
    let (command, bytes) = upload_messages(link);
    let stream: Vec<u8> = command.into_iter().chain(bytes).collect();
    let (stage, _) = handle_stream(Stage::Request, frame(&stream), 1);
    let mut buffer = vec![0u8; LINK_BUFFER];
    let rest = &stream[3..];
    buffer[..rest.len()].copy_from_slice(rest);
    handle_stream(stage, Event::LinkRead(buffer), 1)
}

#[test]
fn an_uploaded_link_is_downloaded_unchanged() {
    let longest = "x".repeat(1026);
    for link in ["https://youtu.be/x?v=ü", "ab", "日本", longest.as_str()] {
        let (stage, action) = upload(link);
        assert!(matches!(stage, Stage::Download));
        assert!(matches!(action, Action::Download(text) if text == link));
    }
}

#[test]
fn an_upload_without_a_link_is_declined() {
    let stage = Stage::Link { head: vec![] };
    let (stage, action) = handle_stream(stage, Event::LinkRead(vec![0; LINK_BUFFER]), 1);
    assert!(matches!(stage, Stage::Closed));
    assert!(matches!(action, Action::Decline(reply) if reply == vec![4]));
}

#[test]
fn a_link_that_is_not_text_fails() {
    let stage = Stage::Link { head: vec![b'h', 0xff] };
    let (stage, action) = handle_stream(stage, Event::LinkRead(vec![0; 4]), 1);
    assert!(matches!(stage, Stage::Closed));
    match action {
        Action::Fail(error) => assert_eq!(error.into_bytes(), vec![b'h', 0xff, 0, 0, 0, 0]),
        _ => panic!("taken for text"),
    }
}

#[test]
fn a_done_upload_is_confirmed() {
    let (stage, action) = handle_stream(Stage::Download, Event::ChannelAdded, 1);
    assert!(matches!(stage, Stage::Closed));
    assert!(matches!(action, Action::Confirm(reply) if reply == vec![3]));
}

#[test]
fn a_failed_upload_is_not_answered() {
    let (stage, action) = handle_stream(Stage::Download, Event::DownloadFailed, 1);
    assert!(matches!(stage, Stage::Closed));
    assert!(matches!(action, Action::Abandon));
}
