use bear_tv::chat::{
    chat_frame, entrance_frame, handle_chat_messages, receive_chat_messages, send_chat_messages,
    ReceiverAction, ReceiverEvent, ReceiverState, RelayAction, RelayEvent, RelayState, Typed,
};

#[test]
fn frames_carry_their_length() {
    assert_eq!(chat_frame(""), vec![0, 0]);
    assert_eq!(chat_frame("hé"), vec![3, 0, 0x68, 0xc3, 0xa9]);
    let long = "x".repeat(300);
    let frame = chat_frame(&long);
    assert_eq!(frame[..2], [44, 1]);
    assert_eq!(frame.len(), 302);
}

#[test]
fn the_length_of_a_long_message_wraps() {
    let frame = chat_frame(&"x".repeat(65537));
    assert_eq!(frame[..2], [1, 0]);
    assert_eq!(frame.len(), 65539);
}

#[test]
fn viewers_announce_themselves() {
    let frame = entrance_frame("alice");
    assert_eq!(&frame[2..], "alice has entered the chat!".as_bytes());
    assert_eq!(frame[..2], [27, 0]);
}

#[test]
fn lines_are_trimmed_and_signed() {
    let expected = chat_frame("alice: hi there");
    assert_eq!(send_chat_messages("alice", "  hi there \n"), Typed::Send(expected));
}

#[test]
fn q_leaves_the_chat() {
    for line in ["q", "Q", " q ", "Q\r\n"] {
        assert_eq!(send_chat_messages("alice", line), Typed::Quit);
    }
    for line in ["quit", "qq", "", "q q"] {
        assert!(matches!(send_chat_messages("alice", line), Typed::Send(_)));
    }
}

fn relay(state: RelayState, event: RelayEvent) -> (RelayState, RelayAction) {
    handle_chat_messages(state, event)
}

#[test]
fn a_message_reaches_the_channel() {
    let frame = chat_frame("alice: grüße");
    let (state, action) = relay(RelayState::Ready, RelayEvent::Header([frame[0], frame[1]]));
    let length = match action {
        RelayAction::ReadBody(length) => length,
        _ => panic!("no body is read"),
    };
    assert_eq!(length as usize, frame.len() - 2);
    assert_eq!(state, RelayState::Body { length });
    let (state, action) = relay(state, RelayEvent::Body(frame[2..].to_vec()));
    assert_eq!(state, RelayState::Ready);
    assert!(matches!(action, RelayAction::Broadcast(text) if text == "alice: grüße"));
}

#[test]
fn a_message_that_is_not_text_is_dropped() {
    let body = RelayState::Body { length: 2 };
    let (state, action) = relay(body, RelayEvent::Body(vec![0xff, 0xfe]));
    assert_eq!(state, RelayState::Ready);
    match action {
        RelayAction::Skip(error) => assert_eq!(error.into_bytes(), vec![0xff, 0xfe]),
        _ => panic!("not dropped"),
    }
}

#[test]
fn a_broadcast_reaches_the_viewer() {
    let (state, action) = relay(RelayState::Ready, RelayEvent::Message("bob: olé".to_string()));
    assert_eq!(state, RelayState::Sending);
    let (header, body) = match action {
        RelayAction::Send { header, body } => (header, body),
        _ => panic!("nothing is sent"),
    };
    assert_eq!(header, vec![9, 0]);
    let (state, action) =
        receive_chat_messages(ReceiverState::Header, ReceiverEvent::Header([header[0], header[1]]));
    assert!(matches!(action, ReceiverAction::ReadBody(9)));
    let (state, action) = receive_chat_messages(state, ReceiverEvent::Body(body));
    assert_eq!(state, ReceiverState::Header);
    assert!(matches!(action, ReceiverAction::Show(text) if text == "bob: olé"));
}

#[test]
fn a_lagging_viewer_stays_and_a_lost_one_goes() {
    let (state, action) = relay(RelayState::Ready, RelayEvent::Missed(7));
    assert_eq!(state, RelayState::Ready);
    assert!(matches!(action, RelayAction::Continue));
    let (state, action) = relay(RelayState::Sending, RelayEvent::Sent);
    assert_eq!(state, RelayState::Ready);
    assert!(matches!(action, RelayAction::Continue));
    for (state, event) in [
        (RelayState::Ready, RelayEvent::HeaderLost),
        (RelayState::Body { length: 1 }, RelayEvent::BodyLost),
        (RelayState::Ready, RelayEvent::ChannelClosed),
        (RelayState::Sending, RelayEvent::SendLost),
    ] {
        let (next, action) = relay(state, event);
        assert_eq!(next, RelayState::Over);
        assert!(matches!(action, RelayAction::Stop));
    }
}

#[test]
fn a_viewer_fails_on_a_message_that_is_not_text() {
    let body = ReceiverState::Body { length: 1 };
    let (state, action) = receive_chat_messages(body, ReceiverEvent::Body(vec![0x80]));
    assert_eq!(state, ReceiverState::Over);
    assert!(matches!(action, ReceiverAction::Fail(_)));
    let (state, action) = receive_chat_messages(ReceiverState::Header, ReceiverEvent::Lost);
    assert_eq!(state, ReceiverState::Over);
    assert!(matches!(action, ReceiverAction::Stop));
}

#[test]
fn a_stream_of_messages_is_read_back() {
    let messages = ["", "a", "bob: hé", "x y z"];
    let mut stream: Vec<u8> = Vec::new();
    for message in messages {
        stream.extend(chat_frame(message));
    }
    let mut shown: Vec<String> = Vec::new();
    let mut state = ReceiverState::Header;
    let mut at = 0;
    while at < stream.len() {
        let header = ReceiverEvent::Header([stream[at], stream[at + 1]]);
        let (reading, action) = receive_chat_messages(state, header);
        let length = match action {
            ReceiverAction::ReadBody(length) => length as usize,
            _ => panic!("no body is read"),
        };
        let body = stream[at + 2..at + 2 + length].to_vec();
        let (next, action) = receive_chat_messages(reading, ReceiverEvent::Body(body));
        if let ReceiverAction::Show(text) = action {
            shown.push(text);
        }
        state = next;
        at += 2 + length;
    }
    assert_eq!(shown, messages);
}

#[test]
fn a_typed_line_is_shown_to_the_others() {
    let bytes = match send_chat_messages("alice", " olé \n") {
        Typed::Send(bytes) => bytes,
        Typed::Quit => panic!("left the chat"),
    };
    let (state, _) = relay(RelayState::Ready, RelayEvent::Header([bytes[0], bytes[1]]));
    let (_, action) = relay(state, RelayEvent::Body(bytes[2..].to_vec()));
    let message = match action {
        RelayAction::Broadcast(message) => message,
        _ => panic!("not broadcast"),
    };
    let (_, action) = relay(RelayState::Ready, RelayEvent::Message(message));
    let (header, body) = match action {
        RelayAction::Send { header, body } => (header, body),
        _ => panic!("nothing is sent"),
    };
    let header = ReceiverEvent::Header([header[0], header[1]]);
    let (state, _) = receive_chat_messages(ReceiverState::Header, header);
    let (_, action) = receive_chat_messages(state, ReceiverEvent::Body(body));
    assert!(matches!(action, ReceiverAction::Show(text) if text == "alice: olé"));
}

#[test]
fn the_relay_hears_and_writes_streams_at_once() {
    let sent = ["a: hi", "", "a: olé"];
    let heard = ["b: one", "c: zwölf"];
    let mut events: Vec<RelayEvent> = Vec::new();
    for (number, message) in sent.iter().enumerate() {
        let frame = chat_frame(message);
        events.push(RelayEvent::Header([frame[0], frame[1]]));
        events.push(RelayEvent::Body(frame[2..].to_vec()));
        if let Some(message) = heard.get(number) {
            events.push(RelayEvent::Message(message.to_string()));
            events.push(RelayEvent::Sent);
        }
        events.push(RelayEvent::Missed(1));
    }
    let mut state = RelayState::Ready;
    let mut broadcast: Vec<String> = Vec::new();
    let mut written: Vec<u8> = Vec::new();
    for event in events {
        let (next, action) = relay(state, event);
        state = next;
        match action {
            RelayAction::Broadcast(message) => broadcast.push(message),
            RelayAction::Send { header, body } => {
                written.extend(header);
                written.extend(body);
            }
            _ => {}
        }
    }
    assert_eq!(state, RelayState::Ready);
    assert_eq!(broadcast, sent);
    assert_eq!(written, heard.iter().flat_map(|m| chat_frame(m)).collect::<Vec<u8>>());
}

#[test]
fn the_relay_goes_on_after_what_is_not_text() {
    let bodies: [&[u8]; 3] = [b"one", &[0xff], b"two"];
    let mut state = RelayState::Ready;
    let mut broadcast: Vec<String> = Vec::new();
    for body in bodies {
        let (reading, _) = relay(state, RelayEvent::Header([body.len() as u8, 0]));
        let (next, action) = relay(reading, RelayEvent::Body(body.to_vec()));
        state = next;
        if let RelayAction::Broadcast(message) = action {
            broadcast.push(message);
        }
    }
    let (reading, _) = relay(state, RelayEvent::Header([5, 0]));
    let (state, _) = relay(reading, RelayEvent::BodyLost);
    assert_eq!(state, RelayState::Over);
    assert_eq!(broadcast, ["one", "two"]);
}

#[test]
fn a_viewer_shows_what_comes_before_what_is_not_text() {
    let bodies: [&[u8]; 3] = [b"one", b"two", &[0xff]];
    let mut state = ReceiverState::Header;
    let mut shown: Vec<String> = Vec::new();
    for body in bodies {
        let header = ReceiverEvent::Header([body.len() as u8, 0]);
        let (reading, _) = receive_chat_messages(state, header);
        let (next, action) = receive_chat_messages(reading, ReceiverEvent::Body(body.to_vec()));
        state = next;
        if let ReceiverAction::Show(message) = action {
            shown.push(message);
        }
    }
    assert_eq!(state, ReceiverState::Over);
    assert_eq!(shown, ["one", "two"]);
}
