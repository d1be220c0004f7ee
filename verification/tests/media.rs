use bear_tv::media::{
    converter_args, filled_part, first_player, handle_video_stream, handle_video_streaming,
    player_args, stream_mp4_to_broadcast_channel, Ending, FeedAction, FeedEvent, FeedState,
    LoopAction, LoopEvent, LoopState, PlayerAction, PlayerEvent, PlayerState, CHUNK_BUFFER,
    PLAYER_BUFFER,
};

#[test]
fn only_the_filled_part_of_a_buffer_counts() {
    assert_eq!(filled_part(&[1, 2, 3, 0], 3), vec![1, 2, 3]);
    assert!(filled_part(&[1, 2], 0).is_empty());
}

#[test]
fn programs_get_their_arguments() {
    assert_eq!(
        converter_args("a b.mp4"),
        ["-re", "-i", "a b.mp4", "-c", "copy", "-f", "mpegts", "pipe:1"]
    );
    assert_eq!(
        player_args(),
        ["--cache=yes", "--loop", "-", "--geometry=50%x50%", "--msg-level=all=no"]
    );
    assert_eq!(first_player(), "mpv");
}

#[test]
fn a_file_is_shown_over_and_over() {
    let (state, action) =
        stream_mp4_to_broadcast_channel(LoopState::Reading, LoopEvent::Read(vec![7, 8]));
    assert_eq!((state, action), (LoopState::Reading, LoopAction::Broadcast(vec![7, 8])));
    let (state, action) =
        stream_mp4_to_broadcast_channel(LoopState::Reading, LoopEvent::Read(vec![]));
    assert_eq!((state, action), (LoopState::Ending, LoopAction::AwaitEnd));
    let (state, action) = stream_mp4_to_broadcast_channel(LoopState::Ending, LoopEvent::Ended);
    assert_eq!((state, action), (LoopState::Reading, LoopAction::Restart));
}

#[test]
fn a_channel_is_streamed_until_the_viewer_is_lost() {
    let steps = [
        (FeedState::Waiting, FeedEvent::Data(vec![5]), FeedState::Sending, FeedAction::Send(vec![5])),
        (FeedState::Sending, FeedEvent::Sent, FeedState::Waiting, FeedAction::Continue),
        (FeedState::Waiting, FeedEvent::Missed, FeedState::Waiting, FeedAction::Continue),
        (FeedState::Sending, FeedEvent::SendLost, FeedState::Over, FeedAction::Stop),
        (FeedState::Waiting, FeedEvent::ChannelClosed, FeedState::Over, FeedAction::Stop),
    ];
    for (state, event, next, action) in steps {
        assert_eq!(handle_video_streaming(state, event), (next, action));
    }
}

#[test]
fn the_player_is_looked_for_twice() {
    let (state, action) = handle_video_stream(PlayerState::OnPath, PlayerEvent::NotStarted);
    assert_eq!((state, action), (PlayerState::Local, PlayerAction::Start("./mpv".to_string())));
    let (state, action) = handle_video_stream(PlayerState::Local, PlayerEvent::NotStarted);
    assert_eq!((state, action), (PlayerState::Over, PlayerAction::Fail));
    for state in [PlayerState::OnPath, PlayerState::Local] {
        let started = handle_video_stream(state, PlayerEvent::Started);
        assert_eq!(started, (PlayerState::Reading, PlayerAction::Read));
    }
}

#[test]
fn video_is_played_while_the_player_runs() {
    let (state, action) =
        handle_video_stream(PlayerState::Reading, PlayerEvent::Data(vec![1, 2]));
    assert_eq!((state, action), (PlayerState::Writing, PlayerAction::Write(vec![1, 2])));
    let (state, action) = handle_video_stream(PlayerState::Writing, PlayerEvent::Written);
    assert_eq!((state, action), (PlayerState::Checking, PlayerAction::Check));
    let (state, action) = handle_video_stream(PlayerState::Checking, PlayerEvent::Running);
    assert_eq!((state, action), (PlayerState::Reading, PlayerAction::Read));
}

#[test]
fn playing_ends_for_a_reason() {
    let ends = [
        (PlayerState::Reading, PlayerEvent::StreamClosed, Ending::StreamClosed, false),
        (PlayerState::Reading, PlayerEvent::ReadLost, Ending::ReadLost, false),
        (PlayerState::Writing, PlayerEvent::WriteLost, Ending::PlayerGone, true),
        (PlayerState::Checking, PlayerEvent::Ended { success: true }, Ending::PlayerDone, true),
        (PlayerState::Checking, PlayerEvent::Ended { success: false }, Ending::PlayerFailed, true),
        (PlayerState::Checking, PlayerEvent::StatusLost, Ending::StatusLost, false),
    ];
    for (state, event, ending, hint) in ends {
        let (next, action) = handle_video_stream(state, event);
        assert_eq!((next, action), (PlayerState::Over, PlayerAction::Stop(ending)));
        assert_eq!(ending.hints_at_chat(), hint);
    }
}

#[test]
fn all_video_is_played_in_order() {
    let chunks: Vec<Vec<u8>> = vec![vec![1, 2], vec![3], vec![4, 5, 6]];
    let mut state = PlayerState::Reading;
    let mut played: Vec<u8> = Vec::new();
    for chunk in &chunks {
        let (writing, action) = handle_video_stream(state, PlayerEvent::Data(chunk.clone()));
        if let PlayerAction::Write(bytes) = action {
            played.extend(bytes);
        }
        let (checking, _) = handle_video_stream(writing, PlayerEvent::Written);
        state = handle_video_stream(checking, PlayerEvent::Running).0;
    }
    assert_eq!(played, chunks.concat());
}

#[test]
fn all_video_is_broadcast_in_order() {
    let reads: Vec<Vec<u8>> = vec![vec![1], vec![2, 3], vec![], vec![1], vec![2, 3], vec![]];
    let mut state = LoopState::Reading;
    let mut sent: Vec<u8> = Vec::new();
    for data in &reads {
        let (next, action) = stream_mp4_to_broadcast_channel(state, LoopEvent::Read(data.clone()));
        state = next;
        match action {
            LoopAction::Broadcast(bytes) => sent.extend(bytes),
            LoopAction::AwaitEnd => {
                state = stream_mp4_to_broadcast_channel(state, LoopEvent::Ended).0;
            }
            LoopAction::Restart => panic!("restarted too early"),
        }
    }
    assert_eq!(sent, reads.concat());
}

#[test]
fn all_video_of_a_channel_is_sent_in_order() {
    let chunks: Vec<Vec<u8>> = vec![vec![9, 8], vec![7]];
    let mut state = FeedState::Waiting;
    let mut sent: Vec<u8> = Vec::new();
    for chunk in &chunks {
        let (sending, action) = handle_video_streaming(state, FeedEvent::Data(chunk.clone()));
        if let FeedAction::Send(bytes) = action {
            sent.extend(bytes);
        }
        state = handle_video_streaming(sending, FeedEvent::Sent).0;
    }
    assert_eq!(sent, chunks.concat());
}

#[test]
fn chunks_are_as_long_as_what_was_read() {
    assert_eq!((CHUNK_BUFFER, PLAYER_BUFFER), (1024, 4096));
    let buffer = [7u8; CHUNK_BUFFER];
    for count in [1, 500, CHUNK_BUFFER] {
        let event = LoopEvent::Read(filled_part(&buffer, count));
        let (_, action) = stream_mp4_to_broadcast_channel(LoopState::Reading, event);
        assert_eq!(action, LoopAction::Broadcast(vec![7; count]));
    }
    let buffer = [7u8; PLAYER_BUFFER];
    let event = PlayerEvent::Data(filled_part(&buffer, PLAYER_BUFFER));
    let (_, action) = handle_video_stream(PlayerState::Reading, event);
    assert_eq!(action, PlayerAction::Write(vec![7; PLAYER_BUFFER]));
}
