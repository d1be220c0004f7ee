use bear_tv::channels::{
    handle_upload_and_create_channels, open_channels, showings, tuned, Channel,
};
use bear_tv::videos::{get_mp4_files, get_next_user_filename, DirEntry};
use tokio::sync::broadcast::error::TryRecvError;

#[test]
fn each_video_has_a_channel() {
    let files = vec!["a.mp4".to_string(), "b.mp4".to_string()];
    assert_eq!(open_channels(&files).len(), 2);
    assert!(open_channels(&vec![]).is_empty());
}

#[test]
fn a_channel_carries_video_and_chat() {
    let channel = Channel::open(&vec![]);
    let mut video = channel.video_sender.subscribe();
    let mut chat = channel.chat_sender.subscribe();
    channel.video_sender.send(vec![1, 2]).unwrap();
    channel.chat_sender.send("hi".to_string()).unwrap();
    assert_eq!(video.try_recv(), Ok(vec![1, 2]));
    assert_eq!(chat.try_recv(), Ok("hi".to_string()));
    assert_eq!(chat.try_recv(), Err(TryRecvError::Empty));
}

#[test]
fn a_channel_keeps_128_messages() {
    let channel = Channel::open(&vec![]);
    let mut video = channel.video_sender.subscribe();
    let mut chat = channel.chat_sender.subscribe();
    for number in 0..128u8 {
        channel.video_sender.send(vec![number]).unwrap();
        channel.chat_sender.send(format!("{number}")).unwrap();
    }
    assert_eq!(video.try_recv(), Ok(vec![0]));
    assert_eq!(chat.try_recv(), Ok("0".to_string()));
    let mut late = channel.video_sender.subscribe();
    for number in 0..129u8 {
        channel.video_sender.send(vec![number]).unwrap();
    }
    assert_eq!(late.try_recv(), Err(TryRecvError::Lagged(1)));
    for number in 0..130u8 {
        channel.chat_sender.send(format!("{number}")).unwrap();
    }
    assert!(matches!(chat.try_recv(), Err(TryRecvError::Lagged(_))));
}

#[test]
fn a_copy_is_the_same_channel() {
    let channel = Channel::open(&vec![]);
    let mut chat = channel.chat_sender.subscribe();
    channel.clone().chat_sender.send("hi".to_string()).unwrap();
    assert_eq!(chat.try_recv(), Ok("hi".to_string()));
}

fn upload(path: &str, channels: &mut Vec<Channel>) {
    let downloaded: Result<String, String> = Ok(path.to_string());
    let showing = handle_upload_and_create_channels(downloaded, channels).ok().unwrap();
    assert_eq!(showing.path, path);
    assert!(showing.sender.same_channel(&channels.last().unwrap().video_sender));
}

#[test]
fn channels_have_nothing_in_common() {
    let files = vec!["a.mp4".to_string(), "b.mp4".to_string(), "c.mp4".to_string()];
    let mut channels = open_channels(&files);
    upload("d.mp4", &mut channels);
    let mut video: Vec<_> = channels.iter().map(|c| c.video_sender.subscribe()).collect();
    let mut chat: Vec<_> = channels.iter().map(|c| c.chat_sender.subscribe()).collect();
    for sender in 0..channels.len() {
        channels[sender].video_sender.send(vec![sender as u8]).unwrap();
        channels[sender].chat_sender.send(format!("{sender}")).unwrap();
        for receiver in 0..channels.len() {
            if receiver == sender {
                assert_eq!(video[receiver].try_recv(), Ok(vec![sender as u8]));
                assert_eq!(chat[receiver].try_recv(), Ok(format!("{sender}")));
            }
            assert_eq!(video[receiver].try_recv(), Err(TryRecvError::Empty));
            assert_eq!(chat[receiver].try_recv(), Err(TryRecvError::Empty));
        }
    }
}

#[test]
fn each_channel_shows_the_video_of_its_number() {
    let files = vec!["b.mp4".to_string(), "a.mp4".to_string()];
    let channels = open_channels(&files);
    let shown = showings(&files, &channels);
    assert_eq!(shown.len(), 2);
    for number in 0..2 {
        assert_eq!(shown[number].path, files[number]);
        assert!(shown[number].sender.same_channel(&channels[number].video_sender));
        assert!(!shown[number].sender.same_channel(&channels[1 - number].video_sender));
    }
}

#[test]
fn a_failed_download_makes_no_channel() {
    let mut channels = open_channels(&vec!["a.mp4".to_string()]);
    let downloaded: Result<String, u8> = Err(7);
    let result = handle_upload_and_create_channels(downloaded, &mut channels);
    assert!(matches!(result, Err(7)));
    assert_eq!(channels.len(), 1);
}

#[test]
fn a_new_channel_leaves_the_numbers_alone() {
    let mut channels = open_channels(&vec!["a.mp4".to_string()]);
    let mut first = channels[0].video_sender.subscribe();
    upload("b.mp4", &mut channels);
    assert_eq!(channels.len(), 2);
    let mut second = channels[1].video_sender.subscribe();
    tuned(&channels, 0).video_sender.send(vec![0]).unwrap();
    tuned(&channels, 1).video_sender.send(vec![1]).unwrap();
    assert_eq!(first.try_recv(), Ok(vec![0]));
    assert_eq!(first.try_recv(), Err(TryRecvError::Empty));
    assert_eq!(second.try_recv(), Ok(vec![1]));
}

#[test]
fn an_upload_keeps_channels_and_videos_in_step() {
    let file = |name: &str| DirEntry {
        path: name.to_string(),
        file_name: name.as_bytes().to_vec(),
        is_file: true,
    };
    let mut entries = vec![file("a.mp4"), file("notes.txt")];
    let mut channels = open_channels(&get_mp4_files(&entries));
    let name = get_next_user_filename(&entries, "user").unwrap();
    entries.push(file(&name));
    upload(&name, &mut channels);
    assert_eq!(channels.len(), get_mp4_files(&entries).len());
}
