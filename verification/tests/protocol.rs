use bear_tv::proto::{
    channel_count, channel_list_message, choose_message, connected_message,
    failed_upload_message, hello_message, invalid_channel_message, read_u16, upload_done_message,
    upload_messages, ProtoCommands,
};

const COMMANDS: [ProtoCommands; 7] = [
    ProtoCommands::Hello,
    ProtoCommands::ChooseTvChannel,
    ProtoCommands::ChannelList,
    ProtoCommands::InvalidChannel,
    ProtoCommands::Connected,
    ProtoCommands::Upload,
    ProtoCommands::FailedUpload,
];

#[test]
fn commands_have_their_bytes() {
    let codes: Vec<u8> = COMMANDS.iter().map(|command| command.to_u8()).collect();
    assert_eq!(codes, vec![33, 34, 0, 1, 2, 3, 4]);
}

#[test]
fn commands_survive_the_wire() {
    for command in COMMANDS {
        let received = ProtoCommands::from_u8(command.to_u8());
        if command == ProtoCommands::FailedUpload {
            assert_eq!(received, None);
        } else {
            assert_eq!(received, Some(command));
        }
    }
}

#[test]
fn unknown_bytes_are_no_commands() {
    for value in 0..=255u8 {
        let known = value <= 3 || value == 33 || value == 34;
        assert_eq!(ProtoCommands::from_u8(value).is_some(), known);
    }
}

#[test]
fn messages_have_their_bytes() {
    assert_eq!(hello_message(), vec![33, 0, 0]);
    assert_eq!(choose_message(0x0809), vec![34, 9, 8]);
    assert_eq!(connected_message(513), vec![2, 1, 2]);
    assert_eq!(invalid_channel_message(), vec![1]);
    assert_eq!(upload_done_message(), vec![3]);
    assert_eq!(failed_upload_message(), vec![4]);
    assert_eq!(upload_messages("hé"), (vec![3], vec![0x68, 0xc3, 0xa9]));
}

#[test]
fn channel_list_counts_modulo_two_bytes() {
    assert_eq!(channel_list_message(3), vec![0, 3, 0]);
    assert_eq!(channel_list_message(65535), vec![0, 255, 255]);
    assert_eq!(channel_list_message(65536), vec![0, 0, 0]);
    assert_eq!(channel_list_message(65537), vec![0, 1, 0]);
}

#[test]
fn numbers_survive_their_two_bytes() {
    for number in 0..=65535u16 {
        let message = choose_message(number);
        assert_eq!(message[1..], number.to_le_bytes());
        assert_eq!(read_u16(message[1], message[2]), number);
    }
}

#[test]
fn announcements_are_read_back() {
    assert_eq!(channel_count([0, 5, 1]), Some(261));
    assert_eq!(channel_count([2, 5, 1]), None);
}
