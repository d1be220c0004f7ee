//! The commands of the wire protocol and the messages made of them.

use vstd::prelude::*;
use vstd::slice::slice_to_vec;
use vstd::utf8::encode_utf8;

use crate::buffer;

verus! {

/// The first byte of every protocol message.
#[derive(Debug, Clone, Copy, PartialEq, Eq, Structural)]
pub enum ProtoCommands {
    Hello,
    ChooseTvChannel,
    ChannelList,
    InvalidChannel,
    Connected,
    Upload,
    FailedUpload,
}

impl ProtoCommands {
    /// The byte that stands for a command on the wire.
    pub open spec fn code(self) -> u8 {
        match self {
            ProtoCommands::Hello => 33,
            ProtoCommands::ChooseTvChannel => 34,
            ProtoCommands::ChannelList => 0,
            ProtoCommands::InvalidChannel => 1,
            ProtoCommands::Connected => 2,
            ProtoCommands::Upload => 3,
            ProtoCommands::FailedUpload => 4,
        }
    }

    /// The command that a receiver takes a byte for. `FailedUpload` is only
    /// ever sent: its byte is not told apart from an unknown one.
    pub open spec fn recognized(value: u8) -> Option<ProtoCommands> {
        if value == 33 {
            Some(ProtoCommands::Hello)
        } else if value == 34 {
            Some(ProtoCommands::ChooseTvChannel)
        } else if value == 0 {
            Some(ProtoCommands::ChannelList)
        } else if value == 1 {
            Some(ProtoCommands::InvalidChannel)
        } else if value == 2 {
            Some(ProtoCommands::Connected)
        } else if value == 3 {
            Some(ProtoCommands::Upload)
        } else {
            None
        }
    }

    /// The byte that stands for a command on the wire.
    pub fn to_u8(self) -> (code: u8)
        ensures
            code == self.code(),
    {
        match self {
            ProtoCommands::Hello => 33,
            ProtoCommands::ChooseTvChannel => 34,
            ProtoCommands::ChannelList => 0,
            ProtoCommands::InvalidChannel => 1,
            ProtoCommands::Connected => 2,
            ProtoCommands::Upload => 3,
            ProtoCommands::FailedUpload => 4,
        }
    }

    /// The command that a receiver takes a byte for.
    pub fn from_u8(value: u8) -> (command: Option<Self>)
        ensures
            command == ProtoCommands::recognized(value),
    {
        match value {
            33 => Some(ProtoCommands::Hello),
            34 => Some(ProtoCommands::ChooseTvChannel),
            0 => Some(ProtoCommands::ChannelList),
            1 => Some(ProtoCommands::InvalidChannel),
            2 => Some(ProtoCommands::Connected),
            3 => Some(ProtoCommands::Upload),
            _ => None,
        }
    }
}

/// The two bytes of a number, the low one first.
pub open spec fn le16(number: u16) -> Seq<u8> {
    seq![(number % 256) as u8, (number / 256) as u8]
}

/// The number whose low and high byte are given.
pub open spec fn from_le16(low: u8, high: u8) -> u16 {
    (low + 256 * high) as u16
}

/// The number whose low and high byte are given.
pub fn read_u16(low: u8, high: u8) -> (number: u16)
    ensures
        number == from_le16(low, high),
{
    low as u16 + 256 * (high as u16)
}

/// The greeting with which a viewer opens a connection.
pub fn hello_message() -> (message: Vec<u8>)
    ensures
        message@ == numbered(ProtoCommands::Hello, 0),
{
    let mut buf = buffer::with_capacity(3);
    buffer::put_u8(&mut buf, ProtoCommands::Hello.to_u8());
    buffer::put_u16_le(&mut buf, 0);
    buffer::to_vec(&buf)
}

/// The request of a viewer for a channel.
pub fn choose_message(channel: u16) -> (message: Vec<u8>)
    ensures
        message@ == numbered(ProtoCommands::ChooseTvChannel, channel),
{
    let mut buf = buffer::with_capacity(3);
    buffer::put_u8(&mut buf, ProtoCommands::ChooseTvChannel.to_u8());
    buffer::put_u16_le(&mut buf, channel);
    buffer::to_vec(&buf)
}

/// What a viewer writes to hand in a link: the command, then the link itself.
pub fn upload_messages(link: &str) -> (messages: (Vec<u8>, Vec<u8>))
    ensures
        messages.0@ == seq![ProtoCommands::Upload.code()],
        messages.1@ == encode_utf8(link@),
{
    let mut command: Vec<u8> = Vec::new();
    command.push(ProtoCommands::Upload.to_u8());
    (command, slice_to_vec(link.as_bytes()))
}

/// A command followed by a number.
pub open spec fn numbered(command: ProtoCommands, number: u16) -> Seq<u8> {
    seq![command.code()] + le16(number)
}

/// The announcement of the channels on offer. The count is sent modulo 65536.
pub fn channel_list_message(num_channels: usize) -> (message: Vec<u8>)
    ensures
        message@ == numbered(ProtoCommands::ChannelList, (num_channels % 65536) as u16),
{
    numbered_message(ProtoCommands::ChannelList, (num_channels % 65536) as u16)
}

/// The answer to a request for a channel on offer.
pub fn connected_message(channel: u16) -> (message: Vec<u8>)
    ensures
        message@ == numbered(ProtoCommands::Connected, channel),
{
    numbered_message(ProtoCommands::Connected, channel)
}

fn numbered_message(command: ProtoCommands, number: u16) -> (message: Vec<u8>)
    ensures
        message@ == numbered(command, number),
{
    let mut message: Vec<u8> = Vec::new();
    message.push(command.to_u8());
    message.push((number % 256) as u8);
    message.push((number / 256) as u8);
    message
}

/// The answer to a request for a channel that is not on offer.
pub fn invalid_channel_message() -> (message: Vec<u8>)
    ensures
        message@ == seq![ProtoCommands::InvalidChannel.code()],
{
    let mut message: Vec<u8> = Vec::new();
    message.push(ProtoCommands::InvalidChannel.to_u8());
    message
}

/// The answer to an upload that became a channel.
pub fn upload_done_message() -> (message: Vec<u8>)
    ensures
        message@ == seq![ProtoCommands::Upload.code()],
{
    let mut buf = buffer::with_capacity(1);
    buffer::put_u8(&mut buf, ProtoCommands::Upload.to_u8());
    buffer::to_vec(&buf)
}

/// The answer to an upload without a link.
pub fn failed_upload_message() -> (message: Vec<u8>)
    ensures
        message@ == seq![ProtoCommands::FailedUpload.code()],
{
    let mut message: Vec<u8> = Vec::new();
    message.push(ProtoCommands::FailedUpload.to_u8());
    message
}

/// The number of channels that an announcement names, unless the message is
/// no announcement.
pub fn channel_count(frame: [u8; 3]) -> (count: Option<u16>)
    ensures
        count == announced_count(frame@),
{
    if frame[0] == ProtoCommands::ChannelList.to_u8() {
        Some(read_u16(frame[1], frame[2]))
    } else {
        None
    }
}

/// The number of channels that an announcement names.
pub open spec fn announced_count(frame: Seq<u8>) -> Option<u16> {
    if frame[0] == ProtoCommands::ChannelList.code() {
        Some(from_le16(frame[1], frame[2]))
    } else {
        None
    }
}

/// A command survives the wire, `FailedUpload` excepted.
pub proof fn law_command_round_trip(command: ProtoCommands)
    requires
        command !is FailedUpload,
    ensures
        ProtoCommands::recognized(command.code()) == Some(command),
{
}

/// Every byte that is taken for a command is the byte of that command, and no
/// two commands share a byte.
pub proof fn law_recognized_code(value: u8, one: ProtoCommands, other: ProtoCommands)
    ensures
        ProtoCommands::recognized(value) matches Some(command) ==> command.code() == value,
        one.code() == other.code() ==> one == other,
{
}

/// A number survives the trip through its two bytes, and two bytes survive the
/// trip through their number.
pub proof fn law_le16_round_trip(number: u16, low: u8, high: u8)
    ensures
        from_le16(le16(number)[0], le16(number)[1]) == number,
        le16(from_le16(low, high)) == seq![low, high],
{
}

/// A viewer reads back the number of channels that the server announces,
/// modulo 65536: exactly that number as long as it fits in two bytes.
pub proof fn law_announcement_read_back(num_channels: usize)
    ensures
        announced_count(numbered(ProtoCommands::ChannelList, (num_channels % 65536) as u16))
            == Some((num_channels % 65536) as u16),
        num_channels <= u16::MAX ==> announced_count(
            numbered(ProtoCommands::ChannelList, (num_channels % 65536) as u16),
        ) == Some(num_channels as u16),
{
    law_le16_round_trip((num_channels % 65536) as u16, 0, 0);
}

/// The first of the two bytes of a number counts ones, the second counts 256s.
pub proof fn law_number_in_bytes(number: u16, low: u8, high: u8)
    ensures
        le16(number).len() == 2,
        le16(number)[0] + 256 * le16(number)[1] == number,
        from_le16(low, high) == low + 256 * high,
{
}

/// A command with a number is three bytes: that of the command, then the number.
pub proof fn law_numbered_in_bytes(command: ProtoCommands, number: u16)
    ensures
        numbered(command, number).len() == 3,
        numbered(command, number)[0] == command.code(),
        numbered(command, number)[1] + 256 * numbered(command, number)[2] == number,
{
}

/// An announcement begins with a zero byte and nothing else does; its other two
/// bytes are the number of channels.
pub proof fn law_announcement_in_bytes(frame: Seq<u8>)
    requires
        frame.len() == 3,
    ensures
        announced_count(frame) is Some <==> frame[0] == 0,
        announced_count(frame) matches Some(count) ==> count == frame[1] + 256 * frame[2],
{
}

} // verus!
