//! The TV channels of the server. Each has one broadcast for video and one for
//! chat.

use tokio::sync::broadcast;
use vstd::prelude::*;

use crate::videos;
use crate::videos::{is_video, video_paths, DirEntry};

verus! {

/// `tokio::sync::broadcast::Sender`, the sending end of a broadcast. Nothing is
/// claimed of it here.
#[verifier::external_type_specification]
#[verifier::external_body]
#[verifier::reject_recursive_types(T)]
pub struct ExSender<T>(tokio::sync::broadcast::Sender<T>);

/// The least power of two that is no less than a number.
pub open spec fn next_power_of_two(number: nat) -> nat
    decreases number,
{
    if number <= 1 {
        1
    } else {
        2 * next_power_of_two((number + 1) / 2)
    }
}

/// How many messages a broadcast of video keeps for receivers that lag.
pub uninterp spec fn video_retained(sender: broadcast::Sender<Vec<u8>>) -> nat;

/// How many messages a broadcast of chat keeps for receivers that lag.
pub uninterp spec fn chat_retained(sender: broadcast::Sender<String>) -> nat;

/// `tokio::sync::broadcast::channel` for video; the first receiver is dropped.
/// Each call makes a broadcast of its own: the sender is none of those that are
/// already there. The capacity is rounded up to a power of two, and one of zero
/// or beyond half of `usize::MAX`, which would panic, is ruled out. What
/// receivers get is left unsaid: it depends on what is sent later, and by whom.
#[verifier::external_body]
fn video_broadcast(capacity: usize, _others: &Vec<Channel>) -> (sender: broadcast::Sender<Vec<u8>>)
    requires
        0 < capacity <= usize::MAX / 2,
    ensures
        video_retained(sender) == next_power_of_two(capacity as nat),
        forall|i: int|
            0 <= i < _others@.len() ==> (#[trigger] _others@[i]).video_sender != sender,
{
    broadcast::channel(capacity).0
}

/// `tokio::sync::broadcast::channel` for chat; the first receiver is dropped.
/// Each call makes a broadcast of its own: the sender is none of those that are
/// already there. The capacity is rounded up to a power of two, and one of zero
/// or beyond half of `usize::MAX`, which would panic, is ruled out. What
/// receivers get is left unsaid: it depends on what is sent later, and by whom.
#[verifier::external_body]
fn chat_broadcast(capacity: usize, _others: &Vec<Channel>) -> (sender: broadcast::Sender<String>)
    requires
        0 < capacity <= usize::MAX / 2,
    ensures
        chat_retained(sender) == next_power_of_two(capacity as nat),
        forall|i: int|
            0 <= i < _others@.len() ==> (#[trigger] _others@[i]).chat_sender != sender,
{
    broadcast::channel(capacity).0
}

/// `Clone` of a `tokio::sync::broadcast::Sender`: the copy is a handle on the
/// same broadcast.
pub assume_specification<T>[ <tokio::sync::broadcast::Sender<T> as std::clone::Clone>::clone ](
    sender: &tokio::sync::broadcast::Sender<T>,
) -> (copy: tokio::sync::broadcast::Sender<T>)
    ensures
        copy == *sender,
;

/// The capacity of a broadcast.
pub const CAPACITY: usize = 100;

/// A TV channel.
pub struct Channel {
    pub video_sender: broadcast::Sender<Vec<u8>>,
    pub chat_sender: broadcast::Sender<String>,
}

impl Channel {
    /// Whether both broadcasts have the capacity of a channel.
    pub open spec fn has_capacity(self) -> bool {
        &&& video_retained(self.video_sender) == next_power_of_two(CAPACITY as nat)
        &&& chat_retained(self.chat_sender) == next_power_of_two(CAPACITY as nat)
    }

    /// Whether two channels have neither their video nor their chat in common.
    pub open spec fn apart(self, other: Channel) -> bool {
        &&& self.video_sender != other.video_sender
        &&& self.chat_sender != other.chat_sender
    }

    /// A channel that nobody watches yet, with video and chat of its own: it
    /// shares neither with any of the others.
    pub fn open(others: &Vec<Channel>) -> (channel: Channel)
        ensures
            channel.has_capacity(),
            forall|i: int| 0 <= i < others@.len() ==> (#[trigger] others@[i]).apart(channel),
    {
        Channel {
            video_sender: video_broadcast(CAPACITY, others),
            chat_sender: chat_broadcast(CAPACITY, others),
        }
    }
}

impl Clone for Channel {
    /// A handle on the same channel.
    fn clone(&self) -> (copy: Self)
        ensures
            copy == *self,
    {
        Channel {
            video_sender: self.video_sender.clone(),
            chat_sender: self.chat_sender.clone(),
        }
    }
}

/// Whether no two of some channels have their video or their chat in common.
pub open spec fn all_apart(channels: Seq<Channel>) -> bool {
    forall|i: int, j: int|
        0 <= i < j < channels.len() ==> (#[trigger] channels[i]).apart(#[trigger] channels[j])
}

/// One channel for each of some video files, each with video and chat of its
/// own.
pub fn open_channels(files: &Vec<String>) -> (channels: Vec<Channel>)
    ensures
        channels@.len() == files@.len(),
        forall|i: int| 0 <= i < channels@.len() ==> (#[trigger] channels@[i]).has_capacity(),
        all_apart(channels@),
{
    let mut channels: Vec<Channel> = Vec::new();
    while channels.len() < files.len()
        invariant
            channels@.len() <= files@.len(),
            forall|i: int| 0 <= i < channels@.len() ==> (#[trigger] channels@[i]).has_capacity(),
            all_apart(channels@),
        decreases files@.len() - channels@.len(),
    {
        let channel = Channel::open(&channels);
        channels.push(channel);
    }
    channels
}

/// A video file that is to be shown on a broadcast.
pub struct Showing {
    /// The path of the file.
    pub path: String,
    /// The broadcast.
    pub sender: broadcast::Sender<Vec<u8>>,
}

/// Whether on each of some channels the video file with its number is shown.
pub open spec fn are_shown(
    files: Seq<String>,
    channels: Seq<Channel>,
    shown: Seq<Showing>,
) -> bool {
    &&& shown.len() == files.len()
    &&& forall|i: int|
        0 <= i < shown.len() ==> (#[trigger] shown[i]).path@ == files[i]@ && shown[i].sender
            == channels[i].video_sender
}

/// What is shown on some channels: on each the video file with the number of the
/// channel.
pub fn showings(files: &Vec<String>, channels: &Vec<Channel>) -> (shown: Vec<Showing>)
    requires
        files@.len() == channels@.len(),
    ensures
        are_shown(files@, channels@, shown@),
{
    let mut shown: Vec<Showing> = Vec::new();
    while shown.len() < files.len()
        invariant
            shown@.len() <= files@.len() == channels@.len(),
            forall|i: int|
                0 <= i < shown@.len() ==> (#[trigger] shown@[i]).path@ == files@[i]@
                    && shown@[i].sender == channels@[i].video_sender,
        decreases files@.len() - shown@.len(),
    {
        let number = shown.len();
        shown.push(
            Showing {
                path: files[number].clone(),
                sender: channels[number].video_sender.clone(),
            },
        );
    }
    shown
}

/// What becomes of some channels when the download of an uploaded video has ended,
/// and what comes back of it.
pub open spec fn takes_in<E>(
    downloaded: Result<String, E>,
    before: Seq<Channel>,
    after: Seq<Channel>,
    result: Result<Showing, E>,
) -> bool {
    match downloaded {
        Err(error) => after == before && result == Err::<Showing, E>(error),
        Ok(path) => {
            &&& after.len() == before.len() + 1
            &&& after.drop_last() == before
            &&& after.last().has_capacity()
            &&& forall|i: int|
                0 <= i < before.len() ==> (#[trigger] before[i]).apart(after.last())
            &&& result matches Ok(showing)
            &&& showing.path@ == path@
            &&& showing.sender == after.last().video_sender
        },
    }
}

/// Makes a channel of an uploaded video, once its download has ended. The new
/// channel stands behind the others, which keep their numbers, and has video and
/// chat of its own; what is to be shown on it comes back. After a download that
/// failed, the channels stay as they are and the error comes back.
pub fn handle_upload_and_create_channels<E>(
    downloaded: Result<String, E>,
    channels: &mut Vec<Channel>,
) -> (result: Result<Showing, E>)
    ensures
        takes_in(downloaded, old(channels)@, final(channels)@, result),
        all_apart(old(channels)@) ==> all_apart(final(channels)@),
{
    match downloaded {
        Err(error) => Err(error),
        Ok(path) => {
            let channel = Channel::open(channels);
            let sender = channel.video_sender.clone();
            channels.push(channel);
            assert(channels@.drop_last() =~= old(channels)@);
            Ok(Showing { path, sender })
        },
    }
}

/// Whether a channel is the one with a number.
pub open spec fn has_number(channels: Seq<Channel>, number: u16, channel: Channel) -> bool {
    channel == channels[number as int]
}

/// The channel with a number.
pub fn tuned(channels: &Vec<Channel>, number: u16) -> (channel: &Channel)
    requires
        number < channels@.len(),
    ensures
        has_number(channels@, number, *channel),
{
    &channels[number as usize]
}

/// A broadcast keeps 128 messages for receivers that lag.
pub proof fn law_capacity(channel: Channel)
    requires
        channel.has_capacity(),
    ensures
        video_retained(channel.video_sender) == 128,
        chat_retained(channel.chat_sender) == 128,
{
    reveal_with_fuel(next_power_of_two, 8);
}

/// A new channel takes no number from another: whoever asks for a channel by
/// its number gets the same one as before, and the new one has the number that
/// was the number of channels.
pub proof fn law_numbers_are_kept(channels: Seq<Channel>, channel: Channel, number: int)
    requires
        0 <= number < channels.len(),
    ensures
        channels.push(channel)[number] == channels[number],
        channels.push(channel)[channels.len() as int] == channel,
{
}

/// Channel n shows the n-th of the listed videos, and it alone does: what another
/// channel shows goes to another broadcast.
pub proof fn law_channel_shows_its_video(
    entries: Seq<DirEntry>,
    files: Seq<String>,
    channels: Seq<Channel>,
    shown: Seq<Showing>,
    number: int,
    other: int,
)
    requires
        files.map_values(|file: String| file@) == video_paths(entries),
        channels.len() == files.len(),
        all_apart(channels),
        are_shown(files, channels, shown),
        0 <= number < channels.len(),
        0 <= other < channels.len(),
    ensures
        shown.len() == video_paths(entries).len(),
        shown[number].path@ == video_paths(entries)[number],
        shown[other].sender == channels[number].video_sender <==> other == number,
{
    assert(files.map_values(|file: String| file@).len() == files.len());
    assert(files.map_values(|file: String| file@)[number] == files[number]@);
    assert(shown[number].sender == channels[number].video_sender);
    assert(shown[other].sender == channels[other].video_sender);
    if other < number {
        assert(channels[other].apart(channels[number]));
    } else if number < other {
        assert(channels[number].apart(channels[other]));
    }
}

/// The channels stay in step with the listed videos: when there are as many of
/// the ones as of the others, and an upload adds a video and a channel, there
/// still are, in whatever order the videos are listed then. So every number below
/// that of the listed videos is the number of a channel.
pub proof fn law_upload_keeps_step(
    channels: Seq<Channel>,
    channel: Channel,
    before: Seq<DirEntry>,
    entry: DirEntry,
    after: Seq<DirEntry>,
    number: u16,
)
    requires
        channels.len() == video_paths(before).len(),
        is_video(entry),
        after.to_multiset() == before.to_multiset().insert(entry),
        number < video_paths(after).len(),
    ensures
        channels.push(channel).len() == video_paths(after).len(),
        number < channels.push(channel).len(),
{
    videos::law_listing_grows_in_any_order(before, entry, after);
}

/// Channels that are apart have neither a broadcast of video nor one of chat in
/// common, whichever two of them are taken.
pub proof fn law_channels_share_nothing(channels: Seq<Channel>, one: int, other: int)
    requires
        all_apart(channels),
        0 <= one < channels.len(),
        0 <= other < channels.len(),
        one != other,
    ensures
        channels[one].video_sender != channels[other].video_sender,
        channels[one].chat_sender != channels[other].chat_sender,
        channels[one].apart(channels[other]),
{
    if one < other {
        assert(channels[one].apart(channels[other]));
    } else {
        assert(channels[other].apart(channels[one]));
    }
}

/// A channel that is apart from another shares neither its video nor its chat.
pub proof fn law_apart(one: Channel, other: Channel)
    ensures
        one.apart(other) <==> one.video_sender != other.video_sender && one.chat_sender
            != other.chat_sender,
{
}

/// A download that failed changes no channel. One that succeeded adds one channel, of
/// which neither video nor chat belongs to another and on which the video is to be
/// shown, and each other channel keeps its number.
pub proof fn law_upload_adds_its_channel<E>(
    downloaded: Result<String, E>,
    before: Seq<Channel>,
    after: Seq<Channel>,
    result: Result<Showing, E>,
    number: int,
)
    requires
        takes_in(downloaded, before, after, result),
        0 <= number < before.len(),
    ensures
        after[number] == before[number],
        downloaded is Ok <==> result is Ok,
        downloaded is Err ==> after.len() == before.len(),
        downloaded matches Err(error) ==> result == Err::<Showing, E>(error),
        downloaded matches Ok(path) ==> {
            let new = after[before.len() as int];
            &&& after.len() == before.len() + 1
            &&& new.video_sender != before[number].video_sender
            &&& new.chat_sender != before[number].chat_sender
            &&& result matches Ok(showing)
            &&& showing.path@ == path@
            &&& showing.sender == new.video_sender
        },
{
    if downloaded is Ok {
        assert(after[number] == after.drop_last()[number]);
        assert(before[number].apart(after.last()));
    }
}

/// Whoever asks for a channel by its number gets the video and the chat of that
/// channel.
pub proof fn law_number_finds_its_channel(channels: Seq<Channel>, number: u16, channel: Channel)
    requires
        number < channels.len(),
        has_number(channels, number, channel),
    ensures
        channel.video_sender == channels[number as int].video_sender,
        channel.chat_sender == channels[number as int].chat_sender,
{
}

} // verus!
