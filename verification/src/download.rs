//! Fetching the video behind a link with an outside program.

use vstd::prelude::*;

use crate::text::NumberError;
use crate::videos;
use crate::videos::{has_free_number, names_next, DirEntry};

verus! {

/// The directory in which downloaded videos are stored.
pub fn output_directory() -> (directory: &'static str)
    ensures
        directory@ == "./server/videos"@,
{
    "./server/videos"
}

/// The name with which the file names of downloaded videos begin.
pub fn base_filename() -> (name: &'static str)
    ensures
        name@ == "user"@,
{
    "user"
}

/// The path under which a video is stored.
pub open spec fn stored_path(file_name: Seq<char>) -> Seq<char> {
    "./server/videos"@ + "/"@ + file_name
}

/// The path under which a video is stored.
pub fn output_path(file_name: &str) -> (path: String)
    ensures
        path@ == stored_path(file_name@),
{
    let mut path = output_directory().to_string();
    path.append("/");
    path.append(file_name);
    path
}

/// The texts of some strings.
pub open spec fn texts(strings: Seq<String>) -> Seq<Seq<char>> {
    strings.map_values(|string: String| string@)
}

/// What the downloading program is told: where to store the video, the link,
/// and to fetch an mp4 file without much talk.
pub open spec fn instructions(output_path: Seq<char>, link: Seq<char>) -> Seq<Seq<char>> {
    seq!["-o"@, output_path, link, "-f"@, "mp4"@, "--quiet"@, "--no-warnings"@]
}

/// What the downloading program is told.
pub fn download_args(output_path: &str, link: &str) -> (args: Vec<String>)
    ensures
        texts(args@) == instructions(output_path@, link@),
{
    let args = vec![
        "-o".to_string(),
        output_path.to_string(),
        link.to_string(),
        "-f".to_string(),
        "mp4".to_string(),
        "--quiet".to_string(),
        "--no-warnings".to_string(),
    ];
    assert(texts(args@) =~= instructions(output_path@, link@));
    args
}

/// A download to be made.
#[derive(Debug, PartialEq, Eq)]
pub struct DownloadPlan {
    /// Where the video will be.
    pub path: String,
    /// The program to try first.
    pub program: String,
    /// What any program is told.
    pub args: Vec<String>,
}

/// What the download of a link into the directory of the videos is, given the
/// entries of the directory.
pub open spec fn plans(
    entries: Seq<DirEntry>,
    link: Seq<char>,
    plan: Result<DownloadPlan, NumberError>,
) -> bool {
    match plan {
        Ok(plan) => exists|name: Seq<char>|
            {
                &&& #[trigger] names_next(entries, "user"@, Ok(name))
                &&& plan.path@ == stored_path(name)
                &&& plan.program@ == "./yt-dlp"@
                &&& texts(plan.args@) == instructions(plan.path@, link)
            },
        Err(error) => names_next(entries, "user"@, Err(error)),
    }
}

/// Plans the download of a link into the directory of the videos, whose entries
/// are given. The file is a new one.
pub fn plan_download(entries: &Vec<DirEntry>, link: &str) -> (plan: Result<
    DownloadPlan,
    NumberError,
>)
    requires
        has_free_number(entries@),
    ensures
        plans(entries@, link@, plan),
{
    match videos::get_next_user_filename(entries, base_filename()) {
        Err(error) => Err(error),
        Ok(name) => {
            assert(names_next(entries@, "user"@, Ok(name@)));
            let path = output_path(name.as_str());
            let args = download_args(path.as_str(), link);
            Ok(DownloadPlan { path, program: "./yt-dlp".to_string(), args })
        },
    }
}

/// How far a download has come.
#[derive(Debug, Clone, Copy, PartialEq, Eq, Structural)]
pub enum DownloadState {
    /// The program beside the server runs.
    Local,
    /// The program on the search path runs.
    OnPath,
    /// The program has succeeded and its file is looked for.
    Checking,
    /// The download is over.
    Over,
}

/// What happened to a download.
#[derive(Debug, Clone, Copy, PartialEq, Eq, Structural)]
pub enum DownloadEvent {
    /// The program could not be run.
    NotRun,
    /// The program has ended.
    Ended { success: bool },
    /// The file was looked for.
    Looked { exists: bool },
}

/// Why there is no video.
#[derive(Debug, Clone, Copy, PartialEq, Eq, Structural)]
pub enum DownloadError {
    /// The program could not be run at all.
    NotRun,
    /// The program failed.
    Failed,
    /// The program succeeded without leaving a file.
    NoFile,
}

impl DownloadError {
    /// The error in words, unless the system has its own for it.
    pub fn message(self) -> (message: Option<String>)
        ensures
            match self {
                DownloadError::NotRun => message is None,
                DownloadError::Failed => message matches Some(text) && text@
                    == "Failed to download video"@,
                DownloadError::NoFile => message matches Some(text) && text@
                    == "Downloaded video file does not exist"@,
            },
    {
        match self {
            DownloadError::NotRun => None,
            DownloadError::Failed => Some("Failed to download video".to_string()),
            DownloadError::NoFile => Some("Downloaded video file does not exist".to_string()),
        }
    }
}

/// What to do next for a download.
#[derive(Debug, PartialEq, Eq)]
pub enum DownloadAction {
    /// Run the program.
    Run(String),
    /// Look for the file.
    Look,
    /// Use the file.
    Use,
    /// Give up.
    Fail(DownloadError),
}

/// Whether an event is one that a download waits for.
pub open spec fn download_awaits(state: DownloadState, event: DownloadEvent) -> bool {
    match state {
        DownloadState::Local => event is NotRun || event is Ended,
        DownloadState::OnPath => event is NotRun || event is Ended,
        DownloadState::Checking => event is Looked,
        DownloadState::Over => false,
    }
}

/// How a download goes on. The program beside the server is tried first, the
/// one on the search path only if the first cannot be run.
pub open spec fn downloads(
    state: DownloadState,
    event: DownloadEvent,
    next: DownloadState,
    action: DownloadAction,
) -> bool {
    match event {
        DownloadEvent::NotRun => if state is Local {
            &&& next is OnPath
            &&& action matches DownloadAction::Run(program)
            &&& program@ == "yt-dlp"@
        } else {
            next is Over && action == DownloadAction::Fail(DownloadError::NotRun)
        },
        DownloadEvent::Ended { success } => if success {
            next is Checking && action is Look
        } else {
            next is Over && action == DownloadAction::Fail(DownloadError::Failed)
        },
        DownloadEvent::Looked { exists } => {
            &&& next is Over
            &&& if exists {
                action is Use
            } else {
                action == DownloadAction::Fail(DownloadError::NoFile)
            }
        },
    }
}

/// Decides how a download goes on after an event.
pub fn download_and_process_youtube_link(state: DownloadState, event: DownloadEvent) -> (res: (
    DownloadState,
    DownloadAction,
))
    requires
        download_awaits(state, event),
    ensures
        downloads(state, event, res.0, res.1),
{
    match event {
        DownloadEvent::NotRun => match state {
            DownloadState::Local => (
                DownloadState::OnPath,
                DownloadAction::Run("yt-dlp".to_string()),
            ),
            _ => (DownloadState::Over, DownloadAction::Fail(DownloadError::NotRun)),
        },
        DownloadEvent::Ended { success } => if success {
            (DownloadState::Checking, DownloadAction::Look)
        } else {
            (DownloadState::Over, DownloadAction::Fail(DownloadError::Failed))
        },
        DownloadEvent::Looked { exists } => if exists {
            (DownloadState::Over, DownloadAction::Use)
        } else {
            (DownloadState::Over, DownloadAction::Fail(DownloadError::NoFile))
        },
    }
}

/// Whether an event can come of an action.
pub open spec fn download_brings(action: DownloadAction, event: DownloadEvent) -> bool {
    match action {
        DownloadAction::Run(_) => event is NotRun || event is Ended,
        DownloadAction::Look => event is Looked,
        _ => false,
    }
}

/// A download is never caught off guard: what can come of its action is what
/// it then waits for.
pub proof fn law_download_keeps_step(
    state: DownloadState,
    event: DownloadEvent,
    next: DownloadState,
    action: DownloadAction,
    following: DownloadEvent,
)
    requires
        downloads(state, event, next, action),
    ensures
        download_brings(action, following) <==> download_awaits(next, following),
{
}

/// A video is used only if a program has succeeded and its file is there.
pub proof fn law_only_a_whole_video_is_used(
    state: DownloadState,
    event: DownloadEvent,
    next: DownloadState,
    action: DownloadAction,
)
    requires
        download_awaits(state, event),
        downloads(state, event, next, action),
        action is Use,
    ensures
        state is Checking,
        event == (DownloadEvent::Looked { exists: true }),
{
}

/// The texts of some strings are those of each of them, in order.
pub proof fn law_texts(strings: Seq<String>)
    ensures
        texts(strings).len() == strings.len(),
        forall|i: int| 0 <= i < strings.len() ==> #[trigger] texts(strings)[i] == strings[i]@,
{
}

/// A video is stored in the directory of the videos under its whole file name.
pub proof fn law_stored_path(file_name: Seq<char>)
    ensures
        stored_path(file_name).take(16) == "./server/videos/"@,
        stored_path(file_name).skip(16) == file_name,
{
    reveal_strlit("./server/videos");
    reveal_strlit("/");
    reveal_strlit("./server/videos/");
    assert(stored_path(file_name).take(16) =~= "./server/videos/"@);
    assert(stored_path(file_name).skip(16) =~= file_name);
}

/// The downloading program gets the whole path and the whole link, whatever they are,
/// and five fixed options besides.
pub proof fn law_program_gets_path_and_link(
    output_path: Seq<char>,
    link: Seq<char>,
    args: Seq<String>,
)
    requires
        texts(args) == instructions(output_path, link),
    ensures
        args.len() == 7,
        args[0]@ == "-o"@,
        args[1]@ == output_path,
        args[2]@ == link,
        args[3]@ == "-f"@,
        args[4]@ == "mp4"@,
        args[5]@ == "--quiet"@,
        args[6]@ == "--no-warnings"@,
{
    law_texts(args);
    let told = instructions(output_path, link);
    assert(told.len() == 7);
    assert(texts(args)[0] == told[0] && texts(args)[1] == told[1] && texts(args)[2] == told[2]
        && texts(args)[3] == told[3] && texts(args)[4] == told[4] && texts(args)[5] == told[5]
        && texts(args)[6] == told[6]);
}

/// A plan stores the video behind the link in the directory of the videos, under the
/// name that is next there, and has the program beside the server fetch that very
/// link to that very path.
pub proof fn law_plan_fetches_the_link(
    entries: Seq<DirEntry>,
    link: Seq<char>,
    plan: DownloadPlan,
)
    requires
        plans(entries, link, Ok(plan)),
    ensures
        plan.path@.take(16) == "./server/videos/"@,
        names_next(entries, "user"@, Ok(plan.path@.skip(16))),
        plan.program@ == "./yt-dlp"@,
        plan.args@.len() == 7,
        plan.args@[1]@ == plan.path@,
        plan.args@[2]@ == link,
{
    let name = choose|name: Seq<char>|
        {
            &&& #[trigger] names_next(entries, "user"@, Ok(name))
            &&& plan.path@ == stored_path(name)
            &&& plan.program@ == "./yt-dlp"@
            &&& texts(plan.args@) == instructions(plan.path@, link)
        };
    law_stored_path(name);
    law_program_gets_path_and_link(plan.path@, link, plan.args@);
}

/// There is no plan only if there is no next name, and for the same reason.
pub proof fn law_plan_fails_without_a_name(
    entries: Seq<DirEntry>,
    link: Seq<char>,
    error: NumberError,
)
    requires
        plans(entries, link, Err(error)),
    ensures
        names_next(entries, "user"@, Err(error)),
{
}

/// How a download goes on after any event: a program that cannot be run is followed
/// by the one on the search path, once; a program that fails ends the download, one
/// that succeeds has its file looked for; and the file is used if it is there.
pub proof fn law_download_step(
    state: DownloadState,
    event: DownloadEvent,
    next: DownloadState,
    action: DownloadAction,
)
    requires
        download_awaits(state, event),
        downloads(state, event, next, action),
    ensures
        action is Run <==> state is Local && event is NotRun,
        action matches DownloadAction::Run(program) ==> next is OnPath && program@ == "yt-dlp"@,
        action is Look <==> event == (DownloadEvent::Ended { success: true }),
        action is Look ==> next is Checking,
        action is Use <==> event == (DownloadEvent::Looked { exists: true }),
        action == DownloadAction::Fail(DownloadError::NotRun) <==> state is OnPath && event
            is NotRun,
        action == DownloadAction::Fail(DownloadError::Failed) <==> event == (
        DownloadEvent::Ended { success: false }),
        action == DownloadAction::Fail(DownloadError::NoFile) <==> event == (
        DownloadEvent::Looked { exists: false }),
        action is Use || action is Fail ==> next is Over,
{
}

} // verus!
