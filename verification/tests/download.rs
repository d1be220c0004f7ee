use bear_tv::download::{
    base_filename, download_and_process_youtube_link, download_args, output_directory, output_path,
    plan_download, DownloadAction, DownloadError, DownloadEvent, DownloadState,
};
use bear_tv::text::NumberError;
use bear_tv::videos::DirEntry;

fn file(name: &str) -> DirEntry {
    DirEntry { path: name.to_string(), file_name: name.as_bytes().to_vec(), is_file: true }
}

#[test]
fn videos_are_stored_beside_the_server() {
    assert_eq!(output_directory(), "./server/videos");
    assert_eq!(base_filename(), "user");
    assert_eq!(output_path("user_0.mp4"), "./server/videos/user_0.mp4");
}

#[test]
fn the_program_gets_path_and_link() {
    assert_eq!(
        download_args("p", "https://x"),
        ["-o", "p", "https://x", "-f", "mp4", "--quiet", "--no-warnings"]
    );
}

#[test]
fn a_plan_names_a_new_file() {
    let plan = plan_download(&vec![file("user_0.mp4"), file("a.mp4")], "https://x").unwrap();
    assert_eq!(plan.path, "./server/videos/user_1.mp4");
    assert_eq!(plan.program, "./yt-dlp");
    assert_eq!(plan.args, download_args("./server/videos/user_1.mp4", "https://x"));
    let entries = vec![file("user_99999999999.mp4")];
    assert_eq!(plan_download(&entries, "https://x"), Err(NumberError::TooLarge));
}

#[test]
fn a_download_goes_from_run_to_use() {
    let ended = DownloadEvent::Ended { success: true };
    for state in [DownloadState::Local, DownloadState::OnPath] {
        let (next, action) = download_and_process_youtube_link(state, ended);
        assert_eq!((next, action), (DownloadState::Checking, DownloadAction::Look));
    }
    let looked = DownloadEvent::Looked { exists: true };
    let (next, action) = download_and_process_youtube_link(DownloadState::Checking, looked);
    assert_eq!((next, action), (DownloadState::Over, DownloadAction::Use));
}

#[test]
fn the_program_on_the_path_is_the_second_choice() {
    let (next, action) =
        download_and_process_youtube_link(DownloadState::Local, DownloadEvent::NotRun);
    let run = DownloadAction::Run("yt-dlp".to_string());
    assert_eq!((next, action), (DownloadState::OnPath, run));
    let (next, action) =
        download_and_process_youtube_link(DownloadState::OnPath, DownloadEvent::NotRun);
    let fail = DownloadAction::Fail(DownloadError::NotRun);
    assert_eq!((next, action), (DownloadState::Over, fail));
    assert_eq!(DownloadError::NotRun.message(), None);
}

#[test]
fn a_failed_download_says_why() {
    let ended = DownloadEvent::Ended { success: false };
    let (_, action) = download_and_process_youtube_link(DownloadState::Local, ended);
    assert_eq!(action, DownloadAction::Fail(DownloadError::Failed));
    let looked = DownloadEvent::Looked { exists: false };
    let (_, action) = download_and_process_youtube_link(DownloadState::Checking, looked);
    assert_eq!(action, DownloadAction::Fail(DownloadError::NoFile));
    assert_eq!(
        DownloadError::Failed.message(),
        Some("Failed to download video".to_string())
    );
    assert_eq!(
        DownloadError::NoFile.message(),
        Some("Downloaded video file does not exist".to_string())
    );
}
