use bear_tv::text::NumberError;
use bear_tv::videos::{
    get_mp4_files, get_next_user_filename, next_user_number, user_numbers, video_name, DirEntry,
};

fn file(name: &str) -> DirEntry {
    DirEntry {
        path: format!("server/videos/{name}"),
        file_name: name.as_bytes().to_vec(),
        is_file: true,
    }
}

fn directory(name: &str) -> DirEntry {
    DirEntry { is_file: false, ..file(name) }
}

#[test]
fn videos_are_listed_in_order() {
    let entries = vec![file("b.mp4"), file("notes.txt"), file("a.mp4"), directory("c.mp4")];
    assert_eq!(get_mp4_files(&entries), vec!["server/videos/b.mp4", "server/videos/a.mp4"]);
    assert!(get_mp4_files(&vec![]).is_empty());
}

#[test]
fn extensions_are_those_of_std() {
    let names = [
        "a.mp4", ".mp4", "..mp4", "a.MP4", "mp4", "a.mp4.txt", "amp4", "a.b.mp4", "a.mp", "a.mp44",
        ".a.mp4", "a..mp4", "é.mp4",
    ];
    for name in names {
        let expected = std::path::Path::new(name).extension() == Some("mp4".as_ref());
        assert_eq!(get_mp4_files(&vec![file(name)]).len() == 1, expected);
    }
}

#[test]
fn a_name_need_not_be_text_to_be_a_video() {
    let entry = DirEntry {
        path: "server/videos/?.mp4".to_string(),
        file_name: b"\xff.mp4".to_vec(),
        is_file: true,
    };
    assert_eq!(get_mp4_files(&vec![entry]), vec!["server/videos/?.mp4"]);
}

#[test]
fn numbers_come_from_names_of_uploaded_videos() {
    let entries = vec![
        file("user_3.mp4"),
        file("user_007.mp4"),
        file("user_.mp4"),
        file("user_1.mp4.mp4"),
        file("xuser_1.mp4"),
        file("user_1.mp4\n"),
        file("user_+1.mp4"),
        file("user_1 .mp4"),
        file("User_1.mp4"),
        directory("user_5.mp4"),
        file("user_3.mp4"),
    ];
    assert_eq!(user_numbers(&entries), Ok(vec![3, 7, 3]));
}

#[test]
fn a_name_that_is_not_text_has_no_number() {
    let entry =
        DirEntry { path: String::new(), file_name: b"user_\xff1.mp4".to_vec(), is_file: true };
    assert_eq!(user_numbers(&vec![entry]), Ok(vec![]));
}

#[test]
fn a_number_that_cannot_be_read_is_an_error() {
    let large = vec![file("user_1.mp4"), file("user_4294967296.mp4"), file("user_٣.mp4")];
    assert_eq!(user_numbers(&large), Err(NumberError::TooLarge));
    let foreign = vec![file("user_٣.mp4"), file("user_4294967296.mp4")];
    assert_eq!(user_numbers(&foreign), Err(NumberError::InvalidDigit));
    assert_eq!(get_next_user_filename(&foreign, "user"), Err(NumberError::InvalidDigit));
    assert_eq!(user_numbers(&vec![file("user_4294967295.mp4")]), Ok(vec![u32::MAX]));
}

#[test]
fn the_least_missing_number_is_next() {
    assert_eq!(next_user_number(&vec![]), 0);
    assert_eq!(next_user_number(&vec![1, 2]), 0);
    assert_eq!(next_user_number(&vec![2, 0, 1, 0]), 3);
    assert_eq!(next_user_number(&vec![0, 1, 3, 4]), 2);
}

#[test]
fn names_are_built_from_base_and_number() {
    assert_eq!(video_name("user", 0), "user_0.mp4");
    assert_eq!(video_name("clip", 120), "clip_120.mp4");
}

#[test]
fn the_next_name_fills_the_gap_and_is_new() {
    let mut entries: Vec<DirEntry> = vec![file("user_1.mp4"), file("demo.mp4")];
    for expected in ["user_0.mp4", "user_2.mp4", "user_3.mp4"] {
        let name = get_next_user_filename(&entries, "user").unwrap();
        assert_eq!(name, expected);
        assert!(entries.iter().all(|entry| entry.file_name != name.as_bytes()));
        entries.push(file(&name));
    }
}

#[test]
fn a_stored_video_is_listed() {
    let name = get_next_user_filename(&vec![], "user").unwrap();
    let entries = vec![file("demo.mp4"), file(&name)];
    assert_eq!(get_mp4_files(&entries), vec!["server/videos/demo.mp4", "server/videos/user_0.mp4"]);
}

#[test]
fn letters_of_other_scripts_are_no_numbers() {
    let entries = vec![file("user_é.mp4"), file("user_1é.mp4"), file("user_²2.mp4")];
    assert_eq!(user_numbers(&entries), Ok(vec![]));
    assert_eq!(get_next_user_filename(&entries, "user"), Ok("user_0.mp4".to_string()));
}

#[test]
fn a_new_video_is_listed_in_any_place() {
    for at in 0..3 {
        let mut entries = vec![file("b.mp4"), file("a.mp4")];
        entries.insert(at, file("user_0.mp4"));
        let mut listed = get_mp4_files(&entries);
        listed.sort();
        let expected = ["server/videos/a.mp4", "server/videos/b.mp4", "server/videos/user_0.mp4"];
        assert_eq!(listed, expected);
    }
}
