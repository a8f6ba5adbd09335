use file_browser::encoding::{decode, decoded_or_error, encode};
use file_browser::engine::{
    acknowledge, click_command, dispatch, finish_relocation, folder_creation, folder_target,
    list_directory, locate_served, navigate, navigate_to, preview, refreshes, relocate_showcase, relocate_to,
    rename_showcase, rename_to, resolve, settle, show, Command, FsAction, Step, VIDEO_FRAME,
};
use file_browser::error::{CommandError, FilesystemOpError, PathError, ScanError};
use file_browser::listing::{
    make_entry, make_parent_entry, EntryKind, Presentation, Probe, RawEntry, Snapshot,
};
use file_browser::path::AbsolutePath;
use file_browser::session::{InteractionMode, Session};
use std::collections::BTreeSet;

fn abs(text: &str) -> AbsolutePath {
    AbsolutePath::new(text).unwrap()
}

fn home() -> AbsolutePath {
    abs("/home/user")
}

fn dir(name: &str, modified: u64) -> Probe {
    Probe::Known(RawEntry { name: name.to_string(), is_dir: true, is_file: false, modified, size: 0 })
}

fn file(name: &str, size: u64) -> Probe {
    Probe::Known(RawEntry { name: name.to_string(), is_dir: false, is_file: true, modified: 0, size })
}

fn here(s: &Session) -> &str {
    s.current_directory.as_ref().unwrap().as_str()
}

fn rename_of(action: FsAction) -> (String, String) {
    match action {
        FsAction::Rename { from, to } => (from, to.as_str().to_string()),
        other => panic!("not a rename: {other:?}"),
    }
}

#[test]
fn decode_undoes_percent_escapes() {
    assert_eq!(decode("a%20b").unwrap(), "a b");
    assert_eq!(decode("%2Fhome%2Fuser%2FPictures%2Fa.png").unwrap(), "/home/user/Pictures/a.png");
    assert_eq!(decode("plain").unwrap(), "plain");
    assert_eq!(decode("").unwrap(), "");
    assert_eq!(decode("a+b").unwrap(), "a+b");
    assert_eq!(decode("%F0%9F%91%BE").unwrap(), "👾");
}

#[test]
fn decode_keeps_what_is_no_escape() {
    assert_eq!(decode("100%").unwrap(), "100%");
    assert_eq!(decode("%zz").unwrap(), "%zz");
    assert_eq!(decode("%2").unwrap(), "%2");
}

#[test]
fn decode_rejects_what_is_not_text() {
    assert_eq!(decode("%FF"), Err(PathError::InvalidEncoding));
    assert_eq!(decode("a%C3"), Err(PathError::InvalidEncoding));
}

#[test]
fn encode_escapes_all_but_unreserved_characters() {
    assert_eq!(encode("a b"), "a%20b");
    assert_eq!(encode("/home/user/a.png"), "%2Fhome%2Fuser%2Fa.png");
    assert_eq!(encode("a-b_c.d~e"), "a-b_c.d~e");
    assert_eq!(encode(".."), "..");
    assert_eq!(encode("#1"), "%231");
    assert_eq!(encode("é"), "%C3%A9");
}

#[test]
fn decode_undoes_encode_on_samples() {
    for text in ["", "a b", "/home/user/#1 é.png", "100%", "%41", "..", "a+b&c=d"] {
        assert_eq!(decode(&encode(text)).unwrap(), text);
    }
}

#[test]
fn list_directory_scans_the_current_directory() {
    let mut s = Session::new();
    let listing = list_directory(&mut s, &home(), &Snapshot::Children(vec![dir("A", 1), file("a.png", 1)]))
        .unwrap();
    assert_eq!(here(&s), "/home/user");
    assert_eq!(listing.directories[0].path.as_str(), "/home");
    assert_eq!(listing.directories[1].path.as_str(), "/home/user/A");
    assert_eq!(listing.files[0].path.as_str(), "/home/user/a.png");
    assert!(!listing.move_mode);
    s.toggle_move_mode();
    s.set_directory(abs("/srv"));
    let listing = list_directory(&mut s, &home(), &Snapshot::Children(vec![dir("A", 1)])).unwrap();
    assert!(listing.move_mode);
    assert_eq!(listing.directories[1].path.as_str(), "/srv/A");
}

#[test]
fn list_directory_hands_on_scan_errors() {
    let mut s = Session::new();
    assert_eq!(list_directory(&mut s, &home(), &Snapshot::Unreadable).err(), Some(ScanError::Unreadable));
    assert_eq!(
        list_directory(&mut s, &home(), &Snapshot::Children(vec![Probe::NoMetadata])).err(),
        Some(ScanError::EntryMetadataUnavailable)
    );
}

#[test]
fn navigate_resolves_against_the_current_directory() {
    let mut s = Session::new();
    assert_eq!(navigate(&mut s, &home(), "Pictures"), Ok(()));
    assert_eq!(here(&s), "/home/user/Pictures");
    assert_eq!(navigate(&mut s, &home(), "My%20Album"), Ok(()));
    assert_eq!(here(&s), "/home/user/Pictures/My Album");
    assert_eq!(navigate(&mut s, &home(), ".."), Ok(()));
    assert_eq!(here(&s), "/home/user/Pictures");
    assert_eq!(navigate(&mut s, &home(), "%2Fsrv"), Ok(()));
    assert_eq!(here(&s), "/srv");
}

#[test]
fn navigate_up_from_root_stays_at_root() {
    let mut s = Session::new();
    assert_eq!(navigate(&mut s, &AbsolutePath::root(), ".."), Ok(()));
    assert_eq!(here(&s), "/");
    assert_eq!(navigate(&mut s, &AbsolutePath::root(), ".."), Ok(()));
    assert_eq!(here(&s), "/");
}

#[test]
fn navigate_does_not_bound_the_result() {
    let mut s = Session::new();
    navigate_to(&mut s, &home(), "../../etc");
    assert_eq!(here(&s), "/home/user/../../etc");
}

#[test]
fn navigate_with_a_bad_token_changes_nothing() {
    let mut s = Session::new();
    s.set_directory(abs("/srv"));
    assert_eq!(navigate(&mut s, &home(), "%FF"), Err(PathError::InvalidEncoding));
    assert_eq!(here(&s), "/srv");
    let mut fresh = Session::new();
    assert_eq!(navigate(&mut fresh, &home(), "%FF"), Err(PathError::InvalidEncoding));
    assert!(fresh.current_directory.is_none());
}

#[test]
fn preview_sets_the_showcase_and_picks_the_presentation() {
    let mut s = Session::new();
    let target = preview(&mut s, &home(), "/files", "%2Fhome%2Fuser%2FPictures%2Fa.png").unwrap();
    assert_eq!(target.kind, Presentation::Image);
    assert_eq!(target.served_path, "/files/Pictures/a.png");
    assert_eq!(target.size_hint, None);
    assert_eq!(s.showcase.as_deref(), Some("/home/user/Pictures/a.png"));
    let target = preview(&mut s, &home(), "/files", "%2Fhome%2Fuser%2Fclip.mov").unwrap();
    assert_eq!(target.kind, Presentation::Video);
    assert_eq!(target.served_path, "/files/clip.mov");
    assert_eq!(target.size_hint, Some(VIDEO_FRAME));
    assert_eq!(target.size_hint, Some(400));
    assert_eq!(s.showcase.as_deref(), Some("/home/user/clip.mov"));
    let target = show(&mut s, &home(), "/files", "/srv/film.mp4".to_string());
    assert_eq!(target.kind, Presentation::Video);
    assert_eq!(target.served_path, "/srv/film.mp4");
}

#[test]
fn preview_with_a_bad_token_changes_nothing() {
    let mut s = Session::new();
    s.set_showcase(Some("/home/user/a.png".to_string()));
    assert_eq!(preview(&mut s, &home(), "/files", "%FF").err(), Some(PathError::InvalidEncoding));
    assert_eq!(s.showcase.as_deref(), Some("/home/user/a.png"));
}

#[test]
fn create_folder_asks_for_nothing_where_the_folder_exists() {
    let s = Session::new();
    let target = folder_target(&s, &home(), "x");
    assert_eq!(target.as_str(), "/home/user/x");
    assert!(folder_creation(target.duplicate(), true).is_none());
    match folder_creation(target, false) {
        Some(FsAction::CreateDirectory(p)) => assert_eq!(p.as_str(), "/home/user/x"),
        other => panic!("unexpected plan: {other:?}"),
    }
}

#[test]
fn create_folder_twice_creates_one_directory() {
    let mut existing: BTreeSet<String> = BTreeSet::new();
    let mut created = 0;
    let s = Session::new();
    for _ in 0..2 {
        let target = folder_target(&s, &home(), "x");
        let exists = existing.contains(target.as_str());
        let outcome = match folder_creation(target, exists) {
            Some(FsAction::CreateDirectory(p)) => {
                created += 1;
                existing.insert(p.as_str().to_string());
                Ok(())
            }
            Some(other) => panic!("unexpected plan: {other:?}"),
            None => Ok(()),
        };
        assert_eq!(acknowledge(outcome), Ok(()));
    }
    assert_eq!(created, 1);
    assert_eq!(existing.len(), 1);
    assert!(existing.contains("/home/user/x"));
}

#[test]
fn acknowledge_hands_on_filesystem_failures() {
    assert_eq!(acknowledge(Ok(())), Ok(()));
    for e in [
        FilesystemOpError::NotFound,
        FilesystemOpError::PermissionDenied,
        FilesystemOpError::AlreadyExists,
        FilesystemOpError::Other,
    ] {
        assert_eq!(acknowledge(Err(e)), Err(CommandError::Filesystem(e)));
    }
}

#[test]
fn rename_targets_the_current_directory() {
    let mut s = Session::new();
    s.set_directory(abs("/home/user/Pictures"));
    s.set_showcase(Some("/home/user/Pictures/a.png".to_string()));
    let (from, to) = rename_of(rename_showcase(&s, &home(), "b%20c.png").unwrap());
    assert_eq!(from, "/home/user/Pictures/a.png");
    assert_eq!(to, "/home/user/Pictures/b c.png");
    assert_eq!(s.showcase.as_deref(), Some("/home/user/Pictures/a.png"));
}

#[test]
fn rename_fails_without_showcase_or_name() {
    let mut s = Session::new();
    assert_eq!(rename_showcase(&s, &home(), "b.png").err(), Some(CommandError::NoShowcase));
    assert_eq!(rename_showcase(&s, &home(), "").err(), Some(CommandError::NoShowcase));
    assert_eq!(rename_to(&s, &home(), "b.png").err(), Some(CommandError::NoShowcase));
    s.set_showcase(Some("/home/user/a.png".to_string()));
    assert_eq!(rename_showcase(&s, &home(), "").err(), Some(CommandError::EmptyInput));
    assert_eq!(rename_to(&s, &home(), "").err(), Some(CommandError::EmptyInput));
    assert_eq!(
        rename_showcase(&s, &home(), "%FF").err(),
        Some(CommandError::Path(PathError::InvalidEncoding))
    );
}

#[test]
fn relocate_moves_the_showcase_under_its_own_name() {
    let mut s = Session::new();
    s.set_directory(abs("/home/user/Pictures"));
    let file = "/home/user/Pictures/a.png";
    preview(&mut s, &home(), "/files", &encode(file)).unwrap();
    let (from, to) = rename_of(relocate_showcase(&s, &home(), "Archive").unwrap());
    assert_eq!(from, "/home/user/Pictures/a.png");
    assert_eq!(to, "/home/user/Pictures/Archive/a.png");
    let mut files: BTreeSet<String> = BTreeSet::new();
    files.insert(file.to_string());
    assert!(files.remove(&from));
    files.insert(to);
    assert_eq!(finish_relocation(&mut s, Ok(())), Ok(()));
    assert_eq!(s.showcase, None);
    assert!(!files.contains(file));
    assert!(files.contains("/home/user/Pictures/Archive/a.png"));
    assert_eq!(here(&s), "/home/user/Pictures");
}

#[test]
fn relocate_into_the_parent_entry() {
    let mut s = Session::new();
    s.set_showcase(Some("/home/user/a.png".to_string()));
    let (_, to) = rename_of(relocate_to(&s, &home(), "..").unwrap());
    assert_eq!(to, "/home/user/../a.png");
}

#[test]
fn relocate_without_showcase_fails() {
    let s = Session::new();
    assert_eq!(relocate_showcase(&s, &home(), "Archive").err(), Some(CommandError::NoShowcase));
    assert_eq!(relocate_showcase(&s, &home(), "%FF").err(), Some(CommandError::NoShowcase));
    assert_eq!(relocate_to(&s, &home(), "Archive").err(), Some(CommandError::NoShowcase));
    assert!(s.showcase.is_none());
    assert!(s.current_directory.is_none());
}

#[test]
fn relocate_fails_where_the_showcase_names_no_file() {
    let mut s = Session::new();
    for shown in ["", "/", "/home/user/.."] {
        s.set_showcase(Some(shown.to_string()));
        assert_eq!(relocate_showcase(&s, &home(), "Archive").err(), Some(CommandError::NoShowcase));
    }
}

#[test]
fn relocate_with_a_bad_token_fails() {
    let mut s = Session::new();
    s.set_showcase(Some("/home/user/a.png".to_string()));
    assert_eq!(
        relocate_showcase(&s, &home(), "%FF").err(),
        Some(CommandError::Path(PathError::InvalidEncoding))
    );
}

#[test]
fn a_failed_relocation_keeps_the_showcase() {
    let mut s = Session::new();
    s.set_showcase(Some("/home/user/a.png".to_string()));
    assert_eq!(
        finish_relocation(&mut s, Err(FilesystemOpError::PermissionDenied)),
        Err(CommandError::Filesystem(FilesystemOpError::PermissionDenied))
    );
    assert_eq!(s.showcase.as_deref(), Some("/home/user/a.png"));
}

#[test]
fn clicks_are_read_by_mode() {
    let raw = RawEntry { name: "My Album".to_string(), is_dir: true, is_file: false, modified: 1, size: 0 };
    let folder = make_entry(&home(), EntryKind::Directory, &raw);
    match click_command(InteractionMode::Browse, &folder) {
        Some(Command::Navigate(token)) => assert_eq!(token, "My%20Album"),
        other => panic!("unexpected command: {other:?}"),
    }
    match click_command(InteractionMode::Move, &folder) {
        Some(Command::RelocateShowcase(token)) => assert_eq!(token, "My%20Album"),
        other => panic!("unexpected command: {other:?}"),
    }
    let parent = make_parent_entry(&home());
    match click_command(InteractionMode::Browse, &parent) {
        Some(Command::Navigate(token)) => assert_eq!(token, ".."),
        other => panic!("unexpected command: {other:?}"),
    }
    let raw = RawEntry { name: "a b.png".to_string(), is_dir: false, is_file: true, modified: 1, size: 0 };
    let media = make_entry(&home(), EntryKind::Media, &raw);
    for mode in [InteractionMode::Browse, InteractionMode::Move] {
        match click_command(mode, &media) {
            Some(Command::Preview(token)) => assert_eq!(token, "%2Fhome%2Fuser%2Fa%20b.png"),
            other => panic!("unexpected command: {other:?}"),
        }
    }
    let other = make_entry(&home(), EntryKind::Other, &raw);
    assert!(click_command(InteractionMode::Browse, &other).is_none());
    assert!(click_command(InteractionMode::Move, &other).is_none());
}

#[test]
fn a_click_on_a_listed_directory_leads_to_its_path() {
    let mut s = Session::new();
    let listing =
        list_directory(&mut s, &home(), &Snapshot::Children(vec![dir("My Album", 2), dir("b#1", 1)])).unwrap();
    for entry in &listing.directories {
        let mut visitor = Session::new();
        match click_command(InteractionMode::Browse, entry) {
            Some(Command::Navigate(token)) => {
                assert_eq!(navigate(&mut visitor, &home(), &token), Ok(()))
            }
            other => panic!("unexpected command: {other:?}"),
        }
        assert_eq!(here(&visitor), entry.path.as_str());
    }
}

#[test]
fn mutating_commands_ask_for_a_refresh() {
    assert!(!refreshes(&Command::ListDirectory));
    assert!(!refreshes(&Command::Preview("a".to_string())));
    assert!(refreshes(&Command::Navigate("a".to_string())));
    assert!(refreshes(&Command::ToggleMoveMode));
    assert!(refreshes(&Command::CreateFolder("a".to_string())));
    assert!(refreshes(&Command::RenameShowcase("a".to_string())));
    assert!(refreshes(&Command::RelocateShowcase("a".to_string())));
}

#[test]
fn a_whole_visit() {
    let root = home();
    let mut s = Session::new();
    let listing = list_directory(
        &mut s,
        &root,
        &Snapshot::Children(vec![
            dir("Documents", 10),
            dir("Pictures", 30),
            dir(".cache", 40),
            dir("Music", 20),
            file("big.mp4", 900),
            file("notes.txt", 1),
            file("small.jpg", 5),
        ]),
    )
    .unwrap();
    let shown: Vec<&str> = listing.directories.iter().map(|e| e.display_name.as_str()).collect();
    assert_eq!(shown, vec!["..", "Pictures", "Music", "Documents"]);
    let shown: Vec<&str> = listing.files.iter().map(|e| e.display_name.as_str()).collect();
    assert_eq!(shown, vec!["small.jpg", "big.mp4"]);
    assert_eq!(here(&s), "/home/user");

    assert_eq!(navigate(&mut s, &root, "Pictures"), Ok(()));
    assert_eq!(here(&s), "/home/user/Pictures");

    let target = preview(&mut s, &root, "/files", "%2Fhome%2Fuser%2FPictures%2Fa.png").unwrap();
    assert_eq!(target.kind, Presentation::Image);
    assert_eq!(s.showcase.as_deref(), Some("/home/user/Pictures/a.png"));

    assert!(s.toggle_move_mode());
    assert_eq!(s.interaction_mode(), InteractionMode::Move);
    let (from, to) = rename_of(relocate_showcase(&s, &root, "Archive").unwrap());
    assert_eq!(from, "/home/user/Pictures/a.png");
    assert_eq!(to, "/home/user/Pictures/Archive/a.png");
    assert_eq!(finish_relocation(&mut s, Ok(())), Ok(()));
    assert_eq!(s.showcase, None);
    assert_eq!(here(&s), "/home/user/Pictures");
    assert!(s.move_mode);
}

#[test]
fn dispatch_says_what_to_do_next() {
    let root = home();
    let mut s = Session::new();
    match dispatch(&mut s, &root, "/files", &Command::ListDirectory) {
        Ok(Step::Scan(directory)) => assert_eq!(directory.as_str(), "/home/user"),
        other => panic!("unexpected step: {other:?}"),
    }
    assert_eq!(here(&s), "/home/user");
    assert!(matches!(
        dispatch(&mut s, &root, "/files", &Command::Navigate("Pictures".to_string())),
        Ok(Step::Done)
    ));
    assert_eq!(here(&s), "/home/user/Pictures");
    assert!(matches!(dispatch(&mut s, &root, "/files", &Command::ToggleMoveMode), Ok(Step::Done)));
    assert!(s.move_mode);
    match dispatch(&mut s, &root, "/files", &Command::Preview("%2Fhome%2Fuser%2Fclip.mov".to_string())) {
        Ok(Step::Present(target)) => {
            assert_eq!(target.kind, Presentation::Video);
            assert_eq!(target.served_path, "/files/clip.mov");
            assert_eq!(target.size_hint, Some(400));
        }
        other => panic!("unexpected step: {other:?}"),
    }
    assert_eq!(s.showcase.as_deref(), Some("/home/user/clip.mov"));
    match dispatch(&mut s, &root, "/files", &Command::CreateFolder("New Folder".to_string())) {
        Ok(Step::Probe(target)) => assert_eq!(target.as_str(), "/home/user/Pictures/New Folder"),
        other => panic!("unexpected step: {other:?}"),
    }
    match dispatch(&mut s, &root, "/files", &Command::RenameShowcase("film.mov".to_string())) {
        Ok(Step::Perform(action)) => {
            let (from, to) = rename_of(action);
            assert_eq!(from, "/home/user/clip.mov");
            assert_eq!(to, "/home/user/Pictures/film.mov");
        }
        other => panic!("unexpected step: {other:?}"),
    }
    let relocate = Command::RelocateShowcase("Archive".to_string());
    match dispatch(&mut s, &root, "/files", &relocate) {
        Ok(Step::Perform(action)) => {
            let (from, to) = rename_of(action);
            assert_eq!(from, "/home/user/clip.mov");
            assert_eq!(to, "/home/user/Pictures/Archive/clip.mov");
        }
        other => panic!("unexpected step: {other:?}"),
    }
    assert_eq!(s.showcase.as_deref(), Some("/home/user/clip.mov"));
    assert_eq!(settle(&mut s, &relocate, Ok(())), Ok(()));
    assert_eq!(s.showcase, None);
}

#[test]
fn dispatch_reports_what_cannot_be_done() {
    let root = home();
    let mut s = Session::new();
    for command in [Command::Navigate("%FF".to_string()), Command::Preview("%FF".to_string())] {
        assert!(matches!(
            dispatch(&mut s, &root, "/files", &command),
            Err(CommandError::Path(PathError::InvalidEncoding))
        ));
    }
    for command in [Command::RenameShowcase("a".to_string()), Command::RelocateShowcase("a".to_string())] {
        assert!(matches!(dispatch(&mut s, &root, "/files", &command), Err(CommandError::NoShowcase)));
    }
    assert!(s.current_directory.is_none());
    assert!(s.showcase.is_none());
    s.set_showcase(Some("/home/user/a.png".to_string()));
    assert!(matches!(
        dispatch(&mut s, &root, "/files", &Command::RenameShowcase(String::new())),
        Err(CommandError::EmptyInput)
    ));
}

#[test]
fn settle_clears_the_showcase_after_a_relocation_only() {
    let shown = "/home/user/a.png";
    let commands = [
        Command::RenameShowcase("b.png".to_string()),
        Command::CreateFolder("x".to_string()),
        Command::Navigate("x".to_string()),
    ];
    for command in commands {
        let mut s = Session::new();
        s.set_showcase(Some(shown.to_string()));
        assert_eq!(settle(&mut s, &command, Ok(())), Ok(()));
        assert_eq!(s.showcase.as_deref(), Some(shown));
    }
    let relocate = Command::RelocateShowcase("x".to_string());
    let mut s = Session::new();
    s.set_showcase(Some(shown.to_string()));
    assert_eq!(
        settle(&mut s, &relocate, Err(FilesystemOpError::NotFound)),
        Err(CommandError::Filesystem(FilesystemOpError::NotFound))
    );
    assert_eq!(s.showcase.as_deref(), Some(shown));
    assert_eq!(settle(&mut s, &relocate, Ok(())), Ok(()));
    assert_eq!(s.showcase, None);
}

#[test]
fn the_decoder_s_error_becomes_invalid_encoding() {
    assert_eq!(decoded_or_error(Ok("a b".to_string())), Ok("a b".to_string()));
    assert_eq!(decoded_or_error(String::from_utf8(vec![0xff])), Err(PathError::InvalidEncoding));
}

#[test]
fn resolve_decodes_and_resolves() {
    assert_eq!(resolve(&home(), "My%20Album").unwrap().as_str(), "/home/user/My Album");
    assert_eq!(resolve(&home(), "..").unwrap().as_str(), "/home");
    assert_eq!(resolve(&home(), "%2E%2E").unwrap().as_str(), "/home");
    assert_eq!(resolve(&AbsolutePath::root(), "..").unwrap().as_str(), "/");
    assert_eq!(resolve(&home(), "").unwrap().as_str(), "/home/user/");
    assert_eq!(resolve(&home(), "%FF").err(), Some(PathError::InvalidEncoding));
}

#[test]
fn a_served_path_leads_back_to_the_file() {
    assert_eq!(
        locate_served(&home(), "/files", "/files/Pictures/a%20b.png").unwrap(),
        "/home/user/Pictures/a b.png"
    );
    assert_eq!(locate_served(&home(), "/files", "/other/a.png").unwrap(), "/other/a.png");
    assert_eq!(locate_served(&home(), "/files", "/files/%FF").err(), Some(PathError::InvalidEncoding));
}
