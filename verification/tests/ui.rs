use renamer::executor::Action;
use renamer::message::Message;
use renamer::ui::{update, update_preview, Command, State};

fn listing(names: &[&str]) -> Result<Vec<String>, String> {
    Ok(names.iter().map(|n| n.to_string()).collect())
}

fn with_input(dir: &str) -> State {
    let mut state = State::new("/home/user".to_string());
    update(&mut state, Message::InputFolderPathed(dir.to_string()));
    state
}

#[test]
fn the_state_starts_with_its_defaults() {
    let state = State::new("/home/user".to_string());
    assert!(!state.folder_selector_opened);
    assert_eq!(state.input_folder_path, None);
    assert_eq!(state.output_folder_path, None);
    assert_eq!(state.default_home_dir, "/home/user");
    assert_eq!(state.status_message, "");
    assert_eq!(state.file_extension, "mp3");
    assert_eq!(state.total_files, 0);
    assert_eq!(state.renamed_count, 0);
    assert!(!state.renaming_in_progress);
    assert!(state.original_preview.is_empty());
    assert!(state.renamed_preview.is_empty());
    assert_eq!(state.padding_zeros, 3);
    assert!(state.include_original_name);
    assert!(state.auto_padding);
}

#[test]
fn the_folder_chooser_opens_once() {
    let mut state = State::new("/home/user".to_string());
    let first = update(&mut state, Message::FindInputFolder);
    assert!(matches!(first, Command::ChooseInputFolder(ref d) if d == "/home/user"));
    assert!(state.folder_selector_opened);
    let second = update(&mut state, Message::FindOutputFolder);
    assert!(matches!(second, Command::Idle));
    update(&mut state, Message::InputFolderPathed(String::new()));
    assert!(!state.folder_selector_opened);
    assert_eq!(state.input_folder_path, None);
}

#[test]
fn the_folder_chooser_starts_at_the_last_choice() {
    let mut state = with_input("/music");
    let again = update(&mut state, Message::FindInputFolder);
    assert!(matches!(again, Command::ChooseInputFolder(ref d) if d == "/music"));
    update(&mut state, Message::InputFolderPathed(String::new()));
    let out = update(&mut state, Message::FindOutputFolder);
    assert!(matches!(out, Command::ChooseOutputFolder(ref d) if d == "/music/output"));
}

#[test]
fn choosing_the_input_folder_proposes_an_output_folder() {
    let mut state = State::new("/home/user".to_string());
    let command = update(&mut state, Message::InputFolderPathed("/music".to_string()));
    assert_eq!(state.input_folder_path, Some("/music".to_string()));
    assert_eq!(state.output_folder_path, Some("/music/output".to_string()));
    assert!(matches!(
        command,
        Command::ReadInputFolder { ref dir, adjust_padding: false } if dir == "/music"
    ));
}

#[test]
fn choosing_the_output_folder() {
    let mut state = with_input("/music");
    update(&mut state, Message::FindOutputFolder);
    let command = update(&mut state, Message::OutputFolderPathed("/elsewhere".to_string()));
    assert!(matches!(command, Command::Idle));
    assert_eq!(state.output_folder_path, Some("/elsewhere".to_string()));
    update(&mut state, Message::OutputFolderPathed(String::new()));
    assert_eq!(state.output_folder_path, Some("/elsewhere".to_string()));
}

#[test]
fn the_preview_shows_files_and_destinations() {
    let mut state = with_input("/music");
    update_preview(
        &mut state,
        listing(&["/music/b2.mp3", "/music/b10.mp3", "/music/cover.jpg", "/music/b1.MP3"]),
        false,
    );
    assert_eq!(state.total_files, 3);
    assert_eq!(state.padding_zeros, 3);
    assert_eq!(state.original_preview, vec!["/music/b1.MP3", "/music/b2.mp3", "/music/b10.mp3"]);
    assert_eq!(
        state.renamed_preview,
        vec![
            "/music/output/001_b1.MP3",
            "/music/output/002_b2.mp3",
            "/music/output/003_b10.mp3"
        ]
    );
    assert_eq!(state.status_message, "Found 3 files (preview limited to 20).");
}

#[test]
fn the_preview_adjusts_the_padding_when_asked() {
    let mut state = with_input("/music");
    update_preview(&mut state, listing(&["/music/a.mp3", "/music/b.mp3"]), true);
    assert_eq!(state.padding_zeros, 2);
    assert_eq!(state.renamed_preview, vec!["/music/output/01_a.mp3", "/music/output/02_b.mp3"]);
    update(&mut state, Message::SetAutoPadding(false));
    update(&mut state, Message::PaddingChanged(5));
    update_preview(&mut state, listing(&["/music/a.mp3", "/music/b.mp3"]), true);
    assert_eq!(state.padding_zeros, 5);
    assert_eq!(
        state.renamed_preview,
        vec!["/music/output/00001_a.mp3", "/music/output/00002_b.mp3"]
    );
}

#[test]
fn the_preview_is_limited_to_twenty() {
    let mut state = with_input("/m");
    let names: Vec<String> = (1..=25).map(|i| format!("/m/t{}.mp3", i)).collect();
    update_preview(&mut state, Ok(names), true);
    assert_eq!(state.total_files, 25);
    assert_eq!(state.padding_zeros, 3);
    assert_eq!(state.original_preview.len(), 20);
    assert_eq!(state.renamed_preview.len(), 20);
    assert_eq!(state.original_preview[19], "/m/t20.mp3");
    assert_eq!(state.renamed_preview[19], "/m/output/020_t20.mp3");
    assert_eq!(state.status_message, "Found 25 files (preview limited to 20).");
}

#[test]
fn a_preview_without_matches_says_so() {
    let mut state = with_input("/music");
    update_preview(&mut state, listing(&["/music/a.mp3"]), true);
    update(&mut state, Message::ExtensionChanged(".wav".to_string()));
    update_preview(&mut state, listing(&["/music/a.mp3"]), true);
    assert_eq!(state.status_message, "No files with extension .wav found in input folder.");
    assert_eq!(state.total_files, 0);
    assert_eq!(state.padding_zeros, 3);
    assert!(state.original_preview.is_empty());
    assert!(state.renamed_preview.is_empty());
}

#[test]
fn a_preview_of_an_unreadable_folder_says_why() {
    let mut state = with_input("/music");
    update_preview(&mut state, listing(&["/music/a.mp3"]), true);
    update_preview(&mut state, Err("no such directory".to_string()), true);
    assert_eq!(state.status_message, "Error reading input folder: no such directory");
    assert_eq!(state.total_files, 0);
    assert!(state.original_preview.is_empty());
    assert!(state.renamed_preview.is_empty());
}

#[test]
fn a_preview_without_input_folder_changes_nothing() {
    let mut state = State::new("/home/user".to_string());
    update_preview(&mut state, listing(&["/music/a.mp3"]), true);
    assert_eq!(state.status_message, "");
    assert_eq!(state.total_files, 0);
    assert!(state.original_preview.is_empty());
}

#[test]
fn settings_ask_for_a_new_preview() {
    let mut state = State::new("/home/user".to_string());
    assert!(matches!(update(&mut state, Message::PaddingChanged(4)), Command::Idle));
    assert_eq!(state.padding_zeros, 4);
    let mut state = with_input("/music");
    let command = update(&mut state, Message::ExtensionChanged("..Flac".to_string()));
    assert_eq!(state.file_extension, "Flac");
    assert!(matches!(
        command,
        Command::ReadInputFolder { ref dir, adjust_padding: true } if dir == "/music"
    ));
    let command = update(&mut state, Message::IncludeOriginalNameChanged(false));
    assert!(!state.include_original_name);
    assert!(matches!(command, Command::ReadInputFolder { adjust_padding: true, .. }));
    let command = update(&mut state, Message::SetAutoPadding(false));
    assert!(!state.auto_padding);
    assert!(matches!(command, Command::ReadInputFolder { adjust_padding: true, .. }));
}

#[test]
fn renaming_needs_both_folders() {
    let mut state = State::new("/home/user".to_string());
    let command = update(&mut state, Message::StartRenaming);
    assert!(matches!(command, Command::Idle));
    assert_eq!(
        state.status_message,
        "Please select both input and output folders before starting."
    );
    assert!(!state.renaming_in_progress);
}

#[test]
fn renaming_starts_a_run_with_the_settings() {
    let mut state = with_input("/music");
    update(&mut state, Message::ExtensionChanged("wav".to_string()));
    update(&mut state, Message::PaddingChanged(2));
    update(&mut state, Message::IncludeOriginalNameChanged(false));
    let command = update(&mut state, Message::StartRenaming);
    assert!(state.renaming_in_progress);
    assert_eq!(state.renamed_count, 0);
    assert_eq!(state.total_files, 0);
    let Command::Rename(mut run) = command else { panic!("expected a run") };
    assert!(matches!(run.next_action(), Action::ReadDirectory(ref d) if d == "/music"));
    run.listed(Ok(vec!["/music/x.wav".to_string()]));
    assert!(matches!(run.next_action(), Action::CreateDirectory(ref d) if d == "/music/output"));
    run.directory_created(Ok(()));
    assert!(matches!(
        run.next_action(),
        Action::CopyFile(ref from, ref to) if from == "/music/x.wav" && to == "/music/output/01.wav"
    ));
}

#[test]
fn progress_and_outcome_are_shown() {
    let mut state = with_input("/music");
    update(&mut state, Message::StartRenaming);
    update(&mut state, Message::RenamingProgress(4, 12));
    assert_eq!(state.renamed_count, 4);
    assert_eq!(state.total_files, 12);
    assert_eq!(state.status_message, "Renaming... 4/12");
    assert!(state.renaming_in_progress);
    update(&mut state, Message::RenamingDone(Ok(vec!["a".to_string(), "b".to_string()])));
    assert!(!state.renaming_in_progress);
    assert_eq!(state.status_message, "Renaming complete! 2 files renamed.");
    update(&mut state, Message::RenamingDone(Err("disk full".to_string())));
    assert_eq!(state.status_message, "Error: disk full");
}

#[test]
fn messages_can_be_copied() {
    let done = Message::RenamingDone(Ok(vec!["x".to_string()]));
    assert!(matches!(done.clone(), Message::RenamingDone(Ok(ref v)) if v == &vec!["x".to_string()]));
    let failed = Message::RenamingDone(Err("e".to_string()));
    assert!(matches!(failed.clone(), Message::RenamingDone(Err(ref e)) if e == "e"));
    assert!(matches!(Message::RenamingProgress(1, 2).clone(), Message::RenamingProgress(1, 2)));
    assert!(matches!(Message::PaddingChanged(4).clone(), Message::PaddingChanged(4)));
    assert!(matches!(
        Message::ExtensionChanged("a".to_string()).clone(),
        Message::ExtensionChanged(ref e) if e == "a"
    ));
}
