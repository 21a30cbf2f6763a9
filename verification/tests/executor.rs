use renamer::executor::{perform_renaming_with_progress, plan_destinations, Action, Renaming};
use renamer::message::Message;

fn found(names: &[&str]) -> Result<Vec<String>, String> {
    Ok(names.iter().map(|n| n.to_string()).collect())
}

fn start(input: &str, output: &str, width: usize, keep_name: bool) -> Renaming {
    perform_renaming_with_progress(
        Some(input.to_string()),
        Some(output.to_string()),
        "mp3".into(),
        width,
        keep_name,
    )
}

fn copy_pair(action: Action) -> (String, String) {
    match action {
        Action::CopyFile(from, to) => (from, to),
        _ => panic!("expected a copy"),
    }
}

#[test]
fn test_perform_renaming_with_progress_success() {
    let mut run = start("/in", "/out", 3, true);
    let mut progress_updates = Vec::new();
    let mut final_result = None;
    let mut messages: Vec<Message> = Vec::new();

    assert!(matches!(run.next_action(), Action::ReadDirectory(ref d) if d == "/in"));
    messages.extend(run.listed(found(&["/in/track1.mp3", "/in/track2.mp3", "/in/track3.mp3"])));
    assert!(matches!(run.next_action(), Action::CreateDirectory(ref d) if d == "/out"));
    messages.extend(run.directory_created(Ok(())));
    while let Action::CopyFile(_, _) = run.next_action() {
        messages.extend(run.copied(Ok(())));
    }
    for msg in messages {
        match msg {
            Message::RenamingProgress(done, total) => {
                progress_updates.push((done, total));
            }
            Message::RenamingDone(result) => {
                final_result = Some(result);
            }
            _ => {}
        }
    }

    assert_eq!(progress_updates.len(), 3);
    assert!(matches!(final_result, Some(Ok(_))));
    let Ok(renamed_files) = final_result.unwrap() else { panic!("Expected Ok result") };
    assert_eq!(renamed_files.len(), 3);
    assert_eq!(
        renamed_files,
        vec!["/out/001_track1.mp3", "/out/002_track2.mp3", "/out/003_track3.mp3"]
    );
    assert_eq!(progress_updates, vec![(1, 3), (2, 3), (3, 3)]);
    assert!(run.is_finished());
}

#[test]
fn test_perform_renaming_with_progress_empty_input() {
    let mut run = start("/in", "/out", 3, true);
    let mut final_result = None;
    let mut progress = 0;

    for msg in run.listed(found(&[])) {
        match msg {
            Message::RenamingDone(result) => final_result = Some(result),
            Message::RenamingProgress(_, _) => progress += 1,
            _ => {}
        }
    }

    let Err(err) = final_result.unwrap() else { panic!("Expected error for empty input") };
    assert_eq!(err, "No files found to rename.");
    assert_eq!(progress, 0);
    assert!(run.is_finished());
    assert!(matches!(run.next_action(), Action::Stop));
}

#[test]
fn no_matching_file_is_a_failure() {
    let mut run = start("/in", "/out", 3, true);
    let out = run.listed(found(&["/in/a.txt", "/in/b.wav"]));
    assert_eq!(out.len(), 1);
    assert!(matches!(&out[0], Message::RenamingDone(Err(e)) if e == "No files found to rename."));
    assert!(matches!(run.next_action(), Action::Stop));
}

#[test]
fn unreadable_input_is_a_failure_with_its_reason() {
    let mut run = start("/missing", "/out", 3, true);
    let out = run.listed(Err("cannot read /missing".to_string()));
    assert_eq!(out.len(), 1);
    assert!(matches!(&out[0], Message::RenamingDone(Err(e)) if e == "cannot read /missing"));
    assert!(run.is_finished());
}

#[test]
fn output_directory_failure_ends_the_run() {
    let mut run = start("/in", "/out", 3, true);
    assert!(run.listed(found(&["/in/a.mp3"])).is_empty());
    let out = run.directory_created(Err("permission denied".to_string()));
    assert_eq!(out.len(), 1);
    assert!(matches!(&out[0], Message::RenamingDone(Err(e)) if e == "permission denied"));
    assert!(matches!(run.next_action(), Action::Stop));
    assert!(run.copied(Ok(())).is_empty());
}

#[test]
fn second_copy_failing_stops_the_run() {
    let mut run = start("/in", "/out", 2, false);
    assert!(run.listed(found(&["/in/c.mp3", "/in/a.mp3", "/in/b.mp3"])).is_empty());
    assert!(run.directory_created(Ok(())).is_empty());

    assert_eq!(copy_pair(run.next_action()), ("/in/a.mp3".to_string(), "/out/01.mp3".to_string()));
    let first = run.copied(Ok(()));
    assert_eq!(first.len(), 1);
    assert!(matches!(first[0], Message::RenamingProgress(1, 3)));

    assert_eq!(copy_pair(run.next_action()), ("/in/b.mp3".to_string(), "/out/02.mp3".to_string()));
    let second = run.copied(Err("disk full".to_string()));
    assert_eq!(second.len(), 1);
    assert!(matches!(&second[0], Message::RenamingDone(Err(e)) if e == "disk full"));

    assert!(matches!(run.next_action(), Action::Stop));
    assert!(run.copied(Ok(())).is_empty());
    assert!(run.is_finished());
}

#[test]
fn copies_are_asked_for_in_natural_order() {
    let mut run = start("in", "out", 1, true);
    run.listed(found(&["in/img10.mp3", "in/img2.mp3", "in/img1.mp3", "in/skip.txt"]));
    run.directory_created(Ok(()));
    let mut asked = Vec::new();
    while let Action::CopyFile(from, to) = run.next_action() {
        asked.push((from, to));
        run.copied(Ok(()));
    }
    assert_eq!(
        asked,
        vec![
            ("in/img1.mp3".to_string(), "out/1_img1.mp3".to_string()),
            ("in/img2.mp3".to_string(), "out/2_img2.mp3".to_string()),
            ("in/img10.mp3".to_string(), "out/3_img10.mp3".to_string()),
        ]
    );
}

#[test]
fn reports_out_of_turn_change_nothing() {
    let mut run = start("/in", "/out", 3, true);
    assert!(run.copied(Ok(())).is_empty());
    assert!(run.directory_created(Ok(())).is_empty());
    assert!(matches!(run.next_action(), Action::ReadDirectory(_)));
    run.listed(found(&["/in/a.mp3"]));
    assert!(run.listed(found(&["/in/b.mp3"])).is_empty());
    assert!(run.copied(Ok(())).is_empty());
    assert!(matches!(run.next_action(), Action::CreateDirectory(_)));
}

#[test]
fn missing_paths_count_as_empty() {
    let run = perform_renaming_with_progress(None, None, ".mp3".into(), 3, true);
    assert!(matches!(run.next_action(), Action::ReadDirectory(ref d) if d.is_empty()));
    let mut run = perform_renaming_with_progress(None, None, ".mp3".into(), 3, false);
    run.listed(found(&["x.mp3"]));
    assert!(matches!(run.next_action(), Action::CreateDirectory(ref d) if d.is_empty()));
    run.directory_created(Ok(()));
    assert_eq!(copy_pair(run.next_action()), ("x.mp3".to_string(), "001.mp3".to_string()));
}

#[test]
fn destinations_are_planned_under_the_output_directory() {
    let files = vec!["a/one.mp3".to_string(), "a/two.mp3".to_string()];
    assert_eq!(plan_destinations(&files, "out", 3, true), vec!["out/001_one.mp3", "out/002_two.mp3"]);
    assert_eq!(plan_destinations(&files, "out/", 2, false), vec!["out/01.mp3", "out/02.mp3"]);
}
