use std::io::Read;

use rotire::actions::{Action, ActionInput, ActionType};
use rotire::archive::archive_file_name;
use rotire::model::RotireFile;
use rotire::Rotire;

fn entry(name: &str, size: u64, modified_at: u64) -> RotireFile {
    RotireFile {
        name: name.to_string(),
        size,
        modified_at,
        modified_unavailable: false,
    }
}

/// Unpacks a `.tar.gz` produced by an Archive run into (name, contents) pairs.
fn unpack(bytes: &[u8]) -> Vec<(String, Vec<u8>)> {
    let decoder = flate2::read::GzDecoder::new(bytes);
    let mut archive = tar::Archive::new(decoder);
    let mut members = Vec::new();
    for member in archive.entries().expect("tar stream should list members") {
        let mut member = member.expect("tar member should be readable");
        let name = member
            .path()
            .expect("member path should decode")
            .to_string_lossy()
            .into_owned();
        let mut contents = Vec::new();
        member
            .read_to_end(&mut contents)
            .expect("member contents should be readable");
        members.push((name, contents));
    }
    members
}

#[test]
fn test_rotire_archive_action() {
    // ten files with distinct increasing modification times, keep the four
    // newest, archive the six oldest
    let mut scanned = Vec::new();
    let mut contents = Vec::new();
    for i in 0..10u64 {
        let body = format!("body of file{}", i).into_bytes();
        scanned.push(entry(&format!("file{}", i), body.len() as u64, 2_000 + i));
        contents.push(body);
    }

    let mut engine = Rotire::new("logs".to_string());
    let action = Action::new(ActionType::Archive, false);
    let plan = engine.run(4, action, scanned).unwrap();

    let kept_names: Vec<&str> = plan.kept.iter().map(|f| f.name.as_str()).collect();
    assert_eq!(kept_names, vec!["file6", "file7", "file8", "file9"]);

    let rotate_contents: Vec<Option<Vec<u8>>> = plan
        .rotate
        .iter()
        .map(|f| {
            let index: usize = f.name.trim_start_matches("file").parse().unwrap();
            Some(contents[index].clone())
        })
        .collect();
    let outcome = engine
        .complete_run(&plan, ActionInput::Contents(rotate_contents))
        .unwrap();

    assert_eq!(outcome.result.affected_files, 6);
    assert_eq!(outcome.appended, vec![true; 6]);

    // every rotate-set entry is in the archive under its own name, with its
    // own bytes, in rotate order
    let members = unpack(&outcome.archive.expect("a real archive run yields bytes"));
    let member_names: Vec<&str> = members.iter().map(|(n, _)| n.as_str()).collect();
    assert_eq!(
        member_names,
        vec!["file0", "file1", "file2", "file3", "file4", "file5"]
    );
    for (name, body) in &members {
        assert_eq!(body, &format!("body of {}", name).into_bytes());
    }
}

#[test]
fn unopenable_entries_are_skipped_not_archived() {
    let scanned = vec![entry("a", 3, 1), entry("b", 4, 2), entry("c", 5, 3)];
    let mut engine = Rotire::new("logs".to_string());
    let plan = engine
        .run(0, Action::new(ActionType::Archive, false), scanned)
        .unwrap();

    // "b" could not be opened: it is skipped, not counted, not archived
    let contents = vec![Some(b"aaa".to_vec()), None, Some(b"ccccc".to_vec())];
    let outcome = engine
        .complete_run(&plan, ActionInput::Contents(contents))
        .unwrap();

    assert_eq!(outcome.appended, vec![true, false, true]);
    assert_eq!(outcome.result.affected_files, 2);
    assert_eq!(outcome.result.affected_files_size, 8);

    let members = unpack(&outcome.archive.unwrap());
    let member_names: Vec<&str> = members.iter().map(|(n, _)| n.as_str()).collect();
    assert_eq!(member_names, vec!["a", "c"]);
}

#[test]
fn archive_dry_run_counts_like_a_real_one() {
    let scanned = vec![entry("a", 3, 1), entry("b", 4, 2), entry("c", 5, 3)];
    let mut engine = Rotire::new("logs".to_string());
    let plan = engine
        .run(1, Action::new(ActionType::Archive, true), scanned)
        .unwrap();
    let outcome = engine.complete_run(&plan, ActionInput::DryRun).unwrap();

    // same totals as a real run in which every entry is archived
    assert_eq!(outcome.result.affected_files, 2);
    assert_eq!(outcome.result.affected_files_size, 7);
    // but no archive is produced
    assert!(outcome.archive.is_none());
}

#[test]
fn empty_rotate_set_yields_empty_archive() {
    let scanned = vec![entry("a", 3, 1)];
    let mut engine = Rotire::new("logs".to_string());
    let plan = engine
        .run(5, Action::new(ActionType::Archive, false), scanned)
        .unwrap();
    assert!(plan.rotate.is_empty());
    let outcome = engine
        .complete_run(&plan, ActionInput::Contents(Vec::new()))
        .unwrap();
    assert_eq!(outcome.result.affected_files, 0);
    assert_eq!(outcome.result.affected_files_size, 0);
    assert!(unpack(&outcome.archive.unwrap()).is_empty());
}

#[test]
fn archive_file_name_holds_the_millisecond_timestamp() {
    assert_eq!(archive_file_name(0), "rotire-archive-0.tar.gz");
    assert_eq!(archive_file_name(1234), "rotire-archive-1234.tar.gz");
    assert_eq!(
        archive_file_name(1_700_000_000_123),
        "rotire-archive-1700000000123.tar.gz"
    );
    assert_eq!(
        archive_file_name(u64::MAX),
        "rotire-archive-18446744073709551615.tar.gz"
    );
}
