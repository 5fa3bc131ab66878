use lkjagent_app::effect_files::{effect_path, revision_step, RevisionStep};
use lkjagent_app::artifact_effects::{
    list_bytes, managed_name, normalize_path, part_dir, part_path, validate_bundle_commands,
    word_chunks, ArtifactCommand,
};

fn strings(items: &[&str]) -> Vec<String> {
    items.iter().map(|item| item.to_string()).collect()
}

fn write(path: &str) -> ArtifactCommand {
    ArtifactCommand::WriteFile { path: path.into() }
}

#[test]
fn paths_are_normalized_inside_the_workspace() {
    assert_eq!(normalize_path("notes//./a.md/"), Ok("notes/a.md".into()));
    assert_eq!(normalize_path("./a.md"), Ok("a.md".into()));
    assert_eq!(normalize_path("/etc/passwd"), Err("artifact path escapes workspace".into()));
    assert_eq!(normalize_path("a/../b"), Err("artifact path escapes workspace".into()));
    assert_eq!(normalize_path("./."), Err("artifact path must not be empty".into()));
    assert_eq!(normalize_path(""), Err("artifact path must not be empty".into()));
}

#[test]
fn normalizing_twice_changes_nothing() {
    for path in ["notes//./a.md/", "x/./y//z", "a", "./b/"] {
        let once = normalize_path(path).expect("normal path");
        assert_eq!(normalize_path(&once), Ok(once.clone()));
    }
}

#[test]
fn part_directories_and_part_paths() {
    assert_eq!(part_dir("reports/trip.md"), "reports/trip.parts");
    assert_eq!(part_dir("reports/trip.txt"), "reports/trip.txt.parts");
    assert_eq!(part_path("reports/trip.md", 7), "reports/trip.parts/part-007.md");
    assert_eq!(part_path("trip.md", 1234), "trip.parts/part-1234.md");
    assert!(managed_name("part-001.md"));
    assert!(managed_name("part-1.md"));
    assert!(!managed_name("part-.md"));
    assert!(!managed_name("part-1a.md"));
    assert!(!managed_name("part-1.txt"));
}

#[test]
fn managed_part_lists_are_lines_of_bytes() {
    assert_eq!(list_bytes(&strings(&["a/part-1.md", "a/part-2.md"])), b"a/part-1.md\na/part-2.md".to_vec());
    assert_eq!(list_bytes(&strings(&[])), Vec::<u8>::new());
}

#[test]
fn short_bodies_are_one_chunk() {
    assert_eq!(word_chunks("  a few words  "), strings(&["  a few words  "]));
    assert_eq!(word_chunks(""), strings(&[""]));
}

#[test]
fn long_bodies_are_cut_at_word_starts_and_put_back_together() {
    let body: String = (0..1000).map(|i| format!("w{i} ")).collect();
    let chunks = word_chunks(&body);
    assert_eq!(chunks.len(), 3);
    assert!(chunks[0].starts_with("w0 "));
    assert!(chunks[1].starts_with("w384 "));
    assert!(chunks[2].starts_with("w768 "));
    assert_eq!(chunks.concat(), body);
    let exact: String = (0..768).map(|i| format!("w{i}\n")).collect();
    let two = word_chunks(&exact);
    assert_eq!(two.len(), 2);
    assert_eq!(two.concat(), exact);
}

#[test]
fn bundles_must_not_overlap() {
    assert_eq!(validate_bundle_commands(&vec![write("a.md"), ArtifactCommand::Other, write("b.md")]), Ok(()));
    assert_eq!(
        validate_bundle_commands(&vec![write("a.md"), ArtifactCommand::AppendFile { path: "./a.md".into() }]),
        Err("turn contains overlapping generated artifact targets".into())
    );
    assert_eq!(
        validate_bundle_commands(&vec![write("a.md"), write("a.parts/part-1.md")]),
        Err("turn contains overlapping generated artifact targets".into())
    );
    assert_eq!(
        validate_bundle_commands(&vec![write("a.md"), write("../x.md")]),
        Err("artifact path escapes workspace".into())
    );
    assert_eq!(validate_bundle_commands(&vec![]), Ok(()));
}

#[test]
fn effect_paths_name_directories_and_a_file() {
    assert_eq!(effect_path("notes/a.md"), Ok((strings(&["notes"]), "a.md".to_string())));
    assert_eq!(effect_path("a//b/./c.md/"), Ok((strings(&["a", "b"]), "c.md".to_string())));
    assert_eq!(effect_path("a.md"), Ok((strings(&[]), "a.md".to_string())));
    assert_eq!(effect_path("./a.md"), Err("effect path is not normalized".into()));
    assert_eq!(effect_path("/a.md"), Err("effect path is not normalized".into()));
    assert_eq!(effect_path("a/../b.md"), Err("effect path is not normalized".into()));
    assert_eq!(effect_path(""), Err("effect path has no file name".into()));
    assert_eq!(effect_path("a/."), Ok((strings(&[]), "a".to_string())));
}

#[test]
fn revisions_choose_one_of_four_steps() {
    assert_eq!(revision_step(false, false), RevisionStep::EnsureAbsent);
    assert_eq!(revision_step(false, true), RevisionStep::Create);
    assert_eq!(revision_step(true, true), RevisionStep::Replace);
    assert_eq!(revision_step(true, false), RevisionStep::Remove);
}

#[test]
fn a_part_listing_splits_back_into_its_paths() {
    let paths = strings(&["a/1", "b/2"]);
    let bytes = list_bytes(&paths);
    assert_eq!(bytes, b"a/1\nb/2".to_vec());
    let text = String::from_utf8(bytes).unwrap();
    assert_eq!(text.split('\n').map(str::to_string).collect::<Vec<_>>(), paths);
}
