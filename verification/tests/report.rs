use lkjagent_app::report_pending::{
    aggregate_paths, all_paths, child_body, evaluator, long_kind, pending_payload, pending_units,
    revision_seed, state_write, topology, Evaluator, StateWrite,
};
use lkjagent_app::report_current::{
    map_path, member_path, path_matches, stale_plan, ObservedFile, StoredRevision,
};
use lkjagent_app::digest::sha256;
use lkjagent_app::report_shape::{
    canonical, child, parse, parse_children, parse_words, part, short, unit_part, Shape,
};

fn pairs(items: &[(&str, &str)]) -> Vec<(String, String)> {
    items.iter().map(|(a, b)| (a.to_string(), b.to_string())).collect()
}

fn strings(items: &[&str]) -> Vec<String> {
    items.iter().map(|item| item.to_string()).collect()
}

#[test]
fn canonical_names_need_a_letter_and_no_part_number() {
    assert_eq!(canonical("  world-history "), Some("world-history".into()));
    assert_eq!(canonical("2026"), None);
    assert_eq!(canonical("part-12"), None);
    assert_eq!(canonical("part-x1"), Some("part-x1".into()));
    assert_eq!(canonical("a--b"), None);
    assert_eq!(canonical("-a"), None);
    assert_eq!(canonical("Aa"), None);
    assert_eq!(canonical(&"a".repeat(81)), None);
    assert_eq!(canonical(&"a".repeat(80)), Some("a".repeat(80)));
    assert_eq!(part("index"), None);
    assert_eq!(unit_part("origins"), Some("origins".into()));
    assert_eq!(unit_part(" index "), None);
}

#[test]
fn children_are_distinct_canonical_units_at_least_two() {
    assert_eq!(parse_children("origins, empires ,modern"), Ok(strings(&["origins", "empires", "modern"])));
    assert_eq!(parse_children("origins"), Err("report map requires at least two children".into()));
    assert_eq!(parse_children("origins,origins"), Err("report children must be unique".into()));
    assert_eq!(parse_children("origins,,modern"), Err("report children are not canonical".into()));
    assert_eq!(parse_children("origins,index"), Err("report children are not canonical".into()));
}

#[test]
fn minimum_words_lie_between_one_and_twenty_thousand() {
    assert_eq!(parse_words("1"), Ok(1));
    assert_eq!(parse_words("20000"), Ok(20_000));
    assert_eq!(parse_words("20001"), Err("minimum_words is out of bounds".into()));
    assert_eq!(parse_words("0"), Err("minimum_words is out of bounds".into()));
    assert_eq!(parse_words("+5"), Ok(5));
    assert_eq!(parse_words("five"), Err("minimum_words is invalid".into()));
    assert_eq!(parse_words("4294967296"), Err("minimum_words is invalid".into()));
}

#[test]
fn report_shapes_follow_their_arguments() {
    assert!(matches!(
        parse(&pairs(&[("title", "World History")])),
        Ok(Shape::Short { ref slug }) if slug == "world-history"
    ));
    assert!(matches!(parse(&pairs(&[])), Err(ref e) if e == "record title missing"));
    assert!(matches!(
        parse(&pairs(&[("title", "???")])),
        Err(ref e) if e == "report title cannot produce a semantic slug"
    ));
    match parse(&pairs(&[
        ("slug", "world-history"),
        ("unit", " index"),
        ("children", "origins,modern"),
        ("minimum_words", "400"),
    ])) {
        Ok(Shape::Index { slug, children, minimum_words }) => {
            assert_eq!(slug, "world-history");
            assert_eq!(children, strings(&["origins", "modern"]));
            assert_eq!(minimum_words, 400);
        }
        _ => panic!("index shape expected"),
    }
    assert!(matches!(
        parse(&pairs(&[("slug", "world-history"), ("unit", "origins")])),
        Ok(Shape::Child { ref slug, ref unit }) if slug == "world-history" && unit == "origins"
    ));
    assert!(matches!(
        parse(&pairs(&[("slug", "World"), ("unit", "origins")])),
        Err(ref e) if e == "report slug is not canonical"
    ));
    assert!(matches!(
        parse(&pairs(&[("slug", "world"), ("unit", "part-1")])),
        Err(ref e) if e == "report unit is not canonical"
    ));
    assert!(matches!(
        parse(&pairs(&[("slug", "world"), ("unit", "index")])),
        Err(ref e) if e == "report shape is not admitted"
    ));
    assert!(matches!(
        parse(&pairs(&[("slug", "world"), ("unit", "origins"), ("children", "a,b")])),
        Err(ref e) if e == "report shape is not admitted"
    ));
}

#[test]
fn report_documents_render_their_front_matter() {
    let sources = pairs(&[("owner", "abc"), ("file", "def")]);
    assert_eq!(lkjagent_app::report_shape::line(&("owner".to_string(), "abc".to_string())), "- owner:abc");
    assert_eq!(
        short("trip", &sources, "Trip", " Body \n"),
        "---\nkind: report\nsemantic-key: trip\nslug: trip\nsource-lineage:\n- owner:abc\n- file:def\n---\n# Trip\n\nBody\n"
    );
    assert_eq!(
        child("trip", "day-one", &sources, "Day One", "Walked."),
        "---\nkind: report\nsemantic-key: trip\nslug: trip\nunit: day-one\nsource-lineage:\n- owner:abc\n- file:def\n---\n# Day One\n\nWalked.\n"
    );
    assert_eq!(
        lkjagent_app::report_shape::map("trip", &sources, "Trip", "Overview", &strings(&["day-one", "day-two"]), 300),
        "---\nkind: report\nsemantic-key: trip\nslug: trip\nunit: index\nminimum-words: 300\nchildren:\n- day-one\n- day-two\nsource-lineage:\n- owner:abc\n- file:def\n---\n# Trip\n\nOverview\n\n## Sections\n- [day-one](day-one.md)\n- [day-two](day-two.md)\n"
    );
}

#[test]
fn long_report_kinds_and_child_bodies() {
    assert!(long_kind("managed-report-map"));
    assert!(long_kind("managed-report-member"));
    assert!(long_kind("managed-report-complete"));
    assert!(!long_kind("managed-report"));
}

#[test]
fn child_body_is_the_text_after_the_front_matter() {
    let text = child("trip", "day-one", &pairs(&[("owner", "abc")]), "Day One", "Walked.");
    assert_eq!(child_body(&text), Some("Walked.".into()));
    let long = child("trip", "day-one", &pairs(&[("owner", "a"), ("owner", "b")]), "Day", "One\n\n Two \n");
    assert_eq!(child_body(&long), Some("One\n\n Two".into()));
    assert_eq!(child_body("---\nkind: report\n---\nbody"), None);
}

#[test]
fn report_topology_names_slug_and_children() {
    assert_eq!(
        topology(r#"{"slug":"trip","children":["day-one",3,"day-two"],"minimum_words":200}"#),
        Ok(("trip".to_string(), strings(&["day-one", "day-two"])))
    );
    assert_eq!(topology(r#"{"children":[]}"#), Err("report topology payload is malformed".into()));
    assert_eq!(topology(r#"{"slug":"trip","children":"a"}"#), Err("report topology payload is malformed".into()));
    assert_eq!(topology("[]"), Err("report topology payload is malformed".into()));
    assert!(topology("{").is_err());
}

#[test]
fn pending_units_list_what_still_needs_work() {
    let children = strings(&["day-one", "day-two", "day-three"]);
    assert_eq!(
        pending_units(false, false, &children, &strings(&[]), &vec![true, true, true], false),
        Some(strings(&["index"]))
    );
    assert_eq!(
        pending_units(false, true, &children, &strings(&["day-three"]), &vec![true, false, true], true),
        Some(strings(&["day-two", "day-three"]))
    );
    assert_eq!(
        pending_units(true, true, &children, &strings(&[]), &vec![true, true, true], true),
        Some(strings(&["index"]))
    );
    assert_eq!(pending_units(false, true, &children, &strings(&[]), &vec![true, true, true], true), None);
    assert_eq!(
        pending_units(false, true, &children, &strings(&[]), &vec![true, true, true], false),
        Some(strings(&[]))
    );
}

#[test]
fn report_kinds_pick_their_evaluator() {
    assert!(evaluator("managed-report-map") == Some(Evaluator::Index));
    assert!(evaluator("managed-report-member") == Some(Evaluator::Member));
    assert!(evaluator("managed-report-complete") == Some(Evaluator::Complete));
    assert!(evaluator("file-exists").is_none());
    assert!(state_write(true, true) == StateWrite::Pending);
    assert!(state_write(false, true) == StateWrite::CurrentPassed);
    assert!(state_write(false, false) == StateWrite::Nothing);
}

#[test]
fn completeness_parameters_name_their_paths() {
    let good = br#"{"slug":"world","paths":["a.md","b.md"]}"#;
    assert_eq!(all_paths(good), Some(strings(&["a.md", "b.md"])));
    assert_eq!(all_paths(br#"{"paths":["a.md",1]}"#), None);
    assert_eq!(all_paths(b"not json"), None);
    assert_eq!(all_paths(br#"{"paths":"a.md"}"#), None);
    assert_eq!(aggregate_paths(br#"{"paths":["a.md",1,"c.md"]}"#), Ok(strings(&["a.md", "c.md"])));
    assert_eq!(
        aggregate_paths(br#"{"slug":"x"}"#),
        Err("report topology payload is malformed".to_string())
    );
    assert!(aggregate_paths(b"{").is_err());
    assert_eq!(
        revision_seed(&strings(&["a.md", "b.md"]), &vec![Some("r1".to_string()), None]),
        "a.md@r1\nb.md@missing\n"
    );
    assert_eq!(
        pending_payload("world", &strings(&["index", "origins"])),
        r#"{"remaining_units":["index","origins"],"slug":"world"}"#
    );
    assert_eq!(pending_payload("w", &vec![]), r#"{"remaining_units":[],"slug":"w"}"#);
}

#[test]
fn a_document_is_current_only_as_the_journal_wrote_it() {
    let bytes = b"# Map\n".to_vec();
    let stored = || Some(StoredRevision { content: bytes.clone(), mode: 0o644, sha256: sha256(&bytes) });
    let seen = |b: &[u8], mode: u32| Some(ObservedFile { bytes: b.to_vec(), mode });
    assert!(path_matches(&stored(), &seen(&bytes, 0o644)));
    assert!(!path_matches(&stored(), &seen(b"# Map!\n", 0o644)));
    assert!(!path_matches(&stored(), &seen(&bytes, 0o600)));
    assert!(!path_matches(&stored(), &None));
    assert!(!path_matches(&None, &seen(&bytes, 0o644)));
    let wrong_digest = Some(StoredRevision { content: bytes.clone(), mode: 0o644, sha256: sha256(b"other") });
    assert!(!path_matches(&wrong_digest, &seen(&bytes, 0o644)));
}

#[test]
fn stale_documents_reopen_their_obligations() {
    assert_eq!(map_path("world-history"), "artifacts/documents/world-history/README.md");
    assert_eq!(member_path("world-history", "origins"), "artifacts/documents/world-history/origins.md");
    let children: Vec<String> = ["zeta", "origins", "alpha"].iter().map(|s| s.to_string()).collect();
    let plan = stale_plan("m1", "world-history", &children, false, &vec![false, true, false]);
    assert!(plan.map_stale);
    assert_eq!(
        plan.reopen,
        vec![
            "m1/report-map/world-history".to_string(),
            "m1/report-member/world-history/zeta".to_string(),
            "m1/report-member/world-history/alpha".to_string(),
        ]
    );
    assert_eq!(plan.stale, vec!["alpha".to_string(), "zeta".to_string()]);
    let current = stale_plan("m1", "w", &children, true, &vec![true, true, true]);
    assert!(!current.map_stale);
    assert!(current.reopen.is_empty());
    assert!(current.stale.is_empty());
}
