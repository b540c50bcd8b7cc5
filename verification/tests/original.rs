use rs_agent::beads::BeadKind;
use rs_agent::fuzzy::rank_and_filter;
use rs_agent::helpers::parse_fork_args;
use rs_agent::kitty::{find_image_paths, image_path_candidates, is_image_path};
use rs_agent::wish::create_wish;

fn sample_models() -> Vec<String> {
    vec![
        "opencode-cli/opencode/clover-sonnet-4-6".to_string(),
        "opencode-cli/opencode/deepseek-v4-flash-free".to_string(),
        "acme/clover-haiku-4-5".to_string(),
    ]
}

#[test]
fn app_fuzzy_matches_subsequence() {
    let items = sample_models();
    let hit = rank_and_filter(&items, "sonnet", 10);
    assert!(hit.iter().any(|s| s.contains("sonnet")));
    let hit = rank_and_filter(&items, "ocs4", 10);
    assert!(
        hit.iter().any(|s| s.contains("clover-sonnet")),
        "expected subsequence match, got {:?}",
        hit
    );
    let hit = rank_and_filter(&items, "deep flash", 10);
    assert!(hit.iter().any(|s| s.contains("deepseek")));
}

#[test]
fn app_fuzzy_prefers_prefix() {
    let items = vec!["clover-sonnet-4".to_string(), "x-clover-extra".to_string()];
    let hit = rank_and_filter(&items, "clover", 10);
    assert_eq!(hit[0], "clover-sonnet-4");
}

#[test]
fn helpers_fuzzy_matches_subsequence() {
    let items = sample_models();
    let hit = rank_and_filter(&items, "sonnet", 10);
    assert!(hit.iter().any(|s| s.contains("sonnet")));
    let hit = rank_and_filter(&items, "ocs4", 10);
    assert!(
        hit.iter().any(|s| s.contains("clover-sonnet")),
        "expected subsequence match, got {:?}",
        hit
    );
    let hit = rank_and_filter(&items, "deep flash", 10);
    assert!(hit.iter().any(|s| s.contains("deepseek")));
}

#[test]
fn helpers_fuzzy_prefers_prefix() {
    let items = vec!["clover-sonnet-4".to_string(), "x-clover-extra".to_string()];
    let hit = rank_and_filter(&items, "clover", 10);
    assert_eq!(hit[0], "clover-sonnet-4");
}

#[test]
fn parse_fork_at_and_label() {
    assert_eq!(parse_fork_args(""), (None, None));
    assert_eq!(parse_fork_args("hotfix"), (None, Some("hotfix".to_string())));
    assert_eq!(parse_fork_args("@3"), (Some(3), None));
    assert_eq!(parse_fork_args("@3 try again"), (Some(3), Some("try again".to_string())));
}

#[test]
fn detects_extensions() {
    assert!(is_image_path("foo.PNG"));
    assert!(is_image_path("/tmp/x.webp"));
    assert!(!is_image_path("foo.rs"));
}

#[test]
fn finds_paths_in_text() {
    let tmp = tempfile::NamedTempFile::with_suffix(".png").unwrap();
    let path = tmp.path().to_string_lossy().to_string();
    let text = format!("saved to {path} ok");
    let candidates = image_path_candidates(&text);
    let exists: Vec<bool> = candidates.iter().map(|p| std::path::Path::new(p).is_file()).collect();
    let found = find_image_paths(&candidates, &exists);
    assert_eq!(found, vec![path]);
}

#[test]
fn wish_creates_design() {
    let b = create_wish("add dark mode", false, true).unwrap();
    assert_eq!(b.kind, BeadKind::Design);
    assert!(b.notes.contains("label:wish"));
}
