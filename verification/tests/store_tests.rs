use metassr::cache_dir::CacheDir;
use metassr::cache_dir::WriteAction;
use metassr::targets::Targets;
use metassr::targets::TargetsGenerator;
use metassr::bundler::WebBundler;
use metassr::bundler::targets_json;
use metassr::error::BuildError;

#[test]
fn insert_is_idempotent() {
    let mut cache = CacheDir::new("dist/cache");
    let (p1, a1) = cache.insert("pages/home/index.server.js", b"alpha");
    assert_eq!(p1, "dist/cache/pages/home/index.server.js");
    assert_eq!(a1, WriteAction::Created);
    let (p2, a2) = cache.insert("pages/home/index.server.js", b"alpha");
    assert_eq!(p2, p1);
    assert_eq!(a2, WriteAction::Unchanged);
    assert_eq!(cache.entries_in_scope().len(), 1);
}

#[test]
fn insert_overwrites_changed_bytes() {
    let mut cache = CacheDir::new(".cache");
    cache.insert("replace_file.txt", b"Original content");
    let (_, action) = cache.insert("replace_file.txt", b"New content");
    assert_eq!(action, WriteAction::Rewritten);
}

#[test]
fn entries_accumulate_per_session() {
    let mut cache = CacheDir::new(".cache");
    cache.insert("test_file1.txt", b"Data 1");
    cache.insert("test_file2.txt", b"Data 2");
    let entries = cache.entries_in_scope();
    assert_eq!(entries.len(), 2, "There should be two entries in scope");
    assert_eq!(entries[0].0, "test_file1.txt");
    assert_eq!(entries[0].1, ".cache/test_file1.txt");
}

#[test]
fn targets_map_keeps_last_id_per_path() {
    let mut t = Targets::new();
    t.insert(1, "dist/cache/pages/a/index.server.js");
    t.insert(2, "dist/cache/pages/b/index.server.js");
    t.insert(3, "dist/cache/pages/a/index.server.js");
    let all = t.iter();
    assert_eq!(all.len(), 2);
    assert_eq!(all[0], ("dist/cache/pages/a/index.server.js".to_string(), 3));
    assert_eq!(all[1], ("dist/cache/pages/b/index.server.js".to_string(), 2));
}

#[test]
fn bundling_entries_drop_prefix_and_extension() {
    let mut t = Targets::new();
    t.insert(9, "dist/cache/pages/blog/post/index.server.js");
    let entries = t.ready_for_bundling("dist");
    assert_eq!(entries.len(), 1);
    assert_eq!(entries[0].0, "cache/pages/blog/post/index.server");
    assert_eq!(entries[0].1, "dist/cache/pages/blog/post/index.server.js");
}

#[test]
fn generated_targets_cover_every_page() {
    let mut cache = CacheDir::new("dist/cache");
    let pages = vec![
        ("index.tsx".to_string(), "/abs/src/pages/index.tsx".to_string()),
        ("blog/post.tsx".to_string(), "/abs/src/pages/blog/post.tsx".to_string()),
    ];
    let targets = TargetsGenerator::generate_with("/abs/src/_app.tsx", &pages, &mut cache);
    let all = targets.iter();
    assert_eq!(all.len(), 2);
    let paths: Vec<String> = all.iter().map(|p| p.0.clone()).collect();
    assert!(paths.contains(&"dist/cache/pages/index.server.js".to_string()));
    assert!(paths.contains(&"dist/cache/pages/blog/post/index.server.js".to_string()));
    // IDs come from the session sequence: deterministic and distinct.
    let ids: Vec<i64> = all.iter().map(|p| p.1).collect();
    assert_eq!(ids, vec![0, 1]);
    assert_eq!(cache.entries_in_scope().len(), 2);
}

#[test]
fn generator_rejects_unresolvable_paths() {
    let mut cache = CacheDir::new("dist/cache");
    let g = TargetsGenerator::new(
        "surely/not/an/app.tsx".to_string(),
        vec![("index.tsx".to_string(), "surely/not/a/page.tsx".to_string())],
    );
    let r = g.generate(&mut cache);
    assert!(matches!(r, Err(BuildError::PathCanonicalizationFailed(_))));
}

#[test]
fn bundler_arguments_are_serialized() {
    let b = WebBundler::new(
        vec![("pages/home".to_string(), "/abs/pages/home.tsx".to_string())],
        "dist",
    );
    let (json, dist) = b.bundling_args();
    assert_eq!(json, "{\"pages/home\": \"/abs/pages/home.tsx\"}");
    assert_eq!(dist, "dist");
    let empty = targets_json(&Vec::new());
    assert_eq!(empty, "{}");
}
