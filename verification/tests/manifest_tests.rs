use metassr::cache_dir::CacheDir;
use metassr::dist_analyzer::DistDirContainer;
use metassr::dist_analyzer::PageEntry;
use metassr::error::BuildError;
use metassr::manifest::GlobalEntry;
use metassr::manifest::Manifest;
use metassr::manifest::ManifestGenerator;
use metassr::pages_generator::PagesGenerator;
use metassr::page_renderer::PageRenderer;
use metassr::targets::Targets;

fn entry(path: &str, scripts: Vec<String>, styles: Vec<String>) -> PageEntry {
    PageEntry { scripts, styles, path: path.to_string() }
}

fn sample_dist() -> DistDirContainer {
    DistDirContainer {
        pages: vec![
            (
                "#root".to_string(),
                entry(
                    "dist/pages",
                    vec!["dist/pages/index.js".to_string()],
                    vec!["dist/pages/index.css".to_string()],
                ),
            ),
            (
                "blog/post".to_string(),
                entry(
                    "dist/pages/blog/post",
                    vec!["dist/pages/blog/post/index.js".to_string()],
                    vec![],
                ),
            ),
        ],
    }
}

#[test]
fn manifest_json_round_trips() {
    let mut m = Manifest::new(GlobalEntry::new(
        "/abs/head.js".to_string(),
        "dist/cache".to_string(),
    ));
    m.insert(
        "#root",
        41,
        &entry("dist/pages", vec!["dist/pages/index.js".to_string()], vec![]),
        "dist/cache/pages/index.server.js".to_string(),
    );
    m.insert(
        "blog/$article",
        large_negative_id(),
        &entry(
            "dist/pages/blog/$article",
            vec!["dist/pages/blog/$article/index.js".to_string()],
            vec!["dist/pages/blog/$article/index.css".to_string()],
        ),
        "dist/cache/pages/blog/$article/index.server.js".to_string(),
    );
    let json = m.to_json();
    let back = Manifest::from_json(json.as_str()).unwrap();
    assert_eq!(back.global.head, "/abs/head.js");
    assert_eq!(back.global.cache, "dist/cache");
    let root = back.get("#root").unwrap();
    assert_eq!(root.id, 41);
    assert_eq!(root.page_entry.scripts, vec!["dist/pages/index.js".to_string()]);
    assert_eq!(root.renderer, "dist/cache/pages/index.server.js");
    let blog = back.get("blog/$article").unwrap();
    assert_eq!(blog.id, large_negative_id());
    assert_eq!(blog.page_entry.path, "dist/pages/blog/$article");
    assert_eq!(back.to_json(), json);
}

fn large_negative_id() -> i64 {
    -9007199254740993
}

#[test]
fn manifest_round_trips_awkward_strings() {
    let mut m = Manifest::new(GlobalEntry::new(
        "he\"ad\\mixed".to_string(),
        "ca\nche".to_string(),
    ));
    m.insert(
        "ro\"ute\\x",
        0,
        &entry("p\"ath", vec!["s\\1".to_string()], vec![]),
        "re\"nder\\er".to_string(),
    );
    let json = m.to_json();
    let back = Manifest::from_json(json.as_str()).unwrap();
    assert_eq!(back.global.head, "he\"ad\\mixed");
    assert_eq!(back.global.cache, "ca\nche");
    let e = back.get("ro\"ute\\x").unwrap();
    assert_eq!(e.page_entry.path, "p\"ath");
    assert_eq!(e.page_entry.scripts, vec!["s\\1".to_string()]);
    assert_eq!(e.renderer, "re\"nder\\er");
}

#[test]
fn malformed_manifest_is_rejected() {
    assert!(matches!(
        Manifest::from_json("not a manifest"),
        Err(BuildError::ManifestMalformed)
    ));
    assert!(matches!(Manifest::from_json(""), Err(BuildError::ManifestMalformed)));
    let mut m = Manifest::new(GlobalEntry::new("h".to_string(), "c".to_string()));
    m.insert("r", 1, &entry("p", vec![], vec![]), "x".to_string());
    let json = m.to_json();
    let truncated = &json[..json.len() - 2];
    assert!(matches!(
        Manifest::from_json(truncated),
        Err(BuildError::ManifestMalformed)
    ));
}

#[test]
fn reconciliation_fails_without_matching_dist_entry() {
    let mut cache = CacheDir::new("dist/cache");
    cache.insert("pages/missing/index.server.js", b"s");
    let mut targets = Targets::new();
    targets.insert(5, "dist/cache/pages/missing/index.server.js");
    let g = ManifestGenerator::new(targets, &cache, sample_dist());
    let renderers = vec!["/abs/cache/pages/missing/index.server.js".to_string()];
    let r = g.generate_resolved("/abs/head.js".to_string(), &renderers);
    match r {
        Err(BuildError::RouteReconciliationFailed(route)) => assert_eq!(route, "missing"),
        _ => panic!("expected a reconciliation failure"),
    }
}

#[test]
fn reconciliation_succeeds_when_every_route_matches() {
    let mut cache = CacheDir::new("dist/cache");
    cache.insert("pages/index.server.js", b"a");
    cache.insert("pages/blog/post/index.server.js", b"b");
    let mut targets = Targets::new();
    targets.insert(11, "dist/cache/pages/index.server.js");
    targets.insert(12, "dist/cache/pages/blog/post/index.server.js");
    let g = ManifestGenerator::new(targets, &cache, sample_dist());
    let renderers = vec![
        "/abs/cache/pages/index.server.js".to_string(),
        "/abs/cache/pages/blog/post/index.server.js".to_string(),
    ];
    let m = g.generate_resolved("/abs/head.js".to_string(), &renderers).unwrap();
    assert_eq!(m.global.cache, "dist/cache");
    assert_eq!(m.global.head, "/abs/head.js");
    let root = m.get("#root").unwrap();
    assert_eq!(root.id, 11);
    assert_eq!(root.renderer, "/abs/cache/pages/index.server.js");
    let blog = m.get("blog/post").unwrap();
    assert_eq!(blog.id, 12);
    assert_eq!(blog.renderer, "/abs/cache/pages/blog/post/index.server.js");
    assert!(m.get("missing").is_none());
}

#[test]
fn generation_resolves_renderers_against_the_disk() {
    // The full entry point resolves each staged path; a path that
    // does not exist cannot be resolved.
    let cache = CacheDir::new("dist/cache");
    let mut targets = Targets::new();
    targets.insert(5, "dist/cache/pages/missing/index.server.js");
    let g = ManifestGenerator::new(targets, &cache, sample_dist());
    assert!(matches!(
        g.generate("."),
        Err(BuildError::PathCanonicalizationFailed(_))
    ));
}

#[test]
fn fresh_manifest_has_no_routes() {
    let m = Manifest::new(GlobalEntry::new("h".to_string(), "c".to_string()));
    assert!(m.get("#root").is_none());
    assert!(m.get("").is_none());
}

#[test]
fn pages_generator_assembles_documents() {
    let g = PagesGenerator::new(
        "dist/cache".to_string(),
        sample_dist(),
        "<title>head</title>".to_string(),
        vec![
            (
                "dist/cache/pages/index.server.js".to_string(),
                "<p>root page</p>".to_string(),
            ),
            (
                "dist/cache/pages/blog/post/index.server.js".to_string(),
                "<p>a post</p>".to_string(),
            ),
        ],
    );
    let out = g.generate().unwrap();
    assert_eq!(out.len(), 2);
    assert_eq!(out[0].0, "dist/pages");
    let doc = out[0].1.text();
    assert!(doc.contains("<div id='root'><p>root page</p></div>"));
    assert!(doc.contains("<script src=\"/dist/pages/index.js\"></script>"));
    assert!(doc.contains("<link rel=\"stylesheet\" href=\"/dist/pages/index.css\">"));
    assert!(doc.contains("<title>head</title>"));
    assert_eq!(out[1].0, "dist/pages/blog/post");
}

#[test]
fn pages_generator_rejects_unknown_routes() {
    let g = PagesGenerator::new(
        "dist/cache".to_string(),
        sample_dist(),
        String::new(),
        vec![("dist/cache/pages/nowhere/index.server.js".to_string(), "x".to_string())],
    );
    assert!(matches!(
        g.generate(),
        Err(BuildError::RouteReconciliationFailed(_))
    ));
}

#[test]
fn page_renderer_assembles_from_manifest_entry() {
    let e = entry(
        "dist/pages/blog",
        vec!["dist/pages/blog/index.js".to_string()],
        vec![],
    );
    let html = PageRenderer::new(
        "<title>h</title>".to_string(),
        "<p>b</p>".to_string(),
        e,
    )
    .render();
    assert!(html.contains("<div id='root'><p>b</p></div>"));
    assert!(html.contains("<script src=\"/dist/pages/blog/index.js\"></script>"));
}
