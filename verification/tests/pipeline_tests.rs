use metassr::cache_dir::CacheDir;
use metassr::dist_analyzer::analyze_dist_files;
use metassr::manifest::Manifest;
use metassr::manifest::ManifestGenerator;
use metassr::src_analyzer::analyze_files;
use metassr::targets::TargetsGenerator;

#[test]
fn end_to_end_two_pages_reconcile() {
    // Source tree with the two special entries and two pages.
    let files = vec![
        "app/src/_app.tsx".to_string(),
        "app/src/_head.tsx".to_string(),
        "app/src/pages/index.tsx".to_string(),
        "app/src/pages/blog/post.tsx".to_string(),
    ];
    let src = analyze_files("app/src", &files);
    let (app, _head) = src.specials().unwrap();
    let pages = src.pages();
    assert_eq!(pages.len(), 2);

    // Stage one render script per page.
    let mut cache = CacheDir::new("app/dist/cache");
    let targets = TargetsGenerator::generate_with(app.0.as_str(), &pages, &mut cache);
    assert_eq!(targets.iter().len(), 2);

    // A bundler run that emitted matching assets for both routes.
    let emitted = vec![
        "app/dist/pages/index.js".to_string(),
        "app/dist/pages/index.css".to_string(),
        "app/dist/pages/blog/post/index.js".to_string(),
    ];
    let dist = analyze_dist_files("app/dist/pages", &emitted);
    assert_eq!(dist.pages.len(), 2);

    // The session sequence hands out distinct IDs.
    let ids: Vec<i64> = targets.iter().iter().map(|p| p.1).collect();
    assert_eq!(ids, vec![0, 1]);

    // Reconciliation covers every target and round-trips through the
    // persisted form; the renderers are handed in resolved.
    let renderers: Vec<String> = targets.iter().iter().map(|p| format!("/abs/{}", p.0)).collect();
    let g = ManifestGenerator::new(targets, &cache, dist);
    let m = g.generate_resolved("/abs/head.js".to_string(), &renderers).unwrap();
    let root = m.get("#root").unwrap();
    assert_eq!(
        root.renderer,
        "/abs/app/dist/cache/pages/index.server.js"
    );
    assert_eq!(root.page_entry.scripts, vec!["app/dist/pages/index.js".to_string()]);
    let blog = m.get("blog/post").unwrap();
    assert_eq!(
        blog.renderer,
        "/abs/app/dist/cache/pages/blog/post/index.server.js"
    );
    assert!(blog.id >= 0);

    let back = Manifest::from_json(m.to_json().as_str()).unwrap();
    assert_eq!(back.get("#root").unwrap().id, root.id);
    assert_eq!(back.get("blog/post").unwrap().id, blog.id);
    assert_eq!(back.global.cache, "app/dist/cache");
}

#[test]
fn head_renderer_stages_its_script() {
    let mut cache = CacheDir::new("dist/cache");
    let hr = metassr::head_renderer::HeadRenderer::new("/abs/src/_head.tsx");
    let script = hr.script();
    assert!(script.contains("import Head from \"/abs/src/_head.tsx\""));
    assert!(script.contains("export function render_head()"));
    let (target, _action) = hr.bundling_target(&mut cache);
    assert_eq!(target.len(), 1);
    assert_eq!(target[0].0, "head");
    assert_eq!(target[0].1, "dist/cache/head.js");
}

#[test]
fn creator_templates_substitute_metadata() {
    let c = metassr::creator::Creator::new("demo", "1.0.0", "Hello World!", "ts");
    let files = c.template.load(&c);
    assert_eq!(files.len(), 4);
    assert_eq!(files[0].0, "package.json");
    assert!(files[0].1.contains("\"name\": \"demo\""));
    assert!(files[0].1.contains("\"version\": \"1.0.0\""));
    assert!(files[0].1.contains("\"description\": \"Hello World!\""));
    assert_eq!(files[1].0, "src/_app.tsx");
    assert!(files[1].1.contains("export default function App"));
    assert_eq!(files[2].0, "src/_head.tsx");
    assert!(files[2].1.contains("<title>demo 1.0.0</title>"));
    assert_eq!(files[3].0, "src/pages/index.tsx");
    assert!(files[3].1.contains("export default function Index"));
    let c = metassr::creator::Creator::new("demo", "1.0.0", "Hello World!", "js");
    let files = c.template.load(&c);
    assert_eq!(files[1].0, "src/_app.jsx");
    assert_eq!(files[3].0, "src/pages/index.jsx");
}
