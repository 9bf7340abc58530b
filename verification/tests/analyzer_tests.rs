use metassr::dist_analyzer::DistDir;
use metassr::dist_analyzer::analyze_dist_files;
use metassr::error::BuildError;
use metassr::paths::parent_of;
use metassr::paths::route_of;
use metassr::paths::route_to_url;
use metassr::paths::setup_page_path;
use metassr::paths::stem_of;
use metassr::paths::strip_prefix;
use metassr::src_analyzer::SourceDirContainer;
use metassr::src_analyzer::analyze_files;

#[test]
fn page_path_rule_round_trips() {
    // An `index` page keeps its place; any other page moves into a
    // directory of its own name.
    assert_eq!(setup_page_path("index.tsx", "server.js"), "index.server.js");
    assert_eq!(setup_page_path("home.tsx", "server.js"), "home/index.server.js");
    assert_eq!(setup_page_path("blog/post.jsx", "js"), "blog/post/index.js");
    assert_eq!(setup_page_path("blog/index.jsx", "js"), "blog/index.js");
}

#[test]
fn path_helpers_are_exact() {
    assert_eq!(parent_of("a/b/c.js"), "a/b");
    assert_eq!(parent_of("c.js"), "");
    assert_eq!(stem_of("a/b/c.server.js"), "c.server");
    assert_eq!(strip_prefix("root/src/pages/a.tsx", "root/src"), Some("pages/a.tsx".to_string()));
    assert_eq!(strip_prefix("other/a.tsx", "root"), None);
    assert_eq!(route_of(""), "#root");
    assert_eq!(route_of("blog/post"), "blog/post");
    assert_eq!(route_to_url("#root"), "/");
    assert_eq!(route_to_url("blog/$article"), "/blog/:article");
}

#[test]
fn source_analysis_classifies_each_page_once() {
    let files = vec![
        "app/src/_app.tsx".to_string(),
        "app/src/_head.tsx".to_string(),
        "app/src/pages/index.tsx".to_string(),
        "app/src/pages/blog/post.tsx".to_string(),
        "app/src/readme.md".to_string(),
    ];
    let c = analyze_files("app/src", &files);
    let pages = c.pages();
    assert_eq!(pages.len(), 2);
    let routes: Vec<String> = pages.iter().map(|p| p.0.clone()).collect();
    assert!(routes.contains(&"index.tsx".to_string()));
    assert!(routes.contains(&"blog/post.tsx".to_string()));
    let (app, head) = c.specials().unwrap();
    assert_eq!(app.0, "app/src/_app.tsx");
    assert_eq!(head.0, "app/src/_head.tsx");
}

#[test]
fn missing_special_entries_are_reported() {
    let files = vec!["app/src/pages/page1.jsx".to_string()];
    let c = analyze_files("app/src", &files);
    let r = c.specials();
    match r {
        Err(BuildError::MissingSpecialEntries { app, head }) => {
            assert!(app);
            assert!(head);
        },
        _ => panic!("expected missing special entries"),
    }
}

#[test]
fn last_special_entry_wins() {
    let files = vec![
        "p/src/_app.jsx".to_string(),
        "p/src/_head.jsx".to_string(),
        "p/src/theme/_app.tsx".to_string(),
    ];
    let c = analyze_files("p/src", &files);
    let (app, _head) = c.specials().unwrap();
    assert_eq!(app.0, "p/src/theme/_app.tsx");
}

#[test]
fn dist_groups_assets_by_parent() {
    let files = vec![
        "dist/pages/blog/a.js".to_string(),
        "dist/pages/blog/a.css".to_string(),
        "dist/pages/x/b.js".to_string(),
        "dist/pages/c.js".to_string(),
        "dist/pages/blog/notes.txt".to_string(),
    ];
    let c = analyze_dist_files("dist/pages", &files);
    assert_eq!(c.pages.len(), 3);
    let blog = c.pages.iter().find(|p| p.0 == "blog").unwrap();
    assert_eq!(blog.1.scripts, vec!["dist/pages/blog/a.js".to_string()]);
    assert_eq!(blog.1.styles, vec!["dist/pages/blog/a.css".to_string()]);
    assert_eq!(blog.1.path, "dist/pages/blog");
    let x = c.pages.iter().find(|p| p.0 == "x").unwrap();
    assert_eq!(x.1.scripts, vec!["dist/pages/x/b.js".to_string()]);
    assert!(x.1.styles.is_empty());
    let root = c.pages.iter().find(|p| p.0 == "#root").unwrap();
    assert_eq!(root.1.scripts, vec!["dist/pages/c.js".to_string()]);
}

#[test]
fn dist_dir_requires_existing_path() {
    let r = DistDir::new("surely/not/a/dist");
    assert!(matches!(r, Err(BuildError::PathNotFound(_))));
}

#[test]
fn container_keeps_what_it_was_given() {
    let c = SourceDirContainer::new(
        vec![("a.tsx".to_string(), "src/pages/a.tsx".to_string())],
        (None, None),
    );
    assert_eq!(c.pages().len(), 1);
    assert!(c.specials().is_err());
}
