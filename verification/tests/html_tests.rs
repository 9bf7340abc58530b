use metassr::html::HtmlBuilder;
use metassr::html::HtmlProps;
use metassr::html::HtmlTemplate;
use metassr::html::replace_all;
use metassr::hydrator::Hydrator;
use metassr::render::ServerRender;
use metassr::render::render_script;
use metassr::render::u64_to_string;
use metassr::traits::Generate;

#[test]
fn generating_html() {
    let binding = HtmlProps::new()
        .lang("en")
        .body("<div id=\"root\"></div>")
        .head(
            "
<meta charset=\"utf-8\" />
<meta name=\"viewport\" content=\"width=device-width\" />
<title>This is a static page</title>
        ",
        )
        .scripts(vec!["main.js".to_owned(), "react.js".to_owned()])
        .styles(vec!["style.css".to_owned()]);
    let props = binding.build();
    let html = HtmlBuilder::new(HtmlTemplate::default(), props).generate();
    println!("{html:?}")
}

#[test]
fn generate_hydrated_file() {
    println!(
        "{}",
        Hydrator::new("src/_app.tsx", "src/pages/home.jsx", "root")
            .generate()
            .unwrap()
    );
}

#[test]
fn generate_render_file() {
    println!(
        "{:?}",
        ServerRender::new("src/_app.tsx", "src/pages/home.jsx", 0)
            .generate()
            .unwrap()
    );
}

#[test]
fn render_ids_follow_the_session_sequence() {
    let (id, script) = ServerRender::new("a/_app.tsx", "a/pages/p.tsx", 7)
        .generate()
        .unwrap();
    assert_eq!(id, 7);
    assert!(script.contains("export function render_7()"));
}

#[test]
fn replace_all_rewrites_every_occurrence() {
    assert_eq!(replace_all("a%X%b%X%c", "%X%", "-"), "a-b-c");
    assert_eq!(replace_all("nothing here", "%X%", "-"), "nothing here");
    assert_eq!(replace_all("%X%%X%", "%X%", "yz"), "yzyz");
    assert_eq!(replace_all("aaa", "aa", "b"), "ba");
}

#[test]
fn template_substitution_produces_full_document() {
    let props = HtmlProps::new()
        .lang("en")
        .head("<title>t</title>")
        .body("<p>hi</p>")
        .scripts(vec!["a.js".to_owned()])
        .styles(vec!["a.css".to_owned()])
        .build();
    let html = HtmlBuilder::new(HtmlTemplate::new("%LANG%|%HEAD%|%BODY%|%SCRIPTS%|%STYLES%"), props)
        .generate();
    assert_eq!(
        html.text(),
        "en|<title>t</title>|<p>hi</p>|<script src=\"a.js\"></script>|<link rel=\"stylesheet\" href=\"a.css\">"
    );
}

#[test]
fn render_script_embeds_id_and_paths() {
    let script = render_script("abs/app", "abs/page", 42);
    assert!(script.contains("import App from \"abs/app\""));
    assert!(script.contains("import Page from \"abs/page\""));
    assert!(script.contains("export function render_42()"));
}

#[test]
fn decimal_text_is_exact() {
    assert_eq!(u64_to_string(0), "0");
    assert_eq!(u64_to_string(7), "7");
    assert_eq!(u64_to_string(1203), "1203");
    assert_eq!(u64_to_string(18446744073709551615), "18446744073709551615");
}

#[test]
fn hydrate_script_embeds_root_id() {
    let s = Hydrator::new("a/_app.tsx", "a/pages/p.tsx", "root")
        .generate()
        .unwrap();
    assert!(s.contains("document.getElementById(\"root\")"));
    assert!(s.contains("import App from \"a/_app.tsx\""));
}
