use metassr::checker::CheckerState;
use metassr::rand::Rand;
use metassr::render_exec::RenderExec;
use metassr::swc_compiler::Compiler;
use metassr::swc_compiler::Lang;
use metassr::server_builder::BuildPhase;
use metassr::server_builder::BuildingType;
use metassr::server_builder::ServerSideBuilder;
use metassr::error::BuildError;

#[test]
fn test_new_checker_state() {
    let state = CheckerState::new(false);
    assert!(!state.is_true(), "Expected state to be false");
}

#[test]
fn test_with_checker_state() {
    let mut state = CheckerState::new(true);
    assert!(state.is_true(), "Expected state to be true");
    state.make_false();
    assert!(!state.is_true(), "Expected state to be false");
}

#[test]
fn test_make_true() {
    let mut state = CheckerState::default();
    state.make_true();
    assert!(state.is_true(), "Expected state to be true after calling make_true()");
}

#[test]
fn test_make_false() {
    let mut state = CheckerState::new(true);
    state.make_false();
    assert!(!state.is_true(), "Expected state to be false after calling make_false()");
}

#[test]
fn test_default_checker_state() {
    let state = CheckerState::default();
    assert!(!state.is_true(), "Expected default state to be false");
}

#[test]
fn test_random_value_is_non_negative() {
    let random = Rand::new();
    assert!(random.val() >= 0, "Expected non-negative random value, got {}", random.val());
}

#[test]
fn test_random_values_are_distinct() {
    let mut vals: Vec<i64> = Vec::new();
    let mut i = 0;
    while i < 10 {
        let v = Rand::new().val();
        assert!(!vals.contains(&v), "Random value repeated: {}", v);
        vals.push(v);
        i += 1;
    }
    println!("Generated random values: {:?}", vals);
}

#[test]
fn test_random_value_repetition_over_iterations() {
    let mut vals: Vec<i64> = Vec::new();
    let mut i = 0;
    while i < 100 {
        let v = Rand::new().val();
        assert!(!vals.contains(&v), "Repeated random value: {}", v);
        vals.push(v);
        i += 1;
    }
    println!("Generated {} random values: {:?}", vals.len(), vals);
}

#[test]
fn render_exec_missing_path_is_rejected() {
    let r = RenderExec::new(7, "surely/not/a/real/path.server.js");
    assert!(matches!(r, Err(BuildError::PathNotFound(_))));
}

#[test]
fn render_exec_existing_path_is_accepted() {
    let r = RenderExec::new(7, ".");
    let exec = r.unwrap();
    let (path, func) = exec.invocation();
    assert_eq!(path, ".");
    assert_eq!(func, "render_7");
}

#[test]
fn compiler_classifies_by_extension() {
    let c = Compiler::new("src/App.tsx");
    assert_eq!(c.lang, Lang::TypeScript);
    assert!(c.is_react);
    let c = Compiler::new("src/util.js");
    assert_eq!(c.lang, Lang::JavaScript);
    assert!(!c.is_react);
    let c = Compiler::new("src/page.jsx");
    assert_eq!(c.lang, Lang::JavaScript);
    assert!(c.is_react);
}

#[test]
fn server_builder_requires_source_dir() {
    let r = ServerSideBuilder::new(
        "surely/not/a/project",
        "dist",
        BuildingType::ServerSideRendering,
    );
    assert!(matches!(r, Err(BuildError::MissingSourceDir)));
}

#[test]
fn static_build_has_page_generation_phase() {
    // The phase plans differ only in the final page-generation step.
    let b = ServerSideBuilder {
        src_path: "p/src".to_string(),
        dist_path: "p/dist".to_string(),
        building_type: BuildingType::StaticSiteGeneration,
    };
    let phases = b.phases();
    assert_eq!(phases.len(), 7);
    assert_eq!(*phases.last().unwrap(), BuildPhase::GeneratePages);
    let b = ServerSideBuilder {
        src_path: "p/src".to_string(),
        dist_path: "p/dist".to_string(),
        building_type: BuildingType::ServerSideRendering,
    };
    let phases = b.phases();
    assert_eq!(phases.len(), 6);
}
