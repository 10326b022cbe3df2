use diagramide::references::{
    clean_old_deps, has_dependency, replace_content, replace_pikchr_content, replace_raw_content,
    DepGraph, RefSource,
};

fn plain(id: u64, name: &str, raw: &str) -> RefSource {
    RefSource { id, name: name.to_string(), raw: Some(raw.to_string()), pikchr: None }
}

fn diagram(id: u64, name: &str, raw: &str, pikchr: &str) -> RefSource {
    RefSource {
        id,
        name: name.to_string(),
        raw: Some(raw.to_string()),
        pikchr: Some(pikchr.to_string()),
    }
}

#[test]
fn plain_text_is_only_available_as_raw_content() {
    let plain_id = 1;
    let pikchr_id = 2;
    let sources = vec![plain(plain_id, "REF", "embedded text"), diagram(pikchr_id, "", "", "")];
    let mut deps = DepGraph::new();
    assert_eq!(
        replace_content(&sources, &mut deps, pikchr_id, "before !!REF!! after"),
        "before embedded text after"
    );
    assert_eq!(replace_pikchr_content(&sources, &mut deps, pikchr_id, "$$REF$$"), "$$REF$$");
    assert!(sources[0].pikchr.is_none());
    assert!(deps.contains(plain_id, pikchr_id));
}

#[test]
fn dependencies_are_found_in_both_forms() {
    assert!(has_dependency("x !!A!! y", "A"));
    assert!(has_dependency("$$A$$", "A"));
    assert!(!has_dependency("!A! $A$", "A"));
    assert!(!has_dependency("!!AB!!", "A"));
}

#[test]
fn generated_pikchr_is_followed_by_a_semicolon() {
    let sources = vec![diagram(1, "D", "src", "box")];
    let mut deps = DepGraph::new();
    assert_eq!(replace_pikchr_content(&sources, &mut deps, 2, "[$$D$$]"), "[box;]");
    assert!(deps.contains(1, 2));
}

#[test]
fn references_nest_three_passes_deep() {
    let sources = vec![
        plain(4, "D", "end"),
        plain(3, "C", "!!D!!"),
        plain(2, "B", "!!C!!"),
        plain(1, "A", "!!B!!"),
    ];
    let mut deps = DepGraph::new();
    assert_eq!(replace_raw_content(&sources, &mut deps, 9, "!!A!!"), "!!D!!");
    assert!(deps.contains(1, 9));
    assert!(!deps.contains(2, 9));
}

#[test]
fn a_window_does_not_include_itself() {
    let sources = vec![plain(1, "SELF", "loop")];
    let mut deps = DepGraph::new();
    assert_eq!(replace_raw_content(&sources, &mut deps, 1, "!!SELF!!"), "!!SELF!!");
    assert!(!deps.contains(1, 1));
}

#[test]
fn text_without_references_is_unchanged() {
    let sources = vec![plain(1, "A", "x"), diagram(2, "B", "y", "z")];
    let mut deps = DepGraph::new();
    assert_eq!(replace_content(&sources, &mut deps, 3, "box \"A\" $ B !"), "box \"A\" $ B !");
    assert!(!deps.contains(1, 3));
    assert!(!deps.contains(2, 3));
}

#[test]
fn graph_holds_each_edge_once() {
    let mut g = DepGraph::new();
    g.insert(1, 2);
    g.insert(1, 2);
    assert_eq!(g.edges.len(), 1);
    assert!(g.contains(1, 2));
    assert!(!g.contains(2, 1));
}

#[test]
fn cleaning_drops_only_stale_dependencies() {
    let sources = vec![
        plain(1, "A", "text"),
        diagram(2, "B", "uses !!A!!", "box"),
        diagram(3, "C", "no reference", "box"),
        diagram(4, "D", "x", "line $$A$$"),
    ];
    let mut deps = DepGraph::new();
    deps.insert(1, 2);
    deps.insert(1, 3);
    deps.insert(1, 4);
    deps.insert(1, 5);
    deps.insert(7, 3);
    clean_old_deps(&sources, &mut deps);
    assert!(deps.contains(1, 2));
    assert!(!deps.contains(1, 3));
    assert!(deps.contains(1, 4));
    assert!(!deps.contains(1, 5));
    assert!(deps.contains(7, 3));
    assert_eq!(deps.edges.len(), 3);
}

#[test]
fn dependents_are_listed_once() {
    let mut g = DepGraph::new();
    g.insert(1, 2);
    g.insert(1, 3);
    g.insert(4, 2);
    g.insert(1, 2);
    assert_eq!(g.dependents_of(1), vec![2, 3]);
    assert_eq!(g.dependents_of(4), vec![2]);
    assert!(g.dependents_of(2).is_empty());
}

#[test]
fn a_deleted_window_depends_on_nothing() {
    let mut g = DepGraph::new();
    g.insert(1, 2);
    g.insert(3, 2);
    g.insert(2, 4);
    g.forget_dependent(2);
    assert!(!g.contains(1, 2));
    assert!(!g.contains(3, 2));
    assert!(g.contains(2, 4));
}
