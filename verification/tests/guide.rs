use diagramide::guide::{common_editor_help, guide_items, topic_help, GuideItem};
use diagramide::help::HelpTopic;

fn heading(t: &str) -> GuideItem {
    GuideItem::Heading(t.to_string())
}

#[test]
fn overview_opens_with_the_grammar_link() {
    let g = guide_items(HelpTopic::Overview);
    assert_eq!(g[0], GuideItem::GrammarLink);
    assert_eq!(g[1], GuideItem::Space);
    assert_eq!(g[2], heading("Workspace"));
}

#[test]
fn editor_topics_open_with_the_editing_help() {
    let common = common_editor_help();
    assert_eq!(common[0], heading("Editing"));
    assert_eq!(
        common.last(),
        Some(&GuideItem::Text("References can be nested up to three replacement passes.".to_string()))
    );
    for topic in [
        HelpTopic::Pikchr,
        HelpTopic::Prolog,
        HelpTopic::Tcl,
        HelpTopic::Mruby,
        HelpTopic::PlainText,
    ] {
        let g = guide_items(topic);
        assert_eq!(&g[..common.len()], &common[..]);
    }
}

#[test]
fn topic_sections() {
    assert!(topic_help(HelpTopic::Overview).is_empty());
    assert!(topic_help(HelpTopic::Grammar).is_empty());
    let render = topic_help(HelpTopic::Render);
    assert_eq!(render[0], heading("Render window"));
    assert_eq!(render.len(), 5);
    let pikchr = topic_help(HelpTopic::Pikchr);
    assert_eq!(pikchr.last(), Some(&GuideItem::GrammarLink));
    let ruby = topic_help(HelpTopic::Mruby);
    assert!(ruby.contains(&heading("Ruby")));
}

#[test]
fn every_page_ends_with_the_feature_guide() {
    let overview = guide_items(HelpTopic::Overview);
    let tail = &overview[2..];
    for topic in [HelpTopic::Render, HelpTopic::Grammar, HelpTopic::Tcl] {
        let g = guide_items(topic);
        assert_eq!(&g[g.len() - tail.len()..], tail);
        assert!(g.contains(&heading("Full feature guide")));
        assert!(g.contains(&GuideItem::Separator));
    }
}
