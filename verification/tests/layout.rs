//! Tests of layout section trees.

use mudpuppy::layout::{Constraint, Direction, LayoutError, Section};

fn tree() -> Section {
    let mut root = Section::new("root".to_string());
    let mut top = Section::new("top".to_string());
    top.append_child(Constraint::Length(3), Section::new("status".to_string()));
    top.append_child(Constraint::Fill(1), Section::new("output".to_string()));
    root.append_child(Constraint::Percentage(80), top);
    root.add_child(Constraint::Min(1), Section::new("input".to_string()));
    root
}

#[test]
fn layout_lookup() {
    let root = tree();
    assert_eq!(root.get_section("root").unwrap().name, "root");
    assert_eq!(root.get_section("output").unwrap().name, "output");
    assert!(root.get_section("nothing").is_none());
    assert_eq!(root.get_constraint("status"), Some(Constraint::Length(3)));
    assert_eq!(root.get_constraint("root"), None);
    assert_eq!(root.get_parent("status").unwrap().name, "top");
    assert_eq!(root.get_parent("top").unwrap().name, "root");
    assert!(root.get_parent("root").is_none());
    assert_eq!(root.direction, Direction::Vertical);
}

#[test]
fn layout_later_duplicate_wins_lookup() {
    let mut root = Section::new("root".to_string());
    root.append_child(Constraint::Min(1), Section::new("a".to_string()));
    root.append_child(Constraint::Max(2), Section::new("a".to_string()));
    assert_eq!(root.get_constraint("a"), Some(Constraint::Max(2)));
    assert_eq!(
        root.all_layouts(),
        Err(LayoutError::DuplicateSection("a".to_string()))
    );
    assert_eq!(
        LayoutError::DuplicateSection("a".to_string()).to_string(),
        "duplicate layout section name: a"
    );
}

#[test]
fn layout_set_constraint() {
    let mut root = tree();
    root.set_constraint("output", Constraint::Ratio(1, 2)).unwrap();
    assert_eq!(root.get_constraint("output"), Some(Constraint::Ratio(1, 2)));
    root.set_constraint("top", Constraint::Fill(2)).unwrap();
    assert_eq!(root.get_constraint("top"), Some(Constraint::Fill(2)));
    assert_eq!(
        root.set_constraint("missing", Constraint::Min(0)),
        Err(LayoutError::UnknownSection("missing".to_string()))
    );
    assert_eq!(
        LayoutError::UnknownSection("missing".to_string()).to_string(),
        "unknown layout section name: missing"
    );
}

#[test]
fn layout_insert_and_tree() {
    let mut root = tree();
    root.insert_child(0, Constraint::Length(1), Section::new("title".to_string()));
    root.insert_child(99, Constraint::Length(1), Section::new("footer".to_string()));
    assert_eq!(
        root.to_string(),
        "root:\n├─ Length(1) - title\n├─ Percentage(80) - top\n  ├─ Length(3) - status\n  ├─ Fill(1) - output\n├─ Min(1) - input\n├─ Length(1) - footer\n"
    );
    let all = root.all_layouts().unwrap();
    let names: Vec<&str> = all.iter().map(|(n, _)| n.as_str()).collect();
    assert_eq!(names, vec!["title", "top", "status", "output", "input", "footer"]);
    assert_eq!(all[2].1, Constraint::Length(3));
}
