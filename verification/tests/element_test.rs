use leptos_animated_for::element::{AnimatedEl, ElementModel, TransitionEndAction};

fn strings(v: &[&str]) -> Vec<String> {
    v.iter().map(|s| s.to_string()).collect()
}

fn element_with(classes: &[&str]) -> ElementModel {
    let mut el = ElementModel::new();
    el.add_classes(&strings(classes));
    el
}

#[test]
fn new_element_is_bare() {
    let el = ElementModel::new();
    assert!(el.classes().is_empty());
    assert!(el.style().is_empty());
    assert!(el.on_transition_end().is_none());
    assert!(el.is_attached());
}

#[test]
fn add_classes_skips_present_and_repeated() {
    let mut el = element_with(&["a", "b"]);
    el.add_classes(&strings(&["b", "c", "c", "d"]));
    assert_eq!(el.classes(), &strings(&["a", "b", "c", "d"]));
}

#[test]
fn add_unique_classes_returns_only_new_ones() {
    let mut el = element_with(&["a", "b"]);
    let added = el.add_unique_classes(&strings(&["b", "c", "a", "d", "c"]));
    assert_eq!(added, strings(&["c", "d"]));
    assert_eq!(el.classes(), &strings(&["a", "b", "c", "d"]));
}

#[test]
fn add_unique_classes_on_present_classes_adds_nothing() {
    let mut el = element_with(&["a", "b"]);
    let added = el.add_unique_classes(&strings(&["a", "b"]));
    assert!(added.is_empty());
    assert_eq!(el.classes(), &strings(&["a", "b"]));
}

#[test]
fn removing_added_classes_restores_the_list() {
    let mut el = element_with(&["x", "y"]);
    let added = el.add_unique_classes(&strings(&["y", "fade", "x", "slide"]));
    el.remove_classes(&added);
    assert_eq!(el.classes(), &strings(&["x", "y"]));
}

#[test]
fn remove_classes_ignores_absent() {
    let mut el = element_with(&["a", "b", "c"]);
    el.remove_classes(&strings(&["b", "z"]));
    assert_eq!(el.classes(), &strings(&["a", "c"]));
    assert!(el.has_class(&"a".to_string()));
    assert!(!el.has_class(&"b".to_string()));
}

#[test]
fn instant_transition_toggles_transition_duration() {
    let mut el = ElementModel::new();
    el.enable_instant_transition();
    assert_eq!(el.style_property("transition-duration"), Some(("0s".to_string(), true)));
    el.disable_instant_transition();
    assert_eq!(el.style_property("transition-duration"), None);
    assert!(el.style().is_empty());
}

#[test]
fn important_property_overrides_and_empty_value_removes() {
    let mut el = ElementModel::new();
    el.set_important_style_property("top", "10px");
    el.set_style_property("left", "3px", false);
    el.set_important_style_property("top", "20px");
    assert_eq!(el.style_property("top"), Some(("20px".to_string(), true)));
    assert_eq!(el.style_property("left"), Some(("3px".to_string(), false)));
    assert_eq!(el.style().len(), 2);
    el.set_important_style_property("top", "");
    assert_eq!(el.style_property("top"), None);
    assert_eq!(el.style().len(), 1);
}

#[test]
fn clear_transform_removes_only_transform() {
    let mut el = ElementModel::new();
    el.set_important_style_property("transform", "translate(3px,4px)");
    el.set_important_style_property("margin", "0px");
    el.clear_transform();
    assert_eq!(el.style_property("transform"), None);
    assert_eq!(el.style_property("margin"), Some(("0px".to_string(), true)));
}

#[test]
fn handler_and_removal() {
    let mut el = ElementModel::new();
    el.set_on_transition_end(Some(TransitionEndAction::RemoveElement));
    assert!(matches!(el.on_transition_end(), Some(TransitionEndAction::RemoveElement)));
    el.remove();
    assert!(!el.is_attached());
}
