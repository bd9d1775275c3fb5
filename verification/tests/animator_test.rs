use leptos_animated_for::animator::{finish_transition, run_cleanup, Animator};
use leptos_animated_for::element::{AnimatedEl, ElementModel, TransitionEndAction};
use leptos_animated_for::untracked_classes::UntrackedClasses;

fn strings(v: &[&str]) -> Vec<String> {
    v.iter().map(|s| s.to_string()).collect()
}

fn some(s: &str) -> Option<String> {
    Some(s.to_string())
}

fn animator() -> Animator<u32> {
    Animator::new(
        &some("opacity-0 scale-50"),
        &some("transition-all duration-500"),
        &some("transition-transform"),
        &some("opacity-0 leaving"),
    )
}

fn element_with(classes: &[&str]) -> ElementModel {
    let mut el = ElementModel::new();
    el.add_classes(&strings(classes));
    el
}

#[test]
fn untracked_classes_split_props() {
    let c = UntrackedClasses::new(&some(" a  b "), &None, &some("m"), &some("\tl\n"));
    assert_eq!(c.enter_from_classes(), &strings(&["a", "b"]));
    assert!(c.enter_classes().is_empty());
    assert_eq!(c.move_classes(), &strings(&["m"]));
    assert_eq!(c.leave_classes(), &strings(&["l"]));
}

#[test]
fn untracked_classes_add_to_element() {
    let c = UntrackedClasses::new(&some("a b"), &some("b e"), &some("m"), &some("l a"));
    let mut el = element_with(&["a"]);
    assert_eq!(c.add_enter_from(&mut el), strings(&["b"]));
    assert_eq!(c.add_enter(&mut el), strings(&["e"]));
    assert_eq!(c.add_move(&mut el), strings(&["m"]));
    c.add_leave(&mut el);
    assert_eq!(el.classes(), &strings(&["a", "b", "e", "m", "l"]));
}

#[test]
fn prepare_enter_adds_enter_from_and_freezes_transitions() {
    let mut a = animator();
    let mut el = element_with(&["item", "scale-50"]);
    a.prepare_enter(7, &mut el);
    assert_eq!(el.classes(), &strings(&["item", "scale-50", "opacity-0"]));
    assert_eq!(el.style_property("transition-duration"), Some(("0s".to_string(), true)));
    assert!(el.on_transition_end().is_none());
}

#[test]
fn enter_lifecycle_restores_classes() {
    let mut a = animator();
    let mut el = element_with(&["item", "scale-50"]);
    a.prepare_enter(7, &mut el);
    a.start_enter(7, &mut el, 1);
    // only the enter-from class that prepare_enter added comes off
    assert_eq!(el.classes(), &strings(&["item", "scale-50", "transition-all", "duration-500"]));
    assert_eq!(el.style_property("transition-duration"), None);
    match el.on_transition_end() {
        Some(TransitionEndAction::RemoveClasses(v)) => {
            assert_eq!(v, &strings(&["transition-all", "duration-500"]))
        }
        _ => panic!("expected a cleanup handler"),
    }
    finish_transition(&mut el);
    assert_eq!(el.classes(), &strings(&["item", "scale-50"]));
    assert!(el.on_transition_end().is_none());
    assert!(el.is_attached());
}

#[test]
fn start_enter_without_prepare_only_adds_enter_classes() {
    let mut a = animator();
    let mut el = element_with(&["opacity-0"]);
    a.start_enter(3, &mut el, 9);
    assert_eq!(el.classes(), &strings(&["opacity-0", "transition-all", "duration-500"]));
    let pending = a.clear_transitions();
    assert_eq!(pending.len(), 1);
    assert_eq!(pending[0].element, 9);
    assert_eq!(pending[0].classes, strings(&["transition-all", "duration-500"]));
}

#[test]
fn start_move_clears_transform_and_adds_move_classes() {
    let mut a = animator();
    let mut el = element_with(&["item"]);
    el.set_important_style_property("transform", "translate(10px,0px)");
    el.enable_instant_transition();
    a.start_move(&mut el, 4);
    assert_eq!(el.style_property("transform"), None);
    assert_eq!(el.style_property("transition-duration"), None);
    assert_eq!(el.classes(), &strings(&["item", "transition-transform"]));
    finish_transition(&mut el);
    assert_eq!(el.classes(), &strings(&["item"]));
}

#[test]
fn start_leave_removes_element_when_transition_ends() {
    let a = animator();
    let mut el = element_with(&["item"]);
    el.enable_instant_transition();
    a.start_leave(&mut el);
    assert_eq!(el.classes(), &strings(&["item", "opacity-0", "leaving"]));
    assert_eq!(el.style_property("transition-duration"), None);
    assert!(matches!(el.on_transition_end(), Some(TransitionEndAction::RemoveElement)));
    assert!(el.is_attached());
    finish_transition(&mut el);
    assert!(!el.is_attached());
}

#[test]
fn clear_transitions_hands_back_cleanups_in_order() {
    let mut a = animator();
    let mut first = element_with(&["one"]);
    let mut second = element_with(&["two"]);
    a.start_enter(1, &mut first, 10);
    a.start_move(&mut second, 20);
    let pending = a.clear_transitions();
    assert_eq!(pending.len(), 2);
    assert_eq!(pending[0].element, 10);
    assert_eq!(pending[1].element, 20);
    run_cleanup(&mut first, &pending[0].classes);
    run_cleanup(&mut second, &pending[1].classes);
    assert_eq!(first.classes(), &strings(&["one"]));
    assert_eq!(second.classes(), &strings(&["two"]));
    assert!(first.on_transition_end().is_none());
    assert!(a.clear_transitions().is_empty());
}

#[test]
fn finish_without_handler_changes_nothing() {
    let mut el = element_with(&["a"]);
    finish_transition(&mut el);
    assert_eq!(el.classes(), &strings(&["a"]));
    assert!(el.is_attached());
}

#[test]
fn animator_without_props_adds_nothing() {
    let mut a: Animator<u32> = Animator::new(&None, &None, &None, &None);
    let mut el = element_with(&["a"]);
    a.prepare_enter(1, &mut el);
    a.start_enter(1, &mut el, 0);
    assert_eq!(el.classes(), &strings(&["a"]));
    assert_eq!(el.style_property("transition-duration"), None);
}

#[test]
fn cleanup_run_twice_is_run_once() {
    let mut a = animator();
    let mut el = element_with(&["item"]);
    a.start_move(&mut el, 1);
    finish_transition(&mut el);
    let pending = a.clear_transitions();
    run_cleanup(&mut el, &pending[0].classes);
    assert_eq!(el.classes(), &strings(&["item"]));
    assert!(el.on_transition_end().is_none());
}
