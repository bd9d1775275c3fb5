//! What holds across the operations: transitions that leave an element's
//! classes as they found them, and cleanups that may run twice.
use vstd::prelude::*;
use crate::class_names::{
    class_names, is_white_space, lemma_split_at_white, lemma_split_blank, lemma_split_word, views,
};
use crate::element::style_after_set;
use crate::class_list::{
    added_tokens, all_valid, is_class_list, lemma_added_tokens, lemma_class_list_kept,
    lemma_remove_added_restores, lemma_remove_twice, removed_tokens,
};
use crate::animator::enter_base;

verus! {

/// The classes that an addition reports as added are exactly those it
/// appended, none of which the element had before; afterwards the element
/// has every class asked for, still none twice.
pub proof fn law_added_classes_were_absent(list: Seq<Seq<char>>, classes: Seq<Seq<char>>)
    requires
        is_class_list(list),
        all_valid(classes),
    ensures
        forall|i: int|
            0 <= i < added_tokens(list, classes).len() ==> !list.contains(
                #[trigger] added_tokens(list, classes)[i],
            ) && classes.contains(added_tokens(list, classes)[i]),
        forall|i: int|
            0 <= i < classes.len() ==> (list + added_tokens(list, classes)).contains(
                #[trigger] classes[i],
            ),
        is_class_list(list + added_tokens(list, classes)),
{
    lemma_added_tokens(list, classes);
    lemma_class_list_kept(list, classes);
}

/// Taking off the classes that an addition reported as added gives back the
/// class list from before the addition.
pub proof fn law_remove_added_classes(list: Seq<Seq<char>>, classes: Seq<Seq<char>>)
    ensures
        removed_tokens(list + added_tokens(list, classes), added_tokens(list, classes)) == list,
{
    lemma_remove_added_restores(list, classes);
}

/// An enter transition leaves the classes of its element as it found them:
/// the enter-from classes that `prepare_enter` put on (and remembered for the
/// key) come off when `start_enter` starts, and the enter classes that
/// `start_enter` put on come off when the transition ends.
pub proof fn law_enter_restores_classes(
    before: Seq<Seq<char>>,
    enter_from: Seq<Seq<char>>,
    enter: Seq<Seq<char>>,
    per_key: Map<u64, Vec<String>>,
    key: u64,
)
    requires
        per_key.contains_key(key),
        views(per_key[key]@) == added_tokens(before, enter_from),
    ensures
        ({
            let prepared = before + added_tokens(before, enter_from);
            let base = enter_base(per_key, key, prepared);
            let entering = base + added_tokens(base, enter);
            &&& base == before
            &&& removed_tokens(entering, added_tokens(base, enter)) == before
        }),
{
    lemma_remove_added_restores(before, enter_from);
    lemma_remove_added_restores(before, enter);
}

/// A move transition leaves the classes of its element as it found them once
/// the transition ends.
pub proof fn law_move_restores_classes(before: Seq<Seq<char>>, move_classes: Seq<Seq<char>>)
    ensures
        removed_tokens(before + added_tokens(before, move_classes), added_tokens(before, move_classes))
            == before,
{
    lemma_remove_added_restores(before, move_classes);
}

/// Making transitions instant and then giving them their duration back leaves
/// an inline style without `transition-duration` as it was.
pub proof fn law_instant_transition_round_trip(style: Map<Seq<char>, (Seq<char>, bool)>)
    requires
        !style.contains_key("transition-duration"@),
    ensures
        style.insert("transition-duration"@, ("0s"@, true)).remove("transition-duration"@) == style,
{
    assert(style.insert("transition-duration"@, ("0s"@, true)).remove("transition-duration"@)
        =~= style);
}

/// Running a class cleanup a second time on its element (once when its
/// transition ends, once more when the pending transitions are cleared)
/// leaves the element's classes as running it once did: the cleanup's
/// classes off. (Each run leaves the element without a handler, as
/// `run_cleanup` states.)
pub proof fn law_cleanup_twice_is_once(before: Seq<Seq<char>>, classes: Seq<Seq<char>>)
    ensures
        removed_tokens(removed_tokens(before, classes), classes) == removed_tokens(before, classes),
{
    lemma_remove_twice(before, classes);
}

/// An absent class prop stands for no class.
pub proof fn law_absent_prop_has_no_class()
    ensures
        class_names(None) == Seq::<Seq<char>>::empty(),
{
}

/// A class prop of white space only stands for no class.
pub proof fn law_blank_prop_has_no_class(s: Seq<char>)
    requires
        forall|i: int| 0 <= i < s.len() ==> is_white_space(#[trigger] s[i]),
    ensures
        class_names(Some(s)) == Seq::<Seq<char>>::empty(),
{
    lemma_split_blank(s);
}

/// A class prop that is one non-empty run of characters other than white
/// space stands for exactly that one class.
pub proof fn law_single_word_prop_is_one_class(w: Seq<char>)
    requires
        w.len() > 0,
        forall|i: int| 0 <= i < w.len() ==> !is_white_space(#[trigger] w[i]),
    ensures
        class_names(Some(w)) == seq![w],
{
    lemma_split_word(w);
}

/// White space separates classes: a prop made of `a`, a white-space
/// character, then `b`, stands for the classes of `a` followed by the classes
/// of `b`, none lost, none merged, none added.
pub proof fn law_prop_splits_at_white_space(a: Seq<char>, c: char, b: Seq<char>)
    requires
        is_white_space(c),
    ensures
        class_names(Some(a + seq![c] + b)) == class_names(Some(a)) + class_names(Some(b)),
{
    lemma_split_at_white(a, c, b);
}

/// Setting a style property to a non-empty value gives it exactly that value
/// and priority, whatever the value's characters, and leaves every other
/// property as it was.
pub proof fn law_set_style_sets_value(
    style: Map<Seq<char>, (Seq<char>, bool)>,
    name: Seq<char>,
    value: Seq<char>,
    important: bool,
)
    requires
        value.len() > 0,
    ensures
        style_after_set(style, name, value, important).contains_key(name),
        style_after_set(style, name, value, important)[name] == (value, important),
        forall|k: Seq<char>|
            k != name ==> (#[trigger] style_after_set(style, name, value, important).contains_key(k)
                <==> style.contains_key(k)),
        forall|k: Seq<char>|
            k != name && style.contains_key(k) ==> #[trigger] style_after_set(
                style,
                name,
                value,
                important,
            )[k] == style[k],
{
}

/// Setting a style property to the empty value removes it and leaves every
/// other property as it was.
pub proof fn law_set_empty_style_removes(
    style: Map<Seq<char>, (Seq<char>, bool)>,
    name: Seq<char>,
    important: bool,
)
    ensures
        !style_after_set(style, name, Seq::<char>::empty(), important).contains_key(name),
        forall|k: Seq<char>|
            k != name ==> (#[trigger] style_after_set(
                style,
                name,
                Seq::<char>::empty(),
                important,
            ).contains_key(k) <==> style.contains_key(k)),
        forall|k: Seq<char>|
            k != name && style.contains_key(k) ==> #[trigger] style_after_set(
                style,
                name,
                Seq::<char>::empty(),
                important,
            )[k] == style[k],
{
}

} // verus!
