//! The four class props of the list (enter-from, enter, move, leave), split
//! into class names, and how each is put on an element.
use vstd::prelude::*;
use crate::class_names::{class_names, parse_class_prop, views};
use crate::class_list::{added_tokens, all_valid};
use crate::element::{AnimatedEl, ElementModel};

verus! {

/// The view of an optional string.
pub open spec fn opt_view(o: Option<String>) -> Option<Seq<char>> {
    match o {
        Some(s) => Some(s@),
        None => None,
    }
}

/// The class names of the enter-from, enter, move and leave props.
pub struct UntrackedClasses {
    enter_from: Vec<String>,
    enter: Vec<String>,
    move_classes: Vec<String>,
    leave: Vec<String>,
}

impl UntrackedClasses {
    /// The classes an entering element starts from.
    pub closed spec fn enter_from_view(&self) -> Seq<Seq<char>> {
        views(self.enter_from@)
    }

    /// The classes an entering element transitions with.
    pub closed spec fn enter_view(&self) -> Seq<Seq<char>> {
        views(self.enter@)
    }

    /// The classes a moving element transitions with.
    pub closed spec fn move_view(&self) -> Seq<Seq<char>> {
        views(self.move_classes@)
    }

    /// The classes a leaving element transitions with.
    pub closed spec fn leave_view(&self) -> Seq<Seq<char>> {
        views(self.leave@)
    }

    /// Every class name held is valid.
    pub open spec fn wf(&self) -> bool {
        &&& all_valid(self.enter_from_view())
        &&& all_valid(self.enter_view())
        &&& all_valid(self.move_view())
        &&& all_valid(self.leave_view())
    }

    /// Splits each of the four props into its class names; an absent prop
    /// gives none.
    pub fn new(
        raw_enter_from: &Option<String>,
        raw_enter: &Option<String>,
        raw_move: &Option<String>,
        raw_leave: &Option<String>,
    ) -> (r: Self)
        ensures
            r.wf(),
            r.enter_from_view() == class_names(opt_view(*raw_enter_from)),
            r.enter_view() == class_names(opt_view(*raw_enter)),
            r.move_view() == class_names(opt_view(*raw_move)),
            r.leave_view() == class_names(opt_view(*raw_leave)),
    {
        let enter_from = parse_class_prop(raw_enter_from);
        UntrackedClasses {
            enter_from,
            enter: parse_class_prop(raw_enter),
            move_classes: parse_class_prop(raw_move),
            leave: parse_class_prop(raw_leave),
        }
    }

    /// The enter-from classes.
    pub fn enter_from_classes(&self) -> (r: &Vec<String>)
        ensures
            views(r@) == self.enter_from_view(),
    {
        &self.enter_from
    }

    /// The enter classes.
    pub fn enter_classes(&self) -> (r: &Vec<String>)
        ensures
            views(r@) == self.enter_view(),
    {
        &self.enter
    }

    /// The move classes.
    pub fn move_classes(&self) -> (r: &Vec<String>)
        ensures
            views(r@) == self.move_view(),
    {
        &self.move_classes
    }

    /// The leave classes.
    pub fn leave_classes(&self) -> (r: &Vec<String>)
        ensures
            views(r@) == self.leave_view(),
    {
        &self.leave
    }

    /// Adds the enter-from classes that `el` lacks, and returns them.
    pub fn add_enter_from(&self, el: &mut ElementModel) -> (added: Vec<String>)
        requires
            self.wf(),
            old(el).wf(),
        ensures
            final(el).wf(),
            views(added@) == added_tokens(old(el).classes_view(), self.enter_from_view()),
            final(el).classes_view() == old(el).classes_view() + views(added@),
            final(el).style_view() == old(el).style_view(),
            final(el).handler() == old(el).handler(),
            final(el).in_document() == old(el).in_document(),
    {
        el.add_unique_classes(&self.enter_from)
    }

    /// Adds the enter classes that `el` lacks, and returns them.
    pub fn add_enter(&self, el: &mut ElementModel) -> (added: Vec<String>)
        requires
            self.wf(),
            old(el).wf(),
        ensures
            final(el).wf(),
            views(added@) == added_tokens(old(el).classes_view(), self.enter_view()),
            final(el).classes_view() == old(el).classes_view() + views(added@),
            final(el).style_view() == old(el).style_view(),
            final(el).handler() == old(el).handler(),
            final(el).in_document() == old(el).in_document(),
    {
        el.add_unique_classes(&self.enter)
    }

    /// Adds the move classes that `el` lacks, and returns them.
    pub fn add_move(&self, el: &mut ElementModel) -> (added: Vec<String>)
        requires
            self.wf(),
            old(el).wf(),
        ensures
            final(el).wf(),
            views(added@) == added_tokens(old(el).classes_view(), self.move_view()),
            final(el).classes_view() == old(el).classes_view() + views(added@),
            final(el).style_view() == old(el).style_view(),
            final(el).handler() == old(el).handler(),
            final(el).in_document() == old(el).in_document(),
    {
        el.add_unique_classes(&self.move_classes)
    }

    /// Adds the leave classes that `el` lacks.
    pub fn add_leave(&self, el: &mut ElementModel)
        requires
            self.wf(),
            old(el).wf(),
        ensures
            final(el).wf(),
            final(el).classes_view() == old(el).classes_view() + added_tokens(
                old(el).classes_view(),
                self.leave_view(),
            ),
            final(el).style_view() == old(el).style_view(),
            final(el).handler() == old(el).handler(),
            final(el).in_document() == old(el).in_document(),
    {
        el.add_classes(&self.leave)
    }
}

} // verus!
