//! The enter, move and leave transitions of the list's children, and the
//! cleanups they leave pending until their transition ends.
use std::collections::HashMap;
use vstd::prelude::*;
use crate::class_names::views;
use crate::class_list::{added_tokens, all_valid, removed_tokens};
use crate::element::{AnimatedEl, ElementModel, TransitionEndAction, handler_is_valid};
use crate::untracked_classes::{UntrackedClasses, opt_view};

verus! {

broadcast use vstd::std_specs::hash::group_hash_axioms;

/// A pending cleanup: the element of a transition, and the classes to take
/// off it when the transition ends or is cut short.
pub struct Cleanup<H> {
    pub element: H,
    pub classes: Vec<String>,
}

/// The classes of a list (as the views of their names) once copied.
fn clone_classes(v: &Vec<String>) -> (r: Vec<String>)
    ensures
        views(r@) == views(v@),
{
    let mut r: Vec<String> = Vec::new();
    let mut i: usize = 0;
    while i < v.len()
        invariant
            i <= v.len(),
            views(r@) == views(v@).take(i as int),
        decreases v.len() - i,
    {
        let c = v[i].clone();
        let ghost prev = r@;
        r.push(c);
        assert(r@ == prev.push(c));
        assert(c@ == views(v@)[i as int]);
        assert(views(r@) == views(prev).push(c@));
        assert(views(v@).take(i + 1) == views(v@).take(i as int).push(views(v@)[i as int]));
        i = i + 1;
    }
    assert(views(v@).take(v.len() as int) == views(v@));
    r
}

/// Gives `el` a transition-end (and animation-end) handler that does
/// `action`.
pub fn set_cb_on_transition_end(el: &mut ElementModel, action: TransitionEndAction)
    requires
        old(el).wf(),
        handler_is_valid(Some(action)),
    ensures
        final(el).wf(),
        final(el).classes_view() == old(el).classes_view(),
        final(el).style_view() == old(el).style_view(),
        final(el).handler() == Some(action),
        final(el).in_document() == old(el).in_document(),
{
    el.set_on_transition_end(Some(action));
}

/// Runs a cleanup on its element: takes the classes off and drops the
/// element's handler. Running it once more (as when a transition has ended
/// and the pending cleanups are then cleared) changes nothing further.
pub fn run_cleanup(el: &mut ElementModel, classes: &Vec<String>)
    requires
        old(el).wf(),
        all_valid(views(classes@)),
    ensures
        final(el).wf(),
        final(el).classes_view() == removed_tokens(old(el).classes_view(), views(classes@)),
        removed_tokens(final(el).classes_view(), views(classes@)) == final(el).classes_view(),
        final(el).style_view() == old(el).style_view(),
        final(el).handler() is None,
        final(el).in_document() == old(el).in_document(),
{
    el.remove_classes(classes);
    el.set_on_transition_end(None);
    proof {
        crate::class_list::lemma_remove_twice(old(el).classes_view(), views(classes@));
    }
}

/// What happens to `el` when its transition (or animation) ends: its handler
/// runs, if it has one.
pub fn finish_transition(el: &mut ElementModel)
    requires
        old(el).wf(),
    ensures
        final(el).wf(),
        final(el).style_view() == old(el).style_view(),
        match old(el).handler() {
            Some(TransitionEndAction::RemoveClasses(v)) => {
                &&& final(el).classes_view() == removed_tokens(old(el).classes_view(), views(v@))
                &&& removed_tokens(final(el).classes_view(), views(v@)) == final(el).classes_view()
                &&& final(el).handler() is None
                &&& final(el).in_document() == old(el).in_document()
            },
            Some(TransitionEndAction::RemoveElement) => {
                &&& final(el).classes_view() == old(el).classes_view()
                &&& final(el).handler() == old(el).handler()
                &&& !final(el).in_document()
            },
            None => {
                &&& final(el).classes_view() == old(el).classes_view()
                &&& final(el).handler() is None
                &&& final(el).in_document() == old(el).in_document()
            },
        },
{
    let action: Option<Vec<String>> = match el.on_transition_end() {
        Some(TransitionEndAction::RemoveClasses(v)) => Some(clone_classes(v)),
        Some(TransitionEndAction::RemoveElement) => None,
        None => {
            return;
        },
    };
    match action {
        Some(v) => run_cleanup(el, &v),
        None => el.remove(),
    }
}

/// The class list of an element when its enter transition starts: with the
/// enter-from classes that were put on it for `key` taken off again.
pub open spec fn enter_base(
    per_key: Map<u64, Vec<String>>,
    key: u64,
    classes: Seq<Seq<char>>,
) -> Seq<Seq<char>> {
    if per_key.contains_key(key) {
        removed_tokens(classes, views(per_key[key]@))
    } else {
        classes
    }
}

/// Runs the enter, move and leave transitions of a list's children. `H` is
/// how a pending cleanup names its element.
pub struct Animator<H> {
    classes: UntrackedClasses,
    transition_end_cbs: Vec<Cleanup<H>>,
    enter_from_class_per_key: HashMap<u64, Vec<String>>,
}

impl<H> Animator<H> {
    /// The class props.
    pub closed spec fn class_props(&self) -> UntrackedClasses {
        self.classes
    }

    /// The cleanups of the transitions that were started, in order.
    pub closed spec fn pending(&self) -> Seq<Cleanup<H>> {
        self.transition_end_cbs@
    }

    /// For each key whose enter was prepared and not started yet, the
    /// enter-from classes that were put on its element.
    pub closed spec fn enter_from_per_key(&self) -> Map<u64, Vec<String>> {
        self.enter_from_class_per_key@
    }

    /// Every class name the animator holds is valid.
    pub open spec fn wf(&self) -> bool {
        &&& self.class_props().wf()
        &&& forall|k: u64|
            #[trigger] self.enter_from_per_key().contains_key(k) ==> all_valid(
                views(self.enter_from_per_key()[k]@),
            )
        &&& forall|i: int|
            0 <= i < self.pending().len() ==> all_valid(views((#[trigger] self.pending()[i]).classes@))
    }

    /// An animator with the classes of the four props, no pending cleanup and
    /// no prepared enter.
    pub fn new(
        raw_enter_from: &Option<String>,
        raw_enter: &Option<String>,
        raw_move: &Option<String>,
        raw_leave: &Option<String>,
    ) -> (r: Self)
        ensures
            r.wf(),
            r.class_props().enter_from_view() == crate::class_names::class_names(
                opt_view(*raw_enter_from),
            ),
            r.class_props().enter_view() == crate::class_names::class_names(opt_view(*raw_enter)),
            r.class_props().move_view() == crate::class_names::class_names(opt_view(*raw_move)),
            r.class_props().leave_view() == crate::class_names::class_names(opt_view(*raw_leave)),
            r.pending() == Seq::<Cleanup<H>>::empty(),
            r.enter_from_per_key() == Map::<u64, Vec<String>>::empty(),
    {
        Animator {
            classes: UntrackedClasses::new(raw_enter_from, raw_enter, raw_move, raw_leave),
            transition_end_cbs: Vec::new(),
            enter_from_class_per_key: HashMap::new(),
        }
    }

    /// Takes the classes of the four props anew (when the props change),
    /// keeping the pending cleanups and the prepared enters.
    pub fn update_classes(
        &mut self,
        raw_enter_from: &Option<String>,
        raw_enter: &Option<String>,
        raw_move: &Option<String>,
        raw_leave: &Option<String>,
    )
        requires
            old(self).wf(),
        ensures
            final(self).wf(),
            final(self).class_props().enter_from_view() == crate::class_names::class_names(
                opt_view(*raw_enter_from),
            ),
            final(self).class_props().enter_view() == crate::class_names::class_names(
                opt_view(*raw_enter),
            ),
            final(self).class_props().move_view() == crate::class_names::class_names(
                opt_view(*raw_move),
            ),
            final(self).class_props().leave_view() == crate::class_names::class_names(
                opt_view(*raw_leave),
            ),
            final(self).pending() == old(self).pending(),
            final(self).enter_from_per_key() == old(self).enter_from_per_key(),
    {
        self.classes = UntrackedClasses::new(raw_enter_from, raw_enter, raw_move, raw_leave);
        proof {
            assert(self.pending() == old(self).pending());
            assert(self.enter_from_per_key() == old(self).enter_from_per_key());
        }
    }

    /// Readies `el` to enter: its transitions take no time, and it gets the
    /// enter-from classes it lacks, which are remembered for `key`.
    pub fn prepare_enter(&mut self, key: u64, el: &mut ElementModel)
        requires
            old(self).wf(),
            old(el).wf(),
        ensures
            final(self).wf(),
            final(el).wf(),
            final(el).classes_view() == old(el).classes_view() + added_tokens(
                old(el).classes_view(),
                old(self).class_props().enter_from_view(),
            ),
            final(el).style_view() == old(el).style_view().insert(
                "transition-duration"@,
                ("0s"@, true),
            ),
            final(el).handler() == old(el).handler(),
            final(el).in_document() == old(el).in_document(),
            final(self).enter_from_per_key().dom() == old(self).enter_from_per_key().dom().insert(
                key,
            ),
            views(final(self).enter_from_per_key()[key]@) == added_tokens(
                old(el).classes_view(),
                old(self).class_props().enter_from_view(),
            ),
            forall|k: u64|
                k != key && #[trigger] old(self).enter_from_per_key().contains_key(k)
                    ==> final(self).enter_from_per_key()[k] == old(self).enter_from_per_key()[k],
            final(self).class_props() == old(self).class_props(),
            final(self).pending() == old(self).pending(),
    {
        el.enable_instant_transition();
        let added = self.classes.add_enter_from(el);
        proof {
            crate::class_list::lemma_added_tokens(
                old(el).classes_view(),
                self.classes.enter_from_view(),
            );
            assert forall|i: int| 0 <= i < views(added@).len() implies crate::class_names::is_valid_token(
                #[trigger] views(added@)[i],
            ) by {
                let x = views(added@)[i];
                let ts = self.classes.enter_from_view();
                let k = choose|k: int| 0 <= k < ts.len() && ts[k] == x;
            }
        }
        let ghost added_v = added;
        self.enter_from_class_per_key.insert(key, added);
        proof {
            assert(self.enter_from_per_key() == old(self).enter_from_per_key().insert(key, added_v));
            assert forall|k: u64| #[trigger] self.enter_from_per_key().contains_key(k) implies all_valid(
                views(self.enter_from_per_key()[k]@),
            ) by {
                if k != key {
                    assert(old(self).enter_from_per_key().contains_key(k));
                }
            }
            assert(self.class_props().wf());
            assert(self.pending() == old(self).pending());
        }
    }

    /// Adds a pending cleanup of `classes` for `element`, and gives `el` a
    /// handler that takes them off when its transition ends.
    fn push_class_cleanup_on_transition_end(
        &mut self,
        el: &mut ElementModel,
        element: H,
        classes_to_remove: Vec<String>,
    )
        requires
            old(self).wf(),
            old(el).wf(),
            all_valid(views(classes_to_remove@)),
        ensures
            final(self).wf(),
            final(el).wf(),
            final(el).classes_view() == old(el).classes_view(),
            final(el).style_view() == old(el).style_view(),
            final(el).handler() matches Some(TransitionEndAction::RemoveClasses(v)) && views(v@)
                == views(classes_to_remove@),
            final(el).in_document() == old(el).in_document(),
            final(self).pending() == old(self).pending().push(
                (Cleanup { element, classes: classes_to_remove }),
            ),
            final(self).class_props() == old(self).class_props(),
            final(self).enter_from_per_key() == old(self).enter_from_per_key(),
    {
        let for_handler = clone_classes(&classes_to_remove);
        set_cb_on_transition_end(el, TransitionEndAction::RemoveClasses(for_handler));
        let ghost c = Cleanup { element, classes: classes_to_remove };
        self.transition_end_cbs.push(Cleanup { element, classes: classes_to_remove });
        proof {
            assert(self.pending() == old(self).pending().push(c));
            assert(self.enter_from_per_key() == old(self).enter_from_per_key());
            assert forall|i: int|
                0 <= i < self.pending().len() implies all_valid(
                views((#[trigger] self.pending()[i]).classes@),
            ) by {
                if i < old(self).pending().len() {
                    assert(self.pending()[i] == old(self).pending()[i]);
                } else {
                    assert(self.pending()[i] == c);
                }
            }
        }
    }

    /// Starts the enter transition of `el`: takes off the enter-from classes
    /// remembered for `key`, gives its transitions their duration back, puts
    /// on the enter classes it lacks, and leaves a cleanup of those pending.
    pub fn start_enter(&mut self, key: u64, el: &mut ElementModel, element: H)
        requires
            old(self).wf(),
            old(el).wf(),
        ensures
            final(self).wf(),
            final(el).wf(),
            ({
                let base = enter_base(
                    old(self).enter_from_per_key(),
                    key,
                    old(el).classes_view(),
                );
                let added = added_tokens(base, old(self).class_props().enter_view());
                &&& final(el).classes_view() == base + added
                &&& final(el).handler() matches Some(TransitionEndAction::RemoveClasses(v))
                    && views(v@) == added
                &&& final(self).pending().len() == old(self).pending().len() + 1
                &&& final(self).pending().drop_last() == old(self).pending()
                &&& final(self).pending().last().element == element
                &&& views(final(self).pending().last().classes@) == added
            }),
            final(el).style_view() == old(el).style_view().remove("transition-duration"@),
            final(el).in_document() == old(el).in_document(),
            final(self).enter_from_per_key() == old(self).enter_from_per_key().remove(key),
            final(self).class_props() == old(self).class_props(),
    {
        let removed = self.enter_from_class_per_key.remove(&key);
        proof {
            assert(self.enter_from_per_key() == old(self).enter_from_per_key().remove(key));
            assert forall|k: u64| #[trigger] self.enter_from_per_key().contains_key(k) implies all_valid(
                views(self.enter_from_per_key()[k]@),
            ) by {
                assert(old(self).enter_from_per_key().contains_key(k));
            }
        }
        match removed {
            Some(classes_to_remove) => {
                proof {
                    assert(old(self).enter_from_per_key().contains_key(key));
                }
                el.remove_classes(&classes_to_remove);
            },
            None => {},
        }
        el.disable_instant_transition();
        let added = self.classes.add_enter(el);
        let ghost base = enter_base(old(self).enter_from_per_key(), key, old(el).classes_view());
        proof {
            crate::class_list::lemma_added_tokens(base, self.classes.enter_view());
            assert forall|i: int| 0 <= i < views(added@).len() implies crate::class_names::is_valid_token(
                #[trigger] views(added@)[i],
            ) by {
                let x = views(added@)[i];
                let ts = self.classes.enter_view();
                let k = choose|k: int| 0 <= k < ts.len() && ts[k] == x;
            }
        }
        proof {
            assert(self.class_props().wf());
            assert(self.pending() == old(self).pending());
            assert(self.enter_from_per_key() == old(self).enter_from_per_key().remove(key));
        }
        self.push_class_cleanup_on_transition_end(el, element, added);
        assert(self.pending().drop_last() == old(self).pending());
    }

    /// Starts the move transition of `el`: gives its transitions their
    /// duration back, drops its inline transform, puts on the move classes it
    /// lacks, and leaves a cleanup of those pending.
    pub fn start_move(&mut self, el: &mut ElementModel, element: H)
        requires
            old(self).wf(),
            old(el).wf(),
        ensures
            final(self).wf(),
            final(el).wf(),
            ({
                let added = added_tokens(old(el).classes_view(), old(self).class_props().move_view());
                &&& final(el).classes_view() == old(el).classes_view() + added
                &&& final(el).handler() matches Some(TransitionEndAction::RemoveClasses(v))
                    && views(v@) == added
                &&& final(self).pending().len() == old(self).pending().len() + 1
                &&& final(self).pending().drop_last() == old(self).pending()
                &&& final(self).pending().last().element == element
                &&& views(final(self).pending().last().classes@) == added
            }),
            final(el).style_view() == old(el).style_view().remove("transition-duration"@).remove(
                "transform"@,
            ),
            final(el).in_document() == old(el).in_document(),
            final(self).enter_from_per_key() == old(self).enter_from_per_key(),
            final(self).class_props() == old(self).class_props(),
    {
        el.disable_instant_transition();
        el.clear_transform();
        let added = self.classes.add_move(el);
        proof {
            crate::class_list::lemma_added_tokens(old(el).classes_view(), self.classes.move_view());
            assert forall|i: int| 0 <= i < views(added@).len() implies crate::class_names::is_valid_token(
                #[trigger] views(added@)[i],
            ) by {
                let x = views(added@)[i];
                let ts = self.classes.move_view();
                let k = choose|k: int| 0 <= k < ts.len() && ts[k] == x;
            }
        }
        self.push_class_cleanup_on_transition_end(el, element, added);
        assert(self.pending().drop_last() == old(self).pending());
    }

    /// Starts the leave transition of `el`: puts on the leave classes it
    /// lacks, gives its transitions their duration back, and makes it leave
    /// the document when its transition ends.
    pub fn start_leave(&self, el: &mut ElementModel)
        requires
            self.wf(),
            old(el).wf(),
        ensures
            final(el).wf(),
            final(el).classes_view() == old(el).classes_view() + added_tokens(
                old(el).classes_view(),
                self.class_props().leave_view(),
            ),
            final(el).style_view() == old(el).style_view().remove("transition-duration"@),
            final(el).handler() == Some(TransitionEndAction::RemoveElement),
            final(el).in_document() == old(el).in_document(),
    {
        self.classes.add_leave(el);
        el.disable_instant_transition();
        set_cb_on_transition_end(el, TransitionEndAction::RemoveElement);
    }

    /// Ends every pending transition at once: hands back the pending
    /// cleanups, in the order their transitions started, for each to be run
    /// on its element, and keeps none.
    pub fn clear_transitions(&mut self) -> (cleanups: Vec<Cleanup<H>>)
        requires
            old(self).wf(),
        ensures
            final(self).wf(),
            cleanups@ == old(self).pending(),
            forall|i: int|
                0 <= i < cleanups@.len() ==> all_valid(views((#[trigger] cleanups@[i]).classes@)),
            final(self).pending() == Seq::<Cleanup<H>>::empty(),
            final(self).class_props() == old(self).class_props(),
            final(self).enter_from_per_key() == old(self).enter_from_per_key(),
    {
        let mut cleanups: Vec<Cleanup<H>> = Vec::new();
        std::mem::swap(&mut cleanups, &mut self.transition_end_cbs);
        proof {
            assert(self.enter_from_per_key() == old(self).enter_from_per_key());
            assert(self.pending() =~= Seq::<Cleanup<H>>::empty());
        }
        cleanups
    }
}

} // verus!
