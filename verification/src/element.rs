//! An animated element as plain values: its class list, its inline style
//! declarations, what its transition-end handler will do, and whether it is
//! still in the document. `AnimatedEl` is what the animations do to it.
use vstd::prelude::*;
use crate::class_names::{is_valid_token, views};
use crate::class_list::{
    added_tokens, all_valid, contains_token, is_class_list, lemma_class_list_kept, remove_token,
    removed_tokens, with_token, without_token,
};

verus! {

/// One inline style declaration: a property, its value, and whether it was
/// set with the `important` priority.
pub struct StyleDeclaration {
    pub name: String,
    pub value: String,
    pub important: bool,
}

/// What an element's transition-end (and animation-end) handler does when it
/// fires.
pub enum TransitionEndAction {
    /// Take these classes off the element and drop the handler.
    RemoveClasses(Vec<String>),
    /// Take the element out of the document.
    RemoveElement,
}

/// An element of the document as the animations see it.
///
/// Its inline style is held as the declarations were set: the value under the
/// property name as given. The document's `style.setProperty` goes further:
/// it lower-cases standard property names, ignores a value that does not
/// parse (such as `NaNpx`) and expands shorthands such as `margin` into their
/// longhands. So after such a call the model and the element's own style
/// declaration may differ, though writing the model back gives the document
/// the same style.
pub struct ElementModel {
    classes: Vec<String>,
    style: Vec<StyleDeclaration>,
    on_transition_end: Option<TransitionEndAction>,
    attached: bool,
}

/// A handler that removes classes removes valid class names.
pub open spec fn handler_is_valid(h: Option<TransitionEndAction>) -> bool {
    h matches Some(TransitionEndAction::RemoveClasses(v)) ==> all_valid(views(v@))
}

/// The properties that a list of declarations sets: a later declaration of a
/// property overrides an earlier one.
pub open spec fn style_map(decls: Seq<StyleDeclaration>) -> Map<Seq<char>, (Seq<char>, bool)>
    decreases decls.len(),
{
    if decls.len() == 0 {
        Map::empty()
    } else {
        let d = decls.last();
        style_map(decls.drop_last()).insert(d.name@, (d.value@, d.important))
    }
}

/// `decls` without the declarations of `name`.
pub open spec fn without_property(decls: Seq<StyleDeclaration>, name: Seq<char>) -> Seq<
    StyleDeclaration,
>
    decreases decls.len(),
{
    if decls.len() == 0 {
        decls
    } else {
        let rest = without_property(decls.drop_last(), name);
        if decls.last().name@ == name {
            rest
        } else {
            rest.push(decls.last())
        }
    }
}

/// The style properties after `name` was set to `value` with the given
/// priority: an empty value removes the property. The value is kept as
/// written, under the name as written; the CSS parsing that `setProperty`
/// does in a document (lower-casing names, dropping values that do not parse,
/// expanding shorthands) is left to the document.
pub open spec fn style_after_set(
    style: Map<Seq<char>, (Seq<char>, bool)>,
    name: Seq<char>,
    value: Seq<char>,
    important: bool,
) -> Map<Seq<char>, (Seq<char>, bool)> {
    if value.len() == 0 {
        style.remove(name)
    } else {
        style.insert(name, (value, important))
    }
}

proof fn lemma_without_property(decls: Seq<StyleDeclaration>, name: Seq<char>)
    ensures
        style_map(without_property(decls, name)) == style_map(decls).remove(name),
    decreases decls.len(),
{
    if decls.len() > 0 {
        lemma_without_property(decls.drop_last(), name);
        let d = decls.last();
        let rest = without_property(decls.drop_last(), name);
        if d.name@ != name {
            assert(rest.push(d).drop_last() == rest);
            assert(style_map(rest.push(d)) =~= style_map(decls).remove(name));
        } else {
            assert(style_map(rest) =~= style_map(decls).remove(name));
        }
    }
}

/// What an element does to itself in an animation: the operations on its
/// class list and inline style that enter, move and leave transitions use.
pub trait AnimatedEl: Sized {
    /// The element is well formed.
    spec fn inv(&self) -> bool;

    /// The class names of the element, in order.
    spec fn class_list(&self) -> Seq<Seq<char>>;

    /// The inline style properties of the element, with value and priority.
    spec fn style_properties(&self) -> Map<Seq<char>, (Seq<char>, bool)>;

    /// Adds each of `classes` that the element does not have yet.
    fn add_classes(&mut self, classes: &Vec<String>)
        requires
            old(self).inv(),
            all_valid(views(classes@)),
        ensures
            final(self).inv(),
            final(self).class_list() == old(self).class_list() + added_tokens(
                old(self).class_list(),
                views(classes@),
            ),
            final(self).style_properties() == old(self).style_properties(),
    ;

    /// Adds each of `classes` that the element does not have yet, and returns
    /// the classes that were not previously present and were added.
    fn add_unique_classes(&mut self, classes: &Vec<String>) -> (added: Vec<String>)
        requires
            old(self).inv(),
            all_valid(views(classes@)),
        ensures
            final(self).inv(),
            views(added@) == added_tokens(old(self).class_list(), views(classes@)),
            final(self).class_list() == old(self).class_list() + views(added@),
            final(self).style_properties() == old(self).style_properties(),
    ;

    /// Removes each of `classes` from the element.
    fn remove_classes(&mut self, classes: &Vec<String>)
        requires
            old(self).inv(),
            all_valid(views(classes@)),
        ensures
            final(self).inv(),
            final(self).class_list() == removed_tokens(old(self).class_list(), views(classes@)),
            final(self).style_properties() == old(self).style_properties(),
    ;

    /// Sets an inline style property with the `important` priority; an empty
    /// value removes it.
    fn set_important_style_property(&mut self, property: &str, value: &str)
        requires
            old(self).inv(),
        ensures
            final(self).inv(),
            final(self).class_list() == old(self).class_list(),
            final(self).style_properties() == style_after_set(
                old(self).style_properties(),
                property@,
                value@,
                true,
            ),
            value@.len() > 0 ==> final(self).style_properties().contains_key(property@)
                && final(self).style_properties()[property@] == (value@, true),
            value@.len() == 0 ==> !final(self).style_properties().contains_key(property@),
    ;

    /// Makes transitions take no time: `transition-duration: 0s !important`.
    fn enable_instant_transition(&mut self)
        requires
            old(self).inv(),
        ensures
            final(self).inv(),
            final(self).class_list() == old(self).class_list(),
            final(self).style_properties() == old(self).style_properties().insert(
                "transition-duration"@,
                ("0s"@, true),
            ),
    ;

    /// Gives transitions their own duration again: removes the inline
    /// `transition-duration`.
    fn disable_instant_transition(&mut self)
        requires
            old(self).inv(),
        ensures
            final(self).inv(),
            final(self).class_list() == old(self).class_list(),
            final(self).style_properties() == old(self).style_properties().remove(
                "transition-duration"@,
            ),
    ;

    /// Removes the inline `transform`.
    fn clear_transform(&mut self)
        requires
            old(self).inv(),
        ensures
            final(self).inv(),
            final(self).class_list() == old(self).class_list(),
            final(self).style_properties() == old(self).style_properties().remove("transform"@),
    ;
}

impl ElementModel {
    /// The class names of the element, in order.
    pub closed spec fn classes_view(&self) -> Seq<Seq<char>> {
        views(self.classes@)
    }

    /// The inline style properties of the element, as they were set: each
    /// property name as given, with its value and priority. Unlike the
    /// document's style declaration, names are not lower-cased, values are
    /// not checked by a CSS parser, and shorthands are not expanded.
    pub closed spec fn style_view(&self) -> Map<Seq<char>, (Seq<char>, bool)> {
        style_map(self.style@)
    }

    /// What the transition-end handler of the element does, if it has one.
    pub closed spec fn handler(&self) -> Option<TransitionEndAction> {
        self.on_transition_end
    }

    /// Whether the element is in the document.
    pub closed spec fn in_document(&self) -> bool {
        self.attached
    }

    /// The element is well formed: its class list is, and a handler that
    /// removes classes removes valid class names.
    pub open spec fn wf(&self) -> bool {
        &&& is_class_list(self.classes_view())
        &&& handler_is_valid(self.handler())
    }

    /// An element in the document with no class, no inline style and no
    /// handler.
    pub fn new() -> (el: Self)
        ensures
            el.wf(),
            el.classes_view() == Seq::<Seq<char>>::empty(),
            el.style_view() == Map::<Seq<char>, (Seq<char>, bool)>::empty(),
            el.handler() is None,
            el.in_document(),
    {
        let el = ElementModel {
            classes: Vec::new(),
            style: Vec::new(),
            on_transition_end: None,
            attached: true,
        };
        assert(views(el.classes@) =~= Seq::<Seq<char>>::empty());
        el
    }

    /// The class names of the element, in order.
    pub fn classes(&self) -> (r: &Vec<String>)
        ensures
            views(r@) == self.classes_view(),
    {
        &self.classes
    }

    /// The inline style declarations of the element.
    pub fn style(&self) -> (r: &Vec<StyleDeclaration>)
        ensures
            style_map(r@) == self.style_view(),
    {
        &self.style
    }

    /// What the transition-end handler of the element does, if it has one.
    pub fn on_transition_end(&self) -> (r: &Option<TransitionEndAction>)
        ensures
            *r == self.handler(),
    {
        &self.on_transition_end
    }

    /// Whether the element is in the document.
    pub fn is_attached(&self) -> (r: bool)
        ensures
            r == self.in_document(),
    {
        self.attached
    }

    /// Whether the element has the class `class`.
    pub fn has_class(&self, class: &String) -> (r: bool)
        ensures
            r == self.classes_view().contains(class@),
    {
        contains_token(&self.classes, class)
    }

    /// The value and priority of the inline style property `name`, if set.
    pub fn style_property(&self, name: &str) -> (r: Option<(String, bool)>)
        ensures
            match r {
                Some((v, imp)) => self.style_view().contains_key(name@) && self.style_view()[name@]
                    == (v@, imp),
                None => !self.style_view().contains_key(name@),
            },
    {
        let key = name.to_owned();
        let mut i: usize = self.style.len();
        while i > 0
            invariant
                key@ == name@,
                i <= self.style.len(),
                forall|j: int| i <= j < self.style.len() ==> (#[trigger] self.style@[j]).name@ != name@,
            decreases i,
        {
            let d = &self.style[i - 1];
            if d.name == key {
                proof {
                    lemma_style_map_suffix(self.style@, i as int, name@);
                    assert(self.style@.take(i as int).drop_last() == self.style@.take(i - 1));
                }
                return Some((d.value.clone(), d.important));
            }
            i = i - 1;
        }
        proof {
            lemma_style_map_suffix(self.style@, 0, name@);
            assert(self.style@.take(0) =~= Seq::<StyleDeclaration>::empty());
        }
        None
    }

    /// Adds a class to the element (`classList.add`).
    pub fn add_class(&mut self, class: &String)
        requires
            old(self).wf(),
            is_valid_token(class@),
        ensures
            final(self).wf(),
            final(self).classes_view() == with_token(old(self).classes_view(), class@),
            final(self).style_view() == old(self).style_view(),
            final(self).handler() == old(self).handler(),
            final(self).in_document() == old(self).in_document(),
    {
        if !contains_token(&self.classes, class) {
            let c = class.clone();
            self.classes.push(c);
            proof {
                assert(views(self.classes@) == views(old(self).classes@).push(c@));
                let l = self.classes_view();
                assert forall|i: int, j: int|
                    0 <= i < l.len() && 0 <= j < l.len() && i != j implies l[i] != l[j] by {
                    if i < l.len() - 1 && j < l.len() - 1 {
                        assert(old(self).classes_view()[i] == l[i]);
                        assert(old(self).classes_view()[j] == l[j]);
                    } else if i == l.len() - 1 {
                        assert(old(self).classes_view()[j] == l[j]);
                    } else {
                        assert(old(self).classes_view()[i] == l[i]);
                    }
                }
                assert forall|i: int| 0 <= i < l.len() implies is_valid_token(#[trigger] l[i]) by {
                    if i < l.len() - 1 {
                        assert(old(self).classes_view()[i] == l[i]);
                    }
                }
            }
        }
    }

    /// Removes a class from the element (`classList.remove`).
    pub fn remove_class(&mut self, class: &String)
        requires
            old(self).wf(),
        ensures
            final(self).wf(),
            final(self).classes_view() == without_token(old(self).classes_view(), class@),
            final(self).style_view() == old(self).style_view(),
            final(self).handler() == old(self).handler(),
            final(self).in_document() == old(self).in_document(),
    {
        let r = remove_token(&self.classes, class);
        self.classes = r;
        proof {
            let one = seq![class@];
            lemma_class_list_kept(old(self).classes_view(), one);
            assert(one.drop_last() =~= Seq::<Seq<char>>::empty());
            assert(removed_tokens(old(self).classes_view(), one.drop_last()) == old(self).classes_view());
            assert(removed_tokens(old(self).classes_view(), one) == without_token(old(self).classes_view(), class@));
        }
    }

    /// Sets an inline style property with the given priority
    /// (`style.setProperty`); an empty value removes the property.
    pub fn set_style_property(&mut self, name: &str, value: &str, important: bool)
        requires
            old(self).wf(),
        ensures
            final(self).wf(),
            final(self).classes_view() == old(self).classes_view(),
            final(self).style_view() == style_after_set(
                old(self).style_view(),
                name@,
                value@,
                important,
            ),
            value@.len() > 0 ==> final(self).style_view().contains_key(name@)
                && final(self).style_view()[name@] == (value@, important),
            value@.len() == 0 ==> !final(self).style_view().contains_key(name@),
            final(self).handler() == old(self).handler(),
            final(self).in_document() == old(self).in_document(),
    {
        let key = name.to_owned();
        let mut kept: Vec<StyleDeclaration> = Vec::new();
        let mut i: usize = 0;
        while i < self.style.len()
            invariant
                key@ == name@,
                i <= self.style.len(),
                kept@ == without_property(self.style@.take(i as int), name@),
            decreases self.style.len() - i,
        {
            assert(self.style@.take(i + 1).drop_last() == self.style@.take(i as int));
            let d = &self.style[i];
            if d.name != key {
                kept.push(
                    StyleDeclaration {
                        name: d.name.clone(),
                        value: d.value.clone(),
                        important: d.important,
                    },
                );
            }
            i = i + 1;
        }
        assert(self.style@.take(self.style.len() as int) == self.style@);
        proof {
            lemma_without_property(self.style@, name@);
        }
        let ghost before = kept@;
        if !value.is_empty() {
            let d = StyleDeclaration { name: name.to_owned(), value: value.to_owned(), important };
            kept.push(d);
            assert(kept@.drop_last() == before);
            assert(style_map(kept@) == style_map(before).insert(name@, (value@, important)));
        }
        self.style = kept;
        assert(self.style_view() =~= style_after_set(
            old(self).style_view(),
            name@,
            value@,
            important,
        ));
    }

    /// Sets what the transition-end (and animation-end) handler of the
    /// element does.
    pub fn set_on_transition_end(&mut self, action: Option<TransitionEndAction>)
        requires
            old(self).wf(),
            handler_is_valid(action),
        ensures
            final(self).wf(),
            final(self).classes_view() == old(self).classes_view(),
            final(self).style_view() == old(self).style_view(),
            final(self).handler() == action,
            final(self).in_document() == old(self).in_document(),
    {
        self.on_transition_end = action;
    }

    /// Takes the element out of the document (`Element::remove`).
    pub fn remove(&mut self)
        requires
            old(self).wf(),
        ensures
            final(self).wf(),
            final(self).classes_view() == old(self).classes_view(),
            final(self).style_view() == old(self).style_view(),
            final(self).handler() == old(self).handler(),
            !final(self).in_document(),
    {
        self.attached = false;
    }
}

impl AnimatedEl for ElementModel {
    open spec fn inv(&self) -> bool {
        self.wf()
    }

    open spec fn class_list(&self) -> Seq<Seq<char>> {
        self.classes_view()
    }

    open spec fn style_properties(&self) -> Map<Seq<char>, (Seq<char>, bool)> {
        self.style_view()
    }

    fn add_classes(&mut self, classes: &Vec<String>)
        ensures
            final(self).handler() == old(self).handler(),
            final(self).in_document() == old(self).in_document(),
    {
        let ghost start = self.classes_view();
        let ghost ts = views(classes@);
        let mut i: usize = 0;
        while i < classes.len()
            invariant
                i <= classes.len(),
                ts == views(classes@),
                all_valid(ts),
                self.wf(),
                self.classes_view() == start + added_tokens(start, ts.take(i as int)),
                self.style_view() == old(self).style_view(),
                self.handler() == old(self).handler(),
                self.in_document() == old(self).in_document(),
            decreases classes.len() - i,
        {
            proof {
                assert(ts.take(i + 1).drop_last() == ts.take(i as int));
                assert(ts.take(i + 1).last() == classes@[i as int]@);
                assert(is_valid_token(ts[i as int]));
            }
            let ghost prev = added_tokens(start, ts.take(i as int));
            self.add_class(&classes[i]);
            proof {
                if !(start + prev).contains(classes@[i as int]@) {
                    assert(start + prev.push(classes@[i as int]@) == (start + prev).push(
                        classes@[i as int]@,
                    ));
                }
            }
            i = i + 1;
        }
        assert(ts.take(classes.len() as int) == ts);
    }

    fn add_unique_classes(&mut self, classes: &Vec<String>) -> (added: Vec<String>)
        ensures
            final(self).handler() == old(self).handler(),
            final(self).in_document() == old(self).in_document(),
    {
        let ghost start = self.classes_view();
        let ghost ts = views(classes@);
        let mut added: Vec<String> = Vec::new();
        let mut i: usize = 0;
        while i < classes.len()
            invariant
                i <= classes.len(),
                ts == views(classes@),
                all_valid(ts),
                self.wf(),
                views(added@) == added_tokens(start, ts.take(i as int)),
                self.classes_view() == start + views(added@),
                self.style_view() == old(self).style_view(),
                self.handler() == old(self).handler(),
                self.in_document() == old(self).in_document(),
            decreases classes.len() - i,
        {
            proof {
                assert(ts.take(i + 1).drop_last() == ts.take(i as int));
                assert(ts.take(i + 1).last() == classes@[i as int]@);
                assert(is_valid_token(ts[i as int]));
            }
            let class = &classes[i];
            if !self.has_class(class) {
                self.add_class(class);
                let c = class.clone();
                added.push(c);
                proof {
                    assert(views(added@) == views(added@.drop_last()).push(c@));
                }
            }
            i = i + 1;
        }
        assert(ts.take(classes.len() as int) == ts);
        added
    }

    fn remove_classes(&mut self, classes: &Vec<String>)
        ensures
            final(self).handler() == old(self).handler(),
            final(self).in_document() == old(self).in_document(),
    {
        let ghost start = self.classes_view();
        let ghost ts = views(classes@);
        let mut i: usize = 0;
        while i < classes.len()
            invariant
                i <= classes.len(),
                ts == views(classes@),
                self.wf(),
                self.classes_view() == removed_tokens(start, ts.take(i as int)),
                self.style_view() == old(self).style_view(),
                self.handler() == old(self).handler(),
                self.in_document() == old(self).in_document(),
            decreases classes.len() - i,
        {
            proof {
                assert(ts.take(i + 1).drop_last() == ts.take(i as int));
                assert(ts.take(i + 1).last() == classes@[i as int]@);
            }
            self.remove_class(&classes[i]);
            i = i + 1;
        }
        assert(ts.take(classes.len() as int) == ts);
    }

    fn set_important_style_property(&mut self, property: &str, value: &str)
        ensures
            final(self).handler() == old(self).handler(),
            final(self).in_document() == old(self).in_document(),
    {
        self.set_style_property(property, value, true);
    }

    fn enable_instant_transition(&mut self)
        ensures
            final(self).handler() == old(self).handler(),
            final(self).in_document() == old(self).in_document(),
    {
        proof {
            reveal_strlit("0s");
        }
        self.set_important_style_property("transition-duration", "0s");
    }

    fn disable_instant_transition(&mut self)
        ensures
            final(self).handler() == old(self).handler(),
            final(self).in_document() == old(self).in_document(),
    {
        proof {
            reveal_strlit("");
        }
        self.set_style_property("transition-duration", "", false);
    }

    fn clear_transform(&mut self)
        ensures
            final(self).handler() == old(self).handler(),
            final(self).in_document() == old(self).in_document(),
    {
        proof {
            reveal_strlit("");
        }
        self.set_style_property("transform", "", false);
    }
}

proof fn lemma_style_map_suffix(s: Seq<StyleDeclaration>, i: int, n: Seq<char>)
    requires
        0 <= i <= s.len(),
        forall|j: int| i <= j < s.len() ==> (#[trigger] s[j]).name@ != n,
    ensures
        style_map(s).contains_key(n) == style_map(s.take(i)).contains_key(n),
        style_map(s).contains_key(n) ==> style_map(s)[n] == style_map(s.take(i))[n],
    decreases s.len(),
{
    if i == s.len() {
        assert(s.take(i) == s);
    } else {
        let init = s.drop_last();
        assert(s[s.len() - 1].name@ != n);
        assert forall|j: int| i <= j < init.len() implies (#[trigger] init[j]).name@ != n by {
            assert(init[j] == s[j]);
        }
        lemma_style_map_suffix(init, i, n);
        assert(init.take(i) == s.take(i));
    }
}

} // verus!
