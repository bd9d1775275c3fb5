//! Class names as written in a component's props: a string of class names
//! separated by white space, split into the individual names.
use vstd::prelude::*;

verus! {

/// The Unicode `White_Space` property: the characters on which a string of
/// class names is split.
pub open spec fn is_white_space(c: char) -> bool {
    let u = c as u32;
    ||| 0x9 <= u <= 0xD
    ||| u == 0x20
    ||| u == 0x85
    ||| u == 0xA0
    ||| u == 0x1680
    ||| 0x2000 <= u <= 0x200A
    ||| u == 0x2028
    ||| u == 0x2029
    ||| u == 0x202F
    ||| u == 0x205F
    ||| u == 0x3000
}

/// The white space of the DOM standard (tab, line feed, form feed, carriage
/// return and space): what a token of an element's class list may not hold.
pub open spec fn is_ascii_white_space(c: char) -> bool {
    c == '\t' || c == '\n' || c == '\x0C' || c == '\r' || c == ' '
}

/// A class name that an element's class list accepts: not empty, and free of
/// the DOM's white space.
pub open spec fn is_valid_token(t: Seq<char>) -> bool {
    &&& t.len() > 0
    &&& forall|i: int| 0 <= i < t.len() ==> !is_ascii_white_space(#[trigger] t[i])
}

/// The views of a list of strings.
pub open spec fn views(v: Seq<String>) -> Seq<Seq<char>> {
    v.map_values(|s: String| s@)
}

/// Splitting, read from left to right: the words completed so far, and the
/// word being read.
pub open spec fn split_state(s: Seq<char>) -> (Seq<Seq<char>>, Seq<char>)
    decreases s.len(),
{
    if s.len() == 0 {
        (seq![], seq![])
    } else {
        let (words, cur) = split_state(s.drop_last());
        let c = s.last();
        if is_white_space(c) {
            if cur.len() > 0 {
                (words.push(cur), seq![])
            } else {
                (words, seq![])
            }
        } else {
            (words, cur.push(c))
        }
    }
}

/// The words of `s`: its maximal runs of characters that are not white space,
/// in order (what `str::split_whitespace` yields).
pub open spec fn split_whitespace(s: Seq<char>) -> Seq<Seq<char>> {
    let (words, cur) = split_state(s);
    if cur.len() > 0 {
        words.push(cur)
    } else {
        words
    }
}

/// The class names that an optional class string stands for: none when it is
/// absent, its words otherwise.
pub open spec fn class_names(raw: Option<Seq<char>>) -> Seq<Seq<char>> {
    match raw {
        Some(s) => split_whitespace(s),
        None => seq![],
    }
}

/// The characters of `s` that are not white space, in order.
pub open spec fn non_white(s: Seq<char>) -> Seq<char>
    decreases s.len(),
{
    if s.len() == 0 {
        s
    } else if is_white_space(s.last()) {
        non_white(s.drop_last())
    } else {
        non_white(s.drop_last()).push(s.last())
    }
}

/// The words of `ws` written one after the other.
pub open spec fn concat_all(ws: Seq<Seq<char>>) -> Seq<char>
    decreases ws.len(),
{
    if ws.len() == 0 {
        seq![]
    } else {
        concat_all(ws.drop_last()) + ws.last()
    }
}

/// A word of a split: not empty, and without white space.
pub open spec fn is_word(w: Seq<char>) -> bool {
    &&& w.len() > 0
    &&& forall|i: int| 0 <= i < w.len() ==> !is_white_space(#[trigger] w[i])
}

/// The DOM's white space is white space.
pub proof fn lemma_ascii_white_space(c: char)
    ensures
        is_ascii_white_space(c) ==> is_white_space(c),
{
    if is_ascii_white_space(c) {
        assert(('\t' as u32) == 9 && ('\n' as u32) == 10 && ('\x0C' as u32) == 12 && ('\r' as u32)
            == 13 && (' ' as u32) == 32);
    }
}

proof fn lemma_split_state(s: Seq<char>)
    ensures
        ({
            let (ws, cur) = split_state(s);
            &&& forall|i: int| 0 <= i < ws.len() ==> is_word(#[trigger] ws[i])
            &&& forall|i: int| 0 <= i < cur.len() ==> !is_white_space(#[trigger] cur[i])
            &&& concat_all(ws) + cur == non_white(s)
        }),
    decreases s.len(),
{
    if s.len() > 0 {
        lemma_split_state(s.drop_last());
        let (ws, cur) = split_state(s.drop_last());
        let c = s.last();
        if is_white_space(c) {
            if cur.len() > 0 {
                let ws2 = ws.push(cur);
                assert forall|i: int| 0 <= i < ws2.len() implies is_word(#[trigger] ws2[i]) by {
                    if i < ws.len() {
                        assert(ws2[i] == ws[i]);
                    }
                }
                assert(ws2.drop_last() == ws);
                assert(concat_all(ws2) + Seq::<char>::empty() == concat_all(ws2));
            } else {
                assert(concat_all(ws) + cur == concat_all(ws));
                assert(concat_all(ws) + Seq::<char>::empty() == concat_all(ws));
            }
        } else {
            let cur2 = cur.push(c);
            assert forall|i: int| 0 <= i < cur2.len() implies !is_white_space(#[trigger] cur2[i]) by {
                if i < cur.len() {
                    assert(cur2[i] == cur[i]);
                }
            }
            assert(concat_all(ws) + cur2 == (concat_all(ws) + cur).push(c));
        }
    }
}

/// The words of a split are non-empty and free of white space, and written
/// one after the other they give back the characters of the string that are
/// not white space.
pub proof fn lemma_split_whitespace(s: Seq<char>)
    ensures
        forall|i: int|
            0 <= i < split_whitespace(s).len() ==> is_word(#[trigger] split_whitespace(s)[i]),
        concat_all(split_whitespace(s)) == non_white(s),
{
    lemma_split_state(s);
    let (ws, cur) = split_state(s);
    if cur.len() > 0 {
        let ws2 = ws.push(cur);
        assert forall|i: int| 0 <= i < ws2.len() implies is_word(#[trigger] ws2[i]) by {
            if i < ws.len() {
                assert(ws2[i] == ws[i]);
            }
        }
        assert(ws2.drop_last() == ws);
    } else {
        assert(concat_all(ws) + cur == concat_all(ws));
    }
}

proof fn lemma_split_state_append(p: Seq<char>, b: Seq<char>)
    requires
        split_state(p).1.len() == 0,
    ensures
        split_state(p + b) == (split_state(p).0 + split_state(b).0, split_state(b).1),
    decreases b.len(),
{
    if b.len() == 0 {
        assert(p + b == p);
        assert(split_state(p).0 + Seq::<Seq<char>>::empty() == split_state(p).0);
        assert(split_state(p).1 == Seq::<char>::empty());
    } else {
        lemma_split_state_append(p, b.drop_last());
        assert((p + b).drop_last() == p + b.drop_last());
        assert((p + b).last() == b.last());
        let w = split_state(p).0;
        let (ws, cur) = split_state(b.drop_last());
        if is_white_space(b.last()) && cur.len() > 0 {
            assert(w + ws.push(cur) == (w + ws).push(cur));
        }
    }
}

proof fn lemma_split_state_white_end(a: Seq<char>, c: char)
    requires
        is_white_space(c),
    ensures
        split_state(a.push(c)) == (split_whitespace(a), Seq::<char>::empty()),
{
    assert(a.push(c).drop_last() == a);
}

/// Cutting a string at a white-space character splits its words there: the
/// words of `a`, the character `c`, then `b` are the words of `a` followed by
/// the words of `b`.
pub proof fn lemma_split_at_white(a: Seq<char>, c: char, b: Seq<char>)
    requires
        is_white_space(c),
    ensures
        split_whitespace(a + seq![c] + b) == split_whitespace(a) + split_whitespace(b),
{
    let p = a.push(c);
    assert(a + seq![c] == p);
    lemma_split_state_white_end(a, c);
    lemma_split_state_append(p, b);
    let (ws, cur) = split_state(b);
    if cur.len() > 0 {
        assert(split_whitespace(a) + ws.push(cur) == (split_whitespace(a) + ws).push(cur));
    }
}

proof fn lemma_split_state_word(w: Seq<char>)
    requires
        forall|i: int| 0 <= i < w.len() ==> !is_white_space(#[trigger] w[i]),
    ensures
        split_state(w) == (Seq::<Seq<char>>::empty(), w),
    decreases w.len(),
{
    if w.len() > 0 {
        let init = w.drop_last();
        assert forall|i: int| 0 <= i < init.len() implies !is_white_space(#[trigger] init[i]) by {
            assert(init[i] == w[i]);
        }
        lemma_split_state_word(init);
        assert(!is_white_space(w[w.len() - 1]));
        assert(init.push(w.last()) == w);
    }
}

/// A string without white space that is not empty is one word.
pub proof fn lemma_split_word(w: Seq<char>)
    requires
        w.len() > 0,
        forall|i: int| 0 <= i < w.len() ==> !is_white_space(#[trigger] w[i]),
    ensures
        split_whitespace(w) == seq![w],
{
    lemma_split_state_word(w);
    assert(Seq::<Seq<char>>::empty().push(w) == seq![w]);
}

proof fn lemma_split_state_blank(s: Seq<char>)
    requires
        forall|i: int| 0 <= i < s.len() ==> is_white_space(#[trigger] s[i]),
    ensures
        split_state(s) == (Seq::<Seq<char>>::empty(), Seq::<char>::empty()),
    decreases s.len(),
{
    if s.len() > 0 {
        let init = s.drop_last();
        assert forall|i: int| 0 <= i < init.len() implies is_white_space(#[trigger] init[i]) by {
            assert(init[i] == s[i]);
        }
        lemma_split_state_blank(init);
        assert(is_white_space(s[s.len() - 1]));
    }
}

/// A string of white space only has no word.
pub proof fn lemma_split_blank(s: Seq<char>)
    requires
        forall|i: int| 0 <= i < s.len() ==> is_white_space(#[trigger] s[i]),
    ensures
        split_whitespace(s) == Seq::<Seq<char>>::empty(),
{
    lemma_split_state_blank(s);
}

/// A word of a split is a valid class name.
pub proof fn lemma_word_is_valid_token(w: Seq<char>)
    requires
        is_word(w),
    ensures
        is_valid_token(w),
{
    assert forall|i: int| 0 <= i < w.len() implies !is_ascii_white_space(#[trigger] w[i]) by {
        lemma_ascii_white_space(w[i]);
    }
}

/// Whether `c` is white space (`char::is_whitespace`).
pub fn is_white_space_char(c: char) -> (r: bool)
    ensures
        r == is_white_space(c),
{
    let u: u32 = c as u32;
    (0x9 <= u && u <= 0xD) || u == 0x20 || u == 0x85 || u == 0xA0 || u == 0x1680 || (0x2000 <= u
        && u <= 0x200A) || u == 0x2028 || u == 0x2029 || u == 0x202F || u == 0x205F || u == 0x3000
}

/// The words of `s`, as `s.split_whitespace()` gives them.
pub fn split_words(s: &str) -> (words: Vec<String>)
    ensures
        views(words@) == split_whitespace(s@),
{
    let n: usize = s.unicode_len();
    let mut words: Vec<String> = Vec::new();
    let mut start: usize = 0;
    let mut i: usize = 0;
    while i < n
        invariant
            n == s@.len(),
            start <= i <= n,
            split_state(s@.take(i as int)) == (views(words@), s@.subrange(start as int, i as int)),
        decreases n - i,
    {
        let c = s.get_char(i);
        assert(s@.take(i + 1).drop_last() == s@.take(i as int));
        if is_white_space_char(c) {
            if start < i {
                let w = s.substring_char(start, i).to_owned();
                words.push(w);
                assert(views(words@) == views(words@.drop_last()).push(w@));
            }
            i = i + 1;
            start = i;
        } else {
            assert(s@.subrange(start as int, i + 1) == s@.subrange(start as int, i as int).push(c));
            i = i + 1;
        }
    }
    assert(s@.take(n as int) == s@);
    if start < n {
        let w = s.substring_char(start, n).to_owned();
        words.push(w);
        assert(views(words@) == views(words@.drop_last()).push(w@));
    }
    words
}

/// Whether `s` is a class name that an element's class list accepts.
pub fn is_valid_class_name(s: &str) -> (r: bool)
    ensures
        r == is_valid_token(s@),
{
    let n: usize = s.unicode_len();
    if n == 0 {
        return false;
    }
    let mut i: usize = 0;
    while i < n
        invariant
            n == s@.len(),
            i <= n,
            forall|j: int| 0 <= j < i ==> !is_ascii_white_space(#[trigger] s@[j]),
        decreases n - i,
    {
        let c = s.get_char(i);
        if c == '\t' || c == '\n' || c == '\x0C' || c == '\r' || c == ' ' {
            assert(is_ascii_white_space(s@[i as int]));
            return false;
        }
        i = i + 1;
    }
    true
}

/// The class names of an optional class prop: its words when it is set,
/// none when it is not.
pub fn parse_class_prop(raw: &Option<String>) -> (classes: Vec<String>)
    ensures
        views(classes@) == class_names(
            match raw {
                Some(s) => Some(s@),
                None => None,
            },
        ),
        forall|i: int| 0 <= i < classes.len() ==> is_valid_token(#[trigger] views(classes@)[i]),
{
    match raw {
        Some(s) => {
            let words = split_words(s.as_str());
            proof {
                lemma_split_whitespace(s@);
                assert forall|i: int| 0 <= i < words.len() implies is_valid_token(
                    #[trigger] views(words@)[i],
                ) by {
                    lemma_word_is_valid_token(split_whitespace(s@)[i]);
                }
            }
            words
        },
        None => {
            let v: Vec<String> = Vec::new();
            assert(views(v@) =~= Seq::<Seq<char>>::empty());
            v
        },
    }
}

} // verus!
