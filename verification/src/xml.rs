//! The markup dialect of the map-asset files.
//!
//! A document is a processing declaration, then one root element; an element
//! is a tag name, double-quoted attributes, and either a self-closing slash
//! or content of character data and child elements down to a matching close
//! tag.  Entities are not decoded and comments are not part of the dialect.
//!
//! The parse is specified by a functional interpreter over the character
//! sequence ([`spec_parse`]); the executable parser returns exactly its
//! result, as a flat vector of elements in document order, each with the
//! index of its parent and the end of its subtree.

use vstd::prelude::*;

verus! {

use crate::text::find_char_from;
use crate::text::chars_eq;
use crate::text::chars_eq_str;
use crate::text::string_from_chars;
use crate::text::subrange_chars;

// ---------------------------------------------------------------------------
// Character classes
// ---------------------------------------------------------------------------

/// Markup whitespace: space, tab, carriage return, line feed.
pub open spec fn is_ws_char(c: char) -> bool {
    c as u32 == 32 || c as u32 == 9 || c as u32 == 10 || c as u32 == 13
}

/// A character of a tag or attribute name: a letter, a digit, or one of
/// `_ - . :`.
pub open spec fn is_name_char(c: char) -> bool {
    let u = c as u32;
    (48 <= u <= 57) || (65 <= u <= 90) || (97 <= u <= 122) || u == 95 || u == 45 || u == 46 || u
        == 58
}

/// Whether every character of `s` is markup whitespace.
pub open spec fn all_ws(s: Seq<char>) -> bool {
    forall|i: int| 0 <= i < s.len() ==> is_ws_char(s[i])
}

fn is_ws(c: char) -> (r: bool)
    ensures
        r == is_ws_char(c),
{
    let u = c as u32;
    u == 32 || u == 9 || u == 10 || u == 13
}

fn is_name(c: char) -> (r: bool)
    ensures
        r == is_name_char(c),
{
    let u = c as u32;
    (48 <= u && u <= 57) || (65 <= u && u <= 90) || (97 <= u && u <= 122) || u == 95 || u == 45
        || u == 46 || u == 58
}

/// The end of the whitespace run starting at `i`.
pub open spec fn ws_run_end(s: Seq<char>, i: int) -> int
    decreases s.len() - i,
{
    if i < 0 || i >= s.len() {
        s.len() as int
    } else if !is_ws_char(s[i]) {
        i
    } else {
        ws_run_end(s, i + 1)
    }
}

/// The end of the name-character run starting at `i`.
pub open spec fn name_run_end(s: Seq<char>, i: int) -> int
    decreases s.len() - i,
{
    if i < 0 || i >= s.len() {
        s.len() as int
    } else if !is_name_char(s[i]) {
        i
    } else {
        name_run_end(s, i + 1)
    }
}

/// The position just after the first `?>` at or after `i`, or `-1` when none
/// follows.
pub open spec fn decl_end(s: Seq<char>, i: int) -> int
    decreases s.len() - i,
{
    if i < 0 || i + 1 >= s.len() {
        -1
    } else if s[i] == '?' && s[i + 1] == '>' {
        i + 2
    } else {
        decl_end(s, i + 1)
    }
}

// ---------------------------------------------------------------------------
// Document structure
// ---------------------------------------------------------------------------

/// The mathematical image of an [`Attribute`].
#[verifier::ext_equal]
pub ghost struct SpecAttr {
    pub name: Seq<char>,
    pub value: Seq<char>,
}

/// The mathematical image of an [`Element`].
#[verifier::ext_equal]
pub ghost struct SpecElem {
    pub tag: Seq<char>,
    pub attrs: Seq<SpecAttr>,
    pub text: Seq<char>,
    pub parent: int,
    pub subtree_end: int,
}

/// One attribute of an element.
#[derive(Debug)]
pub struct Attribute {
    pub name: Vec<char>,
    pub value: Vec<char>,
}

impl View for Attribute {
    type V = SpecAttr;

    open spec fn view(&self) -> SpecAttr {
        SpecAttr { name: self.name@, value: self.value@ }
    }
}

/// One element of a parsed document.  `parent` is the index of the enclosing
/// element (the root is its own parent); `subtree_end` is the index just past
/// the last element of this element's subtree; `text` is the character data
/// standing directly inside the element.
#[derive(Debug)]
pub struct Element {
    pub tag: Vec<char>,
    pub attrs: Vec<Attribute>,
    pub text: Vec<char>,
    pub parent: usize,
    pub subtree_end: usize,
}

/// The view of an attribute list.
pub open spec fn attrs_view(a: Seq<Attribute>) -> Seq<SpecAttr> {
    a.map_values(|x: Attribute| x@)
}

impl View for Element {
    type V = SpecElem;

    open spec fn view(&self) -> SpecElem {
        SpecElem {
            tag: self.tag@,
            attrs: attrs_view(self.attrs@),
            text: self.text@,
            parent: self.parent as int,
            subtree_end: self.subtree_end as int,
        }
    }
}

/// The view of an element list.
pub open spec fn elems_view(e: Seq<Element>) -> Seq<SpecElem> {
    e.map_values(|x: Element| x@)
}

/// A parsed document: its elements in document order, the root at index
/// zero.
#[derive(Debug)]
pub struct Document {
    pub elems: Vec<Element>,
}

impl View for Document {
    type V = Seq<SpecElem>;

    open spec fn view(&self) -> Seq<SpecElem> {
        elems_view(self.elems@)
    }
}

// ---------------------------------------------------------------------------
// Tokens
// ---------------------------------------------------------------------------

/// One token of the markup stream.
pub ghost enum SpecTok {
    /// An opening tag; `closed` when it closes itself.
    Open { tag: Seq<char>, attrs: Seq<SpecAttr>, closed: bool },
    /// A closing tag.
    Close { tag: Seq<char> },
    /// A run of character data.
    Text { body: Seq<char> },
    /// A processing declaration, skipped.
    Skip,
}

pub enum Token {
    Open { tag: Vec<char>, attrs: Vec<Attribute>, closed: bool },
    Close { tag: Vec<char> },
    Text { body: Vec<char> },
    Skip,
}

impl View for Token {
    type V = SpecTok;

    open spec fn view(&self) -> SpecTok {
        match self {
            Token::Open { tag, attrs, closed } => SpecTok::Open {
                tag: tag@,
                attrs: attrs_view(attrs@),
                closed: *closed,
            },
            Token::Close { tag } => SpecTok::Close { tag: tag@ },
            Token::Text { body } => SpecTok::Text { body: body@ },
            Token::Skip => SpecTok::Skip,
        }
    }
}

/// The attribute list of an opening tag, from position `i` on, folded onto
/// `acc`; yields the finished token and the position after the tag.
pub open spec fn spec_attrs(s: Seq<char>, i: int, tag: Seq<char>, acc: Seq<SpecAttr>) -> Option<
    (SpecTok, int),
>
    decreases s.len() - i,
{
    if !(0 <= i <= s.len()) {
        None
    } else {
        let k = ws_run_end(s, i);
        if k >= s.len() {
            None
        } else if s[k] == '>' {
            Some((SpecTok::Open { tag, attrs: acc, closed: false }, k + 1))
        } else if s[k] == '/' {
            if k + 1 < s.len() && s[k + 1] == '>' {
                Some((SpecTok::Open { tag, attrs: acc, closed: true }, k + 2))
            } else {
                None
            }
        } else if k > i && is_name_char(s[k]) {
            let ne = name_run_end(s, k);
            let eq = ws_run_end(s, ne);
            if eq < s.len() && s[eq] == '=' {
                let v0 = ws_run_end(s, eq + 1);
                if v0 < s.len() && s[v0] == '"' {
                    let vend = find_char_from(s, v0 + 1, '"');
                    if vend < s.len() && i < vend + 1 <= s.len() {
                        spec_attrs(
                            s,
                            vend + 1,
                            tag,
                            acc.push(SpecAttr { name: s.subrange(k, ne), value: s.subrange(v0 + 1, vend) }),
                        )
                    } else {
                        None
                    }
                } else {
                    None
                }
            } else {
                None
            }
        } else {
            None
        }
    }
}

/// The token starting at position `i` and the position just after it.
pub open spec fn spec_next_token(s: Seq<char>, i: int) -> Option<(SpecTok, int)> {
    if !(0 <= i < s.len()) {
        None
    } else if s[i] != '<' {
        let j = find_char_from(s, i, '<');
        Some((SpecTok::Text { body: s.subrange(i, j) }, j))
    } else if i + 1 >= s.len() {
        None
    } else if s[i + 1] == '?' {
        let j = decl_end(s, i + 2);
        if j >= 0 {
            Some((SpecTok::Skip, j))
        } else {
            None
        }
    } else if s[i + 1] == '/' {
        let ne = name_run_end(s, i + 2);
        if ne == i + 2 {
            None
        } else {
            let k = ws_run_end(s, ne);
            if k < s.len() && s[k] == '>' {
                Some((SpecTok::Close { tag: s.subrange(i + 2, ne) }, k + 1))
            } else {
                None
            }
        }
    } else {
        let ne = name_run_end(s, i + 1);
        if ne == i + 1 {
            None
        } else {
            spec_attrs(s, ne, s.subrange(i + 1, ne), Seq::<SpecAttr>::empty())
        }
    }
}

// ---------------------------------------------------------------------------
// The builder
// ---------------------------------------------------------------------------

/// The state of the tree builder: the elements made so far, the stack of
/// open element indexes, and whether a root element has been opened.
#[verifier::ext_equal]
pub ghost struct BuildState {
    pub elems: Seq<SpecElem>,
    pub stack: Seq<int>,
    pub root_done: bool,
}

/// One builder step.  Character data outside the root must be whitespace;
/// inside an element it extends that element's text.  An opening tag makes a
/// new element under the innermost open one; a second root is refused.  A
/// closing tag must match the innermost open element and seals its subtree.
pub open spec fn spec_step(st: BuildState, tok: SpecTok) -> Option<BuildState> {
    match tok {
        SpecTok::Skip => Some(st),
        SpecTok::Text { body } => {
            if st.stack.len() == 0 {
                if all_ws(body) {
                    Some(st)
                } else {
                    None
                }
            } else {
                let top = st.stack.last();
                if 0 <= top < st.elems.len() {
                    let e = st.elems[top];
                    Some(
                        BuildState {
                            elems: st.elems.update(top, SpecElem { text: e.text + body, ..e }),
                            ..st
                        },
                    )
                } else {
                    None
                }
            }
        },
        SpecTok::Open { tag, attrs, closed } => {
            if st.stack.len() == 0 && st.root_done {
                None
            } else {
                let idx = st.elems.len() as int;
                let parent = if st.stack.len() == 0 {
                    idx
                } else {
                    st.stack.last()
                };
                let e = SpecElem { tag, attrs, text: Seq::<char>::empty(), parent, subtree_end: idx + 1 };
                Some(
                    BuildState {
                        elems: st.elems.push(e),
                        stack: if closed {
                            st.stack
                        } else {
                            st.stack.push(idx)
                        },
                        root_done: st.root_done || st.stack.len() == 0,
                    },
                )
            }
        },
        SpecTok::Close { tag } => {
            if st.stack.len() == 0 {
                None
            } else {
                let top = st.stack.last();
                if 0 <= top < st.elems.len() && st.elems[top].tag == tag {
                    let e = st.elems[top];
                    Some(
                        BuildState {
                            elems: st.elems.update(
                                top,
                                SpecElem { subtree_end: st.elems.len() as int, ..e },
                            ),
                            stack: st.stack.drop_last(),
                            root_done: st.root_done,
                        },
                    )
                } else {
                    None
                }
            }
        },
    }
}

/// Runs the tokenizer and builder from position `i` in state `st`.  At the
/// end of the input the parse succeeds exactly when the root element was
/// opened and every element is closed.
pub open spec fn spec_run(s: Seq<char>, i: int, st: BuildState) -> Option<Seq<SpecElem>>
    decreases s.len() - i,
{
    if !(0 <= i <= s.len()) {
        None
    } else if i == s.len() {
        if st.stack.len() == 0 && st.root_done {
            Some(st.elems)
        } else {
            None
        }
    } else {
        match spec_next_token(s, i) {
            None => None,
            Some((tok, j)) => if j <= i || j > s.len() {
                None
            } else {
                match spec_step(st, tok) {
                    None => None,
                    Some(st2) => spec_run(s, j, st2),
                }
            },
        }
    }
}

/// The initial builder state.
pub open spec fn spec_init_state() -> BuildState {
    BuildState { elems: Seq::<SpecElem>::empty(), stack: Seq::<int>::empty(), root_done: false }
}

/// The parse of a whole character sequence: the elements of the document in
/// document order, or nothing when the input is not a well-formed document
/// of the dialect.
pub open spec fn spec_parse(s: Seq<char>) -> Option<Seq<SpecElem>> {
    spec_run(s, 0, spec_init_state())
}

// ---------------------------------------------------------------------------
// The executable scanner
// ---------------------------------------------------------------------------

fn scan_ws(v: &Vec<char>, i: usize) -> (k: usize)
    requires
        i <= v@.len(),
    ensures
        i <= k <= v@.len(),
        k == ws_run_end(v@, i as int),
{
    let mut k: usize = i;
    while k < v.len() && is_ws(v[k])
        invariant
            i <= k <= v@.len(),
            ws_run_end(v@, i as int) == ws_run_end(v@, k as int),
        decreases v@.len() - k,
    {
        k = k + 1;
    }
    k
}

fn scan_name(v: &Vec<char>, i: usize) -> (k: usize)
    requires
        i <= v@.len(),
    ensures
        i <= k <= v@.len(),
        k == name_run_end(v@, i as int),
{
    let mut k: usize = i;
    while k < v.len() && is_name(v[k])
        invariant
            i <= k <= v@.len(),
            name_run_end(v@, i as int) == name_run_end(v@, k as int),
        decreases v@.len() - k,
    {
        k = k + 1;
    }
    k
}

fn scan_char(v: &Vec<char>, i: usize, c: char) -> (k: usize)
    requires
        i <= v@.len(),
    ensures
        i <= k <= v@.len(),
        k == find_char_from(v@, i as int, c),
{
    let mut k: usize = i;
    while k < v.len() && v[k] != c
        invariant
            i <= k <= v@.len(),
            find_char_from(v@, i as int, c) == find_char_from(v@, k as int, c),
        decreases v@.len() - k,
    {
        k = k + 1;
    }
    k
}

fn scan_decl_end(v: &Vec<char>, i: usize) -> (r: Option<usize>)
    requires
        i <= v@.len(),
    ensures
        match r {
            Some(k) => i < k <= v@.len() && decl_end(v@, i as int) == k as int,
            None => decl_end(v@, i as int) == -1,
        },
{
    let n = v.len();
    let mut k: usize = i;
    loop
        invariant
            i <= k <= v@.len(),
            n == v@.len(),
            decl_end(v@, i as int) == decl_end(v@, k as int),
        decreases v@.len() - k,
    {
        if n - k <= 1 {
            return None;
        }
        if v[k] == '?' && v[k + 1] == '>' {
            return Some(k + 2);
        }
        k = k + 1;
    }
}

// ---------------------------------------------------------------------------
// The executable tokenizer
// ---------------------------------------------------------------------------

#[verifier::loop_isolation(false)]
fn next_token(v: &Vec<char>, i: usize) -> (r: Option<(Token, usize)>)
    requires
        i < v@.len(),
    ensures
        match r {
            Some(t) => spec_next_token(v@, i as int) == Some((t.0@, t.1 as int)) && i < t.1
                <= v@.len(),
            None => spec_next_token(v@, i as int) is None,
        },
{
    let ghost s = v@;
    let n = v.len();
    if v[i] != '<' {
        let j = scan_char(v, i, '<');
        proof {
            crate::text::lemma_find_char_from(s, i as int, '<');
            assert(j > i) by {
                assert(s[i as int] != '<');
            }
        }
        let body = subrange_chars(v, i, j);
        return Some((Token::Text { body }, j));
    }
    if i + 1 >= n {
        return None;
    }
    if v[i + 1] == '?' {
        match scan_decl_end(v, i + 2) {
            Some(j) => {
                return Some((Token::Skip, j));
            },
            None => {
                return None;
            },
        }
    }
    if v[i + 1] == '/' {
        let ne = scan_name(v, i + 2);
        if ne == i + 2 {
            return None;
        }
        let k = scan_ws(v, ne);
        if k < v.len() && v[k] == '>' {
            let tag = subrange_chars(v, i + 2, ne);
            return Some((Token::Close { tag }, k + 1));
        }
        return None;
    }
    let ne = scan_name(v, i + 1);
    if ne == i + 1 {
        return None;
    }
    let tag = subrange_chars(v, i + 1, ne);
    let ghost goal = spec_attrs(s, ne as int, s.subrange(i + 1, ne as int), Seq::<SpecAttr>::empty());
    let mut attrs: Vec<Attribute> = Vec::new();
    let mut p: usize = ne;
    proof {
        assert(attrs_view(attrs@) =~= Seq::<SpecAttr>::empty());
    }
    loop
        invariant
            ne <= p <= s.len(),
            s == v@,
            tag@ == s.subrange(i + 1, ne as int),
            goal == spec_attrs(s, ne as int, tag@, Seq::<SpecAttr>::empty()),
            goal == spec_attrs(s, p as int, tag@, attrs_view(attrs@)),
        decreases s.len() - p,
    {
        let k = scan_ws(v, p);
        if k >= v.len() {
            return None;
        }
        if v[k] == '>' {
            proof {
                assert(goal == Some(
                    (SpecTok::Open { tag: tag@, attrs: attrs_view(attrs@), closed: false }, k + 1),
                ));
            }
            return Some((Token::Open { tag, attrs, closed: false }, k + 1));
        }
        if v[k] == '/' {
            if k + 1 < v.len() && v[k + 1] == '>' {
                proof {
                    assert(goal == Some(
                        (SpecTok::Open { tag: tag@, attrs: attrs_view(attrs@), closed: true }, k + 2),
                    ));
                }
                return Some((Token::Open { tag, attrs, closed: true }, k + 2));
            }
            return None;
        }
        if !(k > p && is_name(v[k])) {
            return None;
        }
        let ane = scan_name(v, k);
        let eq = scan_ws(v, ane);
        if !(eq < v.len() && v[eq] == '=') {
            return None;
        }
        let v0 = scan_ws(v, eq + 1);
        if !(v0 < v.len() && v[v0] == '"') {
            return None;
        }
        let vend = scan_char(v, v0 + 1, '"');
        if !(vend < v.len()) {
            return None;
        }
        let name = subrange_chars(v, k, ane);
        let value = subrange_chars(v, v0 + 1, vend);
        let ghost before = attrs_view(attrs@);
        attrs.push(Attribute { name, value });
        proof {
            assert(attrs_view(attrs@) =~= before.push(
                SpecAttr { name: s.subrange(k as int, ane as int), value: s.subrange(v0 + 1, vend as int) },
            ));
        }
        p = vend + 1;
    }
}

// ---------------------------------------------------------------------------
// The executable parser
// ---------------------------------------------------------------------------

/// Whether every character of `v` is markup whitespace.
fn all_ws_chars(v: &Vec<char>) -> (r: bool)
    ensures
        r == all_ws(v@),
{
    let mut i: usize = 0;
    while i < v.len()
        invariant
            i <= v@.len(),
            forall|j: int| 0 <= j < i ==> is_ws_char(v@[j]),
        decreases v@.len() - i,
    {
        if !is_ws(v[i]) {
            return false;
        }
        i = i + 1;
    }
    true
}

/// Parses a whole character sequence as one document of the dialect.
pub fn parse_document(v: &Vec<char>) -> (r: Option<Document>)
    ensures
        match r {
            Some(d) => spec_parse(v@) == Some(d@),
            None => spec_parse(v@) is None,
        },
{
    let ghost s = v@;
    let mut elems: Vec<Element> = Vec::new();
    let mut stack: Vec<usize> = Vec::new();
    let mut root_done: bool = false;
    let mut i: usize = 0;
    proof {
        assert(elems_view(elems@) =~= Seq::<SpecElem>::empty());
        assert(stack@.map_values(|x: usize| x as int) =~= Seq::<int>::empty());
    }
    loop
        invariant
            i <= s.len(),
            s == v@,
            elems@.len() <= i,
            forall|t: int| 0 <= t < stack@.len() ==> stack@[t] < elems@.len(),
            spec_parse(s) == spec_run(
                s,
                i as int,
                BuildState {
                    elems: elems_view(elems@),
                    stack: stack@.map_values(|x: usize| x as int),
                    root_done,
                },
            ),
        decreases s.len() - i,
    {
        let ghost st = BuildState {
            elems: elems_view(elems@),
            stack: stack@.map_values(|x: usize| x as int),
            root_done,
        };
        if i == v.len() {
            if stack.len() == 0 && root_done {
                return Some(Document { elems });
            }
            return None;
        }
        let tok = match next_token(v, i) {
            Some(t) => t,
            None => {
                return None;
            },
        };
        let j = tok.1;
        match tok.0 {
            Token::Skip => {
                i = j;
            },
            Token::Text { body } => {
                if stack.len() == 0 {
                    if !all_ws_chars(&body) {
                        return None;
                    }
                    i = j;
                } else {
                    let top = stack[stack.len() - 1];
                    proof {
                        assert(st.stack.last() == top as int);
                        assert(st.elems[top as int] == elems@[top as int]@);
                    }
                    let mut e = elems.remove(top);
                    crate::text::extend_chars(&mut e.text, &body);
                    elems.insert(top, e);
                    proof {
                        assert(elems_view(elems@) =~= st.elems.update(
                            top as int,
                            SpecElem {
                                text: st.elems[top as int].text + body@,
                                ..st.elems[top as int]
                            },
                        ));
                    }
                    i = j;
                }
            },
            Token::Open { tag, attrs, closed } => {
                if stack.len() == 0 && root_done {
                    return None;
                }
                let idx = elems.len();
                let parent = if stack.len() == 0 {
                    idx
                } else {
                    stack[stack.len() - 1]
                };
                let was_empty = stack.len() == 0;
                let e = Element { tag, attrs, text: Vec::new(), parent, subtree_end: idx + 1 };
                let ghost elems_before = elems_view(elems@);
                elems.push(e);
                proof {
                    assert(elems_view(elems@) =~= elems_before.push(e@));
                }
                if !closed {
                    let ghost stack_before = stack@.map_values(|x: usize| x as int);
                    stack.push(idx);
                    proof {
                        assert(stack@.map_values(|x: usize| x as int) =~= stack_before.push(
                            idx as int,
                        ));
                    }
                }
                root_done = root_done || was_empty;
                i = j;
            },
            Token::Close { tag } => {
                if stack.len() == 0 {
                    return None;
                }
                let top = stack[stack.len() - 1];
                proof {
                    assert(st.stack.last() == top as int);
                    assert(st.elems[top as int] == elems@[top as int]@);
                }
                if !chars_eq(&elems[top].tag, &tag) {
                    return None;
                }
                let se = elems.len();
                let mut e = elems.remove(top);
                e.subtree_end = se;
                elems.insert(top, e);
                proof {
                    assert(elems_view(elems@) =~= st.elems.update(
                        top as int,
                        SpecElem { subtree_end: st.elems.len() as int, ..st.elems[top as int] },
                    ));
                }
                let ghost stack_before = stack@.map_values(|x: usize| x as int);
                stack.pop();
                proof {
                    assert(stack@.map_values(|x: usize| x as int) =~= stack_before.drop_last());
                }
                i = j;
            },
        }
    }
}

// ---------------------------------------------------------------------------
// Queries
// ---------------------------------------------------------------------------

/// The first element in `[i, end)` whose tag is `tag`.
pub open spec fn spec_find_from(d: Seq<SpecElem>, i: int, end: int, tag: Seq<char>) -> Option<int>
    decreases end - i,
{
    if i < 0 || i >= end || i >= d.len() {
        None
    } else if d[i].tag == tag {
        Some(i)
    } else {
        spec_find_from(d, i + 1, end, tag)
    }
}

/// The first element of the whole document whose tag is `tag`.
pub open spec fn spec_find_elem(d: Seq<SpecElem>, tag: Seq<char>) -> Option<int> {
    spec_find_from(d, 0, d.len() as int, tag)
}

/// The end of element `i`'s subtree, kept inside the document's bounds.
pub open spec fn spec_subtree_end(d: Seq<SpecElem>, i: int) -> int {
    let e = d[i].subtree_end;
    if e > d.len() {
        d.len() as int
    } else if e < i + 1 {
        i + 1
    } else {
        e
    }
}

/// The first element of `i`'s subtree, `i` itself included, whose tag is
/// `tag`.
pub open spec fn spec_find_in(d: Seq<SpecElem>, i: int, tag: Seq<char>) -> Option<int> {
    spec_find_from(d, i, spec_subtree_end(d, i), tag)
}

/// The indexes of the element children of `i`, in document order, starting
/// the scan at `j`.
pub open spec fn spec_children_from(d: Seq<SpecElem>, i: int, j: int, end: int) -> Seq<int>
    decreases end - j,
{
    if j < 0 || j >= end || j >= d.len() {
        Seq::<int>::empty()
    } else if d[j].parent == i {
        seq![j] + spec_children_from(d, i, j + 1, end)
    } else {
        spec_children_from(d, i, j + 1, end)
    }
}

/// The indexes of the element children of `i`, in document order.
pub open spec fn spec_children(d: Seq<SpecElem>, i: int) -> Seq<int> {
    spec_children_from(d, i, i + 1, spec_subtree_end(d, i))
}

/// The value of the first attribute of `attrs` named `name`.
pub open spec fn spec_attr_from(attrs: Seq<SpecAttr>, name: Seq<char>, j: int) -> Option<Seq<char>>
    decreases attrs.len() - j,
{
    if j < 0 || j >= attrs.len() {
        None
    } else if attrs[j].name == name {
        Some(attrs[j].value)
    } else {
        spec_attr_from(attrs, name, j + 1)
    }
}

/// The value of element `i`'s attribute `name`; an absent attribute is a
/// distinct outcome from an empty value.
pub open spec fn spec_attr_of(d: Seq<SpecElem>, i: int, name: Seq<char>) -> Option<Seq<char>> {
    spec_attr_from(d[i].attrs, name, 0)
}

impl Document {
    /// The number of elements.
    pub fn len(&self) -> (n: usize)
        ensures
            n == self@.len(),
    {
        self.elems.len()
    }

    /// The first element of the whole document, in document order, with the
    /// given tag.
    #[verifier::loop_isolation(false)]
    pub fn find(&self, tag: &str) -> (r: Option<usize>)
        ensures
            match r {
                Some(i) => i < self@.len() && spec_find_elem(self@, tag@) == Some(i as int),
                None => spec_find_elem(self@, tag@) is None,
            },
    {
        let ghost d = self@;
        let mut i: usize = 0;
        while i < self.elems.len()
            invariant
                i <= d.len(),
                d == self@,
                spec_find_from(d, 0, d.len() as int, tag@) == spec_find_from(
                    d,
                    i as int,
                    d.len() as int,
                    tag@,
                ),
            decreases d.len() - i,
        {
            proof {
                assert(d[i as int] == self.elems@[i as int]@);
            }
            if chars_eq_str(&self.elems[i].tag, tag) {
                return Some(i);
            }
            i = i + 1;
        }
        None
    }

    /// The first element of `i`'s subtree, `i` itself included, with the
    /// given tag.
    #[verifier::loop_isolation(false)]
    pub fn find_in(&self, i: usize, tag: &str) -> (r: Option<usize>)
        requires
            i < self@.len(),
        ensures
            match r {
                Some(k) => i <= k < self@.len() && spec_find_in(self@, i as int, tag@) == Some(
                    k as int,
                ),
                None => spec_find_in(self@, i as int, tag@) is None,
            },
    {
        let ghost d = self@;
        let ghost end = spec_subtree_end(d, i as int);
        let raw_end = self.elems[i].subtree_end;
        let bound = if raw_end > self.elems.len() {
            self.elems.len()
        } else if raw_end < i + 1 {
            i + 1
        } else {
            raw_end
        };
        proof {
            assert(d[i as int] == self.elems@[i as int]@);
            assert(bound as int == end);
        }
        let mut k: usize = i;
        while k < bound
            invariant
                i <= k <= end <= d.len(),
                d == self@,
                bound as int == end,
                spec_find_from(d, i as int, end, tag@) == spec_find_from(d, k as int, end, tag@),
            decreases end - k,
        {
            proof {
                assert(d[k as int] == self.elems@[k as int]@);
            }
            if chars_eq_str(&self.elems[k].tag, tag) {
                return Some(k);
            }
            k = k + 1;
        }
        None
    }

    /// The indexes of the element children of `i`, in document order.
    #[verifier::loop_isolation(false)]
    pub fn children_of(&self, i: usize) -> (r: Vec<usize>)
        requires
            i < self@.len(),
        ensures
            r@.map_values(|x: usize| x as int) == spec_children(self@, i as int),
            forall|t: int| 0 <= t < r@.len() ==> r@[t] < self@.len(),
    {
        let ghost d = self@;
        let ghost end = spec_subtree_end(d, i as int);
        let raw_end = self.elems[i].subtree_end;
        let bound = if raw_end > self.elems.len() {
            self.elems.len()
        } else if raw_end < i + 1 {
            i + 1
        } else {
            raw_end
        };
        proof {
            assert(d[i as int] == self.elems@[i as int]@);
            assert(bound as int == end);
        }
        let mut r: Vec<usize> = Vec::new();
        let mut j: usize = i + 1;
        proof {
            assert(r@.map_values(|x: usize| x as int) =~= Seq::<int>::empty());
        }
        while j < bound
            invariant
                i + 1 <= j <= end <= d.len() || (j == i + 1 && end <= j),
                d == self@,
                bound as int == end,
                forall|t: int| 0 <= t < r@.len() ==> r@[t] < d.len(),
                spec_children(d, i as int) == r@.map_values(|x: usize| x as int)
                    + spec_children_from(d, i as int, j as int, end),
            decreases end - j,
        {
            proof {
                assert(d[j as int] == self.elems@[j as int]@);
            }
            if self.elems[j].parent == i && j != i {
                let ghost before = r@.map_values(|x: usize| x as int);
                r.push(j);
                proof {
                    assert(r@.map_values(|x: usize| x as int) =~= before.push(j as int));
                    assert(before.push(j as int) + spec_children_from(d, i as int, j + 1, end)
                        =~= before + (seq![j as int] + spec_children_from(
                        d,
                        i as int,
                        j + 1,
                        end,
                    )));
                }
            } else {
                proof {
                    if j == i {
                        assert(false);
                    }
                }
            }
            j = j + 1;
        }
        proof {
            assert(spec_children_from(d, i as int, j as int, end) =~= Seq::<int>::empty());
            assert(r@.map_values(|x: usize| x as int) + Seq::<int>::empty() =~= r@.map_values(
                |x: usize| x as int,
            ));
        }
        r
    }

    /// The value of element `i`'s attribute `name`, or nothing when the
    /// element has no such attribute.
    #[verifier::loop_isolation(false)]
    pub fn attr(&self, i: usize, name: &str) -> (r: Option<String>)
        requires
            i < self@.len(),
        ensures
            match r {
                Some(s) => spec_attr_of(self@, i as int, name@) == Some(s@),
                None => spec_attr_of(self@, i as int, name@) is None,
            },
    {
        let ghost d = self@;
        proof {
            assert(d[i as int] == self.elems@[i as int]@);
        }
        let attrs = &self.elems[i].attrs;
        let ghost av = attrs_view(attrs@);
        let mut j: usize = 0;
        while j < attrs.len()
            invariant
                j <= av.len(),
                av == attrs_view(attrs@),
                av.len() == attrs@.len(),
                spec_attr_from(av, name@, 0) == spec_attr_from(av, name@, j as int),
            decreases av.len() - j,
        {
            proof {
                assert(av[j as int] == attrs@[j as int]@);
            }
            if chars_eq_str(&attrs[j].name, name) {
                return Some(string_from_chars(&attrs[j].value));
            }
            j = j + 1;
        }
        None
    }

    /// The character data standing directly inside element `i`.
    pub fn text_of(&self, i: usize) -> (r: String)
        requires
            i < self@.len(),
        ensures
            r@ == self@[i as int].text,
    {
        proof {
            assert(self@[i as int] == self.elems@[i as int]@);
        }
        string_from_chars(&self.elems[i].text)
    }

    /// The tag of element `i`.
    pub fn tag_of(&self, i: usize) -> (r: String)
        requires
            i < self@.len(),
        ensures
            r@ == self@[i as int].tag,
    {
        proof {
            assert(self@[i as int] == self.elems@[i as int]@);
        }
        string_from_chars(&self.elems[i].tag)
    }
}

} // verus!
