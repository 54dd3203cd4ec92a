//! The nesting of tags in the scene document, as a flat list of elements in
//! the order in which they open. Of each element the list holds where its
//! name and its text stand in the input, which element holds it, and where
//! the elements that it holds end.

use vstd::prelude::*;
use vstd::string::*;
use crate::text::{
    after_name, after_spaces, find_byte, find_pattern, holds, name_end, position_of,
    position_of_pattern, skip_spaces, span_is, starts_with, trim, trimmed, Span,
};

verus! {

/// One element of the document.
#[derive(Clone, Copy, PartialEq, Eq, Debug, Structural)]
pub struct Element {
    /// Where the name of the tag stands.
    pub tag: Span,
    /// Where the value of the attribute `class` stands, if the tag has one.
    pub class: Option<Span>,
    /// Where the value of the attribute `name` stands, if the tag has one.
    pub name: Option<Span>,
    /// The place of the element that holds this one.
    pub parent: Option<usize>,
    /// The place after the last element that this one holds; zero while the
    /// element is open.
    pub end: usize,
    /// Where the text stands that the element holds before the first
    /// element that it holds.
    pub text: Span,
}

/// What a tag is.
#[derive(Clone, Copy, PartialEq, Eq, Debug, Structural)]
pub enum TagKind {
    /// The tag opens an element.
    Open,
    /// The tag is an element that holds nothing.
    Empty,
    /// The tag closes an element.
    Close,
    /// A comment, a declaration, an instruction or a section of plain text: nothing to keep.
    Skip,
    /// No tag at all.
    Bad,
}

/// A tag of the document.
#[derive(Clone, Copy, PartialEq, Eq, Debug, Structural)]
pub struct Tag {
    pub kind: TagKind,
    pub name: Span,
    pub class: Option<Span>,
    pub label: Option<Span>,
    /// The place after the tag.
    pub next: usize,
}

/// What is wrong with the nesting of the tags.
#[derive(Clone, Copy, PartialEq, Eq, Debug, Structural)]
pub enum MarkupErrorKind {
    /// What begins with an angle bracket is no tag.
    Malformed,
    /// A tag closes what the innermost open element is not, or nothing at all.
    Mismatched,
    /// The input ends inside an element.
    Unclosed,
}

/// Where the nesting of the tags goes wrong.
#[derive(Clone, Copy, PartialEq, Eq, Debug, Structural)]
pub struct MarkupError {
    pub kind: MarkupErrorKind,
    /// The place in the input.
    pub offset: usize,
    /// The innermost element that is open there.
    pub inside: Option<usize>,
}

pub open spec fn bad_tag(at: int) -> Tag {
    Tag { kind: TagKind::Bad, name: Span { start: 0, end: 0 }, class: None, label: None, next: at as usize }
}

/// The tag whose name is read, from the place `p` after the name or after an
/// attribute on: its attributes up to the bracket that ends it.
pub open spec fn attributes_from(
    s: Seq<u8>,
    p: int,
    name: Span,
    class: Option<Span>,
    label: Option<Span>,
) -> Tag
    decreases s.len() - p,
{
    let start = skip_spaces(s, p);
    if p < 0 || start >= s.len() {
        bad_tag(p)
    } else if s[start] == 62 {
        Tag { kind: TagKind::Open, name, class, label, next: (start + 1) as usize }
    } else if starts_with(s, start, "/>".spec_bytes()) {
        Tag { kind: TagKind::Empty, name, class, label, next: (start + "/>".spec_bytes().len()) as usize }
    } else {
        let key_end = name_end(s, start);
        let q = skip_spaces(s, key_end);
        let quote = skip_spaces(s, q + 1);
        if key_end <= start || q >= s.len() || s[q] != 61 || quote >= s.len() || (s[quote] != 34 && s[quote]
            != 39) {
            bad_tag(p)
        } else {
            let value_end = find_byte(s, quote + 1, s[quote]);
            let key = Span { start: start as usize, end: key_end as usize };
            let value = Span { start: (quote + 1) as usize, end: value_end as usize };
            if value_end >= s.len() || value_end < p {
                bad_tag(p)
            } else {
                attributes_from(
                    s,
                    value_end + 1,
                    name,
                    if class is None && key.of(s) == "class".spec_bytes() {
                        Some(value)
                    } else {
                        class
                    },
                    if label is None && key.of(s) == "name".spec_bytes() {
                        Some(value)
                    } else {
                        label
                    },
                )
            }
        }
    }
}

/// What is skipped from the angle bracket at `lt` up to the first `close`
/// after the bytes `open`.
pub open spec fn skipped_to(s: Seq<u8>, lt: int, open: Seq<u8>, close: Seq<u8>) -> Tag {
    let p = find_pattern(s, lt + open.len(), close);
    if p >= s.len() {
        bad_tag(lt)
    } else {
        Tag {
            kind: TagKind::Skip,
            name: Span { start: 0, end: 0 },
            class: None,
            label: None,
            next: (p + close.len()) as usize,
        }
    }
}

/// The tag that begins with the angle bracket at `lt`.
pub open spec fn tag_at(s: Seq<u8>, lt: int) -> Tag {
    if starts_with(s, lt, "<!--".spec_bytes()) {
        skipped_to(s, lt, "<!--".spec_bytes(), "-->".spec_bytes())
    } else if starts_with(s, lt, "<![CDATA[".spec_bytes()) {
        skipped_to(s, lt, "<![CDATA[".spec_bytes(), "]]>".spec_bytes())
    } else if starts_with(s, lt, "<?".spec_bytes()) {
        skipped_to(s, lt, "<?".spec_bytes(), "?>".spec_bytes())
    } else if starts_with(s, lt, "<!".spec_bytes()) {
        skipped_to(s, lt, "<!".spec_bytes(), ">".spec_bytes())
    } else if starts_with(s, lt, "</".spec_bytes()) {
        let name_start = lt + "</".spec_bytes().len();
        let name_stop = name_end(s, name_start);
        let p = skip_spaces(s, name_stop);
        if name_stop <= name_start || p >= s.len() || s[p] != 62 {
            bad_tag(lt)
        } else {
            Tag {
                kind: TagKind::Close,
                name: Span { start: name_start as usize, end: name_stop as usize },
                class: None,
                label: None,
                next: (p + 1) as usize,
            }
        }
    } else {
        let name_stop = name_end(s, lt + 1);
        if name_stop <= lt + 1 {
            bad_tag(lt)
        } else {
            attributes_from(s, name_stop, Span { start: (lt + 1) as usize, end: name_stop as usize }, None, None)
        }
    }
}

/// The innermost open element.
pub open spec fn innermost(open: Seq<usize>) -> Option<usize> {
    if open.len() > 0 {
        Some(open.last())
    } else {
        None
    }
}

/// The elements with the text from `i` to `lt` noted as the text of the
/// innermost open element, if that holds no element and no text yet.
pub open spec fn with_text(s: Seq<u8>, elements: Seq<Element>, open: Seq<usize>, i: int, lt: int) -> Seq<
    Element,
> {
    if open.len() > 0 && open.last() + 1 == elements.len() && trimmed(
        s,
        elements[open.last() as int].text,
    ).start == trimmed(s, elements[open.last() as int].text).end {
        elements.update(
            open.last() as int,
            Element {
                text: Span { start: i as usize, end: lt as usize },
                ..elements[open.last() as int]
            },
        )
    } else {
        elements
    }
}

/// The elements of the input from place `i` on, after the elements read so
/// far, of which those at the places `open` are open.
pub open spec fn markup_from(s: Seq<u8>, i: int, elements: Seq<Element>, open: Seq<usize>) -> (
    Seq<Element>,
    Option<MarkupError>,
)
    decreases s.len() - i,
{
    let lt = find_byte(s, i, 60);
    let noted = with_text(s, elements, open, i, lt);
    let tag = tag_at(s, lt);
    if i < 0 || i >= s.len() || lt >= s.len() {
        if open.len() > 0 {
            (
                noted,
                Some(
                    MarkupError {
                        kind: MarkupErrorKind::Unclosed,
                        offset: s.len() as usize,
                        inside: innermost(open),
                    },
                ),
            )
        } else {
            (noted, None)
        }
    } else if tag.kind == TagKind::Bad || tag.next <= i || tag.next > s.len() {
        (
            noted,
            Some(
                MarkupError {
                    kind: MarkupErrorKind::Malformed,
                    offset: lt as usize,
                    inside: innermost(open),
                },
            ),
        )
    } else if tag.kind == TagKind::Skip {
        markup_from(s, tag.next as int, noted, open)
    } else if tag.kind == TagKind::Close {
        if open.len() == 0 || open.last() >= noted.len() || noted[open.last() as int].tag.of(s)
            != tag.name.of(s) {
            (
                noted,
                Some(
                    MarkupError {
                        kind: MarkupErrorKind::Mismatched,
                        offset: lt as usize,
                        inside: innermost(open),
                    },
                ),
            )
        } else {
            markup_from(
                s,
                tag.next as int,
                noted.update(
                    open.last() as int,
                    Element { end: noted.len() as usize, ..noted[open.last() as int] },
                ),
                open.drop_last(),
            )
        }
    } else {
        let element = Element {
            tag: tag.name,
            class: tag.class,
            name: tag.label,
            parent: innermost(open),
            end: if tag.kind == TagKind::Empty {
                (noted.len() + 1) as usize
            } else {
                0
            },
            text: Span { start: tag.next, end: tag.next },
        };
        markup_from(
            s,
            tag.next as int,
            noted.push(element),
            if tag.kind == TagKind::Empty {
                open
            } else {
                open.push(noted.len() as usize)
            },
        )
    }
}

/// The elements of the document, and where their nesting goes wrong, if it
/// does; the elements are then those read up to there.
pub open spec fn markup_of(s: Seq<u8>) -> (Seq<Element>, Option<MarkupError>) {
    markup_from(s, 0, Seq::empty(), Seq::empty())
}

/// There are no more elements than bytes before the place that is read:
/// every element takes a tag of its own.
pub proof fn lemma_markup_length(s: Seq<u8>, i: int, elements: Seq<Element>, open: Seq<usize>)
    requires
        0 <= i,
        elements.len() <= i || elements.len() <= s.len(),
        elements.len() <= i || i >= s.len(),
    ensures
        markup_from(s, i, elements, open).0.len() <= s.len() || markup_from(
            s,
            i,
            elements,
            open,
        ).0.len() == elements.len(),
        elements.len() <= s.len() ==> markup_from(s, i, elements, open).0.len() <= s.len(),
    decreases s.len() - i,
{
    let lt = find_byte(s, i, 60);
    let noted = with_text(s, elements, open, i, lt);
    let tag = tag_at(s, lt);
    assert(noted.len() == elements.len());
    if i >= s.len() || lt >= s.len() {
    } else if tag.kind == TagKind::Bad || tag.next <= i || tag.next > s.len() {
    } else if tag.kind == TagKind::Skip {
        lemma_markup_length(s, tag.next as int, noted, open);
    } else if tag.kind == TagKind::Close {
        if !(open.len() == 0 || open.last() >= noted.len() || noted[open.last() as int].tag.of(s)
            != tag.name.of(s)) {
            lemma_markup_length(
                s,
                tag.next as int,
                noted.update(
                    open.last() as int,
                    Element { end: noted.len() as usize, ..noted[open.last() as int] },
                ),
                open.drop_last(),
            );
        }
    } else {
        let element = Element {
            tag: tag.name,
            class: tag.class,
            name: tag.label,
            parent: innermost(open),
            end: if tag.kind == TagKind::Empty {
                (noted.len() + 1) as usize
            } else {
                0
            },
            text: Span { start: tag.next, end: tag.next },
        };
        lemma_markup_length(
            s,
            tag.next as int,
            noted.push(element),
            if tag.kind == TagKind::Empty {
                open
            } else {
                open.push(noted.len() as usize)
            },
        );
    }
}

fn bad(at: usize) -> (tag: Tag)
    ensures
        tag == bad_tag(at as int),
{
    Tag { kind: TagKind::Bad, name: Span { start: 0, end: 0 }, class: None, label: None, next: at }
}

fn read_attributes(s: &[u8], p: usize, name: Span) -> (tag: Tag)
    requires
        p <= s.len(),
    ensures
        tag == attributes_from(s@, p as int, name, None, None),
        tag.next <= s.len(),
{
    let mut class: Option<Span> = None;
    let mut label: Option<Span> = None;
    let mut at: usize = p;
    loop
        invariant
            p <= at <= s.len(),
            attributes_from(s@, p as int, name, None, None) == attributes_from(
                s@,
                at as int,
                name,
                class,
                label,
            ),
        decreases s.len() - at,
    {
        let start: usize = after_spaces(s, at);
        if start >= s.len() {
            return bad(at);
        }
        if s[start] == 62 {
            return Tag { kind: TagKind::Open, name, class, label, next: start + 1 };
        }
        let slash: &[u8] = "/>".as_bytes();
        if holds(s, start, slash) {
            return Tag { kind: TagKind::Empty, name, class, label, next: start + slash.len() };
        }
        let key_end: usize = after_name(s, start);
        let q: usize = after_spaces(s, key_end);
        if key_end <= start || q >= s.len() || s[q] != 61 {
            return bad(at);
        }
        let quote: usize = after_spaces(s, q + 1);
        if quote >= s.len() || (s[quote] != 34 && s[quote] != 39) {
            return bad(at);
        }
        let value_end: usize = position_of(s, quote + 1, s[quote]);
        if value_end >= s.len() {
            return bad(at);
        }
        let key: Span = Span { start: start, end: key_end };
        let value: Span = Span { start: quote + 1, end: value_end };
        if class.is_none() && span_is(s, key, "class".as_bytes()) {
            class = Some(value);
        }
        if label.is_none() && span_is(s, key, "name".as_bytes()) {
            label = Some(value);
        }
        at = value_end + 1;
    }
}

fn skip_to(s: &[u8], lt: usize, open: &[u8], close: &[u8]) -> (tag: Tag)
    requires
        starts_with(s@, lt as int, open@),
    ensures
        tag == skipped_to(s@, lt as int, open@, close@),
        tag.next <= s.len(),
{
    let skip: usize = open.len();
    let total: usize = s.len();
    assert(lt + skip <= total);
    let p: usize = position_of_pattern(s, lt + skip, close);
    if p >= s.len() {
        bad(lt)
    } else {
        Tag {
            kind: TagKind::Skip,
            name: Span { start: 0, end: 0 },
            class: None,
            label: None,
            next: p + close.len(),
        }
    }
}

/// Reads the tag that begins with the angle bracket at `lt`.
pub fn read_tag(s: &[u8], lt: usize) -> (tag: Tag)
    requires
        lt < s.len(),
    ensures
        tag == tag_at(s@, lt as int),
        tag.next <= s.len(),
{
    let comment: &[u8] = "<!--".as_bytes();
    let plain: &[u8] = "<![CDATA[".as_bytes();
    let instruction: &[u8] = "<?".as_bytes();
    let declaration: &[u8] = "<!".as_bytes();
    let closing: &[u8] = "</".as_bytes();
    if holds(s, lt, comment) {
        skip_to(s, lt, comment, "-->".as_bytes())
    } else if holds(s, lt, plain) {
        skip_to(s, lt, plain, "]]>".as_bytes())
    } else if holds(s, lt, instruction) {
        skip_to(s, lt, instruction, "?>".as_bytes())
    } else if holds(s, lt, declaration) {
        skip_to(s, lt, declaration, ">".as_bytes())
    } else if holds(s, lt, closing) {
        let name_start: usize = lt + closing.len();
        let name_stop: usize = after_name(s, name_start);
        let p: usize = after_spaces(s, name_stop);
        if name_stop <= name_start || p >= s.len() || s[p] != 62 {
            bad(lt)
        } else {
            Tag {
                kind: TagKind::Close,
                name: Span { start: name_start, end: name_stop },
                class: None,
                label: None,
                next: p + 1,
            }
        }
    } else {
        let name_stop: usize = after_name(s, lt + 1);
        if name_stop <= lt + 1 {
            bad(lt)
        } else {
            read_attributes(s, name_stop, Span { start: lt + 1, end: name_stop })
        }
    }
}

/// Reads the nesting of the tags of the document.
pub fn read_markup(s: &[u8]) -> (r: (Vec<Element>, Option<MarkupError>))
    ensures
        (r.0@, r.1) == markup_of(s@),
{
    let mut elements: Vec<Element> = Vec::new();
    let mut open: Vec<usize> = Vec::new();
    let mut i: usize = 0;
    loop
        invariant
            i <= s.len(),
            elements.len() <= i,
            forall|k: int| 0 <= k < open.len() ==> #[trigger] open[k] < elements.len(),
            markup_of(s@) == markup_from(s@, i as int, elements@, open@),
        decreases s.len() - i,
    {
        let lt: usize = position_of(s, i, 60);
        let inside: Option<usize> = if open.len() > 0 {
            Some(open[open.len() - 1])
        } else {
            None
        };
        if open.len() > 0 {
            let top: usize = open[open.len() - 1];
            if top + 1 == elements.len() {
                let old_text: Span = trim(s, elements[top].text);
                if old_text.start == old_text.end {
                    let e: Element = elements[top];
                    elements.set(top, Element { text: Span { start: i, end: lt }, ..e });
                }
            }
        }
        if i >= s.len() || lt >= s.len() {
            if open.len() > 0 {
                return (
                    elements,
                    Some(MarkupError { kind: MarkupErrorKind::Unclosed, offset: s.len(), inside }),
                );
            } else {
                return (elements, None);
            }
        }
        let tag: Tag = read_tag(s, lt);
        if tag.kind == TagKind::Bad || tag.next <= i {
            return (
                elements,
                Some(MarkupError { kind: MarkupErrorKind::Malformed, offset: lt, inside }),
            );
        }
        if tag.kind == TagKind::Skip {
            i = tag.next;
        } else if tag.kind == TagKind::Close {
            if open.len() == 0 {
                return (
                    elements,
                    Some(MarkupError { kind: MarkupErrorKind::Mismatched, offset: lt, inside }),
                );
            }
            let top: usize = open[open.len() - 1];
            let e: Element = elements[top];
            if !same_bytes(s, e.tag, tag.name) {
                return (
                    elements,
                    Some(MarkupError { kind: MarkupErrorKind::Mismatched, offset: lt, inside }),
                );
            }
            elements.set(top, Element { end: elements.len(), ..e });
            open.pop();
            i = tag.next;
        } else {
            let empty: bool = tag.kind == TagKind::Empty;
            let element: Element = Element {
                tag: tag.name,
                class: tag.class,
                name: tag.label,
                parent: inside,
                end: if empty {
                    elements.len() + 1
                } else {
                    0
                },
                text: Span { start: tag.next, end: tag.next },
            };
            if !empty {
                open.push(elements.len());
            }
            elements.push(element);
            i = tag.next;
        }
    }
}

/// Whether two stretches hold the same bytes.
pub fn same_bytes(s: &[u8], a: Span, b: Span) -> (r: bool)
    ensures
        r == (a.of(s@) == b.of(s@)),
{
    let a_ok: bool = a.start <= a.end && a.end <= s.len();
    let b_ok: bool = b.start <= b.end && b.end <= s.len();
    let a_len: usize = if a_ok { a.end - a.start } else { 0 };
    let b_len: usize = if b_ok { b.end - b.start } else { 0 };
    if a_len != b_len {
        assert(a.of(s@).len() != b.of(s@).len());
        return false;
    }
    let mut k: usize = 0;
    while k < a_len
        invariant
            k <= a_len,
            a_len == b_len,
            a_len > 0 ==> a_ok && b_ok,
            a_len == a.of(s@).len(),
            b_len == b.of(s@).len(),
            forall|j: int| 0 <= j < k ==> a.of(s@)[j] == b.of(s@)[j],
        decreases a_len - k,
    {
        if s[a.start + k] != s[b.start + k] {
            assert(a.of(s@)[k as int] != b.of(s@)[k as int]);
            return false;
        }
        k += 1;
    }
    assert(a.of(s@) =~= b.of(s@));
    true
}

} // verus!
