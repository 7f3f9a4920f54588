//! Reading theme and module descriptors.
//!
//! The XML reader yields a document as a sequence of events; the rules that pick the
//! declared parent theme or module name out of that sequence are verified here.

use vstd::prelude::*;

use crate::text::{trim_text, trimmed};
use crate::theme::{is_valid_code, parent_view, ThemeCode};
use crate::xml_reader::{next_event, open_cursor, xml_events};

verus! {

/// One event of an XML document. Tag names and attribute keys are the document's bytes.
#[derive(Debug)]
pub enum XmlEvent {
    /// An opening tag `<name ...>`, or a self-closing one `<name .../>`.
    Element {
        /// The tag's name.
        name: Vec<u8>,
        /// Its well-formed attributes in order: key, and value unescaped (`None` when the
        /// value cannot be unescaped).
        attributes: Vec<(Vec<u8>, Option<String>)>,
        /// Whether the tag closes itself.
        self_closing: bool,
    },
    /// A closing tag `</name>`.
    End {
        /// The tag's name.
        name: Vec<u8>,
    },
    /// Text content; `None` when it cannot be unescaped.
    Text {
        content: Option<String>,
    },
    /// The end of the document.
    Eof,
    /// Malformed XML.
    Malformed,
    /// Anything else: comments, declarations, processing instructions, CDATA.
    Other,
}

/// The bytes of `parent`.
pub open spec fn parent_tag() -> Seq<u8> {
    seq![112u8, 97u8, 114u8, 101u8, 110u8, 116u8]
}

/// The bytes of `module`.
pub open spec fn module_tag() -> Seq<u8> {
    seq![109u8, 111u8, 100u8, 117u8, 108u8, 101u8]
}

/// The bytes of `name`.
pub open spec fn name_key() -> Seq<u8> {
    seq![110u8, 97u8, 109u8, 101u8]
}

fn parent_tag_bytes() -> (r: Vec<u8>)
    ensures
        r@ == parent_tag(),
{
    vec![112u8, 97u8, 114u8, 101u8, 110u8, 116u8]
}

fn module_tag_bytes() -> (r: Vec<u8>)
    ensures
        r@ == module_tag(),
{
    vec![109u8, 111u8, 100u8, 117u8, 108u8, 101u8]
}

fn name_key_bytes() -> (r: Vec<u8>)
    ensures
        r@ == name_key(),
{
    vec![110u8, 97u8, 109u8, 101u8]
}

/// Whether two byte strings are equal.
fn bytes_eq(a: &Vec<u8>, b: &Vec<u8>) -> (r: bool)
    ensures
        r == (a@ == b@),
{
    if a.len() != b.len() {
        return false;
    }
    let mut i: usize = 0;
    while i < a.len()
        invariant
            a@.len() == b@.len(),
            i <= a@.len(),
            forall|j: int| 0 <= j < i ==> a@[j] == b@[j],
        decreases a@.len() - i,
    {
        if a[i] != b[i] {
            return false;
        }
        i = i + 1;
    }
    assert(a@ =~= b@);
    true
}

/// All events of the document `text`.
pub fn read_events(text: &str) -> (r: Vec<XmlEvent>)
    ensures
        r@ == xml_events(text@),
{
    let mut cursor = open_cursor(text);
    let mut out: Vec<XmlEvent> = Vec::new();
    loop
        invariant
            cursor.source() == text@,
            out@.len() == cursor.position(),
            cursor.position() == 0 || cursor.position() < xml_events(text@).len(),
            out@ == xml_events(text@).subrange(0, cursor.position() as int),
        decreases xml_events(text@).len() - cursor.position(),
    {
        let e = next_event(&mut cursor);
        let done = matches!(e, XmlEvent::Eof | XmlEvent::Malformed);
        out.push(e);
        assert(out@ =~= xml_events(text@).subrange(0, cursor.position() as int));
        if done {
            assert(out@ =~= xml_events(text@));
            return out;
        }
    }
}

/// `e` opens the element `tag` (a self-closing tag does not count).
pub open spec fn opens(e: XmlEvent, tag: Seq<u8>) -> bool {
    match e {
        XmlEvent::Element { name, self_closing, .. } => !self_closing && name@ == tag,
        _ => false,
    }
}

/// `e` closes the element `tag`.
pub open spec fn closes(e: XmlEvent, tag: Seq<u8>) -> bool {
    match e {
        XmlEvent::End { name } => name@ == tag,
        _ => false,
    }
}

/// The parent code that the text content of a `<parent>` element gives: the content
/// without surrounding whitespace, if it is a well-formed code.
pub open spec fn parent_from_text(content: Option<String>) -> Option<Seq<char>> {
    match content {
        Some(s) => if is_valid_code(trimmed(s@)) {
            Some(trimmed(s@))
        } else {
            None
        },
        None => None,
    }
}

/// The parent code declared by the events of a theme descriptor from position `i` on,
/// `in_parent` telling whether a `<parent>` element is open: the first text inside a
/// `<parent>` element decides; the end of the document or an error gives `None`.
pub open spec fn scan_parent(evs: Seq<XmlEvent>, i: int, in_parent: bool) -> Option<Seq<char>>
    decreases evs.len() - i,
{
    if i < 0 || i >= evs.len() {
        None
    } else if opens(evs[i], parent_tag()) {
        scan_parent(evs, i + 1, true)
    } else if in_parent && evs[i] is Text {
        match evs[i] {
            XmlEvent::Text { content } => parent_from_text(content),
            _ => None,
        }
    } else if closes(evs[i], parent_tag()) {
        scan_parent(evs, i + 1, false)
    } else if evs[i] is Eof || evs[i] is Malformed {
        None
    } else {
        scan_parent(evs, i + 1, in_parent)
    }
}

/// The events hold an error: the document is not well-formed XML.
pub open spec fn has_error(evs: Seq<XmlEvent>) -> bool {
    exists|i: int| 0 <= i < evs.len() && (#[trigger] evs[i]) is Malformed
}

/// The parent code that a theme descriptor's events declare: none for a malformed
/// document, otherwise what the scan from its first event finds.
pub open spec fn declared_parent(evs: Seq<XmlEvent>) -> Option<Seq<char>> {
    if has_error(evs) {
        None
    } else {
        scan_parent(evs, 0, false)
    }
}

/// Whether the events hold an error.
fn contains_error(events: &Vec<XmlEvent>) -> (r: bool)
    ensures
        r == has_error(events@),
{
    let mut i: usize = 0;
    while i < events.len()
        invariant
            i <= events@.len(),
            forall|j: int| 0 <= j < i ==> !((#[trigger] events@[j]) is Malformed),
        decreases events@.len() - i,
    {
        if matches!(events[i], XmlEvent::Malformed) {
            return true;
        }
        i = i + 1;
    }
    false
}

/// A malformed descriptor declares neither a parent theme nor a module name.
pub proof fn lemma_malformed_declares_nothing(evs: Seq<XmlEvent>)
    requires
        has_error(evs),
    ensures
        declared_parent(evs) == None::<Seq<char>>,
        declared_module(evs) == None::<Seq<char>>,
{
}

/// Events that neither open a `<parent>` element nor end the document leave the scan
/// of a theme descriptor, outside a `<parent>` element, where it was.
pub proof fn lemma_scan_parent_skip(evs: Seq<XmlEvent>, i: int, k: int)
    requires
        0 <= i <= k <= evs.len(),
        forall|j: int|
            i <= j < k ==> !opens(#[trigger] evs[j], parent_tag()) && !(evs[j] is Eof) && !(
            evs[j] is Malformed),
    ensures
        scan_parent(evs, i, false) == scan_parent(evs, k, false),
    decreases k - i,
{
    if i < k {
        lemma_scan_parent_skip(evs, i + 1, k);
    }
}

/// A well-formed theme descriptor whose first `<parent>` element holds a well-formed
/// code declares that code, without the whitespace around it.
pub proof fn lemma_parent_declared(evs: Seq<XmlEvent>, k: int, code: String)
    requires
        0 <= k,
        k + 1 < evs.len(),
        forall|j: int|
            0 <= j < k ==> !opens(#[trigger] evs[j], parent_tag()) && !(evs[j] is Eof) && !(
            evs[j] is Malformed),
        opens(evs[k], parent_tag()),
        evs[k + 1] == (XmlEvent::Text { content: Some(code) }),
        is_valid_code(trimmed(code@)),
        !has_error(evs),
    ensures
        declared_parent(evs) == Some(trimmed(code@)),
{
    lemma_scan_parent_skip(evs, 0, k);
    assert(scan_parent(evs, k, false) == scan_parent(evs, k + 1, true));
    assert(!opens(evs[k + 1], parent_tag()));
    assert(scan_parent(evs, k + 1, true) == parent_from_text(Some(code)));
}

/// A theme descriptor that ends, or turns out malformed, before any `<parent>` element
/// opens declares no parent.
pub proof fn lemma_parent_absent(evs: Seq<XmlEvent>, k: int)
    requires
        0 <= k <= evs.len(),
        forall|j: int|
            0 <= j < k ==> !opens(#[trigger] evs[j], parent_tag()) && !(evs[j] is Eof) && !(
            evs[j] is Malformed),
        k < evs.len() ==> (evs[k] is Eof || evs[k] is Malformed),
    ensures
        declared_parent(evs) == None::<Seq<char>>,
{
    lemma_scan_parent_skip(evs, 0, k);
}

/// A theme descriptor whose only `<parent>` element is empty declares no parent.
pub proof fn lemma_parent_empty(evs: Seq<XmlEvent>, k: int, m: int)
    requires
        0 <= k,
        k + 1 < m <= evs.len(),
        forall|j: int|
            0 <= j < k ==> !opens(#[trigger] evs[j], parent_tag()) && !(evs[j] is Eof) && !(
            evs[j] is Malformed),
        opens(evs[k], parent_tag()),
        closes(evs[k + 1], parent_tag()),
        forall|j: int|
            k + 1 < j < m ==> !opens(#[trigger] evs[j], parent_tag()) && !(evs[j] is Eof) && !(
            evs[j] is Malformed),
        m < evs.len() ==> (evs[m] is Eof || evs[m] is Malformed),
    ensures
        declared_parent(evs) == None::<Seq<char>>,
{
    lemma_scan_parent_skip(evs, 0, k);
    lemma_scan_parent_skip(evs, k + 2, m);
    assert(scan_parent(evs, k, false) == scan_parent(evs, k + 1, true));
    assert(!opens(evs[k + 1], parent_tag()));
    assert(scan_parent(evs, k + 1, true) == scan_parent(evs, k + 2, false));
}

/// The parent theme that the events of a theme descriptor declare; none when the
/// events hold an error.
pub fn parent_from_events(events: &Vec<XmlEvent>) -> (r: Option<ThemeCode>)
    ensures
        parent_view(r) == declared_parent(events@),
{
    if contains_error(events) {
        return None;
    }
    let parent = parent_tag_bytes();
    let mut in_parent = false;
    let mut i: usize = 0;
    while i < events.len()
        invariant
            i <= events@.len(),
            !has_error(events@),
            parent@ == parent_tag(),
            scan_parent(events@, 0, false) == scan_parent(events@, i as int, in_parent),
        decreases events@.len() - i,
    {
        match &events[i] {
            XmlEvent::Element { name, self_closing, .. } => {
                if !*self_closing && bytes_eq(name, &parent) {
                    in_parent = true;
                }
            },
            XmlEvent::Text { content } => {
                if in_parent {
                    return match content {
                        Some(s) => {
                            let t = trim_text(s.as_str());
                            ThemeCode::parse(t.as_str())
                        },
                        None => None,
                    };
                }
            },
            XmlEvent::End { name } => {
                if bytes_eq(name, &parent) {
                    in_parent = false;
                }
            },
            XmlEvent::Eof => {
                return None;
            },
            XmlEvent::Malformed => {
                return None;
            },
            XmlEvent::Other => {},
        }
        i = i + 1;
    }
    None
}

/// The value of the first attribute keyed `key` in `attrs`, if there is one.
pub open spec fn attribute_value(attrs: Seq<(Vec<u8>, Option<String>)>, key: Seq<u8>) -> Option<
    Option<String>,
>
    decreases attrs.len(),
{
    if attrs.len() == 0 {
        None
    } else if attrs[0].0@ == key {
        Some(attrs[0].1)
    } else {
        attribute_value(attrs.drop_first(), key)
    }
}

/// The `name` attribute of `e`, if `e` is a `<module>` tag that has one.
pub open spec fn module_name_attr(e: XmlEvent) -> Option<Option<String>> {
    match e {
        XmlEvent::Element { name, attributes, .. } => if name@ == module_tag() {
            attribute_value(attributes@, name_key())
        } else {
            None
        },
        _ => None,
    }
}

/// The value of the first attribute keyed `key` in `attrs`.
fn find_attribute(attrs: &Vec<(Vec<u8>, Option<String>)>, key: &Vec<u8>) -> (r: Option<
    Option<String>,
>)
    ensures
        r == attribute_value(attrs@, key@),
{
    assert(attrs@.subrange(0, attrs@.len() as int) =~= attrs@);
    let mut i: usize = 0;
    while i < attrs.len()
        invariant
            i <= attrs@.len(),
            attribute_value(attrs@, key@) == attribute_value(attrs@.subrange(i as int, attrs@.len() as int), key@),
        decreases attrs@.len() - i,
    {
        let ghost rest = attrs@.subrange(i as int, attrs@.len() as int);
        assert(rest[0] == attrs@[i as int]);
        assert(rest.drop_first() =~= attrs@.subrange(i + 1, attrs@.len() as int));
        if bytes_eq(&attrs[i].0, key) {
            return Some(attrs[i].1.clone());
        }
        i = i + 1;
    }
    None
}

/// The module name declared by the events of a module descriptor from position `i`
/// on: the `name` attribute of the first `<module>` tag that has one.
pub open spec fn scan_module(evs: Seq<XmlEvent>, i: int) -> Option<Seq<char>>
    decreases evs.len() - i,
{
    if i < 0 || i >= evs.len() {
        None
    } else if module_name_attr(evs[i]) is Some {
        opt_text(module_name_attr(evs[i])->0)
    } else if evs[i] is Eof || evs[i] is Malformed {
        None
    } else {
        scan_module(evs, i + 1)
    }
}

/// The module name that a module descriptor's events declare: none for a malformed
/// document, otherwise what the scan from its first event finds.
pub open spec fn declared_module(evs: Seq<XmlEvent>) -> Option<Seq<char>> {
    if has_error(evs) {
        None
    } else {
        scan_module(evs, 0)
    }
}

/// An optional string, as text.
pub open spec fn opt_text(s: Option<String>) -> Option<Seq<char>> {
    match s {
        Some(v) => Some(v@),
        None => None,
    }
}

/// The module name that the events of a module descriptor declare; none when the
/// events hold an error.
pub fn module_name_from_events(events: &Vec<XmlEvent>) -> (r: Option<String>)
    ensures
        opt_text(r) == declared_module(events@),
{
    if contains_error(events) {
        return None;
    }
    let module = module_tag_bytes();
    let key = name_key_bytes();
    let mut i: usize = 0;
    while i < events.len()
        invariant
            i <= events@.len(),
            !has_error(events@),
            module@ == module_tag(),
            key@ == name_key(),
            scan_module(events@, 0) == scan_module(events@, i as int),
        decreases events@.len() - i,
    {
        match &events[i] {
            XmlEvent::Element { name, attributes, .. } => {
                if bytes_eq(name, &module) {
                    match find_attribute(attributes, &key) {
                        Some(value) => {
                            return match value {
                                Some(v) => Some(v.clone()),
                                None => None,
                            };
                        },
                        None => {},
                    }
                }
            },
            XmlEvent::Eof => {
                return None;
            },
            XmlEvent::Malformed => {
                return None;
            },
            _ => {},
        }
        i = i + 1;
    }
    None
}

} // verus!
