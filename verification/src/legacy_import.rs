//! Import saved namespaces from a legacy .NET explorer-tool config file.
//!
//! Older tools keep connection strings, in plain text, in a
//! `serviceBusNamespaces` dictionary section of an XML `.config` file.
//! Importing moves the key material into the secret store and creates a
//! profile per entry.

use vstd::prelude::*;
use crate::config::{
    AppConfig, AuthView, NamespaceProfile, ProfileId, ProfileView, ids_unique, index_of_id, profiles_view,
    upserted,
};
use crate::connection::{
    NamespaceConnection, TransportType, error_message, spec_parse_connection, strings_view,
};
use crate::secrets::{SecretError, SecretKind, SecretRef, SecretStore, SecretString};
use crate::text::{
    chars_eq_str, decimal, find_char, first_index, lower, push_chars, push_decimal, push_str,
    slice_to_vec, str_chars, string_from_chars, to_lower, trim, trim_bounds,
};

verus! {

broadcast use vstd::string::group_string_axioms;

// ---- connection-string clean-up -------------------------------------------------------

/// The `;`-separated parts of `s`, in order (one empty part for empty text).
pub open spec fn split_semis(s: Seq<char>) -> Seq<Seq<char>>
    decreases s.len(),
{
    let i = first_index(s, ';');
    if i < 0 {
        seq![s]
    } else {
        proof {
            crate::text::lemma_first_index_props(s, ';');
        }
        seq![s.take(i)] + split_semis(s.skip(i + 1))
    }
}

/// A `TransportType=NetMessaging` parameter (key and value compared without
/// case, around surrounding whitespace).
pub open spec fn is_net_messaging(part: Seq<char>) -> bool {
    let e = first_index(part, '=');
    e >= 0 && lower(trim(part.take(e))) == "transporttype"@ && lower(trim(part.skip(e + 1)))
        == "netmessaging"@
}

/// The parts that are not `TransportType=NetMessaging`, in order.
pub open spec fn kept_parts(parts: Seq<Seq<char>>) -> Seq<Seq<char>>
    decreases parts.len(),
{
    if parts.len() == 0 {
        Seq::empty()
    } else if is_net_messaging(parts.last()) {
        kept_parts(parts.drop_last())
    } else {
        kept_parts(parts.drop_last()).push(parts.last())
    }
}

/// The parts joined with `;`.
pub open spec fn join_semis(parts: Seq<Seq<char>>) -> Seq<char>
    decreases parts.len(),
{
    if parts.len() == 0 {
        Seq::empty()
    } else if parts.len() == 1 {
        parts[0]
    } else {
        join_semis(parts.drop_last()) + seq![';'] + parts.last()
    }
}

/// The note given when a parameter was dropped.
pub open spec fn net_messaging_note() -> Seq<char> {
    "removed legacy 'TransportType=NetMessaging'"@
}

/// A connection string without its `TransportType=NetMessaging` parameters
/// (meaningful only to the legacy .NET SDK), and a note when any was
/// dropped.
pub open spec fn spec_sanitize(raw: Seq<char>) -> (Seq<char>, Option<Seq<char>>) {
    let parts = split_semis(raw);
    let kept = kept_parts(parts);
    (join_semis(kept), if kept.len() < parts.len() { Some(net_messaging_note()) } else { None })
}

proof fn lemma_kept_len(parts: Seq<Seq<char>>)
    ensures
        kept_parts(parts).len() <= parts.len(),
    decreases parts.len(),
{
    if parts.len() > 0 {
        lemma_kept_len(parts.drop_last());
    }
}

fn part_is_net_messaging(s: &[char], lo: usize, hi: usize) -> (r: bool)
    requires
        lo <= hi <= s.len(),
    ensures
        r == is_net_messaging(s@.subrange(lo as int, hi as int)),
{
    let ghost p = s@.subrange(lo as int, hi as int);
    let e = find_char(s, lo, hi, '=');
    if e == hi {
        return false;
    }
    let (ka, kb) = trim_bounds(s, lo, e);
    let (va, vb) = trim_bounds(s, e + 1, hi);
    proof {
        assert(p.take(e - lo) =~= s@.subrange(lo as int, e as int));
        assert(p.skip(e - lo + 1) =~= s@.subrange(e + 1, hi as int));
    }
    let key = to_lower(slice_to_vec(s, ka, kb).as_slice());
    let value = to_lower(slice_to_vec(s, va, vb).as_slice());
    chars_eq_str(key.as_slice(), "transporttype") && chars_eq_str(value.as_slice(), "netmessaging")
}

/// Drop connection-string parameters that only the legacy .NET SDK
/// understood (`TransportType=NetMessaging`), so that the stored string can be
/// handed to AMQP clients as it is.
pub fn sanitize_connection_string(raw: &str) -> (r: (String, Option<String>))
    ensures
        (r.0@, match r.1 {
            Some(n) => Some(n@),
            None => None,
        }) == spec_sanitize(raw@),
{
    let s = str_chars(raw);
    let n = s.len();
    let ghost all = split_semis(s@);
    let ghost mut done: Seq<Seq<char>> = Seq::empty();
    let mut out: Vec<char> = Vec::new();
    let mut any_kept = false;
    let mut removed = false;
    let mut start: usize = 0;
    let mut finished = false;
    assert(s@.subrange(0, n as int) =~= s@);
    while !finished
        invariant
            start <= n,
            n == s@.len(),
            all == split_semis(s@),
            !finished ==> all == done + split_semis(s@.subrange(start as int, n as int)),
            finished ==> all == done,
            out@ == join_semis(kept_parts(done)),
            any_kept == (kept_parts(done).len() > 0),
            kept_parts(done).len() <= done.len(),
            removed == (kept_parts(done).len() < done.len()),
        decreases n - start + (if finished { 0int } else { 1int }),
    {
        let j = find_char(s.as_slice(), start, n, ';');
        let ghost rest = s@.subrange(start as int, n as int);
        let ghost part = s@.subrange(start as int, j as int);
        proof {
            if j < n {
                assert(rest.take(j - start) =~= part);
                assert(rest.skip(j - start + 1) =~= s@.subrange(j + 1, n as int));
                crate::text::lemma_first_index_props(rest, ';');
            } else {
                assert(part =~= rest);
            }
        }
        let nm = part_is_net_messaging(s.as_slice(), start, j);
        let ghost old_done = done;
        proof {
            done = done.push(part);
            assert(done.drop_last() =~= old_done);
        }
        if nm {
            removed = true;
        } else {
            if any_kept {
                out.push(';');
            }
            push_chars(&mut out, slice_to_vec(s.as_slice(), start, j).as_slice());
            any_kept = true;
            proof {
                let k0 = kept_parts(old_done);
                assert(kept_parts(done).drop_last() =~= k0);
                if k0.len() == 0 {
                    assert(out@ =~= part);
                }
            }
        }
        if j < n {
            proof {
                assert(all =~= done + split_semis(s@.subrange(j + 1, n as int))) by {
                    assert(split_semis(rest) =~= seq![part] + split_semis(
                        s@.subrange(j + 1, n as int),
                    ));
                }
            }
            start = j + 1;
        } else {
            proof {
                assert(split_semis(rest) =~= seq![part]);
                assert(all =~= done);
            }
            finished = true;
            start = n;
        }
    }
    let text = string_from_chars(out.as_slice());
    let note = if removed {
        Some("removed legacy 'TransportType=NetMessaging'".to_owned())
    } else {
        None
    };
    (text, note)
}


/// No `;` in the text.
pub open spec fn no_semi(s: Seq<char>) -> bool {
    forall|i: int| 0 <= i < s.len() ==> s[i] != ';'
}

proof fn lemma_split_no_semi(s: Seq<char>)
    requires
        no_semi(s),
    ensures
        split_semis(s) == seq![s],
{
    crate::text::lemma_first_index(s, s.len() as int, ';');
}

proof fn lemma_split_parts_no_semi(s: Seq<char>)
    ensures
        split_semis(s).len() >= 1,
        forall|k: int| 0 <= k < split_semis(s).len() ==> no_semi(#[trigger] split_semis(s)[k]),
    decreases s.len(),
{
    crate::text::lemma_first_index_props(s, ';');
    let i = first_index(s, ';');
    if i >= 0 {
        lemma_split_parts_no_semi(s.skip(i + 1));
        let rest = split_semis(s.skip(i + 1));
        assert forall|k: int| 0 <= k < split_semis(s).len() implies no_semi(#[trigger] split_semis(s)[k]) by {
            if k > 0 {
                assert(split_semis(s)[k] == rest[k - 1]);
            } else {
                assert(split_semis(s)[0] == s.take(i));
            }
        }
    }
}

/// Splitting `a;b` splits `a` and `b` apart.
proof fn lemma_split_concat(a: Seq<char>, b: Seq<char>)
    ensures
        split_semis(a + seq![';'] + b) == split_semis(a) + split_semis(b),
    decreases a.len(),
{
    let t = a + seq![';'] + b;
    crate::text::lemma_first_index_props(a, ';');
    let i = first_index(a, ';');
    if i < 0 {
        assert forall|j: int| 0 <= j < a.len() implies t[j] != ';' by {
            assert(t[j] == a[j]);
        }
        assert(t[a.len() as int] == ';');
        crate::text::lemma_first_index(t, a.len() as int, ';');
        assert(t.take(a.len() as int) =~= a);
        assert(t.skip(a.len() + 1int) =~= b);
        lemma_split_no_semi(a);
    } else {
        assert forall|j: int| 0 <= j < i implies t[j] != ';' by {
            assert(t[j] == a[j]);
        }
        assert(t[i] == ';');
        crate::text::lemma_first_index(t, i, ';');
        assert(t.take(i) =~= a.take(i));
        let a2 = a.skip(i + 1);
        assert(t.skip(i + 1) =~= a2 + seq![';'] + b);
        lemma_split_concat(a2, b);
        assert(split_semis(a) == seq![a.take(i)] + split_semis(a2));
        assert(split_semis(t) =~= split_semis(a) + split_semis(b));
    }
}

/// Joining parts without `;` and splitting again gives the parts back.
proof fn lemma_split_join(parts: Seq<Seq<char>>)
    requires
        parts.len() >= 1,
        forall|k: int| 0 <= k < parts.len() ==> no_semi(#[trigger] parts[k]),
    ensures
        split_semis(join_semis(parts)) == parts,
    decreases parts.len(),
{
    if parts.len() == 1 {
        lemma_split_no_semi(parts[0]);
        assert(seq![parts[0]] =~= parts);
    } else {
        let init = parts.drop_last();
        assert forall|k: int| 0 <= k < init.len() implies no_semi(#[trigger] init[k]) by {
            assert(init[k] == parts[k]);
        }
        lemma_split_join(init);
        lemma_split_concat(join_semis(init), parts.last());
        lemma_split_no_semi(parts.last());
        assert(init + seq![parts.last()] =~= parts);
    }
}

proof fn lemma_kept_parts_props(parts: Seq<Seq<char>>)
    ensures
        forall|k: int| 0 <= k < kept_parts(parts).len() ==> !is_net_messaging(#[trigger] kept_parts(parts)[k]),
        forall|k: int| 0 <= k < kept_parts(parts).len() ==> exists|j: int| 0 <= j < parts.len() && parts[j] == #[trigger] kept_parts(parts)[k],
    decreases parts.len(),
{
    if parts.len() > 0 {
        lemma_kept_parts_props(parts.drop_last());
        let prev = kept_parts(parts.drop_last());
        assert forall|k: int| 0 <= k < kept_parts(parts).len() implies exists|j: int| 0 <= j < parts.len() && parts[j] == #[trigger] kept_parts(parts)[k] by {
            if k < prev.len() {
                let j = choose|j: int| 0 <= j < parts.drop_last().len() && parts.drop_last()[j] == prev[k];
                assert(parts[j] == parts.drop_last()[j]);
                assert(kept_parts(parts)[k] == prev[k]);
            } else {
                assert(kept_parts(parts)[k] == parts.last());
                assert(parts[parts.len() - 1] == parts.last());
            }
        }
        assert forall|k: int| 0 <= k < kept_parts(parts).len() implies !is_net_messaging(#[trigger] kept_parts(parts)[k]) by {
            if k < prev.len() {
                assert(kept_parts(parts)[k] == prev[k]);
            }
        }
    }
}

proof fn lemma_kept_all(parts: Seq<Seq<char>>)
    requires
        forall|k: int| 0 <= k < parts.len() ==> !is_net_messaging(#[trigger] parts[k]),
    ensures
        kept_parts(parts) == parts,
    decreases parts.len(),
{
    if parts.len() > 0 {
        let init = parts.drop_last();
        assert forall|k: int| 0 <= k < init.len() implies !is_net_messaging(#[trigger] init[k]) by {
            assert(init[k] == parts[k]);
        }
        lemma_kept_all(init);
        assert(!is_net_messaging(parts[parts.len() - 1]));
        assert(init.push(parts.last()) =~= parts);
    }
}

/// Cleaning a cleaned connection string changes nothing and notes nothing:
/// no `TransportType=NetMessaging` parameter is left in it.
pub proof fn law_sanitize_is_idempotent(raw: Seq<char>)
    ensures
        spec_sanitize(spec_sanitize(raw).0) == (spec_sanitize(raw).0, None::<Seq<char>>),
{
    let parts = split_semis(raw);
    let kept = kept_parts(parts);
    let clean = join_semis(kept);
    lemma_split_parts_no_semi(raw);
    lemma_kept_parts_props(parts);
    if kept.len() == 0 {
        assert(clean == Seq::<char>::empty());
        lemma_split_no_semi(clean);
        assert(first_index(clean, '=') == -1);
        assert(!is_net_messaging(clean));
        let again = split_semis(clean);
        assert(again == seq![clean]);
        lemma_kept_all(again);
    } else {
        assert forall|k: int| 0 <= k < kept.len() implies no_semi(#[trigger] kept[k]) by {
            let j = choose|j: int| 0 <= j < parts.len() && parts[j] == kept[k];
        }
        lemma_split_join(kept);
        lemma_kept_all(kept);
    }
}

// ---- reading the XML file ------------------------------------------------------------------

#[verifier::external_type_specification]
#[verifier::external_body]
#[verifier::reject_recursive_types(R)]
pub struct ExXmlReader<R>(quick_xml::Reader<R>);

#[verifier::external_type_specification]
#[verifier::external_body]
pub struct ExBytesStart<'a>(quick_xml::events::BytesStart<'a>);

#[verifier::external_type_specification]
#[verifier::external_body]
pub struct ExAttributes<'a>(quick_xml::events::attributes::Attributes<'a>);

#[verifier::external_type_specification]
#[verifier::external_body]
pub struct ExAttribute<'a>(quick_xml::events::attributes::Attribute<'a>);

#[verifier::external_type_specification]
#[verifier::external_body]
pub struct ExAttrError(quick_xml::events::attributes::AttrError);

/// An attribute of an element: its local name and its normalized value, or
/// why the value could not be normalized.
pub struct XmlAttr {
    pub key: String,
    pub value: Result<String, String>,
}

/// An XML event, as the plain values the import reads.
pub enum XmlEvent {
    Start { name: String, attributes: Vec<XmlAttr> },
    Empty { name: String, attributes: Vec<XmlAttr> },
    End { name: String },
    Eof,
    Other,
}

/// An event as the reader hands it over: a tag's local name, with the tag
/// itself where its attributes are still to be read.
pub enum RawEvent<'a> {
    Start(String, quick_xml::events::BytesStart<'a>),
    Empty(String, quick_xml::events::BytesStart<'a>),
    End(String),
    Eof,
    Other,
}

/// An attribute as its iterator yields it: `None` where it is malformed.
pub type AttrItem = Option<AttrView>;

/// One answer of the reader, as plain values: a tag by its local name and the
/// items of its attribute iterator, the end of the document, any other
/// event, or the reader's error message.
pub enum ReadView {
    Start(Seq<char>, Seq<AttrItem>),
    Empty(Seq<char>, Seq<AttrItem>),
    End(Seq<char>),
    Eof,
    Other,
    Error(Seq<char>),
}

pub open spec fn ends_stream(v: ReadView) -> bool {
    v is Eof || v is Error
}

/// A stream of answers that ends at its first `Eof` or error.
pub open spec fn stream_wf(s: Seq<ReadView>) -> bool {
    &&& s.len() > 0
    &&& ends_stream(s.last())
    &&& forall|j: int| 0 <= j < s.len() - 1 ==> !ends_stream(#[trigger] s[j])
}

/// What `quick_xml::Reader::read_event` answers, call after call, on a reader
/// made by `Reader::from_str(text)` with the `trim_text` option as given, up
/// to and including the first `Eof` or error.
pub uninterp spec fn xml_events(text: Seq<char>, trim_text: bool) -> Seq<ReadView>;

/// The answers a `quick_xml::Reader` still has to give, up to and including
/// the first `Eof` or error.
pub uninterp spec fn reader_pending(r: quick_xml::Reader<&[u8]>) -> Seq<ReadView>;

/// The items that the attribute iterator of a tag (`BytesStart::attributes`)
/// yields before it ends.
pub uninterp spec fn tag_attributes(e: quick_xml::events::BytesStart) -> Seq<AttrItem>;

/// The items that an attribute iterator still has to yield before it ends.
pub uninterp spec fn attributes_pending(it: quick_xml::events::attributes::Attributes) -> Seq<AttrItem>;

pub open spec fn opt_attr_view(a: Option<XmlAttr>) -> AttrItem {
    match a {
        Some(x) => Some(attr_view(x)),
        None => None,
    }
}

/// `quick_xml::Reader::from_str`, with its `trim_text` option set as given.
/// The reader is to answer what `xml_events` names, which ends at its first
/// `Eof` or error.
#[verifier::external_body]
fn xml_reader<'a>(xml: &'a str, trim_text: bool) -> (r: quick_xml::Reader<&'a [u8]>)
    ensures
        reader_pending(r) == xml_events(xml@, trim_text),
        stream_wf(reader_pending(r)),
{
    let mut reader = quick_xml::Reader::from_str(xml);
    reader.config_mut().trim_text(trim_text);
    reader
}

/// `Reader::read_event`: the reader's next answer, a tag with its local name
/// (`BytesStart::local_name`), or the error's message.
#[verifier::external_body]
fn read_raw_event<'a>(reader: &mut quick_xml::Reader<&'a [u8]>) -> (r: Result<RawEvent<'a>, String>)
    ensures
        reader_pending(*old(reader)).len() > 0 ==> {
            let p = reader_pending(*old(reader));
            &&& reader_pending(*final(reader)) == p.drop_first()
            &&& match r {
                Ok(RawEvent::Start(n, e)) => p[0] == ReadView::Start(n@, tag_attributes(e)),
                Ok(RawEvent::Empty(n, e)) => p[0] == ReadView::Empty(n@, tag_attributes(e)),
                Ok(RawEvent::End(n)) => p[0] == ReadView::End(n@),
                Ok(RawEvent::Eof) => p[0] == ReadView::Eof,
                Ok(RawEvent::Other) => p[0] == ReadView::Other,
                Err(m) => p[0] == ReadView::Error(m@),
            }
        },
{
    match reader.read_event() {
        Ok(quick_xml::events::Event::Start(e)) => Ok(RawEvent::Start(e.local_name().as_ref().to_owned(), e)),
        Ok(quick_xml::events::Event::Empty(e)) => Ok(RawEvent::Empty(e.local_name().as_ref().to_owned(), e)),
        Ok(quick_xml::events::Event::End(e)) => Ok(RawEvent::End(e.local_name().as_ref().to_owned())),
        Ok(quick_xml::events::Event::Eof) => Ok(RawEvent::Eof),
        Ok(_) => Ok(RawEvent::Other),
        Err(e) => Err(e.to_string()),
    }
}

/// `BytesStart::attributes`: an iterator over the tag's attributes.
#[verifier::external_body]
fn element_attributes<'a>(e: &'a quick_xml::events::BytesStart<'a>) -> (r: quick_xml::events::attributes::Attributes<'a>)
    ensures
        attributes_pending(r) == tag_attributes(*e),
{
    e.attributes()
}

/// `Iterator::next` on the attributes (a fused iterator): `None` at the end,
/// `Some(None)` for a malformed attribute, else its local name and its value
/// normalized as XML 1.0 (`Attribute::normalized_value`).
#[verifier::external_body]
fn next_attribute(it: &mut quick_xml::events::attributes::Attributes) -> (r: Option<Option<XmlAttr>>)
    ensures
        attributes_pending(*old(it)).len() == 0 ==> r is None,
        attributes_pending(*old(it)).len() > 0 ==> {
            &&& r matches Some(a) && opt_attr_view(a) == attributes_pending(*old(it))[0]
            &&& attributes_pending(*final(it)) == attributes_pending(*old(it)).drop_first()
        },
{
    match it.next() {
        None => None,
        Some(Err(_)) => Some(None),
        Some(Ok(a)) => Some(Some(XmlAttr {
            key: a.key.local_name().as_ref().to_owned(),
            value: match a.normalized_value(quick_xml::XmlVersion::Implicit1_0) {
                Ok(v) => Ok(v.into_owned()),
                Err(e) => Err(e.to_string()),
            },
        })),
    }
}

/// The well-formed items of an attribute list, in order.
pub open spec fn present_attrs(items: Seq<AttrItem>) -> Seq<AttrView>
    decreases items.len(),
{
    if items.len() == 0 {
        Seq::empty()
    } else {
        match items.last() {
            Some(a) => present_attrs(items.drop_last()).push(a),
            None => present_attrs(items.drop_last()),
        }
    }
}

/// The well-formed attributes of a tag, in order.
fn read_attributes(e: &quick_xml::events::BytesStart) -> (r: Vec<XmlAttr>)
    ensures
        attrs_view(r@) == present_attrs(tag_attributes(*e)),
{
    let mut it = element_attributes(e);
    let ghost all = tag_attributes(*e);
    let ghost mut k: int = 0;
    let mut out: Vec<XmlAttr> = Vec::new();
    loop
        invariant
            all == tag_attributes(*e),
            0 <= k <= all.len(),
            attributes_pending(it) == all.skip(k),
            attrs_view(out@) == present_attrs(all.take(k)),
        decreases all.len() - k,
    {
        let ghost before = out@;
        match next_attribute(&mut it) {
            None => {
                assert(all.skip(k).len() == all.len() - k);
                assert(all.take(k) =~= all);
                return out;
            },
            Some(a) => {
                proof {
                    assert(all.take(k + 1).drop_last() =~= all.take(k));
                    assert(all.skip(k).drop_first() =~= all.skip(k + 1));
                }
                match a {
                    None => {},
                    Some(x) => {
                        out.push(x);
                        assert(attrs_view(out@) =~= attrs_view(before).push(attr_view(out@.last())));
                    },
                }
                proof {
                    k = k + 1;
                }
            },
        }
    }
}

/// What the import reads of one answer of the reader.
pub open spec fn read_event_view(v: ReadView) -> EventView {
    match v {
        ReadView::Start(n, a) => EventView::Start(n, present_attrs(a)),
        ReadView::Empty(n, a) => EventView::Empty(n, present_attrs(a)),
        ReadView::End(n) => EventView::End(n),
        ReadView::Eof => EventView::Eof,
        _ => EventView::Other,
    }
}

/// The reader's next answer, with its tag's name and well-formed attributes.
fn read_event(reader: &mut quick_xml::Reader<&[u8]>) -> (r: Result<XmlEvent, String>)
    requires
        reader_pending(*old(reader)).len() > 0,
    ensures
        reader_pending(*final(reader)) == reader_pending(*old(reader)).drop_first(),
        match r {
            Ok(ev) => !(reader_pending(*old(reader))[0] is Error) && event_view(ev) == read_event_view(
                reader_pending(*old(reader))[0],
            ),
            Err(m) => reader_pending(*old(reader))[0] == ReadView::Error(m@),
        },
{
    match read_raw_event(reader) {
        Err(e) => Err(e),
        Ok(RawEvent::Start(name, e)) => {
            let attributes = read_attributes(&e);
            Ok(XmlEvent::Start { name, attributes })
        },
        Ok(RawEvent::Empty(name, e)) => {
            let attributes = read_attributes(&e);
            Ok(XmlEvent::Empty { name, attributes })
        },
        Ok(RawEvent::End(name)) => Ok(XmlEvent::End { name }),
        Ok(RawEvent::Eof) => Ok(XmlEvent::Eof),
        Ok(RawEvent::Other) => Ok(XmlEvent::Other),
    }
}

// ---- the namespaces section ------------------------------------------------------------------

pub type AttrView = (Seq<char>, Result<Seq<char>, Seq<char>>);

pub enum EventView {
    Start(Seq<char>, Seq<AttrView>),
    Empty(Seq<char>, Seq<AttrView>),
    End(Seq<char>),
    Eof,
    Other,
}

pub open spec fn attr_view(a: XmlAttr) -> AttrView {
    (
        a.key@,
        match a.value {
            Ok(v) => Ok(v@),
            Err(e) => Err(e@),
        },
    )
}

pub open spec fn attrs_view(a: Seq<XmlAttr>) -> Seq<AttrView> {
    a.map_values(|x: XmlAttr| attr_view(x))
}

pub open spec fn event_view(e: XmlEvent) -> EventView {
    match e {
        XmlEvent::Start { name, attributes } => EventView::Start(name@, attrs_view(attributes@)),
        XmlEvent::Empty { name, attributes } => EventView::Empty(name@, attrs_view(attributes@)),
        XmlEvent::End { name } => EventView::End(name@),
        XmlEvent::Eof => EventView::Eof,
        XmlEvent::Other => EventView::Other,
    }
}

pub open spec fn events_view(e: Seq<XmlEvent>) -> Seq<EventView> {
    e.map_values(|x: XmlEvent| event_view(x))
}

/// The `key` and `value` attributes of an `add` element (the last of each
/// wins), or the first value that could not be normalized.
pub open spec fn add_attributes(attrs: Seq<AttrView>) -> Result<(Option<Seq<char>>, Option<Seq<char>>), Seq<char>>
    decreases attrs.len(),
{
    if attrs.len() == 0 {
        Ok((None, None))
    } else {
        match add_attributes(attrs.drop_last()) {
            Err(e) => Err(e),
            Ok(kv) => match attrs.last().1 {
                Err(e) => Err(e),
                Ok(v) => if attrs.last().0 == "key"@ {
                    Ok((Some(v), kv.1))
                } else if attrs.last().0 == "value"@ {
                    Ok((kv.0, Some(v)))
                } else {
                    Ok(kv)
                },
            },
        }
    }
}

/// Progress through the document: inside the section or not, whether the
/// end was reached, and the `(name, connection string)` entries so far.
pub struct LegacyScan {
    pub in_section: bool,
    pub done: bool,
    pub entries: Seq<(Seq<char>, Seq<char>)>,
}

pub open spec fn add_entry(st: LegacyScan, attrs: Seq<AttrView>) -> Result<LegacyScan, Seq<char>> {
    match add_attributes(attrs) {
        Err(e) => Err(e),
        Ok(kv) => if kv.0 is Some && kv.1 is Some {
            Ok(LegacyScan { entries: st.entries.push((kv.0->0, kv.1->0)), ..st })
        } else {
            Ok(st)
        },
    }
}

/// One event applied to the scan.
pub open spec fn legacy_step(st: LegacyScan, ev: EventView) -> Result<LegacyScan, Seq<char>> {
    let section = "serviceBusNamespaces"@;
    let add = "add"@;
    match ev {
        EventView::Start(n, a) => if n == section {
            Ok(LegacyScan { in_section: true, ..st })
        } else if st.in_section && n == add {
            add_entry(st, a)
        } else {
            Ok(st)
        },
        EventView::End(n) => if n == section {
            Ok(LegacyScan { in_section: false, ..st })
        } else {
            Ok(st)
        },
        EventView::Empty(n, a) => if st.in_section && n == add {
            add_entry(st, a)
        } else {
            Ok(st)
        },
        EventView::Eof => Ok(LegacyScan { done: true, ..st }),
        EventView::Other => Ok(st),
    }
}

/// The events applied in order, up to the end of the document or the first
/// error.
pub open spec fn legacy_scan(evs: Seq<EventView>) -> Result<LegacyScan, Seq<char>>
    decreases evs.len(),
{
    if evs.len() == 0 {
        Ok(LegacyScan { in_section: false, done: false, entries: Seq::empty() })
    } else {
        match legacy_scan(evs.drop_last()) {
            Err(e) => Err(e),
            Ok(st) => if st.done {
                Ok(st)
            } else {
                legacy_step(st, evs.last())
            },
        }
    }
}

/// The `(name, connection string)` pairs of the `add` elements inside the
/// `serviceBusNamespaces` section, in document order.
pub open spec fn spec_legacy_entries(evs: Seq<EventView>) -> Result<Seq<(Seq<char>, Seq<char>)>, Seq<char>> {
    match legacy_scan(evs) {
        Ok(st) => Ok(st.entries),
        Err(e) => Err(e),
    }
}

pub open spec fn entries_view(v: Seq<(String, SecretString)>) -> Seq<(Seq<char>, Seq<char>)> {
    v.map_values(|e: (String, SecretString)| (e.0@, e.1@))
}

fn name_is(name: &String, lit: &str) -> (r: bool)
    ensures
        r == (name@ == lit@),
{
    let c = str_chars(name.as_str());
    chars_eq_str(c.as_slice(), lit)
}

/// The `key` and `value` attributes of an `add` element.
fn scan_add_attributes(attrs: &Vec<XmlAttr>) -> (r: Result<(Option<String>, Option<String>), String>)
    ensures
        match r {
            Ok(kv) => add_attributes(attrs_view(attrs@)) == Ok::<
                (Option<Seq<char>>, Option<Seq<char>>),
                Seq<char>,
            >((crate::body::text_view(kv.0), crate::body::text_view(kv.1))),
            Err(e) => add_attributes(attrs_view(attrs@)) == Err::<
                (Option<Seq<char>>, Option<Seq<char>>),
                Seq<char>,
            >(e@),
        },
{
    let mut key: Option<String> = None;
    let mut value: Option<String> = None;
    let mut i: usize = 0;
    let ghost all = attrs_view(attrs@);
    while i < attrs.len()
        invariant
            i <= attrs.len(),
            all == attrs_view(attrs@),
            add_attributes(all.take(i as int)) == Ok::<
                (Option<Seq<char>>, Option<Seq<char>>),
                Seq<char>,
            >((crate::body::text_view(key), crate::body::text_view(value))),
        decreases attrs.len() - i,
    {
        assert(all.take(i + 1).drop_last() =~= all.take(i as int));
        let a = &attrs[i];
        match &a.value {
            Err(e) => {
                proof {
                    assert(all.take(i + 1).last() == attr_view(*a));
                    lemma_add_attributes_err(all, i as int + 1);
                }
                return Err(e.clone());
            },
            Ok(v) => {
                if name_is(&a.key, "key") {
                    key = Some(v.clone());
                } else if name_is(&a.key, "value") {
                    value = Some(v.clone());
                }
            },
        }
        i = i + 1;
    }
    assert(all.take(i as int) =~= all);
    Ok((key, value))
}

/// An error in a prefix of the attributes is the answer for all of them.
proof fn lemma_add_attributes_err(all: Seq<AttrView>, k: int)
    requires
        0 < k <= all.len(),
        add_attributes(all.take(k)) is Err,
    ensures
        add_attributes(all) == add_attributes(all.take(k)),
    decreases all.len() - k,
{
    if k < all.len() {
        assert(all.take(k + 1).drop_last() =~= all.take(k));
        lemma_add_attributes_err(all, k + 1);
    } else {
        assert(all.take(k) =~= all);
    }
}

/// Scan state as the executable code holds it.
pub struct LegacyScanner {
    in_section: bool,
    done: bool,
    entries: Vec<(String, SecretString)>,
}

impl View for LegacyScanner {
    type V = LegacyScan;

    closed spec fn view(&self) -> LegacyScan {
        LegacyScan { in_section: self.in_section, done: self.done, entries: entries_view(self.entries@) }
    }
}

impl LegacyScanner {
    fn new() -> (r: LegacyScanner)
        ensures
            r@ == (LegacyScan { in_section: false, done: false, entries: Seq::empty() }),
    {
        let r = LegacyScanner { in_section: false, done: false, entries: Vec::new() };
        assert(entries_view(r.entries@) =~= Seq::<(Seq<char>, Seq<char>)>::empty());
        r
    }

    fn add(&mut self, attrs: &Vec<XmlAttr>) -> (r: Result<(), String>)
        ensures
            match r {
                Ok(()) => add_entry(old(self)@, attrs_view(attrs@)) == Ok::<LegacyScan, Seq<char>>(final(self)@),
                Err(e) => add_entry(old(self)@, attrs_view(attrs@)) == Err::<LegacyScan, Seq<char>>(e@),
            },
    {
        match scan_add_attributes(attrs) {
            Err(e) => Err(e),
            Ok((Some(k), Some(v))) => {
                let ghost before = self.entries@;
                let ghost kv = k@;
                self.entries.push((k, SecretString::new(v)));
                assert(entries_view(self.entries@) =~= entries_view(before).push((kv, self.entries@.last().1@)));
                Ok(())
            },
            Ok(_) => Ok(()),
        }
    }

    /// Apply one event.
    fn step(&mut self, ev: &XmlEvent) -> (r: Result<(), String>)
        ensures
            match r {
                Ok(()) => legacy_step(old(self)@, event_view(*ev)) == Ok::<LegacyScan, Seq<char>>(final(self)@),
                Err(e) => legacy_step(old(self)@, event_view(*ev)) == Err::<LegacyScan, Seq<char>>(e@),
            },
    {
        match ev {
            XmlEvent::Start { name, attributes } => {
                if name_is(&name, "serviceBusNamespaces") {
                    self.in_section = true;
                    Ok(())
                } else if self.in_section && name_is(&name, "add") {
                    self.add(attributes)
                } else {
                    Ok(())
                }
            },
            XmlEvent::End { name } => {
                if name_is(&name, "serviceBusNamespaces") {
                    self.in_section = false;
                }
                Ok(())
            },
            XmlEvent::Empty { name, attributes } => {
                if self.in_section && name_is(&name, "add") {
                    self.add(attributes)
                } else {
                    Ok(())
                }
            },
            XmlEvent::Eof => {
                self.done = true;
                Ok(())
            },
            XmlEvent::Other => Ok(()),
        }
    }
}

/// The `(name, connection string)` pairs of the `add` elements inside the
/// `serviceBusNamespaces` section of a document read as these events, or the
/// first attribute value that could not be normalized.
pub fn legacy_entries(events: &Vec<XmlEvent>) -> (r: Result<Vec<(String, SecretString)>, String>)
    ensures
        match r {
            Ok(v) => spec_legacy_entries(events_view(events@)) == Ok::<
                Seq<(Seq<char>, Seq<char>)>,
                Seq<char>,
            >(entries_view(v@)),
            Err(e) => spec_legacy_entries(events_view(events@)) == Err::<
                Seq<(Seq<char>, Seq<char>)>,
                Seq<char>,
            >(e@),
        },
{
    let ghost all = events_view(events@);
    let mut st = LegacyScanner::new();
    let mut i: usize = 0;
    while i < events.len()
        invariant
            i <= events.len(),
            all == events_view(events@),
            legacy_scan(all.take(i as int)) == Ok::<LegacyScan, Seq<char>>(st@),
        decreases events.len() - i,
    {
        assert(all.take(i + 1).drop_last() =~= all.take(i as int));
        if !st.done {
            match st.step(&events[i]) {
                Ok(()) => {},
                Err(e) => {
                    proof {
                        lemma_legacy_scan_err(all, i as int + 1);
                    }
                    return Err(e);
                },
            }
        }
        i = i + 1;
    }
    assert(all.take(i as int) =~= all);
    Ok(st.entries)
}

proof fn lemma_legacy_scan_err(all: Seq<EventView>, k: int)
    requires
        0 < k <= all.len(),
        legacy_scan(all.take(k)) is Err,
    ensures
        legacy_scan(all) == legacy_scan(all.take(k)),
    decreases all.len() - k,
{
    if k < all.len() {
        assert(all.take(k + 1).drop_last() =~= all.take(k));
        lemma_legacy_scan_err(all, k + 1);
    } else {
        assert(all.take(k) =~= all);
    }
}

/// The reader's answers applied in order, up to the end of the document or
/// the first error (the reader's own, or a value that could not be
/// normalized).
pub open spec fn legacy_read_scan(rvs: Seq<ReadView>) -> Result<LegacyScan, Seq<char>>
    decreases rvs.len(),
{
    if rvs.len() == 0 {
        Ok(LegacyScan { in_section: false, done: false, entries: Seq::empty() })
    } else {
        match legacy_read_scan(rvs.drop_last()) {
            Err(e) => Err(e),
            Ok(st) => if st.done {
                Ok(st)
            } else {
                match rvs.last() {
                    ReadView::Error(m) => Err(m),
                    v => legacy_step(st, read_event_view(v)),
                }
            },
        }
    }
}

/// The `(name, connection string)` pairs of a document that the reader
/// answers as given, or the first error.
pub open spec fn spec_parse_legacy(rvs: Seq<ReadView>) -> Result<Seq<(Seq<char>, Seq<char>)>, Seq<char>> {
    match legacy_read_scan(rvs) {
        Ok(st) => Ok(st.entries),
        Err(e) => Err(e),
    }
}

/// The entries of a config file's text, read with whitespace around text
/// trimmed.
pub open spec fn legacy_config_entries(xml: Seq<char>) -> Result<Seq<(Seq<char>, Seq<char>)>, Seq<char>> {
    spec_parse_legacy(xml_events(xml, true))
}

proof fn lemma_legacy_read_scan_err(all: Seq<ReadView>, k: int)
    requires
        0 < k <= all.len(),
        legacy_read_scan(all.take(k)) is Err,
    ensures
        legacy_read_scan(all) == legacy_read_scan(all.take(k)),
    decreases all.len() - k,
{
    if k < all.len() {
        assert(all.take(k + 1).drop_last() =~= all.take(k));
        lemma_legacy_read_scan_err(all, k + 1);
    } else {
        assert(all.take(k) =~= all);
    }
}

/// Extract `(name, connection string)` pairs from the
/// `<serviceBusNamespaces><add key="…" value="…"/></serviceBusNamespaces>`
/// section of a .NET-style config file, in document order.
pub fn parse_legacy_config(xml: &str) -> (r: Result<Vec<(String, SecretString)>, String>)
    ensures
        match r {
            Ok(v) => legacy_config_entries(xml@) == Ok::<Seq<(Seq<char>, Seq<char>)>, Seq<char>>(
                entries_view(v@),
            ),
            Err(e) => legacy_config_entries(xml@) == Err::<Seq<(Seq<char>, Seq<char>)>, Seq<char>>(
                e@,
            ),
        },
{
    // Whitespace around text is trimmed.
    let mut reader = xml_reader(xml, true);
    let ghost all = reader_pending(reader);
    let ghost mut i: int = 0;
    let mut st = LegacyScanner::new();
    loop
        invariant
            all == xml_events(xml@, true),
            stream_wf(all),
            0 <= i < all.len(),
            reader_pending(reader) == all.skip(i),
            legacy_read_scan(all.take(i)) == Ok::<LegacyScan, Seq<char>>(st@),
            !st@.done,
        decreases all.len() - i,
    {
        assert(all.take(i + 1).drop_last() =~= all.take(i));
        assert(all.skip(i)[0] == all[i]);
        let ev = read_event(&mut reader);
        proof {
            assert(all.skip(i).drop_first() =~= all.skip(i + 1));
        }
        match ev {
            Err(m) => {
                proof {
                    lemma_legacy_read_scan_err(all, i + 1);
                }
                return Err(m);
            },
            Ok(ev) => {
                match st.step(&ev) {
                    Err(e) => {
                        proof {
                            lemma_legacy_read_scan_err(all, i + 1);
                        }
                        return Err(e);
                    },
                    Ok(()) => {},
                }
                if st.done {
                    assert(all[i] is Eof);
                    assert(i == all.len() - 1);
                    assert(all.take(i + 1) =~= all);
                    return Ok(st.entries);
                }
                proof {
                    assert(!ends_stream(all[i]));
                    i = i + 1;
                }
            },
        }
    }
}

// ---- importing ---------------------------------------------------------------------------------

/// Outcome of one import run.
#[derive(Debug)]
pub struct ImportReport {
    /// Profile names created.
    pub imported: Vec<String>,
    /// Profile names whose stored secret and endpoint were refreshed.
    pub updated: Vec<String>,
    /// `(name, reason)` for entries that could not be imported.
    pub skipped: Vec<(String, String)>,
    /// Non-fatal notes (such as a legacy transport dropped).
    pub warnings: Vec<String>,
}

/// A report as plain values.
pub struct ReportView {
    pub imported: Seq<Seq<char>>,
    pub updated: Seq<Seq<char>>,
    pub skipped: Seq<(Seq<char>, Seq<char>)>,
    pub warnings: Seq<Seq<char>>,
}

pub open spec fn pairs_view(v: Seq<(String, String)>) -> Seq<(Seq<char>, Seq<char>)> {
    v.map_values(|p: (String, String)| (p.0@, p.1@))
}

impl View for ImportReport {
    type V = ReportView;

    open spec fn view(&self) -> ReportView {
        ReportView {
            imported: strings_view(self.imported@),
            updated: strings_view(self.updated@),
            skipped: pairs_view(self.skipped@),
            warnings: strings_view(self.warnings@),
        }
    }
}

pub open spec fn empty_report() -> ReportView {
    ReportView {
        imported: Seq::empty(),
        updated: Seq::empty(),
        skipped: Seq::empty(),
        warnings: Seq::empty(),
    }
}

/// The one-line summary of a report.
pub open spec fn report_summary(r: ReportView) -> Seq<char> {
    decimal(r.imported.len()) + " imported, "@ + decimal(r.updated.len()) + " updated, "@
        + decimal(r.skipped.len()) + " skipped"@
}

impl Default for ImportReport {
    fn default() -> (r: ImportReport)
        ensures
            r@ == empty_report(),
    {
        let r = ImportReport {
            imported: Vec::new(),
            updated: Vec::new(),
            skipped: Vec::new(),
            warnings: Vec::new(),
        };
        assert(r@ =~= empty_report()) by {
            assert(strings_view(r.imported@) =~= Seq::<Seq<char>>::empty());
            assert(strings_view(r.updated@) =~= Seq::<Seq<char>>::empty());
            assert(pairs_view(r.skipped@) =~= Seq::<(Seq<char>, Seq<char>)>::empty());
            assert(strings_view(r.warnings@) =~= Seq::<Seq<char>>::empty());
        }
        r
    }
}

impl ImportReport {
    /// "N imported, N updated, N skipped".
    pub fn summary(&self) -> (r: String)
        ensures
            r@ == report_summary(self@),
    {
        let mut v: Vec<char> = Vec::new();
        push_decimal(&mut v, self.imported.len() as u64);
        push_str(&mut v, " imported, ");
        push_decimal(&mut v, self.updated.len() as u64);
        push_str(&mut v, " updated, ");
        push_decimal(&mut v, self.skipped.len() as u64);
        push_str(&mut v, " skipped");
        string_from_chars(v.as_slice())
    }
}

/// Index of the first profile with this name, or -1.
pub open spec fn index_of_name(s: Seq<ProfileView>, name: Seq<char>) -> int
    decreases s.len(),
{
    if s.len() == 0 {
        -1
    } else if index_of_name(s.drop_last(), name) >= 0 {
        index_of_name(s.drop_last(), name)
    } else if s.last().name == name {
        s.len() - 1
    } else {
        -1
    }
}

/// What the import could not decide itself, for one entry: the id a new
/// profile was given, and the secret store's error, if it refused the
/// secret.
pub struct StepChoice {
    pub fresh_id: u128,
    pub store_error: Option<Seq<char>>,
}

pub struct ImportState {
    pub report: ReportView,
    pub profiles: Seq<ProfileView>,
}

/// The warning an entry gives when legacy parameters were removed from its
/// connection string.
pub open spec fn entry_warning(name: Seq<char>, note: Option<Seq<char>>) -> Option<Seq<char>> {
    match note {
        Some(n) => Some(name + ": "@ + n),
        None => None,
    }
}

/// One entry's import, as plain values, planned up to the secret store's
/// answer: skipped for a reason, or a secret to store under a key and the
/// profile to save once it is stored (refreshing an existing one or not).
pub enum PlanView {
    Skip(Seq<char>, Seq<char>),
    Store(Seq<char>, SecretRef, Seq<char>, ProfileView, bool),
}

/// The plan for one `(name, connection string)` entry: the string cleaned of
/// legacy parameters and parsed; a profile of that name refreshed (or a new
/// one, with id `fresh_id`, made) with the endpoint and transport; the
/// cleaned string to be stored as the profile's connection string.
pub open spec fn spec_plan(profiles: Seq<ProfileView>, entry: (Seq<char>, Seq<char>), fresh_id: u128) -> PlanView {
    let name = entry.0;
    let clean = spec_sanitize(entry.1).0;
    match spec_parse_connection(clean) {
        Err(e) => PlanView::Skip(name, error_message(e)),
        Ok(conn) => {
            let i = index_of_name(profiles, name);
            let base = if i >= 0 {
                profiles[i]
            } else {
                ProfileView {
                    id: fresh_id,
                    name: name,
                    endpoint: None,
                    transport: TransportType::AmqpTcp,
                    auth: AuthView::ConnectionString,
                }
            };
            let profile = ProfileView { endpoint: Some(conn.endpoint), transport: conn.transport, ..base };
            PlanView::Store(
                name,
                SecretRef { profile_id: ProfileId { value: profile.id }, kind: SecretKind::ConnectionString },
                clean,
                profile,
                i >= 0,
            )
        },
    }
}

/// A plan carried out, given the secret store's error, if it refused the
/// secret: a skip is reported; a stored secret saves the profile and reports
/// the entry as updated or imported; a refused one reports the entry skipped.
pub open spec fn apply_plan(st: ImportState, plan: PlanView, store_error: Option<Seq<char>>) -> ImportState {
    match plan {
        PlanView::Skip(name, reason) => ImportState {
            report: ReportView { skipped: st.report.skipped.push((name, reason)), ..st.report },
            profiles: st.profiles,
        },
        PlanView::Store(name, _key, _value, profile, existing) => match store_error {
            Some(m) => ImportState {
                report: ReportView { skipped: st.report.skipped.push((name, m)), ..st.report },
                profiles: st.profiles,
            },
            None => ImportState {
                report: if existing {
                    ReportView { updated: st.report.updated.push(name), ..st.report }
                } else {
                    ReportView { imported: st.report.imported.push(name), ..st.report }
                },
                profiles: upserted(st.profiles, profile),
            },
        },
    }
}

pub open spec fn with_warning(report: ReportView, warning: Option<Seq<char>>) -> ReportView {
    match warning {
        Some(w) => ReportView { warnings: report.warnings.push(w), ..report },
        None => report,
    }
}

/// One `(name, connection string)` entry imported: its warning reported,
/// then its plan carried out.
pub open spec fn import_step(st: ImportState, entry: (Seq<char>, Seq<char>), ch: StepChoice) -> ImportState {
    apply_plan(
        ImportState {
            report: with_warning(st.report, entry_warning(entry.0, spec_sanitize(entry.1).1)),
            profiles: st.profiles,
        },
        spec_plan(st.profiles, entry, ch.fresh_id),
        ch.store_error,
    )
}

/// The entries imported in order.
pub open spec fn import_fold(entries: Seq<(Seq<char>, Seq<char>)>, init: ImportState, choices: Seq<StepChoice>) -> ImportState
    decreases entries.len(),
{
    if entries.len() == 0 || choices.len() != entries.len() {
        init
    } else {
        import_step(
            import_fold(entries.drop_last(), init, choices.drop_last()),
            entries.last(),
            choices.last(),
        )
    }
}

fn find_profile_by_name(profiles: &Vec<NamespaceProfile>, name: &String) -> (r: Option<usize>)
    ensures
        match r {
            Some(i) => i < profiles@.len() && index_of_name(profiles_view(profiles@), name@) == i,
            None => index_of_name(profiles_view(profiles@), name@) == -1,
        },
{
    let ghost s = profiles_view(profiles@);
    let target = str_chars(name.as_str());
    let mut i: usize = 0;
    while i < profiles.len()
        invariant
            i <= profiles.len(),
            s == profiles_view(profiles@),
            target@ == name@,
            index_of_name(s.take(i as int), name@) == -1,
        decreases profiles.len() - i,
    {
        assert(s.take(i + 1).drop_last() =~= s.take(i as int));
        let c = str_chars(profiles[i].name.as_str());
        if crate::text::chars_eq(c.as_slice(), target.as_slice()) {
            proof {
                lemma_prefix_name(s, i as int, name@);
            }
            return Some(i);
        }
        i = i + 1;
    }
    assert(s.take(i as int) =~= s);
    None
}

proof fn lemma_prefix_name(s: Seq<ProfileView>, i: int, name: Seq<char>)
    requires
        0 <= i < s.len(),
        index_of_name(s.take(i), name) == -1,
        s[i].name == name,
    ensures
        index_of_name(s, name) == i,
    decreases s.len(),
{
    if i < s.len() - 1 {
        assert(s.drop_last().take(i) =~= s.take(i));
        lemma_prefix_name(s.drop_last(), i, name);
    } else {
        assert(s.drop_last() =~= s.take(i));
    }
}

proof fn lemma_index_of_name(s: Seq<ProfileView>, name: Seq<char>)
    ensures
        -1 <= index_of_name(s, name) < s.len(),
    decreases s.len(),
{
    if s.len() > 0 {
        lemma_index_of_name(s.drop_last(), name);
    }
}

fn push_name(v: &mut Vec<String>, name: String)
    ensures
        strings_view(final(v)@) == strings_view(old(v)@).push(name@),
{
    let ghost n = name@;
    v.push(name);
    assert(strings_view(v@) =~= strings_view(old(v)@).push(n));
}

fn push_pair(v: &mut Vec<(String, String)>, a: String, b: String)
    ensures
        pairs_view(final(v)@) == pairs_view(old(v)@).push((a@, b@)),
{
    let ghost p = (a@, b@);
    v.push((a, b));
    assert(pairs_view(v@) =~= pairs_view(old(v)@).push(p));
}

/// What importing an entry asks the secret store to keep: a secret under a
/// key.
pub struct StoreRequest {
    pub key: SecretRef,
    pub value: SecretString,
}

/// One entry's import, planned up to the secret store's answer.
pub enum EntryPlan {
    /// The cleaned connection string does not parse.
    Skip { name: String, reason: String },
    /// The secret to store, and the profile to save once it is stored.
    Store { name: String, request: StoreRequest, profile: NamespaceProfile, existing: bool },
}

pub open spec fn plan_view(p: EntryPlan) -> PlanView {
    match p {
        EntryPlan::Skip { name, reason } => PlanView::Skip(name@, reason@),
        EntryPlan::Store { name, request, profile, existing } => PlanView::Store(
            name@,
            request.key,
            request.value@,
            profile@,
            existing,
        ),
    }
}

/// The store's answer as the import reports it.
pub open spec fn store_error_text(answer: Result<(), SecretError>) -> Option<Seq<char>> {
    match answer {
        Ok(()) => None,
        Err(SecretError::Store(m)) => Some("secret store error: "@ + m@),
    }
}

/// Plans the import of one entry against the saved profiles: its warning,
/// and whether it is skipped or which secret is to be stored under which key
/// (the cleaned connection string, as the profile's connection string). A
/// new profile gets a fresh random id.
pub fn plan_entry(name: String, raw: &SecretString, profiles: &Vec<NamespaceProfile>) -> (r: (Option<String>, EntryPlan))
    ensures
        crate::body::text_view(r.0) == entry_warning(name@, spec_sanitize(raw@).1),
        exists|fresh_id: u128| plan_view(r.1) == #[trigger] spec_plan(profiles_view(profiles@), (name@, raw@), fresh_id),
{
    let (clean, note) = sanitize_connection_string(raw.expose());
    let warning = match note {
        Some(nt) => {
            let mut w: Vec<char> = Vec::new();
            push_str(&mut w, name.as_str());
            push_str(&mut w, ": ");
            push_str(&mut w, nt.as_str());
            let t = string_from_chars(w.as_slice());
            assert(t@ =~= name@ + ": "@ + nt@);
            Some(t)
        },
        None => None,
    };
    let secret = SecretString::new(clean);
    match NamespaceConnection::parse(secret.expose()) {
        Err(e) => {
            let reason = e.message();
            let plan = EntryPlan::Skip { name, reason };
            assert(plan_view(plan) == spec_plan(profiles_view(profiles@), (name@, raw@), 0));
            (warning, plan)
        },
        Ok(conn) => {
            let found = find_profile_by_name(profiles, &name);
            let mut profile = match found {
                Some(i) => profiles[i].duplicate(),
                None => NamespaceProfile::new_connection_string(name.clone()),
            };
            let ghost fresh = profile.id.value;
            profile.endpoint = Some(conn.endpoint().duplicate());
            profile.transport = conn.transport();
            let request = StoreRequest { key: SecretRef::new(profile.id, SecretKind::ConnectionString), value: secret };
            let plan = EntryPlan::Store { name, request, profile, existing: found.is_some() };
            proof {
                if found is Some {
                    assert(profiles_view(profiles@)[found->0 as int] == profiles@[found->0 as int]@);
                }
            }
            assert(plan_view(plan) == spec_plan(profiles_view(profiles@), (name@, raw@), fresh));
            (warning, plan)
        },
    }
}

/// Carries out a plan given the secret store's answer (which a skipped
/// entry does not wait for): the report and the saved profiles change as
/// `apply_plan` says; the rest of the configuration stays.
pub fn finish_entry(plan: EntryPlan, answer: Result<(), SecretError>, config: &mut AppConfig, report: &mut ImportReport)
    ensures
        final(config)@.schema_version == old(config)@.schema_version,
        final(config)@.ui == old(config)@.ui,
        final(config)@.retry == old(config)@.retry,
        (ImportState { report: final(report)@, profiles: final(config)@.profiles }) == apply_plan(
            ImportState { report: old(report)@, profiles: old(config)@.profiles },
            plan_view(plan),
            if plan is Skip {
                None
            } else {
                store_error_text(answer)
            },
        ),
{
    match plan {
        EntryPlan::Skip { name, reason } => {
            push_pair(&mut report.skipped, name, reason);
        },
        EntryPlan::Store { name, request, profile, existing } => match answer {
            Err(e) => {
                let msg = e.message();
                push_pair(&mut report.skipped, name, msg);
            },
            Ok(()) => {
                config.upsert_profile(profile);
                if existing {
                    push_name(&mut report.updated, name);
                } else {
                    push_name(&mut report.imported, name);
                }
            },
        },
    }
}

/// Import every entry into `config` and `secrets`. Idempotent: an entry
/// whose name is already a profile's has that profile's secret and endpoint
/// refreshed instead of being duplicated. Each entry is planned by
/// [`plan_entry`]; the store is handed exactly the plan's request, and
/// [`finish_entry`] takes in its answer. What the store answers is its own
/// affair: the result holds whatever it answered.
pub fn import_entries(entries: Vec<(String, SecretString)>, config: &mut AppConfig, secrets: &dyn SecretStore) -> (r: ImportReport)
    ensures
        final(config)@.schema_version == old(config)@.schema_version,
        final(config)@.ui == old(config)@.ui,
        final(config)@.retry == old(config)@.retry,
        exists|choices: Seq<StepChoice>|
            choices.len() == entries@.len() && #[trigger] import_fold(
                entries_view(entries@),
                ImportState { report: empty_report(), profiles: old(config)@.profiles },
                choices,
            ) == (ImportState { report: r@, profiles: final(config)@.profiles }),
{
    let mut report = ImportReport::default();
    let ghost all = entries_view(entries@);
    let ghost init = ImportState { report: empty_report(), profiles: config@.profiles };
    let ghost mut choices: Seq<StepChoice> = Seq::empty();
    let n = entries.len();
    for entry in it: entries
        invariant
            it.seq() == entries@,
            all == entries_view(entries@),
            n == entries@.len(),
            choices.len() == it.index(),
            config@.schema_version == old(config)@.schema_version,
            config@.ui == old(config)@.ui,
            config@.retry == old(config)@.retry,
            init == (ImportState { report: empty_report(), profiles: old(config)@.profiles }),
            import_fold(all.take(it.index() as int), init, choices) == (ImportState {
                report: report@,
                profiles: config@.profiles,
            }),
    {
        let ghost k = it.index() as int;
        let ghost before = ImportState { report: report@, profiles: config@.profiles };
        proof {
            assert(all.take(k + 1).drop_last() =~= all.take(k));
            assert(all.take(k + 1).last() == (entry.0@, entry.1@));
        }
        let (name, raw) = entry;
        let (warning, plan) = plan_entry(name, &raw, &config.profiles);
        match warning {
            Some(w) => push_name(&mut report.warnings, w),
            None => {},
        }
        let ghost mid = ImportState { report: report@, profiles: config@.profiles };
        let ghost fresh = choose|f: u128| plan_view(plan) == #[trigger] spec_plan(before.profiles, all[k], f);
        let answer = match &plan {
            EntryPlan::Store { request, .. } => secrets.set(&request.key, &request.value),
            EntryPlan::Skip { .. } => Ok(()),
        };
        let ghost choice = StepChoice {
            fresh_id: fresh,
            store_error: if plan is Skip {
                None
            } else {
                store_error_text(answer)
            },
        };
        let ghost pv = plan_view(plan);
        finish_entry(plan, answer, config, &mut report);
        proof {
            assert(mid.report == with_warning(before.report, entry_warning(all[k].0, spec_sanitize(all[k].1).1)));
            assert(import_step(before, all[k], choice) == apply_plan(mid, pv, choice.store_error));
        }
        proof {
            let old_choices = choices;
            choices = choices.push(choice);
            assert(choices.drop_last() =~= old_choices);
            assert(import_fold(all.take(k + 1), init, choices) == import_step(before, all[k], choice));
        }
    }
    proof {
        assert(all.take(n as int) =~= all);
    }
    report
}

/// Why an import failed as a whole.
#[derive(Debug)]
pub enum LegacyImportError {
    /// The file could not be read.
    Io { path: String, message: String },
    /// The file is not a namespaces config.
    Parse { path: String, detail: String },
    /// The file has no namespace entries.
    NoNamespaces { path: String },
}

impl LegacyImportError {
    /// The error's message text.
    pub fn message(&self) -> (r: String)
        ensures
            r@ == match *self {
                LegacyImportError::Io { path, message } => "failed to read "@ + path@ + ": "@ + message@,
                LegacyImportError::Parse { path, detail } => path@ + " is not a valid namespaces config: "@ + detail@,
                LegacyImportError::NoNamespaces { path } => "no <serviceBusNamespaces> entries found in "@ + path@,
            },
    {
        let mut v: Vec<char> = Vec::new();
        match self {
            LegacyImportError::Io { path, message } => {
                push_str(&mut v, "failed to read ");
                push_str(&mut v, path.as_str());
                push_str(&mut v, ": ");
                push_str(&mut v, message.as_str());
            },
            LegacyImportError::Parse { path, detail } => {
                push_str(&mut v, path.as_str());
                push_str(&mut v, " is not a valid namespaces config: ");
                push_str(&mut v, detail.as_str());
            },
            LegacyImportError::NoNamespaces { path } => {
                push_str(&mut v, "no <serviceBusNamespaces> entries found in ");
                push_str(&mut v, path.as_str());
            },
        }
        string_from_chars(v.as_slice())
    }
}

/// Import every `serviceBusNamespaces` entry of a config file's text (read
/// from `path`) into `config` and `secrets`.
pub fn import_from_text(path: &str, xml: &str, config: &mut AppConfig, secrets: &dyn SecretStore) -> (r: Result<ImportReport, LegacyImportError>)
    ensures
        r is Err ==> final(config)@ == old(config)@,
        match legacy_config_entries(xml@) {
            Err(d) => r matches Err(LegacyImportError::Parse { path: p, detail }) && p@ == path@
                && detail@ == d,
            Ok(es) => if es.len() == 0 {
                r matches Err(LegacyImportError::NoNamespaces { path: p }) && p@ == path@
            } else {
                r matches Ok(rep) && exists|choices: Seq<StepChoice>|
                    choices.len() == es.len() && #[trigger] import_fold(
                        es,
                        ImportState { report: empty_report(), profiles: old(config)@.profiles },
                        choices,
                    ) == (ImportState { report: rep@, profiles: final(config)@.profiles })
            },
        },
{
    let entries = match parse_legacy_config(xml) {
        Ok(e) => e,
        Err(detail) => {
            return Err(LegacyImportError::Parse { path: path.to_owned(), detail });
        },
    };
    if entries.len() == 0 {
        return Err(LegacyImportError::NoNamespaces { path: path.to_owned() });
    }
    let report = import_entries(entries, config, secrets);
    Ok(report)
}

// ---- re-importing -----------------------------------------------------------------------------

/// An entry whose cleaned connection string parses.
pub open spec fn entry_ok(entry: (Seq<char>, Seq<char>)) -> bool {
    spec_parse_connection(spec_sanitize(entry.1).0) is Ok
}

pub open spec fn names_of(s: Seq<ProfileView>) -> Seq<Seq<char>> {
    s.map_values(|p: ProfileView| p.name)
}

pub open spec fn ids_of(s: Seq<ProfileView>) -> Seq<u128> {
    s.map_values(|p: ProfileView| p.id)
}

proof fn lemma_names_decide_lookup(s1: Seq<ProfileView>, s2: Seq<ProfileView>, n: Seq<char>)
    requires
        names_of(s1) == names_of(s2),
    ensures
        index_of_name(s1, n) == index_of_name(s2, n),
    decreases s1.len(),
{
    assert(names_of(s1).len() == names_of(s2).len());
    assert(names_of(s1).len() == s1.len());
    assert(names_of(s2).len() == s2.len());
    if s1.len() > 0 {
        assert(names_of(s1.drop_last()) =~= names_of(s1).drop_last());
        assert(names_of(s2.drop_last()) =~= names_of(s2).drop_last());
        lemma_names_decide_lookup(s1.drop_last(), s2.drop_last(), n);
        assert(names_of(s1)[s1.len() - 1] == s1.last().name);
        assert(names_of(s2)[s2.len() - 1] == s2.last().name);
        assert(s1.last().name == s2.last().name);
    } else {
        assert(s2.len() == 0);
    }
}

proof fn lemma_ids_decide_lookup(s1: Seq<ProfileView>, s2: Seq<ProfileView>, x: u128)
    requires
        ids_of(s1) == ids_of(s2),
    ensures
        index_of_id(s1, x) == index_of_id(s2, x),
    decreases s1.len(),
{
    assert(ids_of(s1).len() == ids_of(s2).len());
    assert(ids_of(s1).len() == s1.len());
    assert(ids_of(s2).len() == s2.len());
    if s1.len() > 0 {
        assert(ids_of(s1.drop_last()) =~= ids_of(s1).drop_last());
        assert(ids_of(s2.drop_last()) =~= ids_of(s2).drop_last());
        lemma_ids_decide_lookup(s1.drop_last(), s2.drop_last(), x);
        assert(ids_of(s1)[s1.len() - 1] == s1.last().id);
        assert(ids_of(s2)[s2.len() - 1] == s2.last().id);
        assert(s1.last().id == s2.last().id);
    } else {
        assert(s2.len() == 0);
    }
}

proof fn lemma_unique_index(s: Seq<ProfileView>, i: int)
    requires
        ids_unique(s),
        0 <= i < s.len(),
    ensures
        index_of_id(s, s[i].id) == i,
{
    crate::config::lemma_index_of_id(s, s[i].id);
    let k = index_of_id(s, s[i].id);
    if k >= 0 && k < i {
        assert(s[k].id == s[i].id);
    }
}

proof fn lemma_name_lookup_after_push(s: Seq<ProfileView>, x: ProfileView, n: Seq<char>)
    ensures
        index_of_name(s, n) >= 0 ==> index_of_name(s.push(x), n) == index_of_name(s, n),
        x.name == n ==> index_of_name(s.push(x), n) >= 0,
{
    assert(s.push(x).drop_last() =~= s);
}

proof fn lemma_id_lookup_after_push(s: Seq<ProfileView>, x: ProfileView, y: u128)
    requires
        index_of_id(s, y) == -1,
        x.id != y,
    ensures
        index_of_id(s.push(x), y) == -1,
{
    assert(s.push(x).drop_last() =~= s);
}

/// The facts the first import run keeps after its first `k` entries.
pub open spec fn first_run_invariant(
    entries: Seq<(Seq<char>, Seq<char>)>,
    choices: Seq<StepChoice>,
    k: int,
    p: Seq<ProfileView>,
) -> bool {
    &&& ids_unique(p)
    &&& forall|i: int| k <= i < choices.len() ==> index_of_id(p, #[trigger] choices[i].fresh_id) == -1
    &&& forall|j: int| 0 <= j < k && entry_ok(#[trigger] entries[j]) ==> index_of_name(p, entries[j].0) >= 0
}

/// The preconditions of a first run that stores every secret and gives new
/// profiles ids not in use.
pub open spec fn clean_first_run(
    entries: Seq<(Seq<char>, Seq<char>)>,
    st0: ImportState,
    choices: Seq<StepChoice>,
) -> bool {
    &&& choices.len() == entries.len()
    &&& ids_unique(st0.profiles)
    &&& forall|i: int| 0 <= i < choices.len() ==> (#[trigger] choices[i]).store_error is None
    &&& forall|i: int, j: int| 0 <= i < j < choices.len() ==> choices[i].fresh_id != choices[j].fresh_id
    &&& forall|i: int| 0 <= i < choices.len() ==> index_of_id(st0.profiles, #[trigger] choices[i].fresh_id) == -1
}

proof fn lemma_first_run(
    entries: Seq<(Seq<char>, Seq<char>)>,
    st0: ImportState,
    choices: Seq<StepChoice>,
    k: int,
)
    requires
        clean_first_run(entries, st0, choices),
        0 <= k <= entries.len(),
    ensures
        first_run_invariant(
            entries,
            choices,
            k,
            import_fold(entries.take(k), st0, choices.take(k)).profiles,
        ),
    decreases k,
{
    if k == 0 {
        assert(entries.take(0).len() == 0);
    } else {
        lemma_first_run(entries, st0, choices, k - 1);
        let e0 = entries.take(k - 1);
        let c0 = choices.take(k - 1);
        assert(entries.take(k).drop_last() =~= e0);
        assert(choices.take(k).drop_last() =~= c0);
        let before = import_fold(e0, st0, c0);
        let p = before.profiles;
        let entry = entries[k - 1];
        let ch = choices[k - 1];
        assert(entries.take(k).last() == entry);
        assert(choices.take(k).last() == ch);
        let after = import_step(before, entry, ch);
        assert(import_fold(entries.take(k), st0, choices.take(k)) == after);
        let q = after.profiles;
        if entry_ok(entry) {
            let conn = spec_parse_connection(spec_sanitize(entry.1).0)->Ok_0;
            let i = index_of_name(p, entry.0);
            lemma_index_of_name(p, entry.0);
            if i >= 0 {
                let prof = ProfileView { endpoint: Some(conn.endpoint), transport: conn.transport, ..p[i] };
                lemma_unique_index(p, i);
                assert(q == p.update(i, prof));
                assert(names_of(q) =~= names_of(p)) by {
                    assert(p[i].name == entry.0) by {
                        lemma_index_of_name_hit(p, entry.0);
                    }
                }
                assert(ids_of(q) =~= ids_of(p));
                assert forall|x: int| k <= x < choices.len() implies index_of_id(q, #[trigger] choices[x].fresh_id) == -1 by {
                    lemma_ids_decide_lookup(q, p, choices[x].fresh_id);
                }
                assert forall|j: int| 0 <= j < k && entry_ok(#[trigger] entries[j]) implies index_of_name(q, entries[j].0) >= 0 by {
                    lemma_names_decide_lookup(q, p, entries[j].0);
                }
                crate::config::law_upsert_keeps_ids_unique(p, prof);
            } else {
                let prof = ProfileView {
                    id: ch.fresh_id,
                    name: entry.0,
                    endpoint: Some(conn.endpoint),
                    transport: conn.transport,
                    auth: AuthView::ConnectionString,
                };
                assert(index_of_id(p, ch.fresh_id) == -1);
                assert(q == p.push(prof));
                crate::config::law_upsert_keeps_ids_unique(p, prof);
                assert forall|x: int| k <= x < choices.len() implies index_of_id(q, #[trigger] choices[x].fresh_id) == -1 by {
                    assert(choices[k - 1].fresh_id != choices[x].fresh_id);
                    lemma_id_lookup_after_push(p, prof, choices[x].fresh_id);
                }
                assert forall|j: int| 0 <= j < k && entry_ok(#[trigger] entries[j]) implies index_of_name(q, entries[j].0) >= 0 by {
                    lemma_name_lookup_after_push(p, prof, entries[j].0);
                }
            }
        } else {
            assert(q == p);
        }
    }
}

proof fn lemma_index_of_name_hit(s: Seq<ProfileView>, n: Seq<char>)
    requires
        index_of_name(s, n) >= 0,
    ensures
        index_of_name(s, n) < s.len(),
        s[index_of_name(s, n)].name == n,
    decreases s.len(),
{
    if index_of_name(s.drop_last(), n) >= 0 {
        lemma_index_of_name_hit(s.drop_last(), n);
    }
}

/// The names of the entries whose cleaned connection string parses, in
/// order.
pub open spec fn ok_names(entries: Seq<(Seq<char>, Seq<char>)>) -> Seq<Seq<char>>
    decreases entries.len(),
{
    if entries.len() == 0 {
        Seq::empty()
    } else if entry_ok(entries.last()) {
        ok_names(entries.drop_last()).push(entries.last().0)
    } else {
        ok_names(entries.drop_last())
    }
}

/// Every secret of a run was stored.
pub open spec fn all_stored(choices: Seq<StepChoice>) -> bool {
    forall|i: int| 0 <= i < choices.len() ==> (#[trigger] choices[i]).store_error is None
}

/// The second run over the same entries: names and ids stay as they were,
/// nothing is imported anew, and where every secret is stored each entry
/// that parses is reported updated.
proof fn lemma_second_run(
    entries: Seq<(Seq<char>, Seq<char>)>,
    base: Seq<ProfileView>,
    choices: Seq<StepChoice>,
    k: int,
)
    requires
        choices.len() == entries.len(),
        0 <= k <= entries.len(),
        ids_unique(base),
        forall|j: int| 0 <= j < entries.len() && entry_ok(#[trigger] entries[j]) ==> index_of_name(base, entries[j].0) >= 0,
    ensures
        ({
            let st = import_fold(
                entries.take(k),
                ImportState { report: empty_report(), profiles: base },
                choices.take(k),
            );
            &&& names_of(st.profiles) == names_of(base)
            &&& ids_of(st.profiles) == ids_of(base)
            &&& st.report.imported.len() == 0
            &&& all_stored(choices) ==> st.report.updated == ok_names(entries.take(k))
        }),
    decreases k,
{
    let init = ImportState { report: empty_report(), profiles: base };
    if k == 0 {
        assert(entries.take(0).len() == 0);
    } else {
        lemma_second_run(entries, base, choices, k - 1);
        let e0 = entries.take(k - 1);
        let c0 = choices.take(k - 1);
        assert(entries.take(k).drop_last() =~= e0);
        assert(choices.take(k).drop_last() =~= c0);
        let before = import_fold(e0, init, c0);
        let p = before.profiles;
        let entry = entries[k - 1];
        let ch = choices[k - 1];
        assert(entries.take(k).last() == entry);
        assert(choices.take(k).last() == ch);
        let after = import_step(before, entry, ch);
        assert(import_fold(entries.take(k), init, choices.take(k)) == after);
        assert(ok_names(entries.take(k)) == if entry_ok(entry) {
            ok_names(e0).push(entry.0)
        } else {
            ok_names(e0)
        });
        if entry_ok(entry) {
            let conn = spec_parse_connection(spec_sanitize(entry.1).0)->Ok_0;
            lemma_names_decide_lookup(p, base, entry.0);
            let i = index_of_name(p, entry.0);
            lemma_index_of_name_hit(p, entry.0);
            assert(names_of(p).len() == p.len());
            assert(ids_of(p).len() == p.len());
            if ch.store_error is None {
                let prof = ProfileView { endpoint: Some(conn.endpoint), transport: conn.transport, ..p[i] };
                // ids are unique because they are the base's ids
                assert(ids_unique(p)) by {
                    assert forall|a: int, b: int| 0 <= a < b < p.len() implies p[a].id != p[b].id by {
                        assert(ids_of(p)[a] == p[a].id);
                        assert(ids_of(p)[b] == p[b].id);
                        assert(ids_of(base)[a] == base[a].id);
                        assert(ids_of(base)[b] == base[b].id);
                    }
                }
                lemma_unique_index(p, i);
                assert(after.profiles == p.update(i, prof));
                assert(names_of(after.profiles) =~= names_of(p));
                assert(ids_of(after.profiles) =~= ids_of(p));
            }
        }
    }
}

/// Importing the same entries again adds no profile, keeps every profile's
/// name and id, and reports none as imported: every entry that parses is
/// found by name and refreshed, and, where the second run's store keeps
/// every secret, reported as updated, in order. This holds after a first
/// run that stored every secret and gave new profiles ids not already in
/// use.
pub proof fn law_reimport_adds_no_profiles(
    entries: Seq<(Seq<char>, Seq<char>)>,
    st0: ImportState,
    first: Seq<StepChoice>,
    second: Seq<StepChoice>,
)
    requires
        clean_first_run(entries, st0, first),
        second.len() == entries.len(),
    ensures
        ({
            let once = import_fold(entries, st0, first);
            let twice = import_fold(
                entries,
                ImportState { report: empty_report(), profiles: once.profiles },
                second,
            );
            &&& twice.profiles.len() == once.profiles.len()
            &&& ids_of(twice.profiles) == ids_of(once.profiles)
            &&& names_of(twice.profiles) == names_of(once.profiles)
            &&& twice.report.imported.len() == 0
            &&& all_stored(second) ==> twice.report.updated == ok_names(entries)
        }),
{
    let n = entries.len() as int;
    lemma_first_run(entries, st0, first, n);
    assert(entries.take(n) =~= entries);
    assert(first.take(n) =~= first);
    let once = import_fold(entries, st0, first);
    lemma_second_run(entries, once.profiles, second, n);
    assert(second.take(n) =~= second);
    let twice = import_fold(
        entries,
        ImportState { report: empty_report(), profiles: once.profiles },
        second,
    );
    assert(names_of(twice.profiles).len() == twice.profiles.len());
    assert(names_of(once.profiles).len() == once.profiles.len());
}


proof fn lemma_index_of_name_first(s: Seq<ProfileView>, n: Seq<char>)
    ensures
        -1 <= index_of_name(s, n) < s.len(),
        index_of_name(s, n) >= 0 ==> s[index_of_name(s, n)].name == n,
        forall|j: int|
            0 <= j < s.len() && (index_of_name(s, n) < 0 || j < index_of_name(s, n)) ==> #[trigger] s[j].name
                != n,
    decreases s.len(),
{
    if s.len() > 0 {
        lemma_index_of_name_first(s.drop_last(), n);
        assert forall|j: int|
            0 <= j < s.len() && (index_of_name(s, n) < 0 || j < index_of_name(s, n)) implies #[trigger] s[j].name
                != n by {
            if j < s.len() - 1 {
                assert(s[j] == s.drop_last()[j]);
            }
        }
    }
}

proof fn lemma_name_at(s: Seq<ProfileView>, k: int, n: Seq<char>)
    requires
        0 <= k < s.len(),
        s[k].name == n,
        forall|j: int| 0 <= j < k ==> #[trigger] s[j].name != n,
    ensures
        index_of_name(s, n) == k,
    decreases s.len(),
{
    if k < s.len() - 1 {
        assert forall|j: int| 0 <= j < k implies #[trigger] s.drop_last()[j].name != n by {
            assert(s.drop_last()[j] == s[j]);
        }
        lemma_name_at(s.drop_last(), k, n);
    } else {
        lemma_index_of_name_first(s.drop_last(), n);
        if index_of_name(s.drop_last(), n) >= 0 {
            let m = index_of_name(s.drop_last(), n);
            assert(s.drop_last()[m] == s[m]);
        }
    }
}

/// After an entry whose cleaned connection string parses is imported and
/// its secret stored, the profile found under the entry's name carries the
/// parsed connection's endpoint and transport, and keeps the name.
pub proof fn law_imported_profile_has_parsed_endpoint(
    st: ImportState,
    entry: (Seq<char>, Seq<char>),
    ch: StepChoice,
)
    requires
        spec_parse_connection(spec_sanitize(entry.1).0) is Ok,
        ch.store_error is None,
    ensures
        ({
            let conn = spec_parse_connection(spec_sanitize(entry.1).0)->Ok_0;
            let after = import_step(st, entry, ch).profiles;
            let k = index_of_name(after, entry.0);
            &&& 0 <= k < after.len()
            &&& after[k].endpoint == Some(conn.endpoint)
            &&& after[k].transport == conn.transport
        }),
{
    let conn = spec_parse_connection(spec_sanitize(entry.1).0)->Ok_0;
    let p = st.profiles;
    let n = entry.0;
    let i = index_of_name(p, n);
    lemma_index_of_name_first(p, n);
    let base = if i >= 0 {
        p[i]
    } else {
        ProfileView {
            id: ch.fresh_id,
            name: n,
            endpoint: None,
            transport: TransportType::AmqpTcp,
            auth: AuthView::ConnectionString,
        }
    };
    let prof = ProfileView { endpoint: Some(conn.endpoint), transport: conn.transport, ..base };
    let after = import_step(st, entry, ch).profiles;
    assert(after == upserted(p, prof));
    crate::config::lemma_index_of_id(p, prof.id);
    let x = index_of_id(p, prof.id);
    if x >= 0 {
        assert(after == p.update(x, prof));
        if i >= 0 {
            assert(x <= i) by {
                if x > i {
                    assert(p[i].id == prof.id);
                }
            }
        }
        assert forall|j: int| 0 <= j < x implies #[trigger] after[j].name != n by {
            assert(after[j] == p[j]);
        }
        lemma_name_at(after, x, n);
    } else {
        assert(after == p.push(prof));
        assert(i < 0) by {
            if i >= 0 {
                assert(p[i].id == prof.id);
            }
        }
        assert forall|j: int| 0 <= j < p.len() implies #[trigger] after[j].name != n by {
            assert(after[j] == p[j]);
        }
        lemma_name_at(after, p.len() as int, n);
    }
}

} // verus!
