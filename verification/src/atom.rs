//! Reading the ATOM envelopes the management API returns.
//!
//! The service writes XML namespaces inconsistently (`d2p1:` prefixes,
//! default namespaces, `i:nil` markers), so every lookup matches *local*
//! element names. The document is read once into its nodes in document
//! order, each with its depth; the entity readers work on that list.

use vstd::prelude::*;
use crate::timestamp::Timestamp;
use crate::body::text_view;
use crate::dialogs::{parse_i64, parse_u64, spec_parse_i64, spec_parse_u64};
use crate::duration::{Duration, parse_iso8601, spec_parse_iso8601};
use crate::duration::{spec_unlimited, unlimited};
use crate::model::{
    EntityRuntimeInfo, EntityStatus, MessageCountDetails, NamespaceInfo, QueueInfo,
    QueueProperties, RuleFilter, RuleInfo, RuleProperties, SubscriptionInfo,
    SubscriptionProperties, TopicInfo, TopicProperties, status_of_text,
};
use crate::message::props_view;
use crate::mgmt::MgmtError;
use crate::text::{chars_eq_str, lower, str_chars, to_lower};

verus! {

broadcast use vstd::string::group_string_axioms;

/// The XML Schema instance namespace (`i:nil`, `i:type`).
pub const XSI_NS: &'static str = "http://www.w3.org/2001/XMLSchema-instance";

// ---- the document ----------------------------------------------------------------------------

#[verifier::external_type_specification]
#[verifier::external_body]
pub struct ExXmlDocument<'input>(roxmltree::Document<'input>);

/// One node of a document: whether it is an element, its local name (empty
/// for other nodes), its text, whether it is marked `i:nil="true"`, its
/// `i:type`, and its depth (the document node has depth 0).
#[derive(Clone, Debug)]
pub struct XmlNode {
    pub element: bool,
    pub name: String,
    pub text: Option<String>,
    pub nil: bool,
    pub xsi_type: Option<String>,
    pub depth: usize,
}

/// What `roxmltree` tells of one node of a document: whether it is an
/// element, its local name (`tag_name().name()`, empty for other nodes), its
/// text (`text()`), its `i:nil` and `i:type` attributes, and how many
/// ancestors it has counting itself (`ancestors().count()`).
pub struct NodeFacts {
    pub element: bool,
    pub name: Seq<char>,
    pub text: Option<Seq<char>>,
    pub nil: Option<Seq<char>>,
    pub xsi_type: Option<Seq<char>>,
    pub ancestors: nat,
}

/// What `roxmltree::Document::parse` reports of a text: `None` when it
/// parses, else the parser's error message.
pub uninterp spec fn xml_parse_error(text: Seq<char>) -> Option<Seq<char>>;

/// The nodes `roxmltree` makes of a text, by node id (`NodeId::new(i)`),
/// which is document order.
pub uninterp spec fn xml_nodes(text: Seq<char>) -> Seq<NodeFacts>;

/// A parsed document together with the text it was parsed from.
pub struct ParsedXml<'input> {
    text: &'input str,
    doc: roxmltree::Document<'input>,
}

impl<'input> ParsedXml<'input> {
    /// The text the document was parsed from.
    pub closed spec fn source(&self) -> Seq<char> {
        self.text@
    }
}

/// `roxmltree::Document::parse`, kept with its text, or the parser's error
/// message. A parsed document has its document node and at most `u32::MAX`
/// nodes (`ParsingOptions::nodes_limit` is `u32::MAX` by default).
#[verifier::external_body]
fn xml_document<'input>(xml: &'input str) -> (r: Result<ParsedXml<'input>, String>)
    ensures
        match r {
            Ok(p) => p.source() == xml@ && xml_parse_error(xml@) is None && 1 <= xml_nodes(xml@).len()
                <= u32::MAX,
            Err(m) => xml_parse_error(xml@) == Some(m@),
        },
{
    match roxmltree::Document::parse(xml) {
        Ok(doc) => Ok(ParsedXml { text: xml, doc }),
        Err(e) => Err(e.to_string()),
    }
}

/// `Document::get_node(NodeId::new(i))` is a node.
#[verifier::external_body]
fn node_exists(p: &ParsedXml, i: u32) -> (r: bool)
    requires
        i < u32::MAX,
    ensures
        r == (i < xml_nodes(p.source()).len()),
{
    p.doc.get_node(roxmltree::NodeId::new(i)).is_some()
}

/// `Node::is_element` of node `i`.
#[verifier::external_body]
fn is_element(p: &ParsedXml, i: u32) -> (r: bool)
    requires
        i < xml_nodes(p.source()).len(),
        i < u32::MAX,
    ensures
        r == xml_nodes(p.source())[i as int].element,
{
    p.doc.get_node(roxmltree::NodeId::new(i)).unwrap().is_element()
}

/// `Node::tag_name().name()` of node `i`: its local name.
#[verifier::external_body]
fn local_name(p: &ParsedXml, i: u32) -> (r: String)
    requires
        i < xml_nodes(p.source()).len(),
        i < u32::MAX,
    ensures
        r@ == xml_nodes(p.source())[i as int].name,
{
    p.doc.get_node(roxmltree::NodeId::new(i)).unwrap().tag_name().name().to_owned()
}

/// `Node::text` of node `i`.
#[verifier::external_body]
fn node_text(p: &ParsedXml, i: u32) -> (r: Option<String>)
    requires
        i < xml_nodes(p.source()).len(),
        i < u32::MAX,
    ensures
        text_view(r) == xml_nodes(p.source())[i as int].text,
{
    p.doc.get_node(roxmltree::NodeId::new(i)).unwrap().text().map(|t| t.to_owned())
}

/// `Node::attribute((XSI_NS, "nil"))` of node `i`.
#[verifier::external_body]
fn nil_attribute(p: &ParsedXml, i: u32) -> (r: Option<String>)
    requires
        i < xml_nodes(p.source()).len(),
        i < u32::MAX,
    ensures
        text_view(r) == xml_nodes(p.source())[i as int].nil,
{
    p.doc.get_node(roxmltree::NodeId::new(i)).unwrap().attribute((XSI_NS, "nil")).map(|v| v.to_owned())
}

/// `Node::attribute((XSI_NS, "type"))` of node `i`.
#[verifier::external_body]
fn type_attribute(p: &ParsedXml, i: u32) -> (r: Option<String>)
    requires
        i < xml_nodes(p.source()).len(),
        i < u32::MAX,
    ensures
        text_view(r) == xml_nodes(p.source())[i as int].xsi_type,
{
    p.doc.get_node(roxmltree::NodeId::new(i)).unwrap().attribute((XSI_NS, "type")).map(|v| v.to_owned())
}

/// `Node::ancestors().count()` of node `i`: the ancestors starting at the
/// node itself, so at least one.
#[verifier::external_body]
fn ancestor_count(p: &ParsedXml, i: u32) -> (r: usize)
    requires
        i < xml_nodes(p.source()).len(),
        i < u32::MAX,
    ensures
        r == xml_nodes(p.source())[i as int].ancestors,
        r >= 1,
{
    p.doc.get_node(roxmltree::NodeId::new(i)).unwrap().ancestors().count()
}

/// A node as the entity readers see it: marked nil when `i:nil` is
/// `true`, at depth one less than its ancestor count.
pub open spec fn node_matches(n: XmlNode, f: NodeFacts) -> bool {
    &&& n.element == f.element
    &&& n.name@ == f.name
    &&& text_view(n.text) == f.text
    &&& n.nil == (f.nil == Some("true"@))
    &&& text_view(n.xsi_type) == f.xsi_type
    &&& n.depth + 1 == f.ancestors
}

/// `s` is the node listing of `text`, node by node.
pub open spec fn listing_of(s: Seq<XmlNode>, text: Seq<char>) -> bool {
    &&& s.len() == xml_nodes(text).len()
    &&& forall|i: int| 0 <= i < s.len() ==> #[trigger] node_matches(s[i], xml_nodes(text)[i])
}

fn read_node(p: &ParsedXml, i: u32) -> (r: XmlNode)
    requires
        i < xml_nodes(p.source()).len(),
        i < u32::MAX,
    ensures
        node_matches(r, xml_nodes(p.source())[i as int]),
{
    let nil = match nil_attribute(p, i) {
        Some(v) => {
            let c = str_chars(v.as_str());
            chars_eq_str(c.as_slice(), "true")
        },
        None => false,
    };
    let depth = ancestor_count(p, i) - 1;
    XmlNode {
        element: is_element(p, i),
        name: local_name(p, i),
        text: node_text(p, i),
        nil,
        xsi_type: type_attribute(p, i),
        depth,
    }
}

/// The nodes of an XML text in document order, or the parser's error
/// message.
pub fn read_xml(xml: &str) -> (r: Result<Vec<XmlNode>, String>)
    ensures
        match xml_parse_error(xml@) {
            None => r matches Ok(nodes) && listing_of(nodes@, xml@),
            Some(m) => r matches Err(e) && e@ == m,
        },
{
    let p = match xml_document(xml) {
        Ok(p) => p,
        Err(e) => {
            return Err(e);
        },
    };
    let ghost facts = xml_nodes(xml@);
    let mut out: Vec<XmlNode> = Vec::new();
    let mut i: u32 = 0;
    while i < u32::MAX && node_exists(&p, i)
        invariant
            p.source() == xml@,
            facts == xml_nodes(xml@),
            facts.len() <= u32::MAX,
            i <= facts.len(),
            out@.len() == i,
            forall|j: int| 0 <= j < i ==> #[trigger] node_matches(out@[j], facts[j]),
        decreases facts.len() - i,
    {
        out.push(read_node(&p, i));
        i = i + 1;
    }
    Ok(out)
}

// ---- finding nodes ---------------------------------------------------------------------------

/// The end of node `p`'s subtree: the first later node that is not deeper.
pub open spec fn subtree_end(s: Seq<XmlNode>, p: int, j: int) -> int
    decreases s.len() - j,
{
    if j >= s.len() {
        s.len() as int
    } else if s[j].depth <= s[p].depth {
        j
    } else {
        subtree_end(s, p, j + 1)
    }
}

pub open spec fn end_of(s: Seq<XmlNode>, p: int) -> int {
    subtree_end(s, p, p + 1)
}

/// First index in `[lo, hi)` satisfying `pred`, or -1.
pub open spec fn first_from(lo: int, hi: int, pred: spec_fn(int) -> bool) -> int
    decreases hi - lo,
{
    if lo >= hi {
        -1
    } else if pred(lo) {
        lo
    } else {
        first_from(lo + 1, hi, pred)
    }
}

/// Node `k` is a child of node `p` named `name` (and not `i:nil` when
/// `skip_nil`).
pub open spec fn is_named_child(s: Seq<XmlNode>, p: int, k: int, name: Seq<char>, skip_nil: bool) -> bool {
    s[k].depth == s[p].depth + 1 && s[k].name@ == name && !(skip_nil && s[k].nil)
}

/// The first child of `p` named `name` (skipping nil-marked ones when
/// asked), or -1.
pub open spec fn child_named(s: Seq<XmlNode>, p: int, name: Seq<char>, skip_nil: bool) -> int {
    first_from(p + 1, end_of(s, p), |k: int| is_named_child(s, p, k, name, skip_nil))
}

/// The first node named `name` in `p`'s subtree, `p` included, or -1.
pub open spec fn descendant_named(s: Seq<XmlNode>, p: int, name: Seq<char>) -> int {
    first_from(p, end_of(s, p), |k: int| s[k].name@ == name)
}

proof fn lemma_first_from(lo: int, hi: int, pred: spec_fn(int) -> bool)
    requires
        0 <= lo,
    ensures
        first_from(lo, hi, pred) == -1 || (lo <= first_from(lo, hi, pred) < hi && pred(
            first_from(lo, hi, pred),
        )),
        forall|k: int|
            lo <= k < hi && (first_from(lo, hi, pred) == -1 || k < first_from(lo, hi, pred))
                ==> !#[trigger] pred(k),
    decreases hi - lo,
{
    if lo < hi && !pred(lo) {
        lemma_first_from(lo + 1, hi, pred);
        assert forall|k: int|
            lo <= k < hi && (first_from(lo, hi, pred) == -1 || k < first_from(lo, hi, pred))
                implies !#[trigger] pred(k) by {
            if k > lo {
                assert(first_from(lo, hi, pred) == first_from(lo + 1, hi, pred));
            }
        }
    } else if lo < hi {
        assert(first_from(lo, hi, pred) == lo);
    } else {
        assert(first_from(lo, hi, pred) == -1);
    }
}

proof fn lemma_subtree_end(s: Seq<XmlNode>, p: int, j: int)
    requires
        0 <= p < j,
    ensures
        j <= subtree_end(s, p, j) || j > s.len(),
        subtree_end(s, p, j) <= s.len() || j > s.len(),
        forall|k: int| j <= k < subtree_end(s, p, j) ==> s[k].depth > s[p].depth,
    decreases s.len() - j,
{
    if j < s.len() && s[j].depth > s[p].depth {
        lemma_subtree_end(s, p, j + 1);
    }
}

/// The end of node `p`'s subtree.
pub fn subtree_end_exec(nodes: &Vec<XmlNode>, p: usize) -> (r: usize)
    requires
        p < nodes@.len(),
    ensures
        r == end_of(nodes@, p as int),
        p < r <= nodes@.len(),
{
    let n = nodes.len();
    let mut j = p + 1;
    while j < n && nodes[j].depth > nodes[p].depth
        invariant
            p < j <= nodes@.len(),
            n == nodes@.len(),
            subtree_end(nodes@, p as int, j as int) == end_of(nodes@, p as int),
        decreases nodes@.len() - j,
    {
        j = j + 1;
    }
    j
}

fn name_is(n: &XmlNode, name: &str) -> (r: bool)
    ensures
        r == (n.name@ == name@),
{
    let c = str_chars(n.name.as_str());
    chars_eq_str(c.as_slice(), name)
}

/// The first child of `p` named `name`, skipping nil-marked ones when asked.
pub fn find_child(nodes: &Vec<XmlNode>, p: usize, name: &str, skip_nil: bool) -> (r: Option<usize>)
    requires
        p < nodes@.len(),
    ensures
        match r {
            Some(k) => k == child_named(nodes@, p as int, name@, skip_nil) && k < nodes@.len(),
            None => child_named(nodes@, p as int, name@, skip_nil) == -1,
        },
{
    let end = subtree_end_exec(nodes, p);
    let ghost pred = |k: int| is_named_child(nodes@, p as int, k, name@, skip_nil);
    let mut k = p + 1;
    while k < end
        invariant
            p < k <= end,
            end <= nodes@.len(),
            end == end_of(nodes@, p as int),
            pred == (|k: int| is_named_child(nodes@, p as int, k, name@, skip_nil)),
            first_from(p + 1, end as int, pred) == first_from(k as int, end as int, pred),
        decreases end - k,
    {
        if nodes[k].depth == nodes[p].depth + 1 && name_is(&nodes[k], name) && !(skip_nil
            && nodes[k].nil) {
            assert(pred(k as int));
            return Some(k);
        }
        assert(!pred(k as int));
        k = k + 1;
    }
    None
}

/// The first node named `name` in `p`'s subtree, `p` included.
pub fn find_descendant(nodes: &Vec<XmlNode>, p: usize, name: &str) -> (r: Option<usize>)
    requires
        p < nodes@.len(),
    ensures
        match r {
            Some(k) => k == descendant_named(nodes@, p as int, name@) && k < nodes@.len(),
            None => descendant_named(nodes@, p as int, name@) == -1,
        },
{
    let end = subtree_end_exec(nodes, p);
    let ghost pred = |k: int| nodes@[k].name@ == name@;
    let mut k = p;
    while k < end
        invariant
            p <= k <= end,
            end <= nodes@.len(),
            end == end_of(nodes@, p as int),
            pred == (|k: int| nodes@[k].name@ == name@),
            first_from(p as int, end as int, pred) == first_from(k as int, end as int, pred),
        decreases end - k,
    {
        if name_is(&nodes[k], name) {
            return Some(k);
        }
        k = k + 1;
    }
    None
}

// ---- field readers ---------------------------------------------------------------------------

pub open spec fn or_else<T>(o: Option<T>, d: T) -> T {
    match o {
        Some(v) => v,
        None => d,
    }
}

/// The text of the first child named `name` that is not `i:nil`.
pub open spec fn child_text(s: Seq<XmlNode>, p: int, name: Seq<char>) -> Option<Seq<char>> {
    let k = child_named(s, p, name, true);
    if k >= 0 {
        text_view(s[k].text)
    } else {
        None
    }
}

/// A child's text read as a boolean: `true` in any letter case.
pub open spec fn child_bool(s: Seq<XmlNode>, p: int, name: Seq<char>) -> Option<bool> {
    match child_text(s, p, name) {
        Some(t) => Some(lower(t) == "true"@),
        None => None,
    }
}

pub open spec fn child_i64(s: Seq<XmlNode>, p: int, name: Seq<char>) -> Option<i64> {
    match child_text(s, p, name) {
        Some(t) => spec_parse_i64(t),
        None => None,
    }
}

pub open spec fn child_i32(s: Seq<XmlNode>, p: int, name: Seq<char>) -> Option<i32> {
    match child_i64(s, p, name) {
        Some(v) => if i32::MIN <= v <= i32::MAX {
            Some(v as i32)
        } else {
            None
        },
        None => None,
    }
}

pub open spec fn child_u32(s: Seq<XmlNode>, p: int, name: Seq<char>) -> Option<u32> {
    match child_text(s, p, name) {
        Some(t) => match spec_parse_u64(t) {
            Some(v) => if v <= u32::MAX {
                Some(v as u32)
            } else {
                None
            },
            None => None,
        },
        None => None,
    }
}

pub open spec fn child_duration(s: Seq<XmlNode>, p: int, name: Seq<char>) -> Option<Duration> {
    match child_text(s, p, name) {
        Some(t) => spec_parse_iso8601(t),
        None => None,
    }
}

/// `<Status>`, `Active` when absent.
pub open spec fn child_status(s: Seq<XmlNode>, p: int) -> EntityStatus {
    match child_text(s, p, "Status"@) {
        Some(t) => status_of_text(t),
        None => EntityStatus::Active,
    }
}

/// `<CountDetails>`, all zero when absent.
pub open spec fn spec_count_details(s: Seq<XmlNode>, p: int) -> MessageCountDetails {
    let d = child_named(s, p, "CountDetails"@, false);
    if d < 0 {
        MessageCountDetails::zero_spec()
    } else {
        MessageCountDetails {
            active: or_else(child_i64(s, d, "ActiveMessageCount"@), 0),
            dead_letter: or_else(child_i64(s, d, "DeadLetterMessageCount"@), 0),
            scheduled: or_else(child_i64(s, d, "ScheduledMessageCount"@), 0),
            transfer: or_else(child_i64(s, d, "TransferMessageCount"@), 0),
            transfer_dead_letter: or_else(child_i64(s, d, "TransferDeadLetterMessageCount"@), 0),
        }
    }
}

fn text(nodes: &Vec<XmlNode>, p: usize, name: &str) -> (r: Option<String>)
    requires
        p < nodes@.len(),
    ensures
        text_view(r) == child_text(nodes@, p as int, name@),
{
    match find_child(nodes, p, name, true) {
        Some(k) => match &nodes[k].text {
            Some(t) => Some(t.clone()),
            None => None,
        },
        None => None,
    }
}

fn boolean(nodes: &Vec<XmlNode>, p: usize, name: &str) -> (r: Option<bool>)
    requires
        p < nodes@.len(),
    ensures
        r == child_bool(nodes@, p as int, name@),
{
    match text(nodes, p, name) {
        Some(t) => {
            let c = str_chars(t.as_str());
            let l = to_lower(c.as_slice());
            Some(chars_eq_str(l.as_slice(), "true"))
        },
        None => None,
    }
}

fn integer_i64(nodes: &Vec<XmlNode>, p: usize, name: &str) -> (r: Option<i64>)
    requires
        p < nodes@.len(),
    ensures
        r == child_i64(nodes@, p as int, name@),
{
    match text(nodes, p, name) {
        Some(t) => parse_i64(t.as_str()),
        None => None,
    }
}

fn integer_i32(nodes: &Vec<XmlNode>, p: usize, name: &str) -> (r: Option<i32>)
    requires
        p < nodes@.len(),
    ensures
        r == child_i32(nodes@, p as int, name@),
{
    match integer_i64(nodes, p, name) {
        Some(v) => if -2147483648 <= v && v <= 2147483647 {
            Some(v as i32)
        } else {
            None
        },
        None => None,
    }
}

fn integer_u32(nodes: &Vec<XmlNode>, p: usize, name: &str) -> (r: Option<u32>)
    requires
        p < nodes@.len(),
    ensures
        r == child_u32(nodes@, p as int, name@),
{
    match text(nodes, p, name) {
        Some(t) => match parse_u64(t.as_str()) {
            Some(v) => if v <= 4294967295 {
                Some(v as u32)
            } else {
                None
            },
            None => None,
        },
        None => None,
    }
}

fn duration(nodes: &Vec<XmlNode>, p: usize, name: &str) -> (r: Option<Duration>)
    requires
        p < nodes@.len(),
    ensures
        r == child_duration(nodes@, p as int, name@),
{
    match text(nodes, p, name) {
        Some(t) => parse_iso8601(t.as_str()),
        None => None,
    }
}

/// What `OffsetDateTime::parse` with the RFC 3339 format reads from a text:
/// the instant's seconds since the Unix epoch and its calendar date and clock
/// time in the text's offset, or nothing when the text is refused.
pub uninterp spec fn rfc3339_instant(text: Seq<char>) -> Option<Timestamp>;

/// `OffsetDateTime::parse` with the RFC 3339 format, the instant read
/// through its accessors (`unix_timestamp`, `year`, `month` as its number,
/// `day`, `hour`, `minute`, `second`), whose documented ranges hold.
#[verifier::external_body]
fn parse_rfc3339(t: &str) -> (r: Option<Timestamp>)
    ensures
        r == rfc3339_instant(t@),
        r matches Some(ts) ==> ts.wf(),
{
    match time::OffsetDateTime::parse(t, &time::format_description::well_known::Rfc3339) {
        Ok(i) => Some(Timestamp {
            unix_seconds: i.unix_timestamp(),
            year: i.year(),
            month: u8::from(i.month()),
            day: i.day(),
            hour: i.hour(),
            minute: i.minute(),
            second: i.second(),
        }),
        Err(_) => None,
    }
}

/// A child's text read as an RFC 3339 timestamp; absent when there is no
/// such child or its text is not one.
pub open spec fn child_timestamp(s: Seq<XmlNode>, p: int, name: Seq<char>) -> Option<Timestamp> {
    match child_text(s, p, name) {
        None => None,
        Some(t) => rfc3339_instant(t),
    }
}

fn timestamp(nodes: &Vec<XmlNode>, p: usize, name: &str) -> (r: Option<Timestamp>)
    requires
        p < nodes@.len(),
    ensures
        r == child_timestamp(nodes@, p as int, name@),
{
    match text(nodes, p, name) {
        Some(t) => parse_rfc3339(t.as_str()),
        None => None,
    }
}

fn status(nodes: &Vec<XmlNode>, p: usize) -> (r: EntityStatus)
    requires
        p < nodes@.len(),
    ensures
        r == child_status(nodes@, p as int),
{
    match text(nodes, p, "Status") {
        Some(t) => EntityStatus::parse(t.as_str()),
        None => EntityStatus::Active,
    }
}

fn count_details(nodes: &Vec<XmlNode>, p: usize) -> (r: MessageCountDetails)
    requires
        p < nodes@.len(),
    ensures
        r == spec_count_details(nodes@, p as int),
{
    match find_child(nodes, p, "CountDetails", false) {
        None => MessageCountDetails::zero(),
        Some(d) => MessageCountDetails {
            active: or_zero(integer_i64(nodes, d, "ActiveMessageCount")),
            dead_letter: or_zero(integer_i64(nodes, d, "DeadLetterMessageCount")),
            scheduled: or_zero(integer_i64(nodes, d, "ScheduledMessageCount")),
            transfer: or_zero(integer_i64(nodes, d, "TransferMessageCount")),
            transfer_dead_letter: or_zero(integer_i64(nodes, d, "TransferDeadLetterMessageCount")),
        },
    }
}

fn or_zero(o: Option<i64>) -> (r: i64)
    ensures
        r == or_else(o, 0),
{
    match o {
        Some(v) => v,
        None => 0,
    }
}

/// The server counters of an entity description.
pub open spec fn runtime_matches(s: Seq<XmlNode>, d: int, rt: EntityRuntimeInfo) -> bool {
    &&& rt.message_count == or_else(child_i64(s, d, "MessageCount"@), 0)
    &&& rt.size_in_bytes == or_else(child_i64(s, d, "SizeInBytes"@), 0)
    &&& rt.count_details == spec_count_details(s, d)
    &&& rt.created_at == child_timestamp(s, d, "CreatedAt"@)
    &&& rt.updated_at == child_timestamp(s, d, "UpdatedAt"@)
    &&& rt.accessed_at == child_timestamp(s, d, "AccessedAt"@)
}

fn runtime_info(nodes: &Vec<XmlNode>, d: usize) -> (r: EntityRuntimeInfo)
    requires
        d < nodes@.len(),
    ensures
        runtime_matches(nodes@, d as int, r),
{
    EntityRuntimeInfo {
        message_count: or_zero(integer_i64(nodes, d, "MessageCount")),
        size_in_bytes: or_zero(integer_i64(nodes, d, "SizeInBytes")),
        count_details: count_details(nodes, d),
        created_at: timestamp(nodes, d, "CreatedAt"),
        updated_at: timestamp(nodes, d, "UpdatedAt"),
        accessed_at: timestamp(nodes, d, "AccessedAt"),
    }
}

// ---- entries -------------------------------------------------------------------------------

/// The document's root element: its first element at depth one.
pub open spec fn root_element(s: Seq<XmlNode>) -> int {
    first_from(0, s.len() as int, |k: int| s[k].depth == 1 && s[k].element)
}

/// The children of `p` below index `hi` named `name`, in order.
pub open spec fn named_children(s: Seq<XmlNode>, p: int, name: Seq<char>, hi: int) -> Seq<int>
    decreases hi - p,
{
    if hi <= p + 1 {
        Seq::empty()
    } else if is_named_child(s, p, hi - 1, name, false) {
        named_children(s, p, name, hi - 1).push(hi - 1)
    } else {
        named_children(s, p, name, hi - 1)
    }
}

/// The `<entry>` elements of a `<feed>`; a bare `<entry>` document is its
/// own single entry.
pub open spec fn entry_indices(s: Seq<XmlNode>) -> Seq<int> {
    let r = root_element(s);
    if r < 0 {
        Seq::empty()
    } else if s[r].name@ == "entry"@ {
        seq![r]
    } else {
        named_children(s, r, "entry"@, end_of(s, r))
    }
}

fn find_root_element(nodes: &Vec<XmlNode>) -> (r: Option<usize>)
    ensures
        match r {
            Some(k) => k == root_element(nodes@) && k < nodes@.len(),
            None => root_element(nodes@) == -1,
        },
{
    let ghost pred = |k: int| nodes@[k].depth == 1 && nodes@[k].element;
    let mut k: usize = 0;
    while k < nodes.len()
        invariant
            k <= nodes@.len(),
            pred == (|k: int| nodes@[k].depth == 1 && nodes@[k].element),
            first_from(0, nodes@.len() as int, pred) == first_from(k as int, nodes@.len() as int, pred),
        decreases nodes@.len() - k,
    {
        if nodes[k].depth == 1 && nodes[k].element {
            return Some(k);
        }
        k = k + 1;
    }
    None
}

/// The indices of the document's entries.
pub fn entries(nodes: &Vec<XmlNode>) -> (r: Vec<usize>)
    ensures
        r@.len() == entry_indices(nodes@).len(),
        forall|i: int| 0 <= i < r@.len() ==> #[trigger] r@[i] == entry_indices(nodes@)[i] && r@[i] < nodes@.len(),
{
    let mut out: Vec<usize> = Vec::new();
    match find_root_element(nodes) {
        None => out,
        Some(root) => {
            if name_is(&nodes[root], "entry") {
                out.push(root);
                return out;
            }
            let end = subtree_end_exec(nodes, root);
            let mut k = root + 1;
            while k < end
                invariant
                    root < k <= end,
                    end <= nodes@.len(),
                    end == end_of(nodes@, root as int),
                    out@.len() == named_children(nodes@, root as int, "entry"@, k as int).len(),
                    forall|i: int| 0 <= i < out@.len() ==> #[trigger] out@[i] == named_children(
                        nodes@,
                        root as int,
                        "entry"@,
                        k as int,
                    )[i] && out@[i] < nodes@.len(),
                decreases end - k,
            {
                if nodes[k].depth == nodes[root].depth + 1 && name_is(&nodes[k], "entry") {
                    out.push(k);
                }
                k = k + 1;
            }
            out
        },
    }
}

/// An entry's `<title>` text (empty when missing).
pub open spec fn entry_title(s: Seq<XmlNode>, e: int) -> Seq<char> {
    let t = descendant_named(s, e, "title"@);
    if t >= 0 {
        match text_view(s[t].text) {
            Some(x) => x,
            None => Seq::empty(),
        }
    } else {
        Seq::empty()
    }
}

fn title_of(nodes: &Vec<XmlNode>, e: usize) -> (r: String)
    requires
        e < nodes@.len(),
    ensures
        r@ == entry_title(nodes@, e as int),
{
    match find_descendant(nodes, e, "title") {
        Some(t) => match &nodes[t].text {
            Some(x) => x.clone(),
            None => String::new(),
        },
        None => String::new(),
    }
}

// ---- queues ---------------------------------------------------------------------------------

/// A queue description read from node `d` of entry `e`, every missing field
/// taking the service default.
pub open spec fn queue_matches(s: Seq<XmlNode>, e: int, d: int, q: QueueProperties) -> bool {
    &&& q.name@ == entry_title(s, e)
    &&& q.lock_duration == or_else(child_duration(s, d, "LockDuration"@), Duration { secs: 60, nanos: 0 })
    &&& q.max_size_in_megabytes == or_else(child_i64(s, d, "MaxSizeInMegabytes"@), 1024)
    &&& q.requires_duplicate_detection == or_else(child_bool(s, d, "RequiresDuplicateDetection"@), false)
    &&& q.requires_session == or_else(child_bool(s, d, "RequiresSession"@), false)
    &&& q.default_message_time_to_live == or_else(child_duration(s, d, "DefaultMessageTimeToLive"@), spec_unlimited())
    &&& q.dead_lettering_on_message_expiration == or_else(child_bool(s, d, "DeadLetteringOnMessageExpiration"@), false)
    &&& q.duplicate_detection_history_time_window == or_else(child_duration(s, d, "DuplicateDetectionHistoryTimeWindow"@), Duration { secs: 600, nanos: 0 })
    &&& q.max_delivery_count == or_else(child_i32(s, d, "MaxDeliveryCount"@), 10)
    &&& q.enable_batched_operations == or_else(child_bool(s, d, "EnableBatchedOperations"@), true)
    &&& q.status == child_status(s, d)
    &&& text_view(q.forward_to) == child_text(s, d, "ForwardTo"@)
    &&& text_view(q.user_metadata) == child_text(s, d, "UserMetadata"@)
    &&& q.auto_delete_on_idle == or_else(child_duration(s, d, "AutoDeleteOnIdle"@), spec_unlimited())
    &&& q.enable_partitioning == or_else(child_bool(s, d, "EnablePartitioning"@), false)
    &&& q.enable_express == or_else(child_bool(s, d, "EnableExpress"@), false)
    &&& text_view(q.forward_dead_lettered_messages_to) == child_text(s, d, "ForwardDeadLetteredMessagesTo"@)
    &&& q.max_message_size_in_kilobytes == child_i64(s, d, "MaxMessageSizeInKilobytes"@)
}

/// Entry `e` read as a queue: present when it holds a `<QueueDescription>`.
pub open spec fn queue_entry_matches(s: Seq<XmlNode>, e: int, r: Option<QueueInfo>) -> bool {
    let d = descendant_named(s, e, "QueueDescription"@);
    if d < 0 {
        r is None
    } else {
        r matches Some(q) && queue_matches(s, e, d, q.properties) && runtime_matches(s, d, q.runtime)
    }
}

fn dur_or(o: Option<Duration>, d: Duration) -> (r: Duration)
    ensures
        r == or_else(o, d),
{
    match o {
        Some(v) => v,
        None => d,
    }
}

fn bool_or(o: Option<bool>, d: bool) -> (r: bool)
    ensures
        r == or_else(o, d),
{
    match o {
        Some(v) => v,
        None => d,
    }
}

fn i64_or(o: Option<i64>, d: i64) -> (r: i64)
    ensures
        r == or_else(o, d),
{
    match o {
        Some(v) => v,
        None => d,
    }
}

fn i32_or(o: Option<i32>, d: i32) -> (r: i32)
    ensures
        r == or_else(o, d),
{
    match o {
        Some(v) => v,
        None => d,
    }
}

/// Entry `e` read as a queue.
pub fn queue_from_entry(nodes: &Vec<XmlNode>, e: usize) -> (r: Option<QueueInfo>)
    requires
        e < nodes@.len(),
    ensures
        queue_entry_matches(nodes@, e as int, r),
{
    let d = match find_descendant(nodes, e, "QueueDescription") {
        Some(d) => d,
        None => {
            return None;
        },
    };
    let properties = QueueProperties {
        name: title_of(nodes, e),
        lock_duration: dur_or(duration(nodes, d, "LockDuration"), Duration::from_mins(1)),
        max_size_in_megabytes: i64_or(integer_i64(nodes, d, "MaxSizeInMegabytes"), 1024),
        requires_duplicate_detection: bool_or(boolean(nodes, d, "RequiresDuplicateDetection"), false),
        requires_session: bool_or(boolean(nodes, d, "RequiresSession"), false),
        default_message_time_to_live: dur_or(duration(nodes, d, "DefaultMessageTimeToLive"), unlimited()),
        dead_lettering_on_message_expiration: bool_or(boolean(nodes, d, "DeadLetteringOnMessageExpiration"), false),
        duplicate_detection_history_time_window: dur_or(duration(nodes, d, "DuplicateDetectionHistoryTimeWindow"), Duration::from_mins(10)),
        max_delivery_count: i32_or(integer_i32(nodes, d, "MaxDeliveryCount"), 10),
        enable_batched_operations: bool_or(boolean(nodes, d, "EnableBatchedOperations"), true),
        status: status(nodes, d),
        forward_to: text(nodes, d, "ForwardTo"),
        user_metadata: text(nodes, d, "UserMetadata"),
        auto_delete_on_idle: dur_or(duration(nodes, d, "AutoDeleteOnIdle"), unlimited()),
        enable_partitioning: bool_or(boolean(nodes, d, "EnablePartitioning"), false),
        enable_express: bool_or(boolean(nodes, d, "EnableExpress"), false),
        forward_dead_lettered_messages_to: text(nodes, d, "ForwardDeadLetteredMessagesTo"),
        max_message_size_in_kilobytes: integer_i64(nodes, d, "MaxMessageSizeInKilobytes"),
    };
    Some(QueueInfo { runtime: runtime_info(nodes, d), properties })
}

// ---- topics ---------------------------------------------------------------------------------

pub open spec fn topic_matches(s: Seq<XmlNode>, e: int, d: int, t: TopicProperties) -> bool {
    &&& t.name@ == entry_title(s, e)
    &&& t.default_message_time_to_live == or_else(child_duration(s, d, "DefaultMessageTimeToLive"@), spec_unlimited())
    &&& t.max_size_in_megabytes == or_else(child_i64(s, d, "MaxSizeInMegabytes"@), 1024)
    &&& t.requires_duplicate_detection == or_else(child_bool(s, d, "RequiresDuplicateDetection"@), false)
    &&& t.duplicate_detection_history_time_window == or_else(child_duration(s, d, "DuplicateDetectionHistoryTimeWindow"@), Duration { secs: 600, nanos: 0 })
    &&& t.enable_batched_operations == or_else(child_bool(s, d, "EnableBatchedOperations"@), true)
    &&& t.status == child_status(s, d)
    &&& t.support_ordering == or_else(child_bool(s, d, "SupportOrdering"@), false)
    &&& t.auto_delete_on_idle == or_else(child_duration(s, d, "AutoDeleteOnIdle"@), spec_unlimited())
    &&& t.enable_partitioning == or_else(child_bool(s, d, "EnablePartitioning"@), false)
    &&& t.enable_express == or_else(child_bool(s, d, "EnableExpress"@), false)
    &&& text_view(t.user_metadata) == child_text(s, d, "UserMetadata"@)
    &&& t.max_message_size_in_kilobytes == child_i64(s, d, "MaxMessageSizeInKilobytes"@)
}

pub open spec fn topic_entry_matches(s: Seq<XmlNode>, e: int, r: Option<TopicInfo>) -> bool {
    let d = descendant_named(s, e, "TopicDescription"@);
    if d < 0 {
        r is None
    } else {
        r matches Some(t) && topic_matches(s, e, d, t.properties) && t.subscription_count
            == or_else(child_i64(s, d, "SubscriptionCount"@), 0) && t.size_in_bytes == or_else(
            child_i64(s, d, "SizeInBytes"@),
            0,
        ) && t.scheduled_message_count == spec_count_details(s, d).scheduled && t.created_at
            == child_timestamp(s, d, "CreatedAt"@) && t.updated_at == child_timestamp(s, d, "UpdatedAt"@)
            && t.accessed_at == child_timestamp(s, d, "AccessedAt"@)
    }
}

/// Entry `e` read as a topic.
pub fn topic_from_entry(nodes: &Vec<XmlNode>, e: usize) -> (r: Option<TopicInfo>)
    requires
        e < nodes@.len(),
    ensures
        topic_entry_matches(nodes@, e as int, r),
{
    let d = match find_descendant(nodes, e, "TopicDescription") {
        Some(d) => d,
        None => {
            return None;
        },
    };
    let properties = TopicProperties {
        name: title_of(nodes, e),
        default_message_time_to_live: dur_or(duration(nodes, d, "DefaultMessageTimeToLive"), unlimited()),
        max_size_in_megabytes: i64_or(integer_i64(nodes, d, "MaxSizeInMegabytes"), 1024),
        requires_duplicate_detection: bool_or(boolean(nodes, d, "RequiresDuplicateDetection"), false),
        duplicate_detection_history_time_window: dur_or(duration(nodes, d, "DuplicateDetectionHistoryTimeWindow"), Duration::from_mins(10)),
        enable_batched_operations: bool_or(boolean(nodes, d, "EnableBatchedOperations"), true),
        status: status(nodes, d),
        support_ordering: bool_or(boolean(nodes, d, "SupportOrdering"), false),
        auto_delete_on_idle: dur_or(duration(nodes, d, "AutoDeleteOnIdle"), unlimited()),
        enable_partitioning: bool_or(boolean(nodes, d, "EnablePartitioning"), false),
        enable_express: bool_or(boolean(nodes, d, "EnableExpress"), false),
        user_metadata: text(nodes, d, "UserMetadata"),
        max_message_size_in_kilobytes: integer_i64(nodes, d, "MaxMessageSizeInKilobytes"),
    };
    Some(
        TopicInfo {
            properties,
            subscription_count: or_zero(integer_i64(nodes, d, "SubscriptionCount")),
            size_in_bytes: or_zero(integer_i64(nodes, d, "SizeInBytes")),
            scheduled_message_count: count_details(nodes, d).scheduled,
            created_at: timestamp(nodes, d, "CreatedAt"),
            updated_at: timestamp(nodes, d, "UpdatedAt"),
            accessed_at: timestamp(nodes, d, "AccessedAt"),
        },
    )
}

// ---- subscriptions ---------------------------------------------------------------------------

pub open spec fn subscription_matches(s: Seq<XmlNode>, e: int, d: int, topic: Seq<char>, p: SubscriptionProperties) -> bool {
    &&& p.topic@ == topic
    &&& p.name@ == entry_title(s, e)
    &&& p.lock_duration == or_else(child_duration(s, d, "LockDuration"@), Duration { secs: 60, nanos: 0 })
    &&& p.requires_session == or_else(child_bool(s, d, "RequiresSession"@), false)
    &&& p.default_message_time_to_live == or_else(child_duration(s, d, "DefaultMessageTimeToLive"@), spec_unlimited())
    &&& p.dead_lettering_on_message_expiration == or_else(child_bool(s, d, "DeadLetteringOnMessageExpiration"@), false)
    &&& p.dead_lettering_on_filter_evaluation_exceptions == or_else(child_bool(s, d, "DeadLetteringOnFilterEvaluationExceptions"@), true)
    &&& p.max_delivery_count == or_else(child_i32(s, d, "MaxDeliveryCount"@), 10)
    &&& p.enable_batched_operations == or_else(child_bool(s, d, "EnableBatchedOperations"@), true)
    &&& p.status == child_status(s, d)
    &&& text_view(p.forward_to) == child_text(s, d, "ForwardTo"@)
    &&& text_view(p.user_metadata) == child_text(s, d, "UserMetadata"@)
    &&& p.auto_delete_on_idle == or_else(child_duration(s, d, "AutoDeleteOnIdle"@), spec_unlimited())
    &&& text_view(p.forward_dead_lettered_messages_to) == child_text(s, d, "ForwardDeadLetteredMessagesTo"@)
}

pub open spec fn subscription_entry_matches(s: Seq<XmlNode>, e: int, topic: Seq<char>, r: Option<SubscriptionInfo>) -> bool {
    let d = descendant_named(s, e, "SubscriptionDescription"@);
    if d < 0 {
        r is None
    } else {
        r matches Some(x) && subscription_matches(s, e, d, topic, x.properties) && runtime_matches(
            s,
            d,
            x.runtime,
        )
    }
}

/// Entry `e` read as a subscription of `topic`.
pub fn subscription_from_entry(nodes: &Vec<XmlNode>, e: usize, topic: &str) -> (r: Option<SubscriptionInfo>)
    requires
        e < nodes@.len(),
    ensures
        subscription_entry_matches(nodes@, e as int, topic@, r),
{
    let d = match find_descendant(nodes, e, "SubscriptionDescription") {
        Some(d) => d,
        None => {
            return None;
        },
    };
    let properties = SubscriptionProperties {
        topic: topic.to_owned(),
        name: title_of(nodes, e),
        lock_duration: dur_or(duration(nodes, d, "LockDuration"), Duration::from_mins(1)),
        requires_session: bool_or(boolean(nodes, d, "RequiresSession"), false),
        default_message_time_to_live: dur_or(duration(nodes, d, "DefaultMessageTimeToLive"), unlimited()),
        dead_lettering_on_message_expiration: bool_or(boolean(nodes, d, "DeadLetteringOnMessageExpiration"), false),
        dead_lettering_on_filter_evaluation_exceptions: bool_or(boolean(nodes, d, "DeadLetteringOnFilterEvaluationExceptions"), true),
        max_delivery_count: i32_or(integer_i32(nodes, d, "MaxDeliveryCount"), 10),
        enable_batched_operations: bool_or(boolean(nodes, d, "EnableBatchedOperations"), true),
        status: status(nodes, d),
        forward_to: text(nodes, d, "ForwardTo"),
        user_metadata: text(nodes, d, "UserMetadata"),
        auto_delete_on_idle: dur_or(duration(nodes, d, "AutoDeleteOnIdle"), unlimited()),
        forward_dead_lettered_messages_to: text(nodes, d, "ForwardDeadLetteredMessagesTo"),
    };
    Some(SubscriptionInfo { runtime: runtime_info(nodes, d), properties })
}

// ---- rules ------------------------------------------------------------------------------------

/// The `KeyValueOfstringanyType` nodes below `f` (indices `lo..hi`), in
/// order, read as properties: those with a `Key`, the value empty when
/// missing.
pub open spec fn correlation_properties(s: Seq<XmlNode>, lo: int, hi: int) -> Seq<(Seq<char>, Seq<char>)>
    decreases hi - lo,
{
    if hi <= lo {
        Seq::empty()
    } else {
        let prev = correlation_properties(s, lo, hi - 1);
        let k = hi - 1;
        if s[k].name@ == "KeyValueOfstringanyType"@ && child_text(s, k, "Key"@) is Some {
            prev.push((child_text(s, k, "Key"@)->0, or_else(child_text(s, k, "Value"@), Seq::empty())))
        } else {
            prev
        }
    }
}

/// A rule's filter, read from its `<Filter>` child `f` by its `i:type`.
pub open spec fn filter_matches(s: Seq<XmlNode>, f: int, r: RuleFilter) -> bool {
    if f < 0 {
        r == RuleFilter::True
    } else {
        let kind = or_else(text_view(s[f].xsi_type), Seq::empty());
        if kind == "SqlFilter"@ {
            r matches RuleFilter::Sql { expression } && expression@ == or_else(
                child_text(s, f, "SqlExpression"@),
                Seq::empty(),
            )
        } else if kind == "CorrelationFilter"@ {
            &&& r is Correlation
            &&& text_view(r->correlation_id) == child_text(s, f, "CorrelationId"@)
            &&& text_view(r->message_id) == child_text(s, f, "MessageId"@)
            &&& text_view(r->to) == child_text(s, f, "To"@)
            &&& text_view(r->reply_to) == child_text(s, f, "ReplyTo"@)
            &&& text_view(r->subject) == child_text(s, f, "Label"@)
            &&& text_view(r->session_id) == child_text(s, f, "SessionId"@)
            &&& text_view(r->reply_to_session_id) == child_text(s, f, "ReplyToSessionId"@)
            &&& text_view(r->content_type) == child_text(s, f, "ContentType"@)
            &&& props_view(r->properties@) == correlation_properties(s, f, end_of(s, f))
        } else if kind == "FalseFilter"@ {
            r == RuleFilter::False
        } else {
            r == RuleFilter::True
        }
    }
}

/// A rule's SQL action: the `<Action>` child's expression when it is a
/// `SqlRuleAction`.
pub open spec fn rule_action(s: Seq<XmlNode>, d: int) -> Option<Seq<char>> {
    let a = child_named(s, d, "Action"@, false);
    if a >= 0 && text_view(s[a].xsi_type) == Some("SqlRuleAction"@) {
        child_text(s, a, "SqlExpression"@)
    } else {
        None
    }
}

pub open spec fn rule_entry_matches(s: Seq<XmlNode>, e: int, topic: Seq<char>, subscription: Seq<char>, r: Option<RuleInfo>) -> bool {
    let d = descendant_named(s, e, "RuleDescription"@);
    if d < 0 {
        r is None
    } else {
        r matches Some(x) && x.properties.topic@ == topic && x.properties.subscription@
            == subscription && x.properties.name@ == or_else(
            child_text(s, d, "Name"@),
            entry_title(s, e),
        ) && filter_matches(s, child_named(s, d, "Filter"@, false), x.properties.filter)
            && text_view(x.properties.action) == rule_action(s, d) && x.created_at == child_timestamp(
            s,
            d,
            "CreatedAt"@,
        )
    }
}

fn or_empty(o: Option<String>) -> (r: String)
    ensures
        r@ == or_else(text_view(o), Seq::empty()),
{
    match o {
        Some(t) => t,
        None => String::new(),
    }
}

fn read_correlation_properties(nodes: &Vec<XmlNode>, f: usize) -> (r: Vec<(String, String)>)
    requires
        f < nodes@.len(),
    ensures
        props_view(r@) == correlation_properties(nodes@, f as int, end_of(nodes@, f as int)),
{
    let end = subtree_end_exec(nodes, f);
    let mut out: Vec<(String, String)> = Vec::new();
    let mut k = f;
    while k < end
        invariant
            f <= k <= end,
            end <= nodes@.len(),
            end == end_of(nodes@, f as int),
            props_view(out@) == correlation_properties(nodes@, f as int, k as int),
        decreases end - k,
    {
        if name_is(&nodes[k], "KeyValueOfstringanyType") {
            match text(nodes, k, "Key") {
                Some(key) => {
                    let value = or_empty(text(nodes, k, "Value"));
                    let ghost before = out@;
                    let ghost kv = (key@, value@);
                    out.push((key, value));
                    assert(props_view(out@) =~= props_view(before).push(kv));
                },
                None => {},
            }
        }
        k = k + 1;
    }
    out
}

fn read_filter(nodes: &Vec<XmlNode>, d: usize) -> (r: RuleFilter)
    requires
        d < nodes@.len(),
    ensures
        filter_matches(nodes@, child_named(nodes@, d as int, "Filter"@, false), r),
{
    let f = match find_child(nodes, d, "Filter", false) {
        Some(f) => f,
        None => {
            return RuleFilter::True;
        },
    };
    let kind = match &nodes[f].xsi_type {
        Some(t) => t.clone(),
        None => String::new(),
    };
    let kc = str_chars(kind.as_str());
    if chars_eq_str(kc.as_slice(), "SqlFilter") {
        RuleFilter::Sql { expression: or_empty(text(nodes, f, "SqlExpression")) }
    } else if chars_eq_str(kc.as_slice(), "CorrelationFilter") {
        RuleFilter::Correlation {
            correlation_id: text(nodes, f, "CorrelationId"),
            message_id: text(nodes, f, "MessageId"),
            to: text(nodes, f, "To"),
            reply_to: text(nodes, f, "ReplyTo"),
            subject: text(nodes, f, "Label"),
            session_id: text(nodes, f, "SessionId"),
            reply_to_session_id: text(nodes, f, "ReplyToSessionId"),
            content_type: text(nodes, f, "ContentType"),
            properties: read_correlation_properties(nodes, f),
        }
    } else if chars_eq_str(kc.as_slice(), "FalseFilter") {
        RuleFilter::False
    } else {
        RuleFilter::True
    }
}

fn read_action(nodes: &Vec<XmlNode>, d: usize) -> (r: Option<String>)
    requires
        d < nodes@.len(),
    ensures
        text_view(r) == rule_action(nodes@, d as int),
{
    match find_child(nodes, d, "Action", false) {
        Some(a) => {
            let is_sql = match &nodes[a].xsi_type {
                Some(t) => {
                    let c = str_chars(t.as_str());
                    chars_eq_str(c.as_slice(), "SqlRuleAction")
                },
                None => false,
            };
            if is_sql {
                text(nodes, a, "SqlExpression")
            } else {
                None
            }
        },
        None => None,
    }
}

/// Entry `e` read as a rule of `topic`'s `subscription`.
pub fn rule_from_entry(nodes: &Vec<XmlNode>, e: usize, topic: &str, subscription: &str) -> (r: Option<RuleInfo>)
    requires
        e < nodes@.len(),
    ensures
        rule_entry_matches(nodes@, e as int, topic@, subscription@, r),
{
    let d = match find_descendant(nodes, e, "RuleDescription") {
        Some(d) => d,
        None => {
            return None;
        },
    };
    let name = match text(nodes, d, "Name") {
        Some(n) => n,
        None => title_of(nodes, e),
    };
    Some(
        RuleInfo {
            properties: RuleProperties {
                topic: topic.to_owned(),
                subscription: subscription.to_owned(),
                name,
                filter: read_filter(nodes, d),
                action: read_action(nodes, d),
            },
            created_at: timestamp(nodes, d, "CreatedAt"),
        },
    )
}

// ---- namespace --------------------------------------------------------------------------------

pub open spec fn no_namespace_info() -> Seq<char> {
    "response did not contain a NamespaceInfo"@
}

pub open spec fn no_namespace_name() -> Seq<char> {
    "NamespaceInfo has no Name element"@
}

/// The first `<NamespaceInfo>` of the document read, or why it cannot be.
pub open spec fn namespace_info_matches(s: Seq<XmlNode>, r: Result<NamespaceInfo, MgmtError>) -> bool {
    let n = if s.len() > 0 {
        descendant_named(s, 0, "NamespaceInfo"@)
    } else {
        -1
    };
    if n < 0 {
        r matches Err(MgmtError::Xml(m)) && m@ == no_namespace_info()
    } else if child_text(s, n, "Name"@) is None {
        r matches Err(MgmtError::Xml(m)) && m@ == no_namespace_name()
    } else {
        r matches Ok(i) && Some(i.name@) == child_text(s, n, "Name"@) && text_view(i.alias)
            == child_text(s, n, "Alias"@) && text_view(i.namespace_type) == child_text(
            s,
            n,
            "NamespaceType"@,
        ) && text_view(i.messaging_sku) == child_text(s, n, "MessagingSKU"@)
            && i.messaging_units == child_u32(s, n, "MessagingUnits"@) && i.created_time
            == child_timestamp(s, n, "CreatedTime"@) && i.modified_time == child_timestamp(
            s,
            n,
            "ModifiedTime"@,
        )
    }
}

/// The namespace description in a document's nodes.
pub fn namespace_info_from_nodes(nodes: &Vec<XmlNode>) -> (r: Result<NamespaceInfo, MgmtError>)
    ensures
        namespace_info_matches(nodes@, r),
{
    let found = if nodes.len() > 0 {
        find_descendant(nodes, 0, "NamespaceInfo")
    } else {
        None
    };
    let n = match found {
        Some(n) => n,
        None => {
            return Err(MgmtError::Xml("response did not contain a NamespaceInfo".to_owned()));
        },
    };
    let name = match text(nodes, n, "Name") {
        Some(name) => name,
        None => {
            return Err(MgmtError::Xml("NamespaceInfo has no Name element".to_owned()));
        },
    };
    Ok(
        NamespaceInfo {
            name,
            alias: text(nodes, n, "Alias"),
            namespace_type: text(nodes, n, "NamespaceType"),
            messaging_sku: text(nodes, n, "MessagingSKU"),
            messaging_units: integer_u32(nodes, n, "MessagingUnits"),
            created_time: timestamp(nodes, n, "CreatedTime"),
            modified_time: timestamp(nodes, n, "ModifiedTime"),
        },
    )
}

// ---- feeds ------------------------------------------------------------------------------------

/// The entries (of `ents`, in order) that hold a `tag` description.
pub open spec fn described(s: Seq<XmlNode>, ents: Seq<int>, tag: Seq<char>) -> Seq<int>
    decreases ents.len(),
{
    if ents.len() == 0 {
        Seq::empty()
    } else if descendant_named(s, ents.last(), tag) >= 0 {
        described(s, ents.drop_last(), tag).push(ents.last())
    } else {
        described(s, ents.drop_last(), tag)
    }
}

/// Every queue entry of a document, in order.
pub open spec fn queue_feed_matches(s: Seq<XmlNode>, v: Seq<QueueInfo>) -> bool {
    let es = described(s, entry_indices(s), "QueueDescription"@);
    v.len() == es.len() && forall|i: int| 0 <= i < v.len() ==> #[trigger] queue_entry_matches(s, es[i], Some(v[i]))
}

pub open spec fn topic_feed_matches(s: Seq<XmlNode>, v: Seq<TopicInfo>) -> bool {
    let es = described(s, entry_indices(s), "TopicDescription"@);
    v.len() == es.len() && forall|i: int| 0 <= i < v.len() ==> #[trigger] topic_entry_matches(s, es[i], Some(v[i]))
}

pub open spec fn subscription_feed_matches(s: Seq<XmlNode>, topic: Seq<char>, v: Seq<SubscriptionInfo>) -> bool {
    let es = described(s, entry_indices(s), "SubscriptionDescription"@);
    v.len() == es.len() && forall|i: int| 0 <= i < v.len() ==> #[trigger] subscription_entry_matches(s, es[i], topic, Some(v[i]))
}

pub open spec fn rule_feed_matches(s: Seq<XmlNode>, topic: Seq<char>, subscription: Seq<char>, v: Seq<RuleInfo>) -> bool {
    let es = described(s, entry_indices(s), "RuleDescription"@);
    v.len() == es.len() && forall|i: int| 0 <= i < v.len() ==> #[trigger] rule_entry_matches(s, es[i], topic, subscription, Some(v[i]))
}

/// Every queue in a document's nodes.
pub fn queue_feed_from_nodes(nodes: &Vec<XmlNode>) -> (r: Vec<QueueInfo>)
    ensures
        queue_feed_matches(nodes@, r@),
{
    let es = entries(nodes);
    let ghost all = entry_indices(nodes@);
    let ghost tag = "QueueDescription"@;
    let mut out: Vec<QueueInfo> = Vec::new();
    let mut i: usize = 0;
    while i < es.len()
        invariant
            i <= es@.len(),
            es@.len() == all.len(),
            all == entry_indices(nodes@),
            tag == "QueueDescription"@,
            forall|j: int| 0 <= j < es@.len() ==> #[trigger] es@[j] == all[j] && es@[j] < nodes@.len(),
            out@.len() == described(nodes@, all.take(i as int), tag).len(),
            forall|j: int| 0 <= j < out@.len() ==> #[trigger] queue_entry_matches(nodes@, described(nodes@, all.take(i as int), tag)[j], Some(out@[j])),
        decreases es@.len() - i,
    {
        let e = es[i];
        assert(all.take(i + 1).drop_last() =~= all.take(i as int));
        assert(all.take(i + 1).last() == e);
        match queue_from_entry(nodes, e) {
            Some(q) => {
                out.push(q);
            },
            None => {},
        }
        i = i + 1;
    }
    assert(all.take(i as int) =~= all);
    out
}

/// Every topic in a document's nodes.
pub fn topic_feed_from_nodes(nodes: &Vec<XmlNode>) -> (r: Vec<TopicInfo>)
    ensures
        topic_feed_matches(nodes@, r@),
{
    let es = entries(nodes);
    let ghost all = entry_indices(nodes@);
    let ghost tag = "TopicDescription"@;
    let mut out: Vec<TopicInfo> = Vec::new();
    let mut i: usize = 0;
    while i < es.len()
        invariant
            i <= es@.len(),
            es@.len() == all.len(),
            all == entry_indices(nodes@),
            tag == "TopicDescription"@,
            forall|j: int| 0 <= j < es@.len() ==> #[trigger] es@[j] == all[j] && es@[j] < nodes@.len(),
            out@.len() == described(nodes@, all.take(i as int), tag).len(),
            forall|j: int| 0 <= j < out@.len() ==> #[trigger] topic_entry_matches(nodes@, described(nodes@, all.take(i as int), tag)[j], Some(out@[j])),
        decreases es@.len() - i,
    {
        let e = es[i];
        assert(all.take(i + 1).drop_last() =~= all.take(i as int));
        assert(all.take(i + 1).last() == e);
        match topic_from_entry(nodes, e) {
            Some(t) => {
                out.push(t);
            },
            None => {},
        }
        i = i + 1;
    }
    assert(all.take(i as int) =~= all);
    out
}

/// Every subscription (of `topic`) in a document's nodes.
pub fn subscription_feed_from_nodes(nodes: &Vec<XmlNode>, topic: &str) -> (r: Vec<SubscriptionInfo>)
    ensures
        subscription_feed_matches(nodes@, topic@, r@),
{
    let es = entries(nodes);
    let ghost all = entry_indices(nodes@);
    let ghost tag = "SubscriptionDescription"@;
    let mut out: Vec<SubscriptionInfo> = Vec::new();
    let mut i: usize = 0;
    while i < es.len()
        invariant
            i <= es@.len(),
            es@.len() == all.len(),
            all == entry_indices(nodes@),
            tag == "SubscriptionDescription"@,
            forall|j: int| 0 <= j < es@.len() ==> #[trigger] es@[j] == all[j] && es@[j] < nodes@.len(),
            out@.len() == described(nodes@, all.take(i as int), tag).len(),
            forall|j: int| 0 <= j < out@.len() ==> #[trigger] subscription_entry_matches(nodes@, described(nodes@, all.take(i as int), tag)[j], topic@, Some(out@[j])),
        decreases es@.len() - i,
    {
        let e = es[i];
        assert(all.take(i + 1).drop_last() =~= all.take(i as int));
        assert(all.take(i + 1).last() == e);
        match subscription_from_entry(nodes, e, topic) {
            Some(x) => {
                out.push(x);
            },
            None => {},
        }
        i = i + 1;
    }
    assert(all.take(i as int) =~= all);
    out
}

/// Every rule (of `topic`'s `subscription`) in a document's nodes.
pub fn rule_feed_from_nodes(nodes: &Vec<XmlNode>, topic: &str, subscription: &str) -> (r: Vec<RuleInfo>)
    ensures
        rule_feed_matches(nodes@, topic@, subscription@, r@),
{
    let es = entries(nodes);
    let ghost all = entry_indices(nodes@);
    let ghost tag = "RuleDescription"@;
    let mut out: Vec<RuleInfo> = Vec::new();
    let mut i: usize = 0;
    while i < es.len()
        invariant
            i <= es@.len(),
            es@.len() == all.len(),
            all == entry_indices(nodes@),
            tag == "RuleDescription"@,
            forall|j: int| 0 <= j < es@.len() ==> #[trigger] es@[j] == all[j] && es@[j] < nodes@.len(),
            out@.len() == described(nodes@, all.take(i as int), tag).len(),
            forall|j: int| 0 <= j < out@.len() ==> #[trigger] rule_entry_matches(nodes@, described(nodes@, all.take(i as int), tag)[j], topic@, subscription@, Some(out@[j])),
        decreases es@.len() - i,
    {
        let e = es[i];
        assert(all.take(i + 1).drop_last() =~= all.take(i as int));
        assert(all.take(i + 1).last() == e);
        match rule_from_entry(nodes, e, topic, subscription) {
            Some(x) => {
                out.push(x);
            },
            None => {},
        }
        i = i + 1;
    }
    assert(all.take(i as int) =~= all);
    out
}

// ---- responses ----------------------------------------------------------------------------------

fn read_response(xml: &str) -> (r: Result<Vec<XmlNode>, MgmtError>)
    ensures
        match xml_parse_error(xml@) {
            None => r matches Ok(nodes) && listing_of(nodes@, xml@),
            Some(m) => r matches Err(MgmtError::Xml(e)) && e@ == m,
        },
{
    match read_xml(xml) {
        Ok(nodes) => Ok(nodes),
        Err(m) => Err(MgmtError::Xml(m)),
    }
}

fn first_of<T>(mut v: Vec<T>) -> (r: Option<T>)
    ensures
        v@.len() == 0 ==> r is None,
        v@.len() > 0 ==> r == Some(v@[0]),
{
    if v.len() == 0 {
        None
    } else {
        Some(v.remove(0))
    }
}

/// A `$namespaceinfo` response.
pub fn parse_namespace_info(xml: &str) -> (r: Result<NamespaceInfo, MgmtError>)
    ensures
        r matches Err(e) ==> e is Xml,
        xml_parse_error(xml@) matches Some(m) ==> (r matches Err(MgmtError::Xml(e)) && e@ == m),
        xml_parse_error(xml@) is None ==> exists|s: Seq<XmlNode>| listing_of(s, xml@) && #[trigger] namespace_info_matches(s, r),
{
    let nodes = read_response(xml)?;
    let r = namespace_info_from_nodes(&nodes);
    assert(listing_of(nodes@, xml@) && namespace_info_matches(nodes@, r));
    r
}

/// A queue feed response: every queue in it.
pub fn parse_queue_feed(xml: &str) -> (r: Result<Vec<QueueInfo>, MgmtError>)
    ensures
        r matches Err(e) ==> e is Xml,
        xml_parse_error(xml@) matches Some(m) ==> (r matches Err(MgmtError::Xml(e)) && e@ == m),
        xml_parse_error(xml@) is None ==> r is Ok,
        r matches Ok(v) ==> exists|s: Seq<XmlNode>| listing_of(s, xml@) && #[trigger] queue_feed_matches(s, v@),
{
    let nodes = read_response(xml)?;
    let v = queue_feed_from_nodes(&nodes);
    let r: Result<Vec<QueueInfo>, MgmtError> = Ok(v);
    assert(exists|s: Seq<XmlNode>| listing_of(s, xml@) && #[trigger] queue_feed_matches(s, (r->Ok_0)@)) by {
        assert(listing_of(nodes@, xml@) && queue_feed_matches(nodes@, (r->Ok_0)@));
    }
    r
}

/// A single-queue response: its first queue entry, or `None` for a valid
/// response without one (how the service answers a GET for a queue that
/// does not exist).
pub fn parse_queue(xml: &str) -> (r: Result<Option<QueueInfo>, MgmtError>)
    ensures
        r matches Err(e) ==> e is Xml,
        xml_parse_error(xml@) matches Some(m) ==> (r matches Err(MgmtError::Xml(e)) && e@ == m),
        xml_parse_error(xml@) is None ==> r is Ok,
        r matches Ok(o) ==> exists|s: Seq<XmlNode>, v: Seq<QueueInfo>| listing_of(s, xml@) && #[trigger] queue_feed_matches(s, v) && (
        v.len() == 0 ==> o is None) && (v.len() > 0 ==> o == Some(v[0])),
{
    let nodes = read_response(xml)?;
    Ok(first_of(queue_feed_from_nodes(&nodes)))
}

/// A topic feed response: every topic in it.
pub fn parse_topic_feed(xml: &str) -> (r: Result<Vec<TopicInfo>, MgmtError>)
    ensures
        r matches Err(e) ==> e is Xml,
        xml_parse_error(xml@) matches Some(m) ==> (r matches Err(MgmtError::Xml(e)) && e@ == m),
        xml_parse_error(xml@) is None ==> r is Ok,
        r matches Ok(v) ==> exists|s: Seq<XmlNode>| listing_of(s, xml@) && #[trigger] topic_feed_matches(s, v@),
{
    let nodes = read_response(xml)?;
    let v = topic_feed_from_nodes(&nodes);
    let r: Result<Vec<TopicInfo>, MgmtError> = Ok(v);
    assert(exists|s: Seq<XmlNode>| listing_of(s, xml@) && #[trigger] topic_feed_matches(s, (r->Ok_0)@)) by {
        assert(listing_of(nodes@, xml@) && topic_feed_matches(nodes@, (r->Ok_0)@));
    }
    r
}

/// A single-topic response: its first topic entry, if any.
pub fn parse_topic(xml: &str) -> (r: Result<Option<TopicInfo>, MgmtError>)
    ensures
        r matches Err(e) ==> e is Xml,
        xml_parse_error(xml@) matches Some(m) ==> (r matches Err(MgmtError::Xml(e)) && e@ == m),
        xml_parse_error(xml@) is None ==> r is Ok,
        r matches Ok(o) ==> exists|s: Seq<XmlNode>, v: Seq<TopicInfo>| listing_of(s, xml@) && #[trigger] topic_feed_matches(s, v) && (
        v.len() == 0 ==> o is None) && (v.len() > 0 ==> o == Some(v[0])),
{
    let nodes = read_response(xml)?;
    Ok(first_of(topic_feed_from_nodes(&nodes)))
}

/// A subscription feed response: every subscription of `topic` in it.
pub fn parse_subscription_feed(xml: &str, topic: &str) -> (r: Result<Vec<SubscriptionInfo>, MgmtError>)
    ensures
        r matches Err(e) ==> e is Xml,
        xml_parse_error(xml@) matches Some(m) ==> (r matches Err(MgmtError::Xml(e)) && e@ == m),
        xml_parse_error(xml@) is None ==> r is Ok,
        r matches Ok(v) ==> exists|s: Seq<XmlNode>| listing_of(s, xml@) && #[trigger] subscription_feed_matches(s, topic@, v@),
{
    let nodes = read_response(xml)?;
    let v = subscription_feed_from_nodes(&nodes, topic);
    let r: Result<Vec<SubscriptionInfo>, MgmtError> = Ok(v);
    assert(exists|s: Seq<XmlNode>| listing_of(s, xml@) && #[trigger] subscription_feed_matches(s, topic@, (r->Ok_0)@)) by {
        assert(listing_of(nodes@, xml@) && subscription_feed_matches(nodes@, topic@, (r->Ok_0)@));
    }
    r
}

/// A single-subscription response: its first subscription entry, if any.
pub fn parse_subscription(xml: &str, topic: &str) -> (r: Result<Option<SubscriptionInfo>, MgmtError>)
    ensures
        r matches Err(e) ==> e is Xml,
        xml_parse_error(xml@) matches Some(m) ==> (r matches Err(MgmtError::Xml(e)) && e@ == m),
        xml_parse_error(xml@) is None ==> r is Ok,
        r matches Ok(o) ==> exists|s: Seq<XmlNode>, v: Seq<SubscriptionInfo>| listing_of(s, xml@) && #[trigger] subscription_feed_matches(s, topic@, v) && (
        v.len() == 0 ==> o is None) && (v.len() > 0 ==> o == Some(v[0])),
{
    let nodes = read_response(xml)?;
    Ok(first_of(subscription_feed_from_nodes(&nodes, topic)))
}

/// A rule feed response: every rule of `topic`'s `subscription` in it.
pub fn parse_rule_feed(xml: &str, topic: &str, subscription: &str) -> (r: Result<Vec<RuleInfo>, MgmtError>)
    ensures
        r matches Err(e) ==> e is Xml,
        xml_parse_error(xml@) matches Some(m) ==> (r matches Err(MgmtError::Xml(e)) && e@ == m),
        xml_parse_error(xml@) is None ==> r is Ok,
        r matches Ok(v) ==> exists|s: Seq<XmlNode>| listing_of(s, xml@) && #[trigger] rule_feed_matches(s, topic@, subscription@, v@),
{
    let nodes = read_response(xml)?;
    let v = rule_feed_from_nodes(&nodes, topic, subscription);
    let r: Result<Vec<RuleInfo>, MgmtError> = Ok(v);
    assert(exists|s: Seq<XmlNode>| listing_of(s, xml@) && #[trigger] rule_feed_matches(s, topic@, subscription@, (r->Ok_0)@)) by {
        assert(listing_of(nodes@, xml@) && rule_feed_matches(nodes@, topic@, subscription@, (r->Ok_0)@));
    }
    r
}

/// A single-rule response: its first rule entry, if any.
pub fn parse_rule(xml: &str, topic: &str, subscription: &str) -> (r: Result<Option<RuleInfo>, MgmtError>)
    ensures
        r matches Err(e) ==> e is Xml,
        xml_parse_error(xml@) matches Some(m) ==> (r matches Err(MgmtError::Xml(e)) && e@ == m),
        xml_parse_error(xml@) is None ==> r is Ok,
        r matches Ok(o) ==> exists|s: Seq<XmlNode>, v: Seq<RuleInfo>| listing_of(s, xml@) && #[trigger] rule_feed_matches(s, topic@, subscription@, v) && (
        v.len() == 0 ==> o is None) && (v.len() > 0 ==> o == Some(v[0])),
{
    let nodes = read_response(xml)?;
    Ok(first_of(rule_feed_from_nodes(&nodes, topic, subscription)))
}


/// Each count of `<CountDetails>` is the integer text of the element of its
/// own name (0 when that element is missing or not an integer), and every
/// count is 0 without `<CountDetails>`.
pub proof fn law_counts_come_from_their_own_elements(s: Seq<XmlNode>, p: int)
    ensures
        ({
            let d = child_named(s, p, "CountDetails"@, false);
            let c = spec_count_details(s, p);
            let read = |name: Seq<char>|
                match child_text(s, d, name) {
                    Some(t) => match spec_parse_i64(t) {
                        Some(v) => v,
                        None => 0i64,
                    },
                    None => 0i64,
                };
            &&& d < 0 ==> c.active == 0 && c.dead_letter == 0 && c.scheduled == 0 && c.transfer == 0
                && c.transfer_dead_letter == 0
            &&& d >= 0 ==> {
                &&& c.active == read("ActiveMessageCount"@)
                &&& c.dead_letter == read("DeadLetterMessageCount"@)
                &&& c.scheduled == read("ScheduledMessageCount"@)
                &&& c.transfer == read("TransferMessageCount"@)
                &&& c.transfer_dead_letter == read("TransferDeadLetterMessageCount"@)
            }
        }),
{
}

} // verus!
