//! ATOM `<entry>` bodies for management PUT requests. The service validates
//! element order against its schema, so every description is written field by
//! field in schema order.

use vstd::prelude::*;
use crate::duration::{format_iso8601, spec_format_iso8601};
use crate::model::{
    EntityStatus, QueueProperties, RuleFilter, RuleProperties, SubscriptionProperties,
    TopicProperties, status_text,
};
use crate::text::{
    int_decimal, push_chars, push_int_decimal, push_str, str_chars, string_from_chars, trim,
    trim_bounds,
};

verus! {

broadcast use vstd::string::group_string_axioms;

// ---- escaping -----------------------------------------------------------------------

pub open spec fn escape_char(c: char) -> Seq<char> {
    if c == '<' {
        "&lt;"@
    } else if c == '>' {
        "&gt;"@
    } else if c == '&' {
        "&amp;"@
    } else if c == '\'' {
        "&apos;"@
    } else if c == '"' {
        "&quot;"@
    } else if c == '\r' {
        "&#13;"@
    } else {
        seq![c]
    }
}

/// XML escaping of text and attribute values.
pub open spec fn spec_xml_escape(s: Seq<char>) -> Seq<char>
    decreases s.len(),
{
    if s.len() == 0 {
        Seq::empty()
    } else {
        escape_char(s[0]) + spec_xml_escape(s.drop_first())
    }
}

proof fn lemma_escape_push(s: Seq<char>, c: char)
    ensures
        spec_xml_escape(s.push(c)) == spec_xml_escape(s) + escape_char(c),
    decreases s.len(),
{
    if s.len() == 0 {
        assert(s.push(c).drop_first() =~= Seq::<char>::empty());
        assert(spec_xml_escape(Seq::<char>::empty()) == Seq::<char>::empty());
        assert(s.push(c)[0] == c);
        assert(s =~= Seq::<char>::empty());
        assert(spec_xml_escape(s.push(c)) =~= escape_char(c) + Seq::<char>::empty());
    } else {
        assert(s.push(c).drop_first() =~= s.drop_first().push(c));
        lemma_escape_push(s.drop_first(), c);
        assert(spec_xml_escape(s.push(c)) =~= spec_xml_escape(s) + escape_char(c));
    }
}

/// Replaces `<`, `>`, `&`, `'`, `"` and `\r` with their entity references
/// and keeps every other character (as `quick_xml::escape::escape` does).
fn xml_escape(s: &str) -> (r: String)
    ensures
        r@ == spec_xml_escape(s@),
{
    let cs = str_chars(s);
    let mut out: Vec<char> = Vec::new();
    let mut i: usize = 0;
    while i < cs.len()
        invariant
            i <= cs.len(),
            cs@ == s@,
            out@ == spec_xml_escape(cs@.take(i as int)),
        decreases cs.len() - i,
    {
        let c = cs[i];
        proof {
            assert(cs@.take(i + 1) =~= cs@.take(i as int).push(c));
            lemma_escape_push(cs@.take(i as int), c);
        }
        if c == '<' {
            push_str(&mut out, "&lt;");
        } else if c == '>' {
            push_str(&mut out, "&gt;");
        } else if c == '&' {
            push_str(&mut out, "&amp;");
        } else if c == '\'' {
            push_str(&mut out, "&apos;");
        } else if c == '"' {
            push_str(&mut out, "&quot;");
        } else if c == '\r' {
            push_str(&mut out, "&#13;");
        } else {
            out.push(c);
        }
        i = i + 1;
    }
    assert(cs@.take(i as int) =~= cs@);
    string_from_chars(out.as_slice())
}

// ---- document shape -------------------------------------------------------------------

pub open spec fn leaf(tag: Seq<char>, value: Seq<char>) -> Seq<char> {
    seq!['<'] + tag + seq!['>'] + spec_xml_escape(value) + seq!['<', '/'] + tag + seq!['>']
}

pub open spec fn bool_text(b: bool) -> Seq<char> {
    if b {
        "true"@
    } else {
        "false"@
    }
}

pub open spec fn leaf_opt(tag: Seq<char>, value: Option<String>) -> Seq<char> {
    match value {
        Some(v) => if v@.len() > 0 {
            leaf(tag, v@)
        } else {
            Seq::empty()
        },
        None => Seq::empty(),
    }
}

pub open spec fn leaf_int_opt(tag: Seq<char>, value: Option<i64>) -> Seq<char> {
    match value {
        Some(v) => leaf(tag, int_decimal(v as int)),
        None => Seq::empty(),
    }
}

pub open spec fn close_tag(tag: Seq<char>) -> Seq<char> {
    seq!['<', '/'] + tag + seq!['>']
}

/// The `<entry>` envelope around a description element holding `fields`.
pub open spec fn entry_doc(description_tag: Seq<char>, fields: Seq<char>) -> Seq<char> {
    "<?xml version=\"1.0\" encoding=\"utf-8\"?>"@ + "<entry xmlns=\"http://www.w3.org/2005/Atom\">"@
        + "<content type=\"application/xml\">"@ + seq!['<'] + description_tag
        + " xmlns=\"http://schemas.microsoft.com/netservices/2010/10/servicebus/connect\" xmlns:i=\"http://www.w3.org/2001/XMLSchema-instance\">"@
        + fields + close_tag(description_tag) + "</content>"@ + "</entry>"@
}

pub open spec fn queue_fields(p: QueueProperties) -> Seq<char> {
    leaf("LockDuration"@, spec_format_iso8601(p.lock_duration)) + leaf(
        "MaxSizeInMegabytes"@,
        int_decimal(p.max_size_in_megabytes as int),
    ) + leaf("RequiresDuplicateDetection"@, bool_text(p.requires_duplicate_detection)) + leaf(
        "RequiresSession"@,
        bool_text(p.requires_session),
    ) + leaf("DefaultMessageTimeToLive"@, spec_format_iso8601(p.default_message_time_to_live))
        + leaf(
        "DeadLetteringOnMessageExpiration"@,
        bool_text(p.dead_lettering_on_message_expiration),
    ) + leaf(
        "DuplicateDetectionHistoryTimeWindow"@,
        spec_format_iso8601(p.duplicate_detection_history_time_window),
    ) + leaf("MaxDeliveryCount"@, int_decimal(p.max_delivery_count as int)) + leaf(
        "EnableBatchedOperations"@,
        bool_text(p.enable_batched_operations),
    ) + leaf("Status"@, status_text(p.status)) + leaf_opt("ForwardTo"@, p.forward_to) + leaf(
        "AutoDeleteOnIdle"@,
        spec_format_iso8601(p.auto_delete_on_idle),
    ) + leaf("EnablePartitioning"@, bool_text(p.enable_partitioning)) + leaf(
        "EnableExpress"@,
        bool_text(p.enable_express),
    ) + leaf_opt("UserMetadata"@, p.user_metadata) + leaf_opt(
        "ForwardDeadLetteredMessagesTo"@,
        p.forward_dead_lettered_messages_to,
    ) + leaf_int_opt("MaxMessageSizeInKilobytes"@, p.max_message_size_in_kilobytes)
}

pub open spec fn topic_fields(p: TopicProperties) -> Seq<char> {
    leaf("DefaultMessageTimeToLive"@, spec_format_iso8601(p.default_message_time_to_live)) + leaf(
        "MaxSizeInMegabytes"@,
        int_decimal(p.max_size_in_megabytes as int),
    ) + leaf("RequiresDuplicateDetection"@, bool_text(p.requires_duplicate_detection)) + leaf(
        "DuplicateDetectionHistoryTimeWindow"@,
        spec_format_iso8601(p.duplicate_detection_history_time_window),
    ) + leaf("EnableBatchedOperations"@, bool_text(p.enable_batched_operations)) + leaf(
        "Status"@,
        status_text(p.status),
    ) + leaf("SupportOrdering"@, bool_text(p.support_ordering)) + leaf(
        "AutoDeleteOnIdle"@,
        spec_format_iso8601(p.auto_delete_on_idle),
    ) + leaf("EnablePartitioning"@, bool_text(p.enable_partitioning)) + leaf(
        "EnableExpress"@,
        bool_text(p.enable_express),
    ) + leaf_opt("UserMetadata"@, p.user_metadata) + leaf_int_opt(
        "MaxMessageSizeInKilobytes"@,
        p.max_message_size_in_kilobytes,
    )
}

pub open spec fn subscription_fields(p: SubscriptionProperties) -> Seq<char> {
    leaf("LockDuration"@, spec_format_iso8601(p.lock_duration)) + leaf(
        "RequiresSession"@,
        bool_text(p.requires_session),
    ) + leaf("DefaultMessageTimeToLive"@, spec_format_iso8601(p.default_message_time_to_live))
        + leaf(
        "DeadLetteringOnMessageExpiration"@,
        bool_text(p.dead_lettering_on_message_expiration),
    ) + leaf(
        "DeadLetteringOnFilterEvaluationExceptions"@,
        bool_text(p.dead_lettering_on_filter_evaluation_exceptions),
    ) + leaf("MaxDeliveryCount"@, int_decimal(p.max_delivery_count as int)) + leaf(
        "EnableBatchedOperations"@,
        bool_text(p.enable_batched_operations),
    ) + leaf("Status"@, status_text(p.status)) + leaf_opt("ForwardTo"@, p.forward_to) + leaf_opt(
        "UserMetadata"@,
        p.user_metadata,
    ) + leaf("AutoDeleteOnIdle"@, spec_format_iso8601(p.auto_delete_on_idle)) + leaf_opt(
        "ForwardDeadLetteredMessagesTo"@,
        p.forward_dead_lettered_messages_to,
    )
}

pub open spec fn properties_xml(props: Seq<(String, String)>) -> Seq<char>
    decreases props.len(),
{
    if props.len() == 0 {
        Seq::empty()
    } else {
        properties_xml(props.drop_last()) + "<KeyValueOfstringanyType>"@ + leaf(
            "Key"@,
            props.last().0@,
        )
            + "<Value i:type=\"d6p1:string\" xmlns:d6p1=\"http://www.w3.org/2001/XMLSchema\">"@
            + spec_xml_escape(props.last().1@) + "</Value>"@ + "</KeyValueOfstringanyType>"@
    }
}

pub open spec fn filter_xml(f: RuleFilter) -> Seq<char> {
    match f {
        RuleFilter::Sql { expression } => "<Filter i:type=\"SqlFilter\">"@ + leaf(
            "SqlExpression"@,
            expression@,
        ) + "</Filter>"@,
        RuleFilter::Correlation {
            correlation_id,
            message_id,
            to,
            reply_to,
            subject,
            session_id,
            reply_to_session_id,
            content_type,
            properties,
        } => "<Filter i:type=\"CorrelationFilter\">"@ + leaf_opt("CorrelationId"@, correlation_id)
            + leaf_opt("MessageId"@, message_id) + leaf_opt("To"@, to) + leaf_opt(
            "ReplyTo"@,
            reply_to,
        ) + leaf_opt("Label"@, subject) + leaf_opt("SessionId"@, session_id) + leaf_opt(
            "ReplyToSessionId"@,
            reply_to_session_id,
        ) + leaf_opt("ContentType"@, content_type) + (if properties@.len() > 0 {
            "<Properties>"@ + properties_xml(properties@) + "</Properties>"@
        } else {
            Seq::empty()
        }) + "</Filter>"@,
        RuleFilter::True => "<Filter i:type=\"TrueFilter\">"@ + leaf("SqlExpression"@, "1=1"@)
            + "</Filter>"@,
        RuleFilter::False => "<Filter i:type=\"FalseFilter\">"@ + leaf("SqlExpression"@, "1=0"@)
            + "</Filter>"@,
    }
}

pub open spec fn action_xml(action: Option<String>) -> Seq<char> {
    match action {
        Some(e) => if trim(e@).len() > 0 {
            "<Action i:type=\"SqlRuleAction\">"@ + leaf("SqlExpression"@, e@) + "</Action>"@
        } else {
            "<Action i:type=\"EmptyRuleAction\">"@ + "</Action>"@
        },
        None => "<Action i:type=\"EmptyRuleAction\">"@ + "</Action>"@,
    }
}

pub open spec fn rule_fields(p: RuleProperties) -> Seq<char> {
    filter_xml(p.filter) + action_xml(p.action) + leaf("Name"@, p.name@)
}

// ---- writers ----------------------------------------------------------------------------

fn push_leaf(out: &mut Vec<char>, tag: &str, value: &str)
    ensures
        final(out)@ == old(out)@ + leaf(tag@, value@),
{
    out.push('<');
    push_str(out, tag);
    out.push('>');
    let escaped = xml_escape(value);
    push_str(out, escaped.as_str());
    out.push('<');
    out.push('/');
    push_str(out, tag);
    out.push('>');
    assert(out@ =~= old(out)@ + leaf(tag@, value@));
}

fn push_leaf_bool(out: &mut Vec<char>, tag: &str, value: bool)
    ensures
        final(out)@ == old(out)@ + leaf(tag@, bool_text(value)),
{
    push_leaf(
        out,
        tag,
        if value {
            "true"
        } else {
            "false"
        },
    );
}

fn push_leaf_int(out: &mut Vec<char>, tag: &str, value: i64)
    ensures
        final(out)@ == old(out)@ + leaf(tag@, int_decimal(value as int)),
{
    let mut digits: Vec<char> = Vec::new();
    push_int_decimal(&mut digits, value);
    assert(digits@ =~= int_decimal(value as int));
    let text = string_from_chars(digits.as_slice());
    push_leaf(out, tag, text.as_str());
}

fn push_leaf_duration(out: &mut Vec<char>, tag: &str, value: crate::duration::Duration)
    requires
        value.wf(),
    ensures
        final(out)@ == old(out)@ + leaf(tag@, spec_format_iso8601(value)),
{
    let text = format_iso8601(value);
    push_leaf(out, tag, text.as_str());
}

fn push_leaf_opt(out: &mut Vec<char>, tag: &str, value: &Option<String>)
    ensures
        final(out)@ == old(out)@ + leaf_opt(tag@, *value),
{
    match value {
        Some(v) => {
            if !v.as_str().is_empty() {
                push_leaf(out, tag, v.as_str());
            } else {
                assert(out@ =~= old(out)@ + leaf_opt(tag@, *value));
            }
        },
        None => {
            assert(out@ =~= old(out)@ + leaf_opt(tag@, *value));
        },
    }
}

fn push_leaf_int_opt(out: &mut Vec<char>, tag: &str, value: Option<i64>)
    ensures
        final(out)@ == old(out)@ + leaf_int_opt(tag@, value),
{
    match value {
        Some(v) => push_leaf_int(out, tag, v),
        None => {
            assert(out@ =~= old(out)@ + leaf_int_opt(tag@, value));
        },
    }
}

fn push_status(out: &mut Vec<char>, status: EntityStatus)
    ensures
        final(out)@ == old(out)@ + leaf("Status"@, status_text(status)),
{
    push_leaf(out, "Status", status.as_str());
}

/// Wraps `fields` in the `<entry>` envelope.
fn entry(description_tag: &str, fields: &Vec<char>) -> (r: String)
    ensures
        r@ == entry_doc(description_tag@, fields@),
{
    let mut out: Vec<char> = Vec::new();
    push_str(&mut out, "<?xml version=\"1.0\" encoding=\"utf-8\"?>");
    push_str(&mut out, "<entry xmlns=\"http://www.w3.org/2005/Atom\">");
    push_str(&mut out, "<content type=\"application/xml\">");
    out.push('<');
    push_str(&mut out, description_tag);
    push_str(
        &mut out,
        " xmlns=\"http://schemas.microsoft.com/netservices/2010/10/servicebus/connect\" xmlns:i=\"http://www.w3.org/2001/XMLSchema-instance\">",
    );
    push_chars(&mut out, fields.as_slice());
    out.push('<');
    out.push('/');
    push_str(&mut out, description_tag);
    out.push('>');
    push_str(&mut out, "</content>");
    push_str(&mut out, "</entry>");
    assert(out@ =~= entry_doc(description_tag@, fields@));
    string_from_chars(out.as_slice())
}

/// `QueueDescription` in schema order.
pub fn queue_body(p: &QueueProperties) -> (r: String)
    requires
        p.wf(),
    ensures
        r@ == entry_doc("QueueDescription"@, queue_fields(*p)),
{
    let mut f: Vec<char> = Vec::new();
    push_leaf_duration(&mut f, "LockDuration", p.lock_duration);
    push_leaf_int(&mut f, "MaxSizeInMegabytes", p.max_size_in_megabytes);
    push_leaf_bool(&mut f, "RequiresDuplicateDetection", p.requires_duplicate_detection);
    push_leaf_bool(&mut f, "RequiresSession", p.requires_session);
    push_leaf_duration(&mut f, "DefaultMessageTimeToLive", p.default_message_time_to_live);
    push_leaf_bool(
        &mut f,
        "DeadLetteringOnMessageExpiration",
        p.dead_lettering_on_message_expiration,
    );
    push_leaf_duration(
        &mut f,
        "DuplicateDetectionHistoryTimeWindow",
        p.duplicate_detection_history_time_window,
    );
    push_leaf_int(&mut f, "MaxDeliveryCount", p.max_delivery_count as i64);
    push_leaf_bool(&mut f, "EnableBatchedOperations", p.enable_batched_operations);
    push_status(&mut f, p.status);
    push_leaf_opt(&mut f, "ForwardTo", &p.forward_to);
    push_leaf_duration(&mut f, "AutoDeleteOnIdle", p.auto_delete_on_idle);
    push_leaf_bool(&mut f, "EnablePartitioning", p.enable_partitioning);
    push_leaf_bool(&mut f, "EnableExpress", p.enable_express);
    push_leaf_opt(&mut f, "UserMetadata", &p.user_metadata);
    push_leaf_opt(&mut f, "ForwardDeadLetteredMessagesTo", &p.forward_dead_lettered_messages_to);
    push_leaf_int_opt(&mut f, "MaxMessageSizeInKilobytes", p.max_message_size_in_kilobytes);
    assert(f@ =~= queue_fields(*p));
    entry("QueueDescription", &f)
}

/// `TopicDescription` in schema order.
pub fn topic_body(p: &TopicProperties) -> (r: String)
    requires
        p.wf(),
    ensures
        r@ == entry_doc("TopicDescription"@, topic_fields(*p)),
{
    let mut f: Vec<char> = Vec::new();
    push_leaf_duration(&mut f, "DefaultMessageTimeToLive", p.default_message_time_to_live);
    push_leaf_int(&mut f, "MaxSizeInMegabytes", p.max_size_in_megabytes);
    push_leaf_bool(&mut f, "RequiresDuplicateDetection", p.requires_duplicate_detection);
    push_leaf_duration(
        &mut f,
        "DuplicateDetectionHistoryTimeWindow",
        p.duplicate_detection_history_time_window,
    );
    push_leaf_bool(&mut f, "EnableBatchedOperations", p.enable_batched_operations);
    push_status(&mut f, p.status);
    push_leaf_bool(&mut f, "SupportOrdering", p.support_ordering);
    push_leaf_duration(&mut f, "AutoDeleteOnIdle", p.auto_delete_on_idle);
    push_leaf_bool(&mut f, "EnablePartitioning", p.enable_partitioning);
    push_leaf_bool(&mut f, "EnableExpress", p.enable_express);
    push_leaf_opt(&mut f, "UserMetadata", &p.user_metadata);
    push_leaf_int_opt(&mut f, "MaxMessageSizeInKilobytes", p.max_message_size_in_kilobytes);
    assert(f@ =~= topic_fields(*p));
    entry("TopicDescription", &f)
}

/// `SubscriptionDescription` in schema order.
pub fn subscription_body(p: &SubscriptionProperties) -> (r: String)
    requires
        p.wf(),
    ensures
        r@ == entry_doc("SubscriptionDescription"@, subscription_fields(*p)),
{
    let mut f: Vec<char> = Vec::new();
    push_leaf_duration(&mut f, "LockDuration", p.lock_duration);
    push_leaf_bool(&mut f, "RequiresSession", p.requires_session);
    push_leaf_duration(&mut f, "DefaultMessageTimeToLive", p.default_message_time_to_live);
    push_leaf_bool(
        &mut f,
        "DeadLetteringOnMessageExpiration",
        p.dead_lettering_on_message_expiration,
    );
    push_leaf_bool(
        &mut f,
        "DeadLetteringOnFilterEvaluationExceptions",
        p.dead_lettering_on_filter_evaluation_exceptions,
    );
    push_leaf_int(&mut f, "MaxDeliveryCount", p.max_delivery_count as i64);
    push_leaf_bool(&mut f, "EnableBatchedOperations", p.enable_batched_operations);
    push_status(&mut f, p.status);
    push_leaf_opt(&mut f, "ForwardTo", &p.forward_to);
    push_leaf_opt(&mut f, "UserMetadata", &p.user_metadata);
    push_leaf_duration(&mut f, "AutoDeleteOnIdle", p.auto_delete_on_idle);
    push_leaf_opt(&mut f, "ForwardDeadLetteredMessagesTo", &p.forward_dead_lettered_messages_to);
    assert(f@ =~= subscription_fields(*p));
    entry("SubscriptionDescription", &f)
}

fn push_properties(out: &mut Vec<char>, props: &Vec<(String, String)>)
    ensures
        final(out)@ == old(out)@ + properties_xml(props@),
{
    let mut i: usize = 0;
    assert(props@.take(0) =~= Seq::<(String, String)>::empty());
    while i < props.len()
        invariant
            i <= props.len(),
            out@ == old(out)@ + properties_xml(props@.take(i as int)),
        decreases props.len() - i,
    {
        let ghost before = out@;
        push_str(out, "<KeyValueOfstringanyType>");
        push_leaf(out, "Key", props[i].0.as_str());
        push_str(
            out,
            "<Value i:type=\"d6p1:string\" xmlns:d6p1=\"http://www.w3.org/2001/XMLSchema\">",
        );
        let escaped = xml_escape(props[i].1.as_str());
        push_str(out, escaped.as_str());
        push_str(out, "</Value>");
        push_str(out, "</KeyValueOfstringanyType>");
        i = i + 1;
        assert(props@.take(i as int).drop_last() =~= props@.take(i - 1));
        assert(out@ =~= old(out)@ + properties_xml(props@.take(i as int)));
    }
    assert(props@.take(i as int) =~= props@);
}

#[verifier::spinoff_prover]
#[verifier::rlimit(40)]
fn push_filter(out: &mut Vec<char>, f: &RuleFilter)
    ensures
        final(out)@ == old(out)@ + filter_xml(*f),
{
    match f {
        RuleFilter::Sql { expression } => {
            push_str(out, "<Filter i:type=\"SqlFilter\">");
            push_leaf(out, "SqlExpression", expression.as_str());
            push_str(out, "</Filter>");
        },
        RuleFilter::Correlation {
            correlation_id,
            message_id,
            to,
            reply_to,
            subject,
            session_id,
            reply_to_session_id,
            content_type,
            properties,
        } => {
            push_str(out, "<Filter i:type=\"CorrelationFilter\">");
            push_leaf_opt(out, "CorrelationId", correlation_id);
            push_leaf_opt(out, "MessageId", message_id);
            push_leaf_opt(out, "To", to);
            push_leaf_opt(out, "ReplyTo", reply_to);
            push_leaf_opt(out, "Label", subject);
            push_leaf_opt(out, "SessionId", session_id);
            push_leaf_opt(out, "ReplyToSessionId", reply_to_session_id);
            push_leaf_opt(out, "ContentType", content_type);
            if properties.len() > 0 {
                push_str(out, "<Properties>");
                push_properties(out, properties);
                push_str(out, "</Properties>");
            }
            push_str(out, "</Filter>");
        },
        RuleFilter::True => {
            push_str(out, "<Filter i:type=\"TrueFilter\">");
            push_leaf(out, "SqlExpression", "1=1");
            push_str(out, "</Filter>");
        },
        RuleFilter::False => {
            push_str(out, "<Filter i:type=\"FalseFilter\">");
            push_leaf(out, "SqlExpression", "1=0");
            push_str(out, "</Filter>");
        },
    }
    assert(out@ =~= old(out)@ + filter_xml(*f));
}

fn push_action(out: &mut Vec<char>, action: &Option<String>)
    ensures
        final(out)@ == old(out)@ + action_xml(*action),
{
    let mut sql = false;
    match action {
        Some(expression) => {
            let cs = str_chars(expression.as_str());
            let (a, b) = trim_bounds(cs.as_slice(), 0, cs.len());
            assert(cs@.subrange(0, cs@.len() as int) =~= cs@);
            if a < b {
                push_str(out, "<Action i:type=\"SqlRuleAction\">");
                push_leaf(out, "SqlExpression", expression.as_str());
                push_str(out, "</Action>");
                sql = true;
            }
        },
        None => {},
    }
    if !sql {
        push_str(out, "<Action i:type=\"EmptyRuleAction\">");
        push_str(out, "</Action>");
    }
    assert(out@ =~= old(out)@ + action_xml(*action));
}

/// `RuleDescription`: filter, action, name, in that order.
pub fn rule_body(p: &RuleProperties) -> (r: String)
    ensures
        r@ == entry_doc("RuleDescription"@, rule_fields(*p)),
{
    let mut f: Vec<char> = Vec::new();
    push_filter(&mut f, &p.filter);
    push_action(&mut f, &p.action);
    push_leaf(&mut f, "Name", p.name.as_str());
    assert(f@ =~= rule_fields(*p));
    entry("RuleDescription", &f)
}

} // verus!
