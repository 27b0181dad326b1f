//! The email dispatch pipeline's two stages.
//!
//! Stage one builds one queued job per member the matcher selects for a
//! topic. Stage two takes stored raw email content, appends the action
//! line (a confirmation or unsubscribe link), and re-serializes the
//! message for sending.

use vstd::prelude::*;

use crate::api::{EmailRequest, EmailRequestV};
use crate::error::RuntimeError;
use crate::subscribe::{member_matches, spec_matches};
use crate::text::{is_substring_at, lemma_contains_trans, spec_contains, str_contains};
use crate::types::{Member, MemberV, Topic, TopicV};

verus! {

/// The job queued for one member.
pub open spec fn spec_job(
    topic: TopicV,
    member: MemberV,
    email_id: Seq<char>,
    confirm_link: bool,
) -> EmailRequestV {
    EmailRequestV { topic, member, email_id, confirm_link }
}

/// The jobs a dispatch produces: one per matching member, in member
/// order; a topic no member matches legitimately produces none.
pub open spec fn matched_jobs(
    topic: TopicV,
    members: Seq<MemberV>,
    email_id: Seq<char>,
    confirm_link: bool,
) -> Seq<EmailRequestV>
    decreases members.len(),
{
    if members.len() == 0 {
        Seq::empty()
    } else {
        let rest = matched_jobs(topic, members.drop_last(), email_id, confirm_link);
        if spec_matches(topic, members.last()) {
            rest.push(spec_job(topic, members.last(), email_id, confirm_link))
        } else {
            rest
        }
    }
}

/// Build the job for one member: full snapshots of topic and member.
pub fn build_email_job(
    topic: &Topic,
    member: &Member,
    email_id: &str,
    confirm_link: bool,
) -> (job: EmailRequest)
    ensures
        job@ == spec_job(topic@, member@, email_id@, confirm_link),
{
    EmailRequest {
        topic: topic.duplicate(),
        member: member.duplicate(),
        email_id: email_id.to_owned(),
        confirm_link,
    }
}

/// Stage one: run the matcher over every candidate member and build one
/// job per match.
pub fn queue_emails(
    topic: &Topic,
    members: &Vec<Member>,
    email_id: &str,
    confirm_link: bool,
) -> (jobs: Vec<EmailRequest>)
    ensures
        jobs@.map_values(|j: EmailRequest| j@) == matched_jobs(
            topic@,
            members@.map_values(|m: Member| m@),
            email_id@,
            confirm_link,
        ),
{
    let ghost ms = members@.map_values(|m: Member| m@);
    let mut jobs: Vec<EmailRequest> = Vec::new();
    let n = members.len();
    let mut i: usize = 0;
    while i < n
        invariant
            n == members@.len() == ms.len(),
            0 <= i <= n,
            forall|k: int| 0 <= k < n ==> ms[k] == (#[trigger] members@[k])@,
            jobs@.map_values(|j: EmailRequest| j@) == matched_jobs(
                topic@,
                ms.subrange(0, i as int),
                email_id@,
                confirm_link,
            ),
        decreases n - i,
    {
        proof {
            assert(ms.subrange(0, i + 1).drop_last() =~= ms.subrange(0, i as int));
            assert(ms.subrange(0, i + 1).last() == ms[i as int]);
        }
        if member_matches(topic, &members[i]) {
            let job = build_email_job(topic, &members[i], email_id, confirm_link);
            jobs.push(job);
            proof {
                assert(jobs@.map_values(|j: EmailRequest| j@) =~= matched_jobs(
                    topic@,
                    ms.subrange(0, i + 1),
                    email_id@,
                    confirm_link,
                ));
            }
        }
        i = i + 1;
    }
    proof {
        assert(ms.subrange(0, n as int) =~= ms);
    }
    jobs
}

/// The action line stage two appends: a confirmation link naming the
/// topic and the stored email, or an unsubscribe link naming the member
/// and the topic.
pub open spec fn action_line(
    topic_id: Seq<char>,
    member_id: Seq<char>,
    email_id: Seq<char>,
    confirm_link: bool,
) -> Seq<char> {
    if confirm_link {
        "\r\n\r\nConfirm email: https://sinln.mdsimmo.com/email-confirm?"@ + confirm_query(
            topic_id,
            email_id,
        )
    } else {
        "\r\n\r\nUnsubscibe: https://sinln.mdsimmo.com/unsubscribe?"@ + unsubscribe_query(
            member_id,
            topic_id,
        )
    }
}

/// The query part of a confirmation link.
pub open spec fn confirm_query(topic_id: Seq<char>, email_id: Seq<char>) -> Seq<char> {
    "topic="@ + topic_id + "&email="@ + email_id
}

/// The query part of an unsubscribe link.
pub open spec fn unsubscribe_query(member_id: Seq<char>, topic_id: Seq<char>) -> Seq<char> {
    "member="@ + member_id + "&topic="@ + topic_id
}

/// Append the action line to a message body.
pub fn append_action_line(
    body: &str,
    topic_id: &str,
    member_id: &str,
    email_id: &str,
    confirm_link: bool,
) -> (r: String)
    ensures
        r@ == body@ + action_line(topic_id@, member_id@, email_id@, confirm_link),
{
    let mut message = body.to_owned();
    if confirm_link {
        message.append("\r\n\r\nConfirm email: https://sinln.mdsimmo.com/email-confirm?");
        message.append("topic=");
        message.append(topic_id);
        message.append("&email=");
        message.append(email_id);
    } else {
        message.append("\r\n\r\nUnsubscibe: https://sinln.mdsimmo.com/unsubscribe?");
        message.append("member=");
        message.append(member_id);
        message.append("&topic=");
        message.append(topic_id);
    }
    proof {
        assert(message@ =~= body@ + action_line(topic_id@, member_id@, email_id@, confirm_link));
    }
    message
}

/// A body with a confirmation line appended names the topic and email:
/// it contains `topic=<topic id>&email=<email id>`.
pub proof fn lemma_confirm_link_rendering(
    body: Seq<char>,
    topic_id: Seq<char>,
    member_id: Seq<char>,
    email_id: Seq<char>,
)
    ensures
        spec_contains(
            body + action_line(topic_id, member_id, email_id, true),
            confirm_query(topic_id, email_id),
        ),
{
    let hay = body + action_line(topic_id, member_id, email_id, true);
    let needle = confirm_query(topic_id, email_id);
    let i = body.len() + "\r\n\r\nConfirm email: https://sinln.mdsimmo.com/email-confirm?"@.len();
    assert(hay.subrange(i as int, i as int + needle.len() as int) =~= needle);
    assert(is_substring_at(hay, needle, i as int));
}

/// A body with an unsubscribe line appended names the member and topic:
/// it contains `member=<member id>&topic=<topic id>`.
pub proof fn lemma_unsubscribe_link_rendering(
    body: Seq<char>,
    topic_id: Seq<char>,
    member_id: Seq<char>,
    email_id: Seq<char>,
)
    ensures
        spec_contains(
            body + action_line(topic_id, member_id, email_id, false),
            unsubscribe_query(member_id, topic_id),
        ),
{
    let hay = body + action_line(topic_id, member_id, email_id, false);
    let needle = unsubscribe_query(member_id, topic_id);
    let i = body.len() + "\r\n\r\nUnsubscibe: https://sinln.mdsimmo.com/unsubscribe?"@.len();
    assert(hay.subrange(i as int, i as int + needle.len() as int) =~= needle);
    assert(is_substring_at(hay, needle, i as int));
}

/// A character the grammar's text class admits in a body line.
pub open spec fn is_body_text_char(c: char) -> bool {
    (1 <= c as int <= 9) || c as int == 11 || c as int == 12 || (14 <= c as int <= 127)
}

/// Body text the parser stores verbatim: every character is of the text
/// class, with line breaks only as CRLF pairs. A line opening with any
/// other character is dropped without an error, so only clean text is
/// promised to survive a round through the body setter.
pub open spec fn body_text_clean(s: Seq<char>) -> bool {
    forall|i: int|
        0 <= i < s.len() ==> {
            ||| is_body_text_char(#[trigger] s[i])
            ||| (s[i] == '\r' && i + 1 < s.len() && s[i + 1] == '\n')
            ||| (s[i] == '\n' && i > 0 && s[i - 1] == '\r')
        }
}

/// Whether raw text parses as an RFC 5322 message.
pub uninterp spec fn parse_ok(raw: Seq<char>) -> bool;

/// The body text of the message the raw text parses to, when the
/// message has one.
pub uninterp spec fn body_of(raw: Seq<char>) -> Option<Seq<char>>;

/// The serialized form of the message the raw text parses to, unchanged.
pub uninterp spec fn reserialized(raw: Seq<char>) -> Seq<char>;

/// The serialized form of the message the raw text parses to with its
/// body replaced, when the replacement passes validation.
pub uninterp spec fn rendered_with_body(raw: Seq<char>, new_body: Seq<char>) -> Option<Seq<char>>;

/// Relies on email_format's `Email::parse` and `Email::get_body`: both
/// the parse outcome and the body text are functions of the raw text
/// alone; a parse failure is reported as the error's message. The parser
/// indexes two bytes past the header section, so text without the blank
/// header/body separator line is kept out: on such input the call can
/// panic instead of returning.
#[verifier::external_body]
fn split_body(raw: &str) -> (r: Result<Option<String>, RuntimeError>)
    requires
        spec_contains(raw@, "\r\n\r\n"@),
    ensures
        r is Ok <==> parse_ok(raw@),
        match r {
            Ok(Some(b)) => body_of(raw@) == Some(b@) && body_text_clean(b@),
            Ok(None) => body_of(raw@) is None,
            Err(_) => true,
        },
{
    match <email_format::Email as email_format::rfc5322::Parsable>::parse(raw.as_bytes()) {
        Ok((email, _remainder)) => match email.get_body() {
            Some(body) => Ok(Some(body.to_string())),
            None => Ok(None),
        },
        Err(e) => Err(RuntimeError::from_string(format!("{}", e))),
    }
}

/// Relies on email_format's `Email::parse`, `Email::set_body` (which
/// validates the new body against RFC 5322, storing clean text verbatim)
/// and `Email::as_string` (which streams the stored body verbatim after
/// the headers): for the same raw text and replacement body the outcome
/// is fixed, and a successful result contains a clean new body; a parse
/// or validation failure is reported as the error's message. The
/// separator is required as in `split_body`.
#[verifier::external_body]
fn reserialize_with_body(raw: &str, new_body: &str) -> (r: Result<String, RuntimeError>)
    requires
        spec_contains(raw@, "\r\n\r\n"@),
    ensures
        !parse_ok(raw@) ==> r is Err,
        parse_ok(raw@) ==> match r {
            Ok(s) => rendered_with_body(raw@, new_body@) == Some(s@) && (body_text_clean(
                new_body@,
            ) ==> spec_contains(s@, new_body@)),
            Err(_) => rendered_with_body(raw@, new_body@) is None,
        },
{
    let mut email = match <email_format::Email as email_format::rfc5322::Parsable>::parse(
        raw.as_bytes(),
    ) {
        Ok((email, _remainder)) => email,
        Err(e) => return Err(RuntimeError::from_string(format!("{}", e))),
    };
    match email.set_body(new_body) {
        Ok(()) => Ok(email.as_string()),
        Err(e) => Err(RuntimeError::from_string(format!("{}", e))),
    }
}

/// Relies on email_format's `Email::parse` and `Email::as_string`: the
/// message re-serialized unchanged, a function of the raw text alone.
/// The separator is required as in `split_body`.
#[verifier::external_body]
fn reserialize(raw: &str) -> (r: Result<String, RuntimeError>)
    requires
        spec_contains(raw@, "\r\n\r\n"@),
    ensures
        r is Ok <==> parse_ok(raw@),
        r is Ok ==> r->Ok_0@ == reserialized(raw@),
{
    match <email_format::Email as email_format::rfc5322::Parsable>::parse(raw.as_bytes()) {
        Ok((email, _remainder)) => Ok(email.as_string()),
        Err(e) => Err(RuntimeError::from_string(format!("{}", e))),
    }
}

/// A sent message whose body carries the confirmation line names its
/// topic and email: it contains `topic=<topic id>&email=<email id>`.
pub proof fn lemma_sent_message_confirm_query(
    out: Seq<char>,
    body: Seq<char>,
    topic_id: Seq<char>,
    member_id: Seq<char>,
    email_id: Seq<char>,
)
    requires
        spec_contains(out, body + action_line(topic_id, member_id, email_id, true)),
    ensures
        spec_contains(out, confirm_query(topic_id, email_id)),
{
    lemma_confirm_link_rendering(body, topic_id, member_id, email_id);
    lemma_contains_trans(
        out,
        body + action_line(topic_id, member_id, email_id, true),
        confirm_query(topic_id, email_id),
    );
}

/// A sent message whose body carries the unsubscribe line names its
/// member and topic: it contains `member=<member id>&topic=<topic id>`.
pub proof fn lemma_sent_message_unsubscribe_query(
    out: Seq<char>,
    body: Seq<char>,
    topic_id: Seq<char>,
    member_id: Seq<char>,
    email_id: Seq<char>,
)
    requires
        spec_contains(out, body + action_line(topic_id, member_id, email_id, false)),
    ensures
        spec_contains(out, unsubscribe_query(member_id, topic_id)),
{
    lemma_unsubscribe_link_rendering(body, topic_id, member_id, email_id);
    lemma_contains_trans(
        out,
        body + action_line(topic_id, member_id, email_id, false),
        unsubscribe_query(member_id, topic_id),
    );
}

/// The member id the action line names: the empty string stands in when
/// none is set, which only a confirmation link (that ignores it) allows.
pub open spec fn link_member_id(m: MemberV) -> Seq<char> {
    match m.id {
        Some(id) => id,
        None => Seq::empty(),
    }
}

/// Stage two's rendering: parse the stored content, append the action
/// line for this job to its body, and re-serialize. A message whose
/// parse yields no body is re-serialized unchanged. A template without
/// the header/body separator, one that does not parse, or a new body
/// that fails validation is fatal for the job.
pub fn render_email(request: &EmailRequest, template: &str) -> (r: Result<String, RuntimeError>)
    requires
        request@.topic.id is Some,
        !request.confirm_link ==> request@.member.id is Some,
    ensures
        !spec_contains(template@, "\r\n\r\n"@) ==> r is Err,
        spec_contains(template@, "\r\n\r\n"@) && !parse_ok(template@) ==> r is Err,
        spec_contains(template@, "\r\n\r\n"@) && parse_ok(template@) ==> ({
            let line = action_line(
                request@.topic.id->0,
                link_member_id(request@.member),
                request@.email_id,
                request.confirm_link,
            );
            match body_of(template@) {
                Some(b) => match r {
                    Ok(s) => rendered_with_body(template@, b + line) == Some(s@)
                        && (body_text_clean(b + line) ==> spec_contains(s@, b + line)),
                    Err(_) => rendered_with_body(template@, b + line) is None,
                },
                None => r is Ok && r->Ok_0@ == reserialized(template@),
            }
        }),
{
    if !str_contains(template, "\r\n\r\n") {
        return Err(RuntimeError::from_str("email content has no header/body separator"));
    }
    let body = match split_body(template) {
        Ok(b) => b,
        Err(e) => return Err(e),
    };
    match body {
        Some(body) => {
            let topic_id = match &request.topic.id {
                Some(s) => s.as_str(),
                None => unreached(),
            };
            let member_id = match &request.member.id {
                Some(s) => s.as_str(),
                None => "",
            };
            proof {
                reveal_strlit("");
                assert(""@ =~= Seq::<char>::empty());
            }
            let message = append_action_line(
                body.as_str(),
                topic_id,
                member_id,
                request.email_id.as_str(),
                request.confirm_link,
            );
            reserialize_with_body(template, message.as_str())
        },
        None => reserialize(template),
    }
}

} // verus!
