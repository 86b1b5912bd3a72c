use vstd::prelude::*;

verus! {

use crate::error::Error;
use crate::json::{
    jstr, jstr_array, lemma_json_view_cases, mviews, spec_json, spec_str_field,
    spec_str_array_field, Json, JsonV, MemberV, get_str_field, get_str_array_field, parse_json,
    write_json_string, write_string_array,
};
use crate::request::{HttpMethod, HttpRequest, check_status, join_url};

/// One name/value pair attached to a sent email.
pub struct Tag {
    pub name: String,
    pub value: String,
}

/// One attachment of a sent email.
pub struct Attachment {
    pub content: String,
    pub file_name: String,
    pub path: String,
}

/// What a caller asks to send. Every array may be empty; the server does
/// the content validation, the client none.
pub struct SendEmailRequest {
    pub from: String,
    pub to: Vec<String>,
    pub subject: String,
    pub bcc: Vec<String>,
    pub cc: Vec<String>,
    pub reply_to: String,
    pub html: String,
    pub text: String,
    pub tags: Vec<Tag>,
    pub attachments: Vec<Attachment>,
}

/// The id envelope a send is answered with.
pub struct SendEmailResponse {
    pub id: String,
}

/// One sent email's full record.
pub struct Email {
    pub id: String,
    pub object: String,
    pub to: Vec<String>,
    pub from: String,
    pub created_at: String,
    pub subject: String,
    pub html: String,
    pub text: String,
    pub bcc: Vec<String>,
    pub cc: Vec<String>,
    pub reply_to: Vec<String>,
    pub last_event: Vec<String>,
}

/// A tag's JSON object on the wire.
pub open spec fn spec_tag_json(t: Tag) -> Seq<char> {
    "{\"name\":"@ + jstr(t.name@) + ",\"value\":"@ + jstr(t.value@) + "}"@
}

/// An attachment's JSON object on the wire.
pub open spec fn spec_attachment_json(a: Attachment) -> Seq<char> {
    "{\"content\":"@ + jstr(a.content@) + ",\"file_name\":"@ + jstr(a.file_name@) + ",\"path\":"@
        + jstr(a.path@) + "}"@
}

pub open spec fn tag_list(items: Seq<Tag>) -> Seq<char>
    decreases items.len(),
{
    if items.len() == 0 {
        Seq::empty()
    } else if items.len() == 1 {
        spec_tag_json(items[0])
    } else {
        spec_tag_json(items[0]) + seq![','] + tag_list(items.drop_first())
    }
}

pub open spec fn tag_array(items: Seq<Tag>) -> Seq<char> {
    seq!['['] + tag_list(items) + seq![']']
}

pub open spec fn attachment_list(items: Seq<Attachment>) -> Seq<char>
    decreases items.len(),
{
    if items.len() == 0 {
        Seq::empty()
    } else if items.len() == 1 {
        spec_attachment_json(items[0])
    } else {
        spec_attachment_json(items[0]) + seq![','] + attachment_list(items.drop_first())
    }
}

pub open spec fn attachment_array(items: Seq<Attachment>) -> Seq<char> {
    seq!['['] + attachment_list(items) + seq![']']
}

proof fn lemma_tag_list_push(items: Seq<Tag>, x: Tag)
    ensures
        tag_list(items.push(x)) == if items.len() == 0 {
            spec_tag_json(x)
        } else {
            tag_list(items) + seq![','] + spec_tag_json(x)
        },
    decreases items.len(),
{
    if items.len() == 0 {
        assert(items.push(x)[0] == x);
        assert(tag_list(items.push(x)) =~= spec_tag_json(x));
    } else if items.len() == 1 {
        assert(items.push(x)[0] == items[0]);
        assert(items.push(x).drop_first() =~= seq![x]);
        assert(tag_list(seq![x]) == spec_tag_json(x));
        assert(tag_list(items.push(x)) == spec_tag_json(items[0]) + seq![','] + spec_tag_json(x));
        assert(tag_list(items) == spec_tag_json(items[0]));
    } else {
        lemma_tag_list_push(items.drop_first(), x);
        assert(items.push(x).drop_first() =~= items.drop_first().push(x));
        assert(items.push(x)[0] == items[0]);
        assert(tag_list(items.push(x)) == spec_tag_json(items[0]) + seq![','] + tag_list(
            items.drop_first().push(x),
        ));
        assert(tag_list(items.push(x)) == spec_tag_json(items[0]) + seq![','] + (tag_list(
            items.drop_first(),
        ) + seq![','] + spec_tag_json(x)));
        assert(spec_tag_json(items[0]) + seq![','] + (tag_list(items.drop_first()) + seq![',']
            + spec_tag_json(x)) =~= (spec_tag_json(items[0]) + seq![','] + tag_list(
            items.drop_first(),
        )) + seq![','] + spec_tag_json(x));
        assert(tag_list(items) == spec_tag_json(items[0]) + seq![','] + tag_list(
            items.drop_first(),
        ));
    }
}

proof fn lemma_attachment_list_push(items: Seq<Attachment>, x: Attachment)
    ensures
        attachment_list(items.push(x)) == if items.len() == 0 {
            spec_attachment_json(x)
        } else {
            attachment_list(items) + seq![','] + spec_attachment_json(x)
        },
    decreases items.len(),
{
    if items.len() == 0 {
        assert(items.push(x)[0] == x);
        assert(attachment_list(items.push(x)) =~= spec_attachment_json(x));
    } else if items.len() == 1 {
        assert(items.push(x)[0] == items[0]);
        assert(items.push(x).drop_first() =~= seq![x]);
        assert(attachment_list(seq![x]) == spec_attachment_json(x));
        assert(attachment_list(items.push(x)) == spec_attachment_json(items[0]) + seq![',']
            + spec_attachment_json(x));
        assert(attachment_list(items) == spec_attachment_json(items[0]));
    } else {
        lemma_attachment_list_push(items.drop_first(), x);
        assert(items.push(x).drop_first() =~= items.drop_first().push(x));
        assert(items.push(x)[0] == items[0]);
        assert(attachment_list(items.push(x)) == spec_attachment_json(items[0]) + seq![',']
            + attachment_list(items.drop_first().push(x)));
        assert(attachment_list(items.push(x)) == spec_attachment_json(items[0]) + seq![','] + (
        attachment_list(items.drop_first()) + seq![','] + spec_attachment_json(x)));
        assert(spec_attachment_json(items[0]) + seq![','] + (attachment_list(items.drop_first())
            + seq![','] + spec_attachment_json(x)) =~= (spec_attachment_json(items[0]) + seq![',']
            + attachment_list(items.drop_first())) + seq![','] + spec_attachment_json(x));
        assert(attachment_list(items) == spec_attachment_json(items[0]) + seq![',']
            + attachment_list(items.drop_first()));
    }
}

/// Appends a tag's JSON object.
fn write_tag(out: &mut String, t: &Tag)
    ensures
        final(out)@ == old(out)@ + spec_tag_json(*t),
{
    out.append("{\"name\":");
    write_json_string(out, t.name.as_str());
    out.append(",\"value\":");
    write_json_string(out, t.value.as_str());
    out.append("}");
    proof {
        assert(out@ =~= old(out)@ + spec_tag_json(*t));
    }
}

/// Appends an attachment's JSON object.
fn write_attachment(out: &mut String, a: &Attachment)
    ensures
        final(out)@ == old(out)@ + spec_attachment_json(*a),
{
    out.append("{\"content\":");
    write_json_string(out, a.content.as_str());
    out.append(",\"file_name\":");
    write_json_string(out, a.file_name.as_str());
    out.append(",\"path\":");
    write_json_string(out, a.path.as_str());
    out.append("}");
    proof {
        assert(out@ =~= old(out)@ + spec_attachment_json(*a));
    }
}

/// Appends the JSON array holding the tags, in order.
fn write_tag_array(out: &mut String, items: &Vec<Tag>)
    ensures
        final(out)@ == old(out)@ + tag_array(items@),
{
    out.append("[");
    proof {
        reveal_strlit("[");
        assert(out@ =~= old(out)@ + seq!['[']);
    }
    let mut i: usize = 0;
    while i < items.len()
        invariant
            i <= items.len(),
            out@ == old(out)@ + seq!['['] + tag_list(items@.take(i as int)),
        decreases items.len() - i,
    {
        if i > 0 {
            out.append(",");
            proof {
                reveal_strlit(",");
                assert(out@ =~= old(out)@ + seq!['['] + tag_list(items@.take(i as int))
                    + seq![',']);
            }
        }
        write_tag(out, &items[i]);
        proof {
            lemma_tag_list_push(items@.take(i as int), items@[i as int]);
            assert(items@.take(i as int + 1) =~= items@.take(i as int).push(items@[i as int]));
        }
        i = i + 1;
    }
    out.append("]");
    proof {
        reveal_strlit("]");
        assert(items@.take(items.len() as int) =~= items@);
        assert(out@ =~= old(out)@ + tag_array(items@));
    }
}

/// Appends the JSON array holding the attachments, in order.
fn write_attachment_array(out: &mut String, items: &Vec<Attachment>)
    ensures
        final(out)@ == old(out)@ + attachment_array(items@),
{
    out.append("[");
    proof {
        reveal_strlit("[");
        assert(out@ =~= old(out)@ + seq!['[']);
    }
    let mut i: usize = 0;
    while i < items.len()
        invariant
            i <= items.len(),
            out@ == old(out)@ + seq!['['] + attachment_list(items@.take(i as int)),
        decreases items.len() - i,
    {
        if i > 0 {
            out.append(",");
            proof {
                reveal_strlit(",");
                assert(out@ =~= old(out)@ + seq!['['] + attachment_list(items@.take(i as int))
                    + seq![',']);
            }
        }
        write_attachment(out, &items[i]);
        proof {
            lemma_attachment_list_push(items@.take(i as int), items@[i as int]);
            assert(items@.take(i as int + 1) =~= items@.take(i as int).push(items@[i as int]));
        }
        i = i + 1;
    }
    out.append("]");
    proof {
        reveal_strlit("]");
        assert(items@.take(items.len() as int) =~= items@);
        assert(out@ =~= old(out)@ + attachment_array(items@));
    }
}

/// The JSON body of a send: every field written, in declaration order; an
/// empty array is written as `[]`, never omitted.
pub open spec fn spec_send_body(r: SendEmailRequest) -> Seq<char> {
    "{\"from\":"@ + jstr(r.from@) + ",\"to\":"@ + jstr_array(r.to.deep_view()) + ",\"subject\":"@
        + jstr(r.subject@) + ",\"bcc\":"@ + jstr_array(r.bcc.deep_view()) + ",\"cc\":"@
        + jstr_array(r.cc.deep_view()) + ",\"reply_to\":"@ + jstr(r.reply_to@) + ",\"html\":"@
        + jstr(r.html@) + ",\"text\":"@ + jstr(r.text@) + ",\"tags\":"@ + tag_array(r.tags@)
        + ",\"attachments\":"@ + attachment_array(r.attachments@) + "}"@
}

/// Builds the body of a send request.
pub fn send_email_body(r: &SendEmailRequest) -> (out: String)
    ensures
        out@ == spec_send_body(*r),
{
    let mut s = String::from_str("{\"from\":");
    write_json_string(&mut s, r.from.as_str());
    s.append(",\"to\":");
    write_string_array(&mut s, &r.to);
    s.append(",\"subject\":");
    write_json_string(&mut s, r.subject.as_str());
    s.append(",\"bcc\":");
    write_string_array(&mut s, &r.bcc);
    s.append(",\"cc\":");
    write_string_array(&mut s, &r.cc);
    s.append(",\"reply_to\":");
    write_json_string(&mut s, r.reply_to.as_str());
    s.append(",\"html\":");
    write_json_string(&mut s, r.html.as_str());
    s.append(",\"text\":");
    write_json_string(&mut s, r.text.as_str());
    s.append(",\"tags\":");
    write_tag_array(&mut s, &r.tags);
    s.append(",\"attachments\":");
    write_attachment_array(&mut s, &r.attachments);
    s.append("}");
    proof {
        assert(s@ =~= spec_send_body(*r));
    }
    s
}

/// With every array field empty, the send body still writes every array
/// key, each carrying the two-character array `[]`; no field is omitted.
pub proof fn lemma_send_body_empty_arrays(r: SendEmailRequest)
    requires
        r.to@.len() == 0,
        r.bcc@.len() == 0,
        r.cc@.len() == 0,
        r.tags@.len() == 0,
        r.attachments@.len() == 0,
    ensures
        spec_send_body(r) == "{\"from\":"@ + jstr(r.from@) + ",\"to\":"@ + "[]"@ + ",\"subject\":"@
            + jstr(r.subject@) + ",\"bcc\":"@ + "[]"@ + ",\"cc\":"@ + "[]"@ + ",\"reply_to\":"@
            + jstr(r.reply_to@) + ",\"html\":"@ + jstr(r.html@) + ",\"text\":"@ + jstr(r.text@)
            + ",\"tags\":"@ + "[]"@ + ",\"attachments\":"@ + "[]"@ + "}"@,
{
    reveal_strlit("[]");
    assert(r.to.deep_view() =~= Seq::<Seq<char>>::empty());
    assert(r.bcc.deep_view() =~= Seq::<Seq<char>>::empty());
    assert(r.cc.deep_view() =~= Seq::<Seq<char>>::empty());
    assert(crate::json::jstr_list(Seq::<Seq<char>>::empty()) == Seq::<char>::empty());
    assert(jstr_array(Seq::<Seq<char>>::empty()) =~= "[]"@);
    assert(r.tags@ =~= Seq::<Tag>::empty());
    assert(tag_list(Seq::<Tag>::empty()) == Seq::<char>::empty());
    assert(tag_array(r.tags@) =~= "[]"@);
    assert(r.attachments@ =~= Seq::<Attachment>::empty());
    assert(attachment_list(Seq::<Attachment>::empty()) == Seq::<char>::empty());
    assert(attachment_array(r.attachments@) =~= "[]"@);
}

pub open spec fn sent_shape_ok(ms: Seq<MemberV>) -> bool {
    spec_str_field(ms, "id"@) is Some
}

pub open spec fn sent_matches(r: SendEmailResponse, ms: Seq<MemberV>) -> bool {
    spec_str_field(ms, "id"@) == Some(r.id@)
}

/// Reads a send response out of a parsed JSON value.
pub fn sent_from_json(v: &Json) -> (r: Result<SendEmailResponse, Error>)
    ensures
        (v matches Json::Obj(ms) ==> (r is Ok <==> sent_shape_ok(mviews(ms@)))),
        !(v is Obj) ==> r is Err,
        (r matches Ok(resp) ==> (v matches Json::Obj(ms) && sent_matches(resp, mviews(ms@)))),
        (r matches Err(e) ==> e is Deserialization),
{
    match v {
        Json::Obj(ms) => {
            let id = match get_str_field(ms, "id") {
                Ok(t) => t,
                Err(e) => {
                    return Err(e);
                },
            };
            Ok(SendEmailResponse { id })
        },
        _ => Err(
            Error::Deserialization {
                message: String::from_str("expected a JSON object"),
            },
        ),
    }
}

pub open spec fn email_shape_ok(ms: Seq<MemberV>) -> bool {
    spec_str_field(ms, "id"@) is Some && spec_str_field(ms, "object"@) is Some
        && spec_str_array_field(ms, "to"@) is Some && spec_str_field(ms, "from"@) is Some
        && spec_str_field(ms, "created_at"@) is Some && spec_str_field(ms, "subject"@) is Some
        && spec_str_field(ms, "html"@) is Some && spec_str_field(ms, "text"@) is Some
        && spec_str_array_field(ms, "bcc"@) is Some && spec_str_array_field(ms, "cc"@) is Some
        && spec_str_array_field(ms, "reply_to"@) is Some && spec_str_array_field(
        ms,
        "last_event"@,
    ) is Some
}

pub open spec fn email_matches(e: Email, ms: Seq<MemberV>) -> bool {
    spec_str_field(ms, "id"@) == Some(e.id@) && spec_str_field(ms, "object"@) == Some(e.object@)
        && spec_str_array_field(ms, "to"@) == Some(e.to.deep_view()) && spec_str_field(ms, "from"@)
        == Some(e.from@) && spec_str_field(ms, "created_at"@) == Some(e.created_at@)
        && spec_str_field(ms, "subject"@) == Some(e.subject@) && spec_str_field(ms, "html"@) == Some(e.html@) && spec_str_field(ms, "text"@) == Some(e.text@) && spec_str_array_field(ms, "bcc"@) == Some(
        e.bcc.deep_view(),
    ) && spec_str_array_field(ms, "cc"@) == Some(e.cc.deep_view()) && spec_str_array_field(
        ms,
        "reply_to"@,
    ) == Some(e.reply_to.deep_view()) && spec_str_array_field(ms, "last_event"@) == Some(
        e.last_event.deep_view(),
    )
}

/// Reads one email record out of a parsed JSON value.
pub fn email_from_json(v: &Json) -> (r: Result<Email, Error>)
    ensures
        (v matches Json::Obj(ms) ==> (r is Ok <==> email_shape_ok(mviews(ms@)))),
        !(v is Obj) ==> r is Err,
        (r matches Ok(e) ==> (v matches Json::Obj(ms) && email_matches(e, mviews(ms@)))),
        (r matches Err(e) ==> e is Deserialization),
{
    match v {
        Json::Obj(ms) => {
            let id = match get_str_field(ms, "id") {
                Ok(t) => t,
                Err(e) => {
                    return Err(e);
                },
            };
            let object = match get_str_field(ms, "object") {
                Ok(t) => t,
                Err(e) => {
                    return Err(e);
                },
            };
            let to = match get_str_array_field(ms, "to") {
                Ok(t) => t,
                Err(e) => {
                    return Err(e);
                },
            };
            let from = match get_str_field(ms, "from") {
                Ok(t) => t,
                Err(e) => {
                    return Err(e);
                },
            };
            let created_at = match get_str_field(ms, "created_at") {
                Ok(t) => t,
                Err(e) => {
                    return Err(e);
                },
            };
            let subject = match get_str_field(ms, "subject") {
                Ok(t) => t,
                Err(e) => {
                    return Err(e);
                },
            };
            let html = match get_str_field(ms, "html") {
                Ok(t) => t,
                Err(e) => {
                    return Err(e);
                },
            };
            let text = match get_str_field(ms, "text") {
                Ok(t) => t,
                Err(e) => {
                    return Err(e);
                },
            };
            let bcc = match get_str_array_field(ms, "bcc") {
                Ok(t) => t,
                Err(e) => {
                    return Err(e);
                },
            };
            let cc = match get_str_array_field(ms, "cc") {
                Ok(t) => t,
                Err(e) => {
                    return Err(e);
                },
            };
            let reply_to = match get_str_array_field(ms, "reply_to") {
                Ok(t) => t,
                Err(e) => {
                    return Err(e);
                },
            };
            let last_event = match get_str_array_field(ms, "last_event") {
                Ok(t) => t,
                Err(e) => {
                    return Err(e);
                },
            };
            Ok(
                Email {
                    id,
                    object,
                    to,
                    from,
                    created_at,
                    subject,
                    html,
                    text,
                    bcc,
                    cc,
                    reply_to,
                    last_event,
                },
            )
        },
        _ => Err(
            Error::Deserialization {
                message: String::from_str("expected a JSON object"),
            },
        ),
    }
}

/// The email facade: carries the `Authorization` header value every
/// request of this resource group is issued with.
pub struct Emails {
    pub auth: String,
}

impl Emails {
    /// The request that sends an email.
    pub fn send_request(&self, params: &SendEmailRequest) -> (r: HttpRequest)
        ensures
            r.method == HttpMethod::Post,
            r.url@ == "https://api.resend.com/emails"@,
            r.auth@ == self.auth@,
            (r.body matches Some(b) && b@ == spec_send_body(*params)),
    {
        HttpRequest {
            method: HttpMethod::Post,
            url: String::from_str("https://api.resend.com/emails"),
            auth: self.auth.clone(),
            body: Some(send_email_body(params)),
        }
    }

    /// The request that fetches one sent email by id.
    pub fn get_request(&self, email_id: &str) -> (r: HttpRequest)
        ensures
            r.method == HttpMethod::Get,
            r.url@ == "https://api.resend.com/emails/"@ + email_id@,
            r.auth@ == self.auth@,
            r.body is None,
    {
        HttpRequest {
            method: HttpMethod::Get,
            url: join_url("https://api.resend.com/emails/", email_id),
            auth: self.auth.clone(),
            body: None,
        }
    }
}

/// Turns a send exchange's status and body into the typed result.
pub fn send_email_response(status: u16, body: &str) -> (r: Result<SendEmailResponse, Error>)
    ensures
        !(200 <= status < 300) ==> (r matches Err(e) && e matches Error::Transport {
            status: st,
            message: _,
        } && st == Some(status)),
        200 <= status < 300 ==> ((r is Ok) <==> (spec_json(body@) matches Some(jv)
            && jv matches JsonV::Obj(ms) && sent_shape_ok(ms))),
        (r matches Ok(resp) ==> (spec_json(body@) matches Some(jv) && jv matches JsonV::Obj(ms)
            && sent_matches(resp, ms))),
        200 <= status < 300 ==> (r matches Err(e) ==> e is Deserialization),
{
    match check_status(status) {
        Ok(()) => {
            let v = match parse_json(body) {
                Ok(v) => v,
                Err(e) => {
                    return Err(e);
                },
            };
            proof {
                lemma_json_view_cases(v);
            }
            sent_from_json(&v)
        },
        Err(e) => Err(e),
    }
}

/// Turns a get-email exchange's status and body into the typed result.
pub fn get_email_response(status: u16, body: &str) -> (r: Result<Email, Error>)
    ensures
        !(200 <= status < 300) ==> (r matches Err(e) && e matches Error::Transport {
            status: st,
            message: _,
        } && st == Some(status)),
        200 <= status < 300 ==> ((r is Ok) <==> (spec_json(body@) matches Some(jv)
            && jv matches JsonV::Obj(ms) && email_shape_ok(ms))),
        (r matches Ok(e) ==> (spec_json(body@) matches Some(jv) && jv matches JsonV::Obj(ms)
            && email_matches(e, ms))),
        200 <= status < 300 ==> (r matches Err(e) ==> e is Deserialization),
{
    match check_status(status) {
        Ok(()) => {
            let v = match parse_json(body) {
                Ok(v) => v,
                Err(e) => {
                    return Err(e);
                },
            };
            proof {
                lemma_json_view_cases(v);
            }
            email_from_json(&v)
        },
        Err(e) => Err(e),
    }
}

} // verus!
