use resend_client::api_keys::{create_api_key_body, CreateApiKeyRequest, Permission};
use resend_client::domains::{create_domain_body, CreateDomainRequest, Region};
use resend_client::emails::{send_email_body, Attachment, SendEmailRequest, Tag};
use resend_client::json::{parse_json, Json};

fn empty_send_request() -> SendEmailRequest {
    SendEmailRequest {
        from: String::new(),
        to: Vec::new(),
        subject: String::new(),
        bcc: Vec::new(),
        cc: Vec::new(),
        reply_to: String::new(),
        html: String::new(),
        text: String::new(),
        tags: Vec::new(),
        attachments: Vec::new(),
    }
}

#[test]
fn region_tags_round_trip() {
    assert_eq!(Region::UsEast1.as_str(), "us-east-1");
    assert_eq!(Region::EuWest1.as_str(), "eu-west-1");
    assert_eq!(Region::SaEast1.as_str(), "sa-east-1");
    assert_eq!(Region::parse("us-east-1"), Some(Region::UsEast1));
    assert_eq!(Region::parse("eu-west-1"), Some(Region::EuWest1));
    assert_eq!(Region::parse("sa-east-1"), Some(Region::SaEast1));
    assert_eq!(Region::parse("eu-west-2"), None);
    assert_eq!(Region::parse(""), None);
}

#[test]
fn permission_tags_round_trip() {
    assert_eq!(Permission::FullAccess.as_str(), "full_access");
    assert_eq!(Permission::SendingAccess.as_str(), "sending_access");
    assert_eq!(Permission::parse("full_access"), Some(Permission::FullAccess));
    assert_eq!(Permission::parse("sending_access"), Some(Permission::SendingAccess));
    assert_eq!(Permission::parse("FullAccess"), None);
}

#[test]
fn send_body_with_empty_arrays_keeps_every_field() {
    let body = send_email_body(&empty_send_request());
    assert_eq!(
        body,
        "{\"from\":\"\",\"to\":[],\"subject\":\"\",\"bcc\":[],\"cc\":[],\"reply_to\":\"\",\
         \"html\":\"\",\"text\":\"\",\"tags\":[],\"attachments\":[]}"
    );
}

#[test]
fn send_body_with_empty_strings_in_arrays() {
    let mut req = empty_send_request();
    req.to.push(String::new());
    req.bcc.push(String::new());
    req.cc.push(String::new());
    req.tags.push(Tag { name: String::new(), value: String::new() });
    req.attachments.push(Attachment {
        content: String::new(),
        file_name: String::new(),
        path: String::new(),
    });
    let body = send_email_body(&req);
    assert_eq!(
        body,
        "{\"from\":\"\",\"to\":[\"\"],\"subject\":\"\",\"bcc\":[\"\"],\"cc\":[\"\"],\
         \"reply_to\":\"\",\"html\":\"\",\"text\":\"\",\"tags\":[{\"name\":\"\",\"value\":\"\"}],\
         \"attachments\":[{\"content\":\"\",\"file_name\":\"\",\"path\":\"\"}]}"
    );
}

#[test]
fn send_body_orders_recipients_and_tags() {
    let mut req = empty_send_request();
    req.from = String::from("me@example.com");
    req.to.push(String::from("a@example.com"));
    req.to.push(String::from("b@example.com"));
    req.subject = String::from("hi");
    req.tags.push(Tag { name: String::from("k"), value: String::from("v") });
    req.tags.push(Tag { name: String::from("k2"), value: String::from("v2") });
    let body = send_email_body(&req);
    assert_eq!(
        body,
        "{\"from\":\"me@example.com\",\"to\":[\"a@example.com\",\"b@example.com\"],\
         \"subject\":\"hi\",\"bcc\":[],\"cc\":[],\"reply_to\":\"\",\"html\":\"\",\"text\":\"\",\
         \"tags\":[{\"name\":\"k\",\"value\":\"v\"},{\"name\":\"k2\",\"value\":\"v2\"}],\
         \"attachments\":[]}"
    );
}

#[test]
fn string_escaping_in_bodies() {
    let mut req = empty_send_request();
    req.from = String::from("a\"b\\c\nd\re\tf\u{8}g\u{c}h\u{1}i\u{1f}j");
    let body = send_email_body(&req);
    let expected_from = "\"a\\\"b\\\\c\\nd\\re\\tf\\bg\\fh\\u0001i\\u001fj\"";
    assert!(body.starts_with(&format!("{{\"from\":{}", expected_from)));
}

#[test]
fn create_api_key_body_with_options_present() {
    let body = create_api_key_body(&CreateApiKeyRequest {
        name: String::from("prod"),
        permission: Some(Permission::SendingAccess),
        domain_id: Some(String::from("d-1")),
    });
    assert_eq!(
        body,
        "{\"name\":\"prod\",\"permission\":\"sending_access\",\"domain_id\":\"d-1\"}"
    );
}

#[test]
fn create_api_key_body_with_options_absent() {
    let body = create_api_key_body(&CreateApiKeyRequest {
        name: String::from("prod"),
        permission: None,
        domain_id: None,
    });
    assert_eq!(body, "{\"name\":\"prod\",\"permission\":null,\"domain_id\":null}");
}

#[test]
fn create_domain_body_writes_region_tag() {
    let body = create_domain_body(&CreateDomainRequest {
        name: String::from("example.com"),
        region: Region::EuWest1,
    });
    assert_eq!(body, "{\"name\":\"example.com\",\"region\":\"eu-west-1\"}");
}

#[test]
fn parse_json_reads_scalars_and_nesting() {
    match parse_json("  {\"a\": [1, true, null, \"x\"] , \"b\": {} } ") {
        Ok(Json::Obj(ms)) => {
            assert_eq!(ms.len(), 2);
            assert_eq!(ms[0].key, "a");
            match &ms[0].value {
                Json::Arr(items) => {
                    assert_eq!(items.len(), 4);
                    assert!(matches!(items[0], Json::Num(_)));
                    assert!(matches!(items[1], Json::Bool(true)));
                    assert!(matches!(items[2], Json::Null));
                    match &items[3] {
                        Json::Str(s) => assert_eq!(s, "x"),
                        _ => panic!("expected a string"),
                    }
                }
                _ => panic!("expected an array"),
            }
            assert!(matches!(ms[1].value, Json::Obj(_)));
        }
        _ => panic!("expected an object"),
    }
}

#[test]
fn parse_json_decodes_escapes() {
    match parse_json("\"a\\u0041\\n\\t\\\"\\\\\\/\\u00e9\"") {
        Ok(Json::Str(s)) => assert_eq!(s, "aA\n\t\"\\/\u{e9}"),
        _ => panic!("expected a string"),
    }
}

#[test]
fn parse_json_decodes_surrogate_pairs() {
    match parse_json("\"\\uD83D\\uDE00\"") {
        Ok(Json::Str(s)) => assert_eq!(s, "\u{1F600}"),
        _ => panic!("expected a string"),
    }
}

#[test]
fn non_ascii_text_passes_through_unescaped() {
    let mut req = empty_send_request();
    req.subject = String::from("héllo \u{1F600} ünïcode");
    let body = send_email_body(&req);
    assert!(body.contains("\"subject\":\"héllo \u{1F600} ünïcode\""));
}

#[test]
fn parse_json_reads_non_ascii_strings() {
    match parse_json("{\"subject\":\"héllo \u{1F600}\"}") {
        Ok(Json::Obj(ms)) => {
            assert_eq!(ms[0].key, "subject");
            match &ms[0].value {
                Json::Str(s) => assert_eq!(s, "héllo \u{1F600}"),
                _ => panic!("expected a string"),
            }
        }
        _ => panic!("expected an object"),
    }
}

#[test]
fn written_bodies_parse_back_to_the_same_values() {
    let mut req = empty_send_request();
    req.from = String::from("weird \"from\" \\ line\nwith \t controls \u{1} and ünïcode \u{1F600}");
    req.subject = String::from("s");
    req.to.push(String::from("a@b.c"));
    req.to.push(String::from("quo\"ted@b.c"));
    let body = send_email_body(&req);
    match parse_json(&body) {
        Ok(Json::Obj(ms)) => {
            assert_eq!(ms.len(), 10);
            assert_eq!(ms[0].key, "from");
            match &ms[0].value {
                Json::Str(s) => assert_eq!(s, &req.from),
                _ => panic!("expected a string under from"),
            }
            assert_eq!(ms[1].key, "to");
            match &ms[1].value {
                Json::Arr(items) => {
                    assert_eq!(items.len(), 2);
                    match (&items[0], &items[1]) {
                        (Json::Str(a), Json::Str(b)) => {
                            assert_eq!(a, &req.to[0]);
                            assert_eq!(b, &req.to[1]);
                        }
                        _ => panic!("expected strings under to"),
                    }
                }
                _ => panic!("expected an array under to"),
            }
        }
        _ => panic!("a built body must parse as an object"),
    }
}

#[test]
fn parse_json_refuses_malformed_text() {
    assert!(parse_json("").is_err());
    assert!(parse_json("{").is_err());
    assert!(parse_json("{\"a\":}").is_err());
    assert!(parse_json("[1,]").is_err());
    assert!(parse_json("\"unterminated").is_err());
    assert!(parse_json("{\"a\":1} trailing").is_err());
    assert!(parse_json("\"lone high \\uD83D\"").is_err());
}
