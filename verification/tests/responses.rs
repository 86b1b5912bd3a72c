use resend_client::api_keys::{
    create_api_key_response, delete_api_key_response, list_api_keys_response,
};
use resend_client::domains::{
    create_domain_response, delete_domain_response, get_domain_response, list_domains_response,
    verify_domain_response, Region,
};
use resend_client::emails::{get_email_response, send_email_response};
use resend_client::{Error, Resend};

#[test]
fn get_email() {
    // The exchange of retrieving one sent email, with the transport's part
    // played by a canned success answer.
    let client = Resend::new("re_123").unwrap();
    let plan = client.emails.get_request("thing");
    assert_eq!(plan.url, "https://api.resend.com/emails/thing");
    let body = "{\"id\":\"thing\",\"object\":\"email\",\"to\":[],\"from\":\"a@b.com\",\
                \"created_at\":\"t\",\"subject\":\"s\",\"html\":\"h\",\"text\":\"t\",\
                \"bcc\":[],\"cc\":[],\"reply_to\":[],\"last_event\":[]}";
    let res = get_email_response(200, body);
    assert!(res.is_ok());
    let email = res.unwrap();
    assert_eq!(email.id, "thing");
    assert_eq!(email.object, "email");
    assert!(email.to.is_empty());
    assert_eq!(email.from, "a@b.com");
    assert_eq!(email.created_at, "t");
    assert_eq!(email.subject, "s");
    assert_eq!(email.html, "h");
    assert_eq!(email.text, "t");
    assert!(email.bcc.is_empty());
    assert!(email.cc.is_empty());
    assert!(email.reply_to.is_empty());
    assert!(email.last_event.is_empty());
}

#[test]
fn send_email() {
    let res = send_email_response(200, "{\"id\":\"abc\"}");
    assert!(res.is_ok());
    assert_eq!(res.unwrap().id, "abc");
}

#[test]
fn email_fields_survive_reordered_and_unknown_members() {
    let body = "{\"object\":\"email\",\"id\":\"e1\",\"extra\":42,\"to\":[\"x@y.z\",\"q@y.z\"],\
                \"from\":\"a@b.com\",\"created_at\":\"now\",\"subject\":\"s\",\"html\":\"h\",\
                \"text\":\"t\",\"bcc\":[],\"cc\":[],\"reply_to\":[],\"last_event\":[\"sent\"]}";
    let email = get_email_response(200, body).unwrap();
    assert_eq!(email.id, "e1");
    assert_eq!(email.to, vec![String::from("x@y.z"), String::from("q@y.z")]);
    assert_eq!(email.last_event, vec![String::from("sent")]);
}

#[test]
fn email_with_missing_field_is_a_deserialization_error() {
    let body = "{\"id\":\"e1\"}";
    let res = get_email_response(200, body);
    assert!(matches!(res, Err(Error::Deserialization { .. })));
}

#[test]
fn email_with_malformed_body_is_a_deserialization_error() {
    let res = get_email_response(200, "not json at all");
    assert!(matches!(res, Err(Error::Deserialization { .. })));
}

#[test]
fn server_error_is_a_transport_error_not_a_panic() {
    let res = list_domains_response(500, "");
    match res {
        Err(e) => {
            assert!(e.is_transport());
            assert!(matches!(e, Error::Transport { status: Some(500), .. }));
        }
        Ok(_) => panic!("a 500 answer must not yield a listing"),
    }
}

#[test]
fn status_range_bounds() {
    assert!(delete_api_key_response(199).is_err());
    assert!(delete_api_key_response(200).is_ok());
    assert!(delete_api_key_response(299).is_ok());
    assert!(delete_api_key_response(300).is_err());
    assert!(matches!(
        delete_api_key_response(404),
        Err(Error::Transport { status: Some(404), .. })
    ));
}

#[test]
fn create_api_key_success_carries_id_and_token() {
    let res = create_api_key_response(201, "{\"id\":\"k1\",\"token\":\"re_secret\"}").unwrap();
    assert_eq!(res.id, "k1");
    assert_eq!(res.token, "re_secret");
}

#[test]
fn create_api_key_without_token_is_a_deserialization_error() {
    let res = create_api_key_response(200, "{\"id\":\"k1\"}");
    assert!(matches!(res, Err(Error::Deserialization { .. })));
}

#[test]
fn list_api_keys_reads_every_record() {
    let body = "{\"data\":[{\"id\":\"k1\",\"name\":\"a\",\"created_at\":\"t1\"},\
                {\"id\":\"k2\",\"name\":\"b\",\"created_at\":\"t2\"}]}";
    let res = list_api_keys_response(200, body).unwrap();
    assert_eq!(res.data.len(), 2);
    assert_eq!(res.data[0].id, "k1");
    assert_eq!(res.data[0].name, "a");
    assert_eq!(res.data[0].created_at, "t1");
    assert_eq!(res.data[1].id, "k2");
}

#[test]
fn list_api_keys_with_empty_data() {
    let res = list_api_keys_response(200, "{\"data\":[]}").unwrap();
    assert!(res.data.is_empty());
}

#[test]
fn create_domain_reads_the_irregular_created_at_key() {
    let res =
        create_domain_response(200, "{\"id\":\"d1\",\"name\":\"example.com\",\"createdAt\":\"t\"}")
            .unwrap();
    assert_eq!(res.id, "d1");
    assert_eq!(res.name, "example.com");
    assert_eq!(res.created_at, "t");
    // The regular snake_case key does not satisfy this response's shape.
    let other = create_domain_response(
        200,
        "{\"id\":\"d1\",\"name\":\"example.com\",\"created_at\":\"t\"}",
    );
    assert!(matches!(other, Err(Error::Deserialization { .. })));
}

#[test]
fn get_domain_reads_the_region_tag() {
    let body = "{\"id\":\"d1\",\"object\":\"domain\",\"name\":\"example.com\",\
                \"created_at\":\"t\",\"status\":\"verified\",\"region\":\"eu-west-1\"}";
    let d = get_domain_response(200, body).unwrap();
    assert_eq!(d.id, "d1");
    assert_eq!(d.object, "domain");
    assert_eq!(d.name, "example.com");
    assert_eq!(d.created_at, "t");
    assert_eq!(d.status, "verified");
    assert_eq!(d.region, Region::EuWest1);
}

#[test]
fn get_domain_with_unknown_region_is_a_deserialization_error() {
    let body = "{\"id\":\"d1\",\"object\":\"domain\",\"name\":\"example.com\",\
                \"created_at\":\"t\",\"status\":\"verified\",\"region\":\"mars-1\"}";
    let res = get_domain_response(200, body);
    assert!(matches!(res, Err(Error::Deserialization { .. })));
}

#[test]
fn list_domains_reads_every_record() {
    let body = "{\"data\":[{\"id\":\"d1\",\"object\":\"domain\",\"name\":\"a.com\",\
                \"created_at\":\"t\",\"status\":\"pending\",\"region\":\"us-east-1\"},\
                {\"id\":\"d2\",\"object\":\"domain\",\"name\":\"b.com\",\
                \"created_at\":\"t\",\"status\":\"verified\",\"region\":\"sa-east-1\"}]}";
    let res = list_domains_response(200, body).unwrap();
    assert_eq!(res.data.len(), 2);
    assert_eq!(res.data[0].region, Region::UsEast1);
    assert_eq!(res.data[1].region, Region::SaEast1);
    assert_eq!(res.data[1].status, "verified");
}

#[test]
fn void_operations_succeed_on_any_success_status() {
    assert!(verify_domain_response(200).is_ok());
    assert!(delete_domain_response(204).is_ok());
    assert!(matches!(
        verify_domain_response(500),
        Err(Error::Transport { status: Some(500), .. })
    ));
}
