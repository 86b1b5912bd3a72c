use resend_client::api_keys::{CreateApiKeyRequest, Permission};
use resend_client::domains::{CreateDomainRequest, Region};
use resend_client::emails::SendEmailRequest;
use resend_client::request::HttpMethod;
use resend_client::{configure, require_configured, Error, Resend};

fn client() -> Resend {
    Resend::new("re_123").unwrap()
}

fn send_request() -> SendEmailRequest {
    SendEmailRequest {
        from: String::from("me@example.com"),
        to: vec![String::from("you@example.com")],
        subject: String::from("hello"),
        bcc: Vec::new(),
        cc: Vec::new(),
        reply_to: String::new(),
        html: String::from("<p>hi</p>"),
        text: String::from("hi"),
        tags: Vec::new(),
        attachments: Vec::new(),
    }
}

#[test]
fn construction_sets_bearer_header_on_every_facade() {
    let c = client();
    assert_eq!(c.api_keys.auth, "Bearer re_123");
    assert_eq!(c.domains.auth, "Bearer re_123");
    assert_eq!(c.emails.auth, "Bearer re_123");
}

#[test]
fn construction_refuses_control_characters_in_key() {
    assert!(matches!(Resend::new("re\n123"), Err(Error::InvalidApiKey)));
    assert!(matches!(Resend::new("re\u{7f}123"), Err(Error::InvalidApiKey)));
    assert!(Resend::new("re\t123").is_ok());
    assert!(Resend::new("").is_ok());
}

#[test]
fn second_configure_fails_and_leaves_first_client_untouched() {
    let first = configure(None, "re_123").unwrap();
    let again = configure(Some(&first), "re_456");
    assert!(matches!(again, Err(Error::OnceCellWasAlreadySet)));
    assert_eq!(first.emails.auth, "Bearer re_123");
}

#[test]
fn configure_on_empty_state_validates_the_key() {
    assert!(matches!(configure(None, "re\n123"), Err(Error::InvalidApiKey)));
    assert!(configure(None, "re_123").is_ok());
}

#[test]
fn singleton_reads_before_configuration_fail_with_not_configured() {
    let r = require_configured(None);
    assert!(matches!(r, Err(Error::OnceCellWasNotSet)));
    let c = client();
    let got = require_configured(Some(&c)).unwrap();
    assert_eq!(got.api_keys.auth, "Bearer re_123");
}

#[test]
fn api_key_request_plans() {
    let c = client();
    let create = c.api_keys.create_request(&CreateApiKeyRequest {
        name: String::from("k"),
        permission: Some(Permission::FullAccess),
        domain_id: None,
    });
    assert_eq!(create.method, HttpMethod::Post);
    assert_eq!(create.url, "https://api.resend.com/api-keys");
    assert_eq!(create.auth, "Bearer re_123");
    assert_eq!(
        create.body.as_deref(),
        Some("{\"name\":\"k\",\"permission\":\"full_access\",\"domain_id\":null}")
    );

    let list = c.api_keys.list_request();
    assert_eq!(list.method, HttpMethod::Get);
    assert_eq!(list.url, "https://api.resend.com/api-keys");
    assert!(list.body.is_none());

    let delete = c.api_keys.delete_request("key-9");
    assert_eq!(delete.method, HttpMethod::Delete);
    assert_eq!(delete.url, "https://api.resend.com/api-keys/key-9");
    assert!(delete.body.is_none());
}

#[test]
fn domain_request_plans() {
    let c = client();
    let create = c.domains.create_request(&CreateDomainRequest {
        name: String::from("example.com"),
        region: Region::SaEast1,
    });
    assert_eq!(create.method, HttpMethod::Post);
    assert_eq!(create.url, "https://api.resend.com/domains");
    assert_eq!(
        create.body.as_deref(),
        Some("{\"name\":\"example.com\",\"region\":\"sa-east-1\"}")
    );

    let get = c.domains.get_request("d-1");
    assert_eq!(get.method, HttpMethod::Get);
    assert_eq!(get.url, "https://api.resend.com/domains/d-1");
    assert!(get.body.is_none());

    let verify = c.domains.verify_request("d-1");
    assert_eq!(verify.method, HttpMethod::Post);
    assert_eq!(verify.url, "https://api.resend.com/domains/d-1");
    assert!(verify.body.is_none());

    let list = c.domains.list_request();
    assert_eq!(list.method, HttpMethod::Get);
    assert_eq!(list.url, "https://api.resend.com/domains");

    let delete = c.domains.delete_request("d-1");
    assert_eq!(delete.method, HttpMethod::Delete);
    assert_eq!(delete.url, "https://api.resend.com/domains/d-1");
}

#[test]
fn email_request_plans() {
    let c = client();
    let send = c.emails.send_request(&send_request());
    assert_eq!(send.method, HttpMethod::Post);
    assert_eq!(send.url, "https://api.resend.com/emails");
    assert_eq!(send.auth, "Bearer re_123");
    assert_eq!(
        send.body.as_deref(),
        Some(
            "{\"from\":\"me@example.com\",\"to\":[\"you@example.com\"],\"subject\":\"hello\",\
             \"bcc\":[],\"cc\":[],\"reply_to\":\"\",\"html\":\"<p>hi</p>\",\"text\":\"hi\",\
             \"tags\":[],\"attachments\":[]}"
        )
    );

    let get = c.emails.get_request("thing");
    assert_eq!(get.method, HttpMethod::Get);
    assert_eq!(get.url, "https://api.resend.com/emails/thing");
    assert!(get.body.is_none());
}
