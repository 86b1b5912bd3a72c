use vstd::prelude::*;

verus! {

use crate::error::Error;
use crate::json::{
    jstr, json_view, lemma_json_view_cases, lemma_lookup_views, lookup_v, mviews, spec_json,
    spec_str_field, Json, JsonV, MemberV, get_str_field, jviews, parse_json, str_eq,
    write_json_string,
};
use crate::request::{HttpMethod, HttpRequest, check_status, join_url};

/// The region a sending domain lives in.
#[derive(Debug, Clone, Copy, PartialEq, Eq, Structural)]
pub enum Region {
    UsEast1,
    EuWest1,
    SaEast1,
}

/// The fixed tag of a region on the wire.
pub open spec fn spec_region_tag(r: Region) -> Seq<char> {
    match r {
        Region::UsEast1 => "us-east-1"@,
        Region::EuWest1 => "eu-west-1"@,
        Region::SaEast1 => "sa-east-1"@,
    }
}

/// The region a wire tag names, if any.
pub open spec fn spec_parse_region(s: Seq<char>) -> Option<Region> {
    if s == "us-east-1"@ {
        Some(Region::UsEast1)
    } else if s == "eu-west-1"@ {
        Some(Region::EuWest1)
    } else if s == "sa-east-1"@ {
        Some(Region::SaEast1)
    } else {
        None
    }
}

impl Region {
    /// The tag written on the wire for this region.
    pub fn as_str(&self) -> (r: &'static str)
        ensures
            r@ == spec_region_tag(*self),
    {
        match self {
            Region::UsEast1 => "us-east-1",
            Region::EuWest1 => "eu-west-1",
            Region::SaEast1 => "sa-east-1",
        }
    }

    /// Reads a wire tag back into a region.
    pub fn parse(s: &str) -> (r: Option<Region>)
        ensures
            r == spec_parse_region(s@),
    {
        if str_eq(s, "us-east-1") {
            Some(Region::UsEast1)
        } else if str_eq(s, "eu-west-1") {
            Some(Region::EuWest1)
        } else if str_eq(s, "sa-east-1") {
            Some(Region::SaEast1)
        } else {
            None
        }
    }
}

/// Writing a region and reading the tag back always yields the same region.
pub proof fn lemma_region_round_trip(r: Region)
    ensures
        spec_parse_region(spec_region_tag(r)) == Some(r),
{
    reveal_strlit("us-east-1");
    reveal_strlit("eu-west-1");
    reveal_strlit("sa-east-1");
    assert("us-east-1"@[0] == 'u');
    assert("eu-west-1"@[0] == 'e');
    assert("sa-east-1"@[0] == 's');
}

/// A tag that reads as a region is exactly that region's tag.
pub proof fn lemma_region_tag_faithful(s: Seq<char>, r: Region)
    requires
        spec_parse_region(s) == Some(r),
    ensures
        spec_region_tag(r) == s,
{
    reveal_strlit("us-east-1");
    reveal_strlit("eu-west-1");
    reveal_strlit("sa-east-1");
    assert("us-east-1"@[0] == 'u');
    assert("eu-west-1"@[0] == 'e');
    assert("sa-east-1"@[0] == 's');
}

/// What a caller asks of a new sending domain.
pub struct CreateDomainRequest {
    pub name: String,
    pub region: Region,
}

/// The JSON body sent when creating a domain.
pub open spec fn spec_create_domain_body(r: CreateDomainRequest) -> Seq<char> {
    "{\"name\":"@ + jstr(r.name@) + ",\"region\":"@ + jstr(spec_region_tag(r.region)) + "}"@
}

/// Builds the creation body for a domain.
pub fn create_domain_body(r: &CreateDomainRequest) -> (out: String)
    ensures
        out@ == spec_create_domain_body(*r),
{
    let mut s = String::from_str("{\"name\":");
    write_json_string(&mut s, r.name.as_str());
    s.append(",\"region\":");
    write_json_string(&mut s, r.region.as_str());
    s.append("}");
    proof {
        assert(s@ =~= spec_create_domain_body(*r));
    }
    s
}

/// What the server answers to a domain creation. The wire writes the
/// creation stamp under `createdAt` here — unlike everywhere else — and
/// that irregular casing is part of the remote API.
pub struct CreateDomainResponse {
    pub id: String,
    pub name: String,
    pub created_at: String,
}

/// One domain's full record.
pub struct Domain {
    pub id: String,
    pub object: String,
    pub name: String,
    pub created_at: String,
    pub status: String,
    pub region: Region,
}

/// The listing envelope.
pub struct ListDomainResponse {
    pub data: Vec<Domain>,
}

pub open spec fn created_domain_shape_ok(ms: Seq<MemberV>) -> bool {
    spec_str_field(ms, "id"@) is Some && spec_str_field(ms, "name"@) is Some && spec_str_field(
        ms,
        "createdAt"@,
    ) is Some
}

pub open spec fn created_domain_matches(r: CreateDomainResponse, ms: Seq<MemberV>) -> bool {
    spec_str_field(ms, "id"@) == Some(r.id@) && spec_str_field(ms, "name"@) == Some(r.name@)
        && spec_str_field(ms, "createdAt"@) == Some(r.created_at@)
}

pub open spec fn domain_shape_ok(ms: Seq<MemberV>) -> bool {
    spec_str_field(ms, "id"@) is Some && spec_str_field(ms, "object"@) is Some && spec_str_field(
        ms,
        "name"@,
    ) is Some && spec_str_field(ms, "created_at"@) is Some && spec_str_field(ms, "status"@) is Some
        && (match spec_str_field(ms, "region"@) {
        Some(tag) => spec_parse_region(tag) is Some,
        None => false,
    })
}

pub open spec fn domain_matches(d: Domain, ms: Seq<MemberV>) -> bool {
    spec_str_field(ms, "id"@) == Some(d.id@) && spec_str_field(ms, "object"@) == Some(d.object@)
        && spec_str_field(ms, "name"@) == Some(d.name@) && spec_str_field(ms, "created_at"@)
        == Some(d.created_at@) && spec_str_field(ms, "status"@) == Some(d.status@) && (
    match spec_str_field(ms, "region"@) {
        Some(tag) => spec_parse_region(tag) == Some(d.region),
        None => false,
    })
}

/// Reads a domain-creation response out of a parsed JSON value.
pub fn created_domain_from_json(v: &Json) -> (r: Result<CreateDomainResponse, Error>)
    ensures
        (v matches Json::Obj(ms) ==> (r is Ok <==> created_domain_shape_ok(mviews(ms@)))),
        !(v is Obj) ==> r is Err,
        (r matches Ok(resp) ==> (v matches Json::Obj(ms) && created_domain_matches(
            resp,
            mviews(ms@),
        ))),
        (r matches Err(e) ==> e is Deserialization),
{
    match v {
        Json::Obj(ms) => {
            let id = match get_str_field(ms, "id") {
                Ok(t) => t,
                Err(e) => {
                    return Err(e);
                },
            };
            let name = match get_str_field(ms, "name") {
                Ok(t) => t,
                Err(e) => {
                    return Err(e);
                },
            };
            let created_at = match get_str_field(ms, "createdAt") {
                Ok(t) => t,
                Err(e) => {
                    return Err(e);
                },
            };
            Ok(CreateDomainResponse { id, name, created_at })
        },
        _ => Err(
            Error::Deserialization {
                message: String::from_str("expected a JSON object"),
            },
        ),
    }
}

/// Reads one domain record out of a parsed JSON value.
pub fn domain_from_json(v: &Json) -> (r: Result<Domain, Error>)
    ensures
        (v matches Json::Obj(ms) ==> (r is Ok <==> domain_shape_ok(mviews(ms@)))),
        !(v is Obj) ==> r is Err,
        (r matches Ok(d) ==> (v matches Json::Obj(ms) && domain_matches(d, mviews(ms@)))),
        (r matches Err(e) ==> e is Deserialization),
{
    match v {
        Json::Obj(ms) => {
            let id = match get_str_field(ms, "id") {
                Ok(t) => t,
                Err(e) => {
                    return Err(e);
                },
            };
            let object = match get_str_field(ms, "object") {
                Ok(t) => t,
                Err(e) => {
                    return Err(e);
                },
            };
            let name = match get_str_field(ms, "name") {
                Ok(t) => t,
                Err(e) => {
                    return Err(e);
                },
            };
            let created_at = match get_str_field(ms, "created_at") {
                Ok(t) => t,
                Err(e) => {
                    return Err(e);
                },
            };
            let status = match get_str_field(ms, "status") {
                Ok(t) => t,
                Err(e) => {
                    return Err(e);
                },
            };
            let region_tag = match get_str_field(ms, "region") {
                Ok(t) => t,
                Err(e) => {
                    return Err(e);
                },
            };
            let region = match Region::parse(region_tag.as_str()) {
                Some(rg) => rg,
                None => {
                    return Err(
                        Error::Deserialization {
                            message: String::from_str("unknown region tag"),
                        },
                    );
                },
            };
            Ok(Domain { id, object, name, created_at, status, region })
        },
        _ => Err(
            Error::Deserialization {
                message: String::from_str("expected a JSON object"),
            },
        ),
    }
}

pub open spec fn domain_list_shape_ok(ms: Seq<MemberV>) -> bool {
    match lookup_v(ms, "data"@) {
        Some(JsonV::Arr(items)) => forall|k: int|
            0 <= k < items.len() ==> items[k] is Obj && domain_shape_ok(items[k]->Obj_0),
        _ => false,
    }
}

pub open spec fn domain_list_matches(l: ListDomainResponse, ms: Seq<MemberV>) -> bool {
    match lookup_v(ms, "data"@) {
        Some(JsonV::Arr(items)) => l.data@.len() == items.len() && forall|k: int|
            0 <= k < items.len() ==> items[k] is Obj && domain_matches(
                l.data@[k],
                items[k]->Obj_0,
            ),
        _ => false,
    }
}

/// Reads a domain-listing response out of a parsed JSON value.
pub fn domain_list_from_json(v: &Json) -> (r: Result<ListDomainResponse, Error>)
    ensures
        (v matches Json::Obj(ms) ==> (r is Ok <==> domain_list_shape_ok(mviews(ms@)))),
        !(v is Obj) ==> r is Err,
        (r matches Ok(l) ==> (v matches Json::Obj(ms) && domain_list_matches(l, mviews(ms@)))),
        (r matches Err(e) ==> e is Deserialization),
{
    match v {
        Json::Obj(ms) => {
            proof {
                lemma_lookup_views(ms@, "data"@);
            }
            match crate::json::obj_get(ms, "data") {
                Some(dv) => {
                    proof {
                        lemma_json_view_cases(*dv);
                    }
                    match dv {
                        Json::Arr(items) => {
                            let ghost vitems = jviews(items@);
                            let mut data: Vec<Domain> = Vec::new();
                            let mut k: usize = 0;
                            while k < items.len()
                                invariant
                                    k <= items.len(),
                                    data@.len() == k,
                                    v is Obj && v->Obj_0 == *ms,
                                    vitems == jviews(items@),
                                    vitems.len() == items@.len(),
                                    lookup_v(mviews(ms@), "data"@) == Some(JsonV::Arr(vitems)),
                                    forall|t: int|
                                        0 <= t < k ==> vitems[t] is Obj && domain_shape_ok(
                                            vitems[t]->Obj_0,
                                        ),
                                    forall|t: int|
                                        0 <= t < k ==> domain_matches(
                                            data@[t],
                                            vitems[t]->Obj_0,
                                        ),
                                decreases items.len() - k,
                            {
                                proof {
                                    lemma_json_view_cases(items@[k as int]);
                                    assert(vitems[k as int] == json_view(items@[k as int]));
                                }
                                match domain_from_json(&items[k]) {
                                    Ok(d) => {
                                        data.push(d);
                                    },
                                    Err(e) => {
                                        proof {
                                            assert(!(vitems[k as int] is Obj && domain_shape_ok(
                                                vitems[k as int]->Obj_0,
                                            )));
                                            assert(!domain_list_shape_ok(mviews(ms@)));
                                        }
                                        return Err(e);
                                    },
                                }
                                k = k + 1;
                            }
                            Ok(ListDomainResponse { data })
                        },
                        _ => Err(
                            Error::Deserialization {
                                message: String::from_str("expected an array under data"),
                            },
                        ),
                    }
                },
                None => Err(
                    Error::Deserialization {
                        message: String::from_str("expected a data member"),
                    },
                ),
            }
        },
        _ => Err(
            Error::Deserialization {
                message: String::from_str("expected a JSON object"),
            },
        ),
    }
}

/// The domain facade: carries the `Authorization` header value every
/// request of this resource group is issued with.
pub struct Domains {
    pub auth: String,
}

impl Domains {
    /// The request that creates a domain.
    pub fn create_request(&self, params: &CreateDomainRequest) -> (r: HttpRequest)
        ensures
            r.method == HttpMethod::Post,
            r.url@ == "https://api.resend.com/domains"@,
            r.auth@ == self.auth@,
            (r.body matches Some(b) && b@ == spec_create_domain_body(*params)),
    {
        HttpRequest {
            method: HttpMethod::Post,
            url: String::from_str("https://api.resend.com/domains"),
            auth: self.auth.clone(),
            body: Some(create_domain_body(params)),
        }
    }

    /// The request that fetches one domain by id.
    pub fn get_request(&self, domain_id: &str) -> (r: HttpRequest)
        ensures
            r.method == HttpMethod::Get,
            r.url@ == "https://api.resend.com/domains/"@ + domain_id@,
            r.auth@ == self.auth@,
            r.body is None,
    {
        HttpRequest {
            method: HttpMethod::Get,
            url: join_url("https://api.resend.com/domains/", domain_id),
            auth: self.auth.clone(),
            body: None,
        }
    }

    /// The request that triggers DNS verification of one domain.
    pub fn verify_request(&self, domain_id: &str) -> (r: HttpRequest)
        ensures
            r.method == HttpMethod::Post,
            r.url@ == "https://api.resend.com/domains/"@ + domain_id@,
            r.auth@ == self.auth@,
            r.body is None,
    {
        HttpRequest {
            method: HttpMethod::Post,
            url: join_url("https://api.resend.com/domains/", domain_id),
            auth: self.auth.clone(),
            body: None,
        }
    }

    /// The request that lists all domains of the account.
    pub fn list_request(&self) -> (r: HttpRequest)
        ensures
            r.method == HttpMethod::Get,
            r.url@ == "https://api.resend.com/domains"@,
            r.auth@ == self.auth@,
            r.body is None,
    {
        HttpRequest {
            method: HttpMethod::Get,
            url: String::from_str("https://api.resend.com/domains"),
            auth: self.auth.clone(),
            body: None,
        }
    }

    /// The request that deletes one domain by id.
    pub fn delete_request(&self, domain_id: &str) -> (r: HttpRequest)
        ensures
            r.method == HttpMethod::Delete,
            r.url@ == "https://api.resend.com/domains/"@ + domain_id@,
            r.auth@ == self.auth@,
            r.body is None,
    {
        HttpRequest {
            method: HttpMethod::Delete,
            url: join_url("https://api.resend.com/domains/", domain_id),
            auth: self.auth.clone(),
            body: None,
        }
    }
}

/// Turns a domain-creation exchange's status and body into the typed
/// result: a transport error off the success range, and on it exactly the
/// typed record the body denotes.
pub fn create_domain_response(status: u16, body: &str) -> (r: Result<CreateDomainResponse, Error>)
    ensures
        !(200 <= status < 300) ==> (r matches Err(e) && e matches Error::Transport {
            status: st,
            message: _,
        } && st == Some(status)),
        200 <= status < 300 ==> ((r is Ok) <==> (spec_json(body@) matches Some(jv)
            && jv matches JsonV::Obj(ms) && created_domain_shape_ok(ms))),
        (r matches Ok(resp) ==> (spec_json(body@) matches Some(jv) && jv matches JsonV::Obj(ms)
            && created_domain_matches(resp, ms))),
        200 <= status < 300 ==> (r matches Err(e) ==> e is Deserialization),
{
    match check_status(status) {
        Ok(()) => {
            let v = match parse_json(body) {
                Ok(v) => v,
                Err(e) => {
                    return Err(e);
                },
            };
            proof {
                lemma_json_view_cases(v);
            }
            created_domain_from_json(&v)
        },
        Err(e) => Err(e),
    }
}

/// Turns a get-domain exchange's status and body into the typed result,
/// every field exactly as the body carries it.
pub fn get_domain_response(status: u16, body: &str) -> (r: Result<Domain, Error>)
    ensures
        !(200 <= status < 300) ==> (r matches Err(e) && e matches Error::Transport {
            status: st,
            message: _,
        } && st == Some(status)),
        200 <= status < 300 ==> ((r is Ok) <==> (spec_json(body@) matches Some(jv)
            && jv matches JsonV::Obj(ms) && domain_shape_ok(ms))),
        (r matches Ok(d) ==> (spec_json(body@) matches Some(jv) && jv matches JsonV::Obj(ms)
            && domain_matches(d, ms))),
        200 <= status < 300 ==> (r matches Err(e) ==> e is Deserialization),
{
    match check_status(status) {
        Ok(()) => {
            let v = match parse_json(body) {
                Ok(v) => v,
                Err(e) => {
                    return Err(e);
                },
            };
            proof {
                lemma_json_view_cases(v);
            }
            domain_from_json(&v)
        },
        Err(e) => Err(e),
    }
}

/// Turns a domain-listing exchange's status and body into the typed
/// result, every listed record exactly as the body carries it, in its
/// order.
pub fn list_domains_response(status: u16, body: &str) -> (r: Result<ListDomainResponse, Error>)
    ensures
        !(200 <= status < 300) ==> (r matches Err(e) && e matches Error::Transport {
            status: st,
            message: _,
        } && st == Some(status)),
        200 <= status < 300 ==> ((r is Ok) <==> (spec_json(body@) matches Some(jv)
            && jv matches JsonV::Obj(ms) && domain_list_shape_ok(ms))),
        (r matches Ok(l) ==> (spec_json(body@) matches Some(jv) && jv matches JsonV::Obj(ms)
            && domain_list_matches(l, ms))),
        200 <= status < 300 ==> (r matches Err(e) ==> e is Deserialization),
{
    match check_status(status) {
        Ok(()) => {
            let v = match parse_json(body) {
                Ok(v) => v,
                Err(e) => {
                    return Err(e);
                },
            };
            proof {
                lemma_json_view_cases(v);
            }
            domain_list_from_json(&v)
        },
        Err(e) => Err(e),
    }
}

/// Turns a verification exchange's status into the void result.
pub fn verify_domain_response(status: u16) -> (r: Result<(), Error>)
    ensures
        r is Ok <==> 200 <= status < 300,
        (r matches Err(e) ==> (e matches Error::Transport { status: st, message: _ } && st
            == Some(status))),
{
    check_status(status)
}

/// Turns a deletion exchange's status into the void result.
pub fn delete_domain_response(status: u16) -> (r: Result<(), Error>)
    ensures
        r is Ok <==> 200 <= status < 300,
        (r matches Err(e) ==> (e matches Error::Transport { status: st, message: _ } && st
            == Some(status))),
{
    check_status(status)
}

} // verus!
