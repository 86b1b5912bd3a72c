use vstd::prelude::*;

verus! {

use crate::error::Error;
use crate::json::{
    jstr, json_view, lemma_json_view_cases, lemma_lookup_views, lookup_v, mviews, spec_json,
    spec_str_field, Json, JsonV, Member, MemberV, get_str_field, jviews, parse_json, str_eq,
    write_json_string,
};
use crate::request::{HttpMethod, HttpRequest, check_status, join_url};

/// The access level of an api key, as the wire knows it.
#[derive(Debug, Clone, Copy, PartialEq, Eq, Structural)]
pub enum Permission {
    FullAccess,
    SendingAccess,
}

/// The snake_case tag of a permission on the wire.
pub open spec fn spec_permission_tag(p: Permission) -> Seq<char> {
    match p {
        Permission::FullAccess => "full_access"@,
        Permission::SendingAccess => "sending_access"@,
    }
}

/// The permission a wire tag names, if any.
pub open spec fn spec_parse_permission(s: Seq<char>) -> Option<Permission> {
    if s == "full_access"@ {
        Some(Permission::FullAccess)
    } else if s == "sending_access"@ {
        Some(Permission::SendingAccess)
    } else {
        None
    }
}

impl Permission {
    /// The tag written on the wire for this permission.
    pub fn as_str(&self) -> (r: &'static str)
        ensures
            r@ == spec_permission_tag(*self),
    {
        match self {
            Permission::FullAccess => "full_access",
            Permission::SendingAccess => "sending_access",
        }
    }

    /// Reads a wire tag back into a permission.
    pub fn parse(s: &str) -> (r: Option<Permission>)
        ensures
            r == spec_parse_permission(s@),
    {
        if str_eq(s, "full_access") {
            Some(Permission::FullAccess)
        } else if str_eq(s, "sending_access") {
            Some(Permission::SendingAccess)
        } else {
            None
        }
    }
}

/// Writing a permission and reading the tag back always yields the same
/// permission.
pub proof fn lemma_permission_round_trip(p: Permission)
    ensures
        spec_parse_permission(spec_permission_tag(p)) == Some(p),
{
    reveal_strlit("full_access");
    reveal_strlit("sending_access");
    assert("full_access"@.len() == 11);
    assert("sending_access"@.len() == 14);
}

/// A tag that reads as a permission is exactly that permission's tag.
pub proof fn lemma_permission_tag_faithful(s: Seq<char>, p: Permission)
    requires
        spec_parse_permission(s) == Some(p),
    ensures
        spec_permission_tag(p) == s,
{
    reveal_strlit("full_access");
    reveal_strlit("sending_access");
    assert("full_access"@.len() == 11);
    assert("sending_access"@.len() == 14);
}

/// What a caller asks of a new api key.
pub struct CreateApiKeyRequest {
    pub name: String,
    pub permission: Option<Permission>,
    pub domain_id: Option<String>,
}

/// The JSON body sent when creating an api key: the three fields in
/// declaration order, an absent option written as `null`.
pub open spec fn spec_create_api_key_body(r: CreateApiKeyRequest) -> Seq<char> {
    "{\"name\":"@ + jstr(r.name@) + ",\"permission\":"@ + (match r.permission {
        Some(p) => jstr(spec_permission_tag(p)),
        None => "null"@,
    }) + ",\"domain_id\":"@ + (match r.domain_id {
        Some(d) => jstr(d@),
        None => "null"@,
    }) + "}"@
}

/// Builds the creation body for an api key.
pub fn create_api_key_body(r: &CreateApiKeyRequest) -> (out: String)
    ensures
        out@ == spec_create_api_key_body(*r),
{
    let mut s = String::from_str("{\"name\":");
    write_json_string(&mut s, r.name.as_str());
    s.append(",\"permission\":");
    match &r.permission {
        Some(p) => write_json_string(&mut s, p.as_str()),
        None => s.append("null"),
    }
    s.append(",\"domain_id\":");
    match &r.domain_id {
        Some(d) => write_json_string(&mut s, d.as_str()),
        None => s.append("null"),
    }
    s.append("}");
    proof {
        assert(s@ =~= spec_create_api_key_body(*r));
    }
    s
}

/// What the server answers to a creation: the key's id and its one-time
/// visible secret token.
pub struct CreateApiKeyResponse {
    pub id: String,
    pub token: String,
}

/// One api key's metadata, as listed; a token is never among it.
pub struct ApiKey {
    pub id: String,
    pub name: String,
    pub created_at: String,
}

/// The listing envelope.
pub struct ListApiKeysResponse {
    pub data: Vec<ApiKey>,
}

pub open spec fn created_key_shape_ok(ms: Seq<MemberV>) -> bool {
    spec_str_field(ms, "id"@) is Some && spec_str_field(ms, "token"@) is Some
}

pub open spec fn created_key_matches(r: CreateApiKeyResponse, ms: Seq<MemberV>) -> bool {
    spec_str_field(ms, "id"@) == Some(r.id@) && spec_str_field(ms, "token"@) == Some(r.token@)
}

pub open spec fn api_key_shape_ok(ms: Seq<MemberV>) -> bool {
    spec_str_field(ms, "id"@) is Some && spec_str_field(ms, "name"@) is Some && spec_str_field(
        ms,
        "created_at"@,
    ) is Some
}

pub open spec fn api_key_matches(k: ApiKey, ms: Seq<MemberV>) -> bool {
    spec_str_field(ms, "id"@) == Some(k.id@) && spec_str_field(ms, "name"@) == Some(k.name@)
        && spec_str_field(ms, "created_at"@) == Some(k.created_at@)
}

/// Reads a creation response out of a parsed JSON value.
pub fn created_key_from_json(v: &Json) -> (r: Result<CreateApiKeyResponse, Error>)
    ensures
        (v matches Json::Obj(ms) ==> (r is Ok <==> created_key_shape_ok(mviews(ms@)))),
        !(v is Obj) ==> r is Err,
        (r matches Ok(resp) ==> (v matches Json::Obj(ms) && created_key_matches(
            resp,
            mviews(ms@),
        ))),
        (r matches Err(e) ==> e is Deserialization),
{
    match v {
        Json::Obj(ms) => {
            let id = match get_str_field(ms, "id") {
                Ok(t) => t,
                Err(e) => {
                    return Err(e);
                },
            };
            let token = match get_str_field(ms, "token") {
                Ok(t) => t,
                Err(e) => {
                    return Err(e);
                },
            };
            Ok(CreateApiKeyResponse { id, token })
        },
        _ => Err(
            Error::Deserialization {
                message: String::from_str("expected a JSON object"),
            },
        ),
    }
}

/// Reads one listed key out of a parsed JSON value.
pub fn api_key_from_json(v: &Json) -> (r: Result<ApiKey, Error>)
    ensures
        (v matches Json::Obj(ms) ==> (r is Ok <==> api_key_shape_ok(mviews(ms@)))),
        !(v is Obj) ==> r is Err,
        (r matches Ok(k) ==> (v matches Json::Obj(ms) && api_key_matches(k, mviews(ms@)))),
        (r matches Err(e) ==> e is Deserialization),
{
    match v {
        Json::Obj(ms) => {
            let id = match get_str_field(ms, "id") {
                Ok(t) => t,
                Err(e) => {
                    return Err(e);
                },
            };
            let name = match get_str_field(ms, "name") {
                Ok(t) => t,
                Err(e) => {
                    return Err(e);
                },
            };
            let created_at = match get_str_field(ms, "created_at") {
                Ok(t) => t,
                Err(e) => {
                    return Err(e);
                },
            };
            Ok(ApiKey { id, name, created_at })
        },
        _ => Err(
            Error::Deserialization {
                message: String::from_str("expected a JSON object"),
            },
        ),
    }
}

pub open spec fn key_list_shape_ok(ms: Seq<MemberV>) -> bool {
    match lookup_v(ms, "data"@) {
        Some(JsonV::Arr(items)) => forall|k: int|
            0 <= k < items.len() ==> items[k] is Obj && api_key_shape_ok(items[k]->Obj_0),
        _ => false,
    }
}

pub open spec fn key_list_matches(l: ListApiKeysResponse, ms: Seq<MemberV>) -> bool {
    match lookup_v(ms, "data"@) {
        Some(JsonV::Arr(items)) => l.data@.len() == items.len() && forall|k: int|
            0 <= k < items.len() ==> items[k] is Obj && api_key_matches(
                l.data@[k],
                items[k]->Obj_0,
            ),
        _ => false,
    }
}

/// Reads a listing response out of a parsed JSON value.
pub fn key_list_from_json(v: &Json) -> (r: Result<ListApiKeysResponse, Error>)
    ensures
        (v matches Json::Obj(ms) ==> (r is Ok <==> key_list_shape_ok(mviews(ms@)))),
        !(v is Obj) ==> r is Err,
        (r matches Ok(l) ==> (v matches Json::Obj(ms) && key_list_matches(l, mviews(ms@)))),
        (r matches Err(e) ==> e is Deserialization),
{
    match v {
        Json::Obj(ms) => {
            proof {
                lemma_lookup_views(ms@, "data"@);
            }
            match crate::json::obj_get(ms, "data") {
                Some(dv) => {
                    proof {
                        lemma_json_view_cases(*dv);
                    }
                    match dv {
                        Json::Arr(items) => {
                            let ghost vitems = jviews(items@);
                            let mut data: Vec<ApiKey> = Vec::new();
                            let mut k: usize = 0;
                            while k < items.len()
                                invariant
                                    k <= items.len(),
                                    data@.len() == k,
                                    v is Obj && v->Obj_0 == *ms,
                                    vitems == jviews(items@),
                                    vitems.len() == items@.len(),
                                    lookup_v(mviews(ms@), "data"@) == Some(JsonV::Arr(vitems)),
                                    forall|t: int|
                                        0 <= t < k ==> vitems[t] is Obj && api_key_shape_ok(
                                            vitems[t]->Obj_0,
                                        ),
                                    forall|t: int|
                                        0 <= t < k ==> api_key_matches(
                                            data@[t],
                                            vitems[t]->Obj_0,
                                        ),
                                decreases items.len() - k,
                            {
                                proof {
                                    lemma_json_view_cases(items@[k as int]);
                                    assert(vitems[k as int] == json_view(items@[k as int]));
                                }
                                match api_key_from_json(&items[k]) {
                                    Ok(key) => {
                                        data.push(key);
                                    },
                                    Err(e) => {
                                        proof {
                                            assert(!(vitems[k as int] is Obj && api_key_shape_ok(
                                                vitems[k as int]->Obj_0,
                                            )));
                                            assert(!key_list_shape_ok(mviews(ms@)));
                                        }
                                        return Err(e);
                                    },
                                }
                                k = k + 1;
                            }
                            Ok(ListApiKeysResponse { data })
                        },
                        _ => Err(
                            Error::Deserialization {
                                message: String::from_str("expected an array under data"),
                            },
                        ),
                    }
                },
                None => Err(
                    Error::Deserialization {
                        message: String::from_str("expected a data member"),
                    },
                ),
            }
        },
        _ => Err(
            Error::Deserialization {
                message: String::from_str("expected a JSON object"),
            },
        ),
    }
}

/// The api-key facade: carries the `Authorization` header value every
/// request of this resource group is issued with.
pub struct ApiKeys {
    pub auth: String,
}

impl ApiKeys {
    /// The request that creates an api key.
    pub fn create_request(&self, params: &CreateApiKeyRequest) -> (r: HttpRequest)
        ensures
            r.method == HttpMethod::Post,
            r.url@ == "https://api.resend.com/api-keys"@,
            r.auth@ == self.auth@,
            (r.body matches Some(b) && b@ == spec_create_api_key_body(*params)),
    {
        HttpRequest {
            method: HttpMethod::Post,
            url: String::from_str("https://api.resend.com/api-keys"),
            auth: self.auth.clone(),
            body: Some(create_api_key_body(params)),
        }
    }

    /// The request that lists all api keys.
    pub fn list_request(&self) -> (r: HttpRequest)
        ensures
            r.method == HttpMethod::Get,
            r.url@ == "https://api.resend.com/api-keys"@,
            r.auth@ == self.auth@,
            r.body is None,
    {
        HttpRequest {
            method: HttpMethod::Get,
            url: String::from_str("https://api.resend.com/api-keys"),
            auth: self.auth.clone(),
            body: None,
        }
    }

    /// The request that deletes the api key with the given id.
    pub fn delete_request(&self, api_key_id: &str) -> (r: HttpRequest)
        ensures
            r.method == HttpMethod::Delete,
            r.url@ == "https://api.resend.com/api-keys/"@ + api_key_id@,
            r.auth@ == self.auth@,
            r.body is None,
    {
        HttpRequest {
            method: HttpMethod::Delete,
            url: join_url("https://api.resend.com/api-keys/", api_key_id),
            auth: self.auth.clone(),
            body: None,
        }
    }
}

/// Turns a creation exchange's status and body into the typed result: a
/// transport error off the success range, and on it exactly the typed
/// record the body denotes.
pub fn create_api_key_response(status: u16, body: &str) -> (r: Result<
    CreateApiKeyResponse,
    Error,
>)
    ensures
        !(200 <= status < 300) ==> (r matches Err(e) && e matches Error::Transport {
            status: st,
            message: _,
        } && st == Some(status)),
        200 <= status < 300 ==> ((r is Ok) <==> (spec_json(body@) matches Some(jv)
            && jv matches JsonV::Obj(ms) && created_key_shape_ok(ms))),
        (r matches Ok(resp) ==> (spec_json(body@) matches Some(jv) && jv matches JsonV::Obj(ms)
            && created_key_matches(resp, ms))),
        200 <= status < 300 ==> (r matches Err(e) ==> e is Deserialization),
{
    match check_status(status) {
        Ok(()) => {
            let v = match parse_json(body) {
                Ok(v) => v,
                Err(e) => {
                    return Err(e);
                },
            };
            proof {
                lemma_json_view_cases(v);
            }
            created_key_from_json(&v)
        },
        Err(e) => Err(e),
    }
}

/// Turns a listing exchange's status and body into the typed result, every
/// listed record exactly as the body carries it, in its order.
pub fn list_api_keys_response(status: u16, body: &str) -> (r: Result<ListApiKeysResponse, Error>)
    ensures
        !(200 <= status < 300) ==> (r matches Err(e) && e matches Error::Transport {
            status: st,
            message: _,
        } && st == Some(status)),
        200 <= status < 300 ==> ((r is Ok) <==> (spec_json(body@) matches Some(jv)
            && jv matches JsonV::Obj(ms) && key_list_shape_ok(ms))),
        (r matches Ok(l) ==> (spec_json(body@) matches Some(jv) && jv matches JsonV::Obj(ms)
            && key_list_matches(l, ms))),
        200 <= status < 300 ==> (r matches Err(e) ==> e is Deserialization),
{
    match check_status(status) {
        Ok(()) => {
            let v = match parse_json(body) {
                Ok(v) => v,
                Err(e) => {
                    return Err(e);
                },
            };
            proof {
                lemma_json_view_cases(v);
            }
            key_list_from_json(&v)
        },
        Err(e) => Err(e),
    }
}

/// Turns a deletion exchange's status into the void result.
pub fn delete_api_key_response(status: u16) -> (r: Result<(), Error>)
    ensures
        r is Ok <==> 200 <= status < 300,
        (r matches Err(e) ==> (e matches Error::Transport { status: st, message: _ } && st
            == Some(status))),
{
    check_status(status)
}

} // verus!
