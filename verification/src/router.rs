use crate::db::{db_map, DbPool};
use crate::http::method::Method;
use crate::http::request::{spec_parse, ReqModel, Request, SpecParse};
use crate::http::response::Response;
use crate::http::status_code::StatusCode;
use crate::kv::{create, delete, get, kv_create_conflicts, kv_lookup, update, CreateResult,
    DeleteResult, GetResult, KvError, UpdateResult};
use crate::text::{lemma_split_at_char_nonempty, split_at_char, split_str, str_eq};
use vstd::prelude::*;
use vstd::string::StringExecFns;

verus! {

/// Names what serde_json reads out of a request body: the `key` and
/// `value` string fields of a JSON object, when the text is exactly that.
pub uninterp spec fn json_kv_of(s: Seq<char>) -> Option<(Seq<char>, Seq<char>)>;

/// Relies on serde_json::from_str, Value::get and Value::as_str: the
/// result is a function of the text alone; a JSON object carrying string
/// fields `key` and `value` yields them, any other text yields nothing.
#[verifier::external_body]
fn parse_kv_json(body: &str) -> (r: Option<(String, String)>)
    ensures
        (r matches Some(kv) ==> json_kv_of(body@) == Some((kv.0@, kv.1@))),
        (r is None ==> json_kv_of(body@) is None),
{
    let v: serde_json::Value = match serde_json::from_str(body) {
        Ok(v) => v,
        Err(_) => return None,
    };
    let k = v.get("key")?.as_str()?;
    let val = v.get("value")?.as_str()?;
    Some((k.to_string(), val.to_string()))
}

/// The response carries this status and exactly this body text.
pub open spec fn resp_is(r: Response, st: StatusCode, body: Seq<char>) -> bool {
    &&& r.status_code == st
    &&& (r.body matches Some(b) && b@ == body)
}

/// What a lookup request may answer, against the records `m` as its
/// statement observed them: a 200 carries the stored value, a 404 means
/// the key had no row, and a 500 is a failed acquire or a failed
/// statement.
pub open spec fn get_rel(m: Map<Seq<char>, Seq<char>>, id: Seq<char>, r: Response) -> bool {
    &&& (r.status_code == StatusCode::Okay ==> (r.body matches Some(b) && kv_lookup(m, id)
        == Some(b@)))
    &&& (r.status_code == StatusCode::NotFound ==> kv_lookup(m, id) is None && resp_is(
        r,
        StatusCode::NotFound,
        "404 Key Not Found: "@ + id,
    ))
    &&& (r.status_code == StatusCode::InternalServerError ==> (resp_is(
        r,
        StatusCode::InternalServerError,
        "500 Internal Server Error: DB Connection Failed"@,
    ) || resp_is(
        r,
        StatusCode::InternalServerError,
        "500 Internal Server Error: Failed to get key"@,
    )))
    &&& (r.status_code == StatusCode::Okay || r.status_code == StatusCode::NotFound
        || r.status_code == StatusCode::InternalServerError)
}

/// What a create request may do to the records and answer. A rejected
/// body makes no storage call, so the map stays the one already observed
/// (`m1 == m0`); the storage outcomes speak of the records `m1` as the
/// insert statement left them.
pub open spec fn create_rel(
    m0: Map<Seq<char>, Seq<char>>,
    m1: Map<Seq<char>, Seq<char>>,
    body: Option<Seq<char>>,
    r: Response,
) -> bool {
    match body {
        None => m1 == m0 && resp_is(r, StatusCode::BadRequest, "400 Bad Request: Missing Body"@),
        Some(b) => match json_kv_of(b) {
            None => m1 == m0 && resp_is(
                r,
                StatusCode::BadRequest,
                "400 Bad Request: Invalid JSON"@,
            ),
            Some(kv) => {
                &&& (r.status_code == StatusCode::Created ==> kv_lookup(m1, kv.0) == Some(kv.1)
                    && resp_is(
                    r,
                    StatusCode::Created,
                    "Key "@ + kv.0 + " created successfully"@,
                ))
                &&& (r.status_code == StatusCode::BadRequest ==> kv_create_conflicts(m1, kv.0)
                    && resp_is(
                    r,
                    StatusCode::BadRequest,
                    "409 Conflict: Key "@ + kv.0 + " already exists"@,
                ))
                &&& (r.status_code == StatusCode::InternalServerError ==> (resp_is(
                    r,
                    StatusCode::InternalServerError,
                    "500 Internal Server Error: DB Connection Failed"@,
                ) || resp_is(
                    r,
                    StatusCode::InternalServerError,
                    "500 Internal Server Error: Failed to create key"@,
                )))
                &&& (r.status_code == StatusCode::Created || r.status_code
                    == StatusCode::BadRequest || r.status_code == StatusCode::InternalServerError)
            },
        },
    }
}

/// What an update request may do: an upsert of `id`, with an absent body
/// standing for the empty value. On success the records `m`, as the
/// statement left them, hold the new value under `id`.
pub open spec fn update_rel(
    m: Map<Seq<char>, Seq<char>>,
    id: Seq<char>,
    body: Option<Seq<char>>,
    r: Response,
) -> bool {
    let value = match body {
        Some(b) => b,
        None => Seq::<char>::empty(),
    };
    &&& (r.status_code == StatusCode::Okay ==> kv_lookup(m, id) == Some(value) && resp_is(
        r,
        StatusCode::Okay,
        "Key "@ + id + " updated successfully"@,
    ))
    &&& (r.status_code == StatusCode::InternalServerError ==> (resp_is(
        r,
        StatusCode::InternalServerError,
        "500 Internal Server Error: DB Connection Failed"@,
    ) || resp_is(
        r,
        StatusCode::InternalServerError,
        "500 Internal Server Error: Failed to update key"@,
    )))
    &&& (r.status_code == StatusCode::Okay || r.status_code == StatusCode::InternalServerError)
}

/// What a delete request may do: whether the statement found the key's
/// row (200) or not (404), it leaves the records `m` without one; the
/// two answers differ only in what the statement's removed-row count
/// reported.
pub open spec fn delete_rel(
    m: Map<Seq<char>, Seq<char>>,
    id: Seq<char>,
    r: Response,
) -> bool {
    &&& (r.status_code == StatusCode::Okay ==> kv_lookup(m, id) is None && resp_is(
        r,
        StatusCode::Okay,
        "Key "@ + id + " deleted successfully"@,
    ))
    &&& (r.status_code == StatusCode::NotFound ==> kv_lookup(m, id) is None && resp_is(
        r,
        StatusCode::NotFound,
        "404 Key Not Found: "@ + id,
    ))
    &&& (r.status_code == StatusCode::InternalServerError ==> (resp_is(
        r,
        StatusCode::InternalServerError,
        "500 Internal Server Error: DB Connection Failed"@,
    ) || resp_is(
        r,
        StatusCode::InternalServerError,
        "500 Internal Server Error: Failed to delete key"@,
    )))
    &&& (r.status_code == StatusCode::Okay || r.status_code == StatusCode::NotFound
        || r.status_code == StatusCode::InternalServerError)
}

/// The method does not fit the path's shape: no storage call is made, so
/// the map stays the one already observed.
pub open spec fn bad_path_rel(
    m0: Map<Seq<char>, Seq<char>>,
    m1: Map<Seq<char>, Seq<char>>,
    r: Response,
) -> bool {
    m1 == m0 && resp_is(r, StatusCode::BadRequest, "Invalid Method for Path"@)
}

/// The whole dispatch table: the path split on `/` names the resource at
/// index 1 and the id at index 2; only `keys` is a resource; each method
/// needs the id present or absent as the table says. `m0` is the record
/// map as last observed and `m1` the map after handling: equal whenever
/// no storage statement ran, and otherwise as that statement left it.
pub open spec fn route_rel(
    req: ReqModel,
    m0: Map<Seq<char>, Seq<char>>,
    m1: Map<Seq<char>, Seq<char>>,
    r: Response,
) -> bool {
    let parts = split_at_char(req.path, '/');
    if !(parts.len() >= 2 && parts[1] == "keys"@) {
        m1 == m0 && resp_is(
            r,
            StatusCode::NotFound,
            "404 Route Not Found (Did you mean /keys or /keys/{id}?)"@,
        )
    } else {
        let has_id = parts.len() >= 3 && parts[2].len() > 0;
        match req.method {
            Method::GET => if has_id {
                get_rel(m1, parts[2], r)
            } else {
                bad_path_rel(m0, m1, r)
            },
            Method::POST => if !has_id {
                create_rel(m0, m1, req.body, r)
            } else {
                bad_path_rel(m0, m1, r)
            },
            Method::PUT => if has_id {
                update_rel(m1, parts[2], req.body, r)
            } else {
                bad_path_rel(m0, m1, r)
            },
            Method::DELETE => if has_id {
                delete_rel(m1, parts[2], r)
            } else {
                bad_path_rel(m0, m1, r)
            },
        }
    }
}

fn invalid_method() -> (r: Response)
    ensures
        resp_is(r, StatusCode::BadRequest, "Invalid Method for Path"@),
{
    Response::new(StatusCode::BadRequest, Some("Invalid Method for Path".to_owned()))
}

/// The one response for each lookup outcome.
pub fn get_response(outcome: Result<GetResult, KvError>, id: &str) -> (r: Response)
    ensures
        (outcome matches Ok(GetResult::Found(v)) ==> r.status_code == StatusCode::Okay && (
        r.body matches Some(b) && b == v)),
        (outcome matches Ok(GetResult::NotFound) ==> resp_is(
            r,
            StatusCode::NotFound,
            "404 Key Not Found: "@ + id@,
        )),
        (outcome matches Err(KvError::ConnectFailed) ==> resp_is(
            r,
            StatusCode::InternalServerError,
            "500 Internal Server Error: DB Connection Failed"@,
        )),
        (outcome matches Err(KvError::StorageFailed) ==> resp_is(
            r,
            StatusCode::InternalServerError,
            "500 Internal Server Error: Failed to get key"@,
        )),
{
    match outcome {
        Ok(GetResult::Found(v)) => Response::new(StatusCode::Okay, Some(v)),
        Ok(GetResult::NotFound) => Response::new(
            StatusCode::NotFound,
            Some("404 Key Not Found: ".to_owned().concat(id)),
        ),
        Err(KvError::ConnectFailed) => Response::new(
            StatusCode::InternalServerError,
            Some("500 Internal Server Error: DB Connection Failed".to_owned()),
        ),
        Err(KvError::StorageFailed) => Response::new(
            StatusCode::InternalServerError,
            Some("500 Internal Server Error: Failed to get key".to_owned()),
        ),
    }
}

fn get_key(id: &str, p: &mut DbPool) -> (resp: Response)
    ensures
        get_rel(db_map(*final(p)), id@, resp),
{
    let outcome = get(p, id);
    get_response(outcome, id)
}

/// The one response for each create outcome.
pub fn create_response(outcome: Result<CreateResult, KvError>, key: &str) -> (r: Response)
    ensures
        (outcome matches Ok(CreateResult::Created) ==> resp_is(
            r,
            StatusCode::Created,
            "Key "@ + key@ + " created successfully"@,
        )),
        (outcome matches Ok(CreateResult::Conflict) ==> resp_is(
            r,
            StatusCode::BadRequest,
            "409 Conflict: Key "@ + key@ + " already exists"@,
        )),
        (outcome matches Ok(CreateResult::StorageError) ==> resp_is(
            r,
            StatusCode::InternalServerError,
            "500 Internal Server Error: Failed to create key"@,
        )),
        (outcome matches Err(_) ==> resp_is(
            r,
            StatusCode::InternalServerError,
            "500 Internal Server Error: DB Connection Failed"@,
        )),
{
    match outcome {
        Ok(CreateResult::Created) => Response::new(
            StatusCode::Created,
            Some("Key ".to_owned().concat(key).concat(" created successfully")),
        ),
        Ok(CreateResult::Conflict) => Response::new(
            StatusCode::BadRequest,
            Some("409 Conflict: Key ".to_owned().concat(key).concat(" already exists")),
        ),
        Ok(CreateResult::StorageError) => Response::new(
            StatusCode::InternalServerError,
            Some("500 Internal Server Error: Failed to create key".to_owned()),
        ),
        Err(_) => Response::new(
            StatusCode::InternalServerError,
            Some("500 Internal Server Error: DB Connection Failed".to_owned()),
        ),
    }
}

fn create_key(body: Option<String>, p: &mut DbPool) -> (resp: Response)
    ensures
        create_rel(
            db_map(*old(p)),
            db_map(*final(p)),
            match body {
                Some(b) => Some(b@),
                None => None,
            },
            resp,
        ),
{
    let body_text = match body {
        Some(b) => b,
        None => {
            return Response::new(
                StatusCode::BadRequest,
                Some("400 Bad Request: Missing Body".to_owned()),
            );
        },
    };
    let kv_pair = match parse_kv_json(body_text.as_str()) {
        Some(kv) => kv,
        None => {
            return Response::new(
                StatusCode::BadRequest,
                Some("400 Bad Request: Invalid JSON".to_owned()),
            );
        },
    };
    let outcome = create(p, kv_pair.0.as_str(), kv_pair.1.as_str());
    create_response(outcome, kv_pair.0.as_str())
}

/// The one response for each update outcome.
pub fn update_response(outcome: Result<UpdateResult, KvError>, id: &str) -> (r: Response)
    ensures
        (outcome matches Ok(UpdateResult::Updated) ==> resp_is(
            r,
            StatusCode::Okay,
            "Key "@ + id@ + " updated successfully"@,
        )),
        (outcome matches Ok(UpdateResult::StorageError) ==> resp_is(
            r,
            StatusCode::InternalServerError,
            "500 Internal Server Error: Failed to update key"@,
        )),
        (outcome matches Err(_) ==> resp_is(
            r,
            StatusCode::InternalServerError,
            "500 Internal Server Error: DB Connection Failed"@,
        )),
{
    match outcome {
        Ok(UpdateResult::Updated) => Response::new(
            StatusCode::Okay,
            Some("Key ".to_owned().concat(id).concat(" updated successfully")),
        ),
        Ok(UpdateResult::StorageError) => Response::new(
            StatusCode::InternalServerError,
            Some("500 Internal Server Error: Failed to update key".to_owned()),
        ),
        Err(_) => Response::new(
            StatusCode::InternalServerError,
            Some("500 Internal Server Error: DB Connection Failed".to_owned()),
        ),
    }
}

fn update_key(id: &str, body: Option<String>, p: &mut DbPool) -> (resp: Response)
    ensures
        update_rel(
            db_map(*final(p)),
            id@,
            match body {
                Some(b) => Some(b@),
                None => None,
            },
            resp,
        ),
{
    let value = match body {
        Some(b) => b,
        None => String::new(),
    };
    let outcome = update(p, id, value.as_str());
    update_response(outcome, id)
}

/// The one response for each delete outcome.
pub fn delete_response(outcome: Result<DeleteResult, KvError>, id: &str) -> (r: Response)
    ensures
        (outcome matches Ok(DeleteResult::Deleted) ==> resp_is(
            r,
            StatusCode::Okay,
            "Key "@ + id@ + " deleted successfully"@,
        )),
        (outcome matches Ok(DeleteResult::NotFound) ==> resp_is(
            r,
            StatusCode::NotFound,
            "404 Key Not Found: "@ + id@,
        )),
        (outcome matches Ok(DeleteResult::StorageError) ==> resp_is(
            r,
            StatusCode::InternalServerError,
            "500 Internal Server Error: Failed to delete key"@,
        )),
        (outcome matches Err(_) ==> resp_is(
            r,
            StatusCode::InternalServerError,
            "500 Internal Server Error: DB Connection Failed"@,
        )),
{
    match outcome {
        Ok(DeleteResult::Deleted) => Response::new(
            StatusCode::Okay,
            Some("Key ".to_owned().concat(id).concat(" deleted successfully")),
        ),
        Ok(DeleteResult::NotFound) => Response::new(
            StatusCode::NotFound,
            Some("404 Key Not Found: ".to_owned().concat(id)),
        ),
        Ok(DeleteResult::StorageError) => Response::new(
            StatusCode::InternalServerError,
            Some("500 Internal Server Error: Failed to delete key".to_owned()),
        ),
        Err(_) => Response::new(
            StatusCode::InternalServerError,
            Some("500 Internal Server Error: DB Connection Failed".to_owned()),
        ),
    }
}

fn delete_key(id: &str, p: &mut DbPool) -> (resp: Response)
    ensures
        delete_rel(db_map(*final(p)), id@, resp),
{
    let outcome = delete(p, id);
    delete_response(outcome, id)
}

fn clone_body(body: &Option<String>) -> (r: Option<String>)
    ensures
        (match body {
            Some(b) => (r matches Some(c) && c@ == b@),
            None => r is None,
        }),
{
    match body {
        Some(b) => Some(b.clone()),
        None => None,
    }
}

/// The `/keys` table: GET, PUT and DELETE need an id, POST forbids one.
fn handle_keys_route(req: &Request, parts: &Vec<String>, p: &mut DbPool) -> (resp: Response)
    requires
        parts@.map_values(|t: String| t@) == split_at_char(req.path@, '/'),
        parts@.len() >= 2,
        parts@[1]@ == "keys"@,
    ensures
        route_rel(req@, db_map(*old(p)), db_map(*final(p)), resp),
{
    let has_id = parts.len() >= 3 && !parts[2].as_str().is_empty();
    proof {
        if parts@.len() >= 3 {
            assert(parts@.map_values(|t: String| t@)[2] == parts@[2]@);
        }
        assert(parts@.map_values(|t: String| t@)[1] == parts@[1]@);
    }
    match req.method {
        Method::GET => if has_id {
            get_key(parts[2].as_str(), p)
        } else {
            invalid_method()
        },
        Method::POST => if !has_id {
            create_key(clone_body(&req.body), p)
        } else {
            invalid_method()
        },
        Method::PUT => if has_id {
            update_key(parts[2].as_str(), clone_body(&req.body), p)
        } else {
            invalid_method()
        },
        Method::DELETE => if has_id {
            delete_key(parts[2].as_str(), p)
        } else {
            invalid_method()
        },
    }
}

/// Splits the path and dispatches: only the `keys` resource exists.
pub fn route(req: Request, p: &mut DbPool) -> (resp: Response)
    ensures
        route_rel(req@, db_map(*old(p)), db_map(*final(p)), resp),
{
    let parts = split_str(req.path.as_str(), '/');
    proof {
        lemma_split_at_char_nonempty(req.path@, '/');
        if parts@.len() >= 2 {
            assert(parts@.map_values(|t: String| t@)[1] == parts@[1]@);
        }
    }
    let is_keys = parts.len() >= 2 && str_eq(parts[1].as_str(), "keys");
    if !is_keys {
        return Response::new(
            StatusCode::NotFound,
            Some("404 Route Not Found (Did you mean /keys or /keys/{id}?)".to_owned()),
        );
    }
    handle_keys_route(&req, &parts, p)
}

/// One connection's work, once its bytes are in hand: parse one request,
/// route it, and produce the one response; bytes that parse to nothing
/// get a bare 400 and the records stay as they were.
pub fn handle_request(data: &[u8], p: &mut DbPool) -> (resp: Response)
    ensures
        (spec_parse(data@, true) matches SpecParse::Complete(m) ==> route_rel(
            m,
            db_map(*old(p)),
            db_map(*final(p)),
            resp,
        )),
        (!(spec_parse(data@, true) matches SpecParse::Complete(_)) ==> db_map(*final(p)) == db_map(
            *old(p),
        ) && resp_is(resp, StatusCode::BadRequest, "400 Bad Request"@)),
{
    match Request::parse(data) {
        Some(req) => route(req, p),
        None => Response::new(StatusCode::BadRequest, Some("400 Bad Request".to_owned())),
    }
}

} // verus!
