//! The `{ "ok": bool, ... }` envelope and the status check that precedes it.
use vstd::prelude::*;
use crate::error::ClientError;
use crate::json::{Json, field, lookup};

verus! {

pub open spec fn is_success_status(status: u16) -> bool {
    200 <= status < 300
}

/// The boolean member `ok` of `j`, if it has one.
pub open spec fn ok_flag(j: Json) -> Option<bool> {
    match field(j, "ok"@) {
        Some(Json::Bool(b)) => Some(b),
        _ => None,
    }
}

/// The position of the first member named `k`.
pub fn member_index(m: &Vec<(String, Json)>, k: &str) -> (r: Option<usize>)
    ensures
        r matches Some(i) ==> i < m@.len() && lookup(m@, k@) == Some(m@[i as int].1),
        r is None ==> lookup(m@, k@) is None,
{
    let key: String = k.to_owned();
    let mut i: usize = 0;
    assert(m@.subrange(0, m@.len() as int) =~= m@);
    while i < m.len()
        invariant
            i <= m@.len(),
            key@ == k@,
            lookup(m@, k@) == lookup(m@.subrange(i as int, m@.len() as int), k@),
        decreases m@.len() - i,
    {
        let ghost rest = m@.subrange(i as int, m@.len() as int);
        assert(rest.subrange(1, rest.len() as int) =~= m@.subrange(i + 1, m@.len() as int));
        if m[i].0 == key {
            return Some(i);
        }
        i = i + 1;
    }
    None
}

/// Reads the member `ok` without taking the document apart.
pub fn read_ok(j: &Json) -> (r: Option<bool>)
    ensures
        r == ok_flag(*j),
{
    match j {
        Json::Object(m) => match member_index(m, "ok") {
            Some(i) => match &m[i].1 {
                Json::Bool(b) => Some(*b),
                _ => None,
            },
            None => None,
        },
        _ => None,
    }
}

/// What a response comes to before its payload is read: a non-2xx status
/// fails whatever the body holds; otherwise the body must be JSON.
/// `parsed` is the body read as JSON, `None` where it is not JSON.
pub fn check_status(status: u16, body: String, parsed: Option<Json>) -> (r: Result<Json, ClientError>)
    ensures
        !is_success_status(status) ==> r == Err::<Json, ClientError>(
            ClientError::HttpStatus { status, body },
        ),
        is_success_status(status) && parsed is None ==> r == Err::<Json, ClientError>(
            ClientError::MalformedEnvelope,
        ),
        is_success_status(status) && parsed is Some ==> r == Ok::<Json, ClientError>(
            parsed.unwrap(),
        ),
{
    if status < 200 || status >= 300 {
        return Err(ClientError::HttpStatus { status, body });
    }
    match parsed {
        Some(j) => Ok(j),
        None => Err(ClientError::MalformedEnvelope),
    }
}

} // verus!
