//! `reactions.add`, `reactions.get`, `reactions.list`, `reactions.remove`.
//! A reaction target is a message, a file or a file comment, told apart by
//! the member `type`.
use vstd::prelude::*;
use crate::envelope::{check_status, is_success_status, ok_flag, read_ok};
use crate::error::ClientError;
use crate::json::{
    distinct_names, field, is_bool, is_i32, is_json, is_members, is_opt_str, is_str, is_str_list,
    lemma_lookup_distinct, lookup, member_names_distinct, ok_bool, ok_i32, ok_json, ok_members,
    ok_opt_str, ok_str, ok_str_list, opt_str_json, read_str_member, str_list_json, str_member,
    take_bool, take_fields, take_i32, take_json, take_members, take_opt_str, take_slot, take_str,
    take_str_list, Json,
};
use crate::request::{
    add_param_to_url, bearer, bearer_header, bool_pair, bool_sent, int_pair, int_sent,
    opt_bool_text, opt_int_text, opt_pair, opt_sent, query_view, sent, ApiRequest, HttpMethod,
};

verus! {

/// Payload of a rejected reactions call.
#[derive(Debug)]
pub struct ReactionsError {
    pub ok: bool,
    pub error: String,
}

/// `j` is an object whose members decode into a `ReactionsError`.
pub open spec fn reactions_error_ok(j: Json) -> bool {
    &&& j is Object
    &&& ok_bool(field(j, "ok"@))
    &&& ok_str(field(j, "error"@))
}

/// Each field of `x` is what the member of `j` of the same name holds.
pub open spec fn reactions_error_matches(j: Json, x: ReactionsError) -> bool {
    &&& is_bool(field(j, "ok"@), x.ok)
    &&& is_str(field(j, "error"@), x.error)
}

pub fn decode_reactions_error(j: Json) -> (r: Option<ReactionsError>)
    ensures
        r is Some <==> reactions_error_ok(j),
        r matches Some(x) ==> reactions_error_matches(j, x),
{
    let members = match j {
        Json::Object(m) => m,
        _ => {
            return None;
        },
    };
    let keys: Vec<&str> = vec!["ok", "error"];
    proof {
        reveal_strlit("ok");
        reveal_strlit("error");
        assert("ok"@.len() == 2);
        assert("error"@.len() == 5);
    }
    assert(distinct_names(keys@));
    let mut slots = take_fields(members, &keys);
    let ok = match take_bool(take_slot(&mut slots, 0)) {
        Some(v) => v,
        None => {
            return None;
        },
    };
    let error = match take_str(take_slot(&mut slots, 1)) {
        Some(v) => v,
        None => {
            return None;
        },
    };
    Some(ReactionsError { ok, error })
}

impl ReactionsError {
    /// The rejection as a response body. Read back, a body encoded from `ok: false` gives this very rejection, from any reactions endpoint.
    pub fn to_json(&self) -> (r: Json)
        ensures
            reactions_error_ok(r),
            reactions_error_matches(r, *self),
            !self.ok ==> forall|d: Result<ReactionsAddResponse, ClientError>|
                #[trigger] reactions_add_outcome(r, d) ==> d == Ok::<ReactionsAddResponse, ClientError>(ReactionsAddResponse::Error(*self)),
            !self.ok ==> forall|d: Result<ReactionsGetResponse, ClientError>|
                #[trigger] reactions_get_outcome(r, d) ==> d == Ok::<ReactionsGetResponse, ClientError>(ReactionsGetResponse::Error(*self)),
            !self.ok ==> forall|d: Result<ReactionsListResponse, ClientError>|
                #[trigger] reactions_list_outcome(r, d) ==> d == Ok::<ReactionsListResponse, ClientError>(ReactionsListResponse::Error(*self)),
            !self.ok ==> forall|d: Result<ReactionsRemoveResponse, ClientError>|
                #[trigger] reactions_remove_outcome(r, d) ==> d == Ok::<ReactionsRemoveResponse, ClientError>(ReactionsRemoveResponse::Error(*self)),
    {
        let members: Vec<(String, Json)> = vec![
            ("ok".to_owned(), Json::Bool(self.ok)),
            ("error".to_owned(), Json::Str(self.error.clone())),
        ];
        proof {
            reveal_strlit("ok");
            reveal_strlit("error");
            assert("ok"@.len() == 2);
            assert("error"@.len() == 5);
        }
        let ghost m = members@;
        assert(m[0].0@ == "ok"@);
        assert(m[1].0@ == "error"@);
        assert forall|a: int, b: int| 0 <= a < b < m.len() implies m[a].0@ != m[b].0@ by {}
        assert forall|i: int| 0 <= i < m.len() implies lookup(m, #[trigger] m[i].0@) == Some(m[i].1) by {
            lemma_lookup_distinct(m, i);
        }
        Json::Object(members)
    }
}

/// Parameters of `reactions.add`.
#[derive(Debug)]
pub struct ReactionsAddParams {
    pub channel: String,
    pub name: String,
    pub timestamp: String,
}

/// Payload of a successful `reactions.add`.
#[derive(Debug)]
pub struct ReactionsAddSuccess {
    pub ok: bool,
}

/// `j` is an object whose members decode into a `ReactionsAddSuccess`.
pub open spec fn reactions_add_success_ok(j: Json) -> bool {
    &&& j is Object
    &&& ok_bool(field(j, "ok"@))
}

/// Each field of `x` is what the member of `j` of the same name holds.
pub open spec fn reactions_add_success_matches(j: Json, x: ReactionsAddSuccess) -> bool {
    &&& is_bool(field(j, "ok"@), x.ok)
}

/// The name of the first member of `j` that does not decode.
pub open spec fn reactions_add_success_first_bad(j: Json) -> Seq<char> {
    if !ok_bool(field(j, "ok"@)) {
        "ok"@
    } else {
        Seq::empty()
    }
}

pub fn decode_reactions_add_success(j: Json) -> (r: Result<ReactionsAddSuccess, ClientError>)
    ensures
        r is Ok <==> reactions_add_success_ok(j),
        r matches Ok(x) ==> reactions_add_success_matches(j, x),
        r matches Err(e) ==> (e matches ClientError::MalformedSuccessPayload { field } && field@ == reactions_add_success_first_bad(j)),
{
    let members = match j {
        Json::Object(m) => m,
        _ => {
            return Err(ClientError::MalformedSuccessPayload { field: "ok".to_owned() });
        },
    };
    let keys: Vec<&str> = vec!["ok"];
    proof {
        reveal_strlit("ok");
        assert("ok"@.len() == 2);
    }
    assert(distinct_names(keys@));
    let mut slots = take_fields(members, &keys);
    let ok = match take_bool(take_slot(&mut slots, 0)) {
        Some(v) => v,
        None => {
            return Err(ClientError::MalformedSuccessPayload { field: "ok".to_owned() });
        },
    };
    Ok(ReactionsAddSuccess { ok })
}

impl ReactionsAddSuccess {
    /// The payload as a response body. Read back, a body encoded from `ok: true` gives this very payload.
    pub fn to_json(&self) -> (r: Json)
        ensures
            reactions_add_success_ok(r),
            reactions_add_success_matches(r, *self),
            self.ok ==> forall|d: Result<ReactionsAddResponse, ClientError>|
                #[trigger] reactions_add_outcome(r, d) ==> d == Ok::<ReactionsAddResponse, ClientError>(ReactionsAddResponse::Success(*self)),
    {
        let members: Vec<(String, Json)> = vec![
            ("ok".to_owned(), Json::Bool(self.ok)),
        ];
        proof {
            reveal_strlit("ok");
            assert("ok"@.len() == 2);
        }
        let ghost m = members@;
        assert(m[0].0@ == "ok"@);
        assert forall|a: int, b: int| 0 <= a < b < m.len() implies m[a].0@ != m[b].0@ by {}
        assert forall|i: int| 0 <= i < m.len() implies lookup(m, #[trigger] m[i].0@) == Some(m[i].1) by {
            lemma_lookup_distinct(m, i);
        }
        Json::Object(members)
    }
}

#[derive(Debug)]
pub enum ReactionsAddResponse {
    Success(ReactionsAddSuccess),
    Error(ReactionsError),
}

/// What a parsed `reactions.add` body resolves to.
pub open spec fn reactions_add_outcome(j: Json, r: Result<ReactionsAddResponse, ClientError>) -> bool {
    match ok_flag(j) {
        None => r == Err::<ReactionsAddResponse, ClientError>(ClientError::MalformedEnvelope),
        Some(true) => if reactions_add_success_ok(j) {
            r matches Ok(ReactionsAddResponse::Success(x)) && reactions_add_success_matches(j, x)
        } else {
            r matches Err(ClientError::MalformedSuccessPayload { field }) && field@ == reactions_add_success_first_bad(j)
        },
        Some(false) => if reactions_error_ok(j) {
            r matches Ok(ReactionsAddResponse::Error(x)) && reactions_error_matches(j, x)
        } else {
            r == Err::<ReactionsAddResponse, ClientError>(ClientError::MalformedErrorPayload)
        },
    }
}

/// Decodes a parsed response body according to its `ok` member.
pub fn decode_reactions_add(j: Json) -> (r: Result<ReactionsAddResponse, ClientError>)
    ensures
        reactions_add_outcome(j, r),
{
    match read_ok(&j) {
        None => Err(ClientError::MalformedEnvelope),
        Some(true) => match decode_reactions_add_success(j) {
            Ok(x) => Ok(ReactionsAddResponse::Success(x)),
            Err(e) => Err(e),
        },
        Some(false) => match decode_reactions_error(j) {
            Some(x) => Ok(ReactionsAddResponse::Error(x)),
            None => Err(ClientError::MalformedErrorPayload),
        },
    }
}

/// The whole response: the status decides first, then the body.
pub open spec fn reactions_add_result(status: u16, body: String, parsed: Option<Json>, r: Result<ReactionsAddResponse, ClientError>) -> bool {
    if !is_success_status(status) {
        r == Err::<ReactionsAddResponse, ClientError>(ClientError::HttpStatus { status, body })
    } else {
        match parsed {
            None => r == Err::<ReactionsAddResponse, ClientError>(ClientError::MalformedEnvelope),
            Some(j) => reactions_add_outcome(j, r),
        }
    }
}

/// Parameters of `reactions.get`; absent ones are not sent.
#[derive(Debug)]
pub struct ReactionsGetParams {
    pub channel: Option<String>,
    pub file: Option<String>,
    pub file_comment: Option<String>,
    pub full: Option<bool>,
    pub timestamp: Option<String>,
}

/// One emoji reaction and who left it.
#[derive(Debug)]
pub struct Reaction {
    pub name: String,
    pub users: Vec<String>,
    pub count: i32,
}

/// `j` is an object whose members decode into a `Reaction`.
pub open spec fn reaction_ok(j: Json) -> bool {
    &&& j is Object
    &&& ok_str(field(j, "name"@))
    &&& ok_str_list(field(j, "users"@))
    &&& ok_i32(field(j, "count"@))
}

/// Each field of `x` is what the member of `j` of the same name holds.
pub open spec fn reaction_matches(j: Json, x: Reaction) -> bool {
    &&& is_str(field(j, "name"@), x.name)
    &&& is_str_list(field(j, "users"@), x.users)
    &&& is_i32(field(j, "count"@), x.count)
}

pub fn decode_reaction(j: Json) -> (r: Option<Reaction>)
    ensures
        r is Some <==> reaction_ok(j),
        r matches Some(x) ==> reaction_matches(j, x),
{
    let members = match j {
        Json::Object(m) => m,
        _ => {
            return None;
        },
    };
    let keys: Vec<&str> = vec!["name", "users", "count"];
    proof {
        reveal_strlit("name");
        reveal_strlit("users");
        reveal_strlit("count");
        assert("name"@.len() == 4);
        assert("users"@.len() == 5);
        assert("count"@.len() == 5);
        assert("users"@[0] == 'u');
        assert("count"@[0] == 'c');
    }
    assert(distinct_names(keys@));
    let mut slots = take_fields(members, &keys);
    let name = match take_str(take_slot(&mut slots, 0)) {
        Some(v) => v,
        None => {
            return None;
        },
    };
    let users = match take_str_list(take_slot(&mut slots, 1)) {
        Some(v) => v,
        None => {
            return None;
        },
    };
    let count = match take_i32(take_slot(&mut slots, 2)) {
        Some(v) => v,
        None => {
            return None;
        },
    };
    Some(Reaction { name, users, count })
}

impl Reaction {
    /// The reaction as a JSON object.
    pub fn to_json(&self) -> (r: Json)
        ensures
            reaction_ok(r),
            reaction_matches(r, *self),
    {
        let members: Vec<(String, Json)> = vec![
            ("name".to_owned(), Json::Str(self.name.clone())),
            ("users".to_owned(), str_list_json(&self.users)),
            ("count".to_owned(), Json::Int(self.count as i64)),
        ];
        proof {
            reveal_strlit("name");
            reveal_strlit("users");
            reveal_strlit("count");
            assert("name"@.len() == 4);
            assert("users"@.len() == 5);
            assert("count"@.len() == 5);
            assert("users"@[0] == 'u');
            assert("count"@[0] == 'c');
        }
        let ghost m = members@;
        assert(m[0].0@ == "name"@);
        assert(m[1].0@ == "users"@);
        assert(m[2].0@ == "count"@);
        assert forall|a: int, b: int| 0 <= a < b < m.len() implies m[a].0@ != m[b].0@ by {}
        assert forall|i: int| 0 <= i < m.len() implies lookup(m, #[trigger] m[i].0@) == Some(m[i].1) by {
            lemma_lookup_distinct(m, i);
        }
        Json::Object(members)
    }
}

/// The member is an array of `Reaction` records.
pub open spec fn ok_reaction_list(o: Option<Json>) -> bool {
    o matches Some(Json::Array(a)) && forall|i: int| 0 <= i < a@.len() ==> reaction_ok(#[trigger] a@[i])
}

pub open spec fn is_reaction_list(o: Option<Json>, v: Vec<Reaction>) -> bool {
    o matches Some(Json::Array(a)) && a@.len() == v@.len() && forall|i: int|
        0 <= i < a@.len() ==> reaction_matches(#[trigger] a@[i], v@[i])
}

pub fn take_reaction_list(o: Option<Json>) -> (r: Option<Vec<Reaction>>)
    ensures
        r is Some <==> ok_reaction_list(o),
        r matches Some(v) ==> is_reaction_list(o, v),
{
    let items = match o {
        Some(Json::Array(a)) => a,
        _ => {
            return None;
        },
    };
    let ghost orig = items@;
    let mut rest = items;
    let mut out: Vec<Reaction> = Vec::new();
    while rest.len() > 0
        invariant
            o matches Some(Json::Array(a)) && a@ == orig,
            out@.len() + rest@.len() == orig.len(),
            rest@ == orig.subrange(out@.len() as int, orig.len() as int),
            forall|i: int| 0 <= i < out@.len() ==> reaction_ok(orig[i]) && reaction_matches(orig[i], out@[i]),
        decreases rest@.len(),
    {
        let ghost k = out@.len() as int;
        let item = rest.remove(0);
        assert(item == orig[k]);
        assert(rest@ =~= orig.subrange(k + 1, orig.len() as int));
        match decode_reaction(item) {
            Some(x) => out.push(x),
            None => {
                assert(!reaction_ok(orig[k]));
                return None;
            },
        }
    }
    Some(out)
}

/// `Reaction` records as a JSON array, in order.
pub fn reaction_list_json(v: &Vec<Reaction>) -> (r: Json)
    ensures
        ok_reaction_list(Some(r)),
        is_reaction_list(Some(r), *v),
{
    let mut out: Vec<Json> = Vec::new();
    let mut i: usize = 0;
    while i < v.len()
        invariant
            i <= v@.len(),
            out@.len() == i,
            forall|t: int| 0 <= t < i ==> reaction_ok(#[trigger] out@[t]) && reaction_matches(out@[t], v@[t]),
        decreases v@.len() - i,
    {
        out.push(v[i].to_json());
        i = i + 1;
    }
    Json::Array(out)
}

/// Two reaction lists agree entry by entry.
pub open spec fn same_reactions(a: Vec<Reaction>, b: Vec<Reaction>) -> bool {
    a@.len() == b@.len() && forall|i: int|
        0 <= i < a@.len() ==> #[trigger] a@[i].name == b@[i].name && a@[i].users@ == b@[i].users@
            && a@[i].count == b@[i].count
}

/// Two messages agree field by field.
pub open spec fn same_message(a: MessageData, b: MessageData) -> bool {
    &&& a.item_type == b.item_type
    &&& a.text == b.text
    &&& a.user == b.user
    &&& a.ts == b.ts
    &&& a.team == b.team
    &&& same_reactions(a.reactions, b.reactions)
    &&& a.permalink == b.permalink
}

/// Two `reactions.get` results on a message agree field by field.
pub open spec fn same_get_message(a: ReactionsGetMessage, b: ReactionsGetMessage) -> bool {
    &&& a.ok == b.ok
    &&& a.item_type == b.item_type
    &&& same_message(a.message, b.message)
    &&& a.channel == b.channel
}

/// Messages that match one document agree field by field.
pub proof fn lemma_message_unique(j: Json, a: MessageData, b: MessageData)
    requires
        message_data_matches(j, a),
        message_data_matches(j, b),
    ensures
        same_message(a, b),
{
    if let Some(Json::Array(c)) = field(j, "reactions"@) {
        assert forall|i: int| 0 <= i < a.reactions@.len() implies #[trigger] a.reactions@[i].name == b.reactions@[i].name
            && a.reactions@[i].users@ == b.reactions@[i].users@ && a.reactions@[i].count == b.reactions@[i].count by {
            assert(reaction_matches(c@[i], a.reactions@[i]));
            assert(reaction_matches(c@[i], b.reactions@[i]));
            if let Some(Json::Array(n)) = field(c@[i], "users"@) {
                assert forall|k: int| 0 <= k < n@.len() implies a.reactions@[i].users@[k] == b.reactions@[i].users@[k] by {
                    assert(n@[k] == Json::Str(a.reactions@[i].users@[k]));
                    assert(n@[k] == Json::Str(b.reactions@[i].users@[k]));
                }
            }
            assert(a.reactions@[i].users@ =~= b.reactions@[i].users@);
        }
    }
}


/// A message that carries reactions.
#[derive(Debug)]
pub struct MessageData {
    pub item_type: String,
    pub text: String,
    pub user: String,
    pub ts: String,
    pub team: Option<String>,
    pub reactions: Vec<Reaction>,
    pub permalink: String,
}

/// `j` is an object whose members decode into a `MessageData`.
pub open spec fn message_data_ok(j: Json) -> bool {
    &&& j is Object
    &&& ok_str(field(j, "type"@))
    &&& ok_str(field(j, "text"@))
    &&& ok_str(field(j, "user"@))
    &&& ok_str(field(j, "ts"@))
    &&& ok_opt_str(field(j, "team"@))
    &&& ok_reaction_list(field(j, "reactions"@))
    &&& ok_str(field(j, "permalink"@))
}

/// Each field of `x` is what the member of `j` of the same name holds.
pub open spec fn message_data_matches(j: Json, x: MessageData) -> bool {
    &&& is_str(field(j, "type"@), x.item_type)
    &&& is_str(field(j, "text"@), x.text)
    &&& is_str(field(j, "user"@), x.user)
    &&& is_str(field(j, "ts"@), x.ts)
    &&& is_opt_str(field(j, "team"@), x.team)
    &&& is_reaction_list(field(j, "reactions"@), x.reactions)
    &&& is_str(field(j, "permalink"@), x.permalink)
}

pub fn decode_message_data(j: Json) -> (r: Option<MessageData>)
    ensures
        r is Some <==> message_data_ok(j),
        r matches Some(x) ==> message_data_matches(j, x),
{
    let members = match j {
        Json::Object(m) => m,
        _ => {
            return None;
        },
    };
    let keys: Vec<&str> = vec!["type", "text", "user", "ts", "team", "reactions", "permalink"];
    proof {
        reveal_strlit("type");
        reveal_strlit("text");
        reveal_strlit("user");
        reveal_strlit("ts");
        reveal_strlit("team");
        reveal_strlit("reactions");
        reveal_strlit("permalink");
        assert("type"@.len() == 4);
        assert("text"@.len() == 4);
        assert("user"@.len() == 4);
        assert("ts"@.len() == 2);
        assert("team"@.len() == 4);
        assert("reactions"@.len() == 9);
        assert("permalink"@.len() == 9);
        assert("type"@[1] == 'y');
        assert("text"@[1] == 'e');
        assert("type"@[0] == 't');
        assert("user"@[0] == 'u');
        assert("team"@[1] == 'e');
        assert("text"@[0] == 't');
        assert("text"@[2] == 'x');
        assert("team"@[2] == 'a');
        assert("team"@[0] == 't');
        assert("reactions"@[0] == 'r');
        assert("permalink"@[0] == 'p');
    }
    assert(distinct_names(keys@));
    let mut slots = take_fields(members, &keys);
    let item_type = match take_str(take_slot(&mut slots, 0)) {
        Some(v) => v,
        None => {
            return None;
        },
    };
    let text = match take_str(take_slot(&mut slots, 1)) {
        Some(v) => v,
        None => {
            return None;
        },
    };
    let user = match take_str(take_slot(&mut slots, 2)) {
        Some(v) => v,
        None => {
            return None;
        },
    };
    let ts = match take_str(take_slot(&mut slots, 3)) {
        Some(v) => v,
        None => {
            return None;
        },
    };
    let team = match take_opt_str(take_slot(&mut slots, 4)) {
        Some(v) => v,
        None => {
            return None;
        },
    };
    let reactions = match take_reaction_list(take_slot(&mut slots, 5)) {
        Some(v) => v,
        None => {
            return None;
        },
    };
    let permalink = match take_str(take_slot(&mut slots, 6)) {
        Some(v) => v,
        None => {
            return None;
        },
    };
    Some(MessageData { item_type, text, user, ts, team, reactions, permalink })
}

/// Decodes a member that must hold a `MessageData`.
pub fn decode_message_data_member(o: Option<Json>) -> (r: Option<MessageData>)
    ensures
        r is Some <==> (o matches Some(v) && message_data_ok(v)),
        r matches Some(x) ==> (o matches Some(v) && message_data_matches(v, x)),
{
    match o {
        Some(v) => decode_message_data(v),
        None => None,
    }
}

impl MessageData {
    /// The message as a JSON object.
    pub fn to_json(&self) -> (r: Json)
        ensures
            message_data_ok(r),
            message_data_matches(r, *self),
    {
        let members: Vec<(String, Json)> = vec![
            ("type".to_owned(), Json::Str(self.item_type.clone())),
            ("text".to_owned(), Json::Str(self.text.clone())),
            ("user".to_owned(), Json::Str(self.user.clone())),
            ("ts".to_owned(), Json::Str(self.ts.clone())),
            ("team".to_owned(), opt_str_json(&self.team)),
            ("reactions".to_owned(), reaction_list_json(&self.reactions)),
            ("permalink".to_owned(), Json::Str(self.permalink.clone())),
        ];
        proof {
            reveal_strlit("type");
            reveal_strlit("text");
            reveal_strlit("user");
            reveal_strlit("ts");
            reveal_strlit("team");
            reveal_strlit("reactions");
            reveal_strlit("permalink");
            assert("type"@.len() == 4);
            assert("text"@.len() == 4);
            assert("user"@.len() == 4);
            assert("ts"@.len() == 2);
            assert("team"@.len() == 4);
            assert("reactions"@.len() == 9);
            assert("permalink"@.len() == 9);
            assert("type"@[1] == 'y');
            assert("text"@[1] == 'e');
            assert("type"@[0] == 't');
            assert("user"@[0] == 'u');
            assert("team"@[1] == 'e');
            assert("text"@[0] == 't');
            assert("text"@[2] == 'x');
            assert("team"@[2] == 'a');
            assert("team"@[0] == 't');
            assert("reactions"@[0] == 'r');
            assert("permalink"@[0] == 'p');
        }
        let ghost m = members@;
        assert(m[0].0@ == "type"@);
        assert(m[1].0@ == "text"@);
        assert(m[2].0@ == "user"@);
        assert(m[3].0@ == "ts"@);
        assert(m[4].0@ == "team"@);
        assert(m[5].0@ == "reactions"@);
        assert(m[6].0@ == "permalink"@);
        assert forall|a: int, b: int| 0 <= a < b < m.len() implies m[a].0@ != m[b].0@ by {}
        assert forall|i: int| 0 <= i < m.len() implies lookup(m, #[trigger] m[i].0@) == Some(m[i].1) by {
            lemma_lookup_distinct(m, i);
        }
        Json::Object(members)
    }
}

/// Metadata of a shared file.
#[derive(Debug)]
pub struct FileData {
    pub id: String,
    pub created: i32,
    pub timestamp: i32,
    pub name: String,
    pub title: String,
    pub mimetype: String,
    pub filetype: String,
    pub pretty_type: String,
    pub user: String,
    pub user_team: String,
    pub editable: bool,
    pub size: i32,
    pub mode: String,
    pub is_external: bool,
    pub external_type: String,
    pub is_public: bool,
    pub public_url_shared: bool,
    pub display_as_bot: bool,
    pub username: String,
    pub url_private: String,
    pub url_private_download: String,
    pub permalink: String,
    pub permalink_public: String,
    pub edit_link: String,
    pub preview: String,
    pub preview_highlight: String,
    pub lines: i32,
    pub lines_more: i32,
    pub preview_is_truncated: bool,
    /// Number of comments on the file.
    pub comments_count: i32,
    pub is_starred: bool,
    /// Where the file is shared, as the server describes it; names are distinct.
    pub shares: Vec<(String, Json)>,
    pub channels: Vec<String>,
    pub groups: Vec<String>,
    pub ims: Vec<String>,
    pub has_more_shares: bool,
    pub has_rich_preview: bool,
    pub file_access: String,
}

/// `j` is an object whose members decode into a `FileData`.
pub open spec fn file_data_ok(j: Json) -> bool {
    &&& j is Object
    &&& ok_str(field(j, "id"@))
    &&& ok_i32(field(j, "created"@))
    &&& ok_i32(field(j, "timestamp"@))
    &&& ok_str(field(j, "name"@))
    &&& ok_str(field(j, "title"@))
    &&& ok_str(field(j, "mimetype"@))
    &&& ok_str(field(j, "filetype"@))
    &&& ok_str(field(j, "pretty_type"@))
    &&& ok_str(field(j, "user"@))
    &&& ok_str(field(j, "user_team"@))
    &&& ok_bool(field(j, "editable"@))
    &&& ok_i32(field(j, "size"@))
    &&& ok_str(field(j, "mode"@))
    &&& ok_bool(field(j, "is_external"@))
    &&& ok_str(field(j, "external_type"@))
    &&& ok_bool(field(j, "is_public"@))
    &&& ok_bool(field(j, "public_url_shared"@))
    &&& ok_bool(field(j, "display_as_bot"@))
    &&& ok_str(field(j, "username"@))
    &&& ok_str(field(j, "url_private"@))
    &&& ok_str(field(j, "url_private_download"@))
    &&& ok_str(field(j, "permalink"@))
    &&& ok_str(field(j, "permalink_public"@))
    &&& ok_str(field(j, "edit_link"@))
    &&& ok_str(field(j, "preview"@))
    &&& ok_str(field(j, "preview_highlight"@))
    &&& ok_i32(field(j, "lines"@))
    &&& ok_i32(field(j, "lines_more"@))
    &&& ok_bool(field(j, "preview_is_truncated"@))
    &&& ok_i32(field(j, "comments_count"@))
    &&& ok_bool(field(j, "is_starred"@))
    &&& ok_members(field(j, "shares"@))
    &&& ok_str_list(field(j, "channels"@))
    &&& ok_str_list(field(j, "groups"@))
    &&& ok_str_list(field(j, "ims"@))
    &&& ok_bool(field(j, "has_more_shares"@))
    &&& ok_bool(field(j, "has_rich_preview"@))
    &&& ok_str(field(j, "file_access"@))
}

/// Each field of `x` is what the member of `j` of the same name holds.
pub open spec fn file_data_matches(j: Json, x: FileData) -> bool {
    &&& is_str(field(j, "id"@), x.id)
    &&& is_i32(field(j, "created"@), x.created)
    &&& is_i32(field(j, "timestamp"@), x.timestamp)
    &&& is_str(field(j, "name"@), x.name)
    &&& is_str(field(j, "title"@), x.title)
    &&& is_str(field(j, "mimetype"@), x.mimetype)
    &&& is_str(field(j, "filetype"@), x.filetype)
    &&& is_str(field(j, "pretty_type"@), x.pretty_type)
    &&& is_str(field(j, "user"@), x.user)
    &&& is_str(field(j, "user_team"@), x.user_team)
    &&& is_bool(field(j, "editable"@), x.editable)
    &&& is_i32(field(j, "size"@), x.size)
    &&& is_str(field(j, "mode"@), x.mode)
    &&& is_bool(field(j, "is_external"@), x.is_external)
    &&& is_str(field(j, "external_type"@), x.external_type)
    &&& is_bool(field(j, "is_public"@), x.is_public)
    &&& is_bool(field(j, "public_url_shared"@), x.public_url_shared)
    &&& is_bool(field(j, "display_as_bot"@), x.display_as_bot)
    &&& is_str(field(j, "username"@), x.username)
    &&& is_str(field(j, "url_private"@), x.url_private)
    &&& is_str(field(j, "url_private_download"@), x.url_private_download)
    &&& is_str(field(j, "permalink"@), x.permalink)
    &&& is_str(field(j, "permalink_public"@), x.permalink_public)
    &&& is_str(field(j, "edit_link"@), x.edit_link)
    &&& is_str(field(j, "preview"@), x.preview)
    &&& is_str(field(j, "preview_highlight"@), x.preview_highlight)
    &&& is_i32(field(j, "lines"@), x.lines)
    &&& is_i32(field(j, "lines_more"@), x.lines_more)
    &&& is_bool(field(j, "preview_is_truncated"@), x.preview_is_truncated)
    &&& is_i32(field(j, "comments_count"@), x.comments_count)
    &&& is_bool(field(j, "is_starred"@), x.is_starred)
    &&& is_members(field(j, "shares"@), x.shares)
    &&& is_str_list(field(j, "channels"@), x.channels)
    &&& is_str_list(field(j, "groups"@), x.groups)
    &&& is_str_list(field(j, "ims"@), x.ims)
    &&& is_bool(field(j, "has_more_shares"@), x.has_more_shares)
    &&& is_bool(field(j, "has_rich_preview"@), x.has_rich_preview)
    &&& is_str(field(j, "file_access"@), x.file_access)
}

pub fn decode_file_data(j: Json) -> (r: Option<FileData>)
    ensures
        r is Some <==> file_data_ok(j),
        r matches Some(x) ==> file_data_matches(j, x),
{
    let members = match j {
        Json::Object(m) => m,
        _ => {
            return None;
        },
    };
    let keys: Vec<&str> = vec!["id", "created", "timestamp", "name", "title", "mimetype", "filetype", "pretty_type", "user", "user_team", "editable", "size", "mode", "is_external", "external_type", "is_public", "public_url_shared", "display_as_bot", "username", "url_private", "url_private_download", "permalink", "permalink_public", "edit_link", "preview", "preview_highlight", "lines", "lines_more", "preview_is_truncated", "comments_count", "is_starred", "shares", "channels", "groups", "ims", "has_more_shares", "has_rich_preview", "file_access"];
    proof {
        reveal_strlit("id");
        reveal_strlit("created");
        reveal_strlit("timestamp");
        reveal_strlit("name");
        reveal_strlit("title");
        reveal_strlit("mimetype");
        reveal_strlit("filetype");
        reveal_strlit("pretty_type");
        reveal_strlit("user");
        reveal_strlit("user_team");
        reveal_strlit("editable");
        reveal_strlit("size");
        reveal_strlit("mode");
        reveal_strlit("is_external");
        reveal_strlit("external_type");
        reveal_strlit("is_public");
        reveal_strlit("public_url_shared");
        reveal_strlit("display_as_bot");
        reveal_strlit("username");
        reveal_strlit("url_private");
        reveal_strlit("url_private_download");
        reveal_strlit("permalink");
        reveal_strlit("permalink_public");
        reveal_strlit("edit_link");
        reveal_strlit("preview");
        reveal_strlit("preview_highlight");
        reveal_strlit("lines");
        reveal_strlit("lines_more");
        reveal_strlit("preview_is_truncated");
        reveal_strlit("comments_count");
        reveal_strlit("is_starred");
        reveal_strlit("shares");
        reveal_strlit("channels");
        reveal_strlit("groups");
        reveal_strlit("ims");
        reveal_strlit("has_more_shares");
        reveal_strlit("has_rich_preview");
        reveal_strlit("file_access");
        assert("id"@.len() == 2);
        assert("created"@.len() == 7);
        assert("timestamp"@.len() == 9);
        assert("name"@.len() == 4);
        assert("title"@.len() == 5);
        assert("mimetype"@.len() == 8);
        assert("filetype"@.len() == 8);
        assert("pretty_type"@.len() == 11);
        assert("user"@.len() == 4);
        assert("user_team"@.len() == 9);
        assert("editable"@.len() == 8);
        assert("size"@.len() == 4);
        assert("mode"@.len() == 4);
        assert("is_external"@.len() == 11);
        assert("external_type"@.len() == 13);
        assert("is_public"@.len() == 9);
        assert("public_url_shared"@.len() == 17);
        assert("display_as_bot"@.len() == 14);
        assert("username"@.len() == 8);
        assert("url_private"@.len() == 11);
        assert("url_private_download"@.len() == 20);
        assert("permalink"@.len() == 9);
        assert("permalink_public"@.len() == 16);
        assert("edit_link"@.len() == 9);
        assert("preview"@.len() == 7);
        assert("preview_highlight"@.len() == 17);
        assert("lines"@.len() == 5);
        assert("lines_more"@.len() == 10);
        assert("preview_is_truncated"@.len() == 20);
        assert("comments_count"@.len() == 14);
        assert("is_starred"@.len() == 10);
        assert("shares"@.len() == 6);
        assert("channels"@.len() == 8);
        assert("groups"@.len() == 6);
        assert("ims"@.len() == 3);
        assert("has_more_shares"@.len() == 15);
        assert("has_rich_preview"@.len() == 16);
        assert("file_access"@.len() == 11);
        assert("created"@[0] == 'c');
        assert("preview"@[0] == 'p');
        assert("timestamp"@[0] == 't');
        assert("user_team"@[0] == 'u');
        assert("is_public"@[0] == 'i');
        assert("permalink"@[0] == 'p');
        assert("edit_link"@[0] == 'e');
        assert("name"@[0] == 'n');
        assert("user"@[0] == 'u');
        assert("size"@[0] == 's');
        assert("mode"@[0] == 'm');
        assert("title"@[0] == 't');
        assert("lines"@[0] == 'l');
        assert("mimetype"@[0] == 'm');
        assert("filetype"@[0] == 'f');
        assert("editable"@[0] == 'e');
        assert("username"@[0] == 'u');
        assert("channels"@[0] == 'c');
        assert("pretty_type"@[0] == 'p');
        assert("is_external"@[0] == 'i');
        assert("url_private"@[0] == 'u');
        assert("file_access"@[0] == 'f');
        assert("public_url_shared"@[1] == 'u');
        assert("preview_highlight"@[1] == 'r');
        assert("display_as_bot"@[0] == 'd');
        assert("comments_count"@[0] == 'c');
        assert("url_private_download"@[0] == 'u');
        assert("preview_is_truncated"@[0] == 'p');
        assert("permalink_public"@[0] == 'p');
        assert("has_rich_preview"@[0] == 'h');
        assert("lines_more"@[0] == 'l');
        assert("is_starred"@[0] == 'i');
        assert("shares"@[0] == 's');
        assert("groups"@[0] == 'g');
    }
    assert(distinct_names(keys@));
    let mut slots = take_fields(members, &keys);
    let id = match take_str(take_slot(&mut slots, 0)) {
        Some(v) => v,
        None => {
            return None;
        },
    };
    let created = match take_i32(take_slot(&mut slots, 1)) {
        Some(v) => v,
        None => {
            return None;
        },
    };
    let timestamp = match take_i32(take_slot(&mut slots, 2)) {
        Some(v) => v,
        None => {
            return None;
        },
    };
    let name = match take_str(take_slot(&mut slots, 3)) {
        Some(v) => v,
        None => {
            return None;
        },
    };
    let title = match take_str(take_slot(&mut slots, 4)) {
        Some(v) => v,
        None => {
            return None;
        },
    };
    let mimetype = match take_str(take_slot(&mut slots, 5)) {
        Some(v) => v,
        None => {
            return None;
        },
    };
    let filetype = match take_str(take_slot(&mut slots, 6)) {
        Some(v) => v,
        None => {
            return None;
        },
    };
    let pretty_type = match take_str(take_slot(&mut slots, 7)) {
        Some(v) => v,
        None => {
            return None;
        },
    };
    let user = match take_str(take_slot(&mut slots, 8)) {
        Some(v) => v,
        None => {
            return None;
        },
    };
    let user_team = match take_str(take_slot(&mut slots, 9)) {
        Some(v) => v,
        None => {
            return None;
        },
    };
    let editable = match take_bool(take_slot(&mut slots, 10)) {
        Some(v) => v,
        None => {
            return None;
        },
    };
    let size = match take_i32(take_slot(&mut slots, 11)) {
        Some(v) => v,
        None => {
            return None;
        },
    };
    let mode = match take_str(take_slot(&mut slots, 12)) {
        Some(v) => v,
        None => {
            return None;
        },
    };
    let is_external = match take_bool(take_slot(&mut slots, 13)) {
        Some(v) => v,
        None => {
            return None;
        },
    };
    let external_type = match take_str(take_slot(&mut slots, 14)) {
        Some(v) => v,
        None => {
            return None;
        },
    };
    let is_public = match take_bool(take_slot(&mut slots, 15)) {
        Some(v) => v,
        None => {
            return None;
        },
    };
    let public_url_shared = match take_bool(take_slot(&mut slots, 16)) {
        Some(v) => v,
        None => {
            return None;
        },
    };
    let display_as_bot = match take_bool(take_slot(&mut slots, 17)) {
        Some(v) => v,
        None => {
            return None;
        },
    };
    let username = match take_str(take_slot(&mut slots, 18)) {
        Some(v) => v,
        None => {
            return None;
        },
    };
    let url_private = match take_str(take_slot(&mut slots, 19)) {
        Some(v) => v,
        None => {
            return None;
        },
    };
    let url_private_download = match take_str(take_slot(&mut slots, 20)) {
        Some(v) => v,
        None => {
            return None;
        },
    };
    let permalink = match take_str(take_slot(&mut slots, 21)) {
        Some(v) => v,
        None => {
            return None;
        },
    };
    let permalink_public = match take_str(take_slot(&mut slots, 22)) {
        Some(v) => v,
        None => {
            return None;
        },
    };
    let edit_link = match take_str(take_slot(&mut slots, 23)) {
        Some(v) => v,
        None => {
            return None;
        },
    };
    let preview = match take_str(take_slot(&mut slots, 24)) {
        Some(v) => v,
        None => {
            return None;
        },
    };
    let preview_highlight = match take_str(take_slot(&mut slots, 25)) {
        Some(v) => v,
        None => {
            return None;
        },
    };
    let lines = match take_i32(take_slot(&mut slots, 26)) {
        Some(v) => v,
        None => {
            return None;
        },
    };
    let lines_more = match take_i32(take_slot(&mut slots, 27)) {
        Some(v) => v,
        None => {
            return None;
        },
    };
    let preview_is_truncated = match take_bool(take_slot(&mut slots, 28)) {
        Some(v) => v,
        None => {
            return None;
        },
    };
    let comments_count = match take_i32(take_slot(&mut slots, 29)) {
        Some(v) => v,
        None => {
            return None;
        },
    };
    let is_starred = match take_bool(take_slot(&mut slots, 30)) {
        Some(v) => v,
        None => {
            return None;
        },
    };
    let shares = match take_members(take_slot(&mut slots, 31)) {
        Some(v) => v,
        None => {
            return None;
        },
    };
    let channels = match take_str_list(take_slot(&mut slots, 32)) {
        Some(v) => v,
        None => {
            return None;
        },
    };
    let groups = match take_str_list(take_slot(&mut slots, 33)) {
        Some(v) => v,
        None => {
            return None;
        },
    };
    let ims = match take_str_list(take_slot(&mut slots, 34)) {
        Some(v) => v,
        None => {
            return None;
        },
    };
    let has_more_shares = match take_bool(take_slot(&mut slots, 35)) {
        Some(v) => v,
        None => {
            return None;
        },
    };
    let has_rich_preview = match take_bool(take_slot(&mut slots, 36)) {
        Some(v) => v,
        None => {
            return None;
        },
    };
    let file_access = match take_str(take_slot(&mut slots, 37)) {
        Some(v) => v,
        None => {
            return None;
        },
    };
    Some(FileData { id, created, timestamp, name, title, mimetype, filetype, pretty_type, user, user_team, editable, size, mode, is_external, external_type, is_public, public_url_shared, display_as_bot, username, url_private, url_private_download, permalink, permalink_public, edit_link, preview, preview_highlight, lines, lines_more, preview_is_truncated, comments_count, is_starred, shares, channels, groups, ims, has_more_shares, has_rich_preview, file_access })
}

/// Decodes a member that must hold a `FileData`.
pub fn decode_file_data_member(o: Option<Json>) -> (r: Option<FileData>)
    ensures
        r is Some <==> (o matches Some(v) && file_data_ok(v)),
        r matches Some(x) ==> (o matches Some(v) && file_data_matches(v, x)),
{
    match o {
        Some(v) => decode_file_data(v),
        None => None,
    }
}

/// Two file records agree field by field.
pub open spec fn same_file(a: FileData, b: FileData) -> bool {
    &&& a.id == b.id
    &&& a.created == b.created
    &&& a.timestamp == b.timestamp
    &&& a.name == b.name
    &&& a.title == b.title
    &&& a.mimetype == b.mimetype
    &&& a.filetype == b.filetype
    &&& a.pretty_type == b.pretty_type
    &&& a.user == b.user
    &&& a.user_team == b.user_team
    &&& a.editable == b.editable
    &&& a.size == b.size
    &&& a.mode == b.mode
    &&& a.is_external == b.is_external
    &&& a.external_type == b.external_type
    &&& a.is_public == b.is_public
    &&& a.public_url_shared == b.public_url_shared
    &&& a.display_as_bot == b.display_as_bot
    &&& a.username == b.username
    &&& a.url_private == b.url_private
    &&& a.url_private_download == b.url_private_download
    &&& a.permalink == b.permalink
    &&& a.permalink_public == b.permalink_public
    &&& a.edit_link == b.edit_link
    &&& a.preview == b.preview
    &&& a.preview_highlight == b.preview_highlight
    &&& a.lines == b.lines
    &&& a.lines_more == b.lines_more
    &&& a.preview_is_truncated == b.preview_is_truncated
    &&& a.comments_count == b.comments_count
    &&& a.is_starred == b.is_starred
    &&& a.shares == b.shares
    &&& a.channels@ == b.channels@
    &&& a.groups@ == b.groups@
    &&& a.ims@ == b.ims@
    &&& a.has_more_shares == b.has_more_shares
    &&& a.has_rich_preview == b.has_rich_preview
    &&& a.file_access == b.file_access
}

/// File records that match one document agree field by field.
pub proof fn lemma_file_unique(j: Json, a: FileData, b: FileData)
    requires
        file_data_matches(j, a),
        file_data_matches(j, b),
    ensures
        same_file(a, b),
{
    if let Some(Json::Array(n)) = field(j, "channels"@) {
        assert forall|k: int| 0 <= k < n@.len() implies a.channels@[k] == b.channels@[k] by {
            assert(n@[k] == Json::Str(a.channels@[k]));
            assert(n@[k] == Json::Str(b.channels@[k]));
        }
    }
    assert(a.channels@ =~= b.channels@);
    if let Some(Json::Array(n)) = field(j, "groups"@) {
        assert forall|k: int| 0 <= k < n@.len() implies a.groups@[k] == b.groups@[k] by {
            assert(n@[k] == Json::Str(a.groups@[k]));
            assert(n@[k] == Json::Str(b.groups@[k]));
        }
    }
    assert(a.groups@ =~= b.groups@);
    if let Some(Json::Array(n)) = field(j, "ims"@) {
        assert forall|k: int| 0 <= k < n@.len() implies a.ims@[k] == b.ims@[k] by {
            assert(n@[k] == Json::Str(a.ims@[k]));
            assert(n@[k] == Json::Str(b.ims@[k]));
        }
    }
    assert(a.ims@ =~= b.ims@);
}

impl FileData {
    /// The file record as a JSON object.
    pub fn into_json(self) -> (r: Json)
        requires
            member_names_distinct(self.shares@),
        ensures
            file_data_ok(r),
            file_data_matches(r, self),
    {
        let ghost old_self = self;
        let members: Vec<(String, Json)> = vec![
            ("id".to_owned(), Json::Str(self.id)),
            ("created".to_owned(), Json::Int(self.created as i64)),
            ("timestamp".to_owned(), Json::Int(self.timestamp as i64)),
            ("name".to_owned(), Json::Str(self.name)),
            ("title".to_owned(), Json::Str(self.title)),
            ("mimetype".to_owned(), Json::Str(self.mimetype)),
            ("filetype".to_owned(), Json::Str(self.filetype)),
            ("pretty_type".to_owned(), Json::Str(self.pretty_type)),
            ("user".to_owned(), Json::Str(self.user)),
            ("user_team".to_owned(), Json::Str(self.user_team)),
            ("editable".to_owned(), Json::Bool(self.editable)),
            ("size".to_owned(), Json::Int(self.size as i64)),
            ("mode".to_owned(), Json::Str(self.mode)),
            ("is_external".to_owned(), Json::Bool(self.is_external)),
            ("external_type".to_owned(), Json::Str(self.external_type)),
            ("is_public".to_owned(), Json::Bool(self.is_public)),
            ("public_url_shared".to_owned(), Json::Bool(self.public_url_shared)),
            ("display_as_bot".to_owned(), Json::Bool(self.display_as_bot)),
            ("username".to_owned(), Json::Str(self.username)),
            ("url_private".to_owned(), Json::Str(self.url_private)),
            ("url_private_download".to_owned(), Json::Str(self.url_private_download)),
            ("permalink".to_owned(), Json::Str(self.permalink)),
            ("permalink_public".to_owned(), Json::Str(self.permalink_public)),
            ("edit_link".to_owned(), Json::Str(self.edit_link)),
            ("preview".to_owned(), Json::Str(self.preview)),
            ("preview_highlight".to_owned(), Json::Str(self.preview_highlight)),
            ("lines".to_owned(), Json::Int(self.lines as i64)),
            ("lines_more".to_owned(), Json::Int(self.lines_more as i64)),
            ("preview_is_truncated".to_owned(), Json::Bool(self.preview_is_truncated)),
            ("comments_count".to_owned(), Json::Int(self.comments_count as i64)),
            ("is_starred".to_owned(), Json::Bool(self.is_starred)),
            ("shares".to_owned(), Json::Object(self.shares)),
            ("channels".to_owned(), str_list_json(&self.channels)),
            ("groups".to_owned(), str_list_json(&self.groups)),
            ("ims".to_owned(), str_list_json(&self.ims)),
            ("has_more_shares".to_owned(), Json::Bool(self.has_more_shares)),
            ("has_rich_preview".to_owned(), Json::Bool(self.has_rich_preview)),
            ("file_access".to_owned(), Json::Str(self.file_access)),
        ];
        proof {
            reveal_strlit("id");
            reveal_strlit("created");
            reveal_strlit("timestamp");
            reveal_strlit("name");
            reveal_strlit("title");
            reveal_strlit("mimetype");
            reveal_strlit("filetype");
            reveal_strlit("pretty_type");
            reveal_strlit("user");
            reveal_strlit("user_team");
            reveal_strlit("editable");
            reveal_strlit("size");
            reveal_strlit("mode");
            reveal_strlit("is_external");
            reveal_strlit("external_type");
            reveal_strlit("is_public");
            reveal_strlit("public_url_shared");
            reveal_strlit("display_as_bot");
            reveal_strlit("username");
            reveal_strlit("url_private");
            reveal_strlit("url_private_download");
            reveal_strlit("permalink");
            reveal_strlit("permalink_public");
            reveal_strlit("edit_link");
            reveal_strlit("preview");
            reveal_strlit("preview_highlight");
            reveal_strlit("lines");
            reveal_strlit("lines_more");
            reveal_strlit("preview_is_truncated");
            reveal_strlit("comments_count");
            reveal_strlit("is_starred");
            reveal_strlit("shares");
            reveal_strlit("channels");
            reveal_strlit("groups");
            reveal_strlit("ims");
            reveal_strlit("has_more_shares");
            reveal_strlit("has_rich_preview");
            reveal_strlit("file_access");
            assert("id"@.len() == 2);
            assert("created"@.len() == 7);
            assert("timestamp"@.len() == 9);
            assert("name"@.len() == 4);
            assert("title"@.len() == 5);
            assert("mimetype"@.len() == 8);
            assert("filetype"@.len() == 8);
            assert("pretty_type"@.len() == 11);
            assert("user"@.len() == 4);
            assert("user_team"@.len() == 9);
            assert("editable"@.len() == 8);
            assert("size"@.len() == 4);
            assert("mode"@.len() == 4);
            assert("is_external"@.len() == 11);
            assert("external_type"@.len() == 13);
            assert("is_public"@.len() == 9);
            assert("public_url_shared"@.len() == 17);
            assert("display_as_bot"@.len() == 14);
            assert("username"@.len() == 8);
            assert("url_private"@.len() == 11);
            assert("url_private_download"@.len() == 20);
            assert("permalink"@.len() == 9);
            assert("permalink_public"@.len() == 16);
            assert("edit_link"@.len() == 9);
            assert("preview"@.len() == 7);
            assert("preview_highlight"@.len() == 17);
            assert("lines"@.len() == 5);
            assert("lines_more"@.len() == 10);
            assert("preview_is_truncated"@.len() == 20);
            assert("comments_count"@.len() == 14);
            assert("is_starred"@.len() == 10);
            assert("shares"@.len() == 6);
            assert("channels"@.len() == 8);
            assert("groups"@.len() == 6);
            assert("ims"@.len() == 3);
            assert("has_more_shares"@.len() == 15);
            assert("has_rich_preview"@.len() == 16);
            assert("file_access"@.len() == 11);
            assert("created"@[0] == 'c');
            assert("preview"@[0] == 'p');
            assert("timestamp"@[0] == 't');
            assert("user_team"@[0] == 'u');
            assert("is_public"@[0] == 'i');
            assert("permalink"@[0] == 'p');
            assert("edit_link"@[0] == 'e');
            assert("name"@[0] == 'n');
            assert("user"@[0] == 'u');
            assert("size"@[0] == 's');
            assert("mode"@[0] == 'm');
            assert("title"@[0] == 't');
            assert("lines"@[0] == 'l');
            assert("mimetype"@[0] == 'm');
            assert("filetype"@[0] == 'f');
            assert("editable"@[0] == 'e');
            assert("username"@[0] == 'u');
            assert("channels"@[0] == 'c');
            assert("pretty_type"@[0] == 'p');
            assert("is_external"@[0] == 'i');
            assert("url_private"@[0] == 'u');
            assert("file_access"@[0] == 'f');
            assert("public_url_shared"@[1] == 'u');
            assert("preview_highlight"@[1] == 'r');
            assert("display_as_bot"@[0] == 'd');
            assert("comments_count"@[0] == 'c');
            assert("url_private_download"@[0] == 'u');
            assert("preview_is_truncated"@[0] == 'p');
            assert("permalink_public"@[0] == 'p');
            assert("has_rich_preview"@[0] == 'h');
            assert("lines_more"@[0] == 'l');
            assert("is_starred"@[0] == 'i');
            assert("shares"@[0] == 's');
            assert("groups"@[0] == 'g');
        }
        let ghost m = members@;
        assert(m[0].0@ == "id"@);
        assert(m[1].0@ == "created"@);
        assert(m[2].0@ == "timestamp"@);
        assert(m[3].0@ == "name"@);
        assert(m[4].0@ == "title"@);
        assert(m[5].0@ == "mimetype"@);
        assert(m[6].0@ == "filetype"@);
        assert(m[7].0@ == "pretty_type"@);
        assert(m[8].0@ == "user"@);
        assert(m[9].0@ == "user_team"@);
        assert(m[10].0@ == "editable"@);
        assert(m[11].0@ == "size"@);
        assert(m[12].0@ == "mode"@);
        assert(m[13].0@ == "is_external"@);
        assert(m[14].0@ == "external_type"@);
        assert(m[15].0@ == "is_public"@);
        assert(m[16].0@ == "public_url_shared"@);
        assert(m[17].0@ == "display_as_bot"@);
        assert(m[18].0@ == "username"@);
        assert(m[19].0@ == "url_private"@);
        assert(m[20].0@ == "url_private_download"@);
        assert(m[21].0@ == "permalink"@);
        assert(m[22].0@ == "permalink_public"@);
        assert(m[23].0@ == "edit_link"@);
        assert(m[24].0@ == "preview"@);
        assert(m[25].0@ == "preview_highlight"@);
        assert(m[26].0@ == "lines"@);
        assert(m[27].0@ == "lines_more"@);
        assert(m[28].0@ == "preview_is_truncated"@);
        assert(m[29].0@ == "comments_count"@);
        assert(m[30].0@ == "is_starred"@);
        assert(m[31].0@ == "shares"@);
        assert(m[32].0@ == "channels"@);
        assert(m[33].0@ == "groups"@);
        assert(m[34].0@ == "ims"@);
        assert(m[35].0@ == "has_more_shares"@);
        assert(m[36].0@ == "has_rich_preview"@);
        assert(m[37].0@ == "file_access"@);
        assert forall|a: int, b: int| 0 <= a < b < m.len() implies m[a].0@ != m[b].0@ by {}
        assert forall|i: int| 0 <= i < m.len() implies lookup(m, #[trigger] m[i].0@) == Some(m[i].1) by {
            lemma_lookup_distinct(m, i);
        }
        Json::Object(members)
    }
}

/// `reactions.get` on a message.
#[derive(Debug)]
pub struct ReactionsGetMessage {
    pub ok: bool,
    pub item_type: String,
    pub message: MessageData,
    pub channel: String,
}

/// `j` is an object whose members decode into a `ReactionsGetMessage`.
pub open spec fn reactions_get_message_ok(j: Json) -> bool {
    &&& j is Object
    &&& ok_bool(field(j, "ok"@))
    &&& ok_str(field(j, "type"@))
    &&& (field(j, "message"@) matches Some(v) && message_data_ok(v))
    &&& ok_str(field(j, "channel"@))
}

/// Each field of `x` is what the member of `j` of the same name holds.
pub open spec fn reactions_get_message_matches(j: Json, x: ReactionsGetMessage) -> bool {
    &&& is_bool(field(j, "ok"@), x.ok)
    &&& is_str(field(j, "type"@), x.item_type)
    &&& (field(j, "message"@) matches Some(v) && message_data_matches(v, x.message))
    &&& is_str(field(j, "channel"@), x.channel)
}

/// The name of the first member of `j` that does not decode.
pub open spec fn reactions_get_message_first_bad(j: Json) -> Seq<char> {
    if !ok_bool(field(j, "ok"@)) {
        "ok"@
    } else if !ok_str(field(j, "type"@)) {
        "type"@
    } else if !(field(j, "message"@) matches Some(v) && message_data_ok(v)) {
        "message"@
    } else if !ok_str(field(j, "channel"@)) {
        "channel"@
    } else {
        Seq::empty()
    }
}

pub fn decode_reactions_get_message(j: Json) -> (r: Result<ReactionsGetMessage, ClientError>)
    ensures
        r is Ok <==> reactions_get_message_ok(j),
        r matches Ok(x) ==> reactions_get_message_matches(j, x),
        r matches Err(e) ==> (e matches ClientError::MalformedSuccessPayload { field } && field@ == reactions_get_message_first_bad(j)),
{
    let members = match j {
        Json::Object(m) => m,
        _ => {
            return Err(ClientError::MalformedSuccessPayload { field: "ok".to_owned() });
        },
    };
    let keys: Vec<&str> = vec!["ok", "type", "message", "channel"];
    proof {
        reveal_strlit("ok");
        reveal_strlit("type");
        reveal_strlit("message");
        reveal_strlit("channel");
        assert("ok"@.len() == 2);
        assert("type"@.len() == 4);
        assert("message"@.len() == 7);
        assert("channel"@.len() == 7);
        assert("message"@[0] == 'm');
        assert("channel"@[0] == 'c');
    }
    assert(distinct_names(keys@));
    let mut slots = take_fields(members, &keys);
    let ok = match take_bool(take_slot(&mut slots, 0)) {
        Some(v) => v,
        None => {
            return Err(ClientError::MalformedSuccessPayload { field: "ok".to_owned() });
        },
    };
    let item_type = match take_str(take_slot(&mut slots, 1)) {
        Some(v) => v,
        None => {
            return Err(ClientError::MalformedSuccessPayload { field: "type".to_owned() });
        },
    };
    let message = match decode_message_data_member(take_slot(&mut slots, 2)) {
        Some(v) => v,
        None => {
            return Err(ClientError::MalformedSuccessPayload { field: "message".to_owned() });
        },
    };
    let channel = match take_str(take_slot(&mut slots, 3)) {
        Some(v) => v,
        None => {
            return Err(ClientError::MalformedSuccessPayload { field: "channel".to_owned() });
        },
    };
    Ok(ReactionsGetMessage { ok, item_type, message, channel })
}

impl ReactionsGetMessage {
    /// The result as a response body. Read back, a body encoded from `ok: true` and `type` `message` gives a result with the same fields.
    pub fn to_json(&self) -> (r: Json)
        ensures
            reactions_get_message_ok(r),
            reactions_get_message_matches(r, *self),
            self.ok && self.item_type@ == "message"@ ==> forall|d: Result<ReactionsGetResponse, ClientError>|
                #[trigger] reactions_get_outcome(r, d) ==> (d matches Ok(
                    ReactionsGetResponse::Success(ReactionsGetSuccess::ReactionsGetMessage(y)),
                ) && same_get_message(y, *self)),
    {
        let members: Vec<(String, Json)> = vec![
            ("ok".to_owned(), Json::Bool(self.ok)),
            ("type".to_owned(), Json::Str(self.item_type.clone())),
            ("message".to_owned(), self.message.to_json()),
            ("channel".to_owned(), Json::Str(self.channel.clone())),
        ];
        proof {
            reveal_strlit("ok");
            reveal_strlit("type");
            reveal_strlit("message");
            reveal_strlit("channel");
            assert("ok"@.len() == 2);
            assert("type"@.len() == 4);
            assert("message"@.len() == 7);
            assert("channel"@.len() == 7);
            assert("message"@[0] == 'm');
            assert("channel"@[0] == 'c');
        }
        let ghost m = members@;
        assert(m[0].0@ == "ok"@);
        assert(m[1].0@ == "type"@);
        assert(m[2].0@ == "message"@);
        assert(m[3].0@ == "channel"@);
        assert forall|a: int, b: int| 0 <= a < b < m.len() implies m[a].0@ != m[b].0@ by {}
        assert forall|i: int| 0 <= i < m.len() implies lookup(m, #[trigger] m[i].0@) == Some(m[i].1) by {
            lemma_lookup_distinct(m, i);
        }
        let r = Json::Object(members);
        assert(reactions_get_message_ok(r));
        assert(reactions_get_message_matches(r, *self));
        assert forall|d: Result<ReactionsGetResponse, ClientError>| #[trigger] reactions_get_outcome(r, d) && self.ok
            && self.item_type@ == "message"@ implies (d matches Ok(
                ReactionsGetResponse::Success(ReactionsGetSuccess::ReactionsGetMessage(y)),
            ) && same_get_message(y, *self)) by {
            assert(ok_flag(r) == Some(true));
            assert(str_member(r, "type"@) == Some(self.item_type));
            if let Ok(ReactionsGetResponse::Success(ReactionsGetSuccess::ReactionsGetMessage(y))) = d {
                assert(reactions_get_message_matches(r, y));
                if let Some(v) = field(r, "message"@) {
                    lemma_message_unique(v, y.message, self.message);
                }
            }
        }
        r
    }
}

/// `reactions.get` on a file.
#[derive(Debug)]
pub struct ReactionsGetFile {
    pub ok: bool,
    pub item_type: String,
    pub file: FileData,
}

/// `j` is an object whose members decode into a `ReactionsGetFile`.
pub open spec fn reactions_get_file_ok(j: Json) -> bool {
    &&& j is Object
    &&& ok_bool(field(j, "ok"@))
    &&& ok_str(field(j, "type"@))
    &&& (field(j, "file"@) matches Some(v) && file_data_ok(v))
}

/// Each field of `x` is what the member of `j` of the same name holds.
pub open spec fn reactions_get_file_matches(j: Json, x: ReactionsGetFile) -> bool {
    &&& is_bool(field(j, "ok"@), x.ok)
    &&& is_str(field(j, "type"@), x.item_type)
    &&& (field(j, "file"@) matches Some(v) && file_data_matches(v, x.file))
}

/// The name of the first member of `j` that does not decode.
pub open spec fn reactions_get_file_first_bad(j: Json) -> Seq<char> {
    if !ok_bool(field(j, "ok"@)) {
        "ok"@
    } else if !ok_str(field(j, "type"@)) {
        "type"@
    } else if !(field(j, "file"@) matches Some(v) && file_data_ok(v)) {
        "file"@
    } else {
        Seq::empty()
    }
}

pub fn decode_reactions_get_file(j: Json) -> (r: Result<ReactionsGetFile, ClientError>)
    ensures
        r is Ok <==> reactions_get_file_ok(j),
        r matches Ok(x) ==> reactions_get_file_matches(j, x),
        r matches Err(e) ==> (e matches ClientError::MalformedSuccessPayload { field } && field@ == reactions_get_file_first_bad(j)),
{
    let members = match j {
        Json::Object(m) => m,
        _ => {
            return Err(ClientError::MalformedSuccessPayload { field: "ok".to_owned() });
        },
    };
    let keys: Vec<&str> = vec!["ok", "type", "file"];
    proof {
        reveal_strlit("ok");
        reveal_strlit("type");
        reveal_strlit("file");
        assert("ok"@.len() == 2);
        assert("type"@.len() == 4);
        assert("file"@.len() == 4);
        assert("type"@[0] == 't');
        assert("file"@[0] == 'f');
    }
    assert(distinct_names(keys@));
    let mut slots = take_fields(members, &keys);
    let ok = match take_bool(take_slot(&mut slots, 0)) {
        Some(v) => v,
        None => {
            return Err(ClientError::MalformedSuccessPayload { field: "ok".to_owned() });
        },
    };
    let item_type = match take_str(take_slot(&mut slots, 1)) {
        Some(v) => v,
        None => {
            return Err(ClientError::MalformedSuccessPayload { field: "type".to_owned() });
        },
    };
    let file = match decode_file_data_member(take_slot(&mut slots, 2)) {
        Some(v) => v,
        None => {
            return Err(ClientError::MalformedSuccessPayload { field: "file".to_owned() });
        },
    };
    Ok(ReactionsGetFile { ok, item_type, file })
}

impl ReactionsGetFile {
    /// The result as a response body. Read back, a body encoded from `ok: true` and `type` `file` gives a result with the same fields.
    pub fn into_json(self) -> (r: Json)
        requires
            member_names_distinct(self.file.shares@),
        ensures
            reactions_get_file_ok(r),
            reactions_get_file_matches(r, self),
            self.ok && self.item_type@ == "file"@ ==> forall|d: Result<ReactionsGetResponse, ClientError>|
                #[trigger] reactions_get_outcome(r, d) ==> (d matches Ok(
                    ReactionsGetResponse::Success(ReactionsGetSuccess::ReactionsGetFile(y)),
                ) && same_get_file(y, self)),
    {
        let ghost old_self = self;
        let members: Vec<(String, Json)> = vec![
            ("ok".to_owned(), Json::Bool(self.ok)),
            ("type".to_owned(), Json::Str(self.item_type)),
            ("file".to_owned(), self.file.into_json()),
        ];
        proof {
            reveal_strlit("ok");
            reveal_strlit("type");
            reveal_strlit("file");
            assert("ok"@.len() == 2);
            assert("type"@.len() == 4);
            assert("file"@.len() == 4);
            assert("type"@[0] == 't');
            assert("file"@[0] == 'f');
        }
        let ghost m = members@;
        assert(m[0].0@ == "ok"@);
        assert(m[1].0@ == "type"@);
        assert(m[2].0@ == "file"@);
        assert forall|a: int, b: int| 0 <= a < b < m.len() implies m[a].0@ != m[b].0@ by {}
        assert forall|i: int| 0 <= i < m.len() implies lookup(m, #[trigger] m[i].0@) == Some(m[i].1) by {
            lemma_lookup_distinct(m, i);
        }
        let r = Json::Object(members);
        assert(reactions_get_file_ok(r));
        assert(reactions_get_file_matches(r, old_self));
        assert forall|d: Result<ReactionsGetResponse, ClientError>| #[trigger] reactions_get_outcome(r, d) && old_self.ok
            && old_self.item_type@ == "file"@ implies (d matches Ok(
                ReactionsGetResponse::Success(ReactionsGetSuccess::ReactionsGetFile(y)),
            ) && same_get_file(y, old_self)) by {
            reveal_strlit("message");
            reveal_strlit("file");
            reveal_strlit("file_comment");
            assert("message"@.len() == 7);
            assert("file"@.len() == 4);
            assert("file_comment"@.len() == 12);
            assert(ok_flag(r) == Some(true));
            assert(str_member(r, "type"@) == Some(old_self.item_type));
            if let Ok(ReactionsGetResponse::Success(ReactionsGetSuccess::ReactionsGetFile(y))) = d {
                assert(reactions_get_file_matches(r, y));
                if let Some(v) = field(r, "file"@) {
                    lemma_file_unique(v, y.file, old_self.file);
                }
            }
        }
        r
    }
}

/// Two `reactions.get` results on a file agree field by field.
pub open spec fn same_get_file(a: ReactionsGetFile, b: ReactionsGetFile) -> bool {
    &&& a.ok == b.ok
    &&& a.item_type == b.item_type
    &&& same_file(a.file, b.file)
}

/// Two `reactions.get` results on a file comment agree field by field.
pub open spec fn same_get_file_comment(a: ReactionsGetFileComment, b: ReactionsGetFileComment) -> bool {
    &&& a.ok == b.ok
    &&& a.item_type == b.item_type
    &&& same_file(a.file, b.file)
    &&& a.comment == b.comment
}


/// `reactions.get` on a file comment; the comment is kept as sent.
#[derive(Debug)]
pub struct ReactionsGetFileComment {
    pub ok: bool,
    pub item_type: String,
    pub file: FileData,
    pub comment: Json,
}

/// `j` is an object whose members decode into a `ReactionsGetFileComment`.
pub open spec fn reactions_get_file_comment_ok(j: Json) -> bool {
    &&& j is Object
    &&& ok_bool(field(j, "ok"@))
    &&& ok_str(field(j, "type"@))
    &&& (field(j, "file"@) matches Some(v) && file_data_ok(v))
    &&& ok_json(field(j, "comment"@))
}

/// Each field of `x` is what the member of `j` of the same name holds.
pub open spec fn reactions_get_file_comment_matches(j: Json, x: ReactionsGetFileComment) -> bool {
    &&& is_bool(field(j, "ok"@), x.ok)
    &&& is_str(field(j, "type"@), x.item_type)
    &&& (field(j, "file"@) matches Some(v) && file_data_matches(v, x.file))
    &&& is_json(field(j, "comment"@), x.comment)
}

/// The name of the first member of `j` that does not decode.
pub open spec fn reactions_get_file_comment_first_bad(j: Json) -> Seq<char> {
    if !ok_bool(field(j, "ok"@)) {
        "ok"@
    } else if !ok_str(field(j, "type"@)) {
        "type"@
    } else if !(field(j, "file"@) matches Some(v) && file_data_ok(v)) {
        "file"@
    } else if !ok_json(field(j, "comment"@)) {
        "comment"@
    } else {
        Seq::empty()
    }
}

pub fn decode_reactions_get_file_comment(j: Json) -> (r: Result<ReactionsGetFileComment, ClientError>)
    ensures
        r is Ok <==> reactions_get_file_comment_ok(j),
        r matches Ok(x) ==> reactions_get_file_comment_matches(j, x),
        r matches Err(e) ==> (e matches ClientError::MalformedSuccessPayload { field } && field@ == reactions_get_file_comment_first_bad(j)),
{
    let members = match j {
        Json::Object(m) => m,
        _ => {
            return Err(ClientError::MalformedSuccessPayload { field: "ok".to_owned() });
        },
    };
    let keys: Vec<&str> = vec!["ok", "type", "file", "comment"];
    proof {
        reveal_strlit("ok");
        reveal_strlit("type");
        reveal_strlit("file");
        reveal_strlit("comment");
        assert("ok"@.len() == 2);
        assert("type"@.len() == 4);
        assert("file"@.len() == 4);
        assert("comment"@.len() == 7);
        assert("type"@[0] == 't');
        assert("file"@[0] == 'f');
    }
    assert(distinct_names(keys@));
    let mut slots = take_fields(members, &keys);
    let ok = match take_bool(take_slot(&mut slots, 0)) {
        Some(v) => v,
        None => {
            return Err(ClientError::MalformedSuccessPayload { field: "ok".to_owned() });
        },
    };
    let item_type = match take_str(take_slot(&mut slots, 1)) {
        Some(v) => v,
        None => {
            return Err(ClientError::MalformedSuccessPayload { field: "type".to_owned() });
        },
    };
    let file = match decode_file_data_member(take_slot(&mut slots, 2)) {
        Some(v) => v,
        None => {
            return Err(ClientError::MalformedSuccessPayload { field: "file".to_owned() });
        },
    };
    let comment = match take_json(take_slot(&mut slots, 3)) {
        Some(v) => v,
        None => {
            return Err(ClientError::MalformedSuccessPayload { field: "comment".to_owned() });
        },
    };
    Ok(ReactionsGetFileComment { ok, item_type, file, comment })
}

impl ReactionsGetFileComment {
    /// The result as a response body. Read back, a body encoded from `ok: true` and `type` `file_comment` gives a result with the same fields.
    pub fn into_json(self) -> (r: Json)
        requires
            member_names_distinct(self.file.shares@),
        ensures
            reactions_get_file_comment_ok(r),
            reactions_get_file_comment_matches(r, self),
            self.ok && self.item_type@ == "file_comment"@ ==> forall|d: Result<ReactionsGetResponse, ClientError>|
                #[trigger] reactions_get_outcome(r, d) ==> (d matches Ok(
                    ReactionsGetResponse::Success(ReactionsGetSuccess::ReactionsGetFileComment(y)),
                ) && same_get_file_comment(y, self)),
    {
        let ghost old_self = self;
        let members: Vec<(String, Json)> = vec![
            ("ok".to_owned(), Json::Bool(self.ok)),
            ("type".to_owned(), Json::Str(self.item_type)),
            ("file".to_owned(), self.file.into_json()),
            ("comment".to_owned(), self.comment),
        ];
        proof {
            reveal_strlit("ok");
            reveal_strlit("type");
            reveal_strlit("file");
            reveal_strlit("comment");
            assert("ok"@.len() == 2);
            assert("type"@.len() == 4);
            assert("file"@.len() == 4);
            assert("comment"@.len() == 7);
            assert("type"@[0] == 't');
            assert("file"@[0] == 'f');
        }
        let ghost m = members@;
        assert(m[0].0@ == "ok"@);
        assert(m[1].0@ == "type"@);
        assert(m[2].0@ == "file"@);
        assert(m[3].0@ == "comment"@);
        assert forall|a: int, b: int| 0 <= a < b < m.len() implies m[a].0@ != m[b].0@ by {}
        assert forall|i: int| 0 <= i < m.len() implies lookup(m, #[trigger] m[i].0@) == Some(m[i].1) by {
            lemma_lookup_distinct(m, i);
        }
        let r = Json::Object(members);
        assert(reactions_get_file_comment_ok(r));
        assert(reactions_get_file_comment_matches(r, old_self));
        assert forall|d: Result<ReactionsGetResponse, ClientError>| #[trigger] reactions_get_outcome(r, d) && old_self.ok
            && old_self.item_type@ == "file_comment"@ implies (d matches Ok(
                ReactionsGetResponse::Success(ReactionsGetSuccess::ReactionsGetFileComment(y)),
            ) && same_get_file_comment(y, old_self)) by {
            reveal_strlit("message");
            reveal_strlit("file");
            reveal_strlit("file_comment");
            assert("message"@.len() == 7);
            assert("file"@.len() == 4);
            assert("file_comment"@.len() == 12);
            assert(ok_flag(r) == Some(true));
            assert(str_member(r, "type"@) == Some(old_self.item_type));
            if let Ok(ReactionsGetResponse::Success(ReactionsGetSuccess::ReactionsGetFileComment(y))) = d {
                assert(reactions_get_file_comment_matches(r, y));
                if let Some(v) = field(r, "file"@) {
                    lemma_file_unique(v, y.file, old_self.file);
                }
            }
        }
        r
    }
}

/// A successful `reactions.get`, by the kind of its target.
#[derive(Debug)]
pub enum ReactionsGetSuccess {
    ReactionsGetMessage(ReactionsGetMessage),
    ReactionsGetFile(ReactionsGetFile),
    ReactionsGetFileComment(ReactionsGetFileComment),
}

#[derive(Debug)]
pub enum ReactionsGetResponse {
    Success(ReactionsGetSuccess),
    Error(ReactionsError),
}

/// What a successful `reactions.get` body resolves to, by its `type`.
pub open spec fn reactions_get_target(j: Json, r: Result<ReactionsGetSuccess, ClientError>) -> bool {
    match str_member(j, "type"@) {
        None => r matches Err(ClientError::MalformedSuccessPayload { field }) && field@ == "type"@,
        Some(t) => {
            if t@ == "message"@ {
                if reactions_get_message_ok(j) {
                    r matches Ok(ReactionsGetSuccess::ReactionsGetMessage(x)) && reactions_get_message_matches(j, x)
                } else {
                    r matches Err(ClientError::MalformedSuccessPayload { field }) && field@ == reactions_get_message_first_bad(j)
                }
            } else if t@ == "file"@ {
                if reactions_get_file_ok(j) {
                    r matches Ok(ReactionsGetSuccess::ReactionsGetFile(x)) && reactions_get_file_matches(j, x)
                } else {
                    r matches Err(ClientError::MalformedSuccessPayload { field }) && field@ == reactions_get_file_first_bad(j)
                }
            } else if t@ == "file_comment"@ {
                if reactions_get_file_comment_ok(j) {
                    r matches Ok(ReactionsGetSuccess::ReactionsGetFileComment(x)) && reactions_get_file_comment_matches(j, x)
                } else {
                    r matches Err(ClientError::MalformedSuccessPayload { field }) && field@ == reactions_get_file_comment_first_bad(j)
                }
            } else {
                r == Err::<ReactionsGetSuccess, ClientError>(ClientError::UnknownItemType { item_type: t })
            }
        },
    }
}

/// Resolves the target of a successful `reactions.get` by its `type`.
pub fn decode_reactions_get_target(j: Json) -> (r: Result<ReactionsGetSuccess, ClientError>)
    ensures
        reactions_get_target(j, r),
{
    let t = match read_str_member(&j, "type") {
        Some(t) => t,
        None => {
            return Err(ClientError::MalformedSuccessPayload { field: "type".to_owned() });
        },
    };
    if t == "message".to_owned() {
        match decode_reactions_get_message(j) {
            Ok(x) => Ok(ReactionsGetSuccess::ReactionsGetMessage(x)),
            Err(e) => Err(e),
        }
    } else if t == "file".to_owned() {
        match decode_reactions_get_file(j) {
            Ok(x) => Ok(ReactionsGetSuccess::ReactionsGetFile(x)),
            Err(e) => Err(e),
        }
    } else if t == "file_comment".to_owned() {
        match decode_reactions_get_file_comment(j) {
            Ok(x) => Ok(ReactionsGetSuccess::ReactionsGetFileComment(x)),
            Err(e) => Err(e),
        }
    } else {
        Err(ClientError::UnknownItemType { item_type: t })
    }
}

/// What a parsed `reactions.get` body resolves to.
pub open spec fn reactions_get_outcome(j: Json, r: Result<ReactionsGetResponse, ClientError>) -> bool {
    match ok_flag(j) {
        None => r == Err::<ReactionsGetResponse, ClientError>(ClientError::MalformedEnvelope),
        Some(true) => match r {
            Ok(ReactionsGetResponse::Success(s)) => reactions_get_target(j, Ok(s)),
            Ok(ReactionsGetResponse::Error(_)) => false,
            Err(e) => reactions_get_target(j, Err(e)),
        },
        Some(false) => if reactions_error_ok(j) {
            r matches Ok(ReactionsGetResponse::Error(x)) && reactions_error_matches(j, x)
        } else {
            r == Err::<ReactionsGetResponse, ClientError>(ClientError::MalformedErrorPayload)
        },
    }
}

/// Decodes a parsed `reactions.get` body according to its `ok` member.
pub fn decode_reactions_get(j: Json) -> (r: Result<ReactionsGetResponse, ClientError>)
    ensures
        reactions_get_outcome(j, r),
{
    match read_ok(&j) {
        None => Err(ClientError::MalformedEnvelope),
        Some(true) => match decode_reactions_get_target(j) {
            Ok(s) => Ok(ReactionsGetResponse::Success(s)),
            Err(e) => Err(e),
        },
        Some(false) => match decode_reactions_error(j) {
            Some(x) => Ok(ReactionsGetResponse::Error(x)),
            None => Err(ClientError::MalformedErrorPayload),
        },
    }
}

/// The whole `reactions.get` response: the status decides first, then the body.
pub open spec fn reactions_get_result(status: u16, body: String, parsed: Option<Json>, r: Result<ReactionsGetResponse, ClientError>) -> bool {
    if !is_success_status(status) {
        r == Err::<ReactionsGetResponse, ClientError>(ClientError::HttpStatus { status, body })
    } else {
        match parsed {
            None => r == Err::<ReactionsGetResponse, ClientError>(ClientError::MalformedEnvelope),
            Some(j) => reactions_get_outcome(j, r),
        }
    }
}

/// Parameters of `reactions.list`; absent ones are not sent.
#[derive(Debug)]
pub struct ReactionsListParams {
    pub count: Option<i32>,
    pub cursor: Option<String>,
    pub full: Option<bool>,
    pub limit: Option<i32>,
    pub page: Option<i32>,
    /// Only relevant for org-level apps.
    pub team_id: Option<String>,
    pub user: Option<String>,
}

impl Default for ReactionsListParams {
    fn default() -> (r: Self)
        ensures
            r.count is None,
            r.cursor is None,
            r.full is None,
            r.limit is None,
            r.page is None,
            r.team_id is None,
            r.user is None,
    {
        Self { count: None, cursor: None, full: None, limit: None, page: None, team_id: None, user: None }
    }
}

/// A reacted-to message in a listing.
#[derive(Debug)]
pub struct ReactionsListMessageItem {
    pub item_type: String,
    pub channel: String,
    pub message: MessageData,
}

/// `j` is an object whose members decode into a `ReactionsListMessageItem`.
pub open spec fn reactions_list_message_item_ok(j: Json) -> bool {
    &&& j is Object
    &&& ok_str(field(j, "type"@))
    &&& ok_str(field(j, "channel"@))
    &&& (field(j, "message"@) matches Some(v) && message_data_ok(v))
}

/// Each field of `x` is what the member of `j` of the same name holds.
pub open spec fn reactions_list_message_item_matches(j: Json, x: ReactionsListMessageItem) -> bool {
    &&& is_str(field(j, "type"@), x.item_type)
    &&& is_str(field(j, "channel"@), x.channel)
    &&& (field(j, "message"@) matches Some(v) && message_data_matches(v, x.message))
}

/// The name of the first member of `j` that does not decode.
pub open spec fn reactions_list_message_item_first_bad(j: Json) -> Seq<char> {
    if !ok_str(field(j, "type"@)) {
        "type"@
    } else if !ok_str(field(j, "channel"@)) {
        "channel"@
    } else if !(field(j, "message"@) matches Some(v) && message_data_ok(v)) {
        "message"@
    } else {
        Seq::empty()
    }
}

pub fn decode_reactions_list_message_item(j: Json) -> (r: Result<ReactionsListMessageItem, ClientError>)
    ensures
        r is Ok <==> reactions_list_message_item_ok(j),
        r matches Ok(x) ==> reactions_list_message_item_matches(j, x),
        r matches Err(e) ==> (e matches ClientError::MalformedSuccessPayload { field } && field@ == reactions_list_message_item_first_bad(j)),
{
    let members = match j {
        Json::Object(m) => m,
        _ => {
            return Err(ClientError::MalformedSuccessPayload { field: "type".to_owned() });
        },
    };
    let keys: Vec<&str> = vec!["type", "channel", "message"];
    proof {
        reveal_strlit("type");
        reveal_strlit("channel");
        reveal_strlit("message");
        assert("type"@.len() == 4);
        assert("channel"@.len() == 7);
        assert("message"@.len() == 7);
        assert("channel"@[0] == 'c');
        assert("message"@[0] == 'm');
    }
    assert(distinct_names(keys@));
    let mut slots = take_fields(members, &keys);
    let item_type = match take_str(take_slot(&mut slots, 0)) {
        Some(v) => v,
        None => {
            return Err(ClientError::MalformedSuccessPayload { field: "type".to_owned() });
        },
    };
    let channel = match take_str(take_slot(&mut slots, 1)) {
        Some(v) => v,
        None => {
            return Err(ClientError::MalformedSuccessPayload { field: "channel".to_owned() });
        },
    };
    let message = match decode_message_data_member(take_slot(&mut slots, 2)) {
        Some(v) => v,
        None => {
            return Err(ClientError::MalformedSuccessPayload { field: "message".to_owned() });
        },
    };
    Ok(ReactionsListMessageItem { item_type, channel, message })
}

/// A reacted-to file in a listing.
#[derive(Debug)]
pub struct ReactionsListFileItem {
    pub item_type: String,
    pub file: FileData,
}

/// `j` is an object whose members decode into a `ReactionsListFileItem`.
pub open spec fn reactions_list_file_item_ok(j: Json) -> bool {
    &&& j is Object
    &&& ok_str(field(j, "type"@))
    &&& (field(j, "file"@) matches Some(v) && file_data_ok(v))
}

/// Each field of `x` is what the member of `j` of the same name holds.
pub open spec fn reactions_list_file_item_matches(j: Json, x: ReactionsListFileItem) -> bool {
    &&& is_str(field(j, "type"@), x.item_type)
    &&& (field(j, "file"@) matches Some(v) && file_data_matches(v, x.file))
}

/// The name of the first member of `j` that does not decode.
pub open spec fn reactions_list_file_item_first_bad(j: Json) -> Seq<char> {
    if !ok_str(field(j, "type"@)) {
        "type"@
    } else if !(field(j, "file"@) matches Some(v) && file_data_ok(v)) {
        "file"@
    } else {
        Seq::empty()
    }
}

pub fn decode_reactions_list_file_item(j: Json) -> (r: Result<ReactionsListFileItem, ClientError>)
    ensures
        r is Ok <==> reactions_list_file_item_ok(j),
        r matches Ok(x) ==> reactions_list_file_item_matches(j, x),
        r matches Err(e) ==> (e matches ClientError::MalformedSuccessPayload { field } && field@ == reactions_list_file_item_first_bad(j)),
{
    let members = match j {
        Json::Object(m) => m,
        _ => {
            return Err(ClientError::MalformedSuccessPayload { field: "type".to_owned() });
        },
    };
    let keys: Vec<&str> = vec!["type", "file"];
    proof {
        reveal_strlit("type");
        reveal_strlit("file");
        assert("type"@.len() == 4);
        assert("file"@.len() == 4);
        assert("type"@[0] == 't');
        assert("file"@[0] == 'f');
    }
    assert(distinct_names(keys@));
    let mut slots = take_fields(members, &keys);
    let item_type = match take_str(take_slot(&mut slots, 0)) {
        Some(v) => v,
        None => {
            return Err(ClientError::MalformedSuccessPayload { field: "type".to_owned() });
        },
    };
    let file = match decode_file_data_member(take_slot(&mut slots, 1)) {
        Some(v) => v,
        None => {
            return Err(ClientError::MalformedSuccessPayload { field: "file".to_owned() });
        },
    };
    Ok(ReactionsListFileItem { item_type, file })
}

/// A reacted-to file comment in a listing; the comment is kept as sent.
#[derive(Debug)]
pub struct ReactionsListFileCommentItem {
    pub item_type: String,
    pub file: FileData,
    pub comment: Json,
}

/// `j` is an object whose members decode into a `ReactionsListFileCommentItem`.
pub open spec fn reactions_list_file_comment_item_ok(j: Json) -> bool {
    &&& j is Object
    &&& ok_str(field(j, "type"@))
    &&& (field(j, "file"@) matches Some(v) && file_data_ok(v))
    &&& ok_json(field(j, "comment"@))
}

/// Each field of `x` is what the member of `j` of the same name holds.
pub open spec fn reactions_list_file_comment_item_matches(j: Json, x: ReactionsListFileCommentItem) -> bool {
    &&& is_str(field(j, "type"@), x.item_type)
    &&& (field(j, "file"@) matches Some(v) && file_data_matches(v, x.file))
    &&& is_json(field(j, "comment"@), x.comment)
}

/// The name of the first member of `j` that does not decode.
pub open spec fn reactions_list_file_comment_item_first_bad(j: Json) -> Seq<char> {
    if !ok_str(field(j, "type"@)) {
        "type"@
    } else if !(field(j, "file"@) matches Some(v) && file_data_ok(v)) {
        "file"@
    } else if !ok_json(field(j, "comment"@)) {
        "comment"@
    } else {
        Seq::empty()
    }
}

pub fn decode_reactions_list_file_comment_item(j: Json) -> (r: Result<ReactionsListFileCommentItem, ClientError>)
    ensures
        r is Ok <==> reactions_list_file_comment_item_ok(j),
        r matches Ok(x) ==> reactions_list_file_comment_item_matches(j, x),
        r matches Err(e) ==> (e matches ClientError::MalformedSuccessPayload { field } && field@ == reactions_list_file_comment_item_first_bad(j)),
{
    let members = match j {
        Json::Object(m) => m,
        _ => {
            return Err(ClientError::MalformedSuccessPayload { field: "type".to_owned() });
        },
    };
    let keys: Vec<&str> = vec!["type", "file", "comment"];
    proof {
        reveal_strlit("type");
        reveal_strlit("file");
        reveal_strlit("comment");
        assert("type"@.len() == 4);
        assert("file"@.len() == 4);
        assert("comment"@.len() == 7);
        assert("type"@[0] == 't');
        assert("file"@[0] == 'f');
    }
    assert(distinct_names(keys@));
    let mut slots = take_fields(members, &keys);
    let item_type = match take_str(take_slot(&mut slots, 0)) {
        Some(v) => v,
        None => {
            return Err(ClientError::MalformedSuccessPayload { field: "type".to_owned() });
        },
    };
    let file = match decode_file_data_member(take_slot(&mut slots, 1)) {
        Some(v) => v,
        None => {
            return Err(ClientError::MalformedSuccessPayload { field: "file".to_owned() });
        },
    };
    let comment = match take_json(take_slot(&mut slots, 2)) {
        Some(v) => v,
        None => {
            return Err(ClientError::MalformedSuccessPayload { field: "comment".to_owned() });
        },
    };
    Ok(ReactionsListFileCommentItem { item_type, file, comment })
}

/// One entry of `reactions.list`, by the kind of its target.
#[derive(Debug)]
pub enum ReactionsListItem {
    ReactionsListMessageItem(ReactionsListMessageItem),
    ReactionsListFileItem(ReactionsListFileItem),
    ReactionsListFileCommentItem(ReactionsListFileCommentItem),
}


impl ReactionsListMessageItem {
    /// The entry as a JSON object.
    pub fn into_json(self) -> (r: Json)
        ensures
            reactions_list_message_item_ok(r),
            reactions_list_message_item_matches(r, self),
    {
        let ghost old_self = self;
        let members: Vec<(String, Json)> = vec![
            ("type".to_owned(), Json::Str(self.item_type)),
            ("channel".to_owned(), Json::Str(self.channel)),
            ("message".to_owned(), self.message.to_json()),
        ];
        proof {
            reveal_strlit("type");
            reveal_strlit("channel");
            reveal_strlit("message");
            assert("type"@.len() == 4);
            assert("channel"@.len() == 7);
            assert("message"@.len() == 7);
            assert("channel"@[0] == 'c');
            assert("message"@[0] == 'm');
        }
        let ghost m = members@;
        assert(m[0].0@ == "type"@);
        assert(m[1].0@ == "channel"@);
        assert(m[2].0@ == "message"@);
        assert forall|a: int, b: int| 0 <= a < b < m.len() implies m[a].0@ != m[b].0@ by {}
        assert forall|i: int| 0 <= i < m.len() implies lookup(m, #[trigger] m[i].0@) == Some(m[i].1) by {
            lemma_lookup_distinct(m, i);
        }
        Json::Object(members)
    }
}

impl ReactionsListFileItem {
    /// The entry as a JSON object.
    pub fn into_json(self) -> (r: Json)
        requires
            member_names_distinct(self.file.shares@),
        ensures
            reactions_list_file_item_ok(r),
            reactions_list_file_item_matches(r, self),
    {
        let ghost old_self = self;
        let members: Vec<(String, Json)> = vec![
            ("type".to_owned(), Json::Str(self.item_type)),
            ("file".to_owned(), self.file.into_json()),
        ];
        proof {
            reveal_strlit("type");
            reveal_strlit("file");
            assert("type"@.len() == 4);
            assert("file"@.len() == 4);
            assert("type"@[0] == 't');
            assert("file"@[0] == 'f');
        }
        let ghost m = members@;
        assert(m[0].0@ == "type"@);
        assert(m[1].0@ == "file"@);
        assert forall|a: int, b: int| 0 <= a < b < m.len() implies m[a].0@ != m[b].0@ by {}
        assert forall|i: int| 0 <= i < m.len() implies lookup(m, #[trigger] m[i].0@) == Some(m[i].1) by {
            lemma_lookup_distinct(m, i);
        }
        Json::Object(members)
    }
}

impl ReactionsListFileCommentItem {
    /// The entry as a JSON object.
    pub fn into_json(self) -> (r: Json)
        requires
            member_names_distinct(self.file.shares@),
        ensures
            reactions_list_file_comment_item_ok(r),
            reactions_list_file_comment_item_matches(r, self),
    {
        let ghost old_self = self;
        let members: Vec<(String, Json)> = vec![
            ("type".to_owned(), Json::Str(self.item_type)),
            ("file".to_owned(), self.file.into_json()),
            ("comment".to_owned(), self.comment),
        ];
        proof {
            reveal_strlit("type");
            reveal_strlit("file");
            reveal_strlit("comment");
            assert("type"@.len() == 4);
            assert("file"@.len() == 4);
            assert("comment"@.len() == 7);
            assert("type"@[0] == 't');
            assert("file"@[0] == 'f');
        }
        let ghost m = members@;
        assert(m[0].0@ == "type"@);
        assert(m[1].0@ == "file"@);
        assert(m[2].0@ == "comment"@);
        assert forall|a: int, b: int| 0 <= a < b < m.len() implies m[a].0@ != m[b].0@ by {}
        assert forall|i: int| 0 <= i < m.len() implies lookup(m, #[trigger] m[i].0@) == Some(m[i].1) by {
            lemma_lookup_distinct(m, i);
        }
        Json::Object(members)
    }
}
/// What one entry of `reactions.list` resolves to, by its `type`.
pub open spec fn list_item_outcome(j: Json, r: Result<ReactionsListItem, ClientError>) -> bool {
    match str_member(j, "type"@) {
        None => r matches Err(ClientError::MalformedSuccessPayload { field }) && field@ == "type"@,
        Some(t) => {
            if t@ == "message"@ {
                if reactions_list_message_item_ok(j) {
                    r matches Ok(ReactionsListItem::ReactionsListMessageItem(x)) && reactions_list_message_item_matches(j, x)
                } else {
                    r matches Err(ClientError::MalformedSuccessPayload { field }) && field@ == reactions_list_message_item_first_bad(j)
                }
            } else if t@ == "file"@ {
                if reactions_list_file_item_ok(j) {
                    r matches Ok(ReactionsListItem::ReactionsListFileItem(x)) && reactions_list_file_item_matches(j, x)
                } else {
                    r matches Err(ClientError::MalformedSuccessPayload { field }) && field@ == reactions_list_file_item_first_bad(j)
                }
            } else if t@ == "file_comment"@ {
                if reactions_list_file_comment_item_ok(j) {
                    r matches Ok(ReactionsListItem::ReactionsListFileCommentItem(x)) && reactions_list_file_comment_item_matches(j, x)
                } else {
                    r matches Err(ClientError::MalformedSuccessPayload { field }) && field@ == reactions_list_file_comment_item_first_bad(j)
                }
            } else {
                r == Err::<ReactionsListItem, ClientError>(ClientError::UnknownItemType { item_type: t })
            }
        },
    }
}

/// The entry resolves to an item.
pub open spec fn list_item_ok(j: Json) -> bool {
    match str_member(j, "type"@) {
        None => false,
        Some(t) => if t@ == "message"@ {
            reactions_list_message_item_ok(j)
        } else if t@ == "file"@ {
            reactions_list_file_item_ok(j)
        } else if t@ == "file_comment"@ {
            reactions_list_file_comment_item_ok(j)
        } else {
            false
        },
    }
}


/// The entry's `type` names its own kind.
pub open spec fn item_tagged(x: ReactionsListItem) -> bool {
    match x {
        ReactionsListItem::ReactionsListMessageItem(m) => m.item_type@ == "message"@,
        ReactionsListItem::ReactionsListFileItem(f) => f.item_type@ == "file"@,
        ReactionsListItem::ReactionsListFileCommentItem(c) => c.item_type@ == "file_comment"@,
    }
}

/// Two entries are of the same kind and agree field by field.
pub open spec fn same_list_item(a: ReactionsListItem, b: ReactionsListItem) -> bool {
    match (a, b) {
        (ReactionsListItem::ReactionsListMessageItem(x), ReactionsListItem::ReactionsListMessageItem(y)) => {
            x.item_type == y.item_type && x.channel == y.channel && same_message(x.message, y.message)
        },
        (ReactionsListItem::ReactionsListFileItem(x), ReactionsListItem::ReactionsListFileItem(y)) => {
            x.item_type == y.item_type && same_file(x.file, y.file)
        },
        (ReactionsListItem::ReactionsListFileCommentItem(x), ReactionsListItem::ReactionsListFileCommentItem(y)) => {
            x.item_type == y.item_type && same_file(x.file, y.file) && x.comment == y.comment
        },
        _ => false,
    }
}

/// The entry can be written as JSON: a file's shares have distinct names.
pub open spec fn list_item_valid(x: ReactionsListItem) -> bool {
    match x {
        ReactionsListItem::ReactionsListMessageItem(_) => true,
        ReactionsListItem::ReactionsListFileItem(f) => member_names_distinct(f.file.shares@),
        ReactionsListItem::ReactionsListFileCommentItem(c) => member_names_distinct(c.file.shares@),
    }
}

impl ReactionsListItem {
    /// The entry as a JSON object. Read back, an entry whose `type` names its
    /// own kind gives an entry with the same fields.
    pub fn into_json(self) -> (r: Json)
        requires
            list_item_valid(self),
        ensures
            item_tagged(self) ==> list_item_ok(r),
            item_tagged(self) ==> forall|y: ReactionsListItem|
                #[trigger] list_item_outcome(r, Ok(y)) ==> same_list_item(y, self),
    {
        let ghost orig = self;
        proof {
            reveal_strlit("message");
            reveal_strlit("file");
            reveal_strlit("file_comment");
            assert("message"@.len() == 7);
            assert("file"@.len() == 4);
            assert("file_comment"@.len() == 12);
        }
        match self {
            ReactionsListItem::ReactionsListMessageItem(m) => {
                let r = m.into_json();
                assert forall|y: ReactionsListItem| #[trigger] list_item_outcome(r, Ok(y)) && item_tagged(orig)
                    implies same_list_item(y, orig) by {
                    assert(str_member(r, "type"@) == Some(m.item_type));
                    if let ReactionsListItem::ReactionsListMessageItem(x) = y {
                        if let Some(v) = field(r, "message"@) {
                            lemma_message_unique(v, x.message, m.message);
                        }
                    }
                }
                r
            },
            ReactionsListItem::ReactionsListFileItem(f) => {
                let r = f.into_json();
                assert forall|y: ReactionsListItem| #[trigger] list_item_outcome(r, Ok(y)) && item_tagged(orig)
                    implies same_list_item(y, orig) by {
                    assert(str_member(r, "type"@) == Some(f.item_type));
                    if let ReactionsListItem::ReactionsListFileItem(x) = y {
                        if let Some(v) = field(r, "file"@) {
                            lemma_file_unique(v, x.file, f.file);
                        }
                    }
                }
                r
            },
            ReactionsListItem::ReactionsListFileCommentItem(c) => {
                let r = c.into_json();
                assert forall|y: ReactionsListItem| #[trigger] list_item_outcome(r, Ok(y)) && item_tagged(orig)
                    implies same_list_item(y, orig) by {
                    assert(str_member(r, "type"@) == Some(c.item_type));
                    if let ReactionsListItem::ReactionsListFileCommentItem(x) = y {
                        if let Some(v) = field(r, "file"@) {
                            lemma_file_unique(v, x.file, c.file);
                        }
                    }
                }
                r
            },
        }
    }
}

/// Resolves one entry of `reactions.list` by its `type`.
pub fn decode_list_item(j: Json) -> (r: Result<ReactionsListItem, ClientError>)
    ensures
        list_item_outcome(j, r),
{
    let t = match read_str_member(&j, "type") {
        Some(t) => t,
        None => {
            return Err(ClientError::MalformedSuccessPayload { field: "type".to_owned() });
        },
    };
    if t == "message".to_owned() {
        match decode_reactions_list_message_item(j) {
            Ok(x) => Ok(ReactionsListItem::ReactionsListMessageItem(x)),
            Err(e) => Err(e),
        }
    } else if t == "file".to_owned() {
        match decode_reactions_list_file_item(j) {
            Ok(x) => Ok(ReactionsListItem::ReactionsListFileItem(x)),
            Err(e) => Err(e),
        }
    } else if t == "file_comment".to_owned() {
        match decode_reactions_list_file_comment_item(j) {
            Ok(x) => Ok(ReactionsListItem::ReactionsListFileCommentItem(x)),
            Err(e) => Err(e),
        }
    } else {
        Err(ClientError::UnknownItemType { item_type: t })
    }
}

/// Pagination of `reactions.list`.
#[derive(Debug)]
pub struct ReactionsListResponseMetadata {
    pub next_cursor: String,
}

/// `j` is an object whose members decode into a `ReactionsListResponseMetadata`.
pub open spec fn reactions_list_response_metadata_ok(j: Json) -> bool {
    &&& j is Object
    &&& ok_str(field(j, "next_cursor"@))
}

/// Each field of `x` is what the member of `j` of the same name holds.
pub open spec fn reactions_list_response_metadata_matches(j: Json, x: ReactionsListResponseMetadata) -> bool {
    &&& is_str(field(j, "next_cursor"@), x.next_cursor)
}

pub fn decode_reactions_list_response_metadata(j: Json) -> (r: Option<ReactionsListResponseMetadata>)
    ensures
        r is Some <==> reactions_list_response_metadata_ok(j),
        r matches Some(x) ==> reactions_list_response_metadata_matches(j, x),
{
    let members = match j {
        Json::Object(m) => m,
        _ => {
            return None;
        },
    };
    let keys: Vec<&str> = vec!["next_cursor"];
    proof {
        reveal_strlit("next_cursor");
        assert("next_cursor"@.len() == 11);
    }
    assert(distinct_names(keys@));
    let mut slots = take_fields(members, &keys);
    let next_cursor = match take_str(take_slot(&mut slots, 0)) {
        Some(v) => v,
        None => {
            return None;
        },
    };
    Some(ReactionsListResponseMetadata { next_cursor })
}

/// Decodes a member that must hold a `ReactionsListResponseMetadata`.
pub fn decode_reactions_list_response_metadata_member(o: Option<Json>) -> (r: Option<ReactionsListResponseMetadata>)
    ensures
        r is Some <==> (o matches Some(v) && reactions_list_response_metadata_ok(v)),
        r matches Some(x) ==> (o matches Some(v) && reactions_list_response_metadata_matches(v, x)),
{
    match o {
        Some(v) => decode_reactions_list_response_metadata(v),
        None => None,
    }
}

impl Default for ReactionsListResponseMetadata {
    fn default() -> (r: Self)
        ensures
            r.next_cursor@ == Seq::<char>::empty(),
    {
        Self { next_cursor: String::new() }
    }
}

/// Pagination is lenient: where it is absent or malformed the cursor is empty.
pub open spec fn metadata_outcome(o: Option<Json>, m: ReactionsListResponseMetadata) -> bool {
    match o {
        Some(v) => if reactions_list_response_metadata_ok(v) {
            reactions_list_response_metadata_matches(v, m)
        } else {
            m.next_cursor@ == Seq::<char>::empty()
        },
        None => m.next_cursor@ == Seq::<char>::empty(),
    }
}

pub fn metadata_or_default(o: Option<Json>) -> (r: ReactionsListResponseMetadata)
    ensures
        metadata_outcome(o, r),
{
    match decode_reactions_list_response_metadata_member(o) {
        Some(m) => m,
        None => ReactionsListResponseMetadata::default(),
    }
}

/// Payload of a successful `reactions.list`.
#[derive(Debug)]
pub struct ReactionsListSuccess {
    pub ok: bool,
    pub items: Vec<ReactionsListItem>,
    pub response_metadata: ReactionsListResponseMetadata,
}

#[derive(Debug)]
pub enum ReactionsListResponse {
    Success(ReactionsListSuccess),
    Error(ReactionsError),
}

/// What the members of a successful `reactions.list` resolve to: every entry
/// must resolve, and the first that does not decides the error.
pub open spec fn reactions_list_payload(j: Json, r: Result<ReactionsListSuccess, ClientError>) -> bool {
    match field(j, "items"@) {
        Some(Json::Array(a)) => if forall|i: int| 0 <= i < a@.len() ==> list_item_ok(#[trigger] a@[i]) {
            r matches Ok(s) && s.ok && s.items@.len() == a@.len()
                && (forall|i: int| 0 <= i < a@.len() ==> list_item_outcome(#[trigger] a@[i], Ok(s.items@[i])))
                && metadata_outcome(field(j, "response_metadata"@), s.response_metadata)
        } else {
            r matches Err(e) && exists|i: int| 0 <= i < a@.len() && !list_item_ok(#[trigger] a@[i])
                && (forall|k: int| 0 <= k < i ==> list_item_ok(#[trigger] a@[k]))
                && list_item_outcome(a@[i], Err(e))
        },
        _ => r matches Err(ClientError::MalformedSuccessPayload { field }) && field@ == "items"@,
    }
}

pub fn decode_reactions_list_payload(j: Json) -> (r: Result<ReactionsListSuccess, ClientError>)
    ensures
        reactions_list_payload(j, r),
{
    let members = match j {
        Json::Object(m) => m,
        _ => {
            return Err(ClientError::MalformedSuccessPayload { field: "items".to_owned() });
        },
    };
    let keys: Vec<&str> = vec!["items", "response_metadata"];
    proof {
        reveal_strlit("items");
        reveal_strlit("response_metadata");
        assert("items"@.len() == 5);
        assert("response_metadata"@.len() == 17);
    }
    assert(distinct_names(keys@));
    let mut slots = take_fields(members, &keys);
    let items_json = take_slot(&mut slots, 0);
    let meta_json = take_slot(&mut slots, 1);
    let arr = match items_json {
        Some(Json::Array(a)) => a,
        _ => {
            return Err(ClientError::MalformedSuccessPayload { field: "items".to_owned() });
        },
    };
    let ghost orig = arr@;
    let mut rest = arr;
    let mut out: Vec<ReactionsListItem> = Vec::new();
    while rest.len() > 0
        invariant
            field(j, "items"@) matches Some(Json::Array(a)) && a@ == orig,
            out@.len() + rest@.len() == orig.len(),
            rest@ == orig.subrange(out@.len() as int, orig.len() as int),
            forall|i: int| 0 <= i < out@.len() ==> list_item_ok(#[trigger] orig[i]),
            forall|i: int| 0 <= i < out@.len() ==> list_item_outcome(#[trigger] orig[i], Ok(out@[i])),
        decreases rest@.len(),
    {
        let ghost k = out@.len() as int;
        let item = rest.remove(0);
        assert(item == orig[k]);
        assert(rest@ =~= orig.subrange(k + 1, orig.len() as int));
        match decode_list_item(item) {
            Ok(x) => {
                out.push(x);
            },
            Err(e) => {
                assert(!list_item_ok(orig[k]));
                return Err(e);
            },
        }
    }
    let response_metadata = metadata_or_default(meta_json);
    Ok(ReactionsListSuccess { ok: true, items: out, response_metadata })
}

/// Two `reactions.list` payloads agree entry by entry and on the cursor.
pub open spec fn same_list_success(a: ReactionsListSuccess, b: ReactionsListSuccess) -> bool {
    &&& a.ok == b.ok
    &&& a.items@.len() == b.items@.len()
    &&& forall|i: int| 0 <= i < a.items@.len() ==> same_list_item(#[trigger] a.items@[i], b.items@[i])
    &&& a.response_metadata == b.response_metadata
}

impl ReactionsListSuccess {
    /// The payload as a response body. Read back, a body encoded from
    /// `ok: true`, with every entry's `type` naming its own kind, gives a
    /// payload with the same entries and cursor.
    pub fn into_json(self) -> (r: Json)
        requires
            forall|i: int| 0 <= i < self.items@.len() ==> list_item_valid(#[trigger] self.items@[i]),
        ensures
            self.ok && (forall|i: int| 0 <= i < self.items@.len() ==> item_tagged(#[trigger] self.items@[i]))
                ==> forall|d: Result<ReactionsListResponse, ClientError>| #[trigger] reactions_list_outcome(r, d)
                ==> (d matches Ok(ReactionsListResponse::Success(y)) && same_list_success(y, self)),
    {
        let ghost orig = self;
        let ReactionsListSuccess { ok, items, response_metadata } = self;
        let ghost src = items@;
        let mut rest = items;
        let mut out: Vec<Json> = Vec::new();
        while rest.len() > 0
            invariant
                forall|i: int| 0 <= i < src.len() ==> list_item_valid(#[trigger] src[i]),
                out@.len() + rest@.len() == src.len(),
                rest@ == src.subrange(out@.len() as int, src.len() as int),
                forall|i: int| 0 <= i < out@.len() ==> (item_tagged(src[i]) ==> list_item_ok(#[trigger] out@[i])),
                forall|i: int| 0 <= i < out@.len() ==> (item_tagged(src[i]) ==> forall|y: ReactionsListItem|
                    #[trigger] list_item_outcome(out@[i], Ok(y)) ==> same_list_item(y, src[i])),
            decreases rest@.len(),
        {
            let ghost k = out@.len() as int;
            let item = rest.remove(0);
            assert(item == src[k]);
            assert(rest@ =~= src.subrange(k + 1, src.len() as int));
            out.push(item.into_json());
        }
        let cursor: Vec<(String, Json)> = vec![("next_cursor".to_owned(), Json::Str(response_metadata.next_cursor))];
        let members: Vec<(String, Json)> = vec![
            ("ok".to_owned(), Json::Bool(ok)),
            ("items".to_owned(), Json::Array(out)),
            ("response_metadata".to_owned(), Json::Object(cursor)),
        ];
        proof {
            reveal_strlit("ok");
            reveal_strlit("items");
            reveal_strlit("response_metadata");
            reveal_strlit("next_cursor");
            assert("ok"@.len() == 2);
            assert("items"@.len() == 5);
            assert("response_metadata"@.len() == 17);
        }
        let ghost m = members@;
        let ghost c = cursor@;
        assert(m[0].0@ == "ok"@);
        assert(m[1].0@ == "items"@);
        assert(m[2].0@ == "response_metadata"@);
        assert(c[0].0@ == "next_cursor"@);
        assert forall|a: int, b: int| 0 <= a < b < m.len() implies m[a].0@ != m[b].0@ by {}
        proof {
            lemma_lookup_distinct(m, 0);
            lemma_lookup_distinct(m, 1);
            lemma_lookup_distinct(m, 2);
            lemma_lookup_distinct(c, 0);
        }
        let r = Json::Object(members);
        assert(ok_flag(r) == Some(ok));
        assert(field(r, "items"@) == Some(Json::Array(out)));
        assert(reactions_list_response_metadata_ok(Json::Object(cursor)));
        assert forall|d: Result<ReactionsListResponse, ClientError>| #[trigger] reactions_list_outcome(r, d)
            && orig.ok && (forall|i: int| 0 <= i < orig.items@.len() ==> item_tagged(#[trigger] orig.items@[i]))
            implies (d matches Ok(ReactionsListResponse::Success(y)) && same_list_success(y, orig)) by {
            assert(forall|i: int| 0 <= i < out@.len() ==> list_item_ok(#[trigger] out@[i]));
            if let Ok(ReactionsListResponse::Success(y)) = d {
                assert forall|i: int| 0 <= i < y.items@.len() implies same_list_item(#[trigger] y.items@[i], orig.items@[i]) by {
                    assert(list_item_outcome(out@[i], Ok(y.items@[i])));
                }
                assert(y.response_metadata.next_cursor == orig.response_metadata.next_cursor);
            }
        }
        r
    }
}

/// What a parsed `reactions.list` body resolves to.
pub open spec fn reactions_list_outcome(j: Json, r: Result<ReactionsListResponse, ClientError>) -> bool {
    match ok_flag(j) {
        None => r == Err::<ReactionsListResponse, ClientError>(ClientError::MalformedEnvelope),
        Some(true) => match r {
            Ok(ReactionsListResponse::Success(s)) => reactions_list_payload(j, Ok(s)),
            Ok(ReactionsListResponse::Error(_)) => false,
            Err(e) => reactions_list_payload(j, Err(e)),
        },
        Some(false) => if reactions_error_ok(j) {
            r matches Ok(ReactionsListResponse::Error(x)) && reactions_error_matches(j, x)
        } else {
            r == Err::<ReactionsListResponse, ClientError>(ClientError::MalformedErrorPayload)
        },
    }
}

/// Decodes a parsed `reactions.list` body according to its `ok` member.
pub fn decode_reactions_list(j: Json) -> (r: Result<ReactionsListResponse, ClientError>)
    ensures
        reactions_list_outcome(j, r),
{
    match read_ok(&j) {
        None => Err(ClientError::MalformedEnvelope),
        Some(true) => match decode_reactions_list_payload(j) {
            Ok(s) => Ok(ReactionsListResponse::Success(s)),
            Err(e) => Err(e),
        },
        Some(false) => match decode_reactions_error(j) {
            Some(x) => Ok(ReactionsListResponse::Error(x)),
            None => Err(ClientError::MalformedErrorPayload),
        },
    }
}

/// The whole `reactions.list` response: the status decides first, then the body.
pub open spec fn reactions_list_result(status: u16, body: String, parsed: Option<Json>, r: Result<ReactionsListResponse, ClientError>) -> bool {
    if !is_success_status(status) {
        r == Err::<ReactionsListResponse, ClientError>(ClientError::HttpStatus { status, body })
    } else {
        match parsed {
            None => r == Err::<ReactionsListResponse, ClientError>(ClientError::MalformedEnvelope),
            Some(j) => reactions_list_outcome(j, r),
        }
    }
}

/// Parameters of `reactions.remove`. The server wants `channel` with
/// `timestamp`, or `file`, or `file_comment`; which of them is given is
/// left to the caller.
#[derive(Debug)]
pub struct ReactionsRemoveParams {
    pub name: String,
    pub channel: Option<String>,
    pub file: Option<String>,
    pub file_comment: Option<String>,
    pub timestamp: Option<String>,
}

/// Payload of a successful `reactions.remove`.
#[derive(Debug)]
pub struct ReactionsRemoveSuccess {
    pub ok: bool,
}

/// `j` is an object whose members decode into a `ReactionsRemoveSuccess`.
pub open spec fn reactions_remove_success_ok(j: Json) -> bool {
    &&& j is Object
    &&& ok_bool(field(j, "ok"@))
}

/// Each field of `x` is what the member of `j` of the same name holds.
pub open spec fn reactions_remove_success_matches(j: Json, x: ReactionsRemoveSuccess) -> bool {
    &&& is_bool(field(j, "ok"@), x.ok)
}

/// The name of the first member of `j` that does not decode.
pub open spec fn reactions_remove_success_first_bad(j: Json) -> Seq<char> {
    if !ok_bool(field(j, "ok"@)) {
        "ok"@
    } else {
        Seq::empty()
    }
}

pub fn decode_reactions_remove_success(j: Json) -> (r: Result<ReactionsRemoveSuccess, ClientError>)
    ensures
        r is Ok <==> reactions_remove_success_ok(j),
        r matches Ok(x) ==> reactions_remove_success_matches(j, x),
        r matches Err(e) ==> (e matches ClientError::MalformedSuccessPayload { field } && field@ == reactions_remove_success_first_bad(j)),
{
    let members = match j {
        Json::Object(m) => m,
        _ => {
            return Err(ClientError::MalformedSuccessPayload { field: "ok".to_owned() });
        },
    };
    let keys: Vec<&str> = vec!["ok"];
    proof {
        reveal_strlit("ok");
        assert("ok"@.len() == 2);
    }
    assert(distinct_names(keys@));
    let mut slots = take_fields(members, &keys);
    let ok = match take_bool(take_slot(&mut slots, 0)) {
        Some(v) => v,
        None => {
            return Err(ClientError::MalformedSuccessPayload { field: "ok".to_owned() });
        },
    };
    Ok(ReactionsRemoveSuccess { ok })
}

impl ReactionsRemoveSuccess {
    /// The payload as a response body. Read back, a body encoded from `ok: true` gives this very payload.
    pub fn to_json(&self) -> (r: Json)
        ensures
            reactions_remove_success_ok(r),
            reactions_remove_success_matches(r, *self),
            self.ok ==> forall|d: Result<ReactionsRemoveResponse, ClientError>|
                #[trigger] reactions_remove_outcome(r, d) ==> d == Ok::<ReactionsRemoveResponse, ClientError>(ReactionsRemoveResponse::Success(*self)),
    {
        let members: Vec<(String, Json)> = vec![
            ("ok".to_owned(), Json::Bool(self.ok)),
        ];
        proof {
            reveal_strlit("ok");
            assert("ok"@.len() == 2);
        }
        let ghost m = members@;
        assert(m[0].0@ == "ok"@);
        assert forall|a: int, b: int| 0 <= a < b < m.len() implies m[a].0@ != m[b].0@ by {}
        assert forall|i: int| 0 <= i < m.len() implies lookup(m, #[trigger] m[i].0@) == Some(m[i].1) by {
            lemma_lookup_distinct(m, i);
        }
        Json::Object(members)
    }
}

#[derive(Debug)]
pub enum ReactionsRemoveResponse {
    Success(ReactionsRemoveSuccess),
    Error(ReactionsError),
}

/// What a parsed `reactions.remove` body resolves to.
pub open spec fn reactions_remove_outcome(j: Json, r: Result<ReactionsRemoveResponse, ClientError>) -> bool {
    match ok_flag(j) {
        None => r == Err::<ReactionsRemoveResponse, ClientError>(ClientError::MalformedEnvelope),
        Some(true) => if reactions_remove_success_ok(j) {
            r matches Ok(ReactionsRemoveResponse::Success(x)) && reactions_remove_success_matches(j, x)
        } else {
            r matches Err(ClientError::MalformedSuccessPayload { field }) && field@ == reactions_remove_success_first_bad(j)
        },
        Some(false) => if reactions_error_ok(j) {
            r matches Ok(ReactionsRemoveResponse::Error(x)) && reactions_error_matches(j, x)
        } else {
            r == Err::<ReactionsRemoveResponse, ClientError>(ClientError::MalformedErrorPayload)
        },
    }
}

/// Decodes a parsed response body according to its `ok` member.
pub fn decode_reactions_remove(j: Json) -> (r: Result<ReactionsRemoveResponse, ClientError>)
    ensures
        reactions_remove_outcome(j, r),
{
    match read_ok(&j) {
        None => Err(ClientError::MalformedEnvelope),
        Some(true) => match decode_reactions_remove_success(j) {
            Ok(x) => Ok(ReactionsRemoveResponse::Success(x)),
            Err(e) => Err(e),
        },
        Some(false) => match decode_reactions_error(j) {
            Some(x) => Ok(ReactionsRemoveResponse::Error(x)),
            None => Err(ClientError::MalformedErrorPayload),
        },
    }
}

/// The whole response: the status decides first, then the body.
pub open spec fn reactions_remove_result(status: u16, body: String, parsed: Option<Json>, r: Result<ReactionsRemoveResponse, ClientError>) -> bool {
    if !is_success_status(status) {
        r == Err::<ReactionsRemoveResponse, ClientError>(ClientError::HttpStatus { status, body })
    } else {
        match parsed {
            None => r == Err::<ReactionsRemoveResponse, ClientError>(ClientError::MalformedEnvelope),
            Some(j) => reactions_remove_outcome(j, r),
        }
    }
}
/// The values that `reactions.add` sends under the name `n`.
pub open spec fn reactions_add_sent(params: ReactionsAddParams, n: Seq<char>) -> Seq<Seq<char>> {
    if n == "channel"@ {
        seq![params.channel@]
    } else if n == "name"@ {
        seq![params.name@]
    } else if n == "timestamp"@ {
        seq![params.timestamp@]
    } else {
        Seq::empty()
    }
}

/// The pairs that `reactions.add` sends, in order.
pub open spec fn reactions_add_query(params: ReactionsAddParams) -> Seq<(Seq<char>, Seq<char>)> {
    seq![("channel"@, params.channel@)]
        + seq![("name"@, params.name@)]
        + seq![("timestamp"@, params.timestamp@)]
}


/// The values that `reactions.get` sends under the name `n`.
pub open spec fn reactions_get_sent(params: ReactionsGetParams, n: Seq<char>) -> Seq<Seq<char>> {
    if n == "channel"@ {
        opt_sent(params.channel)
    } else if n == "file"@ {
        opt_sent(params.file)
    } else if n == "file_comment"@ {
        opt_sent(params.file_comment)
    } else if n == "full"@ {
        bool_sent(params.full)
    } else if n == "timestamp"@ {
        opt_sent(params.timestamp)
    } else {
        Seq::empty()
    }
}

/// The pairs that `reactions.get` sends, in order.
pub open spec fn reactions_get_query(params: ReactionsGetParams) -> Seq<(Seq<char>, Seq<char>)> {
    opt_pair("channel"@, params.channel)
        + opt_pair("file"@, params.file)
        + opt_pair("file_comment"@, params.file_comment)
        + bool_pair("full"@, params.full)
        + opt_pair("timestamp"@, params.timestamp)
}


/// The values that `reactions.list` sends under the name `n`.
pub open spec fn reactions_list_sent(params: ReactionsListParams, n: Seq<char>) -> Seq<Seq<char>> {
    if n == "count"@ {
        int_sent(params.count)
    } else if n == "cursor"@ {
        opt_sent(params.cursor)
    } else if n == "full"@ {
        bool_sent(params.full)
    } else if n == "limit"@ {
        int_sent(params.limit)
    } else if n == "page"@ {
        int_sent(params.page)
    } else if n == "team_id"@ {
        opt_sent(params.team_id)
    } else if n == "user"@ {
        opt_sent(params.user)
    } else {
        Seq::empty()
    }
}

/// The pairs that `reactions.list` sends, in order.
pub open spec fn reactions_list_query(params: ReactionsListParams) -> Seq<(Seq<char>, Seq<char>)> {
    int_pair("count"@, params.count)
        + opt_pair("cursor"@, params.cursor)
        + bool_pair("full"@, params.full)
        + int_pair("limit"@, params.limit)
        + int_pair("page"@, params.page)
        + opt_pair("team_id"@, params.team_id)
        + opt_pair("user"@, params.user)
}


/// The values that `reactions.remove` sends under the name `n`.
pub open spec fn reactions_remove_sent(params: ReactionsRemoveParams, n: Seq<char>) -> Seq<Seq<char>> {
    if n == "channel"@ {
        opt_sent(params.channel)
    } else if n == "file"@ {
        opt_sent(params.file)
    } else if n == "file_comment"@ {
        opt_sent(params.file_comment)
    } else if n == "name"@ {
        seq![params.name@]
    } else if n == "timestamp"@ {
        opt_sent(params.timestamp)
    } else {
        Seq::empty()
    }
}

/// The pairs that `reactions.remove` sends, in order.
pub open spec fn reactions_remove_query(params: ReactionsRemoveParams) -> Seq<(Seq<char>, Seq<char>)> {
    opt_pair("channel"@, params.channel)
        + opt_pair("file"@, params.file)
        + opt_pair("file_comment"@, params.file_comment)
        + seq![("name"@, params.name@)]
        + opt_pair("timestamp"@, params.timestamp)
}


/// Calls to the reactions endpoints with one bearer token.
#[derive(Debug)]
pub struct ReactionsApi {
    pub token: String,
}

impl ReactionsApi {
    /// The `reactions.add` request; all three parameters are sent.
    pub fn add(&self, params: ReactionsAddParams) -> (r: ApiRequest)
        ensures
            r.method == HttpMethod::Post,
            r.url@ == "https://slack.com/api/reactions.add"@,
            r.authorization@ == bearer(self.token@),
            query_view(r.query@) == reactions_add_query(params),
            forall|n: Seq<char>| #[trigger] sent(r.query@, n) == reactions_add_sent(params, n),
    {
        let ghost given = params;
        let p = params;
        proof {
            reveal_strlit("channel");
            reveal_strlit("name");
            reveal_strlit("timestamp");
            assert("channel"@.len() == 7);
            assert("name"@.len() == 4);
            assert("timestamp"@.len() == 9);
        }
        let ghost t_channel = seq![p.channel@];
        let v_channel: Option<String> = Some(p.channel);
        assert(opt_sent(v_channel) =~= t_channel);
        let ghost u_channel = seq![("channel"@, p.channel@)];
        assert(opt_pair("channel"@, v_channel) =~= u_channel);
        let ghost t_name = seq![p.name@];
        let v_name: Option<String> = Some(p.name);
        assert(opt_sent(v_name) =~= t_name);
        let ghost u_name = seq![("name"@, p.name@)];
        assert(opt_pair("name"@, v_name) =~= u_name);
        let ghost t_timestamp = seq![p.timestamp@];
        let v_timestamp: Option<String> = Some(p.timestamp);
        assert(opt_sent(v_timestamp) =~= t_timestamp);
        let ghost u_timestamp = seq![("timestamp"@, p.timestamp@)];
        assert(opt_pair("timestamp"@, v_timestamp) =~= u_timestamp);
        let mut query: Vec<(String, String)> = Vec::new();
        assert(query_view(query@) =~= Seq::empty());
        assert(forall|n: Seq<char>| #[trigger] sent(query@, n) == Seq::<Seq<char>>::empty());
        add_param_to_url(&mut query, "channel", v_channel);
        add_param_to_url(&mut query, "name", v_name);
        add_param_to_url(&mut query, "timestamp", v_timestamp);
        assert(query_view(query@) =~= u_channel + u_name + u_timestamp);
        assert forall|n: Seq<char>| #[trigger] sent(query@, n) == reactions_add_sent(given, n) by {
            if n == "channel"@ {
                assert(Seq::<Seq<char>>::empty() + t_channel + Seq::<Seq<char>>::empty() + Seq::<Seq<char>>::empty() =~= t_channel);
            } else if n == "name"@ {
                assert(Seq::<Seq<char>>::empty() + Seq::<Seq<char>>::empty() + t_name + Seq::<Seq<char>>::empty() =~= t_name);
            } else if n == "timestamp"@ {
                assert(Seq::<Seq<char>>::empty() + Seq::<Seq<char>>::empty() + Seq::<Seq<char>>::empty() + t_timestamp =~= t_timestamp);
            } else {
                assert(Seq::<Seq<char>>::empty() + Seq::<Seq<char>>::empty() + Seq::<Seq<char>>::empty() + Seq::<Seq<char>>::empty() =~= Seq::<Seq<char>>::empty());
            }
        }
        ApiRequest {
            method: HttpMethod::Post,
            url: "https://slack.com/api/reactions.add".to_owned(),
            query,
            authorization: bearer_header(&self.token),
        }
    }

    /// Resolves a response: `status` and `body` as received, `parsed` the
    /// body read as JSON (`None` where it is not JSON).
    pub fn add_response(status: u16, body: String, parsed: Option<Json>) -> (r: Result<ReactionsAddResponse, ClientError>)
        ensures
            reactions_add_result(status, body, parsed, r),
    {
        match check_status(status, body, parsed) {
            Ok(j) => decode_reactions_add(j),
            Err(e) => Err(e),
        }
    }

    /// The `reactions.get` request; absent parameters are not sent.
    pub fn get(&self, params: ReactionsGetParams) -> (r: ApiRequest)
        ensures
            r.method == HttpMethod::Get,
            r.url@ == "https://slack.com/api/reactions.get"@,
            r.authorization@ == bearer(self.token@),
            query_view(r.query@) == reactions_get_query(params),
            forall|n: Seq<char>| #[trigger] sent(r.query@, n) == reactions_get_sent(params, n),
    {
        let ghost given = params;
        let p = params;
        proof {
            reveal_strlit("channel");
            reveal_strlit("file");
            reveal_strlit("file_comment");
            reveal_strlit("full");
            reveal_strlit("timestamp");
            assert("channel"@.len() == 7);
            assert("file"@.len() == 4);
            assert("file_comment"@.len() == 12);
            assert("full"@.len() == 4);
            assert("timestamp"@.len() == 9);
            assert("file"@[1] == 'i');
            assert("full"@[1] == 'u');
        }
        let ghost t_channel = opt_sent(p.channel);
        let v_channel: Option<String> = p.channel;
        let ghost u_channel = opt_pair("channel"@, p.channel);
        let ghost t_file = opt_sent(p.file);
        let v_file: Option<String> = p.file;
        let ghost u_file = opt_pair("file"@, p.file);
        let ghost t_file_comment = opt_sent(p.file_comment);
        let v_file_comment: Option<String> = p.file_comment;
        let ghost u_file_comment = opt_pair("file_comment"@, p.file_comment);
        let ghost t_full = bool_sent(p.full);
        let v_full: Option<String> = opt_bool_text(p.full);
        assert(opt_sent(v_full) =~= t_full);
        let ghost u_full = bool_pair("full"@, p.full);
        assert(opt_pair("full"@, v_full) =~= u_full);
        let ghost t_timestamp = opt_sent(p.timestamp);
        let v_timestamp: Option<String> = p.timestamp;
        let ghost u_timestamp = opt_pair("timestamp"@, p.timestamp);
        let mut query: Vec<(String, String)> = Vec::new();
        assert(query_view(query@) =~= Seq::empty());
        assert(forall|n: Seq<char>| #[trigger] sent(query@, n) == Seq::<Seq<char>>::empty());
        add_param_to_url(&mut query, "channel", v_channel);
        add_param_to_url(&mut query, "file", v_file);
        add_param_to_url(&mut query, "file_comment", v_file_comment);
        add_param_to_url(&mut query, "full", v_full);
        add_param_to_url(&mut query, "timestamp", v_timestamp);
        assert(query_view(query@) =~= u_channel + u_file + u_file_comment + u_full + u_timestamp);
        assert forall|n: Seq<char>| #[trigger] sent(query@, n) == reactions_get_sent(given, n) by {
            if n == "channel"@ {
                assert(Seq::<Seq<char>>::empty() + t_channel + Seq::<Seq<char>>::empty() + Seq::<Seq<char>>::empty() + Seq::<Seq<char>>::empty() + Seq::<Seq<char>>::empty() =~= t_channel);
            } else if n == "file"@ {
                assert(Seq::<Seq<char>>::empty() + Seq::<Seq<char>>::empty() + t_file + Seq::<Seq<char>>::empty() + Seq::<Seq<char>>::empty() + Seq::<Seq<char>>::empty() =~= t_file);
            } else if n == "file_comment"@ {
                assert(Seq::<Seq<char>>::empty() + Seq::<Seq<char>>::empty() + Seq::<Seq<char>>::empty() + t_file_comment + Seq::<Seq<char>>::empty() + Seq::<Seq<char>>::empty() =~= t_file_comment);
            } else if n == "full"@ {
                assert(Seq::<Seq<char>>::empty() + Seq::<Seq<char>>::empty() + Seq::<Seq<char>>::empty() + Seq::<Seq<char>>::empty() + t_full + Seq::<Seq<char>>::empty() =~= t_full);
            } else if n == "timestamp"@ {
                assert(Seq::<Seq<char>>::empty() + Seq::<Seq<char>>::empty() + Seq::<Seq<char>>::empty() + Seq::<Seq<char>>::empty() + Seq::<Seq<char>>::empty() + t_timestamp =~= t_timestamp);
            } else {
                assert(Seq::<Seq<char>>::empty() + Seq::<Seq<char>>::empty() + Seq::<Seq<char>>::empty() + Seq::<Seq<char>>::empty() + Seq::<Seq<char>>::empty() + Seq::<Seq<char>>::empty() =~= Seq::<Seq<char>>::empty());
            }
        }
        ApiRequest {
            method: HttpMethod::Get,
            url: "https://slack.com/api/reactions.get".to_owned(),
            query,
            authorization: bearer_header(&self.token),
        }
    }

    /// Resolves a response: `status` and `body` as received, `parsed` the
    /// body read as JSON (`None` where it is not JSON).
    pub fn get_response(status: u16, body: String, parsed: Option<Json>) -> (r: Result<ReactionsGetResponse, ClientError>)
        ensures
            reactions_get_result(status, body, parsed, r),
    {
        match check_status(status, body, parsed) {
            Ok(j) => decode_reactions_get(j),
            Err(e) => Err(e),
        }
    }

    /// The `reactions.list` request; absent parameters are not sent.
    pub fn list(&self, params: ReactionsListParams) -> (r: ApiRequest)
        ensures
            r.method == HttpMethod::Get,
            r.url@ == "https://slack.com/api/reactions.list"@,
            r.authorization@ == bearer(self.token@),
            query_view(r.query@) == reactions_list_query(params),
            forall|n: Seq<char>| #[trigger] sent(r.query@, n) == reactions_list_sent(params, n),
    {
        let ghost given = params;
        let p = params;
        proof {
            reveal_strlit("count");
            reveal_strlit("cursor");
            reveal_strlit("full");
            reveal_strlit("limit");
            reveal_strlit("page");
            reveal_strlit("team_id");
            reveal_strlit("user");
            assert("count"@.len() == 5);
            assert("cursor"@.len() == 6);
            assert("full"@.len() == 4);
            assert("limit"@.len() == 5);
            assert("page"@.len() == 4);
            assert("team_id"@.len() == 7);
            assert("user"@.len() == 4);
            assert("count"@[0] == 'c');
            assert("limit"@[0] == 'l');
            assert("full"@[0] == 'f');
            assert("page"@[0] == 'p');
            assert("user"@[0] == 'u');
        }
        let ghost t_count = int_sent(p.count);
        let v_count: Option<String> = opt_int_text(p.count);
        assert(opt_sent(v_count) =~= t_count);
        let ghost u_count = int_pair("count"@, p.count);
        assert(opt_pair("count"@, v_count) =~= u_count);
        let ghost t_cursor = opt_sent(p.cursor);
        let v_cursor: Option<String> = p.cursor;
        let ghost u_cursor = opt_pair("cursor"@, p.cursor);
        let ghost t_full = bool_sent(p.full);
        let v_full: Option<String> = opt_bool_text(p.full);
        assert(opt_sent(v_full) =~= t_full);
        let ghost u_full = bool_pair("full"@, p.full);
        assert(opt_pair("full"@, v_full) =~= u_full);
        let ghost t_limit = int_sent(p.limit);
        let v_limit: Option<String> = opt_int_text(p.limit);
        assert(opt_sent(v_limit) =~= t_limit);
        let ghost u_limit = int_pair("limit"@, p.limit);
        assert(opt_pair("limit"@, v_limit) =~= u_limit);
        let ghost t_page = int_sent(p.page);
        let v_page: Option<String> = opt_int_text(p.page);
        assert(opt_sent(v_page) =~= t_page);
        let ghost u_page = int_pair("page"@, p.page);
        assert(opt_pair("page"@, v_page) =~= u_page);
        let ghost t_team_id = opt_sent(p.team_id);
        let v_team_id: Option<String> = p.team_id;
        let ghost u_team_id = opt_pair("team_id"@, p.team_id);
        let ghost t_user = opt_sent(p.user);
        let v_user: Option<String> = p.user;
        let ghost u_user = opt_pair("user"@, p.user);
        let mut query: Vec<(String, String)> = Vec::new();
        assert(query_view(query@) =~= Seq::empty());
        assert(forall|n: Seq<char>| #[trigger] sent(query@, n) == Seq::<Seq<char>>::empty());
        add_param_to_url(&mut query, "count", v_count);
        add_param_to_url(&mut query, "cursor", v_cursor);
        add_param_to_url(&mut query, "full", v_full);
        add_param_to_url(&mut query, "limit", v_limit);
        add_param_to_url(&mut query, "page", v_page);
        add_param_to_url(&mut query, "team_id", v_team_id);
        add_param_to_url(&mut query, "user", v_user);
        assert(query_view(query@) =~= u_count + u_cursor + u_full + u_limit + u_page + u_team_id + u_user);
        assert forall|n: Seq<char>| #[trigger] sent(query@, n) == reactions_list_sent(given, n) by {
            if n == "count"@ {
                assert(Seq::<Seq<char>>::empty() + t_count + Seq::<Seq<char>>::empty() + Seq::<Seq<char>>::empty() + Seq::<Seq<char>>::empty() + Seq::<Seq<char>>::empty() + Seq::<Seq<char>>::empty() + Seq::<Seq<char>>::empty() =~= t_count);
            } else if n == "cursor"@ {
                assert(Seq::<Seq<char>>::empty() + Seq::<Seq<char>>::empty() + t_cursor + Seq::<Seq<char>>::empty() + Seq::<Seq<char>>::empty() + Seq::<Seq<char>>::empty() + Seq::<Seq<char>>::empty() + Seq::<Seq<char>>::empty() =~= t_cursor);
            } else if n == "full"@ {
                assert(Seq::<Seq<char>>::empty() + Seq::<Seq<char>>::empty() + Seq::<Seq<char>>::empty() + t_full + Seq::<Seq<char>>::empty() + Seq::<Seq<char>>::empty() + Seq::<Seq<char>>::empty() + Seq::<Seq<char>>::empty() =~= t_full);
            } else if n == "limit"@ {
                assert(Seq::<Seq<char>>::empty() + Seq::<Seq<char>>::empty() + Seq::<Seq<char>>::empty() + Seq::<Seq<char>>::empty() + t_limit + Seq::<Seq<char>>::empty() + Seq::<Seq<char>>::empty() + Seq::<Seq<char>>::empty() =~= t_limit);
            } else if n == "page"@ {
                assert(Seq::<Seq<char>>::empty() + Seq::<Seq<char>>::empty() + Seq::<Seq<char>>::empty() + Seq::<Seq<char>>::empty() + Seq::<Seq<char>>::empty() + t_page + Seq::<Seq<char>>::empty() + Seq::<Seq<char>>::empty() =~= t_page);
            } else if n == "team_id"@ {
                assert(Seq::<Seq<char>>::empty() + Seq::<Seq<char>>::empty() + Seq::<Seq<char>>::empty() + Seq::<Seq<char>>::empty() + Seq::<Seq<char>>::empty() + Seq::<Seq<char>>::empty() + t_team_id + Seq::<Seq<char>>::empty() =~= t_team_id);
            } else if n == "user"@ {
                assert(Seq::<Seq<char>>::empty() + Seq::<Seq<char>>::empty() + Seq::<Seq<char>>::empty() + Seq::<Seq<char>>::empty() + Seq::<Seq<char>>::empty() + Seq::<Seq<char>>::empty() + Seq::<Seq<char>>::empty() + t_user =~= t_user);
            } else {
                assert(Seq::<Seq<char>>::empty() + Seq::<Seq<char>>::empty() + Seq::<Seq<char>>::empty() + Seq::<Seq<char>>::empty() + Seq::<Seq<char>>::empty() + Seq::<Seq<char>>::empty() + Seq::<Seq<char>>::empty() + Seq::<Seq<char>>::empty() =~= Seq::<Seq<char>>::empty());
            }
        }
        ApiRequest {
            method: HttpMethod::Get,
            url: "https://slack.com/api/reactions.list".to_owned(),
            query,
            authorization: bearer_header(&self.token),
        }
    }

    /// Resolves a response: `status` and `body` as received, `parsed` the
    /// body read as JSON (`None` where it is not JSON).
    pub fn list_response(status: u16, body: String, parsed: Option<Json>) -> (r: Result<ReactionsListResponse, ClientError>)
        ensures
            reactions_list_result(status, body, parsed, r),
    {
        match check_status(status, body, parsed) {
            Ok(j) => decode_reactions_list(j),
            Err(e) => Err(e),
        }
    }

    /// The `reactions.remove` request; `name` is always sent, the others where given.
    pub fn remove(&self, params: ReactionsRemoveParams) -> (r: ApiRequest)
        ensures
            r.method == HttpMethod::Post,
            r.url@ == "https://slack.com/api/reactions.remove"@,
            r.authorization@ == bearer(self.token@),
            query_view(r.query@) == reactions_remove_query(params),
            forall|n: Seq<char>| #[trigger] sent(r.query@, n) == reactions_remove_sent(params, n),
    {
        let ghost given = params;
        let p = params;
        proof {
            reveal_strlit("channel");
            reveal_strlit("file");
            reveal_strlit("file_comment");
            reveal_strlit("name");
            reveal_strlit("timestamp");
            assert("channel"@.len() == 7);
            assert("file"@.len() == 4);
            assert("file_comment"@.len() == 12);
            assert("name"@.len() == 4);
            assert("timestamp"@.len() == 9);
            assert("file"@[0] == 'f');
            assert("name"@[0] == 'n');
        }
        let ghost t_channel = opt_sent(p.channel);
        let v_channel: Option<String> = p.channel;
        let ghost u_channel = opt_pair("channel"@, p.channel);
        let ghost t_file = opt_sent(p.file);
        let v_file: Option<String> = p.file;
        let ghost u_file = opt_pair("file"@, p.file);
        let ghost t_file_comment = opt_sent(p.file_comment);
        let v_file_comment: Option<String> = p.file_comment;
        let ghost u_file_comment = opt_pair("file_comment"@, p.file_comment);
        let ghost t_name = seq![p.name@];
        let v_name: Option<String> = Some(p.name);
        assert(opt_sent(v_name) =~= t_name);
        let ghost u_name = seq![("name"@, p.name@)];
        assert(opt_pair("name"@, v_name) =~= u_name);
        let ghost t_timestamp = opt_sent(p.timestamp);
        let v_timestamp: Option<String> = p.timestamp;
        let ghost u_timestamp = opt_pair("timestamp"@, p.timestamp);
        let mut query: Vec<(String, String)> = Vec::new();
        assert(query_view(query@) =~= Seq::empty());
        assert(forall|n: Seq<char>| #[trigger] sent(query@, n) == Seq::<Seq<char>>::empty());
        add_param_to_url(&mut query, "channel", v_channel);
        add_param_to_url(&mut query, "file", v_file);
        add_param_to_url(&mut query, "file_comment", v_file_comment);
        add_param_to_url(&mut query, "name", v_name);
        add_param_to_url(&mut query, "timestamp", v_timestamp);
        assert(query_view(query@) =~= u_channel + u_file + u_file_comment + u_name + u_timestamp);
        assert forall|n: Seq<char>| #[trigger] sent(query@, n) == reactions_remove_sent(given, n) by {
            if n == "channel"@ {
                assert(Seq::<Seq<char>>::empty() + t_channel + Seq::<Seq<char>>::empty() + Seq::<Seq<char>>::empty() + Seq::<Seq<char>>::empty() + Seq::<Seq<char>>::empty() =~= t_channel);
            } else if n == "file"@ {
                assert(Seq::<Seq<char>>::empty() + Seq::<Seq<char>>::empty() + t_file + Seq::<Seq<char>>::empty() + Seq::<Seq<char>>::empty() + Seq::<Seq<char>>::empty() =~= t_file);
            } else if n == "file_comment"@ {
                assert(Seq::<Seq<char>>::empty() + Seq::<Seq<char>>::empty() + Seq::<Seq<char>>::empty() + t_file_comment + Seq::<Seq<char>>::empty() + Seq::<Seq<char>>::empty() =~= t_file_comment);
            } else if n == "name"@ {
                assert(Seq::<Seq<char>>::empty() + Seq::<Seq<char>>::empty() + Seq::<Seq<char>>::empty() + Seq::<Seq<char>>::empty() + t_name + Seq::<Seq<char>>::empty() =~= t_name);
            } else if n == "timestamp"@ {
                assert(Seq::<Seq<char>>::empty() + Seq::<Seq<char>>::empty() + Seq::<Seq<char>>::empty() + Seq::<Seq<char>>::empty() + Seq::<Seq<char>>::empty() + t_timestamp =~= t_timestamp);
            } else {
                assert(Seq::<Seq<char>>::empty() + Seq::<Seq<char>>::empty() + Seq::<Seq<char>>::empty() + Seq::<Seq<char>>::empty() + Seq::<Seq<char>>::empty() + Seq::<Seq<char>>::empty() =~= Seq::<Seq<char>>::empty());
            }
        }
        ApiRequest {
            method: HttpMethod::Post,
            url: "https://slack.com/api/reactions.remove".to_owned(),
            query,
            authorization: bearer_header(&self.token),
        }
    }

    /// Resolves a response: `status` and `body` as received, `parsed` the
    /// body read as JSON (`None` where it is not JSON).
    pub fn remove_response(status: u16, body: String, parsed: Option<Json>) -> (r: Result<ReactionsRemoveResponse, ClientError>)
        ensures
            reactions_remove_result(status, body, parsed, r),
    {
        match check_status(status, body, parsed) {
            Ok(j) => decode_reactions_remove(j),
            Err(e) => Err(e),
        }
    }
}

} // verus!
