//! `bots.info`: details of a bot user.
use vstd::prelude::*;
use crate::envelope::{check_status, is_success_status, ok_flag, read_ok};
use crate::error::ClientError;
use crate::json::{
    distinct_names, field, is_bool, is_i64, is_str, lemma_lookup_distinct, lookup, ok_bool, ok_i64,
    ok_str, take_bool, take_fields, take_i64, take_slot, take_str, Json,
};
use crate::request::{
    add_param_to_url, bearer, bearer_header, opt_pair, opt_sent, query_view, sent, ApiRequest,
    HttpMethod,
};

verus! {

/// Optional filters of `bots.info`.
#[derive(Debug)]
pub struct BotsInfoParams {
    pub bot: Option<String>,
    pub team_id: Option<String>,
}

impl BotsInfoParams {
    pub fn new_default() -> (r: Self)
        ensures
            r.bot is None,
            r.team_id is None,
    {
        Self { bot: None, team_id: None }
    }
}

/// Icon URLs of a bot, by size.
#[derive(Debug)]
pub struct BotIcons {
    pub image_36: String,
    pub image_48: String,
    pub image_72: String,
}

/// `j` is an object whose members decode into a `BotIcons`.
pub open spec fn bot_icons_ok(j: Json) -> bool {
    &&& j is Object
    &&& ok_str(field(j, "image_36"@))
    &&& ok_str(field(j, "image_48"@))
    &&& ok_str(field(j, "image_72"@))
}

/// Each field of `x` is what the member of `j` of the same name holds.
pub open spec fn bot_icons_matches(j: Json, x: BotIcons) -> bool {
    &&& is_str(field(j, "image_36"@), x.image_36)
    &&& is_str(field(j, "image_48"@), x.image_48)
    &&& is_str(field(j, "image_72"@), x.image_72)
}

pub fn decode_bot_icons(j: Json) -> (r: Option<BotIcons>)
    ensures
        r is Some <==> bot_icons_ok(j),
        r matches Some(x) ==> bot_icons_matches(j, x),
{
    let members = match j {
        Json::Object(m) => m,
        _ => {
            return None;
        },
    };
    let keys: Vec<&str> = vec!["image_36", "image_48", "image_72"];
    proof {
        reveal_strlit("image_36");
        reveal_strlit("image_48");
        reveal_strlit("image_72");
        assert("image_36"@.len() == 8);
        assert("image_48"@.len() == 8);
        assert("image_72"@.len() == 8);
        assert("image_36"@[6] == '3');
        assert("image_48"@[6] == '4');
        assert("image_72"@[6] == '7');
    }
    assert(distinct_names(keys@));
    let mut slots = take_fields(members, &keys);
    let image_36 = match take_str(take_slot(&mut slots, 0)) {
        Some(v) => v,
        None => {
            return None;
        },
    };
    let image_48 = match take_str(take_slot(&mut slots, 1)) {
        Some(v) => v,
        None => {
            return None;
        },
    };
    let image_72 = match take_str(take_slot(&mut slots, 2)) {
        Some(v) => v,
        None => {
            return None;
        },
    };
    Some(BotIcons { image_36, image_48, image_72 })
}

/// Decodes a member that must hold a `BotIcons`.
pub fn decode_bot_icons_member(o: Option<Json>) -> (r: Option<BotIcons>)
    ensures
        r is Some <==> (o matches Some(v) && bot_icons_ok(v)),
        r matches Some(x) ==> (o matches Some(v) && bot_icons_matches(v, x)),
{
    match o {
        Some(v) => decode_bot_icons(v),
        None => None,
    }
}

/// A bot user.
#[derive(Debug)]
pub struct Bot {
    pub id: String,
    pub deleted: bool,
    pub name: String,
    pub app_id: String,
    pub user_id: String,
    pub updated: i64,
    pub icons: BotIcons,
}

/// `j` is an object whose members decode into a `Bot`.
pub open spec fn bot_ok(j: Json) -> bool {
    &&& j is Object
    &&& ok_str(field(j, "id"@))
    &&& ok_bool(field(j, "deleted"@))
    &&& ok_str(field(j, "name"@))
    &&& ok_str(field(j, "app_id"@))
    &&& ok_str(field(j, "user_id"@))
    &&& ok_i64(field(j, "updated"@))
    &&& (field(j, "icons"@) matches Some(v) && bot_icons_ok(v))
}

/// Each field of `x` is what the member of `j` of the same name holds.
pub open spec fn bot_matches(j: Json, x: Bot) -> bool {
    &&& is_str(field(j, "id"@), x.id)
    &&& is_bool(field(j, "deleted"@), x.deleted)
    &&& is_str(field(j, "name"@), x.name)
    &&& is_str(field(j, "app_id"@), x.app_id)
    &&& is_str(field(j, "user_id"@), x.user_id)
    &&& is_i64(field(j, "updated"@), x.updated)
    &&& (field(j, "icons"@) matches Some(v) && bot_icons_matches(v, x.icons))
}

pub fn decode_bot(j: Json) -> (r: Option<Bot>)
    ensures
        r is Some <==> bot_ok(j),
        r matches Some(x) ==> bot_matches(j, x),
{
    let members = match j {
        Json::Object(m) => m,
        _ => {
            return None;
        },
    };
    let keys: Vec<&str> = vec!["id", "deleted", "name", "app_id", "user_id", "updated", "icons"];
    proof {
        reveal_strlit("id");
        reveal_strlit("deleted");
        reveal_strlit("name");
        reveal_strlit("app_id");
        reveal_strlit("user_id");
        reveal_strlit("updated");
        reveal_strlit("icons");
        assert("id"@.len() == 2);
        assert("deleted"@.len() == 7);
        assert("name"@.len() == 4);
        assert("app_id"@.len() == 6);
        assert("user_id"@.len() == 7);
        assert("updated"@.len() == 7);
        assert("icons"@.len() == 5);
        assert("deleted"@[0] == 'd');
        assert("user_id"@[0] == 'u');
        assert("updated"@[0] == 'u');
        assert("user_id"@[1] == 's');
        assert("updated"@[1] == 'p');
    }
    assert(distinct_names(keys@));
    let mut slots = take_fields(members, &keys);
    let id = match take_str(take_slot(&mut slots, 0)) {
        Some(v) => v,
        None => {
            return None;
        },
    };
    let deleted = match take_bool(take_slot(&mut slots, 1)) {
        Some(v) => v,
        None => {
            return None;
        },
    };
    let name = match take_str(take_slot(&mut slots, 2)) {
        Some(v) => v,
        None => {
            return None;
        },
    };
    let app_id = match take_str(take_slot(&mut slots, 3)) {
        Some(v) => v,
        None => {
            return None;
        },
    };
    let user_id = match take_str(take_slot(&mut slots, 4)) {
        Some(v) => v,
        None => {
            return None;
        },
    };
    let updated = match take_i64(take_slot(&mut slots, 5)) {
        Some(v) => v,
        None => {
            return None;
        },
    };
    let icons = match decode_bot_icons_member(take_slot(&mut slots, 6)) {
        Some(v) => v,
        None => {
            return None;
        },
    };
    Some(Bot { id, deleted, name, app_id, user_id, updated, icons })
}

/// Decodes a member that must hold a `Bot`.
pub fn decode_bot_member(o: Option<Json>) -> (r: Option<Bot>)
    ensures
        r is Some <==> (o matches Some(v) && bot_ok(v)),
        r matches Some(x) ==> (o matches Some(v) && bot_matches(v, x)),
{
    match o {
        Some(v) => decode_bot(v),
        None => None,
    }
}

/// Payload of a successful `bots.info`.
#[derive(Debug)]
pub struct BotsInfoSuccess {
    pub ok: bool,
    pub bot: Bot,
}

/// `j` is an object whose members decode into a `BotsInfoSuccess`.
pub open spec fn bots_info_success_ok(j: Json) -> bool {
    &&& j is Object
    &&& ok_bool(field(j, "ok"@))
    &&& (field(j, "bot"@) matches Some(v) && bot_ok(v))
}

/// Each field of `x` is what the member of `j` of the same name holds.
pub open spec fn bots_info_success_matches(j: Json, x: BotsInfoSuccess) -> bool {
    &&& is_bool(field(j, "ok"@), x.ok)
    &&& (field(j, "bot"@) matches Some(v) && bot_matches(v, x.bot))
}

/// The name of the first member of `j` that does not decode.
pub open spec fn bots_info_success_first_bad(j: Json) -> Seq<char> {
    if !ok_bool(field(j, "ok"@)) {
        "ok"@
    } else if !(field(j, "bot"@) matches Some(v) && bot_ok(v)) {
        "bot"@
    } else {
        Seq::empty()
    }
}

pub fn decode_bots_info_success(j: Json) -> (r: Result<BotsInfoSuccess, ClientError>)
    ensures
        r is Ok <==> bots_info_success_ok(j),
        r matches Ok(x) ==> bots_info_success_matches(j, x),
        r matches Err(e) ==> (e matches ClientError::MalformedSuccessPayload { field } && field@ == bots_info_success_first_bad(j)),
{
    let members = match j {
        Json::Object(m) => m,
        _ => {
            return Err(ClientError::MalformedSuccessPayload { field: "ok".to_owned() });
        },
    };
    let keys: Vec<&str> = vec!["ok", "bot"];
    proof {
        reveal_strlit("ok");
        reveal_strlit("bot");
        assert("ok"@.len() == 2);
        assert("bot"@.len() == 3);
    }
    assert(distinct_names(keys@));
    let mut slots = take_fields(members, &keys);
    let ok = match take_bool(take_slot(&mut slots, 0)) {
        Some(v) => v,
        None => {
            return Err(ClientError::MalformedSuccessPayload { field: "ok".to_owned() });
        },
    };
    let bot = match decode_bot_member(take_slot(&mut slots, 1)) {
        Some(v) => v,
        None => {
            return Err(ClientError::MalformedSuccessPayload { field: "bot".to_owned() });
        },
    };
    Ok(BotsInfoSuccess { ok, bot })
}

/// Payload of a rejected `bots.info`.
#[derive(Debug)]
pub struct BotsInfoError {
    pub ok: bool,
    pub error: String,
}

/// `j` is an object whose members decode into a `BotsInfoError`.
pub open spec fn bots_info_error_ok(j: Json) -> bool {
    &&& j is Object
    &&& ok_bool(field(j, "ok"@))
    &&& ok_str(field(j, "error"@))
}

/// Each field of `x` is what the member of `j` of the same name holds.
pub open spec fn bots_info_error_matches(j: Json, x: BotsInfoError) -> bool {
    &&& is_bool(field(j, "ok"@), x.ok)
    &&& is_str(field(j, "error"@), x.error)
}

pub fn decode_bots_info_error(j: Json) -> (r: Option<BotsInfoError>)
    ensures
        r is Some <==> bots_info_error_ok(j),
        r matches Some(x) ==> bots_info_error_matches(j, x),
{
    let members = match j {
        Json::Object(m) => m,
        _ => {
            return None;
        },
    };
    let keys: Vec<&str> = vec!["ok", "error"];
    proof {
        reveal_strlit("ok");
        reveal_strlit("error");
        assert("ok"@.len() == 2);
        assert("error"@.len() == 5);
    }
    assert(distinct_names(keys@));
    let mut slots = take_fields(members, &keys);
    let ok = match take_bool(take_slot(&mut slots, 0)) {
        Some(v) => v,
        None => {
            return None;
        },
    };
    let error = match take_str(take_slot(&mut slots, 1)) {
        Some(v) => v,
        None => {
            return None;
        },
    };
    Some(BotsInfoError { ok, error })
}

impl BotIcons {
    /// The icons as a JSON object.
    pub fn to_json(&self) -> (r: Json)
        ensures
            bot_icons_ok(r),
            bot_icons_matches(r, *self),
    {
        let members: Vec<(String, Json)> = vec![
            ("image_36".to_owned(), Json::Str(self.image_36.clone())),
            ("image_48".to_owned(), Json::Str(self.image_48.clone())),
            ("image_72".to_owned(), Json::Str(self.image_72.clone())),
        ];
        proof {
            reveal_strlit("image_36");
            reveal_strlit("image_48");
            reveal_strlit("image_72");
            assert("image_36"@.len() == 8);
            assert("image_48"@.len() == 8);
            assert("image_72"@.len() == 8);
            assert("image_36"@[6] == '3');
            assert("image_48"@[6] == '4');
            assert("image_72"@[6] == '7');
        }
        let ghost m = members@;
        assert(m[0].0@ == "image_36"@);
        assert(m[1].0@ == "image_48"@);
        assert(m[2].0@ == "image_72"@);
        assert forall|a: int, b: int| 0 <= a < b < m.len() implies m[a].0@ != m[b].0@ by {}
        assert forall|i: int| 0 <= i < m.len() implies lookup(m, #[trigger] m[i].0@) == Some(m[i].1) by {
            lemma_lookup_distinct(m, i);
        }
        Json::Object(members)
    }
}

impl Bot {
    /// The bot as a JSON object.
    pub fn to_json(&self) -> (r: Json)
        ensures
            bot_ok(r),
            bot_matches(r, *self),
    {
        let members: Vec<(String, Json)> = vec![
            ("id".to_owned(), Json::Str(self.id.clone())),
            ("deleted".to_owned(), Json::Bool(self.deleted)),
            ("name".to_owned(), Json::Str(self.name.clone())),
            ("app_id".to_owned(), Json::Str(self.app_id.clone())),
            ("user_id".to_owned(), Json::Str(self.user_id.clone())),
            ("updated".to_owned(), Json::Int(self.updated)),
            ("icons".to_owned(), self.icons.to_json()),
        ];
        proof {
            reveal_strlit("id");
            reveal_strlit("deleted");
            reveal_strlit("name");
            reveal_strlit("app_id");
            reveal_strlit("user_id");
            reveal_strlit("updated");
            reveal_strlit("icons");
            assert("id"@.len() == 2);
            assert("deleted"@.len() == 7);
            assert("name"@.len() == 4);
            assert("app_id"@.len() == 6);
            assert("user_id"@.len() == 7);
            assert("updated"@.len() == 7);
            assert("icons"@.len() == 5);
            assert("deleted"@[0] == 'd');
            assert("user_id"@[0] == 'u');
            assert("updated"@[0] == 'u');
            assert("user_id"@[1] == 's');
            assert("updated"@[1] == 'p');
        }
        let ghost m = members@;
        assert(m[0].0@ == "id"@);
        assert(m[1].0@ == "deleted"@);
        assert(m[2].0@ == "name"@);
        assert(m[3].0@ == "app_id"@);
        assert(m[4].0@ == "user_id"@);
        assert(m[5].0@ == "updated"@);
        assert(m[6].0@ == "icons"@);
        assert forall|a: int, b: int| 0 <= a < b < m.len() implies m[a].0@ != m[b].0@ by {}
        assert forall|i: int| 0 <= i < m.len() implies lookup(m, #[trigger] m[i].0@) == Some(m[i].1) by {
            lemma_lookup_distinct(m, i);
        }
        Json::Object(members)
    }
}

impl BotsInfoSuccess {
    /// The payload as a response body. Read back, a body encoded from `ok: true` gives this very payload.
    pub fn to_json(&self) -> (r: Json)
        ensures
            bots_info_success_ok(r),
            bots_info_success_matches(r, *self),
            self.ok ==> forall|d: Result<BotsInfoResponse, ClientError>|
                #[trigger] bots_info_outcome(r, d) ==> d == Ok::<BotsInfoResponse, ClientError>(BotsInfoResponse::Success(*self)),
    {
        let members: Vec<(String, Json)> = vec![
            ("ok".to_owned(), Json::Bool(self.ok)),
            ("bot".to_owned(), self.bot.to_json()),
        ];
        proof {
            reveal_strlit("ok");
            reveal_strlit("bot");
            assert("ok"@.len() == 2);
            assert("bot"@.len() == 3);
        }
        let ghost m = members@;
        assert(m[0].0@ == "ok"@);
        assert(m[1].0@ == "bot"@);
        assert forall|a: int, b: int| 0 <= a < b < m.len() implies m[a].0@ != m[b].0@ by {}
        assert forall|i: int| 0 <= i < m.len() implies lookup(m, #[trigger] m[i].0@) == Some(m[i].1) by {
            lemma_lookup_distinct(m, i);
        }
        Json::Object(members)
    }
}

impl BotsInfoError {
    /// The rejection as a response body. Read back, a body encoded from `ok: false` gives this very rejection.
    pub fn to_json(&self) -> (r: Json)
        ensures
            bots_info_error_ok(r),
            bots_info_error_matches(r, *self),
            !self.ok ==> forall|d: Result<BotsInfoResponse, ClientError>|
                #[trigger] bots_info_outcome(r, d) ==> d == Ok::<BotsInfoResponse, ClientError>(BotsInfoResponse::Error(*self)),
    {
        let members: Vec<(String, Json)> = vec![
            ("ok".to_owned(), Json::Bool(self.ok)),
            ("error".to_owned(), Json::Str(self.error.clone())),
        ];
        proof {
            reveal_strlit("ok");
            reveal_strlit("error");
            assert("ok"@.len() == 2);
            assert("error"@.len() == 5);
        }
        let ghost m = members@;
        assert(m[0].0@ == "ok"@);
        assert(m[1].0@ == "error"@);
        assert forall|a: int, b: int| 0 <= a < b < m.len() implies m[a].0@ != m[b].0@ by {}
        assert forall|i: int| 0 <= i < m.len() implies lookup(m, #[trigger] m[i].0@) == Some(m[i].1) by {
            lemma_lookup_distinct(m, i);
        }
        Json::Object(members)
    }
}

#[derive(Debug)]
pub enum BotsInfoResponse {
    Success(BotsInfoSuccess),
    Error(BotsInfoError),
}

/// What a parsed `bots.info` body resolves to.
pub open spec fn bots_info_outcome(j: Json, r: Result<BotsInfoResponse, ClientError>) -> bool {
    match ok_flag(j) {
        None => r == Err::<BotsInfoResponse, ClientError>(ClientError::MalformedEnvelope),
        Some(true) => if bots_info_success_ok(j) {
            r matches Ok(BotsInfoResponse::Success(x)) && bots_info_success_matches(j, x)
        } else {
            r matches Err(ClientError::MalformedSuccessPayload { field }) && field@ == bots_info_success_first_bad(j)
        },
        Some(false) => if bots_info_error_ok(j) {
            r matches Ok(BotsInfoResponse::Error(x)) && bots_info_error_matches(j, x)
        } else {
            r == Err::<BotsInfoResponse, ClientError>(ClientError::MalformedErrorPayload)
        },
    }
}

/// Decodes a parsed response body according to its `ok` member.
pub fn decode_bots_info(j: Json) -> (r: Result<BotsInfoResponse, ClientError>)
    ensures
        bots_info_outcome(j, r),
{
    match read_ok(&j) {
        None => Err(ClientError::MalformedEnvelope),
        Some(true) => match decode_bots_info_success(j) {
            Ok(x) => Ok(BotsInfoResponse::Success(x)),
            Err(e) => Err(e),
        },
        Some(false) => match decode_bots_info_error(j) {
            Some(x) => Ok(BotsInfoResponse::Error(x)),
            None => Err(ClientError::MalformedErrorPayload),
        },
    }
}

/// The whole response: the status decides first, then the body.
pub open spec fn bots_info_result(status: u16, body: String, parsed: Option<Json>, r: Result<BotsInfoResponse, ClientError>) -> bool {
    if !is_success_status(status) {
        r == Err::<BotsInfoResponse, ClientError>(ClientError::HttpStatus { status, body })
    } else {
        match parsed {
            None => r == Err::<BotsInfoResponse, ClientError>(ClientError::MalformedEnvelope),
            Some(j) => bots_info_outcome(j, r),
        }
    }
}

/// The values that `bots.info` sends under the name `n`.
pub open spec fn bots_info_sent(params: Option<BotsInfoParams>, n: Seq<char>) -> Seq<Seq<char>> {
    let p = match params {
        Some(p) => p,
        None => BotsInfoParams { bot: None, team_id: None },
    };
    if n == "bot"@ {
        opt_sent(p.bot)
    } else if n == "team_id"@ {
        opt_sent(p.team_id)
    } else {
        Seq::empty()
    }
}

/// The pairs that `bots.info` sends, in order.
pub open spec fn bots_info_query(params: Option<BotsInfoParams>) -> Seq<(Seq<char>, Seq<char>)> {
    let p = match params {
        Some(p) => p,
        None => BotsInfoParams { bot: None, team_id: None },
    };
    opt_pair("bot"@, p.bot)
        + opt_pair("team_id"@, p.team_id)
}


/// Calls to `bots.info` with one bearer token.
#[derive(Debug)]
pub struct BotsAPI {
    pub token: String,
}

impl BotsAPI {
    /// The `bots.info` request; absent parameters are not sent.
    pub fn info(&self, params: Option<BotsInfoParams>) -> (r: ApiRequest)
        ensures
            r.method == HttpMethod::Get,
            r.url@ == "https://slack.com/api/bots.info"@,
            r.authorization@ == bearer(self.token@),
            query_view(r.query@) == bots_info_query(params),
            forall|n: Seq<char>| #[trigger] sent(r.query@, n) == bots_info_sent(params, n),
    {
        let ghost given = params;
        let p = match params {
            Some(p) => p,
            None => BotsInfoParams::new_default(),
        };
        proof {
            reveal_strlit("bot");
            reveal_strlit("team_id");
            assert("bot"@.len() == 3);
            assert("team_id"@.len() == 7);
        }
        let ghost t_bot = opt_sent(p.bot);
        let v_bot: Option<String> = p.bot;
        let ghost u_bot = opt_pair("bot"@, p.bot);
        let ghost t_team_id = opt_sent(p.team_id);
        let v_team_id: Option<String> = p.team_id;
        let ghost u_team_id = opt_pair("team_id"@, p.team_id);
        let mut query: Vec<(String, String)> = Vec::new();
        assert(query_view(query@) =~= Seq::empty());
        assert(forall|n: Seq<char>| #[trigger] sent(query@, n) == Seq::<Seq<char>>::empty());
        add_param_to_url(&mut query, "bot", v_bot);
        add_param_to_url(&mut query, "team_id", v_team_id);
        assert(query_view(query@) =~= u_bot + u_team_id);
        assert forall|n: Seq<char>| #[trigger] sent(query@, n) == bots_info_sent(given, n) by {
            if n == "bot"@ {
                assert(Seq::<Seq<char>>::empty() + t_bot + Seq::<Seq<char>>::empty() =~= t_bot);
            } else if n == "team_id"@ {
                assert(Seq::<Seq<char>>::empty() + Seq::<Seq<char>>::empty() + t_team_id =~= t_team_id);
            } else {
                assert(Seq::<Seq<char>>::empty() + Seq::<Seq<char>>::empty() + Seq::<Seq<char>>::empty() =~= Seq::<Seq<char>>::empty());
            }
        }
        ApiRequest {
            method: HttpMethod::Get,
            url: "https://slack.com/api/bots.info".to_owned(),
            query,
            authorization: bearer_header(&self.token),
        }
    }

    /// Resolves a response: `status` and `body` as received, `parsed` the
    /// body read as JSON (`None` where it is not JSON).
    pub fn info_response(status: u16, body: String, parsed: Option<Json>) -> (r: Result<BotsInfoResponse, ClientError>)
        ensures
            bots_info_result(status, body, parsed, r),
    {
        match check_status(status, body, parsed) {
            Ok(j) => decode_bots_info(j),
            Err(e) => Err(e),
        }
    }
}

} // verus!
