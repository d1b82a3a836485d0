//! `emoji.list`: the custom emoji of a workspace.
use vstd::prelude::*;
use crate::envelope::{check_status, is_success_status, ok_flag, read_ok};
use crate::error::ClientError;
use crate::json::{
    distinct_names, field, is_bool, is_opt_str, is_str, is_str_list, is_str_map,
    lemma_lookup_distinct, lookup, ok_bool, ok_opt_str, ok_str, ok_str_list, ok_str_map,
    opt_str_json, pair_names_distinct, str_list_json, str_map_json, take_bool, take_fields,
    take_opt_str, take_slot, take_str, take_str_list, take_str_map, Json,
};
use crate::request::{
    add_param_to_url, bearer, bearer_header, bool_text, opt_pair, opt_sent, query_view, sent,
    ApiRequest, HttpMethod,
};

verus! {

/// Options of `emoji.list`.
#[derive(Debug)]
pub struct EmojiListParams {
    pub include_categories: bool,
}

impl EmojiListParams {
    pub fn new_default() -> (r: Self)
        ensures
            !r.include_categories,
    {
        Self { include_categories: false }
    }
}

/// A named group of emoji.
#[derive(Debug)]
pub struct Category {
    pub name: String,
    pub emoji_names: Vec<String>,
}

/// `j` is an object whose members decode into a `Category`.
pub open spec fn category_ok(j: Json) -> bool {
    &&& j is Object
    &&& ok_str(field(j, "name"@))
    &&& ok_str_list(field(j, "emoji_names"@))
}

/// Each field of `x` is what the member of `j` of the same name holds.
pub open spec fn category_matches(j: Json, x: Category) -> bool {
    &&& is_str(field(j, "name"@), x.name)
    &&& is_str_list(field(j, "emoji_names"@), x.emoji_names)
}

pub fn decode_category(j: Json) -> (r: Option<Category>)
    ensures
        r is Some <==> category_ok(j),
        r matches Some(x) ==> category_matches(j, x),
{
    let members = match j {
        Json::Object(m) => m,
        _ => {
            return None;
        },
    };
    let keys: Vec<&str> = vec!["name", "emoji_names"];
    proof {
        reveal_strlit("name");
        reveal_strlit("emoji_names");
        assert("name"@.len() == 4);
        assert("emoji_names"@.len() == 11);
    }
    assert(distinct_names(keys@));
    let mut slots = take_fields(members, &keys);
    let name = match take_str(take_slot(&mut slots, 0)) {
        Some(v) => v,
        None => {
            return None;
        },
    };
    let emoji_names = match take_str_list(take_slot(&mut slots, 1)) {
        Some(v) => v,
        None => {
            return None;
        },
    };
    Some(Category { name, emoji_names })
}

/// Two category lists hold the same names and emoji, in the same order.
pub open spec fn same_categories(a: Option<Vec<Category>>, b: Option<Vec<Category>>) -> bool {
    match (a, b) {
        (None, None) => true,
        (Some(x), Some(y)) => x@.len() == y@.len() && forall|i: int|
            0 <= i < x@.len() ==> #[trigger] x@[i].name == y@[i].name && x@[i].emoji_names@ == y@[i].emoji_names@,
        _ => false,
    }
}

/// Two `emoji.list` payloads agree field by field.
pub open spec fn same_emoji_list_success(a: EmojiListSuccess, b: EmojiListSuccess) -> bool {
    &&& a.ok == b.ok
    &&& a.emoji@ == b.emoji@
    &&& a.cache_ts == b.cache_ts
    &&& a.categories_version == b.categories_version
    &&& same_categories(a.categories, b.categories)
}


impl Category {
    /// The category as a JSON object.
    pub fn to_json(&self) -> (r: Json)
        ensures
            category_ok(r),
            category_matches(r, *self),
    {
        let members: Vec<(String, Json)> = vec![
            ("name".to_owned(), Json::Str(self.name.clone())),
            ("emoji_names".to_owned(), str_list_json(&self.emoji_names)),
        ];
        proof {
            reveal_strlit("name");
            reveal_strlit("emoji_names");
            assert("name"@.len() == 4);
            assert("emoji_names"@.len() == 11);
        }
        let ghost m = members@;
        assert(m[0].0@ == "name"@);
        assert(m[1].0@ == "emoji_names"@);
        assert forall|a: int, b: int| 0 <= a < b < m.len() implies m[a].0@ != m[b].0@ by {}
        assert forall|i: int| 0 <= i < m.len() implies lookup(m, #[trigger] m[i].0@) == Some(m[i].1) by {
            lemma_lookup_distinct(m, i);
        }
        Json::Object(members)
    }
}

/// The member is an array of `Category` records.
pub open spec fn ok_category_list(o: Option<Json>) -> bool {
    o matches Some(Json::Array(a)) && forall|i: int| 0 <= i < a@.len() ==> category_ok(#[trigger] a@[i])
}

pub open spec fn is_category_list(o: Option<Json>, v: Vec<Category>) -> bool {
    o matches Some(Json::Array(a)) && a@.len() == v@.len() && forall|i: int|
        0 <= i < a@.len() ==> category_matches(#[trigger] a@[i], v@[i])
}

pub fn take_category_list(o: Option<Json>) -> (r: Option<Vec<Category>>)
    ensures
        r is Some <==> ok_category_list(o),
        r matches Some(v) ==> is_category_list(o, v),
{
    let items = match o {
        Some(Json::Array(a)) => a,
        _ => {
            return None;
        },
    };
    let ghost orig = items@;
    let mut rest = items;
    let mut out: Vec<Category> = Vec::new();
    while rest.len() > 0
        invariant
            o matches Some(Json::Array(a)) && a@ == orig,
            out@.len() + rest@.len() == orig.len(),
            rest@ == orig.subrange(out@.len() as int, orig.len() as int),
            forall|i: int| 0 <= i < out@.len() ==> category_ok(orig[i]) && category_matches(orig[i], out@[i]),
        decreases rest@.len(),
    {
        let ghost k = out@.len() as int;
        let item = rest.remove(0);
        assert(item == orig[k]);
        assert(rest@ =~= orig.subrange(k + 1, orig.len() as int));
        match decode_category(item) {
            Some(x) => out.push(x),
            None => {
                assert(!category_ok(orig[k]));
                return None;
            },
        }
    }
    Some(out)
}

/// An optional member holding an array of `Category` records: absent or `null` is `None`.
pub open spec fn ok_category_opt_list(o: Option<Json>) -> bool {
    o is None || o == Some(Json::Null) || ok_category_list(o)
}

pub open spec fn is_category_opt_list(o: Option<Json>, v: Option<Vec<Category>>) -> bool {
    match v {
        None => o is None || o == Some(Json::Null),
        Some(l) => is_category_list(o, l),
    }
}

pub fn take_category_opt_list(o: Option<Json>) -> (r: Option<Option<Vec<Category>>>)
    ensures
        r is Some <==> ok_category_opt_list(o),
        r matches Some(v) ==> is_category_opt_list(o, v),
{
    match o {
        None => Some(None),
        Some(Json::Null) => Some(None),
        _ => match take_category_list(o) {
            Some(l) => Some(Some(l)),
            None => None,
        },
    }
}

/// `Category` records as a JSON array, in order.
pub fn category_list_json(v: &Vec<Category>) -> (r: Json)
    ensures
        ok_category_list(Some(r)),
        is_category_list(Some(r), *v),
{
    let mut out: Vec<Json> = Vec::new();
    let mut i: usize = 0;
    while i < v.len()
        invariant
            i <= v@.len(),
            out@.len() == i,
            forall|t: int| 0 <= t < i ==> category_ok(#[trigger] out@[t]) && category_matches(out@[t], v@[t]),
        decreases v@.len() - i,
    {
        out.push(v[i].to_json());
        i = i + 1;
    }
    Json::Array(out)
}

/// An optional list of `Category` records: `null` where absent.
pub fn category_opt_list_json(v: &Option<Vec<Category>>) -> (r: Json)
    ensures
        ok_category_opt_list(Some(r)),
        is_category_opt_list(Some(r), *v),
{
    match v {
        Some(l) => category_list_json(l),
        None => Json::Null,
    }
}

/// Payload of a successful `emoji.list`.
#[derive(Debug)]
pub struct EmojiListSuccess {
    pub ok: bool,
    /// Emoji name to image URL, in the order of the parsed object; names are distinct.
    pub emoji: Vec<(String, String)>,
    pub cache_ts: String,
    pub categories_version: Option<String>,
    pub categories: Option<Vec<Category>>,
}

/// `j` is an object whose members decode into a `EmojiListSuccess`.
pub open spec fn emoji_list_success_ok(j: Json) -> bool {
    &&& j is Object
    &&& ok_bool(field(j, "ok"@))
    &&& ok_str_map(field(j, "emoji"@))
    &&& ok_str(field(j, "cache_ts"@))
    &&& ok_opt_str(field(j, "categories_version"@))
    &&& ok_category_opt_list(field(j, "categories"@))
}

/// Each field of `x` is what the member of `j` of the same name holds.
pub open spec fn emoji_list_success_matches(j: Json, x: EmojiListSuccess) -> bool {
    &&& is_bool(field(j, "ok"@), x.ok)
    &&& is_str_map(field(j, "emoji"@), x.emoji)
    &&& is_str(field(j, "cache_ts"@), x.cache_ts)
    &&& is_opt_str(field(j, "categories_version"@), x.categories_version)
    &&& is_category_opt_list(field(j, "categories"@), x.categories)
}

/// The name of the first member of `j` that does not decode.
pub open spec fn emoji_list_success_first_bad(j: Json) -> Seq<char> {
    if !ok_bool(field(j, "ok"@)) {
        "ok"@
    } else if !ok_str_map(field(j, "emoji"@)) {
        "emoji"@
    } else if !ok_str(field(j, "cache_ts"@)) {
        "cache_ts"@
    } else if !ok_opt_str(field(j, "categories_version"@)) {
        "categories_version"@
    } else if !ok_category_opt_list(field(j, "categories"@)) {
        "categories"@
    } else {
        Seq::empty()
    }
}

pub fn decode_emoji_list_success(j: Json) -> (r: Result<EmojiListSuccess, ClientError>)
    ensures
        r is Ok <==> emoji_list_success_ok(j),
        r matches Ok(x) ==> emoji_list_success_matches(j, x),
        r matches Err(e) ==> (e matches ClientError::MalformedSuccessPayload { field } && field@ == emoji_list_success_first_bad(j)),
{
    let members = match j {
        Json::Object(m) => m,
        _ => {
            return Err(ClientError::MalformedSuccessPayload { field: "ok".to_owned() });
        },
    };
    let keys: Vec<&str> = vec!["ok", "emoji", "cache_ts", "categories_version", "categories"];
    proof {
        reveal_strlit("ok");
        reveal_strlit("emoji");
        reveal_strlit("cache_ts");
        reveal_strlit("categories_version");
        reveal_strlit("categories");
        assert("ok"@.len() == 2);
        assert("emoji"@.len() == 5);
        assert("cache_ts"@.len() == 8);
        assert("categories_version"@.len() == 18);
        assert("categories"@.len() == 10);
    }
    assert(distinct_names(keys@));
    let mut slots = take_fields(members, &keys);
    let ok = match take_bool(take_slot(&mut slots, 0)) {
        Some(v) => v,
        None => {
            return Err(ClientError::MalformedSuccessPayload { field: "ok".to_owned() });
        },
    };
    let emoji = match take_str_map(take_slot(&mut slots, 1)) {
        Some(v) => v,
        None => {
            return Err(ClientError::MalformedSuccessPayload { field: "emoji".to_owned() });
        },
    };
    let cache_ts = match take_str(take_slot(&mut slots, 2)) {
        Some(v) => v,
        None => {
            return Err(ClientError::MalformedSuccessPayload { field: "cache_ts".to_owned() });
        },
    };
    let categories_version = match take_opt_str(take_slot(&mut slots, 3)) {
        Some(v) => v,
        None => {
            return Err(ClientError::MalformedSuccessPayload { field: "categories_version".to_owned() });
        },
    };
    let categories = match take_category_opt_list(take_slot(&mut slots, 4)) {
        Some(v) => v,
        None => {
            return Err(ClientError::MalformedSuccessPayload { field: "categories".to_owned() });
        },
    };
    Ok(EmojiListSuccess { ok, emoji, cache_ts, categories_version, categories })
}

/// Payload of a rejected `emoji.list`.
#[derive(Debug)]
pub struct EmojiError {
    pub ok: bool,
    pub error: String,
}

/// `j` is an object whose members decode into a `EmojiError`.
pub open spec fn emoji_error_ok(j: Json) -> bool {
    &&& j is Object
    &&& ok_bool(field(j, "ok"@))
    &&& ok_str(field(j, "error"@))
}

/// Each field of `x` is what the member of `j` of the same name holds.
pub open spec fn emoji_error_matches(j: Json, x: EmojiError) -> bool {
    &&& is_bool(field(j, "ok"@), x.ok)
    &&& is_str(field(j, "error"@), x.error)
}

pub fn decode_emoji_error(j: Json) -> (r: Option<EmojiError>)
    ensures
        r is Some <==> emoji_error_ok(j),
        r matches Some(x) ==> emoji_error_matches(j, x),
{
    let members = match j {
        Json::Object(m) => m,
        _ => {
            return None;
        },
    };
    let keys: Vec<&str> = vec!["ok", "error"];
    proof {
        reveal_strlit("ok");
        reveal_strlit("error");
        assert("ok"@.len() == 2);
        assert("error"@.len() == 5);
    }
    assert(distinct_names(keys@));
    let mut slots = take_fields(members, &keys);
    let ok = match take_bool(take_slot(&mut slots, 0)) {
        Some(v) => v,
        None => {
            return None;
        },
    };
    let error = match take_str(take_slot(&mut slots, 1)) {
        Some(v) => v,
        None => {
            return None;
        },
    };
    Some(EmojiError { ok, error })
}

impl EmojiListSuccess {
    /// The payload as a response body. Read back, a body encoded from `ok: true` gives a payload with the same fields.
    pub fn to_json(&self) -> (r: Json)
        requires
            pair_names_distinct(self.emoji@),
        ensures
            emoji_list_success_ok(r),
            emoji_list_success_matches(r, *self),
            self.ok ==> forall|d: Result<EmojiListResponse, ClientError>|
                #[trigger] emoji_list_outcome(r, d) ==> (d matches Ok(EmojiListResponse::Success(y))
                    && same_emoji_list_success(y, *self)),
    {
        let members: Vec<(String, Json)> = vec![
            ("ok".to_owned(), Json::Bool(self.ok)),
            ("emoji".to_owned(), str_map_json(&self.emoji)),
            ("cache_ts".to_owned(), Json::Str(self.cache_ts.clone())),
            ("categories_version".to_owned(), opt_str_json(&self.categories_version)),
            ("categories".to_owned(), category_opt_list_json(&self.categories)),
        ];
        proof {
            reveal_strlit("ok");
            reveal_strlit("emoji");
            reveal_strlit("cache_ts");
            reveal_strlit("categories_version");
            reveal_strlit("categories");
            assert("ok"@.len() == 2);
            assert("emoji"@.len() == 5);
            assert("cache_ts"@.len() == 8);
            assert("categories_version"@.len() == 18);
            assert("categories"@.len() == 10);
        }
        let ghost m = members@;
        assert(m[0].0@ == "ok"@);
        assert(m[1].0@ == "emoji"@);
        assert(m[2].0@ == "cache_ts"@);
        assert(m[3].0@ == "categories_version"@);
        assert(m[4].0@ == "categories"@);
        assert forall|a: int, b: int| 0 <= a < b < m.len() implies m[a].0@ != m[b].0@ by {}
        assert forall|i: int| 0 <= i < m.len() implies lookup(m, #[trigger] m[i].0@) == Some(m[i].1) by {
            lemma_lookup_distinct(m, i);
        }
        let r = Json::Object(members);
        assert(emoji_list_success_ok(r));
        assert(emoji_list_success_matches(r, *self));
        assert forall|d: Result<EmojiListResponse, ClientError>| #[trigger] emoji_list_outcome(r, d) && self.ok
            implies (d matches Ok(EmojiListResponse::Success(y)) && same_emoji_list_success(y, *self)) by {
            assert(ok_flag(r) == Some(true));
            if let Ok(EmojiListResponse::Success(y)) = d {
                assert(emoji_list_success_matches(r, y));
                if let Some(Json::Object(m)) = field(r, "emoji"@) {
                    assert forall|i: int| 0 <= i < y.emoji@.len() implies y.emoji@[i] == self.emoji@[i] by {
                        assert(m@[i].0 == y.emoji@[i].0 && m@[i].1 == Json::Str(y.emoji@[i].1));
                        assert(m@[i].0 == self.emoji@[i].0 && m@[i].1 == Json::Str(self.emoji@[i].1));
                    }
                }
                assert(y.emoji@ =~= self.emoji@);
                if let (Some(a), Some(b)) = (y.categories, self.categories) {
                    if let Some(Json::Array(c)) = field(r, "categories"@) {
                        assert forall|i: int| 0 <= i < a@.len() implies a@[i].name == b@[i].name && a@[i].emoji_names@ == b@[i].emoji_names@ by {
                            assert(category_matches(c@[i], a@[i]));
                            assert(category_matches(c@[i], b@[i]));
                            if let Some(Json::Array(n)) = field(c@[i], "emoji_names"@) {
                                assert forall|k: int| 0 <= k < n@.len() implies a@[i].emoji_names@[k] == b@[i].emoji_names@[k] by {
                                    assert(n@[k] == Json::Str(a@[i].emoji_names@[k]));
                                    assert(n@[k] == Json::Str(b@[i].emoji_names@[k]));
                                }
                            }
                            assert(a@[i].emoji_names@ =~= b@[i].emoji_names@);
                        }
                    }
                }
                assert(y.ok == self.ok);
                assert(y.cache_ts == self.cache_ts);
                assert(y.categories_version == self.categories_version);
                assert(same_categories(y.categories, self.categories));
            }
        }
        r
    }
}

impl EmojiError {
    /// The rejection as a response body. Read back, a body encoded from `ok: false` gives this very rejection.
    pub fn to_json(&self) -> (r: Json)
        ensures
            emoji_error_ok(r),
            emoji_error_matches(r, *self),
            !self.ok ==> forall|d: Result<EmojiListResponse, ClientError>|
                #[trigger] emoji_list_outcome(r, d) ==> d == Ok::<EmojiListResponse, ClientError>(EmojiListResponse::Error(*self)),
    {
        let members: Vec<(String, Json)> = vec![
            ("ok".to_owned(), Json::Bool(self.ok)),
            ("error".to_owned(), Json::Str(self.error.clone())),
        ];
        proof {
            reveal_strlit("ok");
            reveal_strlit("error");
            assert("ok"@.len() == 2);
            assert("error"@.len() == 5);
        }
        let ghost m = members@;
        assert(m[0].0@ == "ok"@);
        assert(m[1].0@ == "error"@);
        assert forall|a: int, b: int| 0 <= a < b < m.len() implies m[a].0@ != m[b].0@ by {}
        assert forall|i: int| 0 <= i < m.len() implies lookup(m, #[trigger] m[i].0@) == Some(m[i].1) by {
            lemma_lookup_distinct(m, i);
        }
        Json::Object(members)
    }
}

#[derive(Debug)]
pub enum EmojiListResponse {
    Success(EmojiListSuccess),
    Error(EmojiError),
}

/// What a parsed `emoji.list` body resolves to.
pub open spec fn emoji_list_outcome(j: Json, r: Result<EmojiListResponse, ClientError>) -> bool {
    match ok_flag(j) {
        None => r == Err::<EmojiListResponse, ClientError>(ClientError::MalformedEnvelope),
        Some(true) => if emoji_list_success_ok(j) {
            r matches Ok(EmojiListResponse::Success(x)) && emoji_list_success_matches(j, x)
        } else {
            r matches Err(ClientError::MalformedSuccessPayload { field }) && field@ == emoji_list_success_first_bad(j)
        },
        Some(false) => if emoji_error_ok(j) {
            r matches Ok(EmojiListResponse::Error(x)) && emoji_error_matches(j, x)
        } else {
            r == Err::<EmojiListResponse, ClientError>(ClientError::MalformedErrorPayload)
        },
    }
}

/// Decodes a parsed response body according to its `ok` member.
pub fn decode_emoji_list(j: Json) -> (r: Result<EmojiListResponse, ClientError>)
    ensures
        emoji_list_outcome(j, r),
{
    match read_ok(&j) {
        None => Err(ClientError::MalformedEnvelope),
        Some(true) => match decode_emoji_list_success(j) {
            Ok(x) => Ok(EmojiListResponse::Success(x)),
            Err(e) => Err(e),
        },
        Some(false) => match decode_emoji_error(j) {
            Some(x) => Ok(EmojiListResponse::Error(x)),
            None => Err(ClientError::MalformedErrorPayload),
        },
    }
}

/// The whole response: the status decides first, then the body.
pub open spec fn emoji_list_result(status: u16, body: String, parsed: Option<Json>, r: Result<EmojiListResponse, ClientError>) -> bool {
    if !is_success_status(status) {
        r == Err::<EmojiListResponse, ClientError>(ClientError::HttpStatus { status, body })
    } else {
        match parsed {
            None => r == Err::<EmojiListResponse, ClientError>(ClientError::MalformedEnvelope),
            Some(j) => emoji_list_outcome(j, r),
        }
    }
}
/// The values that `emoji.list` sends under the name `n`.
pub open spec fn emoji_list_sent(params: Option<EmojiListParams>, n: Seq<char>) -> Seq<Seq<char>> {
    let p = match params {
        Some(p) => p,
        None => EmojiListParams { include_categories: false },
    };
    if n == "include_categories"@ {
        seq![if p.include_categories { "true"@ } else { "false"@ }]
    } else {
        Seq::empty()
    }
}

/// The pairs that `emoji.list` sends, in order.
pub open spec fn emoji_list_query(params: Option<EmojiListParams>) -> Seq<(Seq<char>, Seq<char>)> {
    let p = match params {
        Some(p) => p,
        None => EmojiListParams { include_categories: false },
    };
    seq![("include_categories"@, if p.include_categories { "true"@ } else { "false"@ })]
}


/// Calls to `emoji.list` with one bearer token.
#[derive(Debug)]
pub struct EmojiAPI {
    pub token: String,
}

impl EmojiAPI {
    /// The `emoji.list` request; `include_categories` is always sent, `false` by default.
    pub fn list(&self, params: Option<EmojiListParams>) -> (r: ApiRequest)
        ensures
            r.method == HttpMethod::Get,
            r.url@ == "https://slack.com/api/emoji.list"@,
            r.authorization@ == bearer(self.token@),
            query_view(r.query@) == emoji_list_query(params),
            forall|n: Seq<char>| #[trigger] sent(r.query@, n) == emoji_list_sent(params, n),
    {
        let ghost given = params;
        let p = match params {
            Some(p) => p,
            None => EmojiListParams::new_default(),
        };
        proof {
            reveal_strlit("include_categories");
            assert("include_categories"@.len() == 18);
        }
        let ghost t_include_categories = seq![if p.include_categories { "true"@ } else { "false"@ }];
        let v_include_categories: Option<String> = Some(bool_text(p.include_categories));
        assert(opt_sent(v_include_categories) =~= t_include_categories);
        let ghost u_include_categories = seq![("include_categories"@, if p.include_categories { "true"@ } else { "false"@ })];
        assert(opt_pair("include_categories"@, v_include_categories) =~= u_include_categories);
        let mut query: Vec<(String, String)> = Vec::new();
        assert(query_view(query@) =~= Seq::empty());
        assert(forall|n: Seq<char>| #[trigger] sent(query@, n) == Seq::<Seq<char>>::empty());
        add_param_to_url(&mut query, "include_categories", v_include_categories);
        assert(query_view(query@) =~= u_include_categories);
        assert forall|n: Seq<char>| #[trigger] sent(query@, n) == emoji_list_sent(given, n) by {
            if n == "include_categories"@ {
                assert(Seq::<Seq<char>>::empty() + t_include_categories =~= t_include_categories);
            } else {
                assert(Seq::<Seq<char>>::empty() + Seq::<Seq<char>>::empty() =~= Seq::<Seq<char>>::empty());
            }
        }
        ApiRequest {
            method: HttpMethod::Get,
            url: "https://slack.com/api/emoji.list".to_owned(),
            query,
            authorization: bearer_header(&self.token),
        }
    }

    /// Resolves a response: `status` and `body` as received, `parsed` the
    /// body read as JSON (`None` where it is not JSON).
    pub fn list_response(status: u16, body: String, parsed: Option<Json>) -> (r: Result<EmojiListResponse, ClientError>)
        ensures
            emoji_list_result(status, body, parsed, r),
    {
        match check_status(status, body, parsed) {
            Ok(j) => decode_emoji_list(j),
            Err(e) => Err(e),
        }
    }
}

} // verus!
