use slack_api::bots::{Bot, BotIcons, BotsAPI, BotsInfoError, BotsInfoResponse, BotsInfoSuccess};
use slack_api::emoji::{Category, EmojiAPI, EmojiError, EmojiListResponse, EmojiListSuccess};
use slack_api::error::ClientError;
use slack_api::json::Json;
use slack_api::reactions::{
    MessageData, Reaction, ReactionsAddResponse, ReactionsAddSuccess, ReactionsApi, ReactionsError,
    ReactionsGetMessage, ReactionsGetResponse,
    ReactionsGetSuccess, ReactionsListItem, ReactionsListResponse, ReactionsListResponseMetadata,
    ReactionsListSuccess, ReactionsRemoveResponse,
    ReactionsRemoveSuccess,
};

fn s(v: &str) -> Json {
    Json::Str(v.to_string())
}

fn obj(members: Vec<(&str, Json)>) -> Json {
    Json::Object(members.into_iter().map(|(k, v)| (k.to_string(), v)).collect())
}

fn strs(vs: &[&str]) -> Json {
    Json::Array(vs.iter().map(|v| s(v)).collect())
}

fn message() -> Json {
    obj(vec![
        ("type", s("message")),
        ("text", s("hello")),
        ("user", s("U1")),
        ("ts", s("1.2")),
        ("team", s("T9")),
        (
            "reactions",
            Json::Array(vec![obj(vec![
                ("name", s("+1")),
                ("users", strs(&["U1", "U2"])),
                ("count", Json::Int(2)),
            ])]),
        ),
        ("permalink", s("https://example.test/p1")),
    ])
}

fn file() -> Json {
    let mut m: Vec<(&str, Json)> = vec![
        ("id", s("F1")),
        ("created", Json::Int(10)),
        ("timestamp", Json::Int(11)),
    ];
    for k in ["name", "title", "mimetype", "filetype", "pretty_type", "user", "user_team"] {
        m.push((k, s(k)));
    }
    m.push(("editable", Json::Bool(false)));
    m.push(("size", Json::Int(1024)));
    m.push(("mode", s("hosted")));
    m.push(("is_external", Json::Bool(false)));
    m.push(("external_type", s("")));
    m.push(("is_public", Json::Bool(true)));
    m.push(("public_url_shared", Json::Bool(false)));
    m.push(("display_as_bot", Json::Bool(false)));
    for k in [
        "username",
        "url_private",
        "url_private_download",
        "permalink",
        "permalink_public",
        "edit_link",
        "preview",
        "preview_highlight",
    ] {
        m.push((k, s(k)));
    }
    m.push(("lines", Json::Int(3)));
    m.push(("lines_more", Json::Int(0)));
    m.push(("preview_is_truncated", Json::Bool(false)));
    m.push(("comments_count", Json::Int(1)));
    m.push(("is_starred", Json::Bool(false)));
    m.push(("shares", obj(vec![("public", obj(vec![("C1", Json::Array(vec![]))]))])));
    m.push(("channels", strs(&["C1"])));
    m.push(("groups", strs(&[])));
    m.push(("ims", strs(&[])));
    m.push(("has_more_shares", Json::Bool(false)));
    m.push(("has_rich_preview", Json::Bool(false)));
    m.push(("file_access", s("visible")));
    obj(m)
}

#[test]
fn get_message_resolves_to_message_variant() {
    let body = obj(vec![
        ("ok", Json::Bool(true)),
        ("type", s("message")),
        ("channel", s("C1")),
        ("message", message()),
    ]);
    match ReactionsApi::get_response(200, String::new(), Some(body)) {
        Ok(ReactionsGetResponse::Success(ReactionsGetSuccess::ReactionsGetMessage(m))) => {
            assert!(m.ok);
            assert_eq!(m.item_type, "message");
            assert_eq!(m.channel, "C1");
            assert_eq!(m.message.text, "hello");
            assert_eq!(m.message.team, Some("T9".to_string()));
            assert_eq!(m.message.reactions.len(), 1);
            assert_eq!(m.message.reactions[0].name, "+1");
            assert_eq!(m.message.reactions[0].users, vec!["U1".to_string(), "U2".to_string()]);
            assert_eq!(m.message.reactions[0].count, 2);
        }
        other => panic!("unexpected: {:?}", other),
    }
}

#[test]
fn get_unknown_type_is_an_error_value() {
    let body = obj(vec![("ok", Json::Bool(true)), ("type", s("sticker"))]);
    match ReactionsApi::get_response(200, String::new(), Some(body)) {
        Err(ClientError::UnknownItemType { item_type }) => assert_eq!(item_type, "sticker"),
        other => panic!("unexpected: {:?}", other),
    }
}

#[test]
fn get_file_comment_keeps_comment_as_sent() {
    let comment = obj(vec![("id", s("Fc1")), ("comment", s("nice"))]);
    let body = obj(vec![
        ("ok", Json::Bool(true)),
        ("type", s("file_comment")),
        ("file", file()),
        ("comment", comment),
    ]);
    match ReactionsApi::get_response(200, String::new(), Some(body)) {
        Ok(ReactionsGetResponse::Success(ReactionsGetSuccess::ReactionsGetFileComment(c))) => {
            assert_eq!(c.file.id, "F1");
            assert_eq!(c.file.size, 1024);
            assert_eq!(c.file.channels, vec!["C1".to_string()]);
            assert_eq!(c.file.shares.len(), 1);
            assert_eq!(c.file.shares[0].0, "public");
            match c.comment {
                Json::Object(m) => {
                    assert_eq!(m.len(), 2);
                    assert_eq!(m[1].0, "comment");
                }
                other => panic!("unexpected: {:?}", other),
            }
        }
        other => panic!("unexpected: {:?}", other),
    }
}

#[test]
fn get_file_with_out_of_range_size_names_the_field() {
    let mut f = file();
    if let Json::Object(m) = &mut f {
        for e in m.iter_mut() {
            if e.0 == "size" {
                e.1 = Json::Int(1i64 << 40);
            }
        }
    }
    let body = obj(vec![("ok", Json::Bool(true)), ("type", s("file")), ("file", f)]);
    match ReactionsApi::get_response(200, String::new(), Some(body)) {
        Err(ClientError::MalformedSuccessPayload { field }) => assert_eq!(field, "file"),
        other => panic!("unexpected: {:?}", other),
    }
}

#[test]
fn status_is_checked_before_the_body() {
    let body = obj(vec![
        ("ok", Json::Bool(true)),
        ("type", s("message")),
        ("channel", s("C1")),
        ("message", message()),
    ]);
    match ReactionsApi::get_response(500, "oops".to_string(), Some(body)) {
        Err(ClientError::HttpStatus { status, body }) => {
            assert_eq!(status, 500);
            assert_eq!(body, "oops");
        }
        other => panic!("unexpected: {:?}", other),
    }
}

#[test]
fn non_json_body_is_a_malformed_envelope() {
    let r = EmojiAPI::list_response(200, "<html>".to_string(), None);
    assert!(matches!(r, Err(ClientError::MalformedEnvelope)));
}

#[test]
fn missing_ok_is_a_malformed_envelope() {
    let r = BotsAPI::info_response(200, String::new(), Some(obj(vec![("error", s("x"))])));
    assert!(matches!(r, Err(ClientError::MalformedEnvelope)));
    let r = BotsAPI::info_response(200, String::new(), Some(obj(vec![("ok", s("true"))])));
    assert!(matches!(r, Err(ClientError::MalformedEnvelope)));
}

#[test]
fn bots_info_success_and_missing_bot() {
    let bot = obj(vec![
        ("id", s("B1")),
        ("deleted", Json::Bool(false)),
        ("name", s("helper")),
        ("app_id", s("A1")),
        ("user_id", s("U1")),
        ("updated", Json::Int(1449272004)),
        ("icons", obj(vec![("image_36", s("a")), ("image_48", s("b")), ("image_72", s("c"))])),
    ]);
    let r = BotsAPI::info_response(200, String::new(), Some(obj(vec![("ok", Json::Bool(true)), ("bot", bot)])));
    match r {
        Ok(BotsInfoResponse::Success(x)) => {
            assert!(x.ok);
            assert_eq!(x.bot.id, "B1");
            assert_eq!(x.bot.updated, 1449272004);
            assert_eq!(x.bot.icons.image_72, "c");
        }
        other => panic!("unexpected: {:?}", other),
    }
    let r = BotsAPI::info_response(200, String::new(), Some(obj(vec![("ok", Json::Bool(true))])));
    match r {
        Err(ClientError::MalformedSuccessPayload { field }) => assert_eq!(field, "bot"),
        other => panic!("unexpected: {:?}", other),
    }
}

#[test]
fn rejection_without_error_is_malformed() {
    let r = BotsAPI::info_response(200, String::new(), Some(obj(vec![("ok", Json::Bool(false))])));
    assert!(matches!(r, Err(ClientError::MalformedErrorPayload)));
}

#[test]
fn list_without_metadata_has_empty_cursor() {
    let body = obj(vec![
        ("ok", Json::Bool(true)),
        (
            "items",
            Json::Array(vec![obj(vec![
                ("type", s("message")),
                ("channel", s("C1")),
                ("message", message()),
            ])]),
        ),
    ]);
    match ReactionsApi::list_response(200, String::new(), Some(body)) {
        Ok(ReactionsListResponse::Success(x)) => {
            assert!(x.ok);
            assert_eq!(x.response_metadata.next_cursor, "");
            assert_eq!(x.items.len(), 1);
            assert!(matches!(&x.items[0], ReactionsListItem::ReactionsListMessageItem(m) if m.channel == "C1"));
        }
        other => panic!("unexpected: {:?}", other),
    }
}

#[test]
fn list_keeps_cursor_and_rejects_unknown_item() {
    let body = obj(vec![
        ("ok", Json::Bool(true)),
        ("items", Json::Array(vec![])),
        ("response_metadata", obj(vec![("next_cursor", s("dXNlcjpVMEc5V0ZYTlo="))])),
    ]);
    match ReactionsApi::list_response(200, String::new(), Some(body)) {
        Ok(ReactionsListResponse::Success(x)) => {
            assert_eq!(x.response_metadata.next_cursor, "dXNlcjpVMEc5V0ZYTlo=");
            assert!(x.items.is_empty());
        }
        other => panic!("unexpected: {:?}", other),
    }
    let body = obj(vec![
        ("ok", Json::Bool(true)),
        ("items", Json::Array(vec![obj(vec![("type", s("channel"))])])),
    ]);
    match ReactionsApi::list_response(200, String::new(), Some(body)) {
        Err(ClientError::UnknownItemType { item_type }) => assert_eq!(item_type, "channel"),
        other => panic!("unexpected: {:?}", other),
    }
}

#[test]
fn emoji_list_fixture() {
    let body = obj(vec![
        ("ok", Json::Bool(true)),
        ("emoji", obj(vec![("smile", s("url1"))])),
        ("cache_ts", s("1234")),
    ]);
    match EmojiAPI::list_response(200, String::new(), Some(body)) {
        Ok(EmojiListResponse::Success(x)) => {
            assert_eq!(x.emoji, vec![("smile".to_string(), "url1".to_string())]);
            assert_eq!(x.cache_ts, "1234");
            assert!(x.categories.is_none());
            assert!(x.categories_version.is_none());
        }
        other => panic!("unexpected: {:?}", other),
    }
}

#[test]
fn emoji_list_with_categories() {
    let body = obj(vec![
        ("ok", Json::Bool(true)),
        ("emoji", obj(vec![])),
        ("cache_ts", s("1")),
        ("categories_version", s("5")),
        ("categories", Json::Array(vec![obj(vec![("name", s("faces")), ("emoji_names", strs(&["smile", "grin"]))])])),
    ]);
    match EmojiAPI::list_response(200, String::new(), Some(body)) {
        Ok(EmojiListResponse::Success(x)) => {
            let c = x.categories.unwrap();
            assert_eq!(c.len(), 1);
            assert_eq!(c[0].name, "faces");
            assert_eq!(c[0].emoji_names, vec!["smile".to_string(), "grin".to_string()]);
            assert_eq!(x.categories_version, Some("5".to_string()));
        }
        other => panic!("unexpected: {:?}", other),
    }
}

#[test]
fn reactions_add_rejection_fixture() {
    let body = obj(vec![("ok", Json::Bool(false)), ("error", s("invalid_name"))]);
    match ReactionsApi::add_response(200, String::new(), Some(body)) {
        Ok(ReactionsAddResponse::Error(e)) => {
            assert!(!e.ok);
            assert_eq!(e.error, "invalid_name");
        }
        other => panic!("unexpected: {:?}", other),
    }
}

#[test]
fn success_and_rejection_round_trip() {
    let x = ReactionsAddSuccess { ok: true };
    match ReactionsApi::add_response(200, String::new(), Some(x.to_json())) {
        Ok(ReactionsAddResponse::Success(y)) => assert!(y.ok),
        other => panic!("unexpected: {:?}", other),
    }
    let x = ReactionsRemoveSuccess { ok: true };
    match ReactionsApi::remove_response(200, String::new(), Some(x.to_json())) {
        Ok(ReactionsRemoveResponse::Success(y)) => assert!(y.ok),
        other => panic!("unexpected: {:?}", other),
    }
    let e = ReactionsError { ok: false, error: "not_reacted".to_string() };
    match ReactionsApi::remove_response(200, String::new(), Some(e.to_json())) {
        Ok(ReactionsRemoveResponse::Error(y)) => {
            assert!(!y.ok);
            assert_eq!(y.error, "not_reacted");
        }
        other => panic!("unexpected: {:?}", other),
    }
}

#[test]
fn bots_info_payloads_round_trip() {
    let x = BotsInfoSuccess {
        ok: true,
        bot: Bot {
            id: "B2".to_string(),
            deleted: true,
            name: "n".to_string(),
            app_id: "A2".to_string(),
            user_id: "U2".to_string(),
            updated: -7,
            icons: BotIcons {
                image_36: "i36".to_string(),
                image_48: "i48".to_string(),
                image_72: "i72".to_string(),
            },
        },
    };
    match BotsAPI::info_response(200, String::new(), Some(x.to_json())) {
        Ok(BotsInfoResponse::Success(y)) => {
            assert!(y.ok);
            assert_eq!(y.bot.id, "B2");
            assert!(y.bot.deleted);
            assert_eq!(y.bot.app_id, "A2");
            assert_eq!(y.bot.user_id, "U2");
            assert_eq!(y.bot.updated, -7);
            assert_eq!(y.bot.icons.image_48, "i48");
        }
        other => panic!("unexpected: {:?}", other),
    }
    let e = BotsInfoError { ok: false, error: "bot_not_found".to_string() };
    match BotsAPI::info_response(200, String::new(), Some(e.to_json())) {
        Ok(BotsInfoResponse::Error(y)) => assert_eq!(y.error, "bot_not_found"),
        other => panic!("unexpected: {:?}", other),
    }
    let e = EmojiError { ok: false, error: "invalid_auth".to_string() };
    match EmojiAPI::list_response(200, String::new(), Some(e.to_json())) {
        Ok(EmojiListResponse::Error(y)) => assert_eq!(y.error, "invalid_auth"),
        other => panic!("unexpected: {:?}", other),
    }
}

#[test]
fn emoji_list_payload_round_trips() {
    let x = EmojiListSuccess {
        ok: true,
        emoji: vec![
            ("smile".to_string(), "url1".to_string()),
            ("party".to_string(), "alias:tada".to_string()),
        ],
        cache_ts: "1234".to_string(),
        categories_version: None,
        categories: Some(vec![Category {
            name: "faces".to_string(),
            emoji_names: vec!["smile".to_string()],
        }]),
    };
    match EmojiAPI::list_response(200, String::new(), Some(x.to_json())) {
        Ok(EmojiListResponse::Success(y)) => {
            assert!(y.ok);
            assert_eq!(y.emoji, x.emoji);
            assert_eq!(y.cache_ts, "1234");
            assert_eq!(y.categories_version, None);
            let c = y.categories.unwrap();
            assert_eq!(c[0].name, "faces");
            assert_eq!(c[0].emoji_names, vec!["smile".to_string()]);
        }
        other => panic!("unexpected: {:?}", other),
    }
}

#[test]
fn get_message_result_round_trips() {
    let x = ReactionsGetMessage {
        ok: true,
        item_type: "message".to_string(),
        channel: "C7".to_string(),
        message: MessageData {
            item_type: "message".to_string(),
            text: "hi".to_string(),
            user: "U3".to_string(),
            ts: "9.9".to_string(),
            team: None,
            reactions: vec![Reaction { name: "eyes".to_string(), users: vec!["U4".to_string()], count: 1 }],
            permalink: "p".to_string(),
        },
    };
    match ReactionsApi::get_response(200, String::new(), Some(x.to_json())) {
        Ok(ReactionsGetResponse::Success(ReactionsGetSuccess::ReactionsGetMessage(y))) => {
            assert!(y.ok);
            assert_eq!(y.channel, "C7");
            assert_eq!(y.message.team, None);
            assert_eq!(y.message.reactions[0].users, vec!["U4".to_string()]);
            assert_eq!(y.message.reactions[0].count, 1);
        }
        other => panic!("unexpected: {:?}", other),
    }
}

#[test]
fn get_file_result_round_trips() {
    let body = obj(vec![("ok", Json::Bool(true)), ("type", s("file")), ("file", file())]);
    let first = match ReactionsApi::get_response(200, String::new(), Some(body)) {
        Ok(ReactionsGetResponse::Success(ReactionsGetSuccess::ReactionsGetFile(x))) => x,
        other => panic!("unexpected: {:?}", other),
    };
    assert_eq!(first.file.lines, 3);
    match ReactionsApi::get_response(200, String::new(), Some(first.into_json())) {
        Ok(ReactionsGetResponse::Success(ReactionsGetSuccess::ReactionsGetFile(y))) => {
            assert!(y.ok);
            assert_eq!(y.item_type, "file");
            assert_eq!(y.file.id, "F1");
            assert_eq!(y.file.created, 10);
            assert_eq!(y.file.size, 1024);
            assert!(y.file.is_public);
            assert_eq!(y.file.file_access, "visible");
            assert_eq!(y.file.channels, vec!["C1".to_string()]);
            assert_eq!(y.file.shares[0].0, "public");
        }
        other => panic!("unexpected: {:?}", other),
    }
}

#[test]
fn list_payload_round_trips() {
    let body = obj(vec![
        ("ok", Json::Bool(true)),
        (
            "items",
            Json::Array(vec![
                obj(vec![("type", s("message")), ("channel", s("C1")), ("message", message())]),
                obj(vec![("type", s("file_comment")), ("file", file()), ("comment", Json::Null)]),
            ]),
        ),
    ]);
    let first = match ReactionsApi::list_response(200, String::new(), Some(body)) {
        Ok(ReactionsListResponse::Success(x)) => x,
        other => panic!("unexpected: {:?}", other),
    };
    let again = ReactionsListSuccess {
        ok: first.ok,
        items: first.items,
        response_metadata: ReactionsListResponseMetadata { next_cursor: "next".to_string() },
    };
    match ReactionsApi::list_response(200, String::new(), Some(again.into_json())) {
        Ok(ReactionsListResponse::Success(y)) => {
            assert_eq!(y.items.len(), 2);
            assert_eq!(y.response_metadata.next_cursor, "next");
            match &y.items[1] {
                ReactionsListItem::ReactionsListFileCommentItem(c) => {
                    assert_eq!(c.file.id, "F1");
                    assert!(matches!(c.comment, Json::Null));
                }
                other => panic!("unexpected: {:?}", other),
            }
        }
        other => panic!("unexpected: {:?}", other),
    }
}

#[test]
fn emoji_list_with_repeated_name_is_malformed() {
    let body = obj(vec![
        ("ok", Json::Bool(true)),
        ("emoji", obj(vec![("smile", s("url1")), ("smile", s("url2"))])),
        ("cache_ts", s("1234")),
    ]);
    match EmojiAPI::list_response(200, String::new(), Some(body)) {
        Err(ClientError::MalformedSuccessPayload { field }) => assert_eq!(field, "emoji"),
        other => panic!("unexpected: {:?}", other),
    }
}
