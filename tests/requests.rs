use slack_api::bots::BotsInfoParams;
use slack_api::client::SlackClient;
use slack_api::emoji::EmojiListParams;
use slack_api::reactions::{
    ReactionsAddParams, ReactionsGetParams, ReactionsListParams, ReactionsRemoveParams,
};
use slack_api::request::{add_param_to_url, HttpMethod};

fn pairs(q: &[(String, String)]) -> Vec<(&str, &str)> {
    q.iter().map(|(k, v)| (k.as_str(), v.as_str())).collect()
}

#[test]
fn client_hands_its_token_to_every_group() {
    let c = SlackClient::new("xoxb-1");
    assert_eq!(c.emoji().token, "xoxb-1");
    assert_eq!(c.reactions().token, "xoxb-1");
    assert_eq!(c.bots().token, "xoxb-1");
    let r = c.bots().info(None);
    assert_eq!(r.authorization, "Bearer xoxb-1");
}

#[test]
fn bots_info_sends_only_given_filters() {
    let c = SlackClient::new("t");
    let r = c.bots().info(None);
    assert_eq!(r.method, HttpMethod::Get);
    assert_eq!(r.url, "https://slack.com/api/bots.info");
    assert!(r.query.is_empty());
    let p = BotsInfoParams::new_default();
    assert!(p.bot.is_none() && p.team_id.is_none());
    let r = c.bots().info(Some(BotsInfoParams { bot: None, team_id: Some("T1".to_string()) }));
    assert_eq!(pairs(&r.query), vec![("team_id", "T1")]);
}

#[test]
fn emoji_list_always_sends_include_categories() {
    let c = SlackClient::new("t");
    let r = c.emoji().list(None);
    assert_eq!(pairs(&r.query), vec![("include_categories", "false")]);
    assert!(!EmojiListParams::new_default().include_categories);
    let r = c.emoji().list(Some(EmojiListParams { include_categories: true }));
    assert_eq!(pairs(&r.query), vec![("include_categories", "true")]);
}

#[test]
fn reactions_add_sends_all_three_over_post() {
    let c = SlackClient::new("t");
    let r = c.reactions().add(ReactionsAddParams {
        channel: "C1".to_string(),
        name: "+1".to_string(),
        timestamp: "T1".to_string(),
    });
    assert_eq!(r.method, HttpMethod::Post);
    assert_eq!(r.url, "https://slack.com/api/reactions.add");
    assert_eq!(pairs(&r.query), vec![("channel", "C1"), ("name", "+1"), ("timestamp", "T1")]);
}

#[test]
fn reactions_get_omits_absent_parameters() {
    let c = SlackClient::new("t");
    let r = c.reactions().get(ReactionsGetParams {
        channel: Some("C1".to_string()),
        file: None,
        file_comment: None,
        full: Some(true),
        timestamp: Some("1.5".to_string()),
    });
    assert_eq!(pairs(&r.query), vec![("channel", "C1"), ("full", "true"), ("timestamp", "1.5")]);
}

#[test]
fn reactions_list_encodes_numbers_in_decimal() {
    let c = SlackClient::new("t");
    let r = c.reactions().list(ReactionsListParams::default());
    assert!(r.query.is_empty());
    let r = c.reactions().list(ReactionsListParams {
        count: Some(42),
        cursor: None,
        full: Some(false),
        limit: Some(-5),
        page: None,
        team_id: None,
        user: Some("U1".to_string()),
    });
    assert_eq!(
        pairs(&r.query),
        vec![("count", "42"), ("full", "false"), ("limit", "-5"), ("user", "U1")]
    );
}

#[test]
fn reactions_remove_always_sends_name() {
    let c = SlackClient::new("t");
    let r = c.reactions().remove(ReactionsRemoveParams {
        name: "tada".to_string(),
        channel: None,
        file: Some("F1".to_string()),
        file_comment: None,
        timestamp: None,
    });
    assert_eq!(r.method, HttpMethod::Post);
    assert_eq!(pairs(&r.query), vec![("file", "F1"), ("name", "tada")]);
}

#[test]
fn add_param_keeps_old_pairs_and_appends_last() {
    let mut q = vec![("a".to_string(), "1".to_string()), ("b".to_string(), "2".to_string())];
    add_param_to_url(&mut q, "c", None);
    assert_eq!(pairs(&q), vec![("a", "1"), ("b", "2")]);
    add_param_to_url(&mut q, "a", Some("x&y=z".to_string()));
    assert_eq!(pairs(&q), vec![("a", "1"), ("b", "2"), ("a", "x&y=z")]);
}
