use tweet_vault::model::{Timestamp, Tweet, TweetData, TweetReference, User, UserData};
use tweet_vault::render::{
    author_of, format_conversation, format_conversation_tweet, format_in_reply_to, format_quoted,
    format_retweeted, format_tags, format_tags_list, format_tweet, format_tweet_url, format_user,
    RenderError,
};

fn render_strings(v: &[&str]) -> Vec<String> {
    v.iter().map(|s| s.to_string()).collect()
}

fn render_user(id: i64, username: &str) -> UserData {
    UserData::from_data_model(User {
        id,
        name: format!("Name {id}"),
        username: username.to_string(),
        description: String::from("About me"),
    })
}

fn reference(kind: &str, to: i64) -> TweetReference {
    TweetReference { source_tweet_id: 100, referenced_tweet_id: to, reference_type: kind.to_string() }
}

fn tweet_data(created_at: Timestamp) -> TweetData {
    TweetData::new(
        Tweet {
            id: 100,
            author_id: 2,
            conversation_id: 90,
            content: String::from("Hello {{TWEET_ID}}"),
            created_at,
        },
        vec![reference("quoted", 7), reference("replied_to", 8), reference("quoted", 9)],
    )
}

#[test]
fn conversation_embeds() {
    assert_eq!(format_conversation_tweet(&vec![3, -4]), "![[3]]\n![[-4]]\n");
    assert_eq!(format_conversation_tweet(&Vec::new()), "");
}

#[test]
fn conversation_embeds_concatenate() {
    let a = vec![1, 2];
    let b = vec![30];
    let ab = vec![1, 2, 30];
    assert_eq!(
        format_conversation_tweet(&ab),
        format_conversation_tweet(&a) + &format_conversation_tweet(&b)
    );
}

#[test]
fn conversation_template() {
    let note = format_conversation(
        "# {{CONVERSATION_ID}}\n{{CONVERSATION_TWEETS}}",
        String::from("77"),
        &vec![1, 2],
    );
    assert_eq!(note, "# 77\n![[1]]\n![[2]]\n");
}

#[test]
fn tag_lists() {
    let tags = render_strings(&["causal", "dag"]);
    assert_eq!(format_tags(&tags), "- causal\n- dag\n");
    assert_eq!(format_tags_list(&tags), "- [[index/causal|causal]]\n- [[index/dag|dag]]\n");
    assert_eq!(format_tags(&Vec::new()), "");
}

#[test]
fn tweet_url() {
    assert_eq!(format_tweet_url(&42, "judea"), "https://twitter.com/judea/status/42");
}

#[test]
fn references_take_the_first_of_each_kind() {
    let t = tweet_data(Timestamp { secs: 0, nanos: 0, offset_secs: 0 });
    assert_eq!(format_quoted(&t), "7");
    assert_eq!(format_in_reply_to(&t), "8");
    assert_eq!(format_retweeted(&t), "None");
}

#[test]
fn author_lookup_stops_at_an_absent_user() {
    let users = vec![render_user(1, "a"), render_user(2, "b")];
    assert_eq!(author_of(&users, 2).map(|u| u.id), Some(2));
    assert!(author_of(&users, 3).is_none());
    let with_gap = vec![render_user(1, "a"), UserData::empty(), render_user(2, "b")];
    assert!(author_of(&with_gap, 2).is_none());
}

#[test]
fn user_note() {
    let template = "{{USER_ID}}|{{USER_FULL_NAME}}|{{TWITTER_HANDLE}}|{{USER_DESCRIPTION}}";
    assert_eq!(format_user(template, &render_user(5, "jp")).unwrap(), "5|Name 5|@jp|About me");
    assert_eq!(format_user(template, &UserData::empty()), None);
}

#[test]
fn tweet_note() {
    let template = "{{CONTENT}}|{{TWEET_ID}}|{{AUTHOR_TWITTER_HANDLE}}|{{PUBLISHED_DATE}}|\
{{CONVERSATION_ID}}|{{IN_REPLY_TO_ID}}|{{RETWEET_ID}}|{{QUOTED_TWEET_ID}}|{{TAGS}}|\
{{TAGS_LINKS}}|{{PUBLISHED_DATE_IN_CALENDAR}}|{{TWITTER_URL}}";
    let t = tweet_data(Timestamp { secs: 1_700_000_000, nanos: 0, offset_secs: 3600 });
    let users = vec![render_user(1, "a"), render_user(2, "jp")];
    let note = format_tweet(template, &t, render_strings(&["dag"]), &users).unwrap();
    assert_eq!(
        note,
        "Hello 100|100|jp|2023-11-14 23:13:20 +01:00|90|8|None|7|- dag\n|\
- [[index/dag|dag]]\n|2023-11-14|https://twitter.com/jp/status/100"
    );
}

#[test]
fn tweet_note_local_date_follows_the_offset() {
    let t = tweet_data(Timestamp { secs: 1_700_000_000, nanos: 0, offset_secs: 3 * 3600 });
    let users = vec![render_user(2, "jp")];
    let note = format_tweet("{{PUBLISHED_DATE_IN_CALENDAR}}", &t, Vec::new(), &users).unwrap();
    assert_eq!(note, "2023-11-15");
}

#[test]
fn tweet_note_errors() {
    let users = vec![render_user(2, "jp")];
    assert_eq!(
        format_tweet("x", &TweetData::empty(), Vec::new(), &users),
        Err(RenderError::MissingTweet)
    );
    let t = tweet_data(Timestamp { secs: 0, nanos: 0, offset_secs: 0 });
    assert_eq!(
        format_tweet("x", &t, Vec::new(), &vec![render_user(3, "x")]),
        Err(RenderError::UnknownAuthor)
    );
    let bad = tweet_data(Timestamp { secs: 0, nanos: 0, offset_secs: 86_400 });
    assert_eq!(format_tweet("x", &bad, Vec::new(), &users), Err(RenderError::InvalidTimestamp));
}
