use tweet_vault::model::{Timestamp, Tweet, TweetData, TweetWithTagsData, User, UserData};
use tweet_vault::render::RenderError;
use tweet_vault::vault::{
    calendar_entry, conversation_given_tweets, conversation_path, get_conversation_tweet_ids,
    tag_index_content, tag_index_path, tweet_and_conversation_ids, tweet_path, user_path,
};

fn vault_tweet(id: i64, conversation_id: i64) -> TweetData {
    TweetData::new(
        Tweet {
            id,
            author_id: 1,
            conversation_id,
            content: String::from("c"),
            created_at: Timestamp { secs: 86_399, nanos: 0, offset_secs: 1 },
        },
        Vec::new(),
    )
}

fn tagged(t: TweetData, tags: &[&str]) -> TweetWithTagsData {
    TweetWithTagsData::new(t, tags.iter().map(|s| s.to_string()).collect())
}

#[test]
fn conversation_keeps_its_found_tweets_in_order() {
    let tweets = vec![vault_tweet(1, 10), vault_tweet(2, 20), TweetData::empty(), vault_tweet(3, 10)];
    let c = conversation_given_tweets(10, tweets);
    assert_eq!(c.id, 10);
    let ids: Vec<i64> = c.tweets.iter().map(|t| t.tweet.as_ref().unwrap().id).collect();
    assert_eq!(ids, vec![1, 3]);
}

#[test]
fn conversation_ids_from_pairs() {
    let pairs = [(1, 10), (2, 20), (3, 10)];
    assert_eq!(get_conversation_tweet_ids(&10, &pairs), vec![1, 3]);
    assert!(get_conversation_tweet_ids(&30, &pairs).is_empty());
}

#[test]
fn pairs_of_found_tweets() {
    let tweets = vec![
        tagged(vault_tweet(1, 10), &[]),
        tagged(TweetData::empty(), &[]),
        tagged(vault_tweet(2, 20), &[]),
    ];
    let pairs = tweet_and_conversation_ids(&tweets);
    assert_eq!(pairs, vec![(1, 10), (2, 20)]);
    assert_eq!(get_conversation_tweet_ids(&20, &pairs), vec![2]);
}

#[test]
fn tag_index() {
    let tweets = vec![
        tagged(vault_tweet(1, 10), &["dag", "causal"]),
        tagged(vault_tweet(2, 10), &["other"]),
        tagged(TweetData::empty(), &["dag"]),
        tagged(vault_tweet(3, 10), &["dag"]),
    ];
    assert_eq!(tag_index_content(&String::from("dag"), &tweets), "![[1]]\n![[3]]\n");
    assert_eq!(tag_index_content(&String::from("none"), &tweets), "");
}

#[test]
fn paths() {
    assert_eq!(conversation_path(-5), "tweet-vault/conversations/conversation--5.md");
    assert_eq!(tag_index_path("dag"), "tweet-vault/index/dag.md");
    assert_eq!(tweet_path(&vault_tweet(12, 1)).unwrap(), "tweet-vault/tweets/12.md");
    assert_eq!(tweet_path(&TweetData::empty()), None);
    let u = UserData::from_data_model(User {
        id: 1,
        name: String::new(),
        username: String::from("yudapearl"),
        description: String::new(),
    });
    assert_eq!(user_path(&u).unwrap(), "tweet-vault/users/@yudapearl.md");
    assert_eq!(user_path(&UserData::empty()), None);
}

#[test]
fn distinct_tweets_distinct_paths() {
    assert_ne!(tweet_path(&vault_tweet(1, 1)), tweet_path(&vault_tweet(11, 1)));
    assert_ne!(conversation_path(1), conversation_path(-1));
}

#[test]
fn calendar_entries() {
    // One second before midnight UTC, one second east of it: the next day.
    let (path, line) = calendar_entry(&vault_tweet(7, 1)).unwrap();
    assert_eq!(path, "tweet-vault/calendar/1970-01-02.md");
    assert_eq!(line, "![[7]]\n");
    assert_eq!(calendar_entry(&TweetData::empty()), Err(RenderError::MissingTweet));
    let mut bad = vault_tweet(7, 1);
    bad.tweet.as_mut().unwrap().created_at.offset_secs = -90_000;
    assert_eq!(calendar_entry(&bad), Err(RenderError::InvalidTimestamp));
}
