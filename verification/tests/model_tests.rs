use tweet_vault::model::{
    i64_to_u64, u64_to_i64, ReferencedTweetKind, Timestamp, Tweet, TweetData, TweetReference,
    TweetReferenceData, TweetWithTagsData, User, UserData,
};

#[test]
fn kind_names_round_trip() {
    for kind in [
        ReferencedTweetKind::RepliedTo,
        ReferencedTweetKind::Quoted,
        ReferencedTweetKind::Retweeted,
    ] {
        let data = TweetReferenceData { reference_type: kind, source_tweet_id: 1, reference_tweet_id: 2 };
        let name = data.type_to_string();
        assert_eq!(TweetReferenceData::kind_from_string(&name), Some(kind));
    }
}

#[test]
fn kind_names_are_the_stored_ones() {
    let data = |k| TweetReferenceData { reference_type: k, source_tweet_id: 1, reference_tweet_id: 2 };
    assert_eq!(data(ReferencedTweetKind::RepliedTo).type_to_string(), "replied_to");
    assert_eq!(data(ReferencedTweetKind::Retweeted).type_to_string(), "retweeted");
    assert_eq!(data(ReferencedTweetKind::Quoted).type_to_string(), "quoted");
}

#[test]
fn unknown_kind_names_give_none() {
    assert_eq!(TweetReferenceData::kind_from_string("replied"), None);
    assert_eq!(TweetReferenceData::kind_from_string("Quoted"), None);
    assert_eq!(TweetReferenceData::kind_from_string(""), None);
}

#[test]
fn reference_clone_copies_fields() {
    let data = TweetReferenceData {
        reference_type: ReferencedTweetKind::Quoted,
        source_tweet_id: 10,
        reference_tweet_id: -3,
    };
    let copy = data.clone();
    assert_eq!(copy.reference_type, ReferencedTweetKind::Quoted);
    assert_eq!(copy.source_tweet_id, 10);
    assert_eq!(copy.reference_tweet_id, -3);
}

#[test]
fn integer_conversions() {
    assert_eq!(i64_to_u64(0), 0);
    assert_eq!(i64_to_u64(i64::MAX), i64::MAX as u64);
    assert_eq!(u64_to_i64(i64::MAX as u64), i64::MAX);
    assert_eq!(u64_to_i64(i64_to_u64(12345)), 12345);
}

fn model_tweet() -> Tweet {
    Tweet {
        id: 5,
        author_id: 9,
        conversation_id: 5,
        content: String::from("hi"),
        created_at: Timestamp { secs: 0, nanos: 0, offset_secs: 0 },
    }
}

#[test]
fn constructors() {
    let refs = vec![TweetReference {
        source_tweet_id: 5,
        referenced_tweet_id: 4,
        reference_type: String::from("quoted"),
    }];
    let data = TweetData::new(model_tweet(), refs);
    assert_eq!(data.tweet.as_ref().map(|t| t.id), Some(5));
    assert_eq!(data.references.len(), 1);
    let empty = TweetData::empty();
    assert!(empty.tweet.is_none() && empty.references.is_empty());
    let tagged = TweetWithTagsData::new(data, vec![String::from("tag")]);
    assert_eq!(tagged.tags, vec!["tag"]);
    assert!(UserData::empty().user.is_none());
    let user = User {
        id: 1,
        name: String::from("N"),
        username: String::from("n"),
        description: String::new(),
    };
    assert_eq!(UserData::from_data_model(user).user.map(|u| u.id), Some(1));
}
