use tweet_vault::model::{Timestamp, Tweet, TweetData};
use tweet_vault::terms::{
    author_corpus, contains_str, corpus_term_counts, count_term_matches, get_tags,
    punctuated_words, split_common_words, TermCounts,
};

fn term_strings(v: &[&str]) -> Vec<String> {
    v.iter().map(|s| s.to_string()).collect()
}

fn term_tweet(id: i64, author_id: i64, content: &str) -> TweetData {
    TweetData::new(
        Tweet {
            id,
            author_id,
            conversation_id: id,
            content: content.to_string(),
            created_at: Timestamp { secs: 0, nanos: 0, offset_secs: 0 },
        },
        Vec::new(),
    )
}

#[test]
fn get_tags_drops_common_words_links_and_duplicates() {
    let corpus = term_strings(&["causal", "the", "https://t.co/x", "model", "causal", "httpd", "a"]);
    let common = term_strings(&["the", "a"]);
    let tags = get_tags(corpus, common);
    assert_eq!(tags, term_strings(&["causal", "model"]));
}

#[test]
fn get_tags_of_nothing_is_nothing() {
    assert!(get_tags(Vec::new(), term_strings(&["the"])).is_empty());
}

#[test]
fn contains_str_examples() {
    let v = term_strings(&["x", "yy"]);
    assert!(contains_str(&v, "yy"));
    assert!(!contains_str(&v, "y"));
}

#[test]
fn author_corpus_collects_lowercase_words_once() {
    let tweets = vec![
        term_tweet(1, 7, "Causal Inference, causal  DAGs"),
        term_tweet(2, 8, "Other Author"),
        TweetData::empty(),
        term_tweet(3, 7, "dags\tDo"),
    ];
    let corpus = author_corpus(&tweets, 7);
    assert_eq!(corpus, term_strings(&["causal", "inference,", "dags", "do"]));
}

#[test]
fn punctuated_words_keeps_stripped_punctuated_words() {
    let corpus = term_strings(&["don't", "plain", "(dont)", "#why?"]);
    assert_eq!(punctuated_words(corpus), term_strings(&["dont", "why"]));
}

#[test]
fn split_common_words_is_str_split() {
    for text in ["the,a,of", "", ",", "a,,b,", "single"] {
        let expected: Vec<String> = text.split(",").map(|w| w.to_string()).collect();
        assert_eq!(split_common_words(text), expected);
        assert_eq!(split_common_words(text).join(","), text);
    }
}

#[test]
fn term_matches_are_case_insensitive() {
    assert_eq!(count_term_matches("Foo", "foo FOO fOo bar"), Some(3));
    assert_eq!(count_term_matches("bar", "foo"), Some(0));
}

#[test]
fn invalid_term_pattern_gives_none() {
    assert_eq!(count_term_matches("(", "anything"), None);
}

#[test]
fn corpus_counts() {
    let counts = corpus_term_counts("do", "Do you DO it? do-do");
    assert_eq!(counts, TermCounts { matches: Some(4), words: 5 });
}

#[test]
fn tweet_counts_use_lowercased_content() {
    let t = term_tweet(1, 1, "Model MODEL model-free");
    assert_eq!(
        t.tweet_term_counts("model"),
        Some(TermCounts { matches: Some(3), words: 3 })
    );
    assert_eq!(TweetData::empty().tweet_term_counts("model"), None);
}

#[test]
fn tag_candidates_follow_the_stripped_lowercased_words() {
    let t = term_tweet(1, 1, "Causal, MODEL!");
    let c = t.tag_candidates("causal causal other");
    assert_eq!(c.len(), 2);
    assert_eq!(c[0].term, "causal");
    assert_eq!(c[0].in_tweet, TermCounts { matches: Some(1), words: 2 });
    assert_eq!(c[0].in_corpus, TermCounts { matches: Some(2), words: 3 });
    assert_eq!(c[1].term, "model");
    assert_eq!(c[1].in_corpus, TermCounts { matches: Some(0), words: 3 });
    assert!(TweetData::empty().tag_candidates("x").is_empty());
}
