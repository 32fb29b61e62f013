//! The records the vault is built from: tweets, users, references between
//! tweets, and the conversions between their representations.
use vstd::prelude::*;

verus! {

/// A point in time as the database stores it: seconds and nanoseconds since
/// the Unix epoch (UTC), and the offset east of UTC, in seconds, in which it
/// was recorded.
#[derive(Clone, Copy, Debug, PartialEq, Eq)]
pub struct Timestamp {
    pub secs: i64,
    pub nanos: u32,
    pub offset_secs: i32,
}

/// A row of the tweets table.
#[derive(Clone, Debug)]
pub struct Tweet {
    pub id: i64,
    pub author_id: i64,
    pub conversation_id: i64,
    pub content: String,
    pub created_at: Timestamp,
}

/// A row of the users table.
#[derive(Clone, Debug)]
pub struct User {
    pub id: i64,
    pub name: String,
    pub username: String,
    pub description: String,
}

/// A row of the tweet references table: `source_tweet_id` refers to
/// `referenced_tweet_id` in the way `reference_type` names.
#[derive(Clone, Debug)]
pub struct TweetReference {
    pub source_tweet_id: i64,
    pub referenced_tweet_id: i64,
    pub reference_type: String,
}

/// A tweet, if it was found, with the references it makes.
#[derive(Clone, Debug)]
pub struct TweetData {
    pub tweet: Option<Tweet>,
    pub references: Vec<TweetReference>,
}

/// A tweet together with the tags chosen for it.
#[derive(Clone, Debug)]
pub struct TweetWithTagsData {
    pub tweet: TweetData,
    pub tags: Vec<String>,
}

/// A user, if it was found.
#[derive(Clone, Debug)]
pub struct UserData {
    pub user: Option<User>,
}

/// A conversation and the tweets in it.
#[derive(Clone, Debug)]
pub struct ConversationData {
    pub id: i64,
    pub tweets: Vec<TweetData>,
}

/// The ways in which one tweet can refer to another.
#[derive(Clone, Copy, Debug, PartialEq, Eq)]
pub enum ReferencedTweetKind {
    RepliedTo,
    Quoted,
    Retweeted,
}

/// A typed reference from one tweet to another.
#[derive(Debug)]
pub struct TweetReferenceData {
    pub reference_type: ReferencedTweetKind,
    pub source_tweet_id: i64,
    pub reference_tweet_id: i64,
}

/// The name under which the database stores a kind of reference.
pub open spec fn kind_name(kind: ReferencedTweetKind) -> Seq<char> {
    match kind {
        ReferencedTweetKind::RepliedTo => "replied_to"@,
        ReferencedTweetKind::Retweeted => "retweeted"@,
        ReferencedTweetKind::Quoted => "quoted"@,
    }
}

/// The kind of reference a stored name stands for, if any.
pub open spec fn kind_of_name(name: Seq<char>) -> Option<ReferencedTweetKind> {
    if name == "replied_to"@ {
        Some(ReferencedTweetKind::RepliedTo)
    } else if name == "retweeted"@ {
        Some(ReferencedTweetKind::Retweeted)
    } else if name == "quoted"@ {
        Some(ReferencedTweetKind::Quoted)
    } else {
        None
    }
}

impl TweetReferenceData {
    /// The stored name of this reference's kind.
    pub fn type_to_string(&self) -> (res: String)
        ensures
            res@ == kind_name(self.reference_type),
    {
        match self.reference_type {
            ReferencedTweetKind::RepliedTo => String::from_str("replied_to"),
            ReferencedTweetKind::Retweeted => String::from_str("retweeted"),
            ReferencedTweetKind::Quoted => String::from_str("quoted"),
        }
    }

    /// The kind of reference that a stored name stands for; `None` for any
    /// other name.
    pub fn kind_from_string(input: &str) -> (res: Option<ReferencedTweetKind>)
        ensures
            res == kind_of_name(input@),
    {
        if crate::text::str_eq(input, "replied_to") {
            Some(ReferencedTweetKind::RepliedTo)
        } else if crate::text::str_eq(input, "retweeted") {
            Some(ReferencedTweetKind::Retweeted)
        } else if crate::text::str_eq(input, "quoted") {
            Some(ReferencedTweetKind::Quoted)
        } else {
            None
        }
    }

    /// A field-by-field copy.
    pub fn clone(&self) -> (res: Self)
        ensures
            res == *self,
    {
        Self {
            reference_type: self.reference_type,
            source_tweet_id: self.source_tweet_id,
            reference_tweet_id: self.reference_tweet_id,
        }
    }
}

/// Reading a kind back from its stored name gives the kind again.
pub proof fn lemma_kind_name_round_trip(kind: ReferencedTweetKind)
    ensures
        kind_of_name(kind_name(kind)) == Some(kind),
{
    reveal_strlit("replied_to");
    reveal_strlit("retweeted");
    reveal_strlit("quoted");
    assert("retweeted"@ != "replied_to"@) by {
        assert("retweeted"@[2] != "replied_to"@[2]);
    }
    assert("quoted"@ != "replied_to"@) by {
        assert("quoted"@.len() != "replied_to"@.len());
    }
    assert("quoted"@ != "retweeted"@) by {
        assert("quoted"@.len() != "retweeted"@.len());
    }
}

/// A name stands for a kind exactly when it is that kind's stored name.
pub proof fn lemma_kind_of_name_inverse(name: Seq<char>, kind: ReferencedTweetKind)
    ensures
        kind_of_name(name) == Some(kind) <==> name == kind_name(kind),
{
    lemma_kind_name_round_trip(kind);
    lemma_kind_name_round_trip(ReferencedTweetKind::RepliedTo);
    lemma_kind_name_round_trip(ReferencedTweetKind::Retweeted);
    lemma_kind_name_round_trip(ReferencedTweetKind::Quoted);
}

/// Converts a non-negative `i64` to `u64`.
pub fn i64_to_u64(i: i64) -> (res: u64)
    requires
        i >= 0,
    ensures
        res == i,
{
    i as u64
}

/// Converts a `u64` no larger than `i64::MAX` to `i64`.
pub fn u64_to_i64(u: u64) -> (res: i64)
    requires
        u <= i64::MAX,
    ensures
        res == u,
{
    u as i64
}

/// The two conversions undo each other on the values both accept.
pub proof fn lemma_integer_conversions_round_trip(i: i64, u: u64)
    ensures
        i >= 0 ==> (i as u64) as i64 == i,
        u <= i64::MAX ==> (u as i64) as u64 == u,
{
}

impl TweetData {
    /// A found tweet with its references.
    pub fn new(tweet: Tweet, references: Vec<TweetReference>) -> (res: Self)
        ensures
            res.tweet == Some(tweet),
            res.references == references,
    {
        TweetData { tweet: Some(tweet), references }
    }

    /// No tweet and no references.
    pub fn empty() -> (res: Self)
        ensures
            res.tweet is None,
            res.references@.len() == 0,
    {
        Self { tweet: None, references: Vec::new() }
    }
}

impl TweetWithTagsData {
    /// A tweet together with the tags chosen for it.
    pub fn new(tweet: TweetData, tags: Vec<String>) -> (res: Self)
        ensures
            res.tweet == tweet,
            res.tags == tags,
    {
        Self { tweet, tags }
    }
}

impl UserData {
    /// No user.
    pub fn empty() -> (res: Self)
        ensures
            res.user is None,
    {
        Self { user: None }
    }

    /// A found user.
    pub fn from_data_model(user_from_db: User) -> (res: Self)
        ensures
            res.user == Some(user_from_db),
    {
        UserData { user: Some(user_from_db) }
    }
}

}
