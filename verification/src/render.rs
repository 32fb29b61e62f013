//! The text of the vault's notes: template filling for tweets, users and
//! conversations, and the lists of embeds, tags and links they hold.
use vstd::prelude::*;
use crate::model::{Tweet, TweetData, TweetReference, User, UserData};
use crate::outside::{
    chrono_datetime_text, chrono_local_date_text, datetime_text, local_date_text,
};
use crate::text::{decimal_int, lemma_decimal_int_injective, i64_to_decimal, push_decimal_i64, replace_all, replace_all_exec, str_eq};

verus! {

broadcast use vstd::seq_lib::group_seq_properties;

// ---------------------------------------------------------------------------
// Models
// ---------------------------------------------------------------------------

/// The line that embeds the note of a tweet: `![[<id>]]` and a newline.
pub open spec fn embed_line(id: i64) -> Seq<char> {
    "![["@ + decimal_int(id as int) + "]]\n"@
}

/// One embed line per id, in order.
pub open spec fn embed_lines(ids: Seq<i64>) -> Seq<char>
    decreases ids.len(),
{
    if ids.len() == 0 {
        Seq::empty()
    } else {
        embed_lines(ids.drop_last()) + embed_line(ids.last())
    }
}

/// One `- <tag>` line per tag, in order.
pub open spec fn tag_lines(tags: Seq<Seq<char>>) -> Seq<char>
    decreases tags.len(),
{
    if tags.len() == 0 {
        Seq::empty()
    } else {
        tag_lines(tags.drop_last()) + ("- "@ + tags.last() + "\n"@)
    }
}

/// One `- [[index/<tag>|<tag>]]` line per tag, in order.
pub open spec fn tag_link_lines(tags: Seq<Seq<char>>) -> Seq<char>
    decreases tags.len(),
{
    if tags.len() == 0 {
        Seq::empty()
    } else {
        tag_link_lines(tags.drop_last()) + ("- [[index/"@ + tags.last() + "|"@ + tags.last()
            + "]]\n"@)
    }
}

/// The address of a tweet on twitter.com.
pub open spec fn tweet_url(tweet_id: i64, handle: Seq<char>) -> Seq<char> {
    "https://twitter.com/"@ + handle + "/status/"@ + decimal_int(tweet_id as int)
}

/// The tweet that the first reference of the given kind points at.
pub open spec fn first_reference(refs: Seq<TweetReference>, kind: Seq<char>) -> Option<i64>
    decreases refs.len(),
{
    if refs.len() == 0 {
        None
    } else if refs[0].reference_type@ == kind {
        Some(refs[0].referenced_tweet_id)
    } else {
        first_reference(refs.drop_first(), kind)
    }
}

/// The id of the first referenced tweet of the given kind, or `None`.
pub open spec fn reference_text(refs: Seq<TweetReference>, kind: Seq<char>) -> Seq<char> {
    match first_reference(refs, kind) {
        Some(id) => decimal_int(id as int),
        None => "None"@,
    }
}

/// The author of a tweet among `users`: users are taken in order, the first
/// one with the author's id is it, and an absent user before it ends the
/// search without one.
pub open spec fn find_author(users: Seq<UserData>, author_id: i64) -> Option<User>
    decreases users.len(),
{
    if users.len() == 0 {
        None
    } else {
        match users[0].user {
            None => None,
            Some(u) => if u.id == author_id {
                Some(u)
            } else {
                find_author(users.drop_first(), author_id)
            },
        }
    }
}

/// The note of a user: the template with its placeholders filled in.
pub open spec fn user_note(template: Seq<char>, user: User) -> Seq<char> {
    let s = replace_all(template, "{{USER_ID}}"@, decimal_int(user.id as int));
    let s = replace_all(s, "{{USER_FULL_NAME}}"@, user.name@);
    let s = replace_all(s, "{{TWITTER_HANDLE}}"@, "@"@ + user.username@);
    replace_all(s, "{{USER_DESCRIPTION}}"@, user.description@)
}

/// The note of a conversation: the template with its id and the embeds of
/// its tweets filled in.
pub open spec fn conversation_note(
    template: Seq<char>,
    conversation_id: Seq<char>,
    tweet_ids: Seq<i64>,
) -> Seq<char> {
    let s = replace_all(template, "{{CONVERSATION_ID}}"@, conversation_id);
    replace_all(s, "{{CONVERSATION_TWEETS}}"@, embed_lines(tweet_ids))
}

/// The note of a tweet: the template with its placeholders filled in, in
/// the order in which they are replaced.
pub open spec fn tweet_note(
    template: Seq<char>,
    tweet: Tweet,
    handle: Seq<char>,
    refs: Seq<TweetReference>,
    tags: Seq<Seq<char>>,
    published: Seq<char>,
    published_date: Seq<char>,
) -> Seq<char> {
    let s = replace_all(template, "{{CONTENT}}"@, tweet.content@);
    let s = replace_all(s, "{{TWEET_ID}}"@, decimal_int(tweet.id as int));
    let s = replace_all(s, "{{AUTHOR_TWITTER_HANDLE}}"@, handle);
    let s = replace_all(s, "{{PUBLISHED_DATE}}"@, published);
    let s = replace_all(s, "{{CONVERSATION_ID}}"@, decimal_int(tweet.conversation_id as int));
    let s = replace_all(s, "{{IN_REPLY_TO_ID}}"@, reference_text(refs, "replied_to"@));
    let s = replace_all(s, "{{RETWEET_ID}}"@, reference_text(refs, "retweeted"@));
    let s = replace_all(s, "{{QUOTED_TWEET_ID}}"@, reference_text(refs, "quoted"@));
    let s = replace_all(s, "{{TAGS}}"@, tag_lines(tags));
    let s = replace_all(s, "{{TAGS_LINKS}}"@, tag_link_lines(tags));
    let s = replace_all(s, "{{PUBLISHED_DATE_IN_CALENDAR}}"@, published_date);
    replace_all(s, "{{TWITTER_URL}}"@, tweet_url(tweet.id, handle))
}

/// Why the note of a tweet could not be written.
#[derive(Clone, Copy, Debug, PartialEq, Eq)]
pub enum RenderError {
    /// The tweet was not found.
    MissingTweet,
    /// The author is not among the users, or an absent user precedes it.
    UnknownAuthor,
    /// `chrono` cannot render the tweet's time.
    InvalidTimestamp,
}

/// The author is the first user with the author's id, whatever the ids of
/// the present users before it.
pub proof fn lemma_find_author_finds_first(users: Seq<UserData>, author_id: i64, k: int)
    requires
        0 <= k < users.len(),
        forall|j: int|
            0 <= j < k ==> match (#[trigger] users[j]).user {
                Some(u) => u.id != author_id,
                None => false,
            },
        users[k].user matches Some(u) && u.id == author_id,
    ensures
        find_author(users, author_id) == users[k].user,
    decreases k,
{
    if k > 0 {
        let rest = users.drop_first();
        assert forall|j: int| 0 <= j < k - 1 implies match (#[trigger] rest[j]).user {
            Some(u) => u.id != author_id,
            None => false,
        } by {
            assert(rest[j] == users[j + 1]);
        }
        assert(rest[k - 1] == users[k]);
        assert(match users[0].user {
            Some(u) => u.id != author_id,
            None => false,
        });
        lemma_find_author_finds_first(rest, author_id, k - 1);
    }
}

/// An absent user before any user with the author's id ends the search
/// without an author.
pub proof fn lemma_find_author_absent_user_stops(users: Seq<UserData>, author_id: i64, k: int)
    requires
        0 <= k < users.len(),
        forall|j: int|
            0 <= j < k ==> match (#[trigger] users[j]).user {
                Some(u) => u.id != author_id,
                None => false,
            },
        users[k].user is None,
    ensures
        find_author(users, author_id) is None,
    decreases k,
{
    if k > 0 {
        let rest = users.drop_first();
        assert forall|j: int| 0 <= j < k - 1 implies match (#[trigger] rest[j]).user {
            Some(u) => u.id != author_id,
            None => false,
        } by {
            assert(rest[j] == users[j + 1]);
        }
        assert(rest[k - 1] == users[k]);
        assert(match users[0].user {
            Some(u) => u.id != author_id,
            None => false,
        });
        lemma_find_author_absent_user_stops(rest, author_id, k - 1);
    }
}

/// When every user is present and none has the author's id, there is no
/// author; and an author that is found has the author's id.
pub proof fn lemma_find_author_none_or_matching(users: Seq<UserData>, author_id: i64)
    ensures
        (forall|j: int|
            0 <= j < users.len() ==> match (#[trigger] users[j]).user {
                Some(u) => u.id != author_id,
                None => false,
            }) ==> find_author(users, author_id) is None,
        find_author(users, author_id) matches Some(u) ==> u.id == author_id,
    decreases users.len(),
{
    if users.len() > 0 {
        let rest = users.drop_first();
        lemma_find_author_none_or_matching(rest, author_id);
        if forall|j: int|
            0 <= j < users.len() ==> match (#[trigger] users[j]).user {
                Some(u) => u.id != author_id,
                None => false,
            } {
            assert forall|j: int| 0 <= j < rest.len() implies match (#[trigger] rest[j]).user {
                Some(u) => u.id != author_id,
                None => false,
            } by {
                assert(rest[j] == users[j + 1]);
            }
            assert(match users[0].user {
                Some(u) => u.id != author_id,
                None => false,
            });
        }
    }
}

/// The first reference of a kind is the one at the first position whose
/// type is that kind.
pub proof fn lemma_first_reference_is_first(refs: Seq<TweetReference>, kind: Seq<char>, k: int)
    requires
        0 <= k < refs.len(),
        refs[k].reference_type@ == kind,
        forall|j: int| 0 <= j < k ==> (#[trigger] refs[j]).reference_type@ != kind,
    ensures
        first_reference(refs, kind) == Some(refs[k].referenced_tweet_id),
        reference_text(refs, kind) == decimal_int(refs[k].referenced_tweet_id as int),
    decreases k,
{
    if k > 0 {
        let rest = refs.drop_first();
        assert forall|j: int| 0 <= j < k - 1 implies (#[trigger] rest[j]).reference_type@ != kind by {
            assert(rest[j] == refs[j + 1]);
        }
        assert(rest[k - 1] == refs[k]);
        assert(refs[0].reference_type@ != kind);
        lemma_first_reference_is_first(rest, kind, k - 1);
    }
}

/// Without a reference of the kind, there is none to show.
pub proof fn lemma_first_reference_absent(refs: Seq<TweetReference>, kind: Seq<char>)
    requires
        forall|j: int| 0 <= j < refs.len() ==> (#[trigger] refs[j]).reference_type@ != kind,
    ensures
        first_reference(refs, kind) is None,
        reference_text(refs, kind) == "None"@,
    decreases refs.len(),
{
    if refs.len() > 0 {
        let rest = refs.drop_first();
        assert forall|j: int| 0 <= j < rest.len() implies (#[trigger] rest[j]).reference_type@ != kind by {
            assert(rest[j] == refs[j + 1]);
        }
        assert(refs[0].reference_type@ != kind);
        lemma_first_reference_absent(rest, kind);
    }
}

/// The embeds of two lists of tweets, one after the other, are the embeds
/// of the joined list.
pub proof fn lemma_embed_lines_append(a: Seq<i64>, b: Seq<i64>)
    ensures
        embed_lines(a + b) == embed_lines(a) + embed_lines(b),
    decreases b.len(),
{
    if b.len() == 0 {
        assert(a + b =~= a);
        assert(embed_lines(a) + embed_lines(b) =~= embed_lines(a));
    } else {
        lemma_embed_lines_append(a, b.drop_last());
        assert((a + b).drop_last() =~= a + b.drop_last());
        assert(embed_lines(a + b) =~= embed_lines(a) + embed_lines(b));
    }
}

/// The tag list of two lists of tags, one after the other, is the tag list
/// of the joined list; so is the list of links.
pub proof fn lemma_tag_lines_append(a: Seq<Seq<char>>, b: Seq<Seq<char>>)
    ensures
        tag_lines(a + b) == tag_lines(a) + tag_lines(b),
        tag_link_lines(a + b) == tag_link_lines(a) + tag_link_lines(b),
    decreases b.len(),
{
    if b.len() == 0 {
        assert(a + b =~= a);
        assert(tag_lines(a) + tag_lines(b) =~= tag_lines(a));
        assert(tag_link_lines(a) + tag_link_lines(b) =~= tag_link_lines(a));
    } else {
        lemma_tag_lines_append(a, b.drop_last());
        assert((a + b).drop_last() =~= a + b.drop_last());
        assert(tag_lines(a + b) =~= tag_lines(a) + tag_lines(b));
        assert(tag_link_lines(a + b) =~= tag_link_lines(a) + tag_link_lines(b));
    }
}

/// Two tweets with different ids get different embed lines.
pub proof fn lemma_embed_line_injective(a: i64, b: i64)
    ensures
        embed_line(a) == embed_line(b) ==> a == b,
{
    if embed_line(a) == embed_line(b) {
        let pre = "![["@;
        let post = "]]\n"@;
        let da = decimal_int(a as int);
        let db = decimal_int(b as int);
        assert(embed_line(a).len() == embed_line(b).len());
        assert(da =~= embed_line(a).subrange(pre.len() as int, (pre.len() + da.len()) as int));
        assert(db =~= embed_line(b).subrange(pre.len() as int, (pre.len() + db.len()) as int));
        lemma_decimal_int_injective(a as int, b as int);
    }
}

// ---------------------------------------------------------------------------
// Executable functions
// ---------------------------------------------------------------------------

/// Appends the embed line of a tweet id.
fn push_embed_line(s: &mut String, id: i64)
    ensures
        final(s)@ == old(s)@ + embed_line(id),
{
    s.append("![[");
    push_decimal_i64(s, id);
    s.append("]]\n");
    assert(s@ =~= old(s)@ + embed_line(id));
}

/// The embeds of the tweets of a conversation, one line each.
pub fn format_conversation_tweet(conversation_tweets: &Vec<i64>) -> (res: String)
    ensures
        res@ == embed_lines(conversation_tweets@),
{
    let mut out = String::new();
    for i in 0..conversation_tweets.len()
        invariant
            out@ == embed_lines(conversation_tweets@.take(i as int)),
    {
        proof {
            assert(conversation_tweets@.take(i + 1).drop_last() =~= conversation_tweets@.take(
                i as int,
            ));
        }
        push_embed_line(&mut out, conversation_tweets[i]);
    }
    assert(conversation_tweets@.take(conversation_tweets.len() as int) =~= conversation_tweets@);
    out
}

/// The note of a conversation, from the text of its template.
pub fn format_conversation(
    template: &str,
    conversation_id: String,
    conversation_tweets: &Vec<i64>,
) -> (res: String)
    ensures
        res@ == conversation_note(template@, conversation_id@, conversation_tweets@),
{
    let conversation_tweets_formatted = format_conversation_tweet(conversation_tweets);
    let s = replace_all_exec(template, "{{CONVERSATION_ID}}", conversation_id.as_str());
    replace_all_exec(s.as_str(), "{{CONVERSATION_TWEETS}}", conversation_tweets_formatted.as_str())
}

/// The tags of a note as a list, one `- <tag>` line each.
pub fn format_tags(tags: &Vec<String>) -> (res: String)
    ensures
        res@ == tag_lines(tags.deep_view()),
{
    let mut out = String::new();
    for i in 0..tags.len()
        invariant
            out@ == tag_lines(tags.deep_view().take(i as int)),
    {
        proof {
            assert(tags.deep_view().take(i + 1).drop_last() =~= tags.deep_view().take(i as int));
            assert(tags.deep_view().take(i + 1).last() == tags@[i as int]@);
        }
        let ghost before = out@;
        out.append("- ");
        out.append(tags[i].as_str());
        out.append("\n");
        assert(out@ =~= before + ("- "@ + tags@[i as int]@ + "\n"@));
    }
    assert(tags.deep_view().take(tags.len() as int) =~= tags.deep_view());
    out
}

/// The tags of a note as links into the index, one line each.
pub fn format_tags_list(tags: &Vec<String>) -> (res: String)
    ensures
        res@ == tag_link_lines(tags.deep_view()),
{
    let mut out = String::new();
    for i in 0..tags.len()
        invariant
            out@ == tag_link_lines(tags.deep_view().take(i as int)),
    {
        proof {
            assert(tags.deep_view().take(i + 1).drop_last() =~= tags.deep_view().take(i as int));
            assert(tags.deep_view().take(i + 1).last() == tags@[i as int]@);
        }
        let ghost before = out@;
        out.append("- [[index/");
        out.append(tags[i].as_str());
        out.append("|");
        out.append(tags[i].as_str());
        out.append("]]\n");
        assert(out@ =~= before + ("- [[index/"@ + tags@[i as int]@ + "|"@ + tags@[i as int]@
            + "]]\n"@));
    }
    assert(tags.deep_view().take(tags.len() as int) =~= tags.deep_view());
    out
}

/// The address of a tweet on twitter.com.
pub fn format_tweet_url(tweet_id: &i64, twitter_handle: &str) -> (res: String)
    ensures
        res@ == tweet_url(*tweet_id, twitter_handle@),
{
    let mut s = String::from_str("https://twitter.com/");
    s.append(twitter_handle);
    s.append("/status/");
    push_decimal_i64(&mut s, *tweet_id);
    assert(s@ =~= tweet_url(*tweet_id, twitter_handle@));
    s
}

/// The id of the first referenced tweet of the given kind, or `None`.
fn format_reference(tweet_data: &TweetData, kind: &str) -> (res: String)
    ensures
        res@ == reference_text(tweet_data.references@, kind@),
{
    let refs = &tweet_data.references;
    let mut i: usize = 0;
    while i < refs.len()
        invariant
            i <= refs@.len(),
            refs@ == tweet_data.references@,
            first_reference(refs@, kind@) == first_reference(refs@.skip(i as int), kind@),
        decreases refs@.len() - i,
    {
        assert(refs@.skip(i as int)[0] == refs@[i as int]);
        assert(refs@.skip(i as int).drop_first() =~= refs@.skip(i + 1));
        if str_eq(refs[i].reference_type.as_str(), kind) {
            assert(first_reference(refs@.skip(i as int), kind@) == Some(
                refs@[i as int].referenced_tweet_id,
            ));
            return i64_to_decimal(refs[i].referenced_tweet_id);
        }
        i = i + 1;
    }
    assert(refs@.skip(i as int).len() == 0);
    String::from_str("None")
}

/// The tweet this one replies to, or `None`.
pub fn format_in_reply_to(tweet_data: &TweetData) -> (res: String)
    ensures
        res@ == reference_text(tweet_data.references@, "replied_to"@),
{
    format_reference(tweet_data, "replied_to")
}

/// The tweet this one retweets, or `None`.
pub fn format_retweeted(tweet_data: &TweetData) -> (res: String)
    ensures
        res@ == reference_text(tweet_data.references@, "retweeted"@),
{
    format_reference(tweet_data, "retweeted")
}

/// The tweet this one quotes, or `None`.
pub fn format_quoted(tweet_data: &TweetData) -> (res: String)
    ensures
        res@ == reference_text(tweet_data.references@, "quoted"@),
{
    format_reference(tweet_data, "quoted")
}

/// The author of a tweet among `users`, as `find_author` describes.
pub fn author_of(users: &[UserData], author_id: i64) -> (res: Option<&User>)
    ensures
        match res {
            Some(u) => find_author(users@, author_id) == Some(*u),
            None => find_author(users@, author_id) is None,
        },
{
    let mut i: usize = 0;
    while i < users.len()
        invariant
            i <= users@.len(),
            find_author(users@, author_id) == find_author(users@.skip(i as int), author_id),
        decreases users@.len() - i,
    {
        assert(users@.skip(i as int)[0] == users@[i as int]);
        assert(users@.skip(i as int).drop_first() =~= users@.skip(i + 1));
        match &users[i].user {
            None => {
                return None;
            },
            Some(u) => {
                if u.id == author_id {
                    return Some(u);
                }
            },
        }
        i = i + 1;
    }
    None
}

/// The note of a user, from the text of its template; `None` when the user
/// was not found.
pub fn format_user(template: &str, user_data: &UserData) -> (res: Option<String>)
    ensures
        user_data.user is None ==> res is None,
        user_data.user matches Some(u) ==> res matches Some(r) && r@ == user_note(template@, u),
{
    match &user_data.user {
        None => None,
        Some(user) => {
            let id = i64_to_decimal(user.id);
            let mut handle = String::from_str("@");
            handle.append(user.username.as_str());
            let s = replace_all_exec(template, "{{USER_ID}}", id.as_str());
            let s = replace_all_exec(s.as_str(), "{{USER_FULL_NAME}}", user.name.as_str());
            let s = replace_all_exec(s.as_str(), "{{TWITTER_HANDLE}}", handle.as_str());
            let s = replace_all_exec(s.as_str(), "{{USER_DESCRIPTION}}", user.description.as_str());
            Some(s)
        },
    }
}

/// The outcome `format_tweet` owes for a tweet, its tags, the users and a
/// template.
pub open spec fn tweet_note_result(
    template: Seq<char>,
    tweet_data: TweetData,
    tags: Seq<Seq<char>>,
    users: Seq<UserData>,
) -> Result<Seq<char>, RenderError> {
    match tweet_data.tweet {
        None => Err(RenderError::MissingTweet),
        Some(t) => match find_author(users, t.author_id) {
            None => Err(RenderError::UnknownAuthor),
            Some(u) => {
                let ts = t.created_at;
                match (
                    chrono_datetime_text(ts.secs, ts.nanos, ts.offset_secs),
                    chrono_local_date_text(ts.secs, ts.nanos, ts.offset_secs),
                ) {
                    (Some(published), Some(date)) => Ok(
                        tweet_note(
                            template,
                            t,
                            u.username@,
                            tweet_data.references@,
                            tags,
                            published,
                            date,
                        ),
                    ),
                    _ => Err(RenderError::InvalidTimestamp),
                }
            },
        },
    }
}

/// The note of a tweet, from the text of its template.
pub fn format_tweet(
    template: &str,
    tweet_data: &TweetData,
    tags: Vec<String>,
    users: &[UserData],
) -> (res: Result<String, RenderError>)
    ensures
        match (res, tweet_note_result(template@, *tweet_data, tags.deep_view(), users@)) {
            (Ok(s), Ok(t)) => s@ == t,
            (Err(e), Err(f)) => e == f,
            _ => false,
        },
{
    let tweet = match &tweet_data.tweet {
        Some(t) => t,
        None => return Err(RenderError::MissingTweet),
    };
    let user = match author_of(users, tweet.author_id) {
        Some(u) => u,
        None => return Err(RenderError::UnknownAuthor),
    };
    let ts = tweet.created_at;
    let published = datetime_text(ts.secs, ts.nanos, ts.offset_secs);
    let published_date = local_date_text(ts.secs, ts.nanos, ts.offset_secs);
    let (published, published_date) = match (published, published_date) {
        (Some(p), Some(d)) => (p, d),
        _ => return Err(RenderError::InvalidTimestamp),
    };
    let handle = user.username.as_str();
    let id = i64_to_decimal(tweet.id);
    let conversation = i64_to_decimal(tweet.conversation_id);
    let in_reply_to = format_in_reply_to(tweet_data);
    let retweeted = format_retweeted(tweet_data);
    let quoted = format_quoted(tweet_data);
    let tag_list = format_tags(&tags);
    let tag_links = format_tags_list(&tags);
    let url = format_tweet_url(&tweet.id, handle);
    let s = replace_all_exec(template, "{{CONTENT}}", tweet.content.as_str());
    let s = replace_all_exec(s.as_str(), "{{TWEET_ID}}", id.as_str());
    let s = replace_all_exec(s.as_str(), "{{AUTHOR_TWITTER_HANDLE}}", handle);
    let s = replace_all_exec(s.as_str(), "{{PUBLISHED_DATE}}", published.as_str());
    let s = replace_all_exec(s.as_str(), "{{CONVERSATION_ID}}", conversation.as_str());
    let s = replace_all_exec(s.as_str(), "{{IN_REPLY_TO_ID}}", in_reply_to.as_str());
    let s = replace_all_exec(s.as_str(), "{{RETWEET_ID}}", retweeted.as_str());
    let s = replace_all_exec(s.as_str(), "{{QUOTED_TWEET_ID}}", quoted.as_str());
    let s = replace_all_exec(s.as_str(), "{{TAGS}}", tag_list.as_str());
    let s = replace_all_exec(s.as_str(), "{{TAGS_LINKS}}", tag_links.as_str());
    let s = replace_all_exec(s.as_str(), "{{PUBLISHED_DATE_IN_CALENDAR}}", published_date.as_str());
    let s = replace_all_exec(s.as_str(), "{{TWITTER_URL}}", url.as_str());
    Ok(s)
}

}
