//! The layout of the vault: which tweets belong to a conversation or a tag,
//! the paths of the notes, and the entries of the calendar and the index.
use vstd::prelude::*;
use crate::model::{ConversationData, TweetData, TweetWithTagsData, UserData};
use crate::outside::{chrono_local_date_text, local_date_text};
use crate::render::{embed_line, RenderError};
use crate::terms::contains_str;
use crate::text::{decimal_int, lemma_decimal_int_injective, push_decimal_i64};

verus! {

broadcast use vstd::seq_lib::group_seq_properties;

// ---------------------------------------------------------------------------
// Membership
// ---------------------------------------------------------------------------

/// Whether a tweet was found and belongs to the conversation.
pub open spec fn in_conversation(t: TweetData, conversation_id: i64) -> bool {
    match t.tweet {
        Some(tw) => tw.conversation_id == conversation_id,
        None => false,
    }
}

/// The filter that keeps the found tweets of a conversation.
pub open spec fn conversation_filter(conversation_id: i64) -> spec_fn(TweetData) -> bool {
    |t: TweetData| in_conversation(t, conversation_id)
}

/// The id of a pair that belongs to the conversation.
pub open spec fn id_if_in(conversation_id: i64) -> spec_fn((i64, i64)) -> Option<i64> {
    |p: (i64, i64)| if p.1 == conversation_id { Some(p.0) } else { None }
}

/// The tweet id and conversation id of a found tweet.
pub open spec fn id_pair(t: TweetWithTagsData) -> Option<(i64, i64)> {
    match t.tweet.tweet {
        Some(tw) => Some((tw.id, tw.conversation_id)),
        None => None,
    }
}

/// The map that keeps the id pairs of found tweets.
pub open spec fn id_pair_fn() -> spec_fn(TweetWithTagsData) -> Option<(i64, i64)> {
    |t: TweetWithTagsData| id_pair(t)
}

/// A conversation with the found tweets of `tweets` that belong to it, in
/// their order.
pub fn conversation_given_tweets(conversation_id: i64, tweets: Vec<TweetData>) -> (res:
    ConversationData)
    ensures
        res.id == conversation_id,
        res.tweets@ == tweets@.filter(conversation_filter(conversation_id)),
        forall|t: TweetData|
            #[trigger] res.tweets@.contains(t) <==> (tweets@.contains(t) && (t.tweet matches Some(
                tw,
            ) && tw.conversation_id == conversation_id)),
{
    let ghost pred = conversation_filter(conversation_id);
    let ghost all = tweets@;
    let mut kept: Vec<TweetData> = Vec::new();
    for t in it: tweets.into_iter()
        invariant
            it.seq() == all,
            pred == conversation_filter(conversation_id),
            kept@ == all.take(it.index() as int).filter(pred),
    {
        proof {
            let i = it.index() as int;
            assert(all.take(i + 1) =~= all.take(i).push(t));
            all.take(i).lemma_filter_push(t, pred);
        }
        let belongs = match &t.tweet {
            Some(tw) => tw.conversation_id == conversation_id,
            None => false,
        };
        proof {
            let i = it.index() as int;
            assert(t == all[i]);
            assert(belongs == pred(t));
        }
        if belongs {
            kept.push(t);
        }
    }
    assert(all.take(all.len() as int) =~= all);
    assert forall|t: TweetData|
        #[trigger] kept@.contains(t) <==> (all.contains(t) && (t.tweet matches Some(tw)
            && tw.conversation_id == conversation_id)) by {
        lemma_conversation_membership(conversation_id, all, t);
    }
    ConversationData { id: conversation_id, tweets: kept }
}

/// The ids of the tweets of a conversation, from (tweet id, conversation id)
/// pairs, in order.
pub fn get_conversation_tweet_ids(conversation_id: &i64, tweet_ids: &[(i64, i64)]) -> (res: Vec<
    i64,
>)
    ensures
        res@ == tweet_ids@.filter_map(id_if_in(*conversation_id)),
        forall|x: i64|
            #[trigger] res@.contains(x) <==> exists|j: int|
                0 <= j < tweet_ids@.len() && #[trigger] tweet_ids@[j] == (x, *conversation_id),
{
    let mut out: Vec<i64> = Vec::new();
    for i in 0..tweet_ids.len()
        invariant
            out@ == tweet_ids@.take(i as int).filter_map(id_if_in(*conversation_id)),
    {
        proof {
            tweet_ids@.lemma_filter_map_take_succ(id_if_in(*conversation_id), i as int);
        }
        let (tweet_id, conversation) = tweet_ids[i];
        if conversation == *conversation_id {
            out.push(tweet_id);
        }
        assert(out@ =~= tweet_ids@.take(i + 1).filter_map(id_if_in(*conversation_id)));
    }
    assert(tweet_ids@.take(tweet_ids@.len() as int) =~= tweet_ids@);
    assert forall|x: i64|
        #[trigger] out@.contains(x) <==> exists|j: int|
            0 <= j < tweet_ids@.len() && #[trigger] tweet_ids@[j] == (x, *conversation_id) by {
        lemma_filter_map_contains(tweet_ids@, id_if_in(*conversation_id), x);
        if out@.contains(x) {
            let j = choose|j: int|
                0 <= j < tweet_ids@.len() && id_if_in(*conversation_id)(tweet_ids@[j]) == Some(x);
            assert(tweet_ids@[j] == (x, *conversation_id));
        }
        if exists|j: int| 0 <= j < tweet_ids@.len() && #[trigger] tweet_ids@[j] == (x, *conversation_id) {
            let j = choose|j: int|
                0 <= j < tweet_ids@.len() && #[trigger] tweet_ids@[j] == (x, *conversation_id);
            assert(id_if_in(*conversation_id)(tweet_ids@[j]) == Some(x));
        }
    }
    out
}

/// The (tweet id, conversation id) pairs of the found tweets, in order.
pub fn tweet_and_conversation_ids(tweets: &Vec<TweetWithTagsData>) -> (res: Vec<(i64, i64)>)
    ensures
        res@ == tweets@.filter_map(id_pair_fn()),
        forall|p: (i64, i64)|
            #[trigger] res@.contains(p) <==> exists|i: int|
                0 <= i < tweets@.len() && match (#[trigger] tweets@[i]).tweet.tweet {
                    Some(tw) => p == (tw.id, tw.conversation_id),
                    None => false,
                },
{
    let ghost f = id_pair_fn();
    let mut out: Vec<(i64, i64)> = Vec::new();
    for i in 0..tweets.len()
        invariant
            f == id_pair_fn(),
            out@ == tweets@.take(i as int).filter_map(f),
    {
        proof {
            tweets@.lemma_filter_map_take_succ(f, i as int);
        }
        match &tweets[i].tweet.tweet {
            Some(tw) => {
                assert(f(tweets@[i as int]) == Some((tw.id, tw.conversation_id)));
                out.push((tw.id, tw.conversation_id));
            },
            None => {
                assert(f(tweets@[i as int]) is None);
            },
        }
        assert(out@ =~= tweets@.take(i + 1).filter_map(f));
    }
    assert(tweets@.take(tweets@.len() as int) =~= tweets@);
    assert forall|p: (i64, i64)|
        #[trigger] out@.contains(p) <==> exists|i: int|
            0 <= i < tweets@.len() && match (#[trigger] tweets@[i]).tweet.tweet {
                Some(tw) => p == (tw.id, tw.conversation_id),
                None => false,
            } by {
        lemma_filter_map_contains(tweets@, id_pair_fn(), p);
        if out@.contains(p) {
            let i = choose|i: int| 0 <= i < tweets@.len() && id_pair_fn()(#[trigger] tweets@[i]) == Some(p);
            assert(id_pair(tweets@[i]) == Some(p));
        }
        if exists|i: int|
            0 <= i < tweets@.len() && match (#[trigger] tweets@[i]).tweet.tweet {
                Some(tw) => p == (tw.id, tw.conversation_id),
                None => false,
            } {
            let i = choose|i: int|
                0 <= i < tweets@.len() && match (#[trigger] tweets@[i]).tweet.tweet {
                    Some(tw) => p == (tw.id, tw.conversation_id),
                    None => false,
                };
            assert(id_pair_fn()(tweets@[i]) == Some(p));
        }
    }
    out
}

/// The id of a found tweet of the conversation.
pub open spec fn tweet_id_in(conversation_id: i64) -> spec_fn(TweetWithTagsData) -> Option<i64> {
    |t: TweetWithTagsData|
        match t.tweet.tweet {
            Some(tw) => if tw.conversation_id == conversation_id {
                Some(tw.id)
            } else {
                None
            },
            None => None,
        }
}

/// A tweet lands in the conversation of its own conversation id and in no
/// other: it is among the tweets of a conversation exactly when it was
/// given, was found, and carries that conversation's id.
pub proof fn lemma_conversation_membership(
    conversation_id: i64,
    tweets: Seq<TweetData>,
    t: TweetData,
)
    ensures
        tweets.filter(conversation_filter(conversation_id)).contains(t) <==> (tweets.contains(t)
            && (t.tweet matches Some(tw) && tw.conversation_id == conversation_id)),
{
    let f = conversation_filter(conversation_id);
    if tweets.filter(f).contains(t) {
        tweets.lemma_filter_contains_rev(f, t);
        let k = choose|k: int| 0 <= k < tweets.filter(f).len() && tweets.filter(f)[k] == t;
        tweets.lemma_filter_pred(f, k);
    }
    if tweets.contains(t) && in_conversation(t, conversation_id) {
        let k = choose|k: int| 0 <= k < tweets.len() && tweets[k] == t;
        tweets.lemma_filter_contains(f, k);
    }
}

/// An element comes out of a `filter_map` exactly when some element of the
/// input maps to it.
pub proof fn lemma_filter_map_contains<A, B>(s: Seq<A>, f: spec_fn(A) -> Option<B>, y: B)
    ensures
        s.filter_map(f).contains(y) <==> exists|i: int| 0 <= i < s.len() && f(#[trigger] s[i]) == Some(y),
    decreases s.len(),
{
    if s.len() > 0 {
        let rest = s.drop_last();
        lemma_filter_map_contains(rest, f, y);
        assert forall|i: int| 0 <= i < rest.len() implies rest[i] == #[trigger] s[i] by {}
        if exists|i: int| 0 <= i < s.len() && f(#[trigger] s[i]) == Some(y) {
            let i = choose|i: int| 0 <= i < s.len() && f(#[trigger] s[i]) == Some(y);
            if i < rest.len() {
                assert(f(rest[i]) == Some(y));
            }
        }
        match f(s.last()) {
            Some(z) => {
                let r = rest.filter_map(f);
                assert(s.filter_map(f) == r + seq![z]);
                if s.filter_map(f).contains(y) {
                    let k = choose|k: int| 0 <= k < s.filter_map(f).len() && s.filter_map(f)[k] == y;
                    if k < r.len() {
                        assert(r[k] == y);
                    } else {
                        assert(f(s[s.len() - 1]) == Some(y));
                    }
                }
                if rest.filter_map(f).contains(y) {
                    let k = choose|k: int| 0 <= k < r.len() && r[k] == y;
                    assert(s.filter_map(f)[k] == y);
                }
                if z == y {
                    assert(s.filter_map(f)[r.len() as int] == y);
                }
            },
            None => {},
        }
    }
}

/// Taking the id pairs of the found tweets and then the ids of one
/// conversation gives the ids of that conversation's found tweets, in order.
pub proof fn lemma_conversation_ids_of_tweets(tweets: Seq<TweetWithTagsData>, conversation_id: i64)
    ensures
        tweets.filter_map(id_pair_fn()).filter_map(id_if_in(conversation_id)) == tweets.filter_map(
            tweet_id_in(conversation_id),
        ),
    decreases tweets.len(),
{
    let f = id_pair_fn();
    let g = id_if_in(conversation_id);
    if tweets.len() > 0 {
        let rest = tweets.drop_last();
        lemma_conversation_ids_of_tweets(rest, conversation_id);
        match f(tweets.last()) {
            Some(p) => {
                let r = rest.filter_map(f);
                assert((r + seq![p]).drop_last() =~= r);
                assert((r + seq![p]).last() == p);
            },
            None => {},
        }
    }
}

/// Different tweets have their notes at different paths.
pub proof fn lemma_tweet_paths_distinct(a: i64, b: i64)
    ensures
        tweet_path_spec(a) == tweet_path_spec(b) ==> a == b,
{
    if tweet_path_spec(a) == tweet_path_spec(b) {
        let pre = "tweet-vault/tweets/"@;
        let da = decimal_int(a as int);
        let db = decimal_int(b as int);
        assert(tweet_path_spec(a).len() == tweet_path_spec(b).len());
        assert(da.len() == db.len());
        assert(da =~= tweet_path_spec(a).subrange(pre.len() as int, (pre.len() + da.len()) as int));
        assert(db =~= tweet_path_spec(b).subrange(pre.len() as int, (pre.len() + db.len()) as int));
        lemma_decimal_int_injective(a as int, b as int);
    }
}

/// Different conversations have their notes at different paths.
pub proof fn lemma_conversation_paths_distinct(a: i64, b: i64)
    ensures
        conversation_path_spec(a) == conversation_path_spec(b) ==> a == b,
{
    if conversation_path_spec(a) == conversation_path_spec(b) {
        let pre = "tweet-vault/conversations/conversation-"@;
        let da = decimal_int(a as int);
        let db = decimal_int(b as int);
        assert(conversation_path_spec(a).len() == conversation_path_spec(b).len());
        assert(da.len() == db.len());
        assert(da =~= conversation_path_spec(a).subrange(
            pre.len() as int,
            (pre.len() + da.len()) as int,
        ));
        assert(db =~= conversation_path_spec(b).subrange(
            pre.len() as int,
            (pre.len() + db.len()) as int,
        ));
        lemma_decimal_int_injective(a as int, b as int);
    }
}

// ---------------------------------------------------------------------------
// The index of a tag
// ---------------------------------------------------------------------------

/// The embed line of a found tweet that carries the tag, else nothing.
pub open spec fn index_line(tag: Seq<char>, t: TweetWithTagsData) -> Seq<char> {
    match t.tweet.tweet {
        Some(tw) => if t.tags.deep_view().contains(tag) {
            embed_line(tw.id)
        } else {
            Seq::empty()
        },
        None => Seq::empty(),
    }
}

/// The embed lines of the found tweets that carry the tag, in order.
pub open spec fn index_lines(tag: Seq<char>, tweets: Seq<TweetWithTagsData>) -> Seq<char>
    decreases tweets.len(),
{
    if tweets.len() == 0 {
        Seq::empty()
    } else {
        index_lines(tag, tweets.drop_last()) + index_line(tag, tweets.last())
    }
}

/// The index line of one tweet: a found tweet is embedded exactly when the
/// tag is among its tags, wherever it stands in them; anything else adds
/// nothing.
pub proof fn lemma_index_line_meaning(tag: Seq<char>, t: TweetWithTagsData)
    ensures
        t.tweet.tweet matches Some(tw) ==> (t.tags.deep_view().contains(tag) ==> index_line(tag, t)
            == "![["@ + decimal_int(tw.id as int) + "]]\n"@),
        !(t.tweet.tweet is Some && t.tags.deep_view().contains(tag)) ==> index_line(tag, t)
            == Seq::<char>::empty(),
{
}

/// The index of a tag over two lists of tweets, one after the other, is the
/// index over the first followed by the index over the second.
pub proof fn lemma_index_lines_append(
    tag: Seq<char>,
    a: Seq<TweetWithTagsData>,
    b: Seq<TweetWithTagsData>,
)
    ensures
        index_lines(tag, a + b) == index_lines(tag, a) + index_lines(tag, b),
    decreases b.len(),
{
    if b.len() == 0 {
        assert(a + b =~= a);
        assert(index_lines(tag, a) + index_lines(tag, b) =~= index_lines(tag, a));
    } else {
        lemma_index_lines_append(tag, a, b.drop_last());
        assert((a + b).drop_last() =~= a + b.drop_last());
        assert(index_lines(tag, a + b) =~= index_lines(tag, a) + index_lines(tag, b));
    }
}

/// The index of a tag over a single tweet is that tweet's index line.
pub proof fn lemma_index_lines_single(tag: Seq<char>, t: TweetWithTagsData)
    ensures
        index_lines(tag, seq![t]) == index_line(tag, t),
{
    assert(seq![t].drop_last() =~= Seq::<TweetWithTagsData>::empty());
    assert(seq![t].last() == t);
    assert(index_lines(tag, seq![t].drop_last()) == Seq::<char>::empty());
    assert(index_lines(tag, seq![t]) =~= index_line(tag, t));
}

/// The content of the index note of a tag.
pub fn tag_index_content(tag: &String, tweets: &Vec<TweetWithTagsData>) -> (res: String)
    ensures
        res@ == index_lines(tag@, tweets@),
{
    let mut content = String::new();
    for i in 0..tweets.len()
        invariant
            content@ == index_lines(tag@, tweets@.take(i as int)),
    {
        proof {
            assert(tweets@.take(i + 1).drop_last() =~= tweets@.take(i as int));
        }
        let ghost before = content@;
        let t = &tweets[i];
        if contains_str(&t.tags, tag.as_str()) {
            match &t.tweet.tweet {
                Some(tw) => {
                    content.append("![[");
                    push_decimal_i64(&mut content, tw.id);
                    content.append("]]\n");
                },
                None => {},
            }
        }
        assert(content@ =~= before + index_line(tag@, tweets@[i as int]));
    }
    assert(tweets@.take(tweets@.len() as int) =~= tweets@);
    content
}

// ---------------------------------------------------------------------------
// Paths
// ---------------------------------------------------------------------------

pub open spec fn conversation_path_spec(conversation_id: i64) -> Seq<char> {
    "tweet-vault/conversations/conversation-"@ + decimal_int(conversation_id as int) + ".md"@
}

pub open spec fn user_path_spec(username: Seq<char>) -> Seq<char> {
    "tweet-vault/users/@"@ + username + ".md"@
}

pub open spec fn tweet_path_spec(tweet_id: i64) -> Seq<char> {
    "tweet-vault/tweets/"@ + decimal_int(tweet_id as int) + ".md"@
}

pub open spec fn calendar_path_spec(date: Seq<char>) -> Seq<char> {
    "tweet-vault/calendar/"@ + date + ".md"@
}

pub open spec fn index_path_spec(tag: Seq<char>) -> Seq<char> {
    "tweet-vault/index/"@ + tag + ".md"@
}

/// The path of the note of a conversation.
pub fn conversation_path(conversation_id: i64) -> (res: String)
    ensures
        res@ == conversation_path_spec(conversation_id),
{
    let mut s = String::from_str("tweet-vault/conversations/conversation-");
    push_decimal_i64(&mut s, conversation_id);
    s.append(".md");
    assert(s@ =~= conversation_path_spec(conversation_id));
    s
}

/// The path of the note of a user; `None` when the user was not found.
pub fn user_path(user_data: &UserData) -> (res: Option<String>)
    ensures
        user_data.user is None ==> res is None,
        user_data.user matches Some(u) ==> res matches Some(p) && p@ == user_path_spec(
            u.username@,
        ),
{
    match &user_data.user {
        Some(u) => {
            let mut s = String::from_str("tweet-vault/users/@");
            s.append(u.username.as_str());
            s.append(".md");
            assert(s@ =~= user_path_spec(u.username@));
            Some(s)
        },
        None => None,
    }
}

/// The path of the note of a tweet; `None` when the tweet was not found.
pub fn tweet_path(tweet_data: &TweetData) -> (res: Option<String>)
    ensures
        tweet_data.tweet is None ==> res is None,
        tweet_data.tweet matches Some(t) ==> res matches Some(p) && p@ == tweet_path_spec(t.id),
{
    match &tweet_data.tweet {
        Some(t) => {
            let mut s = String::from_str("tweet-vault/tweets/");
            push_decimal_i64(&mut s, t.id);
            s.append(".md");
            assert(s@ =~= tweet_path_spec(t.id));
            Some(s)
        },
        None => None,
    }
}

/// The path of the index note of a tag.
pub fn tag_index_path(tag: &str) -> (res: String)
    ensures
        res@ == index_path_spec(tag@),
{
    let mut s = String::from_str("tweet-vault/index/");
    s.append(tag);
    s.append(".md");
    assert(s@ =~= index_path_spec(tag@));
    s
}

/// Where and what to append to the calendar for a tweet: the note of the
/// tweet's local date, and the line that embeds the tweet.
pub open spec fn calendar_entry_result(tweet_data: TweetData) -> Result<
    (Seq<char>, Seq<char>),
    RenderError,
> {
    match tweet_data.tweet {
        None => Err(RenderError::MissingTweet),
        Some(t) => match chrono_local_date_text(
            t.created_at.secs,
            t.created_at.nanos,
            t.created_at.offset_secs,
        ) {
            None => Err(RenderError::InvalidTimestamp),
            Some(date) => Ok((calendar_path_spec(date), embed_line(t.id))),
        },
    }
}

/// The calendar file of a tweet's local date and the line to append to it.
pub fn calendar_entry(tweet_data: &TweetData) -> (res: Result<(String, String), RenderError>)
    ensures
        match (res, calendar_entry_result(*tweet_data)) {
            (Ok((p, l)), Ok((sp, sl))) => p@ == sp && l@ == sl,
            (Err(e), Err(f)) => e == f,
            _ => false,
        },
{
    let t = match &tweet_data.tweet {
        Some(t) => t,
        None => return Err(RenderError::MissingTweet),
    };
    let date = match local_date_text(t.created_at.secs, t.created_at.nanos, t.created_at.offset_secs) {
        Some(d) => d,
        None => return Err(RenderError::InvalidTimestamp),
    };
    let mut line = String::from_str("![[");
    push_decimal_i64(&mut line, t.id);
    line.append("]]\n");
    let mut path = String::from_str("tweet-vault/calendar/");
    path.append(date.as_str());
    path.append(".md");
    assert(line@ =~= embed_line(t.id));
    assert(path@ =~= calendar_path_spec(date@));
    Ok((path, line))
}

}
