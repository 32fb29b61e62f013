//! Words and tags: the vocabulary of an author, the tags kept from it, and
//! the counts from which the tags of a single tweet are chosen.
use vstd::prelude::*;
use crate::model::TweetData;
use crate::outside::{count_regex_matches, regex_match_count};
use crate::text::{
    chars_of, has_prefix, lower_spec, push_char, split_ascii_whitespace,
    starts_with, str_eq, strip_punctuation, strip_spec, to_ascii_lowercase, count_ascii_words,
    words, has_punctuation, has_punctuation_spec,
};

verus! {

broadcast use vstd::seq_lib::group_seq_properties;

// ---------------------------------------------------------------------------
// Sets of strings held in vectors
// ---------------------------------------------------------------------------

/// Whether `v` holds a string equal to `w`.
pub fn contains_str(v: &Vec<String>, w: &str) -> (res: bool)
    ensures
        res == v.deep_view().contains(w@),
{
    for i in 0..v.len()
        invariant
            forall|j: int| 0 <= j < i ==> v.deep_view()[j] != w@,
    {
        if str_eq(v[i].as_str(), w) {
            assert(v.deep_view()[i as int] == w@);
            return true;
        }
    }
    false
}

/// Appends `w` unless `out` already holds an equal string.
fn push_unique(out: &mut Vec<String>, w: String)
    ensures
        old(out).deep_view().contains(w@) ==> final(out).deep_view() == old(out).deep_view(),
        !old(out).deep_view().contains(w@) ==> final(out).deep_view() == old(out).deep_view().push(
            w@,
        ),
{
    if !contains_str(out, w.as_str()) {
        let ghost before = out.deep_view();
        out.push(w);
        assert(out.deep_view() =~= before.push(w@));
    }
}

/// Pushing an element that is not there keeps a sequence free of duplicates.
proof fn lemma_push_no_duplicates<A>(s: Seq<A>, x: A)
    requires
        s.no_duplicates(),
        !s.contains(x),
    ensures
        s.push(x).no_duplicates(),
{
    assert forall|i: int, j: int|
        0 <= i < s.push(x).len() && 0 <= j < s.push(x).len() && i != j implies s.push(x)[i]
        != s.push(x)[j] by {
        if i == s.len() as int {
            assert(s[j] == s.push(x)[j]);
        } else if j == s.len() as int {
            assert(s[i] == s.push(x)[i]);
        }
    }
}

// ---------------------------------------------------------------------------
// Tags of the vault
// ---------------------------------------------------------------------------

/// A word becomes a tag when it is not a common word and not a link.
pub open spec fn is_tag_word(word: Seq<char>, common_words: Seq<Seq<char>>) -> bool {
    !common_words.contains(word) && !has_prefix(word, "http"@)
}

/// The tags of the vault: the words of `corpus` that are neither among
/// `common_words` nor start with `http`, each once, in no promised order.
pub fn get_tags(corpus: Vec<String>, common_words: Vec<String>) -> (res: Vec<String>)
    ensures
        res.deep_view().no_duplicates(),
        forall|w: Seq<char>|
            #[trigger] res.deep_view().contains(w) <==> (corpus.deep_view().contains(w)
                && is_tag_word(w, common_words.deep_view())),
        forall|w: Seq<char>|
            #[trigger] res.deep_view().contains(w) <==> (corpus.deep_view().contains(w)
                && !common_words.deep_view().contains(w) && !("http"@.len() <= w.len() && w.take(
                "http"@.len() as int,
            ) == "http"@)),
{
    let mut out: Vec<String> = Vec::new();
    for i in 0..corpus.len()
        invariant
            out.deep_view().no_duplicates(),
            forall|w: Seq<char>|
                #[trigger] out.deep_view().contains(w) <==> (corpus.deep_view().take(
                    i as int,
                ).contains(w) && is_tag_word(w, common_words.deep_view())),
    {
        let word = &corpus[i];
        let ghost before = out.deep_view();
        proof {
            assert(corpus.deep_view().take(i + 1) =~= corpus.deep_view().take(i as int).push(
                word@,
            ));
        }
        if !contains_str(&common_words, word.as_str()) && !starts_with(word.as_str(), "http") {
            proof {
                if !before.contains(word@) {
                    lemma_push_no_duplicates(before, word@);
                }
            }
            push_unique(&mut out, word.clone());
        }
        assert forall|w: Seq<char>|
            #[trigger] out.deep_view().contains(w) <==> (corpus.deep_view().take(i + 1).contains(w)
                && is_tag_word(w, common_words.deep_view())) by {
            if w == word@ {
                assert(corpus.deep_view().take(i + 1)[i as int] == w);
            }
        }
    }
    assert(corpus.deep_view().take(corpus.len() as int) =~= corpus.deep_view());
    assert forall|w: Seq<char>|
        #[trigger] out.deep_view().contains(w) <==> (corpus.deep_view().contains(w)
            && !common_words.deep_view().contains(w) && !("http"@.len() <= w.len() && w.take(
            "http"@.len() as int,
        ) == "http"@)) by {
        lemma_tag_word_meaning(w, common_words.deep_view());
    }
    out
}

/// The words an author used: the ASCII-lowercased contents of the found
/// tweets of `author_id`, split at ASCII whitespace, each word once, in no
/// promised order.
pub fn author_corpus(tweets: &Vec<TweetData>, author_id: i64) -> (res: Vec<String>)
    ensures
        res.deep_view().no_duplicates(),
        forall|w: Seq<char>|
            #[trigger] res.deep_view().contains(w) <==> exists|i: int|
                0 <= i < tweets@.len() && #[trigger] uses_word(tweets@[i], author_id, w),
        forall|w: Seq<char>|
            #[trigger] res.deep_view().contains(w) <==> exists|i: int|
                0 <= i < tweets@.len() && match (#[trigger] tweets@[i]).tweet {
                    Some(x) => x.author_id == author_id && words(lower_spec(x.content@)).contains(w),
                    None => false,
                },
{
    let mut out: Vec<String> = Vec::new();
    for i in 0..tweets.len()
        invariant
            out.deep_view().no_duplicates(),
            forall|w: Seq<char>|
                #[trigger] out.deep_view().contains(w) <==> exists|k: int|
                    0 <= k < i && #[trigger] uses_word(tweets@[k], author_id, w),
    {
        let ghost before_outer = out.deep_view();
        match &tweets[i].tweet {
            Some(t) => {
                if t.author_id == author_id {
                    let lowered = to_ascii_lowercase(t.content.as_str());
                    let ws = split_ascii_whitespace(lowered.as_str());
                    for j in 0..ws.len()
                        invariant
                            ws.deep_view() == words(lower_spec(t.content@)),
                            t.author_id == author_id,
                            tweets@[i as int].tweet == Some(*t),
                            out.deep_view().no_duplicates(),
                            forall|w: Seq<char>|
                                #[trigger] out.deep_view().contains(w) <==> (before_outer.contains(w)
                                    || ws.deep_view().take(j as int).contains(w)),
                    {
                        let ghost before = out.deep_view();
                        let word = ws[j].clone();
                        proof {
                            assert(ws.deep_view().take(j + 1) =~= ws.deep_view().take(
                                j as int,
                            ).push(word@));
                            if !before.contains(word@) {
                                lemma_push_no_duplicates(before, word@);
                            }
                        }
                        push_unique(&mut out, word);
                    }
                    assert(ws.deep_view().take(ws.len() as int) =~= ws.deep_view());
                }
            },
            None => {},
        }
        assert forall|w: Seq<char>|
            #[trigger] out.deep_view().contains(w) <==> exists|k: int|
                0 <= k < i + 1 && #[trigger] uses_word(tweets@[k], author_id, w) by {
            if uses_word(tweets@[i as int], author_id, w) {
                assert(out.deep_view().contains(w));
            }
            if out.deep_view().contains(w) && !before_outer.contains(w) {
                assert(uses_word(tweets@[i as int], author_id, w));
            }
        }
    }
    assert forall|w: Seq<char>|
        #[trigger] out.deep_view().contains(w) <==> exists|i: int|
            0 <= i < tweets@.len() && match (#[trigger] tweets@[i]).tweet {
                Some(x) => x.author_id == author_id && words(lower_spec(x.content@)).contains(w),
                None => false,
            } by {
        if out.deep_view().contains(w) {
            let k = choose|k: int| 0 <= k < tweets@.len() && #[trigger] uses_word(tweets@[k], author_id, w);
            lemma_uses_word_meaning(tweets@[k], author_id, w);
        }
        if exists|i: int|
            0 <= i < tweets@.len() && match (#[trigger] tweets@[i]).tweet {
                Some(x) => x.author_id == author_id && words(lower_spec(x.content@)).contains(w),
                None => false,
            } {
            let k = choose|i: int|
                0 <= i < tweets@.len() && match (#[trigger] tweets@[i]).tweet {
                    Some(x) => x.author_id == author_id && words(lower_spec(x.content@)).contains(w),
                    None => false,
                };
            lemma_uses_word_meaning(tweets@[k], author_id, w);
        }
    }
    out
}

/// Whether `tweet` is a found tweet of `author_id` whose lowercased content
/// holds the word `w`.
pub open spec fn uses_word(tweet: TweetData, author_id: i64, w: Seq<char>) -> bool {
    match tweet.tweet {
        Some(t) => t.author_id == author_id && words(lower_spec(t.content@)).contains(w),
        None => false,
    }
}

/// A tweet contributes a word to its author's vocabulary exactly when it
/// was found, its author is that author, and the word is a word of its
/// lowercased content; its references play no part.
pub proof fn lemma_uses_word_meaning(tweet: TweetData, author_id: i64, w: Seq<char>)
    ensures
        uses_word(tweet, author_id, w) <==> match tweet.tweet {
            Some(x) => x.author_id == author_id && words(lower_spec(x.content@)).contains(w),
            None => false,
        },
{
}

/// Two tweets with the same tweet and any references contribute the same
/// words.
pub proof fn lemma_uses_word_ignores_references(
    tweet: TweetData,
    other: TweetData,
    author_id: i64,
    w: Seq<char>,
)
    requires
        tweet.tweet == other.tweet,
    ensures
        uses_word(tweet, author_id, w) == uses_word(other, author_id, w),
{
}

/// A word is a tag word exactly when it equals none of the common words
/// (a common word that is only its beginning does not count) and it does not
/// begin with `http`.
pub proof fn lemma_tag_word_meaning(w: Seq<char>, common_words: Seq<Seq<char>>)
    ensures
        is_tag_word(w, common_words) <==> (!common_words.contains(w) && !("http"@.len() <= w.len()
            && w.take("http"@.len() as int) == "http"@)),
        forall|k: int|
            0 <= k < common_words.len() && common_words[k] != w ==> (is_tag_word(w, common_words)
                == is_tag_word(w, common_words.remove(k))),
{
    assert forall|k: int|
        0 <= k < common_words.len() && common_words[k] != w implies (is_tag_word(w, common_words)
        == is_tag_word(w, common_words.remove(k))) by {
        let r = common_words.remove(k);
        if common_words.contains(w) {
            let j = choose|j: int| 0 <= j < common_words.len() && common_words[j] == w;
            if j < k {
                assert(r[j] == w);
            } else {
                assert(r[j - 1] == w);
            }
        }
        if r.contains(w) {
            let j = choose|j: int| 0 <= j < r.len() && r[j] == w;
            if j < k {
                assert(common_words[j] == w);
            } else {
                assert(common_words[j + 1] == w);
            }
        }
    }
}

/// The words of `corpus` that hold punctuation, with the punctuation
/// stripped, each result once, in no promised order.
pub fn punctuated_words(corpus: Vec<String>) -> (res: Vec<String>)
    ensures
        res.deep_view().no_duplicates(),
        forall|w: Seq<char>|
            #[trigger] res.deep_view().contains(w) <==> exists|i: int|
                0 <= i < corpus@.len() && has_punctuation_spec(#[trigger] corpus@[i]@)
                    && strip_spec(corpus@[i]@) == w,
{
    let mut out: Vec<String> = Vec::new();
    for i in 0..corpus.len()
        invariant
            out.deep_view().no_duplicates(),
            forall|w: Seq<char>|
                #[trigger] out.deep_view().contains(w) <==> exists|k: int|
                    0 <= k < i && has_punctuation_spec(#[trigger] corpus@[k]@) && strip_spec(
                        corpus@[k]@,
                    ) == w,
    {
        let ghost before = out.deep_view();
        if has_punctuation(corpus[i].as_str()) {
            let stripped = strip_punctuation(corpus[i].clone());
            proof {
                if !before.contains(stripped@) {
                    lemma_push_no_duplicates(before, stripped@);
                }
            }
            push_unique(&mut out, stripped);
        }
        assert forall|w: Seq<char>|
            #[trigger] out.deep_view().contains(w) <==> exists|k: int|
                0 <= k < i + 1 && has_punctuation_spec(#[trigger] corpus@[k]@) && strip_spec(
                    corpus@[k]@,
                ) == w by {
            if out.deep_view().contains(w) && !before.contains(w) {
                assert(has_punctuation_spec(corpus@[i as int]@));
            }
        }
    }
    out
}

// ---------------------------------------------------------------------------
// Splitting a list of common words
// ---------------------------------------------------------------------------

/// The pieces `str::split(",")` yields: the text between commas, empty pieces
/// included, at least one piece.
pub open spec fn comma_pieces(s: Seq<char>) -> Seq<Seq<char>>
    decreases s.len(),
{
    if s.len() == 0 {
        seq![Seq::empty()]
    } else {
        let prev = comma_pieces(s.drop_last());
        if s.last() == ',' {
            prev.push(Seq::empty())
        } else {
            prev.update(prev.len() - 1, prev.last().push(s.last()))
        }
    }
}

proof fn lemma_comma_pieces_nonempty(s: Seq<char>)
    ensures
        comma_pieces(s).len() > 0,
    decreases s.len(),
{
    if s.len() > 0 {
        lemma_comma_pieces_nonempty(s.drop_last());
    }
}

/// Pieces put back together with a comma between each two.
pub open spec fn join_with_commas(pieces: Seq<Seq<char>>) -> Seq<char>
    decreases pieces.len(),
{
    if pieces.len() <= 1 {
        if pieces.len() == 0 {
            Seq::empty()
        } else {
            pieces[0]
        }
    } else {
        join_with_commas(pieces.drop_last()) + seq![','] + pieces.last()
    }
}

/// Splitting at commas loses nothing: the pieces hold no comma and, joined
/// with commas, give back the text.
pub proof fn lemma_comma_pieces_round_trip(s: Seq<char>)
    ensures
        join_with_commas(comma_pieces(s)) == s,
        forall|i: int, j: int|
            0 <= i < comma_pieces(s).len() && 0 <= j < comma_pieces(s)[i].len() ==> #[trigger] comma_pieces(
                s,
            )[i][j] != ',',
    decreases s.len(),
{
    lemma_comma_pieces_nonempty(s);
    if s.len() > 0 {
        let init = s.drop_last();
        let c = s.last();
        lemma_comma_pieces_round_trip(init);
        lemma_comma_pieces_nonempty(init);
        let prev = comma_pieces(init);
        assert(s =~= init.push(c));
        if c == ',' {
            let p = prev.push(Seq::<char>::empty());
            assert(p.drop_last() =~= prev);
            assert(join_with_commas(p) =~= s);
            assert forall|i: int, j: int|
                0 <= i < p.len() && 0 <= j < p[i].len() implies #[trigger] p[i][j] != ',' by {
                assert(p[i] == prev[i]);
            }
        } else {
            let x = prev.last();
            let p = prev.update(prev.len() - 1, x.push(c));
            assert(p.drop_last() =~= prev.drop_last());
            if prev.len() == 1 {
                assert(join_with_commas(prev) == x);
                assert(join_with_commas(p) =~= s);
            } else {
                assert(join_with_commas(prev) == join_with_commas(prev.drop_last()) + seq![','] + x);
                assert(join_with_commas(p) =~= s);
            }
            assert forall|i: int, j: int|
                0 <= i < p.len() && 0 <= j < p[i].len() implies #[trigger] p[i][j] != ',' by {
                if i == prev.len() - 1 {
                    if j < x.len() {
                        assert(p[i][j] == prev[i][j]);
                    }
                } else {
                    assert(p[i] == prev[i]);
                }
            }
        }
    }
}

/// Splits a list of words at every comma, as `str::split(",")` does.
pub fn split_common_words(text: &str) -> (res: Vec<String>)
    ensures
        res.deep_view() == comma_pieces(text@),
{
    let cs = chars_of(text);
    let mut done: Vec<String> = Vec::new();
    let mut cur = String::new();
    for i in 0..cs.len()
        invariant
            cs@ == text@,
            done.deep_view().push(cur@) == comma_pieces(cs@.take(i as int)),
    {
        let c = cs[i];
        proof {
            assert(cs@.take(i + 1) =~= cs@.take(i as int).push(c));
            assert(cs@.take(i + 1).drop_last() =~= cs@.take(i as int));
            lemma_comma_pieces_nonempty(cs@.take(i as int));
        }
        let ghost prev = done.deep_view().push(cur@);
        if c == ',' {
            let ghost old_done = done.deep_view();
            done.push(cur);
            assert(done.deep_view() =~= old_done.push(prev.last()));
            cur = String::new();
            assert(done.deep_view().push(cur@) =~= prev.push(Seq::empty()));
        } else {
            push_char(&mut cur, c);
            assert(done.deep_view().push(cur@) =~= prev.update(prev.len() - 1, prev.last().push(c)));
        }
    }
    assert(cs@.take(cs@.len() as int) =~= cs@);
    let ghost old_done = done.deep_view();
    done.push(cur);
    assert(done.deep_view() =~= old_done.push(cur@));
    done
}

// ---------------------------------------------------------------------------
// Counts behind the tags of a single tweet
// ---------------------------------------------------------------------------

/// The expression searched for a term: case-insensitive, term lowercased.
pub open spec fn term_pattern(term: Seq<char>) -> Seq<char> {
    "(?i)"@ + lower_spec(term)
}

/// How often a term matches in a text, and how many words the text has.
#[derive(Clone, Copy, Debug, PartialEq, Eq)]
pub struct TermCounts {
    /// `None` when the term does not make a valid expression.
    pub matches: Option<usize>,
    pub words: usize,
}

/// The counts of `term` in `text`, with matches taken in `haystack`.
pub open spec fn counts_spec(term: Seq<char>, haystack: Seq<char>, text: Seq<char>) -> TermCounts {
    TermCounts {
        matches: regex_match_count(term_pattern(term), haystack),
        words: words(lower_spec(text)).len() as usize,
    }
}

/// Counts the case-insensitive matches of `term` in `haystack`.
pub fn count_term_matches(term: &str, haystack: &str) -> (res: Option<usize>)
    ensures
        res == regex_match_count(term_pattern(term@), haystack@),
{
    let mut pattern = String::from_str("(?i)");
    let lowered = to_ascii_lowercase(term);
    pattern.append(lowered.as_str());
    count_regex_matches(pattern.as_str(), haystack)
}

/// The counts from which the frequency of `term` in a whole corpus is
/// computed: its matches in `corpus_string` and the number of words of the
/// lowercased corpus.
pub fn corpus_term_counts(term: &str, corpus_string: &str) -> (res: TermCounts)
    ensures
        res == counts_spec(term@, corpus_string@, corpus_string@),
{
    let matches = count_term_matches(term, corpus_string);
    let lowered = to_ascii_lowercase(corpus_string);
    let words = count_ascii_words(lowered.as_str());
    TermCounts { matches, words }
}

/// A candidate tag of a tweet with its counts in the tweet and in the corpus.
#[derive(Clone, Debug)]
pub struct TagCandidate {
    pub term: String,
    pub in_tweet: TermCounts,
    pub in_corpus: TermCounts,
}

/// The words a tweet's tags are chosen from: its content with punctuation
/// stripped, lowercased, split at ASCII whitespace.
pub open spec fn tag_words(content: Seq<char>) -> Seq<Seq<char>> {
    words(lower_spec(strip_spec(content)))
}

impl TweetData {
    /// The counts from which the frequency of `term` in this tweet is
    /// computed: its matches in the lowercased content and the number of
    /// words of the lowercased content; `None` when there is no tweet.
    pub fn tweet_term_counts(&self, term: &str) -> (res: Option<TermCounts>)
        ensures
            self.tweet is None ==> res is None,
            self.tweet matches Some(t) ==> res == Some(
                counts_spec(term@, lower_spec(t.content@), t.content@),
            ),
    {
        match &self.tweet {
            Some(t) => {
                let lowered = to_ascii_lowercase(t.content.as_str());
                let matches = count_term_matches(term, lowered.as_str());
                let words = count_ascii_words(lowered.as_str());
                Some(TermCounts { matches, words })
            },
            None => None,
        }
    }

    /// Every word the tags of this tweet are chosen from, in order, with its
    /// counts in the tweet and in `corpus_string`; nothing when there is no
    /// tweet.
    pub fn tag_candidates(&self, corpus_string: &str) -> (res: Vec<TagCandidate>)
        ensures
            self.tweet is None ==> res@.len() == 0,
            self.tweet matches Some(t) ==> {
                &&& res@.len() == tag_words(t.content@).len()
                &&& forall|i: int|
                    0 <= i < res@.len() ==> {
                        &&& (#[trigger] res@[i]).term@ == tag_words(t.content@)[i]
                        &&& res@[i].in_tweet == counts_spec(
                            tag_words(t.content@)[i],
                            lower_spec(t.content@),
                            t.content@,
                        )
                        &&& res@[i].in_corpus == counts_spec(
                            tag_words(t.content@)[i],
                            corpus_string@,
                            corpus_string@,
                        )
                    }
            },
    {
        let mut out: Vec<TagCandidate> = Vec::new();
        match &self.tweet {
            Some(t) => {
                let stripped = strip_punctuation(t.content.clone());
                let lowered_stripped = to_ascii_lowercase(stripped.as_str());
                let terms = split_ascii_whitespace(lowered_stripped.as_str());
                let lowered = to_ascii_lowercase(t.content.as_str());
                let tweet_words = count_ascii_words(lowered.as_str());
                let corpus_lowered = to_ascii_lowercase(corpus_string);
                let corpus_words = count_ascii_words(corpus_lowered.as_str());
                for i in 0..terms.len()
                    invariant
                        terms.deep_view() == tag_words(t.content@),
                        lowered@ == lower_spec(t.content@),
                        tweet_words == words(lower_spec(t.content@)).len(),
                        corpus_words == words(lower_spec(corpus_string@)).len(),
                        out@.len() == i,
                        forall|k: int|
                            0 <= k < i ==> {
                                &&& (#[trigger] out@[k]).term@ == tag_words(t.content@)[k]
                                &&& out@[k].in_tweet == counts_spec(
                                    tag_words(t.content@)[k],
                                    lower_spec(t.content@),
                                    t.content@,
                                )
                                &&& out@[k].in_corpus == counts_spec(
                                    tag_words(t.content@)[k],
                                    corpus_string@,
                                    corpus_string@,
                                )
                            },
                {
                    let term = terms[i].clone();
                    assert(term@ == terms.deep_view()[i as int]);
                    let tm = count_term_matches(term.as_str(), lowered.as_str());
                    let cm = count_term_matches(term.as_str(), corpus_string);
                    out.push(
                        TagCandidate {
                            term,
                            in_tweet: TermCounts { matches: tm, words: tweet_words },
                            in_corpus: TermCounts { matches: cm, words: corpus_words },
                        },
                    );
                }
            },
            None => {},
        }
        out
    }
}

}
