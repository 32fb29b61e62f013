//! Character-level text processing: ASCII case folding, punctuation
//! stripping, whitespace splitting, literal replacement and decimal
//! rendering of integers.
use vstd::prelude::*;

verus! {

broadcast use vstd::seq_lib::group_seq_properties;

// ---------------------------------------------------------------------------
// Character classes
// ---------------------------------------------------------------------------

pub open spec fn is_ascii_upper(c: char) -> bool {
    'A' <= c && c <= 'Z'
}

pub open spec fn is_ascii_alnum(c: char) -> bool {
    ('0' <= c && c <= '9') || ('a' <= c && c <= 'z') || ('A' <= c && c <= 'Z')
}

/// The five characters that `char::is_ascii_whitespace` accepts.
pub open spec fn is_ascii_ws(c: char) -> bool {
    c == ' ' || c == '\t' || c == '\n' || c == '\x0C' || c == '\r'
}

/// The characters that survive punctuation stripping.
pub open spec fn kept_by_strip(c: char) -> bool {
    is_ascii_alnum(c) || c == ' '
}

pub open spec fn ascii_lower(c: char) -> char {
    if is_ascii_upper(c) {
        ((c as u32) + 32) as char
    } else {
        c
    }
}

// ---------------------------------------------------------------------------
// Whole-string models
// ---------------------------------------------------------------------------

pub open spec fn lower_spec(s: Seq<char>) -> Seq<char> {
    s.map_values(|c: char| ascii_lower(c))
}

pub open spec fn strip_spec(s: Seq<char>) -> Seq<char> {
    s.filter(|c: char| kept_by_strip(c))
}

/// The words of `s`, as `str::split_ascii_whitespace` yields them: the maximal
/// runs of characters that are not ASCII whitespace, in order.
pub open spec fn words(s: Seq<char>) -> Seq<Seq<char>>
    decreases s.len(),
{
    if s.len() == 0 {
        Seq::empty()
    } else {
        let prev = words(s.drop_last());
        let c = s.last();
        if is_ascii_ws(c) {
            prev
        } else if s.len() >= 2 && !is_ascii_ws(s[s.len() - 2]) {
            prev.update(prev.len() - 1, prev.last().push(c))
        } else {
            prev.push(seq![c])
        }
    }
}

pub open spec fn has_prefix(s: Seq<char>, p: Seq<char>) -> bool {
    p.len() <= s.len() && s.take(p.len() as int) == p
}

/// `s` with every occurrence of `pat` replaced by `rep`, scanning from the
/// left and never overlapping, as `str::replace` does. An empty pattern
/// matches before every character and at the end.
pub open spec fn replace_all(s: Seq<char>, pat: Seq<char>, rep: Seq<char>) -> Seq<char>
    decreases s.len(),
{
    if pat.len() == 0 {
        if s.len() == 0 {
            rep
        } else {
            rep + seq![s[0]] + replace_all(s.skip(1), pat, rep)
        }
    } else if s.len() < pat.len() {
        s
    } else if s.take(pat.len() as int) == pat {
        rep + replace_all(s.skip(pat.len() as int), pat, rep)
    } else {
        seq![s[0]] + replace_all(s.skip(1), pat, rep)
    }
}

pub open spec fn digit_char(d: nat) -> char {
    (48 + d) as char
}

/// The decimal digits of `n`, most significant first, without leading zeros.
pub open spec fn decimal_nat(n: nat) -> Seq<char>
    decreases n,
{
    if n < 10 {
        seq![digit_char(n)]
    } else {
        decimal_nat(n / 10).push(digit_char(n % 10))
    }
}

/// The decimal rendering of an integer, as `{}` formats it.
pub open spec fn decimal_int(i: int) -> Seq<char> {
    if i < 0 {
        seq!['-'] + decimal_nat((-i) as nat)
    } else {
        decimal_nat(i as nat)
    }
}

// ---------------------------------------------------------------------------
// Lemmas
// ---------------------------------------------------------------------------

/// A non-empty string that ends in a word character has at least one word.
pub proof fn lemma_words_nonempty(s: Seq<char>)
    requires
        s.len() > 0,
        !is_ascii_ws(s.last()),
    ensures
        words(s).len() > 0,
    decreases s.len(),
{
    if s.len() >= 2 && !is_ascii_ws(s[s.len() - 2]) {
        lemma_words_nonempty(s.drop_last());
    }
}

/// One step of `replace_all` on a non-empty string.
proof fn lemma_replace_unfold(s: Seq<char>, pat: Seq<char>, rep: Seq<char>)
    requires
        s.len() > 0,
    ensures
        pat.len() == 0 ==> replace_all(s, pat, rep) == rep + seq![s[0]] + replace_all(
            s.skip(1),
            pat,
            rep,
        ),
        pat.len() > 0 && has_prefix(s, pat) ==> replace_all(s, pat, rep) == rep + replace_all(
            s.skip(pat.len() as int),
            pat,
            rep,
        ),
        pat.len() > 0 && !has_prefix(s, pat) ==> replace_all(s, pat, rep) == seq![s[0]]
            + replace_all(s.skip(1), pat, rep),
{
    if pat.len() > 0 && s.len() < pat.len() {
        assert(s.skip(1).len() < pat.len());
        assert(s =~= seq![s[0]] + s.skip(1));
    }
}

proof fn lemma_take_succ<A>(s: Seq<A>, i: int)
    requires
        0 <= i < s.len(),
    ensures
        s.take(i + 1) == s.take(i).push(s[i]),
        s.take(i + 1).drop_last() == s.take(i),
        s.take(i + 1).last() == s[i],
{
    assert(s.take(i + 1) =~= s.take(i).push(s[i]));
    assert(s.take(i + 1).drop_last() =~= s.take(i));
}

/// Whether a word holds a character that stripping drops.
pub open spec fn has_punctuation_spec(word: Seq<char>) -> bool {
    exists|i: int| 0 <= i < word.len() && !kept_by_strip(#[trigger] word[i])
}

/// Stripping punctuation twice strips nothing more than once.
pub proof fn lemma_strip_idempotent(s: Seq<char>)
    ensures
        strip_spec(strip_spec(s)) == strip_spec(s),
    decreases s.len(),
{
    let f = |c: char| kept_by_strip(c);
    if s.len() > 0 {
        let init = s.drop_last();
        let c = s.last();
        assert(s =~= init.push(c));
        lemma_strip_idempotent(init);
        init.lemma_filter_push(c, f);
        if kept_by_strip(c) {
            strip_spec(init).lemma_filter_push(c, f);
        }
    } else {
        reveal(Seq::filter);
    }
}

/// A stripped string holds no punctuation, and a string is left as it is by
/// stripping exactly when it holds none.
pub proof fn lemma_strip_removes_punctuation(s: Seq<char>)
    ensures
        !has_punctuation_spec(strip_spec(s)),
        strip_spec(s) == s <==> !has_punctuation_spec(s),
    decreases s.len(),
{
    let f = |c: char| kept_by_strip(c);
    assert forall|i: int| 0 <= i < strip_spec(s).len() implies kept_by_strip(
        #[trigger] strip_spec(s)[i],
    ) by {
        s.lemma_filter_pred(f, i);
    }
    if s.len() > 0 {
        let init = s.drop_last();
        let c = s.last();
        assert(s =~= init.push(c));
        lemma_strip_removes_punctuation(init);
        init.lemma_filter_push(c, f);
        if !has_punctuation_spec(s) {
            assert forall|i: int| 0 <= i < init.len() implies kept_by_strip(#[trigger] init[i]) by {
                assert(init[i] == s[i]);
            }
            assert(kept_by_strip(s[s.len() - 1]));
        }
        if strip_spec(s) == s {
            assert(!has_punctuation_spec(s));
        }
    } else {
        reveal(Seq::filter);
    }
}

/// ASCII case folding turns no character into whitespace or out of it.
pub proof fn lemma_lower_keeps_whitespace(c: char)
    ensures
        is_ascii_ws(ascii_lower(c)) == is_ascii_ws(c),
{
}

/// Lowercasing a text changes neither where its words are nor how many
/// there are; each word is lowercased in place.
pub proof fn lemma_lower_words(s: Seq<char>)
    ensures
        words(lower_spec(s)) == words(s).map_values(|w: Seq<char>| lower_spec(w)),
        words(lower_spec(s)).len() == words(s).len(),
    decreases s.len(),
{
    let l = lower_spec(s);
    if s.len() > 0 {
        let init = s.drop_last();
        assert(l.drop_last() =~= lower_spec(init));
        assert(l.last() == ascii_lower(s.last()));
        lemma_lower_words(init);
        lemma_lower_keeps_whitespace(s.last());
        if s.len() >= 2 {
            assert(l[s.len() - 2] == ascii_lower(s[s.len() - 2]));
            lemma_lower_keeps_whitespace(s[s.len() - 2]);
        }
        let prev = words(init);
        let lprev = words(lower_spec(init));
        if !is_ascii_ws(s.last()) && s.len() >= 2 && !is_ascii_ws(s[s.len() - 2]) {
            lemma_words_nonempty(init);
            assert(lower_spec(prev.last().push(s.last())) =~= lower_spec(prev.last()).push(
                ascii_lower(s.last()),
            ));
            assert(words(l) =~= words(s).map_values(|w: Seq<char>| lower_spec(w)));
        } else if !is_ascii_ws(s.last()) {
            assert(lower_spec(seq![s.last()]) =~= seq![ascii_lower(s.last())]);
            assert(words(l) =~= words(s).map_values(|w: Seq<char>| lower_spec(w)));
        } else {
            assert(words(l) =~= words(s).map_values(|w: Seq<char>| lower_spec(w)));
        }
    } else {
        assert(words(l) =~= words(s).map_values(|w: Seq<char>| lower_spec(w)));
    }
}

/// Every word is non-empty and holds no ASCII whitespace.
pub proof fn lemma_words_well_formed(s: Seq<char>)
    ensures
        forall|i: int|
            0 <= i < words(s).len() ==> (#[trigger] words(s)[i]).len() > 0 && forall|j: int|
                0 <= j < words(s)[i].len() ==> !is_ascii_ws(#[trigger] words(s)[i][j]),
    decreases s.len(),
{
    if s.len() > 0 {
        let init = s.drop_last();
        lemma_words_well_formed(init);
        let prev = words(init);
        let c = s.last();
        if !is_ascii_ws(c) && s.len() >= 2 && !is_ascii_ws(s[s.len() - 2]) {
            lemma_words_nonempty(init);
            let w = prev.last().push(c);
            assert forall|i: int|
                0 <= i < words(s).len() implies (#[trigger] words(s)[i]).len() > 0 && forall|j: int|
                0 <= j < words(s)[i].len() ==> !is_ascii_ws(#[trigger] words(s)[i][j]) by {
                if i == prev.len() - 1 {
                    assert(words(s)[i] == w);
                    assert forall|j: int| 0 <= j < w.len() implies !is_ascii_ws(#[trigger] w[j]) by {
                        if j < w.len() - 1 {
                            assert(w[j] == prev[i][j]);
                        }
                    }
                } else {
                    assert(words(s)[i] == prev[i]);
                }
            }
        } else if !is_ascii_ws(c) {
            assert forall|i: int|
                0 <= i < words(s).len() implies (#[trigger] words(s)[i]).len() > 0 && forall|j: int|
                0 <= j < words(s)[i].len() ==> !is_ascii_ws(#[trigger] words(s)[i][j]) by {
                if i == prev.len() {
                    assert(words(s)[i] == seq![c]);
                } else {
                    assert(words(s)[i] == prev[i]);
                }
            }
        }
    }
}

/// Every character of a word is a character of the text.
pub proof fn lemma_words_chars_from(s: Seq<char>)
    ensures
        forall|i: int, j: int|
            0 <= i < words(s).len() && 0 <= j < words(s)[i].len() ==> s.contains(
                #[trigger] words(s)[i][j],
            ),
    decreases s.len(),
{
    if s.len() > 0 {
        let init = s.drop_last();
        lemma_words_chars_from(init);
        let prev = words(init);
        let c = s.last();
        assert(s[s.len() - 1] == c);
        assert forall|x: char| init.contains(x) implies s.contains(x) by {
            let k = choose|k: int| 0 <= k < init.len() && init[k] == x;
            assert(s[k] == x);
        }
        if !is_ascii_ws(c) && s.len() >= 2 && !is_ascii_ws(s[s.len() - 2]) {
            lemma_words_nonempty(init);
            assert forall|i: int, j: int|
                0 <= i < words(s).len() && 0 <= j < words(s)[i].len() implies s.contains(
                #[trigger] words(s)[i][j],
            ) by {
                if i == prev.len() - 1 {
                    if j < prev[i].len() {
                        assert(words(s)[i][j] == prev[i][j]);
                    }
                } else {
                    assert(words(s)[i] == prev[i]);
                }
            }
        } else if !is_ascii_ws(c) {
            assert forall|i: int, j: int|
                0 <= i < words(s).len() && 0 <= j < words(s)[i].len() implies s.contains(
                #[trigger] words(s)[i][j],
            ) by {
                if i < prev.len() {
                    assert(words(s)[i] == prev[i]);
                }
            }
        }
    }
}

pub open spec fn is_lower_alnum(c: char) -> bool {
    ('0' <= c && c <= '9') || ('a' <= c && c <= 'z')
}

/// The words left once punctuation is stripped and the text lowercased hold
/// only ASCII small letters and digits; in particular none holds a path
/// separator.
pub proof fn lemma_stripped_words_lower_alnum(s: Seq<char>)
    ensures
        forall|i: int, j: int|
            0 <= i < words(lower_spec(strip_spec(s))).len() && 0 <= j < words(
                lower_spec(strip_spec(s)),
            )[i].len() ==> is_lower_alnum(#[trigger] words(lower_spec(strip_spec(s)))[i][j]),
{
    let t = lower_spec(strip_spec(s));
    lemma_words_chars_from(t);
    lemma_words_well_formed(t);
    lemma_strip_removes_punctuation(s);
    assert forall|i: int, j: int|
        0 <= i < words(t).len() && 0 <= j < words(t)[i].len() implies is_lower_alnum(
        #[trigger] words(t)[i][j],
    ) by {
        let c = words(t)[i][j];
        assert(t.contains(c));
        let k = choose|k: int| 0 <= k < t.len() && t[k] == c;
        let d = strip_spec(s)[k];
        assert(kept_by_strip(d));
        assert(c == ascii_lower(d));
        assert(!is_ascii_ws(c));
    }
}

/// A non-empty text without ASCII whitespace is a single word.
pub proof fn lemma_words_single(s: Seq<char>)
    requires
        s.len() > 0,
        forall|i: int| 0 <= i < s.len() ==> !is_ascii_ws(#[trigger] s[i]),
    ensures
        words(s) == seq![s],
    decreases s.len(),
{
    let init = s.drop_last();
    let c = s.last();
    assert(s[s.len() - 1] == c);
    if init.len() > 0 {
        assert forall|i: int| 0 <= i < init.len() implies !is_ascii_ws(#[trigger] init[i]) by {
            assert(init[i] == s[i]);
        }
        lemma_words_single(init);
        assert(s[s.len() - 2] == init[init.len() - 1]);
        assert(!is_ascii_ws(s[s.len() - 2]));
        assert(!is_ascii_ws(c));
        assert(s =~= init.push(c));
        assert(words(init).last() == init);
        assert(words(s) =~= seq![s]);
    } else {
        assert(!is_ascii_ws(c));
        assert(words(init) == Seq::<Seq<char>>::empty());
        assert(s =~= seq![c]);
        assert(words(s) =~= seq![s]);
    }
}

/// Splitting a text at a whitespace character splits its words: the words
/// of `a`, the whitespace, then `b` are the words of `a` followed by the
/// words of `b`. With `lemma_words_single` and the empty text, this fixes
/// the words of every text.
pub proof fn lemma_words_split(a: Seq<char>, c: char, b: Seq<char>)
    requires
        is_ascii_ws(c),
    ensures
        words(a + seq![c] + b) == words(a) + words(b),
    decreases b.len(),
{
    let s = a + seq![c] + b;
    if b.len() == 0 {
        assert(s =~= a.push(c));
        assert(s.drop_last() =~= a);
        assert(words(b) == Seq::<Seq<char>>::empty());
        assert(words(s) =~= words(a) + words(b));
    } else {
        let b1 = b.drop_last();
        let d = b.last();
        lemma_words_split(a, c, b1);
        let s1 = a + seq![c] + b1;
        assert(s.drop_last() =~= s1);
        assert(s.last() == d);
        let wa = words(a);
        let wb1 = words(b1);
        if !is_ascii_ws(d) && b1.len() >= 1 && !is_ascii_ws(b1.last()) {
            assert(s[s.len() - 2] == b1.last());
            assert(b[b.len() - 2] == b1.last());
            lemma_words_nonempty(b1);
            assert(words(s) =~= wa + words(b));
        } else if !is_ascii_ws(d) {
            if b1.len() == 0 {
                assert(s[s.len() - 2] == c);
            } else {
                assert(s[s.len() - 2] == b1.last());
                assert(b[b.len() - 2] == b1.last());
            }
            assert(words(s) =~= wa + words(b));
        } else {
            assert(words(s) =~= wa + words(b));
        }
    }
}

/// Where a non-empty pattern occurs nowhere, replacing it changes nothing.
pub proof fn lemma_replace_absent(s: Seq<char>, pat: Seq<char>, rep: Seq<char>)
    requires
        pat.len() > 0,
        forall|i: int|
            0 <= i && i + pat.len() <= s.len() ==> #[trigger] s.subrange(i, i + pat.len()) != pat,
    ensures
        replace_all(s, pat, rep) == s,
    decreases s.len(),
{
    if s.len() >= pat.len() {
        assert(s.take(pat.len() as int) =~= s.subrange(0, pat.len() as int));
        let z: int = 0;
        assert(s.subrange(z, z + pat.len()) != pat);
        lemma_replace_unfold(s, pat, rep);
        let rest = s.skip(1);
        assert forall|i: int|
            0 <= i && i + pat.len() <= rest.len() implies #[trigger] rest.subrange(
            i,
            i + pat.len(),
        ) != pat by {
            assert(rest.subrange(i, i + pat.len()) =~= s.subrange(i + 1, i + 1 + pat.len()));
        }
        lemma_replace_absent(rest, pat, rep);
        assert(s =~= seq![s[0]] + rest);
    }
}

/// The last digit of a decimal rendering is the number modulo ten, and the
/// digits before it render the number divided by ten.
proof fn lemma_decimal_nat_shape(n: nat)
    ensures
        decimal_nat(n).len() > 0,
        n >= 10 <==> decimal_nat(n).len() >= 2,
        forall|i: int|
            0 <= i < decimal_nat(n).len() ==> '0' <= #[trigger] decimal_nat(n)[i] && decimal_nat(
                n,
            )[i] <= '9',
    decreases n,
{
    if n >= 10 {
        lemma_decimal_nat_shape(n / 10);
        let d = decimal_nat(n / 10);
        assert forall|i: int| 0 <= i < decimal_nat(n).len() implies '0' <= #[trigger] decimal_nat(
            n,
        )[i] && decimal_nat(n)[i] <= '9' by {
            if i < d.len() {
                assert(decimal_nat(n)[i] == d[i]);
            }
        }
    }
}

/// Different numbers have different decimal renderings.
pub proof fn lemma_decimal_nat_injective(a: nat, b: nat)
    ensures
        decimal_nat(a) == decimal_nat(b) ==> a == b,
    decreases a,
{
    lemma_decimal_nat_shape(a);
    lemma_decimal_nat_shape(b);
    if decimal_nat(a) == decimal_nat(b) {
        if a >= 10 && b >= 10 {
            let da = decimal_nat(a);
            assert(da.drop_last() == decimal_nat(a / 10));
            assert(decimal_nat(b).drop_last() == decimal_nat(b / 10));
            lemma_decimal_nat_injective(a / 10, b / 10);
            assert(decimal_nat(a).last() == digit_char(a % 10));
            assert(decimal_nat(b).last() == digit_char(b % 10));
            assert(digit_char(a % 10) == digit_char(b % 10));
            assert((48 + a % 10) as char == (48 + b % 10) as char);
            assert(a % 10 == b % 10);
        } else if a < 10 && b < 10 {
            assert(decimal_nat(a)[0] == digit_char(a));
            assert(decimal_nat(b)[0] == digit_char(b));
        }
    }
}

/// Different integers have different decimal renderings.
pub proof fn lemma_decimal_int_injective(a: int, b: int)
    ensures
        decimal_int(a) == decimal_int(b) ==> a == b,
{
    if decimal_int(a) == decimal_int(b) {
        if a < 0 && b < 0 {
            assert(decimal_int(a).drop_first() =~= decimal_nat((-a) as nat));
            assert(decimal_int(b).drop_first() =~= decimal_nat((-b) as nat));
            lemma_decimal_nat_injective((-a) as nat, (-b) as nat);
        } else if a >= 0 && b >= 0 {
            lemma_decimal_nat_injective(a as nat, b as nat);
        } else if a < 0 {
            lemma_decimal_nat_shape(b as nat);
            assert(decimal_int(a)[0] == '-');
            assert('0' <= decimal_int(b)[0]);
        } else {
            lemma_decimal_nat_shape(a as nat);
            assert(decimal_int(b)[0] == '-');
            assert('0' <= decimal_int(a)[0]);
        }
    }
}

// ---------------------------------------------------------------------------
// Executable functions
// ---------------------------------------------------------------------------

/// The characters of a string slice, in order.
pub fn chars_of(s: &str) -> (res: Vec<char>)
    ensures
        res@ == s@,
{
    let mut res: Vec<char> = Vec::new();
    for c in it: s.chars()
        invariant
            res@ == it.seq().take(it.index() as int),
    {
        res.push(c);
    }
    res
}

/// Calls `String::push`; the contract claims that the string afterwards is
/// the string before with `c` appended at its end.
#[verifier::external_body]
pub(crate) fn push_char(s: &mut String, c: char)
    ensures
        final(s)@ == old(s)@.push(c),
{
    s.push(c);
}

pub fn char_is_ascii_ws(c: char) -> (r: bool)
    ensures
        r == is_ascii_ws(c),
{
    c == ' ' || c == '\t' || c == '\n' || c == '\x0C' || c == '\r'
}

pub fn char_is_kept_by_strip(c: char) -> (r: bool)
    ensures
        r == kept_by_strip(c),
{
    ('0' <= c && c <= '9') || ('a' <= c && c <= 'z') || ('A' <= c && c <= 'Z') || c == ' '
}

pub fn lower_char(c: char) -> (r: char)
    ensures
        r == ascii_lower(c),
{
    if 'A' <= c && c <= 'Z' {
        ((c as u8) + 32u8) as char
    } else {
        c
    }
}

/// `str::to_ascii_lowercase`: ASCII capitals become small letters, every
/// other character stays.
pub fn to_ascii_lowercase(s: &str) -> (res: String)
    ensures
        res@ == lower_spec(s@),
{
    let cs = chars_of(s);
    let mut res = String::new();
    for i in 0..cs.len()
        invariant
            cs@ == s@,
            res@ == lower_spec(cs@.take(i as int)),
    {
        let c = lower_char(cs[i]);
        push_char(&mut res, c);
        proof {
            lemma_take_succ(cs@, i as int);
            assert(lower_spec(cs@.take(i + 1)) =~= lower_spec(cs@.take(i as int)).push(
                ascii_lower(cs@[i as int]),
            ));
        }
    }
    proof {
        assert(cs@.take(cs@.len() as int) =~= cs@);
    }
    res
}

/// Keeps the ASCII letters, the ASCII digits and the spaces of `term`, in
/// order, and drops every other character.
pub fn strip_punctuation(term: String) -> (res: String)
    ensures
        res@ == strip_spec(term@),
{
    let cs = chars_of(term.as_str());
    let mut res = String::new();
    for i in 0..cs.len()
        invariant
            cs@ == term@,
            res@ == strip_spec(cs@.take(i as int)),
    {
        let c = cs[i];
        proof {
            lemma_take_succ(cs@, i as int);
            cs@.take(i as int).lemma_filter_push(c, |c: char| kept_by_strip(c));
        }
        if char_is_kept_by_strip(c) {
            push_char(&mut res, c);
        }
    }
    proof {
        assert(cs@.take(cs@.len() as int) =~= cs@);
    }
    res
}

/// Whether `word` holds a character that `strip_punctuation` would drop.
pub fn has_punctuation(word: &str) -> (res: bool)
    ensures
        res == has_punctuation_spec(word@),
{
    let cs = chars_of(word);
    for i in 0..cs.len()
        invariant
            cs@ == word@,
            forall|j: int| 0 <= j < i ==> kept_by_strip(#[trigger] cs@[j]),
    {
        if !char_is_kept_by_strip(cs[i]) {
            return true;
        }
    }
    false
}

/// `str::split_ascii_whitespace`, collected into owned strings.
pub fn split_ascii_whitespace(s: &str) -> (res: Vec<String>)
    ensures
        res.deep_view() == words(s@),
{
    let cs = chars_of(s);
    let mut out: Vec<String> = Vec::new();
    let mut cur = String::new();
    let mut in_word = false;
    for i in 0..cs.len()
        invariant
            cs@ == s@,
            in_word <==> (i > 0 && !is_ascii_ws(cs@[i - 1])),
            in_word ==> out.deep_view().push(cur@) == words(cs@.take(i as int)),
            !in_word ==> out.deep_view() == words(cs@.take(i as int)),
            !in_word ==> cur@.len() == 0,
    {
        let c = cs[i];
        let ghost before = cs@.take(i as int);
        proof {
            lemma_take_succ(cs@, i as int);
        }
        if char_is_ascii_ws(c) {
            if in_word {
                let ghost old_out = out.deep_view();
                out.push(cur);
                assert(out.deep_view() =~= old_out.push(cur@));
                cur = String::new();
                in_word = false;
            }
        } else {
            let ghost old_cur = cur@;
            push_char(&mut cur, c);
            if in_word {
                let ghost prev = out.deep_view().push(old_cur);
                assert(cs@.take(i + 1)[i - 1] == cs@[i - 1]);
                assert(out.deep_view().push(cur@) =~= prev.update(prev.len() - 1, prev.last().push(c)));
            } else {
                assert(cur@ =~= seq![c]);
            }
            in_word = true;
        }
    }
    proof {
        assert(cs@.take(cs@.len() as int) =~= cs@);
    }
    if in_word {
        let ghost old_out = out.deep_view();
        out.push(cur);
        assert(out.deep_view() =~= old_out.push(cur@));
    }
    out
}

/// The number of words `str::split_ascii_whitespace` yields.
pub fn count_ascii_words(s: &str) -> (res: usize)
    ensures
        res == words(s@).len(),
{
    let cs = chars_of(s);
    let mut count: usize = 0;
    let mut in_word = false;
    for i in 0..cs.len()
        invariant
            cs@ == s@,
            count == words(cs@.take(i as int)).len(),
            count <= i,
            in_word <==> (i > 0 && !is_ascii_ws(cs@[i - 1])),
    {
        let c = cs[i];
        proof {
            lemma_take_succ(cs@, i as int);
        }
        if char_is_ascii_ws(c) {
            in_word = false;
        } else {
            if in_word {
                assert(cs@.take(i + 1)[i - 1] == cs@[i - 1]);
                proof { lemma_words_nonempty(cs@.take(i as int)); }
            } else {
                count = count + 1;
            }
            in_word = true;
        }
    }
    proof {
        assert(cs@.take(cs@.len() as int) =~= cs@);
    }
    count
}

/// Whether the characters of `cs` from `start` on begin with `pat`.
fn matches_at(cs: &Vec<char>, start: usize, pat: &Vec<char>) -> (res: bool)
    requires
        start + pat.len() <= cs.len(),
    ensures
        res == (cs@.subrange(start as int, start + pat.len()) == pat@),
{
    for j in 0..pat.len()
        invariant
            start + pat.len() <= cs.len(),
            forall|k: int| 0 <= k < j ==> cs@[start + k] == pat@[k],
    {
        if cs[start + j] != pat[j] {
            assert(cs@.subrange(start as int, start + pat.len())[j as int] != pat@[j as int]);
            return false;
        }
    }
    assert(cs@.subrange(start as int, start + pat.len()) =~= pat@);
    true
}

/// `str::starts_with` for a string-slice pattern.
pub fn starts_with(s: &str, prefix: &str) -> (res: bool)
    ensures
        res == has_prefix(s@, prefix@),
{
    let cs = chars_of(s);
    let ps = chars_of(prefix);
    if ps.len() > cs.len() {
        return false;
    }
    let r = matches_at(&cs, 0, &ps);
    assert(cs@.subrange(0, ps@.len() as int) =~= cs@.take(ps@.len() as int));
    r
}

/// Equality of two string slices.
pub fn str_eq(a: &str, b: &str) -> (res: bool)
    ensures
        res == (a@ == b@),
{
    let ca = chars_of(a);
    let cb = chars_of(b);
    if ca.len() != cb.len() {
        return false;
    }
    let r = matches_at(&ca, 0, &cb);
    assert(ca@.subrange(0, cb@.len() as int) =~= ca@);
    r
}

/// `str::replace`: every occurrence of `pat` in `s`, left to right and not
/// overlapping, replaced by `rep`.
pub fn replace_all_exec(s: &str, pat: &str, rep: &str) -> (res: String)
    ensures
        res@ == replace_all(s@, pat@, rep@),
{
    let cs = chars_of(s);
    let ps = chars_of(pat);
    let n = cs.len();
    let m = ps.len();
    let mut out = String::new();
    let mut i: usize = 0;
    assert(cs@.skip(0) =~= cs@);
    while i < n
        invariant
            cs@ == s@,
            ps@ == pat@,
            n == cs@.len(),
            m == ps@.len(),
            i <= n,
            out@ + replace_all(cs@.skip(i as int), ps@, rep@) == replace_all(cs@, ps@, rep@),
        decreases n - i,
    {
        let ghost rest = cs@.skip(i as int);
        let ghost old_out = out@;
        proof {
            lemma_replace_unfold(rest, ps@, rep@);
            assert(rest[0] == cs@[i as int]);
            assert(rest.skip(1) =~= cs@.skip(i + 1));
        }
        if m == 0 {
            out.append(rep);
            push_char(&mut out, cs[i]);
            assert(out@ + replace_all(cs@.skip(i + 1), ps@, rep@) =~= old_out + (rep@ + seq![
                cs@[i as int],
            ] + replace_all(cs@.skip(i + 1), ps@, rep@)));
            i = i + 1;
        } else if n - i >= m && matches_at(&cs, i, &ps) {
            proof {
                assert(rest.take(m as int) =~= cs@.subrange(i as int, i + m));
                assert(rest.skip(m as int) =~= cs@.skip(i + m));
            }
            out.append(rep);
            assert(out@ + replace_all(cs@.skip(i + m), ps@, rep@) =~= old_out + (rep@
                + replace_all(cs@.skip(i + m), ps@, rep@)));
            i = i + m;
        } else {
            proof {
                if n - i >= m {
                    assert(rest.take(m as int) =~= cs@.subrange(i as int, i + m));
                }
            }
            push_char(&mut out, cs[i]);
            assert(out@ + replace_all(cs@.skip(i + 1), ps@, rep@) =~= old_out + (seq![
                cs@[i as int],
            ] + replace_all(cs@.skip(i + 1), ps@, rep@)));
            i = i + 1;
        }
    }
    proof {
        assert(cs@.skip(n as int) =~= Seq::<char>::empty());
    }
    if m == 0 {
        out.append(rep);
    }
    out
}


fn digit(d: u64) -> (c: char)
    requires
        d < 10,
    ensures
        c == digit_char(d as nat),
{
    ((d as u8) + 48u8) as char
}

/// Appends the decimal digits of `n` to `s`.
pub fn push_decimal_u64(s: &mut String, n: u64)
    ensures
        final(s)@ == old(s)@ + decimal_nat(n as nat),
    decreases n,
{
    if n >= 10 {
        push_decimal_u64(s, n / 10);
    }
    push_char(s, digit(n % 10));
    assert(s@ =~= old(s)@ + decimal_nat(n as nat));
}

/// Appends the decimal rendering of `i` to `s`, as `{}` formats an `i64`.
pub fn push_decimal_i64(s: &mut String, i: i64)
    ensures
        final(s)@ == old(s)@ + decimal_int(i as int),
{
    if i < 0 {
        push_char(s, '-');
        let magnitude: u64 = if i == i64::MIN {
            9223372036854775808u64
        } else {
            (-i) as u64
        };
        push_decimal_u64(s, magnitude);
        assert(final(s)@ =~= old(s)@ + decimal_int(i as int));
    } else {
        push_decimal_u64(s, i as u64);
    }
}

/// `i64::to_string`.
pub fn i64_to_decimal(i: i64) -> (res: String)
    ensures
        res@ == decimal_int(i as int),
{
    let mut s = String::new();
    push_decimal_i64(&mut s, i);
    assert(s@ =~= decimal_int(i as int));
    s
}

}
