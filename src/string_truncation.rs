use unicode_segmentation::UnicodeSegmentation;
use vstd::prelude::*;
use vstd::utf8::{decode_utf8, encode_utf8, is_char_boundary};

verus! {

/// Characters with the Unicode `White_Space` property.
pub open spec fn is_white_space(c: char) -> bool {
    let u = c as u32;
    (0x9 <= u && u <= 0xd) || u == 0x20 || u == 0x85 || u == 0xa0 || u == 0x1680 || (0x2000 <= u
        && u <= 0x200a) || u == 0x2028 || u == 0x2029 || u == 0x202f || u == 0x205f || u == 0x3000
}

/// `s` without its leading white space.
pub open spec fn trimmed_start(s: Seq<char>) -> Seq<char>
    decreases s.len(),
{
    if s.len() > 0 && is_white_space(s[0]) {
        trimmed_start(s.drop_first())
    } else {
        s
    }
}

/// `s` without its trailing white space.
pub open spec fn trimmed_end(s: Seq<char>) -> Seq<char>
    decreases s.len(),
{
    if s.len() > 0 && is_white_space(s.last()) {
        trimmed_end(s.drop_last())
    } else {
        s
    }
}

/// `s` without white space at either end.
pub open spec fn trimmed(s: Seq<char>) -> Seq<char> {
    trimmed_end(trimmed_start(s))
}

/// Relies on `str::trim`, documented to remove leading and trailing
/// characters with the `White_Space` property.
#[verifier::external_body]
fn trim_ws(s: &str) -> (r: &str)
    ensures
        r@ == trimmed(s@),
{
    s.trim()
}

/// Longest label, in grapheme clusters.
pub const MAX_EXPR_LEN: usize = 18;

/// Shortest label, in grapheme clusters, that a word-wise cut may leave.
pub const MIN_EXPR_LEN: usize = 12;

/// The view of each string of `v`.
pub open spec fn views(v: Seq<String>) -> Seq<Seq<char>> {
    v.map_values(|g: String| g@)
}

/// The concatenation of the first `k` parts.
pub open spec fn concat_first(parts: Seq<Seq<char>>, k: int) -> Seq<char>
    decreases k,
{
    if k <= 0 {
        Seq::empty()
    } else {
        concat_first(parts, k - 1) + parts[k - 1]
    }
}

/// The concatenation of all parts.
pub open spec fn concat_all(parts: Seq<Seq<char>>) -> Seq<char> {
    concat_first(parts, parts.len() as int)
}

/// The extended grapheme clusters of `s`, in order.
pub uninterp spec fn graphemes_of(s: Seq<char>) -> Seq<Seq<char>>;

/// The Unicode words of `s`, in order, each with the byte offset at which it
/// starts in the UTF-8 encoding of `s`.
pub uninterp spec fn words_of(s: Seq<char>) -> Seq<(int, Seq<char>)>;

/// Relies on `UnicodeSegmentation::graphemes(s, true)`: the clusters depend on
/// the text alone; they are non-empty consecutive slices that cover `s`.
#[verifier::external_body]
fn graphemes(s: &str) -> (r: Vec<String>)
    ensures
        views(r@) == graphemes_of(s@),
        concat_all(views(r@)) == s@,
        forall|k: int| 0 <= k < r@.len() ==> (#[trigger] r@[k])@.len() > 0,
{
    s.graphemes(true).map(|g| g.to_string()).collect()
}

/// Relies on `UnicodeSegmentation::unicode_word_indices`: the words and their
/// byte offsets depend on the text alone; each offset is a character
/// boundary of `s` (the word is a slice of `s` starting there).
#[verifier::external_body]
fn word_indices(s: &str) -> (r: Vec<(usize, String)>)
    ensures
        r@.len() == words_of(s@).len(),
        forall|k: int|
            0 <= k < r@.len() ==> (#[trigger] r@[k]).0 as int == words_of(s@)[k].0 && r@[k].1@
                == words_of(s@)[k].1,
        forall|k: int|
            0 <= k < r@.len() ==> is_char_boundary(encode_utf8(s@), (#[trigger] r@[k]).0 as int),
{
    s.unicode_word_indices().map(|(i, w)| (i, w.to_string())).collect()
}

/// The number of grapheme clusters of `s`.
pub open spec fn grapheme_len(s: Seq<char>) -> int {
    graphemes_of(s).len() as int
}

/// How one grapheme cluster is shown in a label: a cluster made only of
/// white space becomes a middle dot, any other loses the white space at its ends.
pub open spec fn shown(g: Seq<char>) -> Seq<char> {
    if trimmed(g).len() == 0 {
        seq!['·']
    } else {
        trimmed(g)
    }
}

/// The first `k` clusters of `gs`, each as shown in a label.
pub open spec fn shown_first(gs: Seq<Seq<char>>, k: int) -> Seq<char>
    decreases k,
{
    if k <= 0 {
        Seq::empty()
    } else {
        shown_first(gs, k - 1) + shown(gs[k - 1])
    }
}

/// `s` trimmed, with each of its clusters shown as in a label.
pub open spec fn replaced(s: Seq<char>) -> Seq<char> {
    let gs = graphemes_of(trimmed(s));
    shown_first(gs, gs.len() as int)
}

/// The characters of `s` whose encoding is the first `i` bytes of that of `s`.
pub open spec fn byte_prefix(s: Seq<char>, i: int) -> Seq<char> {
    decode_utf8(encode_utf8(s).subrange(0, i))
}

/// The cut that ends with the `k`-th word of `t`, shown and marked with an ellipsis.
pub open spec fn word_candidate(t: Seq<char>, k: int) -> Seq<char> {
    replaced(byte_prefix(t, words_of(t)[k].0) + words_of(t)[k].1) + seq!['…']
}

/// The cut that ends with the `k`-th cluster of `t`, shown and marked with an ellipsis.
pub open spec fn grapheme_candidate(t: Seq<char>, k: int) -> Seq<char> {
    replaced(concat_first(graphemes_of(t), k + 1)) + seq!['…']
}

/// Whether a shortened label has an acceptable number of clusters.
pub open spec fn fits(c: Seq<char>) -> bool {
    MIN_EXPR_LEN <= grapheme_len(c) <= MAX_EXPR_LEN
}

/// The longest fitting word cut among the first `k` words of `t`.
pub open spec fn word_search(t: Seq<char>, k: int) -> Option<Seq<char>>
    decreases k,
{
    if k <= 0 {
        None
    } else if fits(word_candidate(t, k - 1)) {
        Some(word_candidate(t, k - 1))
    } else {
        word_search(t, k - 1)
    }
}

/// The longest fitting cluster cut among the first `k` clusters of `t`.
pub open spec fn grapheme_search(t: Seq<char>, k: int) -> Option<Seq<char>>
    decreases k,
{
    if k <= 0 {
        None
    } else if fits(grapheme_candidate(t, k - 1)) {
        Some(grapheme_candidate(t, k - 1))
    } else {
        grapheme_search(t, k - 1)
    }
}

/// The label of `s`: the whole text if it is short enough, else the longest
/// word cut that fits, else the longest cluster cut that fits; `None` when
/// no cut fits.
pub open spec fn truncated(s: Seq<char>) -> Option<Seq<char>> {
    let t = trimmed(s);
    let attempt = replaced(t);
    if grapheme_len(attempt) <= MAX_EXPR_LEN {
        Some(attempt)
    } else {
        match word_search(t, words_of(t).len() as int) {
            Some(c) => Some(c),
            None => grapheme_search(t, graphemes_of(t).len() as int),
        }
    }
}

/// The first `k` parts, each non-empty, hold at least `k` characters.
proof fn lemma_concat_first_len(parts: Seq<Seq<char>>, k: int)
    requires
        0 <= k <= parts.len(),
        forall|j: int| 0 <= j < parts.len() ==> (#[trigger] parts[j]).len() > 0,
    ensures
        concat_first(parts, k).len() >= k,
    decreases k,
{
    if k > 0 {
        lemma_concat_first_len(parts, k - 1);
    }
}

/// The number of extended grapheme clusters of `s`: at most the number of
/// its characters, and zero exactly when `s` is empty.
pub fn grapheme_count(s: &str) -> (r: usize)
    ensures
        r as int == grapheme_len(s@),
        r <= s@.len(),
        (r == 0) == (s@.len() == 0),
{
    let gs = graphemes(s);
    proof {
        let parts = views(gs@);
        assert forall|j: int| 0 <= j < parts.len() implies (#[trigger] parts[j]).len() > 0 by {
            assert(parts[j] == gs@[j]@);
        }
        lemma_concat_first_len(parts, parts.len() as int);
    }
    gs.len()
}

/// Trims `s` and shows each of its clusters as in a label.
pub fn trim_and_replace_whitespace(s: &str) -> (r: String)
    ensures
        r@ == replaced(s@),
{
    let t = trim_ws(s);
    let gs = graphemes(t);
    let mut out = String::new();
    let mut k: usize = 0;
    while k < gs.len()
        invariant
            k <= gs@.len(),
            views(gs@) == graphemes_of(trimmed(s@)),
            out@ == shown_first(views(gs@), k as int),
        decreases gs@.len() - k,
    {
        let g = trim_ws(gs[k].as_str());
        assert(views(gs@)[k as int] == gs@[k as int]@);
        if g.is_empty() {
            proof {
                reveal_strlit("·");
            }
            out.append("·");
        } else {
            out.append(g);
        }
        k += 1;
    }
    out
}

/// `c` followed by an ellipsis.
fn with_ellipsis(c: &str) -> (r: String)
    ensures
        r@ == replaced(c@) + seq!['…'],
{
    let mut r = trim_and_replace_whitespace(c);
    proof {
        reveal_strlit("…");
    }
    r.append("…");
    r
}

/// A compact label for `s`, of at most `MAX_EXPR_LEN` clusters; `None`
/// when no cut of an over-long text fits.
pub fn truncate_string(s: &str) -> (r: Option<String>)
    ensures
        r matches Some(l) ==> truncated(s@) == Some(l@),
        r is None ==> truncated(s@) is None,
        r matches Some(l) ==> grapheme_len(l@) <= MAX_EXPR_LEN,
{
    let t = trim_ws(s);
    let attempt = trim_and_replace_whitespace(t);
    if grapheme_count(attempt.as_str()) <= MAX_EXPR_LEN {
        return Some(attempt);
    }
    let words = word_indices(t);
    let mut k: usize = words.len();
    while k > 0
        invariant
            k <= words@.len(),
            t@ == trimmed(s@),
            words@.len() == words_of(t@).len(),
            forall|j: int|
                0 <= j < words@.len() ==> (#[trigger] words@[j]).0 as int == words_of(t@)[j].0
                    && words@[j].1@ == words_of(t@)[j].1,
            forall|j: int|
                0 <= j < words@.len() ==> is_char_boundary(
                    encode_utf8(t@),
                    (#[trigger] words@[j]).0 as int,
                ),
            grapheme_len(replaced(t@)) > MAX_EXPR_LEN,
            word_search(t@, words@.len() as int) == word_search(t@, k as int),
        decreases k,
    {
        k -= 1;
        let (head, _) = t.split_at(words[k].0);
        let mut p = String::from_str(head);
        p.append(words[k].1.as_str());
        proof {
            vstd::utf8::encode_utf8_decode_utf8(head@);
            assert(head@ == byte_prefix(t@, words_of(t@)[k as int].0));
        }
        let c = with_ellipsis(p.as_str());
        let n = grapheme_count(c.as_str());
        if MIN_EXPR_LEN <= n && n <= MAX_EXPR_LEN {
            return Some(c);
        }
    }
    assert(word_search(t@, words@.len() as int) is None);
    let gs = graphemes(t);
    let mut k: usize = gs.len();
    while k > 0
        invariant
            k <= gs@.len(),
            t@ == trimmed(s@),
            views(gs@) == graphemes_of(t@),
            grapheme_len(replaced(t@)) > MAX_EXPR_LEN,
            word_search(t@, words_of(t@).len() as int) is None,
            grapheme_search(t@, gs@.len() as int) == grapheme_search(t@, k as int),
        decreases k,
    {
        k -= 1;
        let mut p = String::new();
        let mut j: usize = 0;
        while j <= k
            invariant
                j <= k + 1,
                k < gs@.len() <= usize::MAX,
                p@ == concat_first(views(gs@), j as int),
            decreases k + 1 - j,
        {
            assert(views(gs@)[j as int] == gs@[j as int]@);
            p.append(gs[j].as_str());
            j += 1;
        }
        let c = with_ellipsis(p.as_str());
        let n = grapheme_count(c.as_str());
        if MIN_EXPR_LEN <= n && n <= MAX_EXPR_LEN {
            return Some(c);
        }
    }
    None
}

/// `trimmed_start(s)` is a suffix of `s`, empty or starting with a character
/// that is not white space.
proof fn lemma_trimmed_start(s: Seq<char>)
    ensures
        trimmed_start(s).len() <= s.len(),
        trimmed_start(s) == s.skip(s.len() - trimmed_start(s).len()),
        trimmed_start(s).len() > 0 ==> !is_white_space(trimmed_start(s)[0]),
    decreases s.len(),
{
    if s.len() > 0 && is_white_space(s[0]) {
        lemma_trimmed_start(s.drop_first());
        assert(s.drop_first().skip(s.len() - 1 - trimmed_start(s).len()) =~= s.skip(
            s.len() - trimmed_start(s).len(),
        ));
    } else {
        assert(s.skip(0) =~= s);
    }
}

/// `trimmed_end(s)` is a prefix of `s`, empty or ending with a character
/// that is not white space.
proof fn lemma_trimmed_end(s: Seq<char>)
    ensures
        trimmed_end(s).len() <= s.len(),
        trimmed_end(s) == s.take(trimmed_end(s).len() as int),
        trimmed_end(s).len() > 0 ==> !is_white_space(trimmed_end(s).last()),
    decreases s.len(),
{
    if s.len() > 0 && is_white_space(s.last()) {
        lemma_trimmed_end(s.drop_last());
        assert(s.drop_last().take(trimmed_end(s).len() as int) =~= s.take(
            trimmed_end(s).len() as int,
        ));
    } else {
        assert(s.take(s.len() as int) =~= s);
    }
}

/// A trimmed text neither starts nor ends with white space.
pub proof fn lemma_trimmed_ends(s: Seq<char>)
    ensures
        trimmed(s).len() > 0 ==> !is_white_space(trimmed(s)[0]) && !is_white_space(
            trimmed(s).last(),
        ),
{
    lemma_trimmed_start(s);
    lemma_trimmed_end(trimmed_start(s));
}

/// Text shown cluster by cluster neither starts nor ends with white space.
proof fn lemma_shown_first_ends(gs: Seq<Seq<char>>, k: int)
    requires
        k <= gs.len(),
    ensures
        shown_first(gs, k).len() > 0 ==> !is_white_space(shown_first(gs, k)[0])
            && !is_white_space(shown_first(gs, k).last()),
    decreases k,
{
    if k > 0 {
        lemma_shown_first_ends(gs, k - 1);
        lemma_trimmed_ends(gs[k - 1]);
        assert(!is_white_space('·'));
    }
}

/// A label neither starts nor ends with white space.
proof fn lemma_labelled_ends(c: Seq<char>)
    ensures
        replaced(c).len() > 0 ==> !is_white_space(replaced(c)[0]) && !is_white_space(
            replaced(c).last(),
        ),
        !is_white_space((replaced(c) + seq!['…'])[0]),
        !is_white_space((replaced(c) + seq!['…']).last()),
{
    let gs = graphemes_of(trimmed(c));
    lemma_shown_first_ends(gs, gs.len() as int);
}

/// Every label has at most `MAX_EXPR_LEN` grapheme clusters, and neither
/// starts nor ends with white space.
pub proof fn lemma_label_shape(s: Seq<char>)
    ensures
        truncated(s) matches Some(l) ==> {
            &&& grapheme_len(l) <= MAX_EXPR_LEN
            &&& l.len() > 0 ==> !is_white_space(l[0]) && !is_white_space(l.last())
        },
{
    let t = trimmed(s);
    lemma_labelled_ends(t);
    lemma_word_search_shape(t, words_of(t).len() as int);
    lemma_grapheme_search_shape(t, graphemes_of(t).len() as int);
}

proof fn lemma_word_search_shape(t: Seq<char>, k: int)
    ensures
        word_search(t, k) matches Some(l) ==> {
            &&& grapheme_len(l) <= MAX_EXPR_LEN
            &&& !is_white_space(l[0]) && !is_white_space(l.last())
        },
    decreases k,
{
    if k > 0 {
        lemma_word_search_shape(t, k - 1);
        lemma_labelled_ends(byte_prefix(t, words_of(t)[k - 1].0) + words_of(t)[k - 1].1);
    }
}

proof fn lemma_grapheme_search_shape(t: Seq<char>, k: int)
    ensures
        grapheme_search(t, k) matches Some(l) ==> {
            &&& grapheme_len(l) <= MAX_EXPR_LEN
            &&& !is_white_space(l[0]) && !is_white_space(l.last())
        },
    decreases k,
{
    if k > 0 {
        lemma_grapheme_search_shape(t, k - 1);
        lemma_labelled_ends(concat_first(graphemes_of(t), k));
    }
}

/// A text that fits once trimmed and shown cluster by cluster is its own
/// label: no cut is made and no ellipsis added.
pub proof fn lemma_short_text_kept(s: Seq<char>)
    requires
        grapheme_len(replaced(trimmed(s))) <= MAX_EXPR_LEN,
    ensures
        truncated(s) == Some(replaced(trimmed(s))),
{
}

/// Whether `s` holds no white space at all.
pub open spec fn no_white_space(s: Seq<char>) -> bool {
    forall|i: int| 0 <= i < s.len() ==> !is_white_space(#[trigger] s[i])
}

/// Whether the clusters of `s` are non-empty and make up `s`.
pub open spec fn segmented(s: Seq<char>) -> bool {
    &&& concat_all(graphemes_of(s)) == s
    &&& forall|k: int| 0 <= k < graphemes_of(s).len() ==> (#[trigger] graphemes_of(s)[k]).len() > 0
}

/// The parts of a text without white space have none, and each is shown as it is.
proof fn lemma_plain_parts_shown(gs: Seq<Seq<char>>, k: int)
    requires
        0 <= k <= gs.len(),
        no_white_space(concat_first(gs, k)),
        forall|j: int| 0 <= j < gs.len() ==> (#[trigger] gs[j]).len() > 0,
    ensures
        shown_first(gs, k) == concat_first(gs, k),
    decreases k,
{
    if k > 0 {
        let head = concat_first(gs, k - 1);
        let g = gs[k - 1];
        assert forall|i: int| 0 <= i < head.len() implies !is_white_space(#[trigger] head[i]) by {
            assert(concat_first(gs, k)[i] == head[i]);
        }
        assert forall|i: int| 0 <= i < g.len() implies !is_white_space(#[trigger] g[i]) by {
            assert(concat_first(gs, k)[head.len() + i] == g[i]);
        }
        lemma_plain_parts_shown(gs, k - 1);
        lemma_plain_trimmed(g);
    }
}

/// A text without white space is its own trimmed form.
proof fn lemma_plain_trimmed(s: Seq<char>)
    requires
        no_white_space(s),
    ensures
        trimmed(s) == s,
{
    assert(trimmed_start(s) == s);
    assert(trimmed_end(s) == s);
}

/// Labelling a label that holds no white space gives the label back.
pub proof fn lemma_label_idempotent(s: Seq<char>, l: Seq<char>)
    requires
        truncated(s) == Some(l),
        no_white_space(l),
        segmented(l),
    ensures
        truncated(l) == Some(l),
{
    lemma_label_shape(s);
    lemma_plain_trimmed(l);
    let gs = graphemes_of(l);
    lemma_plain_parts_shown(gs, gs.len() as int);
    assert(replaced(l) == l);
}

} // verus!
