//! Voice-activated snippets: spoken trigger phrases expanded client-side on
//! the final transcript, so they work even with polish disabled.

use vstd::prelude::*;

use crate::text::{
    chars_eq, chars_of, join_with_spaces, join_words, lowercase, split_on, split_on_char,
    split_whitespace, split_ws, string_from_chars, strip_ascii_punct, strip_punct, to_lowercase,
    views, law_join_then_split, lemma_split_ws_plain, lemma_strip_punct_clean, plain_word,
};
use crate::protocol::string_views;

verus! {

/// A spoken trigger phrase and the text block inserted in its place.
pub struct Snippet {
    /// Spoken trigger phrase, e.g. "my email signature".
    pub trigger: String,
    /// Text block inserted in its place.
    pub expansion: String,
}

impl Clone for Snippet {
    fn clone(&self) -> (r: Self)
        ensures
            r.trigger@ == self.trigger@,
            r.expansion@ == self.expansion@,
    {
        Snippet { trigger: self.trigger.clone(), expansion: self.expansion.clone() }
    }
}

pub struct SnippetEngine {
    snippets: Vec<Snippet>,
}

/// A snippet as (trigger, expansion).
pub open spec fn snippet_view(s: Snippet) -> (Seq<char>, Seq<char>) {
    (s.trigger@, s.expansion@)
}

impl View for SnippetEngine {
    type V = Seq<(Seq<char>, Seq<char>)>;

    closed spec fn view(&self) -> Seq<(Seq<char>, Seq<char>)> {
        self.snippets@.map_values(|s: Snippet| snippet_view(s))
    }
}

/// The words of `text` with ASCII punctuation stripped, cut at whitespace.
pub open spec fn normal_words(text: Seq<char>) -> Seq<Seq<char>> {
    split_ws(strip_punct(text))
}

/// Lowercase, strip ASCII punctuation, collapse whitespace to single spaces.
pub open spec fn normal_form(text: Seq<char>) -> Seq<char> {
    join_words(normal_words(text).map_values(|w: Seq<char>| lowercase(w)))
}

/// The words of a trigger phrase after normalization.
pub open spec fn trigger_words(trigger: Seq<char>) -> Seq<Seq<char>> {
    split_on(normal_form(trigger), ' ')
}

/// The trigger words occur at word position `i` (compared after normalizing
/// each word).
pub open spec fn matches_at(words: Seq<Seq<char>>, i: int, tw: Seq<Seq<char>>) -> bool {
    &&& 0 <= i
    &&& i + tw.len() <= words.len()
    &&& forall|j: int| 0 <= j < tw.len() ==> normal_form(#[trigger] words[i + j]) == tw[j]
}

/// Greedy left-to-right replacement of trigger occurrences from word `i` on.
pub open spec fn replace_from(
    words: Seq<Seq<char>>,
    i: int,
    tw: Seq<Seq<char>>,
    exp: Seq<char>,
) -> Seq<Seq<char>>
    decreases words.len() - i,
{
    if i < 0 || i >= words.len() {
        seq![]
    } else if tw.len() > 0 && matches_at(words, i, tw) {
        seq![exp] + replace_from(words, i + tw.len(), tw, exp)
    } else {
        seq![words[i]] + replace_from(words, i + 1, tw, exp)
    }
}

/// `text` with every word-boundary occurrence of the trigger words replaced by
/// `exp`, and its words joined by single spaces.
pub open spec fn replace_inline_spec(text: Seq<char>, tw: Seq<Seq<char>>, exp: Seq<char>) -> Seq<
    char,
> {
    join_words(replace_from(split_ws(text), 0, tw, exp))
}

/// Index of the first snippet at or after `k` whose trigger is the whole
/// (normalized) utterance.
pub open spec fn first_whole(snips: Seq<(Seq<char>, Seq<char>)>, norm_text: Seq<char>, k: int) -> Option<int>
    decreases snips.len() - k,
{
    if k < 0 || k >= snips.len() {
        None
    } else if normal_form(snips[k].0) == norm_text {
        Some(k)
    } else {
        first_whole(snips, norm_text, k + 1)
    }
}

/// Inline expansion of the multi-word triggers, in snippet order.
pub open spec fn expand_inline(snips: Seq<(Seq<char>, Seq<char>)>, text: Seq<char>) -> Seq<char>
    decreases snips.len(),
{
    if snips.len() == 0 {
        text
    } else {
        let prev = expand_inline(snips.drop_last(), text);
        let tw = trigger_words(snips.last().0);
        if tw.len() < 2 {
            prev
        } else {
            replace_inline_spec(prev, tw, snips.last().1)
        }
    }
}

/// What expanding `text` with the snippets gives.
pub open spec fn expand_spec(snips: Seq<(Seq<char>, Seq<char>)>, text: Seq<char>) -> Seq<char> {
    match first_whole(snips, normal_form(text), 0) {
        Some(k) => snips[k].1,
        None => expand_inline(snips, text),
    }
}

/// Lowercase, strip punctuation, collapse whitespace.
fn normalize_chars(text: &[char]) -> (r: Vec<char>)
    ensures
        r@ == normal_form(text@),
{
    let stripped = strip_ascii_punct(text);
    let words = split_whitespace(stripped.as_slice());
    let mut lowered: Vec<Vec<char>> = Vec::new();
    let mut i: usize = 0;
    while i < words.len()
        invariant
            i <= words@.len(),
            views(words@) == split_ws(stripped@),
            views(lowered@) =~= views(words@).take(i as int).map_values(
                |w: Seq<char>| lowercase(w),
            ),
        decreases words@.len() - i,
    {
        let lw = to_lowercase(words[i].as_slice());
        let ghost before = lowered@;
        lowered.push(lw);
        assert(views(lowered@) =~= views(before).push(lowercase(words@[i as int]@)));
        assert(views(words@).take(i + 1).map_values(|w: Seq<char>| lowercase(w)) =~= views(
            words@,
        ).take(i as int).map_values(|w: Seq<char>| lowercase(w)).push(
            lowercase(words@[i as int]@),
        ));
        i = i + 1;
    }
    assert(views(words@).take(words@.len() as int) =~= views(words@));
    join_with_spaces(&lowered)
}

fn strings_of(v: &Vec<Vec<char>>) -> (r: Vec<String>)
    ensures
        string_views(r@) == views(v@),
{
    let mut r: Vec<String> = Vec::new();
    let mut i: usize = 0;
    while i < v.len()
        invariant
            i <= v@.len(),
            string_views(r@) =~= views(v@.take(i as int)),
        decreases v@.len() - i,
    {
        let s = string_from_chars(v[i].as_slice());
        let ghost before = r@;
        r.push(s);
        assert(string_views(r@) =~= string_views(before).push(s@));
        assert(views(v@.take(i + 1)) =~= views(v@.take(i as int)).push(v@[i as int]@));
        i = i + 1;
    }
    assert(v@.take(v@.len() as int) =~= v@);
    r
}

fn char_vecs_of(v: &Vec<String>) -> (r: Vec<Vec<char>>)
    ensures
        views(r@) == string_views(v@),
{
    let mut r: Vec<Vec<char>> = Vec::new();
    let mut i: usize = 0;
    while i < v.len()
        invariant
            i <= v@.len(),
            views(r@) =~= string_views(v@.take(i as int)),
        decreases v@.len() - i,
    {
        let c = chars_of(v[i].as_str());
        let ghost before = r@;
        r.push(c);
        assert(views(r@) =~= views(before).push(c@));
        assert(string_views(v@.take(i + 1)) =~= string_views(v@.take(i as int)).push(v@[i as int]@));
        i = i + 1;
    }
    assert(v@.take(v@.len() as int) =~= v@);
    r
}

/// The words normalization works on: `text` without its ASCII punctuation,
/// cut at whitespace. Each is then lowercased.
pub fn normal_words_of(text: &str) -> (w: Vec<String>)
    ensures
        string_views(w@) == normal_words(text@),
{
    let tc = chars_of(text);
    let stripped = strip_ascii_punct(tc.as_slice());
    let words = split_whitespace(stripped.as_slice());
    strings_of(&words)
}

/// The normalized text, from the lowercased words: the words joined by
/// single spaces. `normalize(t)` is `join_lowered` of the lowercased
/// `normal_words_of(t)`.
pub fn join_lowered(lowered: &Vec<String>) -> (r: String)
    ensures
        r@ == join_words(string_views(lowered@)),
{
    let words = char_vecs_of(lowered);
    let joined = join_with_spaces(&words);
    string_from_chars(joined.as_slice())
}

/// Lowercase, strip punctuation, collapse whitespace.
pub fn normalize(text: &str) -> (r: String)
    ensures
        r@ == normal_form(text@),
{
    let tc = chars_of(text);
    let n = normalize_chars(tc.as_slice());
    string_from_chars(n.as_slice())
}

/// Index of the first of `ts` at or after `k` that equals `norm`.
pub open spec fn first_match(ts: Seq<Seq<char>>, norm: Seq<char>, k: int) -> Option<int>
    decreases ts.len() - k,
{
    if k < 0 || k >= ts.len() {
        None
    } else if ts[k] == norm {
        Some(k)
    } else {
        first_match(ts, norm, k + 1)
    }
}

proof fn lemma_first_match_in_range(ts: Seq<Seq<char>>, norm: Seq<char>, k: int)
    ensures
        first_match(ts, norm, k) matches Some(i) ==> 0 <= k <= i < ts.len() && ts[i] == norm,
    decreases ts.len() - k,
{
    if 0 <= k < ts.len() {
        lemma_first_match_in_range(ts, norm, k + 1);
    }
}

/// The normalized triggers of the snippets.
pub open spec fn normal_triggers(snips: Seq<(Seq<char>, Seq<char>)>) -> Seq<Seq<char>> {
    snips.map_values(|p: (Seq<char>, Seq<char>)| normal_form(p.0))
}

proof fn lemma_first_whole_match(snips: Seq<(Seq<char>, Seq<char>)>, norm: Seq<char>, k: int)
    ensures
        first_whole(snips, norm, k) == first_match(normal_triggers(snips), norm, k),
    decreases snips.len() - k,
{
    if 0 <= k < snips.len() {
        lemma_first_whole_match(snips, norm, k + 1);
    }
}

/// Which snippet, given the normalized triggers, the whole (normalized)
/// utterance selects: the first whose trigger equals it, if any.
pub fn first_whole_match(norm_triggers: &Vec<String>, norm_text: &str) -> (r: Option<usize>)
    ensures
        r matches Some(i) ==> first_match(string_views(norm_triggers@), norm_text@, 0) == Some(
            i as int,
        ),
        r is None ==> first_match(string_views(norm_triggers@), norm_text@, 0) is None,
{
    let ghost ts = string_views(norm_triggers@);
    let nc = chars_of(norm_text);
    let n = norm_triggers.len();
    let mut k: usize = 0;
    while k < n
        invariant
            n == norm_triggers@.len(),
            ts == string_views(norm_triggers@),
            k <= n,
            nc@ == norm_text@,
            first_match(ts, norm_text@, 0) == first_match(ts, norm_text@, k as int),
        decreases n - k,
    {
        let tk = chars_of(norm_triggers[k].as_str());
        assert(ts[k as int] == norm_triggers@[k as int]@);
        if chars_eq(tk.as_slice(), nc.as_slice()) {
            return Some(k);
        }
        k = k + 1;
    }
    None
}

/// Normalization cuts the text into plain words: none empty, none with
/// whitespace or ASCII punctuation.
pub proof fn law_normal_words_plain(text: Seq<char>)
    ensures
        forall|k: int|
            0 <= k < normal_words(text).len() ==> plain_word(#[trigger] normal_words(text)[k]),
{
    lemma_strip_punct_clean(text);
    lemma_split_ws_plain(strip_punct(text));
}

/// Normalizing is idempotent wherever lowercasing each word of the text
/// gives a plain word and lowercasing that again changes nothing. (What
/// `str::to_lowercase` does to a word is not stated here, so the law is
/// stated under these two conditions on its results.)
pub proof fn law_normalize_idempotent_given_lowercase(text: Seq<char>)
    requires
        forall|k: int|
            0 <= k < normal_words(text).len() ==> plain_word(
                lowercase(#[trigger] normal_words(text)[k]),
            ),
        forall|k: int|
            0 <= k < normal_words(text).len() ==> lowercase(lowercase(#[trigger] normal_words(text)[k]))
                == lowercase(normal_words(text)[k]),
    ensures
        normal_form(normal_form(text)) == normal_form(text),
        forall|k: int|
            0 <= k < normal_words(normal_form(text)).len() ==> plain_word(
                #[trigger] normal_words(normal_form(text))[k],
            ),
{
    let ws = normal_words(text);
    let lw = ws.map_values(|w: Seq<char>| lowercase(w));
    assert forall|k: int| 0 <= k < lw.len() implies plain_word(#[trigger] lw[k]) by {
        assert(lw[k] == lowercase(ws[k]));
    }
    law_join_then_split(lw);
    assert(normal_words(normal_form(text)) == lw);
    let llw = lw.map_values(|w: Seq<char>| lowercase(w));
    assert forall|k: int| 0 <= k < lw.len() implies #[trigger] llw[k] == lw[k] by {
        assert(lw[k] == lowercase(ws[k]));
    }
    assert(llw =~= lw);
}

/// Whether the trigger words occur at word position `i`.
fn matches_here(words: &Vec<Vec<char>>, i: usize, tw: &Vec<Vec<char>>) -> (b: bool)
    requires
        i <= words@.len(),
    ensures
        b == matches_at(views(words@), i as int, views(tw@)),
{
    if tw.len() > words.len() - i {
        return false;
    }
    let mut j: usize = 0;
    while j < tw.len()
        invariant
            i + tw@.len() <= words.len(),
            j <= tw@.len(),
            forall|m: int| 0 <= m < j ==> normal_form(#[trigger] views(words@)[i + m]) == views(tw@)[m],
        decreases tw@.len() - j,
    {
        let nw = normalize_chars(words[i + j].as_slice());
        if !chars_eq(nw.as_slice(), tw[j].as_slice()) {
            assert(views(words@)[i + j] == words@[i + j]@);
            return false;
        }
        j = j + 1;
    }
    true
}

/// Replace word-boundary occurrences of `trigger_words` inside `text`,
/// comparing words case- and punctuation-insensitively; the words of the
/// result are joined by single spaces.
fn replace_inline(text: &[char], trigger_words: &Vec<Vec<char>>, expansion: &[char]) -> (r: Vec<
    char,
>)
    requires
        trigger_words@.len() > 0,
    ensures
        r@ == replace_inline_spec(text@, views(trigger_words@), expansion@),
{
    let words = split_whitespace(text);
    let ghost ww = views(words@);
    let ghost tw = views(trigger_words@);
    let mut out: Vec<Vec<char>> = Vec::new();
    let mut i: usize = 0;
    while i < words.len()
        invariant
            i <= words@.len(),
            ww == views(words@),
            tw == views(trigger_words@),
            tw.len() > 0,
            replace_from(ww, 0, tw, expansion@) == views(out@) + replace_from(ww, i as int, tw, expansion@),
        decreases words@.len() - i,
    {
        let ghost before = out@;
        if matches_here(&words, i, trigger_words) {
            out.push(vstd::slice::slice_to_vec(expansion));
            assert(views(out@) =~= views(before).push(expansion@));
            assert(replace_from(ww, i as int, tw, expansion@) == seq![expansion@] + replace_from(ww, i + tw.len(), tw, expansion@));
            assert(views(before) + replace_from(ww, i as int, tw, expansion@) =~= views(out@) + replace_from(ww, i + tw.len(), tw, expansion@));
            i = i + trigger_words.len();
        } else {
            out.push(words[i].clone());
            assert(views(out@) =~= views(before).push(ww[i as int]));
            assert(views(before) + replace_from(ww, i as int, tw, expansion@) =~= views(out@) + replace_from(ww, i + 1, tw, expansion@));
            i = i + 1;
        }
    }
    assert(views(out@) + replace_from(ww, i as int, tw, expansion@) =~= views(out@));
    join_with_spaces(&out)
}

impl SnippetEngine {
    pub fn new(snippets: Vec<Snippet>) -> (r: Self)
        ensures
            r@ == snippets@.map_values(|s: Snippet| snippet_view(s)),
    {
        SnippetEngine { snippets }
    }

    /// Expand snippet triggers in `text`.
    ///
    /// - If the whole utterance is a trigger, the expansion replaces it.
    /// - Multi-word triggers found inline (word-boundary match, ignoring case
    ///   and punctuation) are replaced in place. Single-word triggers only
    ///   match as the whole utterance, to avoid false positives mid-sentence.
    pub fn expand(&self, text: &str) -> (r: String)
        ensures
            r@ == expand_spec(self@, text@),
    {
        let ghost snips = self@;
        let tc = chars_of(text);
        let norm_text = normalize(text);
        let n = self.snippets.len();
        let mut triggers: Vec<String> = Vec::new();
        let mut k: usize = 0;
        while k < n
            invariant
                n == self.snippets@.len(),
                snips == self.snippets@.map_values(|s: Snippet| snippet_view(s)),
                k <= n,
                string_views(triggers@) =~= normal_triggers(snips).take(k as int),
            decreases n - k,
        {
            let t = normalize(self.snippets[k].trigger.as_str());
            let ghost before = triggers@;
            triggers.push(t);
            assert(string_views(triggers@) =~= string_views(before).push(t@));
            assert(normal_triggers(snips).take(k + 1) =~= normal_triggers(snips).take(k as int).push(
                normal_form(snips[k as int].0),
            ));
            k = k + 1;
        }
        assert(normal_triggers(snips).take(n as int) =~= normal_triggers(snips));
        proof {
            lemma_first_whole_match(snips, norm_text@, 0);
            lemma_first_match_in_range(normal_triggers(snips), norm_text@, 0);
        }
        match first_whole_match(&triggers, norm_text.as_str()) {
            Some(i) => {
                return self.snippets[i].expansion.clone();
            },
            None => {},
        }
        let mut result = tc;
        let mut k: usize = 0;
        while k < n
            invariant
                n == self.snippets@.len(),
                snips == self.snippets@.map_values(|s: Snippet| snippet_view(s)),
                k <= n,
                result@ == expand_inline(snips.take(k as int), text@),
            decreases n - k,
        {
            assert(snips.take(k + 1).drop_last() =~= snips.take(k as int));
            assert(snips.take(k + 1).last() == snips[k as int]);
            let tc_k = chars_of(self.snippets[k].trigger.as_str());
            let nt = normalize_chars(tc_k.as_slice());
            let tw = split_on_char(nt.as_slice(), ' ');
            if tw.len() >= 2 {
                let exp = chars_of(self.snippets[k].expansion.as_str());
                result = replace_inline(result.as_slice(), &tw, exp.as_slice());
            }
            k = k + 1;
        }
        assert(snips.take(n as int) =~= snips);
        string_from_chars(result.as_slice())
    }
}

proof fn lemma_first_whole_is(snips: Seq<(Seq<char>, Seq<char>)>, norm: Seq<char>, k: int, i: int)
    requires
        0 <= k <= i < snips.len(),
        normal_form(snips[i].0) == norm,
        forall|j: int| 0 <= j < i ==> normal_form(#[trigger] snips[j].0) != norm,
    ensures
        first_whole(snips, norm, k) == Some(i),
    decreases i - k,
{
    if k < i {
        lemma_first_whole_is(snips, norm, k + 1, i);
    }
}

/// If the whole utterance is a trigger (ignoring case, punctuation and
/// spacing), the expansion of the first such snippet replaces it.
pub proof fn law_whole_utterance_expands(snips: Seq<(Seq<char>, Seq<char>)>, text: Seq<char>, i: int)
    requires
        0 <= i < snips.len(),
        normal_form(snips[i].0) == normal_form(text),
        forall|j: int| 0 <= j < i ==> normal_form(#[trigger] snips[j].0) != normal_form(text),
    ensures
        expand_spec(snips, text) == snips[i].1,
{
    lemma_first_whole_is(snips, normal_form(text), 0, i);
}

proof fn lemma_no_whole(snips: Seq<(Seq<char>, Seq<char>)>, norm: Seq<char>, k: int)
    requires
        0 <= k,
        forall|j: int| 0 <= j < snips.len() ==> normal_form(#[trigger] snips[j].0) != norm,
    ensures
        first_whole(snips, norm, k) is None,
    decreases snips.len() - k,
{
    if k < snips.len() {
        lemma_no_whole(snips, norm, k + 1);
    }
}

proof fn lemma_single_words_skip(snips: Seq<(Seq<char>, Seq<char>)>, text: Seq<char>)
    requires
        forall|j: int| 0 <= j < snips.len() ==> (#[trigger] trigger_words(snips[j].0)).len() < 2,
    ensures
        expand_inline(snips, text) == text,
    decreases snips.len(),
{
    if snips.len() > 0 {
        let d = snips.drop_last();
        assert forall|j: int| 0 <= j < d.len() implies (#[trigger] trigger_words(d[j].0)).len() < 2 by {
            assert(d[j] == snips[j]);
        }
        lemma_single_words_skip(d, text);
        assert(trigger_words(snips[snips.len() - 1].0).len() < 2);
    }
}

/// Single-word triggers only match as the whole utterance: with no
/// multi-word trigger and no whole-utterance match, the text is left exactly
/// as it was.
pub proof fn law_single_word_triggers_never_inline(snips: Seq<(Seq<char>, Seq<char>)>, text: Seq<char>)
    requires
        forall|j: int| 0 <= j < snips.len() ==> (#[trigger] trigger_words(snips[j].0)).len() < 2,
        forall|j: int| 0 <= j < snips.len() ==> normal_form(#[trigger] snips[j].0) != normal_form(text),
    ensures
        expand_spec(snips, text) == text,
{
    lemma_no_whole(snips, normal_form(text), 0);
    lemma_single_words_skip(snips, text);
}

proof fn lemma_replace_from_without_match(
    words: Seq<Seq<char>>,
    i: int,
    tw: Seq<Seq<char>>,
    exp: Seq<char>,
)
    requires
        0 <= i <= words.len(),
        forall|k: int| 0 <= k < words.len() ==> !matches_at(words, k, tw),
    ensures
        replace_from(words, i, tw, exp) == words.subrange(i, words.len() as int),
    decreases words.len() - i,
{
    if i < words.len() {
        lemma_replace_from_without_match(words, i + 1, tw, exp);
        assert(seq![words[i]] + words.subrange(i + 1, words.len() as int) =~= words.subrange(
            i,
            words.len() as int,
        ));
    } else {
        assert(words.subrange(i, words.len() as int) =~= Seq::<Seq<char>>::empty());
    }
}

/// Where the trigger does not occur, inline replacement only re-spaces the
/// text: its words joined by single spaces.
pub proof fn law_replace_without_occurrence(text: Seq<char>, tw: Seq<Seq<char>>, exp: Seq<char>)
    requires
        forall|k: int| 0 <= k < split_ws(text).len() ==> !matches_at(split_ws(text), k, tw),
    ensures
        replace_inline_spec(text, tw, exp) == join_words(split_ws(text)),
{
    let w = split_ws(text);
    lemma_replace_from_without_match(w, 0, tw, exp);
    assert(w.subrange(0, w.len() as int) =~= w);
}

/// Inline matching ignores case and punctuation: where the words from
/// position `i` on normalize, one by one, to the trigger words, they are
/// replaced by the expansion, and replacement goes on after them.
pub proof fn law_inline_match_ignores_case_and_punctuation(
    words: Seq<Seq<char>>,
    i: int,
    tw: Seq<Seq<char>>,
    exp: Seq<char>,
)
    requires
        0 <= i,
        tw.len() > 0,
        i + tw.len() <= words.len(),
        forall|j: int| 0 <= j < tw.len() ==> normal_form(#[trigger] words[i + j]) == tw[j],
    ensures
        replace_from(words, i, tw, exp) == seq![exp] + replace_from(words, i + tw.len(), tw, exp),
{
}

/// Where no word position matches the trigger, no word is replaced: the
/// expansion appears in place of exactly the matching runs.
pub proof fn law_inline_words_kept_without_match(words: Seq<Seq<char>>, i: int, tw: Seq<Seq<char>>, exp: Seq<char>)
    requires
        0 <= i < words.len(),
        exists|j: int| 0 <= j < tw.len() && i + j < words.len() && normal_form(#[trigger] words[i + j]) != tw[j],
    ensures
        replace_from(words, i, tw, exp) == seq![words[i]] + replace_from(words, i + 1, tw, exp),
{
}

} // verus!
