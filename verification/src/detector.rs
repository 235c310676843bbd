//! Wake-word detection: looks for a wake phrase at the start of a transcribed
//! utterance.
//!
//! There is no dedicated wake-word network. A voice detector gates capture,
//! the speech recognizer transcribes the utterance, and the wake phrase is
//! checked as a prefix of the recognized text.

use crate::text;
use crate::text::{
    collapsed, folded_yo, join_from, stripped, stripped_start, to_lowercase, trimmed,
    words_of, CharClass,
};
use vstd::prelude::*;

verus! {

/// How the detector classified a transcribed utterance.
#[derive(Debug, Clone, PartialEq)]
pub enum WakeResult {
    /// No wake phrase at the start: the utterance is discarded.
    NoMatch,
    /// Wake phrase followed by a payload in the same breath.
    Command { payload: String },
    /// The utterance was just the wake phrase (or one of its variants).
    BareWake,
}

/// What a `WakeResult` says, over characters.
pub enum Verdict {
    NoMatch,
    Command { payload: Seq<char> },
    BareWake,
}

impl View for WakeResult {
    type V = Verdict;

    open spec fn view(&self) -> Verdict {
        match *self {
            WakeResult::NoMatch => Verdict::NoMatch,
            WakeResult::Command { payload } => Verdict::Command { payload: payload@ },
            WakeResult::BareWake => Verdict::BareWake,
        }
    }
}

/// Pluggable wake detection. The classification is a function of the
/// recognized text.
pub trait WakeDetector: Send {
    /// The classification of an utterance.
    spec fn verdict(&self, utterance: Seq<char>) -> Verdict;

    /// Classifies an utterance.
    fn detect(&self, utterance: &str) -> (r: WakeResult)
        ensures
            r@ == self.verdict(utterance@),
    ;
}

/// A phrase brought to the form in which phrases are compared: trimmed,
/// lowercase, `ё` as `е`, without leading punctuation, white space collapsed.
pub open spec fn normal_phrase(text: Seq<char>) -> Seq<char> {
    text::collapse(
        text::strip_start(
            text::fold_yo(
                text::lowercase(text::strip(text, CharClass::Blank)),
            ),
            CharClass::NonAlphanumeric,
        ),
    )
}

/// Collapse a phrase for prefix comparison: lowercase, `ё` as `е`, trimmed
/// leading punctuation, collapsed white space. Deliberately not fuzzy: users
/// add their own alternative spellings instead.
pub fn normalize_phrase(text: &str) -> (r: String)
    ensures
        r@ == normal_phrase(text@),
{
    let lowered = to_lowercase(trimmed(text).as_str());
    let folded = folded_yo(lowered.as_str());
    let bare = stripped_start(folded.as_str(), CharClass::NonAlphanumeric);
    collapsed(bare.as_str())
}

/// The phrases of a detector made from these inputs: each brought to its
/// comparable form, in order, without empty ones and without repetitions.
pub open spec fn phrase_variants(inputs: Seq<Seq<char>>) -> Seq<Seq<char>>
    decreases inputs.len(),
{
    if inputs.len() == 0 {
        Seq::empty()
    } else {
        let before = phrase_variants(inputs.drop_last());
        let phrase = normal_phrase(inputs.last());
        if phrase.len() == 0 || before.contains(phrase) {
            before
        } else {
            before.push(phrase)
        }
    }
}

/// A token brought to the form in which tokens are compared: without edge
/// punctuation, lowercase, `ё` as `е`.
pub open spec fn normal_token(token: Seq<char>) -> Seq<char> {
    text::fold_yo(
        text::lowercase(text::strip(token, CharClass::NonAlphanumeric)),
    )
}

/// Each token in its comparable form.
pub open spec fn normal_tokens(tokens: Seq<Seq<char>>) -> Seq<Seq<char>> {
    tokens.map_values(|t: Seq<char>| normal_token(t))
}

/// Whether the words of the phrase are the first of these tokens.
pub open spec fn starts_with_phrase(tokens: Seq<Seq<char>>, phrase: Seq<char>) -> bool {
    let p = text::words(phrase);
    p.len() > 0 && p.is_prefix_of(tokens)
}

/// What is left of an utterance behind its first `n` tokens, without the
/// punctuation and white space that follow the phrase and the white space at
/// the end.
pub open spec fn payload_after(raw: Seq<Seq<char>>, n: nat) -> Seq<char> {
    text::strip(
        text::strip_start(text::joined(raw.skip(n as int)), CharClass::Separator),
        CharClass::Blank,
    )
}

/// The classification of an utterance with these tokens, as they stand and in
/// their comparable form: the first phrase that starts it decides.
pub open spec fn verdict_of(
    phrases: Seq<Seq<char>>,
    tokens: Seq<Seq<char>>,
    raw: Seq<Seq<char>>,
) -> Verdict
    decreases phrases.len(),
{
    if phrases.len() == 0 {
        Verdict::NoMatch
    } else if starts_with_phrase(tokens, phrases[0]) {
        let payload = payload_after(raw, text::words(phrases[0]).len());
        if payload.len() == 0 {
            Verdict::BareWake
        } else {
            Verdict::Command { payload }
        }
    } else {
        verdict_of(phrases.drop_first(), tokens, raw)
    }
}

/// The classification of an utterance by these phrases.
pub open spec fn utterance_verdict(phrases: Seq<Seq<char>>, utterance: Seq<char>) -> Verdict {
    let raw = text::words(utterance);
    verdict_of(phrases, normal_tokens(raw), raw)
}

/// Whether `list` holds `item`.
fn holds(list: &Vec<String>, item: &String) -> (r: bool)
    ensures
        r == text::views(list@).contains(item@),
{
    let mut i: usize = 0;
    while i < list.len()
        invariant
            i <= list@.len(),
            forall|k: int| 0 <= k < i ==> list@[k]@ != item@,
        decreases list@.len() - i,
    {
        if list[i] == *item {
            assert(text::views(list@)[i as int] == item@);
            return true;
        }
        i += 1;
    }
    assert forall|k: int| 0 <= k < text::views(list@).len() implies text::views(
        list@,
    )[k] != item@ by {
        assert(list@[k]@ != item@);
    }
    false
}

/// Adds one phrase to a list of variants.
fn add_variant(phrases: &mut Vec<String>, phrase: &str, Ghost(inputs): Ghost<Seq<Seq<char>>>)
    requires
        text::views(old(phrases)@) == phrase_variants(inputs),
    ensures
        text::views(final(phrases)@) == phrase_variants(inputs.push(phrase@)),
{
    let normalized = normalize_phrase(phrase);
    proof {
        assert(inputs.push(phrase@).drop_last() =~= inputs);
    }
    let ghost before = text::views(phrases@);
    if !normalized.as_str().is_empty() && !holds(phrases, &normalized) {
        phrases.push(normalized);
        proof {
            assert(text::views(phrases@) =~= before.push(normalized@));
        }
    }
}

/// Whether the words `p` are the first of `tokens`.
fn is_token_prefix(p: &Vec<String>, tokens: &Vec<String>) -> (r: bool)
    ensures
        r == text::views(p@).is_prefix_of(text::views(tokens@)),
{
    let ghost ps = text::views(p@);
    let ghost ts = text::views(tokens@);
    if p.len() > tokens.len() {
        return false;
    }
    let mut i: usize = 0;
    while i < p.len()
        invariant
            i <= p@.len() <= tokens@.len(),
            ps == text::views(p@),
            ts == text::views(tokens@),
            forall|k: int| 0 <= k < i ==> ps[k] == ts[k],
        decreases p@.len() - i,
    {
        if p[i] != tokens[i] {
            proof {
                assert(ps[i as int] != ts[i as int]);
                assert(ts.take(ps.len() as int)[i as int] == ts[i as int]);
            }
            return false;
        }
        i += 1;
    }
    assert(ps =~= ts.take(ps.len() as int));
    true
}

/// Classifies an utterance whose tokens are `raw`, and `tokens` in their
/// comparable form.
pub fn match_phrases(phrases: &Vec<String>, tokens: &Vec<String>, raw: &Vec<String>) -> (r:
    WakeResult)
    requires
        tokens@.len() == raw@.len(),
    ensures
        r@ == verdict_of(
            text::views(phrases@),
            text::views(tokens@),
            text::views(raw@),
        ),
{
    let ghost all = text::views(phrases@);
    let ghost ts = text::views(tokens@);
    let ghost rs = text::views(raw@);
    let mut i: usize = 0;
    proof {
        assert(all.skip(0) =~= all);
    }
    while i < phrases.len()
        invariant
            i <= phrases@.len(),
            all == text::views(phrases@),
            ts == text::views(tokens@),
            rs == text::views(raw@),
            tokens@.len() == raw@.len(),
            verdict_of(all, ts, rs) == verdict_of(all.skip(i as int), ts, rs),
        decreases phrases@.len() - i,
    {
        let p = words_of(phrases[i].as_str());
        proof {
            assert(all.skip(i as int)[0] == phrases@[i as int]@);
            assert(all.skip(i as int).drop_first() =~= all.skip(i + 1));
        }
        if p.len() > 0 && is_token_prefix(&p, tokens) {
            let rest = join_from(raw, p.len());
            let tail = stripped_start(rest.as_str(), CharClass::Separator);
            let payload = trimmed(tail.as_str());
            return if payload.as_str().is_empty() {
                WakeResult::BareWake
            } else {
                WakeResult::Command { payload }
            };
        }
        i += 1;
    }
    WakeResult::NoMatch
}

/// Wake phrase matcher that runs on the recognized text. It matches only at
/// the start of an utterance.
pub struct AsrPrefixWakeDetector {
    phrases: Vec<String>,
}

impl View for AsrPrefixWakeDetector {
    type V = Seq<Seq<char>>;

    /// The phrases, in their comparable form.
    closed spec fn view(&self) -> Seq<Seq<char>> {
        text::views(self.phrases@)
    }
}

impl AsrPrefixWakeDetector {
    /// A detector for a phrase and its alternative spellings.
    pub fn new(phrase: &str, alternatives: &[String]) -> (r: Self)
        ensures
            r@ == phrase_variants(seq![phrase@] + text::views(alternatives@)),
    {
        let mut phrases: Vec<String> = Vec::new();
        proof {
            assert(text::views(phrases@) =~= phrase_variants(Seq::empty()));
        }
        add_variant(&mut phrases, phrase, Ghost(Seq::empty()));
        let ghost all = text::views(alternatives@);
        let ghost first = Seq::<Seq<char>>::empty().push(phrase@);
        proof {
            assert(first + all.take(0) =~= first);
        }
        let mut i: usize = 0;
        while i < alternatives.len()
            invariant
                i <= alternatives@.len(),
                all == text::views(alternatives@),
                text::views(phrases@) == phrase_variants(first + all.take(i as int)),
            decreases alternatives@.len() - i,
        {
            add_variant(
                &mut phrases,
                alternatives[i].as_str(),
                Ghost(first + all.take(i as int)),
            );
            proof {
                assert((first + all.take(i as int)).push(all[i as int]) =~= first + all.take(
                    i + 1,
                ));
            }
            i += 1;
        }
        proof {
            assert(first + all.take(all.len() as int) =~= seq![phrase@] + all);
        }
        AsrPrefixWakeDetector { phrases }
    }

    /// Normalized phrase variants.
    pub fn phrases(&self) -> (r: &[String])
        ensures
            text::views(r@) == self@,
    {
        self.phrases.as_slice()
    }
}

impl WakeDetector for AsrPrefixWakeDetector {
    open spec fn verdict(&self, utterance: Seq<char>) -> Verdict {
        utterance_verdict(self@, utterance)
    }

    /// Token-level match. Tokens are stripped of edge punctuation and
    /// normalized for comparison, while the payload is cut from the tokens as
    /// they stand, so its capitalization and punctuation survive.
    fn detect(&self, utterance: &str) -> (r: WakeResult) {
        let raw = words_of(utterance);
        let mut tokens: Vec<String> = Vec::new();
        let ghost rs = text::views(raw@);
        let mut i: usize = 0;
        while i < raw.len()
            invariant
                i <= raw@.len(),
                rs == text::views(raw@),
                text::views(tokens@) == normal_tokens(rs.take(i as int)),
                tokens@.len() == i,
            decreases raw@.len() - i,
        {
            let bare = stripped(raw[i].as_str(), CharClass::NonAlphanumeric);
            let lowered = to_lowercase(bare.as_str());
            let ghost before = text::views(tokens@);
            tokens.push(folded_yo(lowered.as_str()));
            proof {
                assert(text::views(tokens@) =~= before.push(normal_token(rs[i as int])));
                assert(normal_tokens(rs.take(i + 1)) =~= normal_tokens(rs.take(i as int)).push(
                    normal_token(rs[i as int]),
                ));
            }
            i += 1;
        }
        proof {
            assert(rs.take(rs.len() as int) =~= rs);
        }
        match_phrases(&self.phrases, &tokens, &raw)
    }
}

/// A normalized phrase starts with a letter or number.
pub proof fn law_normal_phrase_start(text: Seq<char>)
    ensures
        normal_phrase(text).len() > 0 ==> text::alphanumeric(normal_phrase(text)[0]),
{
    let folded = text::fold_yo(text::lowercase(text::strip(text, CharClass::Blank)));
    let bare = text::strip_start(folded, CharClass::NonAlphanumeric);
    text::lemma_leading(folded, CharClass::NonAlphanumeric);
    text::law_words_are_words(bare);
    text::law_joined_ends(text::words(bare));
    if bare.len() > 0 {
        assert(bare[0] == folded[text::leading(folded, CharClass::NonAlphanumeric) as int]);
        text::lemma_leading_is(bare, CharClass::Blank, 0);
        assert(text::strip_start(bare, CharClass::Blank) =~= bare);
        text::lemma_leading(bare, CharClass::Solid);
        assert(text::words(bare)[0] == bare.take(text::leading(bare, CharClass::Solid) as int));
        assert(CharClass::Solid.has(bare[0]));
        assert(text::words(bare)[0][0] == bare[0]);
    }
}

/// A normalized phrase stays as it is when it is normalized again, where
/// lowercasing leaves it as it is.
pub proof fn law_normal_phrase_settles(text: Seq<char>)
    ensures
        text::lowercase(normal_phrase(text)) == normal_phrase(text) ==> normal_phrase(
            normal_phrase(text),
        ) == normal_phrase(text),
{
    let folded = text::fold_yo(text::lowercase(text::strip(text, CharClass::Blank)));
    let bare = text::strip_start(folded, CharClass::NonAlphanumeric);
    let phrase = normal_phrase(text);
    text::law_words_are_words(bare);
    text::law_joined_ends(text::words(bare));
    text::law_collapse_keeps_words(bare);
    text::lemma_leading(folded, CharClass::NonAlphanumeric);
    assert forall|i: int| 0 <= i < bare.len() implies bare[i] != 'ё' by {
        assert(bare[i] == folded[i + text::leading(folded, CharClass::NonAlphanumeric)]);
    }
    text::law_collapse_adds_only_spaces(bare, 'ё');
    assert(text::fold_yo(phrase) =~= phrase) by {
        assert forall|i: int| 0 <= i < phrase.len() implies phrase[i] != 'ё' by {
            assert(phrase.contains(phrase[i]));
        }
    }
    law_normal_phrase_start(text);
    text::lemma_leading_is(phrase, CharClass::NonAlphanumeric, 0);
    assert(text::strip_start(phrase, CharClass::NonAlphanumeric) =~= phrase);
}

/// An utterance has no match exactly where no phrase starts it: a phrase in
/// the middle of a sentence does not count.
pub proof fn law_no_match_iff(
    phrases: Seq<Seq<char>>,
    tokens: Seq<Seq<char>>,
    raw: Seq<Seq<char>>,
)
    ensures
        verdict_of(phrases, tokens, raw) is NoMatch <==> forall|i: int|
            0 <= i < phrases.len() ==> !starts_with_phrase(tokens, #[trigger] phrases[i]),
    decreases phrases.len(),
{
    if phrases.len() > 0 {
        let rest = phrases.drop_first();
        law_no_match_iff(rest, tokens, raw);
        if starts_with_phrase(tokens, phrases[0]) {
            assert(!(verdict_of(phrases, tokens, raw) is NoMatch));
        } else {
            assert forall|i: int| 0 <= i < rest.len() implies rest[i] == #[trigger] phrases[i
                + 1] by {}
            if forall|i: int|
                0 <= i < rest.len() ==> !starts_with_phrase(tokens, #[trigger] rest[i]) {
                assert forall|i: int| 0 <= i < phrases.len() implies !starts_with_phrase(
                    tokens,
                    #[trigger] phrases[i],
                ) by {
                    if i > 0 {
                        assert(rest[i - 1] == phrases[i]);
                    }
                }
            } else {
                let i = choose|i: int|
                    0 <= i < rest.len() && starts_with_phrase(tokens, #[trigger] rest[i]);
                assert(starts_with_phrase(tokens, phrases[i + 1]));
            }
        }
    }
}

/// Where nothing was said there is no match.
pub proof fn law_silence_is_no_match(phrases: Seq<Seq<char>>)
    ensures
        utterance_verdict(phrases, Seq::empty()) is NoMatch,
{
    let raw = text::words(Seq::empty());
    law_no_match_iff(phrases, normal_tokens(raw), raw);
}

/// The first phrase that starts an utterance decides: what follows its words
/// is the payload, and without a payload it was the bare phrase.
pub proof fn law_first_phrase_decides(
    phrases: Seq<Seq<char>>,
    tokens: Seq<Seq<char>>,
    raw: Seq<Seq<char>>,
    i: int,
)
    requires
        0 <= i < phrases.len(),
        starts_with_phrase(tokens, phrases[i]),
        forall|k: int| 0 <= k < i ==> !starts_with_phrase(tokens, #[trigger] phrases[k]),
    ensures
        ({
            let payload = payload_after(raw, text::words(phrases[i]).len());
            verdict_of(phrases, tokens, raw) == if payload.len() == 0 {
                Verdict::BareWake
            } else {
                Verdict::Command { payload }
            }
        }),
    decreases phrases.len(),
{
    if i > 0 {
        assert(!starts_with_phrase(tokens, phrases[0]));
        let rest = phrases.drop_first();
        assert forall|k: int| 0 <= k < i - 1 implies !starts_with_phrase(
            tokens,
            #[trigger] rest[k],
        ) by {
            assert(rest[k] == phrases[k + 1]);
        }
        law_first_phrase_decides(rest, tokens, raw, i - 1);
    }
}

/// The payload of a command is never empty, and has no white space at its ends.
pub proof fn law_command_payload(
    phrases: Seq<Seq<char>>,
    tokens: Seq<Seq<char>>,
    raw: Seq<Seq<char>>,
)
    ensures
        verdict_of(phrases, tokens, raw) matches Verdict::Command { payload } ==> payload.len() > 0
            && !text::white_space(payload[0]) && !text::white_space(payload.last()),
    decreases phrases.len(),
{
    if phrases.len() > 0 {
        if starts_with_phrase(tokens, phrases[0]) {
            let tail = text::strip_start(
                text::joined(raw.skip(text::words(phrases[0]).len() as int)),
                CharClass::Separator,
            );
            text::law_stripped_ends(tail, CharClass::Blank);
        } else {
            law_command_payload(phrases.drop_first(), tokens, raw);
        }
    }
}

/// The payload is cut out of the utterance as it stands, so its capitalization
/// and punctuation survive: it is a part of the tokens behind the phrase, joined
/// by single spaces.
pub proof fn law_payload_is_cut_out(raw: Seq<Seq<char>>, n: nat)
    requires
        n <= raw.len(),
    ensures
        exists|from: int, to: int|
            0 <= from <= to <= text::joined(raw.skip(n as int)).len() && payload_after(raw, n)
                == #[trigger] text::joined(raw.skip(n as int)).subrange(from, to),
{
    let whole = text::joined(raw.skip(n as int));
    let tail = text::strip_start(whole, CharClass::Separator);
    let bare = text::strip_start(tail, CharClass::Blank);
    text::lemma_leading(whole, CharClass::Separator);
    text::lemma_leading(tail, CharClass::Blank);
    text::lemma_trailing(bare, CharClass::Blank);
    let from = whole.len() - bare.len();
    let to = from + payload_after(raw, n).len();
    assert(payload_after(raw, n) =~= whole.subrange(from, to));
}

/// The variants of a detector: none is empty, none occurs twice, each has a
/// word, each comes from an input, and every input that is not empty in its
/// comparable form is among them.
pub proof fn law_variants(inputs: Seq<Seq<char>>)
    ensures
        phrase_variants(inputs).no_duplicates(),
        forall|i: int|
            0 <= i < phrase_variants(inputs).len() ==> {
                &&& (#[trigger] phrase_variants(inputs)[i]).len() > 0
                &&& text::words(phrase_variants(inputs)[i]).len() > 0
                &&& exists|k: int|
                    0 <= k < inputs.len() && phrase_variants(inputs)[i] == normal_phrase(
                        #[trigger] inputs[k],
                    )
            },
        forall|k: int|
            0 <= k < inputs.len() && normal_phrase(#[trigger] inputs[k]).len() > 0
                ==> phrase_variants(inputs).contains(normal_phrase(inputs[k])),
    decreases inputs.len(),
{
    if inputs.len() > 0 {
        let init = inputs.drop_last();
        law_variants(init);
        let before = phrase_variants(init);
        let phrase = normal_phrase(inputs.last());
        let all = phrase_variants(inputs);
        assert forall|i: int| 0 <= i < all.len() implies {
            &&& (#[trigger] all[i]).len() > 0
            &&& text::words(all[i]).len() > 0
            &&& exists|k: int| 0 <= k < inputs.len() && all[i] == normal_phrase(#[trigger] inputs[k])
        } by {
            if i < before.len() {
                assert(all[i] == before[i]);
                let k = choose|k: int|
                    0 <= k < init.len() && before[i] == normal_phrase(#[trigger] init[k]);
                assert(inputs[k] == init[k]);
            } else {
                assert(all[i] == phrase);
                assert(phrase == normal_phrase(inputs[inputs.len() - 1]));
                lemma_phrase_has_word(inputs.last());
            }
        }
        assert forall|k: int|
            0 <= k < inputs.len() && normal_phrase(#[trigger] inputs[k]).len()
                > 0 implies all.contains(normal_phrase(inputs[k])) by {
            if k < init.len() {
                assert(init[k] == inputs[k]);
                assert(before.contains(normal_phrase(init[k])));
                let j = choose|j: int|
                    0 <= j < before.len() && before[j] == normal_phrase(init[k]);
                assert(all[j] == before[j]);
            } else if !before.contains(phrase) {
                assert(all.last() == phrase);
            }
        }
    }
}

proof fn lemma_phrase_has_word(input: Seq<char>)
    requires
        normal_phrase(input).len() > 0,
    ensures
        text::words(normal_phrase(input)).len() > 0,
{
    let bare = text::strip_start(
        text::fold_yo(text::lowercase(text::strip(input, CharClass::Blank))),
        CharClass::NonAlphanumeric,
    );
    text::law_collapse_keeps_words(bare);
}

/// Whether a spoken token is this word: without the punctuation at its ends, in
/// lowercase, and with `ё` read as `е`.
pub open spec fn sounds_like(spoken: Seq<char>, word: Seq<char>) -> bool {
    let lowered = text::lowercase(text::strip(spoken, CharClass::NonAlphanumeric));
    &&& word.len() == lowered.len()
    &&& forall|i: int|
        0 <= i < word.len() ==> #[trigger] word[i] == if lowered[i] == 'ё' {
            'е'
        } else {
            lowered[i]
        }
}

/// Whether the first words of an utterance are the words of a phrase.
pub open spec fn begins_with(utterance: Seq<char>, phrase: Seq<char>) -> bool {
    let spoken = text::words(utterance);
    let p = text::words(phrase);
    &&& 0 < p.len() <= spoken.len()
    &&& forall|i: int| 0 <= i < p.len() ==> sounds_like(spoken[i], #[trigger] p[i])
}

/// A token is compared in lowercase, without the punctuation at its ends, and
/// with every `ё` read as `е`.
pub proof fn law_token_sounds_like_itself(token: Seq<char>, word: Seq<char>)
    ensures
        sounds_like(token, word) <==> normal_token(token) == word,
        !normal_token(token).contains('ё'),
{
    let lowered = text::lowercase(text::strip(token, CharClass::NonAlphanumeric));
    text::law_yo_is_read_as_ye(lowered);
    if sounds_like(token, word) {
        assert(normal_token(token) =~= word);
    }
}

/// Tokens that differ only in `ё` and `е`, once they are stripped and in
/// lowercase, are the same token.
pub proof fn law_yo_and_ye_are_the_same(a: Seq<char>, b: Seq<char>)
    requires
        ({
            let la = text::lowercase(text::strip(a, CharClass::NonAlphanumeric));
            let lb = text::lowercase(text::strip(b, CharClass::NonAlphanumeric));
            &&& la.len() == lb.len()
            &&& forall|i: int|
                0 <= i < la.len() ==> #[trigger] la[i] == lb[i] || (la[i] == 'ё' && lb[i] == 'е')
                    || (la[i] == 'е' && lb[i] == 'ё')
        }),
    ensures
        normal_token(a) == normal_token(b),
{
    assert(normal_token(a) =~= normal_token(b));
}

/// A phrase is compared in lowercase, with every `ё` read as `е`, from its first
/// letter or number on, its words set apart by single spaces.
pub proof fn law_phrase_form(input: Seq<char>)
    ensures
        ({
            let lowered = text::lowercase(text::strip(input, CharClass::Blank));
            let folded = Seq::new(
                lowered.len(),
                |i: int|
                    if lowered[i] == 'ё' {
                        'е'
                    } else {
                        lowered[i]
                    },
            );
            &&& !normal_phrase(input).contains('ё')
            &&& normal_phrase(input) == text::joined(text::words(normal_phrase(input)))
            &&& exists|from: int|
                {
                    &&& 0 <= from <= folded.len()
                    &&& text::words(normal_phrase(input)) == text::words(
                        #[trigger] folded.skip(from),
                    )
                    &&& forall|i: int| 0 <= i < from ==> !text::alphanumeric(#[trigger] folded[i])
                    &&& from < folded.len() ==> text::alphanumeric(folded[from])
                }
        }),
{
    let lowered = text::lowercase(text::strip(input, CharClass::Blank));
    let folded = Seq::new(
        lowered.len(),
        |i: int|
            if lowered[i] == 'ё' {
                'е'
            } else {
                lowered[i]
            },
    );
    assert(text::fold_yo(lowered) =~= folded);
    let from = text::leading(folded, CharClass::NonAlphanumeric) as int;
    text::lemma_leading(folded, CharClass::NonAlphanumeric);
    let bare = folded.skip(from);
    assert(bare == text::strip_start(folded, CharClass::NonAlphanumeric));
    text::law_collapse_keeps_words(bare);
    text::law_collapse_joins_words(bare);
    assert forall|i: int| 0 <= i < bare.len() implies bare[i] != 'ё' by {
        assert(bare[i] == folded[i + from]);
    }
    text::law_collapse_adds_only_spaces(bare, 'ё');
}

/// A phrase starts a row of tokens exactly where it has words and each of them
/// is the token at its place.
pub proof fn law_phrase_starts_tokens(tokens: Seq<Seq<char>>, phrase: Seq<char>)
    ensures
        starts_with_phrase(tokens, phrase) <==> {
            let p = text::words(phrase);
            &&& 0 < p.len() <= tokens.len()
            &&& forall|i: int| 0 <= i < p.len() ==> #[trigger] p[i] == tokens[i]
        },
{
    let p = text::words(phrase);
    if 0 < p.len() <= tokens.len() && (forall|i: int|
        0 <= i < p.len() ==> #[trigger] p[i] == tokens[i]) {
        assert(p =~= tokens.take(p.len() as int));
    }
    if starts_with_phrase(tokens, phrase) {
        assert forall|i: int| 0 <= i < p.len() implies #[trigger] p[i] == tokens[i] by {
            assert(tokens.take(p.len() as int)[i] == tokens[i]);
        }
    }
}

/// A phrase starts the comparable tokens of an utterance exactly where the
/// utterance begins with it.
proof fn lemma_begins_with(utterance: Seq<char>, phrase: Seq<char>)
    ensures
        begins_with(utterance, phrase) <==> starts_with_phrase(
            normal_tokens(text::words(utterance)),
            phrase,
        ),
{
    let spoken = text::words(utterance);
    let tokens = normal_tokens(spoken);
    let p = text::words(phrase);
    law_phrase_starts_tokens(tokens, phrase);
    assert forall|i: int| 0 <= i < p.len() && i < spoken.len() implies (sounds_like(
        spoken[i],
        #[trigger] p[i],
    ) <==> p[i] == tokens[i]) by {
        law_token_sounds_like_itself(spoken[i], p[i]);
    }
}

/// A detector wakes exactly for the utterances that begin with one of the
/// phrases it was made from, in their comparable form.
pub proof fn law_wakes_exactly_for_its_phrases(inputs: Seq<Seq<char>>, utterance: Seq<char>)
    ensures
        !(utterance_verdict(phrase_variants(inputs), utterance) is NoMatch) <==> exists|k: int|
            0 <= k < inputs.len() && begins_with(utterance, normal_phrase(#[trigger] inputs[k])),
{
    let phrases = phrase_variants(inputs);
    let raw = text::words(utterance);
    let tokens = normal_tokens(raw);
    law_no_match_iff(phrases, tokens, raw);
    law_variants(inputs);
    if !(utterance_verdict(phrases, utterance) is NoMatch) {
        let i = choose|i: int|
            0 <= i < phrases.len() && starts_with_phrase(tokens, #[trigger] phrases[i]);
        lemma_begins_with(utterance, phrases[i]);
        let k = choose|k: int|
            0 <= k < inputs.len() && phrases[i] == normal_phrase(#[trigger] inputs[k]);
        assert(begins_with(utterance, normal_phrase(inputs[k])));
    }
    if exists|k: int|
        0 <= k < inputs.len() && begins_with(utterance, normal_phrase(#[trigger] inputs[k])) {
        let k = choose|k: int|
            0 <= k < inputs.len() && begins_with(utterance, normal_phrase(#[trigger] inputs[k]));
        let phrase = normal_phrase(inputs[k]);
        lemma_begins_with(utterance, phrase);
        if phrase.len() == 0 {
            text::law_words_split_at_white_space(phrase, ' ', phrase);
            assert(phrase =~= Seq::empty());
        }
        assert(phrases.contains(phrase));
        let i = choose|i: int| 0 <= i < phrases.len() && phrases[i] == phrase;
        assert(starts_with_phrase(tokens, phrases[i]));
    }
}

/// Phrases keep their order: what is added later comes behind.
pub proof fn law_variants_keep_order(inputs: Seq<Seq<char>>, more: Seq<Seq<char>>)
    ensures
        phrase_variants(inputs).is_prefix_of(phrase_variants(inputs + more)),
    decreases more.len(),
{
    if more.len() == 0 {
        assert(inputs + more =~= inputs);
        assert(phrase_variants(inputs) =~= phrase_variants(inputs).take(
            phrase_variants(inputs).len() as int,
        ));
    } else {
        law_variants_keep_order(inputs, more.drop_last());
        let before = phrase_variants(inputs + more.drop_last());
        assert((inputs + more).drop_last() =~= inputs + more.drop_last());
        let n = phrase_variants(inputs).len() as int;
        assert(phrase_variants(inputs + more).take(n) =~= before.take(n));
    }
}

/// The payload is everything behind the phrase, as it was spoken: the tokens
/// behind it, joined by single spaces, from the first character on that is no
/// separator.
pub proof fn law_payload_is_what_follows(utterance: Seq<char>, n: nat)
    requires
        n <= text::words(utterance).len(),
    ensures
        ({
            let raw = text::words(utterance);
            let whole = text::joined(raw.skip(n as int));
            exists|from: int|
                {
                    &&& 0 <= from <= whole.len()
                    &&& payload_after(raw, n) == #[trigger] whole.skip(from)
                    &&& forall|i: int|
                        0 <= i < from ==> " ,.:;-!—…\"'"@.contains(#[trigger] whole[i])
                    &&& from < whole.len() ==> !" ,.:;-!—…\"'"@.contains(whole[from])
                }
        }),
{
    let raw = text::words(utterance);
    let parts = raw.skip(n as int);
    let whole = text::joined(parts);
    text::law_words_are_words(utterance);
    assert forall|i: int| 0 <= i < parts.len() implies text::is_word(#[trigger] parts[i]) by {
        assert(parts[i] == raw[i + n]);
    }
    text::law_joined_ends(parts);
    text::lemma_leading(whole, CharClass::Separator);
    let from = text::leading(whole, CharClass::Separator) as int;
    let tail = whole.skip(from);
    assert forall|i: int| 0 <= i < from implies " ,.:;-!—…\"'"@.contains(#[trigger] whole[i]) by {
        text::law_separators(whole[i]);
    }
    if from < whole.len() {
        let c = whole[from];
        text::law_separators(c);
        text::law_separators(' ');
        assert(c != ' ');
        if text::white_space(c) {
            assert forall|i: int| 0 <= i < parts.len() implies !(#[trigger] parts[i]).contains(
                c,
            ) by {
                assert(text::is_word(parts[i]));
            }
            text::lemma_joined_without(parts, c);
            assert(whole.contains(c));
        }
        assert(tail[0] == c);
        assert(tail.last() == whole.last());
        text::lemma_leading_is(tail, CharClass::Blank, 0);
        assert(text::strip_start(tail, CharClass::Blank) =~= tail);
        assert(parts.len() > 0);
        text::lemma_trailing_is(tail, CharClass::Blank, 0);
    } else {
        text::lemma_leading_is(tail, CharClass::Blank, 0);
        assert(text::strip_start(tail, CharClass::Blank) =~= tail);
        text::lemma_trailing_is(tail, CharClass::Blank, 0);
    }
    assert(text::strip(tail, CharClass::Blank) =~= tail);
    assert(payload_after(raw, n) == whole.skip(from));
}

/// What a detector hears: of the phrases that the utterance begins with, the
/// first one is cut off, and the rest is the command; without a rest it was the
/// bare phrase.
pub proof fn law_utterance_is_cut_behind_first_phrase(
    phrases: Seq<Seq<char>>,
    utterance: Seq<char>,
    i: int,
)
    requires
        0 <= i < phrases.len(),
        begins_with(utterance, phrases[i]),
        forall|k: int| 0 <= k < i ==> !begins_with(utterance, #[trigger] phrases[k]),
    ensures
        ({
            let rest = payload_after(text::words(utterance), text::words(phrases[i]).len());
            utterance_verdict(phrases, utterance) == if rest.len() == 0 {
                Verdict::BareWake
            } else {
                Verdict::Command { payload: rest }
            }
        }),
{
    let raw = text::words(utterance);
    lemma_begins_with(utterance, phrases[i]);
    assert forall|k: int| 0 <= k < i implies !starts_with_phrase(
        normal_tokens(raw),
        #[trigger] phrases[k],
    ) by {
        lemma_begins_with(utterance, phrases[k]);
    }
    law_first_phrase_decides(phrases, normal_tokens(raw), raw, i);
}

/// A detector classifies an utterance by its own phrases.
pub proof fn law_detector_goes_by_its_phrases(d: AsrPrefixWakeDetector, utterance: Seq<char>)
    ensures
        d.verdict(utterance) == utterance_verdict(d@, utterance),
{
}

} // verus!
