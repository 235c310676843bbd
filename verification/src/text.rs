//! Text on the level of characters: white space, words, trimming, joining,
//! and decimal numbers.
//!
//! Every function works on the sequence of characters that a string holds.

use vstd::prelude::*;

verus! {

/// `String::push` adds one character at the end.
pub assume_specification[ String::push ](s: &mut String, c: char)
    ensures
        final(s)@ == old(s)@.push(c),
;

/// What `char::is_alphanumeric` answers of a character beyond ASCII that is no
/// white space.
pub uninterp spec fn wide_alphanumeric(c: char) -> bool;

/// The letters and digits of ASCII.
pub open spec fn ascii_alphanumeric(c: char) -> bool {
    '0' <= c <= '9' || 'a' <= c <= 'z' || 'A' <= c <= 'Z'
}

/// Letters and numbers of every script.
pub open spec fn alphanumeric(c: char) -> bool {
    if c <= '\u{7f}' {
        ascii_alphanumeric(c)
    } else {
        !white_space(c) && wide_alphanumeric(c)
    }
}

/// What `str::to_lowercase` makes of a text.
pub uninterp spec fn lowercase(text: Seq<char>) -> Seq<char>;

/// Calls `char::is_alphanumeric`. Of ASCII, the letters and digits are
/// alphanumeric; white space is not, of any script; for every other character
/// the answer depends on the character alone.
#[verifier::external_body]
pub(crate) fn is_alphanumeric(c: char) -> (r: bool)
    ensures
        c <= '\u{7f}' ==> r == ascii_alphanumeric(c),
        white_space(c) ==> !r,
        c > '\u{7f}' && !white_space(c) ==> r == wide_alphanumeric(c),
{
    c.is_alphanumeric()
}

/// Calls `str::to_lowercase`. The result depends on the text alone.
#[verifier::external_body]
pub(crate) fn to_lowercase(text: &str) -> (r: String)
    ensures
        r@ == lowercase(text@),
{
    text.to_lowercase()
}

/// The characters of a text, in order.
pub fn chars_of(text: &str) -> (r: Vec<char>)
    ensures
        r@ == text@,
{
    let mut out: Vec<char> = Vec::new();
    for c in it: text.chars()
        invariant
            it.seq() == text@,
            out@ == text@.take(it.index() as int),
    {
        proof {
            assert(text@.take(it.index() + 1) =~= text@.take(it.index() as int).push(c));
        }
        out.push(c);
    }
    assert(text@.take(text@.len() as int) =~= text@);
    out
}

/// The text made of the characters from `from` up to, but not with, `to`.
pub fn text_between(chars: &Vec<char>, from: usize, to: usize) -> (r: String)
    requires
        from <= to <= chars@.len(),
    ensures
        r@ == chars@.subrange(from as int, to as int),
{
    let mut out = String::new();
    let mut i: usize = from;
    while i < to
        invariant
            from <= i <= to <= chars@.len(),
            out@ == chars@.subrange(from as int, i as int),
        decreases to - i,
    {
        proof {
            assert(chars@.subrange(from as int, i + 1) =~= chars@.subrange(from as int, i as int).push(chars@[i as int]));
        }
        out.push(chars[i]);
        i += 1;
    }
    out
}

/// The characters with the Unicode property `White_Space`.
pub open spec fn white_space(c: char) -> bool {
    ||| '\u{9}' <= c <= '\u{d}'
    ||| c == ' '
    ||| c == '\u{85}'
    ||| c == '\u{a0}'
    ||| c == '\u{1680}'
    ||| '\u{2000}' <= c <= '\u{200a}'
    ||| c == '\u{2028}'
    ||| c == '\u{2029}'
    ||| c == '\u{202f}'
    ||| c == '\u{205f}'
    ||| c == '\u{3000}'
}

/// Whether `c` is white space.
pub fn is_white_space(c: char) -> (r: bool)
    ensures
        r == white_space(c),
{
    ('\u{9}' <= c && c <= '\u{d}') || c == ' ' || c == '\u{85}' || c == '\u{a0}' || c == '\u{1680}'
        || ('\u{2000}' <= c && c <= '\u{200a}') || c == '\u{2028}' || c == '\u{2029}'
        || c == '\u{202f}' || c == '\u{205f}' || c == '\u{3000}'
}

/// A kind of character that is stripped from the ends of a text or runs
/// through a word.
#[derive(Debug, Clone, Copy, PartialEq, Eq, Structural)]
pub enum CharClass {
    /// White space.
    Blank,
    /// Everything but white space.
    Solid,
    /// Everything but letters and numbers.
    NonAlphanumeric,
    /// What may stand between a wake phrase and its payload.
    Separator,
}

impl CharClass {
    /// Whether the class has `c`.
    pub open spec fn has(self, c: char) -> bool {
        match self {
            CharClass::Blank => white_space(c),
            CharClass::Solid => !white_space(c),
            CharClass::NonAlphanumeric => !alphanumeric(c),
            CharClass::Separator => separator(c),
        }
    }

    /// Whether the class has `c`.
    pub fn contains(self, c: char) -> (r: bool)
        ensures
            r == self.has(c),
    {
        match self {
            CharClass::Blank => is_white_space(c),
            CharClass::Solid => !is_white_space(c),
            CharClass::NonAlphanumeric => !is_alphanumeric(c),
            CharClass::Separator => is_separator(c),
        }
    }
}

/// The characters between a wake phrase and its payload: the space and
/// `,` `.` `:` `;` `-` `!` `—` `…` `"` `'`.
pub open spec fn separator(c: char) -> bool {
    ||| c == ' '
    ||| c == ','
    ||| c == '.'
    ||| c == ':'
    ||| c == ';'
    ||| c == '-'
    ||| c == '!'
    ||| c == '—'
    ||| c == '…'
    ||| c == '"'
    ||| c == '\''
}

fn is_separator(c: char) -> (r: bool)
    ensures
        r == separator(c),
{
    c == ' ' || c == ',' || c == '.' || c == ':' || c == ';' || c == '-' || c == '!' || c == '—'
        || c == '…' || c == '"' || c == '\''
}

/// How many characters at the start of `s` are all of the class.
pub open spec fn leading(s: Seq<char>, class: CharClass) -> nat
    decreases s.len(),
{
    if s.len() > 0 && class.has(s[0]) {
        1 + leading(s.drop_first(), class)
    } else {
        0
    }
}

/// How many characters at the end of `s` are all of the class.
pub open spec fn trailing(s: Seq<char>, class: CharClass) -> nat
    decreases s.len(),
{
    if s.len() > 0 && class.has(s.last()) {
        1 + trailing(s.drop_last(), class)
    } else {
        0
    }
}

/// `s` without the characters of the class at its start.
pub open spec fn strip_start(s: Seq<char>, class: CharClass) -> Seq<char> {
    s.skip(leading(s, class) as int)
}

/// `s` without the characters of the class at its end.
pub open spec fn strip_end(s: Seq<char>, class: CharClass) -> Seq<char> {
    s.take(s.len() - trailing(s, class))
}

/// `s` without the characters of the class at both ends.
pub open spec fn strip(s: Seq<char>, class: CharClass) -> Seq<char> {
    strip_end(strip_start(s, class), class)
}

/// The leading run is no longer than the text, consists of the class, and is
/// not followed by another character of the class.
pub proof fn lemma_leading(s: Seq<char>, class: CharClass)
    ensures
        leading(s, class) <= s.len(),
        forall|i: int| 0 <= i < leading(s, class) ==> class.has(#[trigger] s[i]),
        leading(s, class) < s.len() ==> !class.has(s[leading(s, class) as int]),
    decreases s.len(),
{
    if s.len() > 0 && class.has(s[0]) {
        lemma_leading(s.drop_first(), class);
        assert forall|i: int| 0 <= i < leading(s, class) implies class.has(#[trigger] s[i]) by {
            if i > 0 {
                assert(s.drop_first()[i - 1] == s[i]);
            }
        }
    }
}

/// The run of the class that starts `s` is the one of this length.
pub proof fn lemma_leading_is(s: Seq<char>, class: CharClass, n: nat)
    requires
        n <= s.len(),
        forall|i: int| 0 <= i < n ==> class.has(#[trigger] s[i]),
        n < s.len() ==> !class.has(s[n as int]),
    ensures
        leading(s, class) == n,
{
    lemma_leading(s, class);
    let m = leading(s, class);
    if m < n {
        assert(class.has(s[m as int]));
    } else if n < m {
        assert(class.has(s[n as int]));
    }
}

/// The trailing run is no longer than the text, consists of the class, and
/// does not follow another character of the class.
pub proof fn lemma_trailing(s: Seq<char>, class: CharClass)
    ensures
        trailing(s, class) <= s.len(),
        forall|i: int| s.len() - trailing(s, class) <= i < s.len() ==> class.has(#[trigger] s[i]),
        trailing(s, class) < s.len() ==> !class.has(s[s.len() - trailing(s, class) - 1]),
    decreases s.len(),
{
    if s.len() > 0 && class.has(s.last()) {
        lemma_trailing(s.drop_last(), class);
        assert forall|i: int| s.len() - trailing(s, class) <= i < s.len() implies class.has(
            #[trigger] s[i],
        ) by {
            if i < s.len() - 1 {
                assert(s.drop_last()[i] == s[i]);
            }
        }
    }
}

/// The run of the class that ends `s` is the one of this length.
pub proof fn lemma_trailing_is(s: Seq<char>, class: CharClass, n: nat)
    requires
        n <= s.len(),
        forall|i: int| s.len() - n <= i < s.len() ==> class.has(#[trigger] s[i]),
        n < s.len() ==> !class.has(s[s.len() - n - 1]),
    ensures
        trailing(s, class) == n,
{
    lemma_trailing(s, class);
    let m = trailing(s, class);
    if m < n {
        assert(class.has(s[s.len() - m - 1]));
    } else if n < m {
        assert(class.has(s[s.len() - n - 1]));
    }
}

/// What is left after stripping both ends neither starts nor ends with a
/// character of the class.
pub proof fn law_stripped_ends(s: Seq<char>, class: CharClass)
    ensures
        strip(s, class).len() > 0 ==> !class.has(strip(s, class)[0]) && !class.has(
            strip(s, class).last(),
        ),
{
    let rest = strip_start(s, class);
    lemma_leading(s, class);
    lemma_trailing(rest, class);
    if strip(s, class).len() > 0 {
        assert(strip(s, class)[0] == s[leading(s, class) as int]);
    }
}

/// The length of the run of the class that starts at `from`.
fn run_length(chars: &Vec<char>, from: usize, class: CharClass) -> (r: usize)
    requires
        from <= chars@.len(),
    ensures
        r == leading(chars@.skip(from as int), class),
        from + r <= chars@.len(),
{
    let mut i: usize = from;
    let ghost rest = chars@.skip(from as int);
    while i < chars.len() && class.contains(chars[i])
        invariant
            from <= i <= chars@.len(),
            rest == chars@.skip(from as int),
            forall|k: int| 0 <= k < i - from ==> class.has(#[trigger] rest[k]),
        decreases chars@.len() - i,
    {
        i += 1;
    }
    proof {
        lemma_leading_is(rest, class, (i - from) as nat);
    }
    i - from
}

/// `text` without the characters of the class at its start.
pub fn stripped_start(text: &str, class: CharClass) -> (r: String)
    ensures
        r@ == strip_start(text@, class),
{
    let chars = chars_of(text);
    proof {
        assert(text@.skip(0) =~= text@);
    }
    let lead: usize = run_length(&chars, 0, class);
    assert(text@.skip(lead as int) =~= text@.subrange(lead as int, text@.len() as int));
    text_between(&chars, lead, chars.len())
}

/// `text` without the characters of the class at both ends.
pub fn stripped(text: &str, class: CharClass) -> (r: String)
    ensures
        r@ == strip(text@, class),
{
    let chars = chars_of(text);
    proof {
        assert(text@.skip(0) =~= text@);
    }
    let lead: usize = run_length(&chars, 0, class);
    let mut end: usize = chars.len();
    let ghost rest = text@.skip(lead as int);
    while end > lead && class.contains(chars[end - 1])
        invariant
            lead <= end <= chars@.len(),
            chars@ == text@,
            rest == text@.skip(lead as int),
            forall|k: int| end - lead <= k < rest.len() ==> class.has(#[trigger] rest[k]),
        decreases end,
    {
        end -= 1;
    }
    proof {
        lemma_trailing_is(rest, class, (chars@.len() - end) as nat);
        assert(rest.take(end - lead) =~= text@.subrange(lead as int, end as int));
    }
    text_between(&chars, lead, end)
}

/// `text` without the white space at both ends.
pub fn trimmed(text: &str) -> (r: String)
    ensures
        r@ == strip(text@, CharClass::Blank),
{
    stripped(text, CharClass::Blank)
}

/// The words of a text: its longest runs without white space, in order.
pub open spec fn words(s: Seq<char>) -> Seq<Seq<char>>
    decreases s.len(),
    via words_shrink
{
    let rest = strip_start(s, CharClass::Blank);
    if rest.len() == 0 {
        Seq::empty()
    } else {
        let n = leading(rest, CharClass::Solid) as int;
        seq![rest.take(n)] + words(rest.skip(n))
    }
}

#[via_fn]
proof fn words_shrink(s: Seq<char>) {
    lemma_leading(s, CharClass::Blank);
    let rest = strip_start(s, CharClass::Blank);
    lemma_leading(rest, CharClass::Solid);
    if rest.len() > 0 {
        assert(rest[0] == s[leading(s, CharClass::Blank) as int]);
    }
}

/// The words set side by side with one space between two of them.
pub open spec fn joined(parts: Seq<Seq<char>>) -> Seq<char>
    decreases parts.len(),
{
    if parts.len() == 0 {
        Seq::empty()
    } else if parts.len() == 1 {
        parts[0]
    } else {
        joined(parts.drop_last()).push(' ') + parts.last()
    }
}

/// What the strings of a list hold.
pub open spec fn views(list: Seq<String>) -> Seq<Seq<char>> {
    Seq::new(list.len(), |i: int| list[i]@)
}

/// The words of `text`.
pub fn words_of(text: &str) -> (r: Vec<String>)
    ensures
        views(r@) == words(text@),
{
    let chars = chars_of(text);
    let len: usize = chars.len();
    let mut out: Vec<String> = Vec::new();
    let mut i: usize = 0;
    proof {
        assert(chars@.skip(0) =~= chars@);
        assert(views(out@) + words(chars@) =~= words(chars@));
    }
    loop
        invariant
            i <= len,
            len == chars@.len(),
            chars@ == text@,
            views(out@) + words(chars@.skip(i as int)) == words(text@),
        ensures
            views(out@) == words(text@),
        decreases chars@.len() - i,
    {
        let ghost s = chars@.skip(i as int);
        let ghost before = views(out@);
        let start: usize = i + run_length(&chars, i, CharClass::Blank);
        let ghost rest = strip_start(s, CharClass::Blank);
        proof {
            assert(rest =~= chars@.skip(start as int));
        }
        if start == len {
            proof {
                assert(views(out@) + words(s) =~= views(out@));
            }
            break;
        }
        let run: usize = run_length(&chars, start, CharClass::Solid);
        let word = text_between(&chars, start, start + run);
        proof {
            lemma_leading(s, CharClass::Blank);
            lemma_leading(rest, CharClass::Solid);
            assert(rest[0] == s[leading(s, CharClass::Blank) as int]);
            assert(rest.take(run as int) =~= word@);
            assert(rest.skip(run as int) =~= chars@.skip(start + run));
        }
        out.push(word);
        i = start + run;
        proof {
            assert(views(out@) =~= before.push(word@));
            assert(before.push(word@) + words(chars@.skip(i as int)) =~= before + words(s));
        }
    }
    out
}

/// The strings of `list` from `from` on, with one space between two of them.
pub fn join_from(list: &Vec<String>, from: usize) -> (r: String)
    requires
        from <= list@.len(),
    ensures
        r@ == joined(views(list@).skip(from as int)),
{
    let mut out = String::new();
    let mut i: usize = from;
    let ghost all = views(list@).skip(from as int);
    while i < list.len()
        invariant
            from <= i <= list@.len(),
            all == views(list@).skip(from as int),
            out@ == joined(all.take(i - from)),
        decreases list@.len() - i,
    {
        proof {
            let next = all.take(i + 1 - from);
            assert(next.drop_last() =~= all.take(i - from));
            assert(next.last() == list@[i as int]@);
        }
        if i > from {
            out.push(' ');
        }
        out.append(list[i].as_str());
        i += 1;
        proof {
            if i == from + 1 {
                assert(out@ =~= list@[from as int]@);
            }
        }
    }
    proof {
        assert(all.take(list@.len() - from) =~= all);
    }
    out
}

/// Joining from the front: the first part, a space, and the rest joined.
proof fn lemma_joined_front(parts: Seq<Seq<char>>)
    requires
        parts.len() >= 2,
    ensures
        joined(parts) == parts[0].push(' ') + joined(parts.drop_first()),
    decreases parts.len(),
{
    let front = parts.drop_last();
    let rest = parts.drop_first();
    if parts.len() == 2 {
        assert(joined(front) == parts[0]);
        assert(joined(rest) == parts[1]);
    } else {
        lemma_joined_front(front);
        assert(front.drop_first() =~= rest.drop_last());
        assert(joined(parts) =~= parts[0].push(' ') + (joined(rest.drop_last()).push(' ')
            + rest.last()));
    }
}

/// A word: not empty, and without white space.
pub open spec fn is_word(s: Seq<char>) -> bool {
    s.len() > 0 && forall|i: int| 0 <= i < s.len() ==> !white_space(#[trigger] s[i])
}

/// The words of a text are words: none is empty, none holds white space.
pub proof fn law_words_are_words(s: Seq<char>)
    ensures
        forall|i: int| 0 <= i < words(s).len() ==> is_word(#[trigger] words(s)[i]),
    decreases s.len(),
{
    let rest = strip_start(s, CharClass::Blank);
    if rest.len() > 0 {
        let n = leading(rest, CharClass::Solid) as int;
        lemma_leading(rest, CharClass::Solid);
        lemma_leading(s, CharClass::Blank);
        assert(rest[0] == s[leading(s, CharClass::Blank) as int]);
        law_words_are_words(rest.skip(n));
        assert forall|i: int| 0 <= i < words(s).len() implies is_word(#[trigger] words(s)[i]) by {
            if i == 0 {
                assert(words(s)[0] =~= rest.take(n));
                assert forall|k: int| 0 <= k < n implies !white_space(#[trigger] rest.take(n)[k]) by {
                    assert(CharClass::Solid.has(rest[k]));
                }
            } else {
                assert(words(s)[i] == words(rest.skip(n))[i - 1]);
            }
        }
    }
}

/// A single word is the only word of itself.
proof fn lemma_words_of_word(w: Seq<char>)
    requires
        is_word(w),
    ensures
        words(w) == seq![w],
{
    lemma_leading_is(w, CharClass::Blank, 0);
    assert(strip_start(w, CharClass::Blank) =~= w);
    lemma_leading_is(w, CharClass::Solid, w.len());
    assert(w.take(w.len() as int) =~= w);
    let none = w.skip(w.len() as int);
    assert(words(none) =~= Seq::empty());
    assert(words(w) =~= seq![w]);
}

/// A word, a space and a text: the words are that word and those of the text.
proof fn lemma_words_cons(w: Seq<char>, s: Seq<char>)
    requires
        is_word(w),
    ensures
        words(w.push(' ') + s) == seq![w] + words(s),
{
    let t = w.push(' ') + s;
    lemma_leading_is(t, CharClass::Blank, 0);
    assert(strip_start(t, CharClass::Blank) =~= t);
    assert(t[w.len() as int] == ' ');
    lemma_leading_is(t, CharClass::Solid, w.len());
    assert(t.take(w.len() as int) =~= w);
    let rest = t.skip(w.len() as int);
    assert(rest =~= seq![' '] + s);
    // One more space in front changes no word.
    assert(rest.drop_first() =~= s);
    assert(strip_start(rest, CharClass::Blank) =~= strip_start(s, CharClass::Blank)) by {
        lemma_leading(s, CharClass::Blank);
    }
    assert(words(rest) =~= words(s));
    assert(words(t) =~= seq![w] + words(rest));
}

/// Joining words with single spaces and splitting again gives the words back.
pub proof fn law_words_of_joined(parts: Seq<Seq<char>>)
    requires
        forall|i: int| 0 <= i < parts.len() ==> is_word(#[trigger] parts[i]),
    ensures
        words(joined(parts)) == parts,
    decreases parts.len(),
{
    if parts.len() == 0 {
        assert(words(joined(parts)) =~= parts);
    } else if parts.len() == 1 {
        assert(is_word(parts[0]));
        lemma_words_of_word(parts[0]);
        assert(parts =~= seq![parts[0]]);
    } else {
        let rest = parts.drop_first();
        assert forall|i: int| 0 <= i < rest.len() implies is_word(#[trigger] rest[i]) by {
            assert(rest[i] == parts[i + 1]);
        }
        law_words_of_joined(rest);
        lemma_joined_front(parts);
        assert(is_word(parts[0]));
        lemma_words_cons(parts[0], joined(rest));
        assert(seq![parts[0]] + rest =~= parts);
    }
}

/// A text with its words set side by side, one space between two of them.
pub open spec fn collapse(s: Seq<char>) -> Seq<char> {
    joined(words(s))
}

/// Collapsing keeps the words of a text.
pub proof fn law_collapse_keeps_words(s: Seq<char>)
    ensures
        words(collapse(s)) == words(s),
        collapse(collapse(s)) == collapse(s),
{
    law_words_are_words(s);
    law_words_of_joined(words(s));
}

/// Words joined by single spaces start as the first word does, and neither
/// start nor end with white space.
pub proof fn law_joined_ends(parts: Seq<Seq<char>>)
    requires
        forall|i: int| 0 <= i < parts.len() ==> is_word(#[trigger] parts[i]),
    ensures
        parts.len() > 0 ==> {
            &&& joined(parts).len() > 0
            &&& joined(parts)[0] == parts[0][0]
            &&& !white_space(joined(parts)[0])
            &&& !white_space(joined(parts).last())
        },
        strip(joined(parts), CharClass::Blank) == joined(parts),
    decreases parts.len(),
{
    let s = joined(parts);
    if parts.len() > 0 {
        assert(is_word(parts.last()));
        if parts.len() > 1 {
            let init = parts.drop_last();
            assert forall|i: int| 0 <= i < init.len() implies is_word(#[trigger] init[i]) by {
                assert(init[i] == parts[i]);
            }
            law_joined_ends(init);
        }
    }
    lemma_leading_is(s, CharClass::Blank, 0);
    assert(strip_start(s, CharClass::Blank) =~= s);
    lemma_trailing_is(s, CharClass::Blank, 0);
    assert(strip(s, CharClass::Blank) =~= s);
}

/// A character that a text does not have is in none of its words.
proof fn lemma_words_without(s: Seq<char>, c: char)
    requires
        !s.contains(c),
    ensures
        forall|i: int| 0 <= i < words(s).len() ==> !(#[trigger] words(s)[i]).contains(c),
    decreases s.len(),
{
    let rest = strip_start(s, CharClass::Blank);
    lemma_leading(s, CharClass::Blank);
    if rest.len() > 0 {
        let n = leading(rest, CharClass::Solid) as int;
        lemma_leading(rest, CharClass::Solid);
        assert(rest[0] == s[leading(s, CharClass::Blank) as int]);
        assert forall|k: int| 0 <= k < rest.len() implies rest[k] != c by {
            assert(rest[k] == s[k + leading(s, CharClass::Blank)]);
        }
        lemma_words_without(rest.skip(n), c);
        assert forall|i: int| 0 <= i < words(s).len() implies !(
        #[trigger] words(s)[i]).contains(c) by {
            if i == 0 {
                assert(words(s)[0] =~= rest.take(n));
            } else {
                assert(words(s)[i] == words(rest.skip(n))[i - 1]);
            }
        }
    }
}

/// A character that no part has is not in the joined text, the space apart.
pub proof fn lemma_joined_without(parts: Seq<Seq<char>>, c: char)
    requires
        c != ' ',
        forall|i: int| 0 <= i < parts.len() ==> !(#[trigger] parts[i]).contains(c),
    ensures
        !joined(parts).contains(c),
    decreases parts.len(),
{
    if parts.len() == 1 {
        assert(!parts[0].contains(c));
    } else if parts.len() > 1 {
        let init = parts.drop_last();
        assert forall|i: int| 0 <= i < init.len() implies !(#[trigger] init[i]).contains(c) by {
            assert(init[i] == parts[i]);
        }
        lemma_joined_without(init, c);
        assert(!parts.last().contains(c));
        let s = joined(parts);
        let front = joined(init);
        assert forall|k: int| 0 <= k < s.len() implies s[k] != c by {
            if k < front.len() {
                assert(s[k] == front[k]);
            } else if k > front.len() {
                assert(s[k] == parts.last()[k - front.len() - 1]);
            }
        }
    }
}

/// Collapsing brings in no character but the space.
pub proof fn law_collapse_adds_only_spaces(s: Seq<char>, c: char)
    requires
        c != ' ',
        !s.contains(c),
    ensures
        !collapse(s).contains(c),
{
    lemma_words_without(s, c);
    lemma_joined_without(words(s), c);
}

/// `text` with its white space collapsed to single spaces.
pub fn collapsed(text: &str) -> (r: String)
    ensures
        r@ == collapse(text@),
{
    let list = words_of(text);
    proof {
        assert(views(list@).skip(0) =~= views(list@));
    }
    join_from(&list, 0)
}

/// The letter `ё` is read as `е`.
pub open spec fn fold_char(c: char) -> char {
    if c == 'ё' {
        'е'
    } else {
        c
    }
}

/// `s` with every `ё` read as `е`.
pub open spec fn fold_yo(s: Seq<char>) -> Seq<char> {
    s.map_values(|c: char| fold_char(c))
}

/// `text` with every `ё` replaced by `е`.
pub fn folded_yo(text: &str) -> (r: String)
    ensures
        r@ == fold_yo(text@),
{
    let mut out = String::new();
    for c in it: text.chars()
        invariant
            it.seq() == text@,
            out@ == fold_yo(text@.take(it.index() as int)),
    {
        proof {
            assert(fold_yo(text@.take(it.index() + 1)) =~= fold_yo(
                text@.take(it.index() as int),
            ).push(fold_char(c)));
        }
        if c == 'ё' {
            out.push('е');
        } else {
            out.push(c);
        }
    }
    assert(text@.take(text@.len() as int) =~= text@);
    out
}

/// Whether two texts hold the same characters.
pub fn same_text(a: &str, b: &str) -> (r: bool)
    ensures
        r == (a@ == b@),
{
    a.to_owned() == b.to_owned()
}

/// The decimal digits of a number, without leading zeros.
pub open spec fn digits(n: nat) -> Seq<char>
    decreases n,
{
    if n < 10 {
        seq![(48 + n) as char]
    } else {
        digits(n / 10).push((48 + n % 10) as char)
    }
}

/// `n` written in decimal.
pub fn decimal(n: u64) -> (r: String)
    ensures
        r@ == digits(n as nat),
    decreases n,
{
    if n < 10 {
        let mut out = String::new();
        out.push((48 + n as u8) as char);
        assert(out@ =~= digits(n as nat));
        out
    } else {
        let mut out = decimal(n / 10);
        out.push((48 + (n % 10) as u8) as char);
        out
    }
}

/// What may stand between a wake phrase and its payload: these characters, and
/// no others.
pub proof fn law_separators(c: char)
    ensures
        separator(c) <==> " ,.:;-!—…\"'"@.contains(c),
{
    reveal_strlit(" ,.:;-!—…\"'");
    let list = " ,.:;-!—…\"'"@;
    assert(list.len() == 11);
    assert(list =~= seq![' ', ',', '.', ':', ';', '-', '!', '—', '…', '"', '\'']);
    if separator(c) {
        let i: int = if c == ' ' {
            0
        } else if c == ',' {
            1
        } else if c == '.' {
            2
        } else if c == ':' {
            3
        } else if c == ';' {
            4
        } else if c == '-' {
            5
        } else if c == '!' {
            6
        } else if c == '—' {
            7
        } else if c == '…' {
            8
        } else if c == '"' {
            9
        } else {
            10
        };
        assert(list[i] == c);
    }
}

/// Stripping both ends cuts off characters of the class, all of them, and
/// nothing else: what is left is the part of the text between the first and the
/// last character that is not of the class.
pub proof fn law_strip_cuts_only_the_ends(s: Seq<char>, class: CharClass)
    ensures
        exists|from: int, to: int|
            {
                &&& 0 <= from <= to <= s.len()
                &&& strip(s, class) == #[trigger] s.subrange(from, to)
                &&& forall|i: int| 0 <= i < from ==> class.has(#[trigger] s[i])
                &&& forall|i: int| to <= i < s.len() ==> class.has(#[trigger] s[i])
                &&& from < to ==> !class.has(s[from]) && !class.has(s[to - 1])
            },
{
    let rest = strip_start(s, class);
    lemma_leading(s, class);
    lemma_trailing(rest, class);
    let from = leading(s, class) as int;
    let to = s.len() - trailing(rest, class);
    assert(strip(s, class) =~= s.subrange(from, to));
    assert forall|i: int| to <= i < s.len() implies class.has(#[trigger] s[i]) by {
        assert(rest[i - from] == s[i]);
    }
    if from < to {
        assert(rest[to - 1 - from] == s[to - 1]);
    }
}

/// Stripping the start cuts off the characters of the class up to the first one
/// that is not of the class, and nothing else.
pub proof fn law_strip_start_cuts_only_the_start(s: Seq<char>, class: CharClass)
    ensures
        exists|from: int|
            {
                &&& 0 <= from <= s.len()
                &&& strip_start(s, class) == #[trigger] s.skip(from)
                &&& forall|i: int| 0 <= i < from ==> class.has(#[trigger] s[i])
                &&& from < s.len() ==> !class.has(s[from])
            },
{
    lemma_leading(s, class);
    let from = leading(s, class) as int;
    assert(strip_start(s, class) == s.skip(from));
}

/// The classes: white space, everything else, everything but letters and
/// numbers, and the separators.
pub proof fn law_classes(c: char)
    ensures
        CharClass::Blank.has(c) == white_space(c),
        CharClass::Solid.has(c) == !white_space(c),
        CharClass::NonAlphanumeric.has(c) == !alphanumeric(c),
        CharClass::Separator.has(c) == " ,.:;-!—…\"'"@.contains(c),
{
    law_separators(c);
}

/// A text without white space has itself as its only word.
pub proof fn law_word_is_its_word(w: Seq<char>)
    requires
        is_word(w),
    ensures
        words(w) == seq![w],
{
    lemma_words_of_word(w);
}

/// White space parts a text: its words are those before and those behind.
pub proof fn law_words_split_at_white_space(a: Seq<char>, c: char, b: Seq<char>)
    requires
        white_space(c),
    ensures
        words(a.push(c) + b) == words(a) + words(b),
        words(Seq::<char>::empty()) == Seq::<Seq<char>>::empty(),
    decreases a.len(),
{
    let t = a.push(c) + b;
    let rest = strip_start(a, CharClass::Blank);
    let lead = leading(a, CharClass::Blank);
    lemma_leading(a, CharClass::Blank);
    if rest.len() == 0 {
        // Everything up to and with `c` is white space.
        lemma_leading(b, CharClass::Blank);
        let n = a.len() + 1 + leading(b, CharClass::Blank);
        assert forall|i: int| 0 <= i < n implies CharClass::Blank.has(#[trigger] t[i]) by {
            if i < a.len() {
                assert(t[i] == a[i]);
            } else if i > a.len() {
                assert(t[i] == b[i - a.len() - 1]);
            }
        }
        if n < t.len() {
            assert(t[n as int] == b[leading(b, CharClass::Blank) as int]);
        }
        lemma_leading_is(t, CharClass::Blank, n as nat);
        assert(strip_start(t, CharClass::Blank) =~= strip_start(b, CharClass::Blank));
        assert(words(t) =~= words(b));
        assert(words(a) =~= Seq::empty());
        assert(words(a) + words(b) =~= words(b));
    } else {
        let n = leading(rest, CharClass::Solid);
        lemma_leading(rest, CharClass::Solid);
        assert(rest[0] == a[lead as int]);
        let behind = rest.skip(n as int);
        assert forall|i: int| 0 <= i < lead implies CharClass::Blank.has(#[trigger] t[i]) by {
            assert(t[i] == a[i]);
        }
        assert(t[lead as int] == a[lead as int]);
        lemma_leading_is(t, CharClass::Blank, lead);
        let trest = strip_start(t, CharClass::Blank);
        assert(trest =~= rest.push(c) + b);
        assert forall|i: int| 0 <= i < n implies CharClass::Solid.has(#[trigger] trest[i]) by {
            assert(trest[i] == rest[i]);
        }
        if n < rest.len() {
            assert(trest[n as int] == rest[n as int]);
        } else {
            assert(trest[n as int] == c);
        }
        lemma_leading_is(trest, CharClass::Solid, n);
        assert(trest.take(n as int) =~= rest.take(n as int));
        assert(trest.skip(n as int) =~= behind.push(c) + b);
        law_words_split_at_white_space(behind, c, b);
        assert(words(t) =~= seq![rest.take(n as int)] + words(behind.push(c) + b));
        assert(words(a) =~= seq![rest.take(n as int)] + words(behind));
        assert(words(t) =~= words(a) + words(b));
    }
    assert(words(Seq::<char>::empty()) =~= Seq::<Seq<char>>::empty());
}

/// Joining puts one space between two parts, and nothing else.
pub proof fn law_joined_by_single_spaces(parts: Seq<Seq<char>>, last: Seq<char>)
    ensures
        joined(Seq::<Seq<char>>::empty()) == Seq::<char>::empty(),
        joined(seq![last]) == last,
        parts.len() > 0 ==> joined(parts.push(last)) == joined(parts) + seq![' '] + last,
{
    assert(parts.push(last).drop_last() =~= parts);
    if parts.len() > 0 {
        assert(joined(parts.push(last)) =~= joined(parts) + seq![' '] + last);
    }
}

/// Collapsing joins the words of a text by single spaces.
pub proof fn law_collapse_joins_words(s: Seq<char>)
    ensures
        collapse(s) == joined(words(s)),
{
}

/// The strings of a list hold these texts, in order.
pub proof fn law_views(list: Seq<String>, i: int)
    ensures
        views(list).len() == list.len(),
        0 <= i < list.len() ==> views(list)[i] == list[i]@,
{
}

/// Every `ё` is read as `е`, and every other character stands.
pub proof fn law_yo_is_read_as_ye(s: Seq<char>)
    ensures
        fold_yo(s).len() == s.len(),
        !fold_yo(s).contains('ё'),
        forall|i: int|
            0 <= i < s.len() ==> #[trigger] fold_yo(s)[i] == if s[i] == 'ё' {
                'е'
            } else {
                s[i]
            },
{
}

/// The number that a row of decimal digits denotes.
pub open spec fn number(s: Seq<char>) -> int
    decreases s.len(),
{
    if s.len() == 0 {
        0
    } else {
        10 * number(s.drop_last()) + (s.last() as int - '0' as int)
    }
}

/// A decimal number denotes the number, in digits only and without a leading
/// zero.
pub proof fn law_digits_denote_the_number(n: nat)
    ensures
        number(digits(n)) == n,
        digits(n).len() > 0,
        forall|i: int| 0 <= i < digits(n).len() ==> '0' <= #[trigger] digits(n)[i] <= '9',
        n > 0 ==> digits(n)[0] != '0',
    decreases n,
{
    let s = digits(n);
    if n < 10 {
        assert(s.drop_last() =~= Seq::empty());
        assert(number(s.drop_last()) == 0);
        assert(s.last() as int == 48 + n);
    } else {
        law_digits_denote_the_number(n / 10);
        assert(s.drop_last() =~= digits(n / 10));
        assert(s.last() as int == 48 + n % 10);
    }
}

} // verus!
