//! Product names: the canonical spelling under which a product is compared and
//! totalled.

use crate::text::{
    char_is_alphanumeric, chars_of, is_space, is_space_char, join_words, lemma_run_len_bounds,
    lemma_run_len_is, non_spaces, run_len, squeeze, squeezed, str_to_lowercase,
    string_from_chars, trim, trimmed, unicode_alphanumeric, unicode_lowercase, words,
};
use vstd::prelude::*;

verus! {

/// The letters of the receipts' own language that a name keeps whatever else is
/// decided about letters.
pub open spec fn is_locale_letter(c: char) -> bool {
    c == 'ä' || c == 'ö' || c == 'ü' || c == 'ß' || c == 'Ä' || c == 'Ö' || c == 'Ü'
}

/// Whether a name keeps the character: letters and digits, white space, and the
/// locale's letters. Currency signs, asterisks and other punctuation go.
pub open spec fn is_name_char(c: char) -> bool {
    unicode_alphanumeric(c) || is_space(c) || is_locale_letter(c)
}

/// The class of characters that a name keeps.
pub open spec fn name_chars() -> spec_fn(char) -> bool {
    |c: char| is_name_char(c)
}

/// The canonical spelling of `raw`: trimmed, put in lower case, reduced to the
/// characters a name keeps, its words separated by single blanks.
pub open spec fn normalized(raw: Seq<char>) -> Seq<char> {
    squeezed(unicode_lowercase(trimmed(raw)).filter(name_chars()))
}

/// Whether every character of `s` belongs to `class`.
pub open spec fn all_in(s: Seq<char>, class: spec_fn(char) -> bool) -> bool {
    forall|i: int| 0 <= i < s.len() ==> class(#[trigger] s[i])
}

/// A word: at least one character, none of them white space.
pub open spec fn is_word(w: Seq<char>) -> bool {
    w.len() > 0 && all_in(w, non_spaces())
}

/// Whether a name keeps the character.
pub fn keeps_in_name(c: char) -> (r: bool)
    ensures
        r == is_name_char(c),
{
    char_is_alphanumeric(c) || is_space_char(c) || c == 'ä' || c == 'ö' || c == 'ü' || c == 'ß'
        || c == 'Ä' || c == 'Ö' || c == 'Ü'
}

/// The characters of `v` that a name keeps, in order.
pub fn keep_name_chars(v: &Vec<char>) -> (r: Vec<char>)
    ensures
        r@ == v@.filter(name_chars()),
{
    let n: usize = v.len();
    let mut out: Vec<char> = Vec::new();
    let mut i: usize = 0;
    while i < n
        invariant
            i <= n == v.len(),
            out@ == v@.take(i as int).filter(name_chars()),
        decreases n - i,
    {
        let c: char = v[i];
        proof {
            reveal(Seq::filter);
            assert(v@.take(i + 1).drop_last() =~= v@.take(i as int));
        }
        if keeps_in_name(c) {
            out.push(c);
        }
        i += 1;
    }
    proof {
        assert(v@.take(n as int) =~= v@);
    }
    out
}

/// Puts a raw product name in its canonical spelling: lower case, only
/// letters, digits and blanks, single blanks between words, none at the ends.
pub fn clean_product_name(name: &str) -> (r: String)
    ensures
        r@ == normalized(name@),
        all_in(r@, spelling_chars()),
{
    proof {
        lemma_normalized_characters(name@);
    }
    let raw = chars_of(name);
    let cut = trim(&raw);
    let cut_text = string_from_chars(&cut);
    let lower_text = str_to_lowercase(cut_text.as_str());
    let lower = chars_of(lower_text.as_str());
    let kept = keep_name_chars(&lower);
    let tidy = squeeze(&kept);
    string_from_chars(&tidy)
}

/// The words of a text are words, and belong to every class that all of the
/// text belongs to.
pub proof fn lemma_words_are_words(s: Seq<char>, class: spec_fn(char) -> bool)
    requires
        all_in(s, class),
    ensures
        forall|k: int|
            0 <= k < words(s).len() ==> is_word(#[trigger] words(s)[k]) && all_in(
                words(s)[k],
                class,
            ),
    decreases s.len(),
{
    if s.len() == 0 {
        // no words
    } else if is_space(s[0]) {
        let t = s.drop_first();
        lemma_words_are_words(t, class);
        assert(words(s) == words(t));
    } else {
        let n = run_len(s, non_spaces()) as int;
        lemma_run_len_bounds(s, non_spaces());
        let w = s.take(n);
        let t = s.skip(n);
        lemma_words_are_words(t, class);
        assert(words(s) == seq![w] + words(t));
    }
}

/// Joined words begin and end with a character of a word, and belong to every
/// class that holds the blank and all the words.
pub proof fn lemma_join_words_shape(ws: Seq<Seq<char>>, class: spec_fn(char) -> bool)
    requires
        forall|k: int| 0 <= k < ws.len() ==> is_word(#[trigger] ws[k]) && all_in(ws[k], class),
        class(' '),
    ensures
        all_in(join_words(ws), class),
        ws.len() == 0 ==> join_words(ws).len() == 0,
        ws.len() > 0 ==> join_words(ws).len() > 0 && !is_space(join_words(ws)[0]) && !is_space(
            join_words(ws).last(),
        ),
    decreases ws.len(),
{
    if ws.len() > 1 {
        let rest = ws.drop_first();
        lemma_join_words_shape(rest, class);
        assert(join_words(ws) == ws[0] + seq![' '] + join_words(rest));
    }
}

/// Words that are joined come apart again as they were.
pub proof fn lemma_words_of_joined(ws: Seq<Seq<char>>)
    requires
        forall|k: int| 0 <= k < ws.len() ==> is_word(#[trigger] ws[k]),
    ensures
        words(join_words(ws)) == ws,
    decreases ws.len(),
{
    if ws.len() > 0 {
        let w = ws[0];
        let y = join_words(ws);
        if ws.len() == 1 {
            lemma_run_len_is(y, non_spaces(), y.len() as int);
            assert(y.take(y.len() as int) =~= w);
            let after = y.skip(y.len() as int);
            assert(words(after) =~= Seq::<Seq<char>>::empty());
        } else {
            let rest = ws.drop_first();
            let tail = join_words(rest);
            lemma_words_of_joined(rest);
            lemma_run_len_is(y, non_spaces(), w.len() as int);
            assert(y.take(w.len() as int) =~= w);
            let after = y.skip(w.len() as int);
            assert(after.drop_first() =~= tail);
            assert(words(after) == words(tail));
        }
    }
}

/// Trimming changes nothing where no white space stands at either end.
pub proof fn lemma_trimmed_unchanged(s: Seq<char>)
    requires
        s.len() > 0 ==> !is_space(s[0]) && !is_space(s.last()),
    ensures
        trimmed(s) == s,
{
}

/// A filter changes nothing where every character belongs to the class.
pub proof fn lemma_filter_unchanged(s: Seq<char>, class: spec_fn(char) -> bool)
    requires
        all_in(s, class),
    ensures
        s.filter(class) == s,
    decreases s.len(),
{
    reveal(Seq::filter);
    if s.len() > 0 {
        let front = s.drop_last();
        lemma_filter_unchanged(front, class);
    }
}

/// What a canonical spelling is made of: the blank, and letters and digits that
/// are no white space.
pub open spec fn is_spelling_char(c: char) -> bool {
    c == ' ' || (!is_space(c) && (unicode_alphanumeric(c) || is_locale_letter(c)))
}

/// The class of characters that a canonical spelling is made of.
pub open spec fn spelling_chars() -> spec_fn(char) -> bool {
    |c: char| is_spelling_char(c)
}

/// No currency sign, asterisk or other punctuation is left in a canonical
/// spelling, and no white space but single blanks between words: every
/// character is a blank, or a letter or digit to Unicode, or one of the
/// locale's letters, and neither the first nor the last is a blank.
pub proof fn lemma_normalized_characters(raw: Seq<char>)
    ensures
        all_in(normalized(raw), spelling_chars()),
        normalized(raw).len() > 0 ==> !is_space(normalized(raw)[0]) && !is_space(
            normalized(raw).last(),
        ),
{
    let kept = unicode_lowercase(trimmed(raw)).filter(name_chars());
    let ws = words(kept);
    assert(all_in(kept, name_chars())) by {
        broadcast use vstd::seq_lib::group_filter_ensures;

    }
    lemma_words_are_words(kept, name_chars());
    assert forall|k: int| 0 <= k < ws.len() implies is_word(#[trigger] ws[k]) && all_in(
        ws[k],
        spelling_chars(),
    ) by {
        assert(is_word(ws[k]) && all_in(ws[k], name_chars()));
        assert forall|i: int| 0 <= i < ws[k].len() implies spelling_chars()(
            #[trigger] ws[k][i],
        ) by {
            assert(non_spaces()(ws[k][i]));
            assert(name_chars()(ws[k][i]));
        }
    }
    lemma_join_words_shape(ws, spelling_chars());
}

/// A canonical spelling that putting in lower case once more leaves as it is,
/// is its own canonical spelling: normalizing it again changes nothing.
///
/// The lower-case form of a text is taken from the standard library, which does
/// not say that a second application changes nothing; this is the one thing
/// asked of the input here. Trimming, dropping characters and joining words are
/// shown to change nothing the second time.
pub proof fn lemma_normalize_again_where_lowercase_is_stable(raw: Seq<char>)
    requires
        unicode_lowercase(normalized(raw)) == normalized(raw),
    ensures
        normalized(normalized(raw)) == normalized(raw),
{
    let kept = unicode_lowercase(trimmed(raw)).filter(name_chars());
    let ws = words(kept);
    let y = normalized(raw);
    lemma_words_are_words(kept, name_chars());
    lemma_join_words_shape(ws, name_chars());
    lemma_trimmed_unchanged(y);
    lemma_filter_unchanged(y, name_chars());
    lemma_words_of_joined(ws);
}

} // verus!
