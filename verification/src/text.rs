//! Characters and small text operations that the rest of the library is stated over.
//!
//! Text is modelled as `Seq<char>`. What Unicode says of a single character or of
//! letter case is taken from the standard library and only named here; everything
//! that has structure (runs, words, lines, occurrences) is defined and proved.

use vstd::prelude::*;

verus! {

/// What `char::is_whitespace` answers for `c`: whether Unicode gives it the
/// `White_Space` property.
pub uninterp spec fn unicode_whitespace(c: char) -> bool;

/// What `char::is_alphanumeric` answers for `c`: whether Unicode classes it as
/// alphabetic or as a number.
pub uninterp spec fn unicode_alphanumeric(c: char) -> bool;

/// What `char::is_numeric` answers for `c`: whether Unicode puts it in one of the
/// number categories.
pub uninterp spec fn unicode_numeric(c: char) -> bool;

/// What `str::to_lowercase` returns for the text `s`.
pub uninterp spec fn unicode_lowercase(s: Seq<char>) -> Seq<char>;

/// Calls `char::is_whitespace`. Nothing is proved of it: the result is the named
/// Unicode property of `c`.
#[verifier::external_body]
pub(crate) fn char_is_whitespace(c: char) -> (r: bool)
    ensures
        r == unicode_whitespace(c),
{
    c.is_whitespace()
}

/// Calls `char::is_alphanumeric`. Nothing is proved of it: the result is the named
/// Unicode property of `c`.
#[verifier::external_body]
pub(crate) fn char_is_alphanumeric(c: char) -> (r: bool)
    ensures
        r == unicode_alphanumeric(c),
{
    c.is_alphanumeric()
}

/// Calls `char::is_numeric`. Nothing is proved of it: the result is the named
/// Unicode property of `c`.
#[verifier::external_body]
fn char_is_numeric(c: char) -> (r: bool)
    ensures
        r == unicode_numeric(c),
{
    c.is_numeric()
}

/// Calls `str::to_lowercase`. Nothing is proved of it: the result is the named
/// lower-case form of the whole text.
#[verifier::external_body]
pub(crate) fn str_to_lowercase(s: &str) -> (r: String)
    ensures
        r@ == unicode_lowercase(s@),
{
    s.to_lowercase()
}

/// Collects characters into a `String` with `Iterator::collect`. The contract
/// claims that the string holds exactly the characters of `v`, in order.
#[verifier::external_body]
pub(crate) fn string_from_chars(v: &Vec<char>) -> (r: String)
    ensures
        r@ == v@,
{
    v.iter().collect()
}

/// The characters of `s`, in order.
pub fn chars_of(s: &str) -> (r: Vec<char>)
    ensures
        r@ == s@,
{
    let mut out: Vec<char> = Vec::new();
    for c in it: s.chars()
        invariant
            out@ == it.seq().take(it.index()),
    {
        out.push(c);
    }
    out
}

/// A blank, or any other character that Unicode classes as white space.
pub open spec fn is_space(c: char) -> bool {
    c == ' ' || unicode_whitespace(c)
}

/// Whether `c` is white space.
pub fn is_space_char(c: char) -> (r: bool)
    ensures
        r == is_space(c),
{
    c == ' ' || char_is_whitespace(c)
}

/// A decimal digit of ASCII, or any other character that Unicode puts among
/// the numbers.
pub open spec fn is_numeral(c: char) -> bool {
    ('0' <= c <= '9') || unicode_numeric(c)
}

/// Whether `c` is a numeral.
pub fn is_numeral_char(c: char) -> (r: bool)
    ensures
        r == is_numeral(c),
{
    ('0' <= c && c <= '9') || char_is_numeric(c)
}

/// The class of characters that separate words.
pub open spec fn spaces() -> spec_fn(char) -> bool {
    |c: char| is_space(c)
}

/// The class of characters that words are made of.
pub open spec fn non_spaces() -> spec_fn(char) -> bool {
    |c: char| !is_space(c)
}

/// The class of characters that a line is made of.
pub open spec fn non_newlines() -> spec_fn(char) -> bool {
    |c: char| c != '\n'
}

/// Length of the longest prefix of `s` whose characters all belong to `class`.
pub open spec fn run_len(s: Seq<char>, class: spec_fn(char) -> bool) -> nat
    decreases s.len(),
{
    if s.len() > 0 && class(s[0]) {
        1 + run_len(s.drop_first(), class)
    } else {
        0
    }
}

/// Length of the longest suffix of `s` whose characters all belong to `class`.
pub open spec fn tail_run_len(s: Seq<char>, class: spec_fn(char) -> bool) -> nat
    decreases s.len(),
{
    if s.len() > 0 && class(s.last()) {
        1 + tail_run_len(s.drop_last(), class)
    } else {
        0
    }
}

/// A prefix run is determined by where the class first fails.
pub proof fn lemma_run_len_is(s: Seq<char>, class: spec_fn(char) -> bool, n: int)
    requires
        0 <= n <= s.len(),
        forall|i: int| 0 <= i < n ==> class(#[trigger] s[i]),
        n < s.len() ==> !class(s[n]),
    ensures
        run_len(s, class) == n,
    decreases n,
{
    if n > 0 {
        lemma_run_len_is(s.drop_first(), class, n - 1);
    }
}

/// A prefix run stays inside the text, covers only the class, and stops at the
/// first character outside it.
pub proof fn lemma_run_len_bounds(s: Seq<char>, class: spec_fn(char) -> bool)
    ensures
        run_len(s, class) <= s.len(),
        forall|i: int| 0 <= i < run_len(s, class) ==> class(#[trigger] s[i]),
        run_len(s, class) < s.len() ==> !class(s[run_len(s, class) as int]),
    decreases s.len(),
{
    if s.len() > 0 && class(s[0]) {
        let t = s.drop_first();
        lemma_run_len_bounds(t, class);
        assert forall|i: int| 0 <= i < run_len(s, class) implies class(#[trigger] s[i]) by {
            if i > 0 {
                assert(s[i] == t[i - 1]);
            }
        }
    }
}

/// A suffix run is determined by where the class last fails.
pub proof fn lemma_tail_run_len_is(s: Seq<char>, class: spec_fn(char) -> bool, n: int)
    requires
        0 <= n <= s.len(),
        forall|i: int| s.len() - n <= i < s.len() ==> class(#[trigger] s[i]),
        n < s.len() ==> !class(s[s.len() - n - 1]),
    ensures
        tail_run_len(s, class) == n,
    decreases n,
{
    if n > 0 {
        lemma_tail_run_len_is(s.drop_last(), class, n - 1);
    }
}

/// `s` without its leading white space.
pub open spec fn trim_start(s: Seq<char>) -> Seq<char> {
    s.skip(run_len(s, spaces()) as int)
}

/// `s` without its trailing white space.
pub open spec fn trim_end(s: Seq<char>) -> Seq<char> {
    s.take(s.len() - tail_run_len(s, spaces()))
}

/// `s` without leading and trailing white space.
pub open spec fn trimmed(s: Seq<char>) -> Seq<char> {
    trim_end(trim_start(s))
}

/// A copy of the characters of `v` from index `from` up to `to`.
pub fn copy_range(v: &Vec<char>, from: usize, to: usize) -> (r: Vec<char>)
    requires
        from <= to <= v.len(),
    ensures
        r@ == v@.subrange(from as int, to as int),
{
    let mut out: Vec<char> = Vec::new();
    let mut i: usize = from;
    while i < to
        invariant
            from <= i <= to <= v.len(),
            out@ == v@.subrange(from as int, i as int),
        decreases to - i,
    {
        out.push(v[i]);
        i += 1;
    }
    out
}

/// The text without leading and trailing white space.
pub fn trim(v: &Vec<char>) -> (r: Vec<char>)
    ensures
        r@ == trimmed(v@),
{
    let n: usize = v.len();
    let mut start: usize = 0;
    while start < n && is_space_char(v[start])
        invariant
            start <= n == v.len(),
            forall|i: int| 0 <= i < start ==> is_space(#[trigger] v@[i]),
        decreases n - start,
    {
        start += 1;
    }
    let mut end: usize = n;
    while end > start && is_space_char(v[end - 1])
        invariant
            start <= end <= n == v.len(),
            forall|i: int| end <= i < n ==> is_space(#[trigger] v@[i]),
        decreases end,
    {
        end -= 1;
    }
    proof {
        lemma_run_len_is(v@, spaces(), start as int);
        let t = v@.skip(start as int);
        lemma_tail_run_len_is(t, spaces(), n - end);
    }
    copy_range(v, start, end)
}

/// The words of `s`: its maximal runs of characters that are not white space, in
/// order.
pub open spec fn words(s: Seq<char>) -> Seq<Seq<char>>
    decreases s.len(),
{
    if s.len() == 0 {
        Seq::empty()
    } else if is_space(s[0]) {
        words(s.drop_first())
    } else {
        let n = run_len(s, non_spaces());
        proof {
            lemma_run_len_bounds(s, non_spaces());
        }
        seq![s.take(n as int)] + words(s.skip(n as int))
    }
}

/// The words `ws` written one after another with a single blank between
/// neighbours.
pub open spec fn join_words(ws: Seq<Seq<char>>) -> Seq<char>
    decreases ws.len(),
{
    if ws.len() == 0 {
        Seq::empty()
    } else if ws.len() == 1 {
        ws[0]
    } else {
        ws[0] + seq![' '] + join_words(ws.drop_first())
    }
}

/// `s` with every run of white space turned into one blank and none left at
/// either end.
pub open spec fn squeezed(s: Seq<char>) -> Seq<char> {
    join_words(words(s))
}

/// Joining one more word appends a blank and the word, or the word alone when it
/// is the first.
pub proof fn lemma_join_words_push(ws: Seq<Seq<char>>, w: Seq<char>)
    ensures
        join_words(ws.push(w)) == if ws.len() == 0 {
            w
        } else {
            join_words(ws) + seq![' '] + w
        },
    decreases ws.len(),
{
    if ws.len() > 0 {
        let rest = ws.drop_first();
        assert(ws.push(w).drop_first() =~= rest.push(w));
        lemma_join_words_push(rest, w);
    }
}

/// The text with every run of white space turned into one blank and none left
/// at either end.
pub fn squeeze(v: &Vec<char>) -> (r: Vec<char>)
    ensures
        r@ == squeezed(v@),
{
    let n: usize = v.len();
    let mut out: Vec<char> = Vec::new();
    let mut started: bool = false;
    let mut i: usize = 0;
    let ghost mut done: Seq<Seq<char>> = Seq::empty();
    proof {
        assert(v@.skip(0) =~= v@);
    }
    while i < n
        invariant
            i <= n == v.len(),
            words(v@) == done + words(v@.skip(i as int)),
            out@ == join_words(done),
            started == (done.len() > 0),
        decreases n - i,
    {
        if is_space_char(v[i]) {
            proof {
                assert(v@.skip(i as int).drop_first() =~= v@.skip(i + 1));
            }
            i += 1;
        } else {
            let mut j: usize = i + 1;
            while j < n && !is_space_char(v[j])
                invariant
                    i < j <= n == v.len(),
                    forall|k: int| i <= k < j ==> !is_space(#[trigger] v@[k]),
                decreases n - j,
            {
                j += 1;
            }
            proof {
                let t = v@.skip(i as int);
                lemma_run_len_is(t, non_spaces(), j - i);
                let w = t.take(j - i);
                assert(t.skip(j - i) =~= v@.skip(j as int));
                lemma_join_words_push(done, w);
                done = done.push(w);
            }
            if started {
                out.push(' ');
            }
            let ghost before = out@;
            let mut k: usize = i;
            while k < j
                invariant
                    i <= k <= j <= v.len(),
                    out@ == before + v@.subrange(i as int, k as int),
                decreases j - k,
            {
                out.push(v[k]);
                k += 1;
            }
            started = true;
            i = j;
        }
    }
    out
}

/// Whether `needle` stands in `hay` at offset `at`.
pub open spec fn occurs_at(hay: Seq<char>, needle: Seq<char>, at: int) -> bool {
    &&& 0 <= at
    &&& at + needle.len() <= hay.len()
    &&& hay.subrange(at, at + needle.len()) == needle
}

/// Whether `needle` stands somewhere in `hay`.
pub open spec fn has_substring(hay: Seq<char>, needle: Seq<char>) -> bool {
    exists|at: int| occurs_at(hay, needle, at)
}

/// Whether `needle` stands in the text at offset `at`.
pub fn matches_at(hay: &Vec<char>, needle: &Vec<char>, at: usize) -> (r: bool)
    requires
        at + needle.len() <= hay.len(),
    ensures
        r == occurs_at(hay@, needle@, at as int),
{
    let m: usize = needle.len();
    let mut k: usize = 0;
    while k < m
        invariant
            k <= m == needle.len(),
            at + m <= hay.len(),
            forall|i: int| 0 <= i < k ==> hay@[at + i] == #[trigger] needle@[i],
        decreases m - k,
    {
        if hay[at + k] != needle[k] {
            return false;
        }
        k += 1;
    }
    proof {
        assert(hay@.subrange(at as int, at + m) =~= needle@);
    }
    true
}

/// Whether the text begins with `needle`.
pub fn starts_with(hay: &Vec<char>, needle: &Vec<char>) -> (r: bool)
    ensures
        r == occurs_at(hay@, needle@, 0),
{
    if needle.len() > hay.len() {
        false
    } else {
        matches_at(hay, needle, 0)
    }
}

/// Whether `needle` stands somewhere in the text.
pub fn contains(hay: &Vec<char>, needle: &Vec<char>) -> (r: bool)
    ensures
        r == has_substring(hay@, needle@),
{
    let n: usize = hay.len();
    let m: usize = needle.len();
    if m == 0 {
        proof {
            assert(hay@.subrange(0, 0) =~= needle@);
            assert(occurs_at(hay@, needle@, 0));
        }
        return true;
    }
    if m > n {
        return false;
    }
    let last: usize = n - m;
    let mut at: usize = 0;
    while at <= last
        invariant
            at <= last + 1,
            last == n - m,
            0 < m <= n,
            n == hay.len(),
            m == needle.len(),
            forall|i: int| 0 <= i < at ==> !occurs_at(hay@, needle@, i),
        decreases last + 1 - at,
    {
        if matches_at(hay, needle, at) {
            return true;
        }
        at += 1;
    }
    false
}

/// `s` without one carriage return at its end, if it has one there.
pub open spec fn without_final_cr(s: Seq<char>) -> Seq<char> {
    if s.len() > 0 && s.last() == '\r' {
        s.drop_last()
    } else {
        s
    }
}

/// The lines of `s`. A line ends at a line feed; the line feed, and a carriage
/// return directly before it, are not part of the line. What follows the last
/// line feed is a line only if it is not empty.
pub open spec fn lines(s: Seq<char>) -> Seq<Seq<char>>
    decreases s.len(),
{
    if s.len() == 0 {
        Seq::empty()
    } else {
        let n = run_len(s, non_newlines());
        if n >= s.len() {
            seq![s]
        } else {
            seq![without_final_cr(s.take(n as int))] + lines(s.skip(n as int + 1))
        }
    }
}

/// What the rows of a table of characters hold.
pub open spec fn rows_view(rows: Seq<Vec<char>>) -> Seq<Seq<char>> {
    rows.map_values(|row: Vec<char>| row@)
}

/// The lines of the text, as `str::lines` separates them.
pub fn split_lines(v: &Vec<char>) -> (r: Vec<Vec<char>>)
    ensures
        rows_view(r@) == lines(v@),
{
    let n: usize = v.len();
    let mut out: Vec<Vec<char>> = Vec::new();
    let mut i: usize = 0;
    proof {
        assert(v@.skip(0) =~= v@);
    }
    while i < n
        invariant
            i <= n == v.len(),
            lines(v@) == rows_view(out@) + lines(v@.skip(i as int)),
        decreases n - i,
    {
        let mut j: usize = i;
        while j < n && v[j] != '\n'
            invariant
                i <= j <= n == v.len(),
                forall|k: int| i <= k < j ==> #[trigger] v@[k] != '\n',
            decreases n - j,
        {
            j += 1;
        }
        let ghost t = v@.skip(i as int);
        proof {
            lemma_run_len_is(t, non_newlines(), j - i);
            assert(t.take(j - i) =~= v@.subrange(i as int, j as int));
        }
        if j == n {
            let line = copy_range(v, i, j);
            out.push(line);
            i = n;
        } else {
            let end: usize = if j > i && v[j - 1] == '\r' {
                j - 1
            } else {
                j
            };
            let line = copy_range(v, i, end);
            proof {
                let full = v@.subrange(i as int, j as int);
                assert(without_final_cr(full) =~= line@);
                assert(t.skip(j - i + 1) =~= v@.skip(j + 1));
            }
            out.push(line);
            i = j + 1;
        }
    }
    out
}

/// Whether two texts are the same.
pub fn same_text(a: &str, b: &str) -> (r: bool)
    ensures
        r == (a@ == b@),
{
    let x = chars_of(a);
    let y = chars_of(b);
    if x.len() != y.len() {
        return false;
    }
    let mut i: usize = 0;
    while i < x.len()
        invariant
            i <= x.len() == y.len(),
            x@ == a@,
            y@ == b@,
            forall|j: int| 0 <= j < i ==> x@[j] == y@[j],
        decreases x.len() - i,
    {
        if x[i] != y[i] {
            return false;
        }
        i += 1;
    }
    proof {
        assert(x@ =~= y@);
    }
    true
}

} // verus!
