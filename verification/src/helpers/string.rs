//! Letter-case helpers: kebab-case slugs for file names and title case for
//! display names, plus a thin regular-expression test.
use vstd::prelude::*;
use crate::helpers::vec_views;
use crate::text::{
    append_chars, ascii_lower, ascii_upper, char_to_uppercase, chars_of, is_ascii_alnum, is_ascii_char, is_ascii_text,
    is_white_space, is_whitespace, lowercase_of, slice_chars, string_of, to_lowercase, uppercase_of,
};

verus! {

// ---------------------------------------------------------------------------
// Words, filters and joins
// ---------------------------------------------------------------------------

/// Left-to-right scan that cuts `s` at separator characters: the finished runs
/// and the run still open at the end.
pub open spec fn runs_scan(s: Seq<char>, hyphens: bool) -> (Seq<Seq<char>>, Seq<char>)
    decreases s.len(),
{
    if s.len() == 0 {
        (seq![], seq![])
    } else {
        let (done, cur) = runs_scan(s.drop_last(), hyphens);
        if is_word_sep(hyphens, s.last()) {
            (if cur.len() > 0 { done.push(cur) } else { done }, seq![])
        } else {
            (done, cur.push(s.last()))
        }
    }
}

/// Word separators: white space, and also `-` when `hyphens` is set.
pub open spec fn is_word_sep(hyphens: bool, c: char) -> bool {
    is_white_space(c) || (hyphens && c == '-')
}

/// The maximal runs of non-separator characters of `s`, in order.
pub open spec fn words_by(s: Seq<char>, hyphens: bool) -> Seq<Seq<char>> {
    let (done, cur) = runs_scan(s, hyphens);
    if cur.len() > 0 {
        done.push(cur)
    } else {
        done
    }
}

/// The non-empty members of `ws`, in order.
pub open spec fn nonempty_only(ws: Seq<Seq<char>>) -> Seq<Seq<char>>
    decreases ws.len(),
{
    if ws.len() == 0 {
        seq![]
    } else if ws.last().len() > 0 {
        nonempty_only(ws.drop_last()).push(ws.last())
    } else {
        nonempty_only(ws.drop_last())
    }
}

/// The members of `ws` glued together with `sep` between neighbours.
pub open spec fn join_with(ws: Seq<Seq<char>>, sep: char) -> Seq<char>
    decreases ws.len(),
{
    if ws.len() == 0 {
        seq![]
    } else if ws.len() == 1 {
        ws[0]
    } else {
        join_with(ws.drop_last(), sep).push(sep) + ws.last()
    }
}

pub open spec fn string_views(ws: Seq<String>) -> Seq<Seq<char>> {
    ws.map_values(|w: String| w@)
}

/// Joins character vectors with `sep` between neighbours.
pub fn join_chars(ws: &Vec<Vec<char>>, sep: char) -> (r: Vec<char>)
    ensures
        r@ == join_with(vec_views(ws@), sep),
{
    let mut r: Vec<char> = Vec::new();
    let mut i: usize = 0;
    while i < ws.len()
        invariant
            i <= ws.len(),
            r@ == join_with(vec_views(ws@).take(i as int), sep),
        decreases ws.len() - i,
    {
        let ghost before = vec_views(ws@).take(i as int);
        let ghost after = vec_views(ws@).take(i + 1);
        assert(after.drop_last() =~= before);
        if i > 0 {
            r.push(sep);
        }
        append_chars(&mut r, &ws[i]);
        assert(after.last() == ws@[i as int]@);
        i += 1;
    }
    assert(vec_views(ws@).take(ws.len() as int) =~= vec_views(ws@));
    r
}

/// Scans `s` once and returns its words: the maximal runs of characters that
/// are not separators (white space, and also `-` when `hyphens` is set).
pub fn split_words(s: &Vec<char>, hyphens: bool) -> (ws: Vec<Vec<char>>)
    ensures
        vec_views(ws@) == words_by(s@, hyphens),
{
    let mut done: Vec<Vec<char>> = Vec::new();
    let mut cur: Vec<char> = Vec::new();
    let mut i: usize = 0;
    while i < s.len()
        invariant
            i <= s.len(),
            (vec_views(done@), cur@) == runs_scan(s@.take(i as int), hyphens),
        decreases s.len() - i,
    {
        let c = s[i];
        assert(s@.take(i + 1).drop_last() =~= s@.take(i as int));
        assert(s@.take(i + 1).last() == c);
        if is_whitespace(c) || (hyphens && c == '-') {
            if cur.len() > 0 {
                let ghost old_done = done@;
                done.push(cur);
                assert(vec_views(done@) =~= vec_views(old_done).push(cur@));
            }
            cur = Vec::new();
        } else {
            cur.push(c);
        }
        i += 1;
    }
    assert(s@.take(s.len() as int) =~= s@);
    if cur.len() > 0 {
        let ghost old_done = done@;
        done.push(cur);
        assert(vec_views(done@) =~= vec_views(old_done).push(cur@));
    }
    done
}

// ---------------------------------------------------------------------------
// Regular expressions
// ---------------------------------------------------------------------------

/// The pattern `\s+|-+`: a run of white space or a run of hyphens.
pub open spec fn separator_pattern() -> Seq<char> {
    seq!['\\', 's', '+', '|', '-', '+']
}

/// The pattern `[^A-Za-z0-9]+`: a run of characters outside `A-Z`, `a-z`, `0-9`.
pub open spec fn invalid_run_pattern() -> Seq<char> {
    seq!['[', '^', 'A', '-', 'Z', 'a', '-', 'z', '0', '-', '9', ']', '+']
}

/// Drops the leading characters of `s` that are outside `A-Za-z0-9`.
pub open spec fn drop_invalid_prefix(s: Seq<char>) -> Seq<char>
    decreases s.len(),
{
    if s.len() > 0 && !is_ascii_alnum(s[0]) {
        drop_invalid_prefix(s.drop_first())
    } else {
        s
    }
}

/// `s` without its first (leftmost) maximal run of characters outside
/// `A-Za-z0-9`; `s` itself when there is none.
pub open spec fn remove_first_invalid_run(s: Seq<char>) -> Seq<char>
    decreases s.len(),
{
    if s.len() == 0 {
        s
    } else if is_ascii_alnum(s[0]) {
        seq![s[0]] + remove_first_invalid_run(s.drop_first())
    } else {
        drop_invalid_prefix(s)
    }
}

/// `regex::Regex::new(pattern)` and `Regex::split(text)`, pieces collected as
/// character vectors. For the pattern `\s+|-+` the pieces are the text between
/// consecutive matches, each match being a maximal run of white space or of
/// hyphens; so the non-empty pieces are exactly the maximal runs of characters
/// that are neither white space nor `-`. Which empty pieces come along is left
/// unsaid.
#[verifier::external_body]
fn regex_split(pattern: &str, text: &Vec<char>) -> (pieces: Vec<Vec<char>>)
    requires
        pattern@ == separator_pattern(),
    ensures
        nonempty_only(vec_views(pieces@)) == words_by(text@, true),
{
    let text: String = text.iter().collect();
    regex::Regex::new(pattern).unwrap().split(&text).map(|p| p.chars().collect()).collect()
}

/// `regex::Regex::new(pattern)` and `Regex::replace(text, replacement)`, which
/// replaces the leftmost match only. For the pattern `[^A-Za-z0-9]+` and an
/// empty replacement this removes the first maximal run of characters outside
/// `A-Za-z0-9`.
#[verifier::external_body]
fn regex_replace_first(pattern: &str, text: &Vec<char>, replacement: &str) -> (r: Vec<char>)
    requires
        pattern@ == invalid_run_pattern(),
        replacement@ == Seq::<char>::empty(),
    ensures
        r@ == remove_first_invalid_run(text@),
{
    let text: String = text.iter().collect();
    regex::Regex::new(pattern).unwrap().replace(&text, replacement).chars().collect()
}

/// Whether `regex::Regex::new` accepts a pattern.
pub uninterp spec fn regex_compiles(pattern: Seq<char>) -> bool;

/// What `regex::Regex::is_match` answers for a (compiling) pattern and a text.
pub uninterp spec fn regex_finds_match(pattern: Seq<char>, text: Seq<char>) -> bool;

/// `regex::Regex::new(pattern).is_ok()`.
#[verifier::external_body]
fn regex_is_valid(pattern: &str) -> (r: bool)
    ensures
        r == regex_compiles(pattern@),
{
    regex::Regex::new(pattern).is_ok()
}

/// `regex::Regex::is_match(text)` on the regex compiled from `pattern`.
#[verifier::external_body]
fn regex_is_match(pattern: &str, text: &str) -> (r: bool)
    requires
        regex_compiles(pattern@),
    ensures
        r == regex_finds_match(pattern@, text@),
{
    regex::Regex::new(pattern).unwrap().is_match(text)
}

// ---------------------------------------------------------------------------
// Kebab case
// ---------------------------------------------------------------------------

/// The slug of one word: its first run of characters outside `A-Za-z0-9`
/// removed, then lower-cased (`A-Z` to `a-z` where what is left is ASCII).
pub open spec fn kebab_word(w: Seq<char>) -> Seq<char> {
    let r = remove_first_invalid_run(w);
    if is_ascii_text(r) {
        r.map_values(|c: char| ascii_lower(c))
    } else {
        lowercase_of(r)
    }
}

/// The slugs of the non-empty members of `ws`, in order.
pub open spec fn kebab_words(ws: Seq<Seq<char>>) -> Seq<Seq<char>>
    decreases ws.len(),
{
    if ws.len() == 0 {
        seq![]
    } else if ws.last().len() > 0 {
        kebab_words(ws.drop_last()).push(kebab_word(ws.last()))
    } else {
        kebab_words(ws.drop_last())
    }
}

/// The kebab case of `s`: its words (split at white space and hyphens)
/// turned into slugs, empty slugs dropped, joined with `-`.
pub open spec fn kebab_case_spec(s: Seq<char>) -> Seq<char> {
    join_with(nonempty_only(kebab_words(words_by(s, true))), '-')
}

proof fn lemma_kebab_words_skip_empty(ws: Seq<Seq<char>>)
    ensures
        kebab_words(nonempty_only(ws)) == kebab_words(ws),
    decreases ws.len(),
{
    if ws.len() > 0 {
        lemma_kebab_words_skip_empty(ws.drop_last());
        if ws.last().len() > 0 {
            let n = nonempty_only(ws.drop_last()).push(ws.last());
            assert(n.drop_last() =~= nonempty_only(ws.drop_last()));
        }
    }
}

/// A character that can stand inside a word of ASCII text split at white
/// space and hyphens.
pub open spec fn plain_char(c: char) -> bool {
    is_ascii_char(c) && !is_white_space(c) && c != '-'
}

/// Every character of `w` is plain.
pub open spec fn plain_word(w: Seq<char>) -> bool {
    forall|k: int| 0 <= k < w.len() ==> plain_char(#[trigger] w[k])
}

/// `kebab_word` on ASCII text, where lower-casing maps `A-Z` to `a-z`.
pub open spec fn ascii_kebab_word(w: Seq<char>) -> Seq<char> {
    remove_first_invalid_run(w).map_values(|c: char| ascii_lower(c))
}

/// `kebab_words` on ASCII text.
pub open spec fn ascii_kebab_words(ws: Seq<Seq<char>>) -> Seq<Seq<char>>
    decreases ws.len(),
{
    if ws.len() == 0 {
        seq![]
    } else if ws.last().len() > 0 {
        ascii_kebab_words(ws.drop_last()).push(ascii_kebab_word(ws.last()))
    } else {
        ascii_kebab_words(ws.drop_last())
    }
}

/// The kebab case of ASCII text, spelled out.
pub open spec fn ascii_kebab_case(s: Seq<char>) -> Seq<char> {
    join_with(nonempty_only(ascii_kebab_words(words_by(s, true))), '-')
}

/// A slug: no white space, no upper-case ASCII letter, and every `-` stands
/// between two other characters.
pub open spec fn is_slug(s: Seq<char>) -> bool {
    &&& forall|i: int|
        0 <= i < s.len() ==> !is_white_space(#[trigger] s[i]) && !('A' <= s[i] && s[i] <= 'Z')
    &&& s.len() > 0 ==> s[0] != '-' && s.last() != '-'
    &&& forall|i: int| 0 <= i < s.len() - 1 ==> !(#[trigger] s[i] == '-' && s[i + 1] == '-')
}

/// A part of a slug: non-empty, plain, without upper-case ASCII letters.
pub open spec fn slug_part(w: Seq<char>) -> bool {
    w.len() > 0 && plain_word(w) && forall|k: int|
        0 <= k < w.len() ==> !('A' <= #[trigger] w[k] && w[k] <= 'Z')
}

/// The characters of `w` are no separators, and ASCII when `ascii` is set.
spec fn sep_free(w: Seq<char>, hyphens: bool, ascii: bool) -> bool {
    forall|k: int|
        0 <= k < w.len() ==> !is_word_sep(hyphens, #[trigger] w[k]) && (ascii ==> is_ascii_char(w[k]))
}

proof fn lemma_scan_sep_free(s: Seq<char>, hyphens: bool)
    ensures
        forall|j: int|
            0 <= j < runs_scan(s, hyphens).0.len() ==> sep_free(
                #[trigger] runs_scan(s, hyphens).0[j],
                hyphens,
                is_ascii_text(s),
            ),
        sep_free(runs_scan(s, hyphens).1, hyphens, is_ascii_text(s)),
    decreases s.len(),
{
    if s.len() > 0 {
        let ascii = is_ascii_text(s);
        if ascii {
            assert forall|i: int| 0 <= i < s.drop_last().len() implies is_ascii_char(#[trigger] s.drop_last()[i]) by {
                assert(s.drop_last()[i] == s[i]);
            }
            assert(is_ascii_char(s[s.len() - 1]));
        }
        lemma_scan_sep_free(s.drop_last(), hyphens);
        let prev = runs_scan(s.drop_last(), hyphens);
        let now = runs_scan(s, hyphens);
        assert forall|j: int| 0 <= j < now.0.len() implies sep_free(#[trigger] now.0[j], hyphens, ascii) by {
            if j < prev.0.len() {
                assert(now.0[j] == prev.0[j]);
            } else {
                assert(now.0[j] == prev.1);
            }
        }
        if !is_word_sep(hyphens, s.last()) {
            assert forall|k: int| 0 <= k < now.1.len() implies !is_word_sep(hyphens, #[trigger] now.1[k]) && (
            ascii ==> is_ascii_char(now.1[k])) by {
                if k < prev.1.len() {
                    assert(now.1[k] == prev.1[k]);
                }
            }
        }
    }
}

/// The words of `s` hold no separators, and are ASCII where `s` is.
proof fn lemma_words_sep_free(s: Seq<char>, hyphens: bool)
    ensures
        forall|j: int|
            0 <= j < words_by(s, hyphens).len() ==> sep_free(
                #[trigger] words_by(s, hyphens)[j],
                hyphens,
                is_ascii_text(s),
            ),
{
    lemma_scan_sep_free(s, hyphens);
    let (done, cur) = runs_scan(s, hyphens);
    assert forall|j: int| 0 <= j < words_by(s, hyphens).len() implies sep_free(
        #[trigger] words_by(s, hyphens)[j],
        hyphens,
        is_ascii_text(s),
    ) by {
        if j < done.len() {
            assert(words_by(s, hyphens)[j] == done[j]);
        }
    }
}

/// The words of ASCII text split at white space and hyphens are plain.
proof fn lemma_words_plain(s: Seq<char>)
    requires
        is_ascii_text(s),
    ensures
        forall|j: int| 0 <= j < words_by(s, true).len() ==> plain_word(#[trigger] words_by(s, true)[j]),
{
    lemma_words_sep_free(s, true);
    assert forall|j: int| 0 <= j < words_by(s, true).len() implies plain_word(#[trigger] words_by(s, true)[j]) by {
        let w = words_by(s, true)[j];
        assert(sep_free(w, true, true));
        assert forall|k: int| 0 <= k < w.len() implies plain_char(#[trigger] w[k]) by {
            assert(!is_word_sep(true, w[k]));
        }
    }
}

/// The non-empty members of `ws` are among those `nonempty_only` keeps, so
/// what holds of all kept ones holds of them.
proof fn lemma_nonempty_members_plain(ws: Seq<Seq<char>>)
    requires
        forall|k: int| 0 <= k < nonempty_only(ws).len() ==> plain_word(#[trigger] nonempty_only(ws)[k]),
    ensures
        forall|j: int| 0 <= j < ws.len() && ws[j].len() > 0 ==> plain_word(#[trigger] ws[j]),
    decreases ws.len(),
{
    if ws.len() > 0 {
        let rest = ws.drop_last();
        let kept_rest = nonempty_only(rest);
        if ws.last().len() > 0 {
            assert forall|k: int| 0 <= k < kept_rest.len() implies plain_word(#[trigger] kept_rest[k]) by {
                assert(nonempty_only(ws)[k] == kept_rest[k]);
            }
            assert(nonempty_only(ws)[kept_rest.len() as int] == ws.last());
        } else {
            assert(nonempty_only(ws) == kept_rest);
        }
        lemma_nonempty_members_plain(rest);
        assert forall|j: int| 0 <= j < ws.len() && ws[j].len() > 0 implies plain_word(#[trigger] ws[j]) by {
            if j < rest.len() {
                assert(ws[j] == rest[j]);
            }
        }
    }
}

proof fn lemma_drop_invalid_prefix_plain(w: Seq<char>)
    requires
        plain_word(w),
    ensures
        plain_word(drop_invalid_prefix(w)),
    decreases w.len(),
{
    if w.len() > 0 && !is_ascii_alnum(w[0]) {
        assert forall|k: int| 0 <= k < w.drop_first().len() implies plain_char(#[trigger] w.drop_first()[k]) by {
            assert(w.drop_first()[k] == w[k + 1]);
        }
        lemma_drop_invalid_prefix_plain(w.drop_first());
    }
}

/// Removing a run keeps a plain word plain.
proof fn lemma_remove_run_plain(w: Seq<char>)
    requires
        plain_word(w),
    ensures
        plain_word(remove_first_invalid_run(w)),
    decreases w.len(),
{
    if w.len() > 0 {
        if is_ascii_alnum(w[0]) {
            assert forall|k: int| 0 <= k < w.drop_first().len() implies plain_char(#[trigger] w.drop_first()[k]) by {
                assert(w.drop_first()[k] == w[k + 1]);
            }
            lemma_remove_run_plain(w.drop_first());
            let r = seq![w[0]] + remove_first_invalid_run(w.drop_first());
            assert forall|k: int| 0 <= k < r.len() implies plain_char(#[trigger] r[k]) by {
                if k > 0 {
                    assert(r[k] == remove_first_invalid_run(w.drop_first())[k - 1]);
                }
            }
        } else {
            lemma_drop_invalid_prefix_plain(w);
        }
    }
}

/// ASCII lower-casing keeps a plain character plain and leaves no upper-case
/// letter.
proof fn lemma_ascii_lower_plain(c: char)
    requires
        plain_char(c),
    ensures
        plain_char(ascii_lower(c)),
        !('A' <= ascii_lower(c) && ascii_lower(c) <= 'Z'),
{
    if 'A' <= c && c <= 'Z' {
        assert(65 <= (c as u32) <= 90);
        let l = ((c as u32) + 32) as char;
        assert(97 <= (l as u32) <= 122);
        assert('a' <= l && l <= 'z');
    }
}

/// The slug words of plain words are parts of a slug, once empty ones are
/// dropped.
proof fn lemma_ascii_kebab_words_parts(ws: Seq<Seq<char>>)
    requires
        forall|j: int| 0 <= j < ws.len() && ws[j].len() > 0 ==> plain_word(#[trigger] ws[j]),
    ensures
        forall|k: int|
            0 <= k < nonempty_only(ascii_kebab_words(ws)).len() ==> slug_part(
                #[trigger] nonempty_only(ascii_kebab_words(ws))[k],
            ),
    decreases ws.len(),
{
    if ws.len() > 0 {
        let rest = ws.drop_last();
        assert forall|j: int| 0 <= j < rest.len() && rest[j].len() > 0 implies plain_word(#[trigger] rest[j]) by {
            assert(rest[j] == ws[j]);
        }
        lemma_ascii_kebab_words_parts(rest);
        let before = nonempty_only(ascii_kebab_words(rest));
        if ws.last().len() > 0 {
            let w = ws.last();
            assert(plain_word(w)) by {
                assert(ws[ws.len() - 1].len() > 0);
            }
            lemma_remove_run_plain(w);
            let kw = ascii_kebab_word(w);
            let r = remove_first_invalid_run(w);
            assert forall|k: int| 0 <= k < kw.len() implies plain_char(#[trigger] kw[k]) && !(
            'A' <= kw[k] && kw[k] <= 'Z') by {
                assert(kw[k] == ascii_lower(r[k]));
                lemma_ascii_lower_plain(r[k]);
            }
            assert(ascii_kebab_words(ws) == ascii_kebab_words(rest).push(kw));
            let now = nonempty_only(ascii_kebab_words(ws));
            assert(ascii_kebab_words(ws).drop_last() =~= ascii_kebab_words(rest));
            assert forall|k: int| 0 <= k < now.len() implies slug_part(#[trigger] now[k]) by {
                if k < before.len() {
                    assert(now[k] == before[k]);
                }
            }
        } else {
            assert(ascii_kebab_words(ws) == ascii_kebab_words(rest));
        }
    }
}

/// Parts of a slug joined with `-` make a slug.
proof fn lemma_join_slug(ws: Seq<Seq<char>>)
    requires
        forall|k: int| 0 <= k < ws.len() ==> slug_part(#[trigger] ws[k]),
    ensures
        is_slug(join_with(ws, '-')),
        ws.len() > 0 ==> join_with(ws, '-').len() > 0,
    decreases ws.len(),
{
    if ws.len() == 1 {
        assert(slug_part(ws[0]));
        let w = ws[0];
        assert forall|i: int| 0 <= i < w.len() - 1 implies !(#[trigger] w[i] == '-' && w[i + 1] == '-') by {
            assert(plain_char(w[i]));
        }
        assert(plain_char(w[0]));
        assert(plain_char(w[w.len() - 1]));
        assert forall|i: int| 0 <= i < w.len() implies !is_white_space(#[trigger] w[i]) && !('A' <= w[i] && w[i] <= 'Z') by {
            assert(plain_char(w[i]));
        }
    } else if ws.len() > 1 {
        let rest = ws.drop_last();
        assert forall|k: int| 0 <= k < rest.len() implies slug_part(#[trigger] rest[k]) by {
            assert(rest[k] == ws[k]);
        }
        lemma_join_slug(rest);
        let a = join_with(rest, '-');
        let w = ws.last();
        assert(slug_part(ws[ws.len() - 1]));
        let j = a.push('-') + w;
        assert(join_with(ws, '-') == j);
        assert(j.len() == a.len() + 1 + w.len());
        assert forall|i: int| 0 <= i < j.len() implies !is_white_space(#[trigger] j[i]) && !('A' <= j[i] && j[i] <= 'Z') by {
            if i < a.len() {
                assert(j[i] == a[i]);
            } else if i > a.len() {
                assert(j[i] == w[i - a.len() - 1]);
                assert(plain_char(w[i - a.len() - 1]));
            }
        }
        assert(j[0] == a[0]);
        assert(j.last() == w.last());
        assert(plain_char(w[w.len() - 1]));
        assert(plain_char(w[0]));
        assert forall|i: int| 0 <= i < j.len() - 1 implies !(#[trigger] j[i] == '-' && j[i + 1] == '-') by {
            if i < a.len() - 1 {
                assert(j[i] == a[i]);
                assert(j[i + 1] == a[i + 1]);
            } else if i == a.len() - 1 {
                assert(j[i] == a.last());
            } else if i == a.len() {
                assert(j[i + 1] == w[0]);
            } else {
                assert(j[i] == w[i - a.len() - 1]);
                assert(j[i + 1] == w[i - a.len()]);
                assert(plain_char(w[i - a.len() - 1]));
            }
        }
    }
}

/// The kebab case of ASCII text is a slug: no white space, no upper-case
/// letter, and its hyphens only stand between non-empty parts.
pub proof fn law_ascii_kebab_case_is_slug(s: Seq<char>)
    requires
        is_ascii_text(s),
    ensures
        is_slug(ascii_kebab_case(s)),
{
    lemma_words_plain(s);
    lemma_ascii_kebab_words_parts(words_by(s, true));
    lemma_join_slug(nonempty_only(ascii_kebab_words(words_by(s, true))));
}

proof fn lemma_kebab_words_ascii(ws: Seq<Seq<char>>)
    requires
        forall|j: int| 0 <= j < ws.len() && ws[j].len() > 0 ==> plain_word(#[trigger] ws[j]),
    ensures
        kebab_words(ws) == ascii_kebab_words(ws),
    decreases ws.len(),
{
    if ws.len() > 0 {
        let rest = ws.drop_last();
        assert forall|j: int| 0 <= j < rest.len() && rest[j].len() > 0 implies plain_word(#[trigger] rest[j]) by {
            assert(rest[j] == ws[j]);
        }
        lemma_kebab_words_ascii(rest);
        if ws.last().len() > 0 {
            let w = ws.last();
            assert(plain_word(ws[ws.len() - 1]));
            lemma_remove_run_plain(w);
            let r = remove_first_invalid_run(w);
            assert(is_ascii_text(r)) by {
                assert forall|k: int| 0 <= k < r.len() implies is_ascii_char(#[trigger] r[k]) by {
                    assert(plain_char(r[k]));
                }
            }
            assert(kebab_word(w) == ascii_kebab_word(w));
        }
    }
}

/// On ASCII text the kebab case is the spelled-out ASCII kebab case.
pub proof fn lemma_kebab_case_spec_ascii(s: Seq<char>)
    requires
        is_ascii_text(s),
    ensures
        kebab_case_spec(s) == ascii_kebab_case(s),
        is_slug(kebab_case_spec(s)),
{
    lemma_words_plain(s);
    let ws = words_by(s, true);
    assert forall|j: int| 0 <= j < ws.len() && ws[j].len() > 0 implies plain_word(#[trigger] ws[j]) by {}
    lemma_kebab_words_ascii(ws);
    law_ascii_kebab_case_is_slug(s);
}

/// Joins the non-empty words with `-`.
pub fn join_kebab_words(words: &Vec<String>) -> (r: String)
    ensures
        r@ == join_with(nonempty_only(string_views(words@)), '-'),
{
    let mut kept: Vec<Vec<char>> = Vec::new();
    let mut i: usize = 0;
    while i < words.len()
        invariant
            i <= words.len(),
            vec_views(kept@) == nonempty_only(string_views(words@).take(i as int)),
        decreases words.len() - i,
    {
        let w = chars_of(words[i].as_str());
        let ghost t = string_views(words@).take(i + 1);
        assert(t.drop_last() =~= string_views(words@).take(i as int));
        assert(t.last() == w@);
        if w.len() > 0 {
            let ghost old_kept = kept@;
            kept.push(w);
            assert(vec_views(kept@) =~= vec_views(old_kept).push(t.last()));
        }
        i += 1;
    }
    assert(string_views(words@).take(words.len() as int) =~= string_views(words@));
    let joined = join_chars(&kept, '-');
    string_of(&joined)
}

proof fn lemma_ascii_kebab_words_skip_empty(ws: Seq<Seq<char>>)
    ensures
        ascii_kebab_words(nonempty_only(ws)) == ascii_kebab_words(ws),
    decreases ws.len(),
{
    if ws.len() > 0 {
        lemma_ascii_kebab_words_skip_empty(ws.drop_last());
        if ws.last().len() > 0 {
            let n = nonempty_only(ws.drop_last()).push(ws.last());
            assert(n.drop_last() =~= nonempty_only(ws.drop_last()));
        }
    }
}

/// Converts a string into kebab case: the words (split at white space and
/// hyphens) lose their first run of characters outside `A-Za-z0-9` and are
/// lower-cased; empty results are dropped and the rest joined with `-`.
/// On ASCII text the lower-casing is that of `A-Z`, so the result is
/// `ascii_kebab_case`, a slug.
pub fn kebab_case(string: &str) -> (r: String)
    ensures
        r@ == kebab_case_spec(string@),
        is_ascii_text(string@) ==> r@ == ascii_kebab_case(string@),
{
    let s = chars_of(string);
    let separators = "\\s+|-+";
    let invalid = "[^A-Za-z0-9]+";
    let empty = "";
    proof {
        reveal_strlit("\\s+|-+");
        reveal_strlit("[^A-Za-z0-9]+");
        reveal_strlit("");
        assert(separators@ =~= separator_pattern());
        assert(invalid@ =~= invalid_run_pattern());
        assert(empty@ =~= Seq::<char>::empty());
    }
    let pieces = regex_split(separators, &s);
    let ghost ascii = is_ascii_text(string@);
    proof {
        if ascii {
            lemma_words_plain(s@);
            lemma_nonempty_members_plain(vec_views(pieces@));
        }
    }
    let mut filtered: Vec<String> = Vec::new();
    let mut i: usize = 0;
    while i < pieces.len()
        invariant
            i <= pieces.len(),
            invalid@ == invalid_run_pattern(),
            empty@ == Seq::<char>::empty(),
            string_views(filtered@) == kebab_words(vec_views(pieces@).take(i as int)),
            ascii ==> forall|j: int|
                0 <= j < vec_views(pieces@).len() && vec_views(pieces@)[j].len() > 0 ==> plain_word(
                    #[trigger] vec_views(pieces@)[j],
                ),
            ascii ==> string_views(filtered@) == ascii_kebab_words(vec_views(pieces@).take(i as int)),
        decreases pieces.len() - i,
    {
        let ghost t = vec_views(pieces@).take(i + 1);
        assert(t.drop_last() =~= vec_views(pieces@).take(i as int));
        assert(t.last() == pieces@[i as int]@);
        if pieces[i].len() > 0 {
            let replaced = regex_replace_first(invalid, &pieces[i], empty);
            proof {
                if ascii {
                    assert(vec_views(pieces@)[i as int] == pieces@[i as int]@);
                    lemma_remove_run_plain(pieces@[i as int]@);
                    assert(is_ascii_text(replaced@)) by {
                        assert forall|k: int| 0 <= k < replaced@.len() implies is_ascii_char(#[trigger] replaced@[k]) by {
                            assert(plain_char(replaced@[k]));
                        }
                    }
                }
            }
            let lowered = to_lowercase(&replaced);
            let ghost old_f = filtered@;
            filtered.push(string_of(&lowered));
            assert(string_views(filtered@) =~= string_views(old_f).push(lowered@));
        }
        i += 1;
    }
    assert(vec_views(pieces@).take(pieces.len() as int) =~= vec_views(pieces@));
    proof {
        lemma_kebab_words_skip_empty(vec_views(pieces@));
        lemma_ascii_kebab_words_skip_empty(vec_views(pieces@));
    }
    join_kebab_words(&filtered)
}

// ---------------------------------------------------------------------------
// Title case
// ---------------------------------------------------------------------------

/// A non-empty word with its first character upper-cased and the rest
/// lower-cased.
pub open spec fn capitalized(w: Seq<char>) -> Seq<char> {
    uppercase_of(w[0]) + lowercase_of(w.drop_first())
}

/// Capitalizes the first character of the string and lower-cases the rest;
/// `None` for the empty string.
pub fn capitalize_string(string: &str) -> (r: Option<String>)
    ensures
        string@.len() == 0 ==> r is None,
        string@.len() > 0 ==> (r matches Some(c) && c@ == capitalized(string@)),
{
    let s = chars_of(string);
    if s.len() == 0 {
        return None;
    }
    let mut upper = char_to_uppercase(s[0]);
    let rest = slice_chars(&s, 1, s.len());
    assert(rest@ =~= string@.drop_first());
    let lower = to_lowercase(&rest);
    append_chars(&mut upper, &lower);
    Some(string_of(&upper))
}

/// The title case of `s`: its white-space separated words capitalized and
/// joined with single spaces.
pub open spec fn title_case_spec(s: Seq<char>) -> Seq<char> {
    join_with(words_by(s, false).map_values(|w: Seq<char>| capitalized(w)), ' ')
}

/// `capitalized` on ASCII text, where the case mappings are those of `A-Z`
/// and `a-z`.
pub open spec fn ascii_capitalized(w: Seq<char>) -> Seq<char> {
    seq![ascii_upper(w[0])] + w.drop_first().map_values(|c: char| ascii_lower(c))
}

/// The title case of ASCII text, spelled out.
pub open spec fn ascii_title_case(s: Seq<char>) -> Seq<char> {
    join_with(words_by(s, false).map_values(|w: Seq<char>| ascii_capitalized(w)), ' ')
}

/// Converts a string into title case: every white-space separated word gets
/// an upper-case first character and a lower-case remainder; words are joined
/// with single spaces. On ASCII text the case mappings are those of `A-Z` and
/// `a-z`, so the result is `ascii_title_case`.
pub fn title_case(string: &str) -> (r: String)
    ensures
        r@ == title_case_spec(string@),
        is_ascii_text(string@) ==> r@ == ascii_title_case(string@),
{
    let s = chars_of(string);
    let words = split_words(&s, false);
    let ghost ws = vec_views(words@);
    let ghost ascii = is_ascii_text(string@);
    proof {
        lemma_words_sep_free(s@, false);
    }
    let mut capitalized_words: Vec<Vec<char>> = Vec::new();
    let mut i: usize = 0;
    while i < words.len()
        invariant
            i <= words.len(),
            ws == vec_views(words@),
            ws == words_by(s@, false),
            s@ == string@,
            ascii == is_ascii_text(string@),
            forall|j: int| 0 <= j < ws.len() ==> sep_free(#[trigger] ws[j], false, is_ascii_text(s@)),
            vec_views(capitalized_words@) == ws.take(i as int).map_values(|w: Seq<char>| capitalized(w)),
            ascii ==> vec_views(capitalized_words@) == ws.take(i as int).map_values(
                |w: Seq<char>| ascii_capitalized(w),
            ),
        decreases words.len() - i,
    {
        proof { lemma_words_nonempty(s@, false, i as int); }
        let mut word = char_to_uppercase(words[i][0]);
        let rest = slice_chars(&words[i], 1, words[i].len());
        assert(rest@ =~= words@[i as int]@.drop_first());
        proof {
            if ascii {
                assert(sep_free(ws[i as int], false, true));
                assert(is_ascii_char(ws[i as int][0]));
                assert forall|k: int| 0 <= k < rest@.len() implies is_ascii_char(#[trigger] rest@[k]) by {
                    assert(rest@[k] == ws[i as int][k + 1]);
                }
            }
        }
        let lower = to_lowercase(&rest);
        append_chars(&mut word, &lower);
        let ghost old_c = capitalized_words@;
        assert(ws[i as int] == words@[i as int]@);
        assert(word@ == capitalized(ws[i as int]));
        proof {
            if ascii {
                assert(word@ =~= ascii_capitalized(ws[i as int]));
            }
        }
        let ghost wv = word@;
        capitalized_words.push(word);
        assert(vec_views(capitalized_words@) =~= vec_views(old_c).push(wv));
        assert(ws.take(i + 1).map_values(|w: Seq<char>| capitalized(w)) =~= ws.take(i as int).map_values(
            |w: Seq<char>| capitalized(w),
        ).push(capitalized(ws[i as int])));
        assert(ws.take(i + 1).map_values(|w: Seq<char>| ascii_capitalized(w)) =~= ws.take(
            i as int,
        ).map_values(|w: Seq<char>| ascii_capitalized(w)).push(ascii_capitalized(ws[i as int])));
        i += 1;
    }
    assert(ws.take(words.len() as int) =~= ws);
    let joined = join_chars(&capitalized_words, ' ');
    string_of(&joined)
}

/// A word fit to be joined with spaces: non-empty, without white space.
spec fn spaced_word(w: Seq<char>) -> bool {
    w.len() > 0 && forall|k: int| 0 <= k < w.len() ==> !is_white_space(#[trigger] w[k])
}

proof fn lemma_scan_append_plain(x: Seq<char>, w: Seq<char>)
    requires
        forall|k: int| 0 <= k < w.len() ==> !is_white_space(#[trigger] w[k]),
    ensures
        runs_scan(x + w, false) == (runs_scan(x, false).0, runs_scan(x, false).1 + w),
    decreases w.len(),
{
    if w.len() == 0 {
        assert(x + w =~= x);
        assert(runs_scan(x, false).1 + w =~= runs_scan(x, false).1);
    } else {
        let v = w.drop_last();
        lemma_scan_append_plain(x, v);
        assert((x + w).drop_last() =~= x + v);
        assert((x + w).last() == w.last());
        assert(!is_white_space(w[w.len() - 1]));
        assert(runs_scan(x, false).1 + w =~= (runs_scan(x, false).1 + v).push(w.last()));
    }
}

proof fn lemma_scan_joined(ws: Seq<Seq<char>>)
    requires
        ws.len() > 0,
        forall|i: int| 0 <= i < ws.len() ==> spaced_word(#[trigger] ws[i]),
    ensures
        runs_scan(join_with(ws, ' '), false) == (ws.drop_last(), ws.last()),
    decreases ws.len(),
{
    if ws.len() == 1 {
        assert(spaced_word(ws[0]));
        lemma_scan_append_plain(Seq::<char>::empty(), ws[0]);
        assert(Seq::<char>::empty() + ws[0] =~= ws[0]);
        assert(Seq::<char>::empty() + ws[0] =~= ws[0]);
        assert(ws.drop_last() =~= Seq::<Seq<char>>::empty());
    } else {
        let rest = ws.drop_last();
        assert forall|i: int| 0 <= i < rest.len() implies spaced_word(#[trigger] rest[i]) by {
            assert(rest[i] == ws[i]);
        }
        lemma_scan_joined(rest);
        let x = join_with(rest, ' ');
        assert(spaced_word(rest[rest.len() - 1]));
        assert(x.push(' ').drop_last() =~= x);
        assert(is_white_space(' '));
        assert(rest.drop_last().push(rest.last()) =~= rest);
        assert(runs_scan(x.push(' '), false) == (rest, Seq::<char>::empty()));
        assert(spaced_word(ws[ws.len() - 1]));
        lemma_scan_append_plain(x.push(' '), ws.last());
        assert(Seq::<char>::empty() + ws.last() =~= ws.last());
    }
}

/// Words without white space, joined with spaces, split back into the same
/// words.
proof fn lemma_words_of_joined(ws: Seq<Seq<char>>)
    requires
        forall|i: int| 0 <= i < ws.len() ==> spaced_word(#[trigger] ws[i]),
    ensures
        words_by(join_with(ws, ' '), false) == ws,
{
    if ws.len() == 0 {
        assert(runs_scan(Seq::<char>::empty(), false) == (
            Seq::<Seq<char>>::empty(),
            Seq::<char>::empty(),
        ));
    } else {
        lemma_scan_joined(ws);
        assert(spaced_word(ws[ws.len() - 1]));
        assert(ws.drop_last().push(ws.last()) =~= ws);
    }
}

proof fn lemma_ascii_case_chars(c: char)
    ensures
        ascii_upper(ascii_upper(c)) == ascii_upper(c),
        ascii_lower(ascii_lower(c)) == ascii_lower(c),
        !is_white_space(c) ==> !is_white_space(ascii_upper(c)) && !is_white_space(ascii_lower(c)),
{
    if 'a' <= c && c <= 'z' {
        let u = ((c as u32) - 32) as char;
        assert(65 <= (u as u32) <= 90);
    }
    if 'A' <= c && c <= 'Z' {
        let l = ((c as u32) + 32) as char;
        assert(97 <= (l as u32) <= 122);
    }
}

/// Title casing a title-cased text changes nothing (with the ASCII case
/// mappings, which are those `title_case` applies to ASCII text).
pub proof fn law_ascii_title_case_idempotent(s: Seq<char>)
    ensures
        ascii_title_case(ascii_title_case(s)) == ascii_title_case(s),
{
    let ws = words_by(s, false);
    let cs = ws.map_values(|w: Seq<char>| ascii_capitalized(w));
    lemma_words_sep_free(s, false);
    assert forall|i: int| 0 <= i < cs.len() implies spaced_word(#[trigger] cs[i]) by {
        lemma_words_nonempty(s, false, i);
        let w = ws[i];
        assert(sep_free(w, false, is_ascii_text(s)));
        let c = cs[i];
        assert(c == ascii_capitalized(w));
        assert forall|k: int| 0 <= k < c.len() implies !is_white_space(#[trigger] c[k]) by {
            if k == 0 {
                assert(!is_word_sep(false, w[0]));
                lemma_ascii_case_chars(w[0]);
            } else {
                assert(c[k] == ascii_lower(w[k]));
                assert(!is_word_sep(false, w[k]));
                lemma_ascii_case_chars(w[k]);
            }
        }
    }
    lemma_words_of_joined(cs);
    assert(words_by(ascii_title_case(s), false) == cs);
    assert forall|i: int| 0 <= i < cs.len() implies #[trigger] ascii_capitalized(cs[i]) == cs[i] by {
        lemma_words_nonempty(s, false, i);
        let w = ws[i];
        let c = cs[i];
        lemma_ascii_case_chars(w[0]);
        assert forall|k: int| 1 <= k < w.len() implies ascii_lower(ascii_lower(#[trigger] w[k])) == ascii_lower(w[k]) by {
            lemma_ascii_case_chars(w[k]);
        }
        assert(ascii_capitalized(c) =~= c);
    }
    assert(cs.map_values(|w: Seq<char>| ascii_capitalized(w)) =~= cs);
}

proof fn lemma_scan_nonempty(s: Seq<char>, hyphens: bool)
    ensures
        forall|i: int| 0 <= i < runs_scan(s, hyphens).0.len() ==> #[trigger] runs_scan(s, hyphens).0[i].len() > 0,
    decreases s.len(),
{
    if s.len() > 0 {
        lemma_scan_nonempty(s.drop_last(), hyphens);
        let prev = runs_scan(s.drop_last(), hyphens);
        let now = runs_scan(s, hyphens);
        assert forall|i: int| 0 <= i < now.0.len() implies #[trigger] now.0[i].len() > 0 by {
            if i < prev.0.len() {
                assert(now.0[i] == prev.0[i]);
            }
        }
    }
}

/// Words are never empty.
pub proof fn lemma_words_nonempty(s: Seq<char>, hyphens: bool, i: int)
    requires
        0 <= i < words_by(s, hyphens).len(),
    ensures
        words_by(s, hyphens)[i].len() > 0,
{
    lemma_scan_nonempty(s, hyphens);
}

// ---------------------------------------------------------------------------
// Regular-expression test
// ---------------------------------------------------------------------------

/// Whether `value` has a match of the regular expression `regex_str`; the
/// expression must compile.
pub fn regex_match(regex_str: &str, value: &str) -> (r: bool)
    requires
        regex_compiles(regex_str@),
    ensures
        r == regex_finds_match(regex_str@, value@),
{
    regex_is_match(regex_str, value)
}

/// Like `regex_match`, but answers `None` for an expression that does not
/// compile.
pub fn try_regex_match(regex_str: &str, value: &str) -> (r: Option<bool>)
    ensures
        r is None <==> !regex_compiles(regex_str@),
        r matches Some(b) ==> b == regex_finds_match(regex_str@, value@),
{
    if regex_is_valid(regex_str) {
        Some(regex_match(regex_str, value))
    } else {
        None
    }
}

} // verus!
