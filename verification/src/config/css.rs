//! The style sheets that a style sheet imports.
//!
//! The scan only picks the files to watch: the toolkit parses the sheets itself. It takes comments
//! out first and then looks for `@import` anywhere, so text within strings may be taken for an
//! import, and escapes are not understood.

use vstd::prelude::*;
use vstd::string::*;
use crate::text::{self, ascii_lower, ascii_lowered, chars_of, lowered, trim, trim_start, views};

verus! {

/// How many style sheets a scan reads at most.
pub const CSS_IMPORT_SCAN_LIMIT: usize = 256;

/// The longest import that is taken, in bytes.
pub const LONGEST_IMPORT: usize = 512;

/// Where `part` occurs first.
pub open spec fn first_run(s: Seq<char>, part: Seq<char>) -> Option<int>
    decreases s.len(),
{
    if part.is_prefix_of(s) {
        Some(0)
    } else if s.len() == 0 {
        None
    } else {
        match first_run(s.drop_first(), part) {
            Some(i) => Some(i + 1),
            None => None,
        }
    }
}

/// What is found lies within the text.
pub proof fn first_run_fits(s: Seq<char>, part: Seq<char>)
    ensures
        match first_run(s, part) {
            Some(i) => 0 <= i && i + part.len() <= s.len(),
            None => true,
        },
    decreases s.len(),
{
    if !part.is_prefix_of(s) && s.len() > 0 {
        first_run_fits(s.drop_first(), part);
    }
}

/// A style sheet without its comments, which do not nest. One that is not closed ends the sheet.
pub open spec fn without_comments(css: Seq<char>) -> Seq<char>
    decreases css.len(),
{
    proof {
        first_run_fits(css, seq!['/', '*']);
        first_run_fits(css.skip(first_run(css, seq!['/', '*'])->0 + 2), seq!['*', '/']);
    }
    match first_run(css, seq!['/', '*']) {
        None => css,
        Some(start) => {
            let rest = css.skip(start + 2);
            match first_run(rest, seq!['*', '/']) {
                None => css.take(start),
                Some(end) => css.take(start) + without_comments(rest.skip(end + 2)),
            }
        },
    }
}

/// The text up to the first of the characters `a` and `b`.
pub open spec fn up_to(s: Seq<char>, a: char, b: char) -> Seq<char>
    decreases s.len(),
{
    if s.len() == 0 || s[0] == a || s[0] == b {
        Seq::empty()
    } else {
        seq![s[0]] + up_to(s.drop_first(), a, b)
    }
}

/// Whether a character goes on a rule's name.
pub open spec fn name_char(c: char) -> bool {
    'a' <= c <= 'z' || 'A' <= c <= 'Z' || '0' <= c <= '9' || c == '_' || c == '-'
}

/// How many bytes a text takes in UTF-8.
pub open spec fn byte_len(s: Seq<char>) -> nat
    decreases s.len(),
{
    if s.len() == 0 {
        0
    } else {
        byte_len(s.drop_last()) + char_len(s.last())
    }
}

/// How many bytes a character takes in UTF-8.
pub open spec fn char_len(c: char) -> nat {
    if c <= '\u{7f}' {
        1
    } else if c <= '\u{7ff}' {
        2
    } else if c <= '\u{ffff}' {
        3
    } else {
        4
    }
}

/// The text behind `url(` in any case, or the whole text.
pub open spec fn inside_url(line: Seq<char>) -> Seq<char> {
    if line.len() >= 4 && ascii_lowered(line.take(4)) == seq!['u', 'r', 'l', '('] {
        trim_start(line.skip(4))
    } else {
        line
    }
}

/// The file that is imported by what follows `@import`: a quoted text, or what stands before a
/// bracket. Nothing for a longer rule name, for escapes, and for what is empty or too long.
pub open spec fn imported(rest: Seq<char>) -> Option<Seq<char>> {
    if rest.len() > 0 && name_char(rest[0]) {
        None
    } else {
        let line = inside_url(trim(up_to(rest, ';', ';')));
        let value = trim(
            if line.len() > 0 && (line[0] == '"' || line[0] == '\'') {
                up_to(line.skip(1), line[0], line[0])
            } else {
                up_to(line, ')', ';')
            },
        );
        if value.len() > 0 && !value.contains('\\') && byte_len(value) <= LONGEST_IMPORT {
            Some(value)
        } else {
            None
        }
    }
}

/// The word that begins an import.
pub open spec fn import_word() -> Seq<char> {
    seq!['@', 'i', 'm', 'p', 'o', 'r', 't']
}

/// Whether an import begins at a place of a text without comments.
pub open spec fn import_at(s: Seq<char>, i: int) -> bool {
    0 <= i && i + 7 <= s.len() && ascii_lowered(s.subrange(i, i + 7)) == import_word()
}

/// The files that are imported at the first `n` places of a text without comments.
pub open spec fn imports_before(s: Seq<char>, n: nat) -> Seq<Seq<char>>
    decreases n,
{
    if n == 0 {
        Seq::empty()
    } else {
        let i = n - 1;
        let before = imports_before(s, (n - 1) as nat);
        if import_at(s, i) && imported(s.skip(i + 7)) is Some {
            before.push(imported(s.skip(i + 7))->0)
        } else {
            before
        }
    }
}

/// The files that a style sheet imports, as they are written there.
pub open spec fn imports(css: Seq<char>) -> Seq<Seq<char>> {
    let s = without_comments(css);
    imports_before(s, s.len())
}

fn find_run(chars: &Vec<char>, from: usize, a: char, b: char) -> (at: Option<usize>)
    requires
        from <= chars@.len(),
    ensures
        match at {
            Some(i) => from <= i && i + 2 <= chars@.len() && first_run(chars@.skip(from as int), seq![a, b]) == Some(
                i - from,
            ),
            None => first_run(chars@.skip(from as int), seq![a, b]) is None,
        },
{
    let ghost rest = chars@.skip(from as int);
    let mut i: usize = from;
    proof {
        assert(rest.skip(0) =~= rest);
    }
    while i < chars.len()
        invariant
            from <= i <= chars@.len(),
            rest == chars@.skip(from as int),
            first_run(rest, seq![a, b]) == (match first_run(rest.skip(i - from), seq![a, b]) {
                Some(k) => Some(k + (i - from)),
                None => None::<int>,
            }),
        decreases chars@.len() - i,
    {
        let ghost here = rest.skip(i - from);
        proof {
            assert(here.drop_first() =~= rest.skip(i + 1 - from));
            assert(here[0] == chars@[i as int]);
        }
        if i + 1 < chars.len() && chars[i] == a && chars[i + 1] == b {
            proof {
                assert(here[1] == chars@[i + 1]);
                assert(seq![a, b].is_prefix_of(here));
            }
            return Some(i);
        }
        proof {
            if seq![a, b].is_prefix_of(here) {
                assert(here[0] == seq![a, b][0]);
                assert(here[1] == seq![a, b][1]);
                assert(here[1] == chars@[i + 1]);
            }
        }
        i += 1;
    }
    proof {
        let here = rest.skip(i - from);
        assert(here.len() == 0);
        assert(!seq![a, b].is_prefix_of(here));
    }
    None
}

/// The style sheet without its comments.
pub fn strip_css_comments(css: &str) -> (stripped: String)
    ensures
        stripped@ == without_comments(css@),
{
    let chars = text::to_chars(css);
    let mut out = String::new();
    let mut at: usize = 0;
    proof {
        assert(css@.skip(0) =~= css@);
        assert(out@ + without_comments(css@.skip(0)) =~= without_comments(css@));
    }
    while at < chars.len()
        invariant
            at <= chars@.len(),
            chars@ == css@,
            out@ + without_comments(css@.skip(at as int)) == without_comments(css@),
        decreases chars@.len() - at,
    {
        let ghost rest = css@.skip(at as int);
        let ghost done = out@;
        match find_run(&chars, at, '/', '*') {
            None => {
                let tail = text::slice(&chars, at, chars.len());
                proof {
                    assert(css@.subrange(at as int, css@.len() as int) =~= rest);
                }
                return text::joined(out.as_str(), tail.as_str());
            }
            Some(start) => {
                let head = text::slice(&chars, at, start);
                out = text::joined(out.as_str(), head.as_str());
                proof {
                    assert(head@ =~= rest.take(start - at));
                    assert(rest.skip(start - at + 2) =~= css@.skip(start + 2));
                }
                match find_run(&chars, start + 2, '*', '/') {
                    None => {
                        return out;
                    }
                    Some(end) => {
                        proof {
                            let inner = rest.skip(start - at + 2);
                            assert(inner.skip(end - (start + 2) + 2) =~= css@.skip(end + 2));
                            assert(done + (head@ + without_comments(css@.skip(end + 2))) =~= out@ + without_comments(
                                css@.skip(end + 2),
                            ));
                        }
                        at = end + 2;
                    }
                }
            }
        }
    }
    proof {
        let rest = css@.skip(at as int);
        assert(rest =~= Seq::empty());
        assert(!seq!['/', '*'].is_prefix_of(rest));
        assert(without_comments(rest) =~= Seq::empty());
        assert(out@ + without_comments(rest) =~= out@);
    }
    out
}

/// The text from a place up to the first of the characters `a` and `b`.
pub(crate) fn head_up_to(chars: &Vec<char>, from: usize, a: char, b: char) -> (head: String)
    requires
        from <= chars@.len(),
    ensures
        head@ == up_to(chars@.skip(from as int), a, b),
{
    let ghost rest = chars@.skip(from as int);
    let mut i: usize = from;
    proof {
        assert(rest.skip(0) =~= rest);
        assert(chars@.subrange(from as int, from as int) + up_to(rest, a, b) =~= up_to(rest, a, b));
    }
    while i < chars.len() && chars[i] != a && chars[i] != b
        invariant
            from <= i <= chars@.len(),
            rest == chars@.skip(from as int),
            chars@.subrange(from as int, i as int) + up_to(rest.skip(i - from), a, b) == up_to(rest, a, b),
        decreases chars@.len() - i,
    {
        proof {
            let here = rest.skip(i - from);
            assert(here[0] == chars@[i as int]);
            assert(here.drop_first() =~= rest.skip(i + 1 - from));
            assert(chars@.subrange(from as int, i as int) + (seq![here[0]] + up_to(here.drop_first(), a, b))
                =~= chars@.subrange(from as int, i + 1) + up_to(here.drop_first(), a, b));
        }
        i += 1;
    }
    proof {
        let here = rest.skip(i - from);
        if i < chars.len() {
            assert(here[0] == chars@[i as int]);
        }
        assert(chars@.subrange(from as int, i as int) + up_to(here, a, b) =~= chars@.subrange(from as int, i as int));
    }
    text::slice(chars, from, i)
}

fn is_name_char(c: char) -> (yes: bool)
    ensures
        yes == name_char(c),
{
    ('a' <= c && c <= 'z') || ('A' <= c && c <= 'Z') || ('0' <= c && c <= '9') || c == '_' || c == '-'
}

/// Whether a text takes at most [`LONGEST_IMPORT`] bytes.
fn fits(chars: &Vec<char>) -> (yes: bool)
    ensures
        yes == (byte_len(chars@) <= LONGEST_IMPORT),
{
    let mut n: usize = 0;
    let mut i: usize = 0;
    proof {
        assert(chars@.take(0) =~= Seq::empty());
    }
    while i < chars.len()
        invariant
            i <= chars@.len(),
            n == byte_len(chars@.take(i as int)),
            n <= LONGEST_IMPORT,
        decreases chars@.len() - i,
    {
        let c = chars[i];
        proof {
            assert(chars@.take(i + 1).drop_last() =~= chars@.take(i as int));
        }
        let w: usize = if c <= '\u{7f}' {
            1
        } else if c <= '\u{7ff}' {
            2
        } else if c <= '\u{ffff}' {
            3
        } else {
            4
        };
        n = n + w;
        i += 1;
        if n > LONGEST_IMPORT {
            proof {
                lemma_byte_len_grows(chars@, i as int);
            }
            return false;
        }
    }
    proof {
        assert(chars@.take(i as int) =~= chars@);
    }
    true
}

proof fn lemma_byte_len_grows(s: Seq<char>, i: int)
    requires
        0 <= i <= s.len(),
    ensures
        byte_len(s.take(i)) <= byte_len(s),
    decreases s.len() - i,
{
    if i < s.len() {
        assert(s.take(i + 1).drop_last() =~= s.take(i));
        lemma_byte_len_grows(s, i + 1);
    } else {
        assert(s.take(i) =~= s);
    }
}

fn begins_url(chars: &Vec<char>) -> (yes: bool)
    ensures
        yes == (chars@.len() >= 4 && ascii_lowered(chars@.take(4)) == seq!['u', 'r', 'l', '(']),
{
    if chars.len() < 4 {
        return false;
    }
    let yes = lowered(chars[0]) == 'u' && lowered(chars[1]) == 'r' && lowered(chars[2]) == 'l' && lowered(chars[3])
        == '(';
    proof {
        let low = ascii_lowered(chars@.take(4));
        let word = seq!['u', 'r', 'l', '('];
        assert(low.len() == 4);
        assert(low[0] == ascii_lower(chars@[0]));
        assert(low[1] == ascii_lower(chars@[1]));
        assert(low[2] == ascii_lower(chars@[2]));
        assert(low[3] == ascii_lower(chars@[3]));
        if yes {
            assert(low =~= word);
        } else if low == word {
            assert(low[0] == word[0] && low[1] == word[1] && low[2] == word[2] && low[3] == word[3]);
        }
    }
    yes
}

fn import_value(chars: &Vec<char>, from: usize) -> (value: Option<String>)
    requires
        from <= chars@.len(),
    ensures
        chars_of(value) == imported(chars@.skip(from as int)),
{
    if from < chars.len() && is_name_char(chars[from]) {
        return None;
    }
    let line = text::trimmed(head_up_to(chars, from, ';', ';').as_str());
    let line_chars = text::to_chars(line.as_str());
    let inner = if begins_url(&line_chars) {
        let rest = text::slice(&line_chars, 4, line_chars.len());
        proof {
            assert(rest@ =~= line@.skip(4));
        }
        text::start_trimmed(rest.as_str())
    } else {
        line
    };
    let inner_chars = text::to_chars(inner.as_str());
    let raw = if inner_chars.len() > 0 && (inner_chars[0] == '"' || inner_chars[0] == '\'') {
        head_up_to(&inner_chars, 1, inner_chars[0], inner_chars[0])
    } else {
        proof {
            assert(inner_chars@.skip(0) =~= inner_chars@);
        }
        head_up_to(&inner_chars, 0, ')', ';')
    };
    let value = text::trimmed(raw.as_str());
    let value_chars = text::to_chars(value.as_str());
    if value_chars.len() > 0 && !text::has_char(&value_chars, '\\') && fits(&value_chars) {
        Some(value)
    } else {
        None
    }
}

fn is_import(chars: &Vec<char>, i: usize) -> (yes: bool)
    requires
        i < chars@.len(),
    ensures
        yes == import_at(chars@, i as int),
{
    if chars.len() - i < 7 {
        return false;
    }
    let yes = chars[i] == '@' && lowered(chars[i + 1]) == 'i' && lowered(chars[i + 2]) == 'm' && lowered(chars[i + 3])
        == 'p' && lowered(chars[i + 4]) == 'o' && lowered(chars[i + 5]) == 'r' && lowered(chars[i + 6]) == 't';
    proof {
        let low = ascii_lowered(chars@.subrange(i as int, i + 7));
        let word = import_word();
        assert forall|k: int| 0 <= k < 7 implies low[k] == ascii_lower(chars@[i + k]) by {}
        assert(low[0] == ascii_lower(chars@[i + 0]));
        if yes {
            assert(low =~= word);
        } else if low == word {
            assert(low[0] == word[0] && low[1] == word[1] && low[2] == word[2] && low[3] == word[3] && low[4]
                == word[4] && low[5] == word[5] && low[6] == word[6]);
        }
    }
    yes
}

/// The files that a style sheet imports, as they are written there.
pub fn css_import_values(css: &str) -> (values: Vec<String>)
    ensures
        views(values@) == imports(css@),
{
    let stripped = strip_css_comments(css);
    let chars = text::to_chars(stripped.as_str());
    let ghost s = chars@;
    let mut values: Vec<String> = Vec::new();
    let mut i: usize = 0;
    proof {
        assert(views(values@) =~= imports_before(s, 0));
    }
    while i < chars.len()
        invariant
            i <= chars@.len(),
            s == chars@,
            views(values@) == imports_before(s, i as nat),
        decreases chars@.len() - i,
    {
        let ghost before = views(values@);
        if is_import(&chars, i) {
            match import_value(&chars, i + 7) {
                Some(value) => {
                    let ghost added = value@;
                    values.push(value);
                    proof {
                        assert(views(values@) =~= before.push(added));
                    }
                }
                None => {}
            }
        }
        i += 1;
    }
    values
}

/// Whether a character may stand in the scheme of a URL, at its start or later.
pub open spec fn scheme_char(c: char, first: bool) -> bool {
    'a' <= c <= 'z' || 'A' <= c <= 'Z' || (!first && ('0' <= c <= '9' || c == '+' || c == '-' || c == '.'))
}

/// Whether a text is the scheme of a URL.
pub open spec fn scheme(s: Seq<char>) -> bool {
    s.len() > 0 && forall|i: int| 0 <= i < s.len() ==> scheme_char(#[trigger] s[i], i == 0)
}

/// The path of an import that is a file: neither empty nor a fragment, nor a URL with a host or a
/// scheme.
pub open spec fn local_path(value: Seq<char>) -> Option<Seq<char>> {
    let v = trim(value);
    let head = up_to(v, ':', ':');
    if v.len() == 0 || v[0] == '#' || (v.len() >= 2 && v[0] == '/' && v[1] == '/') {
        None
    } else if head.len() < v.len() && scheme(head) {
        None
    } else {
        Some(v)
    }
}

fn is_scheme(chars: &Vec<char>) -> (yes: bool)
    ensures
        yes == scheme(chars@),
{
    if chars.len() == 0 {
        return false;
    }
    let mut i: usize = 0;
    while i < chars.len()
        invariant
            i <= chars@.len(),
            forall|j: int| 0 <= j < i ==> scheme_char(#[trigger] chars@[j], j == 0),
        decreases chars@.len() - i,
    {
        let c = chars[i];
        let letter = ('a' <= c && c <= 'z') || ('A' <= c && c <= 'Z');
        let later = i > 0 && (('0' <= c && c <= '9') || c == '+' || c == '-' || c == '.');
        if !letter && !later {
            assert(!scheme_char(chars@[i as int], i == 0));
            return false;
        }
        i += 1;
    }
    true
}

/// The path of an import that is a file.
pub fn local_css_import_path(value: &str) -> (path: Option<String>)
    ensures
        chars_of(path) == local_path(value@),
{
    let v = text::trimmed(value);
    let chars = text::to_chars(v.as_str());
    if chars.len() == 0 || chars[0] == '#' || (chars.len() >= 2 && chars[0] == '/' && chars[1] == '/') {
        return None;
    }
    proof {
        assert(chars@.skip(0) =~= chars@);
    }
    let head = head_up_to(&chars, 0, ':', ':');
    let head_chars = text::to_chars(head.as_str());
    if head_chars.len() < chars.len() && is_scheme(&head_chars) {
        return None;
    }
    Some(v)
}

/// A text is taken up to the first of two characters: neither stands in what is taken, and what follows it,
/// if anything does, is one of them.
pub proof fn texts_are_taken_up_to_the_first(s: Seq<char>, a: char, b: char)
    ensures
        up_to(s, a, b).is_prefix_of(s),
        !up_to(s, a, b).contains(a),
        !up_to(s, a, b).contains(b),
        up_to(s, a, b).len() < s.len() ==> s[up_to(s, a, b).len() as int] == a || s[up_to(s, a, b).len() as int] == b,
    decreases s.len(),
{
    let head = up_to(s, a, b);
    if s.len() > 0 && s[0] != a && s[0] != b {
        let rest = s.drop_first();
        let tail = up_to(rest, a, b);
        texts_are_taken_up_to_the_first(rest, a, b);
        assert(head == seq![s[0]] + tail);
        assert forall|i: int| 0 <= i < head.len() implies head[i] == s[i] && head[i] != a && head[i] != b by {
            if i > 0 {
                assert(head[i] == tail[i - 1]);
                assert(tail[i - 1] == rest[i - 1]);
                assert(tail.contains(tail[i - 1]));
            }
        }
        assert(head =~= s.take(head.len() as int));
        if head.len() < s.len() {
            assert(rest[tail.len() as int] == s[head.len() as int]);
        }
    }
}

proof fn lemma_up_to(h: Seq<char>, rest: Seq<char>, a: char, b: char)
    requires
        !h.contains(a),
        !h.contains(b),
        rest.len() > 0 ==> rest[0] == a || rest[0] == b,
    ensures
        up_to(h + rest, a, b) == h,
    decreases h.len(),
{
    let s = h + rest;
    if h.len() > 0 {
        assert(h.contains(h[0]));
        assert(s.drop_first() =~= h.drop_first() + rest);
        assert forall|c: char| h.drop_first().contains(c) implies h.contains(c) by {
            let i = choose|i: int| 0 <= i < h.drop_first().len() && h.drop_first()[i] == c;
            assert(h[i + 1] == c);
        }
        lemma_up_to(h.drop_first(), rest, a, b);
        assert(up_to(s, a, b) =~= h);
    } else {
        assert(s =~= rest);
        assert(up_to(s, a, b) =~= h);
    }
}

/// What is found first occurs there, and nowhere before. What is not found occurs nowhere.
pub proof fn the_first_occurrence_is_found(s: Seq<char>, part: Seq<char>, k: int)
    requires
        0 <= k <= s.len(),
    ensures
        match first_run(s, part) {
            Some(i) => 0 <= i && i + part.len() <= s.len() && s.subrange(i, i + part.len()) == part && (k < i
                ==> !part.is_prefix_of(s.skip(k))),
            None => !part.is_prefix_of(s.skip(k)),
        },
    decreases s.len(),
{
    if part.is_prefix_of(s) {
        assert(s.subrange(0, part.len() as int) =~= part);
    } else {
        assert(s.skip(0) =~= s);
        if s.len() > 0 {
            let rest = s.drop_first();
            if k > 0 {
                the_first_occurrence_is_found(rest, part, k - 1);
                assert(rest.skip(k - 1) =~= s.skip(k));
            } else {
                the_first_occurrence_is_found(rest, part, 0);
            }
            if first_run(rest, part) is Some {
                let i = first_run(rest, part)->0;
                assert(s.subrange(i + 1, i + 1 + part.len()) =~= rest.subrange(i, i + part.len()));
            }
        } else {
            assert(s.skip(k) =~= s);
        }
    }
}

proof fn lemma_first_run(s: Seq<char>, part: Seq<char>, i: int)
    requires
        0 <= i <= s.len(),
        part.is_prefix_of(s.skip(i)),
        forall|k: int| 0 <= k < i ==> !part.is_prefix_of(#[trigger] s.skip(k)),
    ensures
        first_run(s, part) == Some(i),
    decreases s.len(),
{
    assert(s.skip(0) =~= s);
    if i > 0 {
        let rest = s.drop_first();
        assert(!part.is_prefix_of(s.skip(0)));
        assert forall|k: int| 0 <= k < i - 1 implies !part.is_prefix_of(#[trigger] rest.skip(k)) by {
            assert(rest.skip(k) =~= s.skip(k + 1));
        }
        assert(rest.skip(i - 1) =~= s.skip(i));
        lemma_first_run(rest, part, i - 1);
    }
}

/// A comment is taken out with its marks, and the rest is read as if nothing had been there. One that is not
/// closed ends the sheet. A sheet without a slash has no comments.
pub proof fn comments_are_taken_out(before: Seq<char>, comment: Seq<char>, rest: Seq<char>)
    requires
        !before.contains('/'),
        !comment.contains('*'),
    ensures
        without_comments(before) == before,
        without_comments(before + seq!['/', '*'] + comment) == before,
        without_comments(before + seq!['/', '*'] + comment + seq!['*', '/'] + rest) == before + without_comments(rest),
{
    let open = seq!['/', '*'];
    let close = seq!['*', '/'];
    assert forall|s: Seq<char>, k: int|
        0 <= k < before.len() && before.is_prefix_of(s) && s.len() >= before.len() implies !open.is_prefix_of(
        #[trigger] s.skip(k),
    ) by {
        assert(before[k] == s[k]);
        assert(before.contains(before[k]));
        assert(s.skip(k)[0] == s[k]);
        assert(open[0] == '/');
    }
    // No comment at all.
    assert(first_run(before, open) is None) by {
        the_first_occurrence_is_found(before, open, 0);
        if first_run(before, open) is Some {
            let i = first_run(before, open)->0;
            assert(before.subrange(i, i + 2)[0] == before[i]);
            assert(open[0] == '/');
            assert(before.contains(before[i]));
        }
    }
    // One that is not closed.
    let unclosed = before + open + comment;
    assert(before.is_prefix_of(unclosed));
    assert(unclosed.skip(before.len() as int) =~= open + comment);
    lemma_first_run(unclosed, open, before.len() as int);
    assert(unclosed.skip(before.len() as int + 2) =~= comment);
    assert(first_run(comment, close) is None) by {
        the_first_occurrence_is_found(comment, close, 0);
        if first_run(comment, close) is Some {
            let i = first_run(comment, close)->0;
            assert(comment.subrange(i, i + 2)[0] == comment[i]);
            assert(close[0] == '*');
            assert(comment.contains(comment[i]));
        }
    }
    assert(unclosed.take(before.len() as int) =~= before);
    // One that is closed.
    let closed = before + open + comment + close + rest;
    assert(before.is_prefix_of(closed));
    assert(closed.skip(before.len() as int) =~= open + comment + close + rest);
    assert(open.is_prefix_of(closed.skip(before.len() as int)));
    lemma_first_run(closed, open, before.len() as int);
    let inner = closed.skip(before.len() as int + 2);
    assert(inner =~= comment + close + rest);
    assert forall|k: int| 0 <= k < comment.len() implies !close.is_prefix_of(#[trigger] inner.skip(k)) by {
        assert(inner.skip(k)[0] == comment[k]);
        assert(close[0] == '*');
        assert(comment.contains(comment[k]));
    }
    assert(inner.skip(comment.len() as int) =~= close + rest);
    lemma_first_run(inner, close, comment.len() as int);
    assert(inner.skip(comment.len() as int + 2) =~= rest);
    assert(closed.take(before.len() as int) =~= before);
}

/// What is imported is not empty, holds no escape and takes no more than 512 bytes. Nothing is imported by a
/// rule whose name goes on behind the word.
pub proof fn imports_are_plain_and_short(rest: Seq<char>, c: char)
    ensures
        imported(rest) matches Some(value) ==> value.len() > 0 && !value.contains('\\') && byte_len(value) <= 512,
        'a' <= c <= 'z' || 'A' <= c <= 'Z' || '0' <= c <= '9' || c == '_' || c == '-' ==> imported(seq![c] + rest) is None,
{
    assert((seq![c] + rest)[0] == c);
}

proof fn lemma_no_space(s: Seq<char>)
    requires
        s.len() > 0,
        !text::white_space(s[0]),
        !text::white_space(s.last()),
    ensures
        trim(s) == s,
        trim_start(s) == s,
{
}

proof fn lemma_trim_space(s: Seq<char>)
    requires
        s.len() > 0,
        !text::white_space(s[0]),
        !text::white_space(s.last()),
    ensures
        trim(seq![' '] + s) == s,
{
    let t = seq![' '] + s;
    assert(t[0] == ' ');
    assert(t.drop_first() =~= s);
    assert(trim_start(t) == trim_start(s));
}

/// A file is imported by its name in quotes of either kind. What stands behind the quotes does not count.
pub proof fn quoted_files_are_imported(quote: char, value: Seq<char>, rest: Seq<char>)
    requires
        quote == '"' || quote == '\'',
        value.len() > 0,
        !value.contains(quote),
        !value.contains(';'),
        !value.contains('\\'),
        trim(value) == value,
        byte_len(value) <= 512,
    ensures
        imported(seq![' ', quote] + value + seq![quote, ';'] + rest) == Some(value),
{
    let line = seq![quote] + value + seq![quote];
    let whole = seq![' ', quote] + value + seq![quote, ';'] + rest;
    let head = seq![' '] + line;
    assert(whole =~= head + (seq![';'] + rest));
    assert(!head.contains(';')) by {
        if head.contains(';') {
            let i = choose|i: int| 0 <= i < head.len() && head[i] == ';';
            if 2 <= i < 2 + value.len() {
                assert(value[i - 2] == ';');
            }
        }
    }
    lemma_up_to(head, seq![';'] + rest, ';', ';');
    assert(whole[0] == ' ');
    assert(line[0] == quote && line.last() == quote);
    lemma_trim_space(line);
    let low = ascii_lowered(line.take(4));
    if line.len() >= 4 {
        assert(low[0] == ascii_lower(quote));
        assert(seq!['u', 'r', 'l', '('][0] == 'u');
    }
    assert(inside_url(line) == line);
    assert(line.skip(1) =~= value + seq![quote]);
    lemma_up_to(value, seq![quote], quote, quote);
}

/// A file is imported by its name in `url(...)` without quotes.
pub proof fn bare_urls_are_imported(value: Seq<char>, rest: Seq<char>)
    requires
        value.len() > 0,
        value[0] != '"' && value[0] != '\'',
        !value.contains(')'),
        !value.contains(';'),
        !value.contains('\\'),
        trim(value) == value,
        !text::white_space(value[0]),
        byte_len(value) <= 512,
    ensures
        imported(seq![' ', 'u', 'r', 'l', '('] + value + seq![')', ';'] + rest) == Some(value),
{
    let word = seq!['u', 'r', 'l', '('];
    let line = word + value + seq![')'];
    let whole = seq![' ', 'u', 'r', 'l', '('] + value + seq![')', ';'] + rest;
    let head = seq![' '] + line;
    assert(whole =~= head + (seq![';'] + rest));
    assert(!head.contains(';')) by {
        if head.contains(';') {
            let i = choose|i: int| 0 <= i < head.len() && head[i] == ';';
            if 5 <= i < 5 + value.len() {
                assert(value[i - 5] == ';');
            }
        }
    }
    lemma_up_to(head, seq![';'] + rest, ';', ';');
    assert(whole[0] == ' ');
    assert(line[0] == 'u' && line.last() == ')');
    lemma_trim_space(line);
    assert(line.take(4) =~= word);
    assert(ascii_lowered(line.take(4)) =~= word);
    let inner = value + seq![')'];
    assert(line.skip(4) =~= inner);
    assert(inner[0] == value[0]);
    assert(trim_start(inner) == inner);
    assert(inside_url(line) == inner);
    lemma_up_to(value, seq![')'], ')', ';');
}

/// A sheet imports exactly what stands behind an `@import` in any case, outside of comments.
pub proof fn imports_are_what_follows_the_word(css: Seq<char>, value: Seq<char>)
    ensures
        imports(css).contains(value) <==> exists|i: int|
            0 <= i && i + 7 <= without_comments(css).len() && #[trigger] says_import(without_comments(css), i) && imported(
                without_comments(css).skip(i + 7),
            ) == Some(value),
{
    let s = without_comments(css);
    lemma_imports(s, s.len(), value);
}

/// Whether the word stands at a place, its letters in any case.
pub open spec fn says_import(s: Seq<char>, i: int) -> bool {
    &&& s[i] == '@'
    &&& (s[i + 1] == 'i' || s[i + 1] == 'I') && (s[i + 2] == 'm' || s[i + 2] == 'M')
    &&& (s[i + 3] == 'p' || s[i + 3] == 'P') && (s[i + 4] == 'o' || s[i + 4] == 'O')
    &&& (s[i + 5] == 'r' || s[i + 5] == 'R') && (s[i + 6] == 't' || s[i + 6] == 'T')
}

proof fn lemma_word(s: Seq<char>, i: int)
    requires
        0 <= i,
        i + 7 <= s.len(),
    ensures
        import_at(s, i) <==> says_import(s, i),
{
    let part = s.subrange(i, i + 7);
    let low = ascii_lowered(part);
    assert forall|k: int| 0 <= k < 7 implies low[k] == ascii_lower(#[trigger] s[i + k]) by {
        assert(part[k] == s[i + k]);
    }
    assert(low[0] == ascii_lower(s[i + 0]));
    assert(low[1] == ascii_lower(s[i + 1]));
    assert(low[2] == ascii_lower(s[i + 2]));
    assert(low[3] == ascii_lower(s[i + 3]));
    assert(low[4] == ascii_lower(s[i + 4]));
    assert(low[5] == ascii_lower(s[i + 5]));
    assert(low[6] == ascii_lower(s[i + 6]));
    let word = import_word();
    if import_at(s, i) {
        assert(low[0] == word[0] && low[1] == word[1] && low[2] == word[2] && low[3] == word[3] && low[4] == word[4]
            && low[5] == word[5] && low[6] == word[6]);
    }
    if says_import(s, i) {
        assert(low =~= word);
    }
}

proof fn lemma_imports(s: Seq<char>, n: nat, value: Seq<char>)
    requires
        n <= s.len(),
    ensures
        imports_before(s, n).contains(value) <==> exists|i: int|
            0 <= i < n && i + 7 <= s.len() && #[trigger] says_import(s, i) && imported(s.skip(i + 7)) == Some(value),
    decreases n,
{
    if n > 0 {
        let i = n - 1;
        let before = imports_before(s, (n - 1) as nat);
        let after = imports_before(s, n);
        lemma_imports(s, (n - 1) as nat, value);
        if i + 7 <= s.len() {
            lemma_word(s, i);
        }
        if before.contains(value) {
            let k = choose|k: int| 0 <= k < before.len() && before[k] == value;
            assert(after[k] == value);
        }
        if after.len() > before.len() {
            assert(after[before.len() as int] == imported(s.skip(i + 7))->0);
        }
        if after.contains(value) && !before.contains(value) {
            let k = choose|k: int| 0 <= k < after.len() && after[k] == value;
            assert(k == before.len());
            assert(says_import(s, i));
        }
    }
}

/// An import names a file exactly if it is not blank, no fragment, has no host and no scheme: letters, digits
/// and some signs before a colon, the first of them a letter.
pub proof fn imports_without_host_and_scheme_are_files(value: Seq<char>)
    ensures
        ({
            let v = trim(value);
            let schemed = exists|k: int|
                0 < k < v.len() && #[trigger] v[k] == ':' && ('a' <= v[0] <= 'z' || 'A' <= v[0] <= 'Z') && forall|i: int|
                    0 <= i < k ==> 'a' <= #[trigger] v[i] <= 'z' || 'A' <= v[i] <= 'Z' || '0' <= v[i] <= '9' || v[i] == '+'
                        || v[i] == '-' || v[i] == '.';
            &&& local_path(value) is Some <==> v.len() > 0 && v[0] != '#' && !(v.len() >= 2 && v[0] == '/' && v[1] == '/')
                && !schemed
            &&& local_path(value) matches Some(path) ==> path == v
        }),
{
    let v = trim(value);
    let head = up_to(v, ':', ':');
    texts_are_taken_up_to_the_first(v, ':', ':');
    assert forall|i: int| 0 <= i < head.len() implies head[i] == v[i] by {
        assert(head =~= v.take(head.len() as int));
    }
    if exists|k: int|
        0 < k < v.len() && #[trigger] v[k] == ':' && ('a' <= v[0] <= 'z' || 'A' <= v[0] <= 'Z') && forall|i: int|
            0 <= i < k ==> 'a' <= #[trigger] v[i] <= 'z' || 'A' <= v[i] <= 'Z' || '0' <= v[i] <= '9' || v[i] == '+'
                || v[i] == '-' || v[i] == '.' {
        let k = choose|k: int|
            0 < k < v.len() && #[trigger] v[k] == ':' && ('a' <= v[0] <= 'z' || 'A' <= v[0] <= 'Z') && forall|i: int|
                0 <= i < k ==> 'a' <= #[trigger] v[i] <= 'z' || 'A' <= v[i] <= 'Z' || '0' <= v[i] <= '9' || v[i] == '+'
                    || v[i] == '-' || v[i] == '.';
        if head.len() > k {
            assert(head[k] == v[k]);
            assert(head.contains(head[k]));
        }
        if head.len() < k {
            assert(v[head.len() as int] == ':');
        }
        assert(head.len() == k);
        assert forall|i: int| 0 <= i < head.len() implies scheme_char(#[trigger] head[i], i == 0) by {
            assert(head[i] == v[i]);
        }
    }
    if head.len() < v.len() && scheme(head) {
        let k = head.len() as int;
        assert(v[k] == ':');
        assert(scheme_char(head[0], true));
        assert(head[0] == v[0]);
        assert forall|i: int| 0 <= i < k implies 'a' <= #[trigger] v[i] <= 'z' || 'A' <= v[i] <= 'Z' || '0' <= v[i] <= '9'
            || v[i] == '+' || v[i] == '-' || v[i] == '.' by {
            assert(scheme_char(head[i], i == 0));
            assert(head[i] == v[i]);
        }
    }
}

} // verus!
