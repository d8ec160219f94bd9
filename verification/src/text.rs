//! Operations on strings, stated over sequences of characters.

use vstd::prelude::*;
use vstd::string::*;
use crate::order::{ranked_holds_the_same, stable_sort, Order, Ranked};

verus! {

/// The characters of an optional string.
pub open spec fn chars_of(s: Option<String>) -> Option<Seq<char>> {
    match s {
        Some(text) => Some(text@),
        None => None,
    }
}

/// The characters of each string of a sequence.
pub open spec fn views(list: Seq<String>) -> Seq<Seq<char>> {
    list.map_values(|s: String| s@)
}

/// The Unicode property `White_Space`.
pub open spec fn white_space(c: char) -> bool {
    ||| '\u{9}' <= c <= '\u{d}'
    ||| c == '\u{20}'
    ||| c == '\u{85}'
    ||| c == '\u{a0}'
    ||| c == '\u{1680}'
    ||| '\u{2000}' <= c <= '\u{200a}'
    ||| c == '\u{2028}'
    ||| c == '\u{2029}'
    ||| c == '\u{202f}'
    ||| c == '\u{205f}'
    ||| c == '\u{3000}'
}

/// `s` without its leading white space.
pub open spec fn trim_start(s: Seq<char>) -> Seq<char>
    decreases s.len(),
{
    if s.len() > 0 && white_space(s[0]) {
        trim_start(s.drop_first())
    } else {
        s
    }
}

/// `s` without its trailing white space.
pub open spec fn trim_end(s: Seq<char>) -> Seq<char>
    decreases s.len(),
{
    if s.len() > 0 && white_space(s.last()) {
        trim_end(s.drop_last())
    } else {
        s
    }
}

/// `s` without white space at either end.
pub open spec fn trim(s: Seq<char>) -> Seq<char> {
    trim_end(trim_start(s))
}

/// Whether `part` occurs in `s` as a contiguous run.
pub open spec fn has_run(s: Seq<char>, part: Seq<char>) -> bool {
    exists|i: int| 0 <= i && i + part.len() <= s.len() && #[trigger] s.subrange(i, i + part.len()) == part
}

/// Lexicographic order of the characters: whether `a` stands before `b`.
pub open spec fn chars_before(a: Seq<char>, b: Seq<char>) -> bool
    decreases a.len(),
{
    if b.len() == 0 {
        false
    } else if a.len() == 0 {
        true
    } else if a[0] != b[0] {
        a[0] < b[0]
    } else {
        chars_before(a.drop_first(), b.drop_first())
    }
}

/// No two texts each stand before the other.
pub proof fn chars_before_is_asymmetric(a: Seq<char>, b: Seq<char>)
    ensures
        !(chars_before(a, b) && chars_before(b, a)),
    decreases a.len(),
{
    if a.len() > 0 && b.len() > 0 && a[0] == b[0] {
        chars_before_is_asymmetric(a.drop_first(), b.drop_first());
    }
}

/// A text that stands before `c` stands before `b`, or `b` stands before `c`.
pub proof fn chars_before_is_weak(a: Seq<char>, b: Seq<char>, c: Seq<char>)
    ensures
        chars_before(a, c) ==> chars_before(a, b) || chars_before(b, c),
    decreases a.len(),
{
    if a.len() > 0 && b.len() > 0 && c.len() > 0 && a[0] == b[0] && b[0] == c[0] {
        chars_before_is_weak(a.drop_first(), b.drop_first(), c.drop_first());
    }
}

/// Of two different texts, one stands before the other.
pub proof fn chars_before_is_total(a: Seq<char>, b: Seq<char>)
    ensures
        a == b || chars_before(a, b) || chars_before(b, a),
    decreases a.len(),
{
    if a.len() > 0 && b.len() > 0 {
        if a[0] == b[0] {
            chars_before_is_total(a.drop_first(), b.drop_first());
            if a.drop_first() == b.drop_first() {
                assert(a =~= seq![a[0]] + a.drop_first());
                assert(b =~= seq![b[0]] + b.drop_first());
            }
        }
    } else if a.len() == 0 && b.len() == 0 {
        assert(a =~= b);
    }
}

/// Whether every text stands before those behind it.
pub open spec fn ascending(s: Seq<Seq<char>>) -> bool {
    forall|i: int, j: int| #![trigger s[i], s[j]] 0 <= i < j < s.len() ==> chars_before(s[i], s[j])
}

/// The texts of a set, each before those that it stands before.
pub open spec fn alphabetical(texts: Set<Seq<char>>) -> Seq<Seq<char>> {
    choose|s: Seq<Seq<char>>| ascending(s) && #[trigger] s.to_set() == texts
}

/// There is only one way to put texts in their order.
pub proof fn ascending_order_is_unique(a: Seq<Seq<char>>, b: Seq<Seq<char>>)
    requires
        ascending(a),
        ascending(b),
        a.to_set() == b.to_set(),
    ensures
        a == b,
    decreases a.len(),
{
    if a.len() == 0 {
        if b.len() > 0 {
            assert(b.to_set().contains(b[0]));
        }
        assert(a =~= b);
    } else {
        assert(a.to_set().contains(a[0]));
        assert(b.contains(a[0]));
        let j = choose|j: int| 0 <= j < b.len() && b[j] == a[0];
        assert(b.to_set().contains(b[0]));
        assert(a.contains(b[0]));
        let i = choose|i: int| 0 <= i < a.len() && a[i] == b[0];
        chars_before_is_asymmetric(a[0], b[0]);
        chars_before_is_asymmetric(a[0], a[0]);
        assert(a[0] == b[0]);
        let x = a.drop_first();
        let y = b.drop_first();
        assert forall|t: Seq<char>| x.to_set().contains(t) <==> y.to_set().contains(t) by {
            if x.contains(t) {
                let k = choose|k: int| 0 <= k < x.len() && x[k] == t;
                assert(chars_before(a[0], a[k + 1]));
                assert(a.to_set().contains(a[k + 1]));
                let l = choose|l: int| 0 <= l < b.len() && b[l] == t;
                assert(y[l - 1] == t);
            }
            if y.contains(t) {
                let k = choose|k: int| 0 <= k < y.len() && y[k] == t;
                assert(chars_before(b[0], b[k + 1]));
                assert(b.to_set().contains(b[k + 1]));
                let l = choose|l: int| 0 <= l < a.len() && a[l] == t;
                assert(x[l - 1] == t);
            }
        }
        assert(x.to_set() =~= y.to_set());
        assert(ascending(x)) by {
            assert forall|m: int, n: int|
                #![trigger x[m], x[n]]
                0 <= m < n < x.len() implies chars_before(x[m], x[n]) by {
                assert(chars_before(a[m + 1], a[n + 1]));
            }
        }
        assert(ascending(y)) by {
            assert forall|m: int, n: int|
                #![trigger y[m], y[n]]
                0 <= m < n < y.len() implies chars_before(y[m], y[n]) by {
                assert(chars_before(b[m + 1], b[n + 1]));
            }
        }
        ascending_order_is_unique(x, y);
        assert(a =~= seq![a[0]] + x);
        assert(b =~= seq![b[0]] + y);
    }
}

proof fn lemma_put_in(s: Seq<Seq<char>>, x: Seq<char>) -> (put: Seq<Seq<char>>)
    requires
        ascending(s),
        !s.contains(x),
    ensures
        ascending(put),
        forall|t: Seq<char>| #[trigger] put.contains(t) <==> s.contains(t) || t == x,
    decreases s.len(),
{
    if s.len() == 0 || chars_before(s.last(), x) {
        let put = s.push(x);
        assert forall|i: int, j: int|
            #![trigger put[i], put[j]]
            0 <= i < j < put.len() implies chars_before(put[i], put[j]) by {
            if j == s.len() && i < s.len() - 1 {
                assert(chars_before(s[i], s.last()));
                chars_before_is_weak(s[i], x, s.last());
                chars_before_is_asymmetric(s.last(), x);
            }
        }
        assert forall|t: Seq<char>| #[trigger] put.contains(t) <==> s.contains(t) || t == x by {
            assert(put[s.len() as int] == x);
            if s.contains(t) {
                let i = choose|i: int| 0 <= i < s.len() && s[i] == t;
                assert(put[i] == t);
            }
        }
        put
    } else {
        let head = s.drop_last();
        let last = s.last();
        chars_before_is_total(x, last);
        assert(s[s.len() - 1] == last);
        assert(ascending(head));
        let low = lemma_put_in(head, x);
        let put = low.push(last);
        assert forall|i: int, j: int|
            #![trigger put[i], put[j]]
            0 <= i < j < put.len() implies chars_before(put[i], put[j]) by {
            if j == low.len() {
                assert(low.contains(low[i]));
                if low[i] != x {
                    let k = choose|k: int| 0 <= k < head.len() && head[k] == low[i];
                    assert(chars_before(s[k], s[s.len() - 1]));
                }
            }
        }
        assert forall|t: Seq<char>| #[trigger] put.contains(t) <==> s.contains(t) || t == x by {
            assert(put[low.len() as int] == last);
            if s.contains(t) {
                let i = choose|i: int| 0 <= i < s.len() && s[i] == t;
                if i < head.len() {
                    assert(head[i] == t);
                    assert(low.contains(t));
                }
            }
            if low.contains(t) {
                let i = choose|i: int| 0 <= i < low.len() && low[i] == t;
                assert(put[i] == t);
                if t != x {
                    let k = choose|k: int| 0 <= k < head.len() && head[k] == t;
                    assert(s[k] == t);
                }
            } else if put.contains(t) {
                assert(t == last);
            }
        }
        put
    }
}

proof fn lemma_put_in_order(texts: Set<Seq<char>>) -> (s: Seq<Seq<char>>)
    requires
        texts.finite(),
    ensures
        ascending(s),
        s.to_set() == texts,
    decreases texts.len(),
{
    if texts.len() == 0 {
        let s = Seq::<Seq<char>>::empty();
        assert(s.to_set() =~= texts);
        s
    } else {
        let x = texts.choose();
        let rest = lemma_put_in_order(texts.remove(x));
        assert(!rest.contains(x)) by {
            assert(!rest.to_set().contains(x));
        }
        let s = lemma_put_in(rest, x);
        assert forall|t: Seq<char>| s.to_set().contains(t) <==> texts.contains(t) by {
            assert(s.contains(t) <==> rest.contains(t) || t == x);
            assert(rest.to_set().contains(t) <==> rest.contains(t));
        }
        assert(s.to_set() =~= texts);
        s
    }
}

/// The texts of a finite set can be put in their order.
pub proof fn alphabetical_holds_all(texts: Set<Seq<char>>)
    requires
        texts.finite(),
    ensures
        ascending(alphabetical(texts)),
        alphabetical(texts).to_set() == texts,
{
    let s = lemma_put_in_order(texts);
    assert(ascending(s) && s.to_set() == texts);
}

/// `char::is_whitespace`: whether the character has the Unicode property `White_Space`.
#[verifier::external_body]
fn char_is_whitespace(c: char) -> (yes: bool)
    ensures
        yes == white_space(c),
{
    c.is_whitespace()
}

/// `String::from_iter` over characters: the string made of exactly those characters in order.
#[verifier::external_body]
fn string_from_chars(chars: Vec<char>) -> (s: String)
    ensures
        s@ == chars@,
{
    String::from_iter(chars)
}

/// The characters of `s` as a vector.
pub fn to_chars(s: &str) -> (chars: Vec<char>)
    ensures
        chars@ == s@,
{
    let mut chars: Vec<char> = Vec::new();
    for c in iter: s.chars()
        invariant
            iter.seq() == s@,
            chars@ == s@.take(iter.index() as int),
    {
        chars.push(c);
    }
    chars
}

/// Whether two strings hold the same characters.
pub fn str_eq(a: &str, b: &str) -> (same: bool)
    ensures
        same == (a@ == b@),
{
    a.to_owned() == b.to_owned()
}

/// Whether two optional strings are both absent or hold the same characters.
pub fn opt_eq(a: &Option<String>, b: &Option<String>) -> (same: bool)
    ensures
        same == (chars_of(*a) == chars_of(*b)),
{
    match (a, b) {
        (Some(x), Some(y)) => *x == *y,
        (None, None) => true,
        _ => false,
    }
}

/// Whether `a` stands before `b` in the lexicographic order of their characters.
pub fn str_before(a: &str, b: &str) -> (before: bool)
    ensures
        before == chars_before(a@, b@),
{
    let x = to_chars(a);
    let y = to_chars(b);
    let mut i: usize = 0;
    proof {
        assert(a@.skip(0) =~= a@);
        assert(b@.skip(0) =~= b@);
    }
    while i < x.len() && i < y.len() && x[i] == y[i]
        invariant
            i <= x@.len(),
            i <= y@.len(),
            x@ == a@,
            y@ == b@,
            chars_before(a@, b@) == chars_before(a@.skip(i as int), b@.skip(i as int)),
        decreases x@.len() - i,
    {
        proof {
            assert(a@.skip(i as int).drop_first() =~= a@.skip(i + 1));
            assert(b@.skip(i as int).drop_first() =~= b@.skip(i + 1));
        }
        i += 1;
    }
    if i >= y.len() {
        false
    } else if i >= x.len() {
        true
    } else {
        x[i] < y[i]
    }
}

/// The text between `from` and `to`, counted in characters.
pub fn slice(chars: &Vec<char>, from: usize, to: usize) -> (s: String)
    requires
        from <= to <= chars@.len(),
    ensures
        s@ == chars@.subrange(from as int, to as int),
{
    let mut out: Vec<char> = Vec::new();
    let mut i: usize = from;
    while i < to
        invariant
            from <= i <= to <= chars@.len(),
            out@ == chars@.subrange(from as int, i as int),
        decreases to - i,
    {
        out.push(chars[i]);
        i += 1;
        proof {
            assert(chars@.subrange(from as int, i as int) =~= chars@.subrange(from as int, i - 1).push(chars@[i - 1]));
        }
    }
    string_from_chars(out)
}

/// `s` without white space at either end.
pub fn trimmed(s: &str) -> (t: String)
    ensures
        t@ == trim(s@),
{
    let chars = to_chars(s);
    let mut from: usize = 0;
    proof {
        assert(s@.skip(0) =~= s@);
    }
    while from < chars.len() && char_is_whitespace(chars[from])
        invariant
            from <= chars@.len(),
            chars@ == s@,
            trim_start(s@) == trim_start(s@.skip(from as int)),
        decreases chars@.len() - from,
    {
        proof {
            assert(s@.skip(from as int).drop_first() =~= s@.skip(from + 1));
        }
        from += 1;
    }
    let ghost rest = s@.skip(from as int);
    let mut to: usize = chars.len();
    proof {
        assert(rest =~= s@.subrange(from as int, to as int));
    }
    while from < to && char_is_whitespace(chars[to - 1])
        invariant
            from <= to <= chars@.len(),
            chars@ == s@,
            trim_end(rest) == trim_end(s@.subrange(from as int, to as int)),
        decreases to,
    {
        proof {
            assert(s@.subrange(from as int, to as int).drop_last() =~= s@.subrange(from as int, to - 1));
        }
        to -= 1;
    }
    slice(&chars, from, to)
}

/// Whether `s` begins with `prefix`.
pub fn has_prefix(s: &str, prefix: &str) -> (yes: bool)
    ensures
        yes == prefix@.is_prefix_of(s@),
{
    let x = to_chars(s);
    let p = to_chars(prefix);
    if p.len() > x.len() {
        return false;
    }
    let mut i: usize = 0;
    while i < p.len()
        invariant
            i <= p@.len() <= x@.len(),
            x@ == s@,
            p@ == prefix@,
            forall|j: int| 0 <= j < i ==> x@[j] == p@[j],
        decreases p@.len() - i,
    {
        if x[i] != p[i] {
            proof {
                assert(s@.subrange(0, prefix@.len() as int)[i as int] != prefix@[i as int]);
            }
            return false;
        }
        i += 1;
    }
    proof {
        assert(s@.subrange(0, prefix@.len() as int) =~= prefix@);
    }
    true
}

/// What follows `prefix` in `s`, if `s` begins with it.
pub fn after_prefix(s: &str, prefix: &str) -> (rest: Option<String>)
    ensures
        rest is Some <==> prefix@.is_prefix_of(s@),
        rest is Some ==> rest->0@ == s@.skip(prefix@.len() as int),
{
    if !has_prefix(s, prefix) {
        return None;
    }
    let x = to_chars(s);
    let from: usize = to_chars(prefix).len();
    let rest = slice(&x, from, x.len());
    proof {
        assert(rest@ =~= s@.skip(from as int));
    }
    Some(rest)
}

/// Whether `part` occurs in `s`.
pub fn contains_run(s: &str, part: &str) -> (yes: bool)
    ensures
        yes == has_run(s@, part@),
{
    let x = to_chars(s);
    let p = to_chars(part);
    if p.len() > x.len() {
        return false;
    }
    let mut i: usize = 0;
    while i <= x.len() - p.len()
        invariant
            p@.len() <= x@.len(),
            i <= x@.len() - p@.len() + 1,
            x@ == s@,
            p@ == part@,
            forall|k: int| 0 <= k < i ==> #[trigger] s@.subrange(k, k + part@.len()) != part@,
        decreases x@.len() + 1 - i,
    {
        let mut j: usize = 0;
        while j < p.len() && x[i + j] == p[j]
            invariant
                j <= p@.len(),
                i + p@.len() <= x.len(),
                x@ == s@,
                p@ == part@,
                forall|m: int| 0 <= m < j ==> x@[i + m] == p@[m],
            decreases p@.len() - j,
        {
            j += 1;
        }
        if j == p.len() {
            proof {
                assert(s@.subrange(i as int, i + part@.len()) =~= part@);
            }
            return true;
        }
        proof {
            assert(s@.subrange(i as int, i + part@.len())[j as int] != part@[j as int]);
        }
        i += 1;
    }
    false
}

/// Whether `list` holds a string with the characters of `wanted`.
pub fn list_contains(list: &Vec<String>, wanted: &str) -> (yes: bool)
    ensures
        yes == views(list@).contains(wanted@),
{
    let mut i: usize = 0;
    while i < list.len()
        invariant
            i <= list@.len(),
            forall|j: int| 0 <= j < i ==> list@[j]@ != wanted@,
        decreases list@.len() - i,
    {
        if str_eq(list[i].as_str(), wanted) {
            proof {
                assert(views(list@)[i as int] == wanted@);
            }
            return true;
        }
        i += 1;
    }
    proof {
        assert forall|j: int| 0 <= j < views(list@).len() implies views(list@)[j] != wanted@ by {
            assert(views(list@)[j] == list@[j]@);
        }
    }
    false
}

/// The character of a decimal digit.
pub open spec fn digit(d: int) -> char {
    if d == 0 {
        '0'
    } else if d == 1 {
        '1'
    } else if d == 2 {
        '2'
    } else if d == 3 {
        '3'
    } else if d == 4 {
        '4'
    } else if d == 5 {
        '5'
    } else if d == 6 {
        '6'
    } else if d == 7 {
        '7'
    } else if d == 8 {
        '8'
    } else {
        '9'
    }
}

/// The decimal digits of a number, without leading zeros.
pub open spec fn digits(n: nat) -> Seq<char>
    decreases n,
{
    if n < 10 {
        seq![digit(n as int)]
    } else {
        digits(n / 10).push(digit((n % 10) as int))
    }
}

fn digit_char(d: u64) -> (c: char)
    requires
        d < 10,
    ensures
        c == digit(d as int),
{
    if d == 0 {
        '0'
    } else if d == 1 {
        '1'
    } else if d == 2 {
        '2'
    } else if d == 3 {
        '3'
    } else if d == 4 {
        '4'
    } else if d == 5 {
        '5'
    } else if d == 6 {
        '6'
    } else if d == 7 {
        '7'
    } else if d == 8 {
        '8'
    } else {
        '9'
    }
}

fn push_digits(n: u64, out: &mut Vec<char>)
    ensures
        final(out)@ == old(out)@ + digits(n as nat),
    decreases n,
{
    if n >= 10 {
        push_digits(n / 10, out);
    }
    let ghost before = out@;
    out.push(digit_char(n % 10));
    proof {
        assert(out@ =~= old(out)@ + digits(n as nat));
    }
}

/// A number in decimal.
pub fn decimal(n: u64) -> (s: String)
    ensures
        s@ == digits(n as nat),
{
    let mut out: Vec<char> = Vec::new();
    push_digits(n, &mut out);
    proof {
        assert(out@ =~= digits(n as nat));
    }
    string_from_chars(out)
}

/// Whether every character is a decimal digit.
pub open spec fn all_digits(s: Seq<char>) -> bool {
    forall|i: int| 0 <= i < s.len() ==> '0' <= #[trigger] s[i] <= '9'
}

/// The number that digits stand for.
pub open spec fn digits_value(s: Seq<char>) -> int
    decreases s.len(),
{
    if s.len() == 0 {
        0
    } else {
        digits_value(s.drop_last()) * 10 + (s.last() as int - '0' as int)
    }
}

/// The number that a text tells: digits, which a plus sign may precede.
pub open spec fn numeral(s: Seq<char>) -> Option<int> {
    let t = if s.len() > 0 && s[0] == '+' {
        s.drop_first()
    } else {
        s
    };
    if t.len() > 0 && all_digits(t) {
        Some(digits_value(t))
    } else {
        None
    }
}

/// The number that a text tells, if it is at most `most`.
pub open spec fn numeral_up_to(s: Seq<char>, most: int) -> Option<int> {
    match numeral(s) {
        Some(n) => if n <= most {
            Some(n)
        } else {
            None
        },
        None => None,
    }
}

proof fn lemma_more_digits(s: Seq<char>, i: int)
    requires
        all_digits(s),
        0 <= i <= s.len(),
    ensures
        0 <= digits_value(s.take(i)) <= digits_value(s),
    decreases s.len(),
{
    if s.len() > 0 {
        let short = s.drop_last();
        assert(all_digits(short)) by {
            assert forall|k: int| 0 <= k < short.len() implies '0' <= #[trigger] short[k] <= '9' by {
                assert(short[k] == s[k]);
            }
        }
        assert('0' <= s[s.len() - 1] <= '9');
        if i == s.len() {
            assert(s.take(i) =~= s);
            lemma_more_digits(short, 0);
            assert(short.take(0).len() == 0);
        } else {
            lemma_more_digits(short, i);
            assert(short.take(i) =~= s.take(i));
        }
    } else {
        assert(s.take(i) =~= s);
    }
}

/// The number that a text tells, if it fits.
pub fn parse_u64(s: &str) -> (n: Option<u64>)
    ensures
        n is Some <==> numeral_up_to(s@, u64::MAX as int) is Some,
        n is Some ==> numeral_up_to(s@, u64::MAX as int) == Some(n->0 as int),
{
    let chars = to_chars(s);
    let from: usize = if chars.len() > 0 && chars[0] == '+' {
        1
    } else {
        0
    };
    let ghost t = chars@.skip(from as int);
    proof {
        if from == 1 {
            assert(t =~= s@.drop_first());
        } else {
            assert(t =~= s@);
        }
    }
    if from == chars.len() {
        return None;
    }
    let mut n: u64 = 0;
    let mut i: usize = from;
    proof {
        assert(t.take(0).len() == 0);
    }
    while i < chars.len()
        invariant
            from <= i <= chars@.len(),
            t == chars@.skip(from as int),
            from == 1 ==> chars@.len() > 0 && chars@[0] == '+',
            from <= 1,
            t == (if s@.len() > 0 && s@[0] == '+' {
                s@.drop_first()
            } else {
                s@
            }),
            t.len() > 0,
            forall|k: int| 0 <= k < i - from ==> '0' <= #[trigger] t[k] <= '9',
            n == digits_value(t.take(i - from)),
        decreases chars@.len() - i,
    {
        let c = chars[i];
        let ghost k = i - from;
        proof {
            assert(t[k] == c);
        }
        if !('0' <= c && c <= '9') {
            return None;
        }
        let d: u64 = (c as u32 - '0' as u32) as u64;
        proof {
            assert(t.take(k + 1).drop_last() =~= t.take(k));
            assert(t.take(k + 1).last() == c);
            assert(digits_value(t.take(k + 1)) == n * 10 + d);
            if n * 10 + d > u64::MAX && all_digits(t) {
                lemma_more_digits(t, k + 1);
            }
        }
        if n > u64::MAX / 10 || d > u64::MAX - n * 10 {
            return None;
        }
        n = n * 10 + d;
        i += 1;
    }
    proof {
        assert(t.take(i - from) =~= t);
    }
    Some(n)
}

/// The number that a text tells, if it fits.
pub fn parse_u32(s: &str) -> (n: Option<u32>)
    ensures
        n is Some <==> numeral_up_to(s@, u32::MAX as int) is Some,
        n is Some ==> numeral_up_to(s@, u32::MAX as int) == Some(n->0 as int),
{
    match parse_u64(s) {
        Some(n) => if n <= u32::MAX as u64 {
            Some(n as u32)
        } else {
            None
        },
        None => None,
    }
}

/// What is written as digits reads as the number it was.
pub proof fn numbers_read_back(n: nat)
    ensures
        all_digits(digits(n)),
        digits(n).len() > 0,
        digits_value(digits(n)) == n,
        numeral(digits(n)) == Some(n as int),
    decreases n,
{
    if n < 10 {
        let s = digits(n);
        assert(s.drop_last().len() == 0);
        assert(s.last() == digit(n as int));
        assert(digits_value(s.drop_last()) == 0);
    } else {
        numbers_read_back(n / 10);
        let s = digits(n);
        assert(s.drop_last() =~= digits(n / 10));
        assert(s.last() == digit((n % 10) as int));
        assert forall|i: int| 0 <= i < s.len() implies '0' <= #[trigger] s[i] <= '9' by {
            if i < s.len() - 1 {
                assert(s[i] == digits(n / 10)[i]);
            }
        }
    }
    assert('0' <= digits(n)[0] <= '9');
}

/// A number in decimal with at least two digits.
pub open spec fn two_digits(n: nat) -> Seq<char> {
    if n < 10 {
        seq!['0'] + digits(n)
    } else {
        digits(n)
    }
}

/// A number in decimal with at least two digits.
pub fn padded(n: u64) -> (s: String)
    ensures
        s@ == two_digits(n as nat),
{
    let mut out: Vec<char> = Vec::new();
    if n < 10 {
        out.push('0');
    }
    push_digits(n, &mut out);
    proof {
        assert(out@ =~= two_digits(n as nat));
    }
    string_from_chars(out)
}

/// The texts one after the other.
pub fn joined(a: &str, b: &str) -> (s: String)
    ensures
        s@ == a@ + b@,
{
    a.to_owned().concat(b)
}

/// Texts with a separator between them.
pub open spec fn separated(list: Seq<Seq<char>>, separator: Seq<char>) -> Seq<char>
    decreases list.len(),
{
    if list.len() == 0 {
        Seq::empty()
    } else if list.len() == 1 {
        list[0]
    } else {
        separated(list.drop_last(), separator) + separator + list.last()
    }
}

/// Texts with a separator between them.
pub fn join_texts(list: &Vec<String>, separator: &str) -> (s: String)
    ensures
        s@ == separated(views(list@), separator@),
{
    let ghost all = views(list@);
    let mut out = String::new();
    let mut i: usize = 0;
    proof {
        assert(all.take(0) =~= Seq::empty());
        assert(out@ =~= separated(all.take(0), separator@));
    }
    while i < list.len()
        invariant
            i <= list@.len(),
            all == views(list@),
            out@ == separated(all.take(i as int), separator@),
        decreases list@.len() - i,
    {
        proof {
            assert(all.take(i + 1).drop_last() =~= all.take(i as int));
            assert(all.take(i + 1).last() == list@[i as int]@);
        }
        if i == 0 {
            out = list[i].clone();
        } else {
            let start = joined(out.as_str(), separator);
            out = joined(start.as_str(), list[i].as_str());
        }
        i += 1;
    }
    proof {
        assert(all.take(i as int) =~= all);
    }
    out
}

/// `s` without white space at its start.
pub fn start_trimmed(s: &str) -> (t: String)
    ensures
        t@ == trim_start(s@),
{
    let chars = to_chars(s);
    let mut from: usize = 0;
    proof {
        assert(s@.skip(0) =~= s@);
    }
    while from < chars.len() && char_is_whitespace(chars[from])
        invariant
            from <= chars@.len(),
            chars@ == s@,
            trim_start(s@) == trim_start(s@.skip(from as int)),
        decreases chars@.len() - from,
    {
        proof {
            assert(s@.skip(from as int).drop_first() =~= s@.skip(from + 1));
        }
        from += 1;
    }
    proof {
        assert(s@.skip(from as int) =~= s@.subrange(from as int, s@.len() as int));
    }
    slice(&chars, from, chars.len())
}

/// Whether a character occurs.
pub fn has_char(chars: &Vec<char>, c: char) -> (yes: bool)
    ensures
        yes == chars@.contains(c),
{
    let mut i: usize = 0;
    while i < chars.len()
        invariant
            i <= chars@.len(),
            forall|j: int| 0 <= j < i ==> chars@[j] != c,
        decreases chars@.len() - i,
    {
        if chars[i] == c {
            return true;
        }
        i += 1;
    }
    false
}

/// Whether all characters are ASCII.
pub open spec fn ascii(s: Seq<char>) -> bool {
    forall|i: int| 0 <= i < s.len() ==> (#[trigger] s[i]) <= '\u{7f}'
}

/// An ASCII letter in lower case; other characters as they are.
pub open spec fn ascii_lower(c: char) -> char {
    if 'A' <= c <= 'Z' {
        (c as u32 + 32) as char
    } else {
        c
    }
}

/// A text with its ASCII letters in lower case.
pub open spec fn ascii_lowered(s: Seq<char>) -> Seq<char> {
    s.map_values(|c: char| ascii_lower(c))
}

/// An ASCII letter in lower case; other characters as they are.
pub fn lowered(c: char) -> (l: char)
    ensures
        l == ascii_lower(c),
{
    if 'A' <= c && c <= 'Z' {
        let code: u8 = c as u8;
        (code + 32) as char
    } else {
        c
    }
}

/// Whether two texts are the same but for the case of ASCII letters.
pub fn same_ignoring_case(a: &str, b: &str) -> (same: bool)
    ensures
        same == (ascii_lowered(a@) == ascii_lowered(b@)),
{
    let x = to_chars(a);
    let y = to_chars(b);
    let ghost low_x = ascii_lowered(a@);
    let ghost low_y = ascii_lowered(b@);
    proof {
        assert(low_x.len() == a@.len() && low_y.len() == b@.len());
    }
    if x.len() != y.len() {
        return false;
    }
    let mut i: usize = 0;
    while i < x.len()
        invariant
            i <= x@.len(),
            x@ == a@,
            y@ == b@,
            x@.len() == y@.len(),
            low_x == ascii_lowered(a@),
            low_y == ascii_lowered(b@),
            forall|j: int| 0 <= j < i ==> low_x[j] == low_y[j],
        decreases x@.len() - i,
    {
        if lowered(x[i]) != lowered(y[i]) {
            proof {
                assert(low_x[i as int] != low_y[i as int]);
            }
            return false;
        }
        i += 1;
    }
    proof {
        assert(low_x =~= low_y);
    }
    true
}

/// Whether two lists hold the same texts.
pub(crate) fn same_texts(a: &Vec<String>, b: &Vec<String>) -> (yes: bool)
    ensures
        yes == (views(a@) == views(b@)),
{
    if a.len() != b.len() {
        proof {
            assert(views(a@).len() != views(b@).len());
        }
        return false;
    }
    let mut i: usize = 0;
    while i < a.len()
        invariant
            i <= a@.len(),
            a@.len() == b@.len(),
            forall|j: int| 0 <= j < i ==> (#[trigger] a@[j])@ == b@[j]@,
        decreases a@.len() - i,
    {
        if a[i] != b[i] {
            proof {
                assert(views(a@)[i as int] != views(b@)[i as int]);
            }
            return false;
        }
        i += 1;
    }
    proof {
        assert(views(a@) =~= views(b@));
    }
    true
}

impl Order for String {
    open spec fn before(self, other: Self) -> bool {
        chars_before(self@, other@)
    }

    proof fn before_is_asymmetric(a: Self, b: Self) {
        chars_before_is_asymmetric(a@, b@);
    }

    proof fn before_is_weak(a: Self, b: Self, c: Self) {
        chars_before_is_weak(a@, b@, c@);
    }
}

impl Ranked for String {
    fn is_before(&self, other: &Self) -> (yes: bool) {
        str_before(self.as_str(), other.as_str())
    }
}

/// Puts texts in their order.
pub fn alphabetized(texts: Vec<String>) -> (sorted: Vec<String>)
    requires
        views(texts@).no_duplicates(),
    ensures
        views(sorted@) == alphabetical(views(texts@).to_set()),
        ascending(views(sorted@)),
        views(sorted@).to_set() == views(texts@).to_set(),
{
    let ghost input = texts@;
    let sorted = stable_sort(texts);
    proof {
        let before = views(input);
        let s = views(sorted@);
        assert(input.no_duplicates()) by {
            assert forall|i: int, j: int| 0 <= i < input.len() && 0 <= j < input.len() && i != j implies input[i]
                != input[j] by {
                assert(before[i] != before[j]);
            }
        }
        input.lemma_multiset_has_no_duplicates();
        sorted@.lemma_multiset_has_no_duplicates_conv();
        assert forall|i: int, j: int|
            #![trigger s[i], s[j]]
            0 <= i < j < s.len() implies chars_before(s[i], s[j]) by {
            ranked_holds_the_same(input, sorted@[i]);
            ranked_holds_the_same(input, sorted@[j]);
            assert(sorted@.contains(sorted@[i]) && sorted@.contains(sorted@[j]));
            let k = choose|k: int| 0 <= k < input.len() && input[k] == sorted@[i];
            let l = choose|l: int| 0 <= l < input.len() && input[l] == sorted@[j];
            assert(before[k] == s[i] && before[l] == s[j]);
            assert(!sorted@[j].before(sorted@[i]));
            chars_before_is_total(s[i], s[j]);
        }
        assert forall|t: Seq<char>| s.to_set().contains(t) <==> before.to_set().contains(t) by {
            if s.contains(t) {
                let i = choose|i: int| 0 <= i < s.len() && s[i] == t;
                ranked_holds_the_same(input, sorted@[i]);
                assert(sorted@.contains(sorted@[i]));
                let k = choose|k: int| 0 <= k < input.len() && input[k] == sorted@[i];
                assert(before[k] == t);
            }
            if before.contains(t) {
                let k = choose|k: int| 0 <= k < before.len() && before[k] == t;
                ranked_holds_the_same(input, input[k]);
                assert(input.contains(input[k]));
                let i = choose|i: int| 0 <= i < sorted@.len() && sorted@[i] == input[k];
                assert(s[i] == t);
            }
        }
        assert(s.to_set() =~= before.to_set());
        ascending_order_is_unique(s, alphabetical(before.to_set()));
    }
    sorted
}

/// What `{:?}` writes of a text: the text in quotes, with escapes.
pub uninterp spec fn quoted(s: Seq<char>) -> Seq<char>;

/// `format!` with `{:?}`: the text as the `Debug` of `str` writes it.
#[verifier::external_body]
pub(crate) fn quote(s: &str) -> (q: String)
    ensures
        q@ == quoted(s@),
{
    format!("{:?}", s)
}

/// A text in lower case, by the rules of Unicode.
pub uninterp spec fn lowercase(s: Seq<char>) -> Seq<char>;

/// `str::to_lowercase`: the text in lower case. Of a text of ASCII characters alone it is the text
/// with its letters in lower case.
#[verifier::external_body]
pub(crate) fn to_lowercase(s: &str) -> (lowered: String)
    ensures
        lowered@ == lowercase(s@),
        ascii(s@) ==> lowered@ == ascii_lowered(s@),
{
    s.to_lowercase()
}

/// A character in upper case, by the rules of Unicode; it may become several.
pub uninterp spec fn uppercase(c: char) -> Seq<char>;

/// An ASCII letter in upper case; other characters as they are.
pub open spec fn ascii_upper(c: char) -> char {
    if 'a' <= c <= 'z' {
        (c as u32 - 32) as char
    } else {
        c
    }
}

/// `char::to_uppercase`: the character in upper case. Of an ASCII character it is one character.
#[verifier::external_body]
pub(crate) fn char_to_uppercase(c: char) -> (upper: String)
    ensures
        upper@ == uppercase(c),
        c <= '\u{7f}' ==> upper@ == seq![ascii_upper(c)],
{
    c.to_uppercase().collect::<String>()
}

/// A text without the white space around it is what stands between: it neither begins nor ends with white space,
/// and only white space was taken away.
pub proof fn only_white_space_is_trimmed(s: Seq<char>)
    ensures
        trim(s).len() > 0 ==> !white_space(trim(s)[0]) && !white_space(trim(s).last()),
        exists|i: int, j: int|
            0 <= i <= j <= s.len() && trim(s) == #[trigger] s.subrange(i, j) && (forall|k: int|
                0 <= k < i ==> white_space(#[trigger] s[k])) && (forall|k: int|
                j <= k < s.len() ==> white_space(#[trigger] s[k])),
{
    let i = lemma_trim_start(s);
    let t = trim_start(s);
    let n = lemma_trim_end(t);
    let j = i + n;
    assert(trim(s) =~= s.subrange(i, j));
    assert forall|k: int| j <= k < s.len() implies white_space(#[trigger] s[k]) by {
        assert(t[k - i] == s[k]);
    }
    if trim(s).len() > 0 {
        assert(trim(s)[0] == t[0]);
    }
}

proof fn lemma_trim_start(s: Seq<char>) -> (i: int)
    ensures
        0 <= i <= s.len(),
        trim_start(s) == s.skip(i),
        forall|k: int| 0 <= k < i ==> white_space(#[trigger] s[k]),
        trim_start(s).len() > 0 ==> !white_space(trim_start(s)[0]),
    decreases s.len(),
{
    if s.len() > 0 && white_space(s[0]) {
        let rest = s.drop_first();
        let i = lemma_trim_start(rest);
        assert(rest.skip(i) =~= s.skip(i + 1));
        assert forall|k: int| 0 <= k < i + 1 implies white_space(#[trigger] s[k]) by {
            if k > 0 {
                assert(rest[k - 1] == s[k]);
            }
        }
        i + 1
    } else {
        assert(s.skip(0) =~= s);
        0
    }
}

proof fn lemma_trim_end(s: Seq<char>) -> (n: int)
    ensures
        0 <= n <= s.len(),
        trim_end(s) == s.take(n),
        forall|k: int| n <= k < s.len() ==> white_space(#[trigger] s[k]),
        trim_end(s).len() > 0 ==> !white_space(trim_end(s).last()),
    decreases s.len(),
{
    if s.len() > 0 && white_space(s.last()) {
        let head = s.drop_last();
        let n = lemma_trim_end(head);
        assert(head.take(n) =~= s.take(n));
        assert forall|k: int| n <= k < s.len() implies white_space(#[trigger] s[k]) by {
            if k < head.len() {
                assert(head[k] == s[k]);
            }
        }
        n
    } else {
        assert(s.take(s.len() as int) =~= s);
        s.len() as int
    }
}

/// A text that neither begins nor ends with white space comes back from between white space.
pub proof fn words_come_back_from_between_spaces(before: Seq<char>, word: Seq<char>, after: Seq<char>)
    requires
        word.len() > 0,
        !white_space(word[0]),
        !white_space(word.last()),
        forall|k: int| 0 <= k < before.len() ==> white_space(#[trigger] before[k]),
        forall|k: int| 0 <= k < after.len() ==> white_space(#[trigger] after[k]),
    ensures
        trim(before + word + after) == word,
    decreases before.len() + after.len(),
{
    let s = before + word + after;
    if before.len() > 0 {
        let rest = before.drop_first();
        assert(s[0] == before[0]);
        assert(s.drop_first() =~= rest + word + after);
        assert forall|k: int| 0 <= k < rest.len() implies white_space(#[trigger] rest[k]) by {
            assert(rest[k] == before[k + 1]);
        }
        words_come_back_from_between_spaces(rest, word, after);
    } else {
        assert(s =~= word + after);
        assert(s[0] == word[0]);
        assert(trim_start(s) == s);
        if after.len() > 0 {
            let head = after.drop_last();
            assert(s.last() == after.last());
            assert(after[after.len() - 1] == after.last());
            assert(s.drop_last() =~= word + head);
            assert forall|k: int| 0 <= k < head.len() implies white_space(#[trigger] head[k]) by {
                assert(head[k] == after[k]);
            }
            words_come_back_from_between_spaces(before, word, head);
            assert(before + word + head =~= word + head);
            assert((word + head)[0] == word[0]);
            assert(trim_start(word + head) == word + head);
            assert(trim_end(s) == trim_end(word + head));
        } else {
            assert(s =~= word);
        }
    }
}

/// A number that is written on a line of its own is read back from it.
pub proof fn numbers_are_read_back_from_lines(n: nat, most: int)
    ensures
        numeral_up_to(trim(digits(n).push('\n')), most) == if n <= most { Some(n as int) } else { None },
        numeral_up_to(trim(digits(n)), most) == if n <= most { Some(n as int) } else { None },
{
    numbers_read_back(n);
    let word = digits(n);
    assert('0' <= word[0] <= '9' && '0' <= word[word.len() - 1] <= '9');
    words_come_back_from_between_spaces(Seq::empty(), word, seq!['\n']);
    words_come_back_from_between_spaces(Seq::empty(), word, Seq::empty());
    assert(Seq::<char>::empty() + word + seq!['\n'] =~= word.push('\n'));
    assert(Seq::<char>::empty() + word + Seq::<char>::empty() =~= word);
}

/// A number is told exactly by digits, which a plus sign may precede.
pub proof fn numbers_are_told_by_digits(s: Seq<char>)
    ensures
        numeral(s) is Some <==> ({
            let from: int = if s.len() > 0 && s[0] == '+' { 1 } else { 0 };
            s.len() > from && forall|i: int| from <= i < s.len() ==> '0' <= #[trigger] s[i] <= '9'
        }),
{
    if s.len() > 0 && s[0] == '+' {
        let t = s.drop_first();
        if all_digits(t) {
            assert forall|i: int| 1 <= i < s.len() implies '0' <= #[trigger] s[i] <= '9' by {
                assert('0' <= t[i - 1] <= '9');
            }
        }
        if forall|i: int| 1 <= i < s.len() ==> '0' <= #[trigger] s[i] <= '9' {
            assert forall|i: int| 0 <= i < t.len() implies '0' <= #[trigger] t[i] <= '9' by {
                assert('0' <= s[i + 1] <= '9');
            }
        }
    }
}

/// Capital letters of ASCII become small ones, and nothing else changes.
pub proof fn only_capitals_are_lowered(c: char)
    ensures
        'A' <= c <= 'Z' ==> 'a' <= ascii_lower(c) <= 'z' && ascii_lower(c) as int - 'a' as int == c as int - 'A' as int,
        !('A' <= c <= 'Z') ==> ascii_lower(c) == c,
        ascii_lower(ascii_lower(c)) == ascii_lower(c),
{
}

/// Texts are joined in their order, with the separator between any two of them.
pub proof fn texts_are_joined_in_order(list: Seq<Seq<char>>, text: Seq<char>, separator: Seq<char>)
    ensures
        separated(Seq::empty(), separator).len() == 0,
        separated(seq![text], separator) == text,
        list.len() > 0 ==> separated(list.push(text), separator) == separated(list, separator) + separator + text,
{
    assert(list.push(text).drop_last() =~= list);
}

/// Only small letters become capitals, each its own, which lowered is the letter again.
pub proof fn only_small_letters_are_raised(c: char)
    ensures
        'a' <= c <= 'z' ==> 'A' <= ascii_upper(c) <= 'Z' && ascii_upper(c) as int - 'A' as int == c as int - 'a' as int,
        'a' <= c <= 'z' ==> ascii_lower(ascii_upper(c)) == c,
        !('a' <= c <= 'z') ==> ascii_upper(c) == c,
{
}

/// A text is ASCII exactly if each of its characters has a number below 128.
pub proof fn ascii_is_below_128(s: Seq<char>, c: char)
    ensures
        ascii(Seq::empty()),
        ascii(s.push(c)) <==> ascii(s) && (c as int) < 128,
{
    if ascii(s.push(c)) {
        assert(s.push(c)[s.len() as int] == c);
        assert forall|i: int| 0 <= i < s.len() implies (#[trigger] s[i]) <= '\u{7f}' by {
            assert(s.push(c)[i] == s[i]);
        }
    }
}

} // verus!
