//! Text primitives: whitespace trimming and comma splitting.

use vstd::prelude::*;
use vstd::std_specs::iter::IteratorSpec;
use vstd::string::*;

verus! {

/// Whether `c` has the Unicode `White_Space` property, as
/// `char::is_whitespace` reports it.
pub uninterp spec fn is_whitespace(c: char) -> bool;

/// Calls `char::is_whitespace`. Trusted: whatever the call answers is what
/// [`is_whitespace`] means. Which characters count as whitespace is left to
/// the standard library; nothing is claimed of that here.
#[verifier::external_body]
fn char_is_whitespace(c: char) -> (b: bool)
    ensures
        b == is_whitespace(c),
{
    c.is_whitespace()
}

/// `s` without its leading whitespace.
pub open spec fn trim_start(s: Seq<char>) -> Seq<char>
    decreases s.len(),
{
    if s.len() > 0 && is_whitespace(s.first()) {
        trim_start(s.drop_first())
    } else {
        s
    }
}

/// `s` without its trailing whitespace.
pub open spec fn trim_end(s: Seq<char>) -> Seq<char>
    decreases s.len(),
{
    if s.len() > 0 && is_whitespace(s.last()) {
        trim_end(s.drop_last())
    } else {
        s
    }
}

/// `s` without leading and trailing whitespace. Everything between the first
/// and the last non-whitespace character is kept as it is.
pub open spec fn trimmed(s: Seq<char>) -> Seq<char> {
    trim_end(trim_start(s))
}

/// If everything before `a` is whitespace and `a` is the end of `s` or the
/// place of a non-whitespace character, `trim_start` drops exactly `a`
/// characters.
proof fn lemma_trim_start_skips(s: Seq<char>, a: int)
    requires
        0 <= a <= s.len(),
        forall|j: int| 0 <= j < a ==> is_whitespace(s[j]),
        a < s.len() ==> !is_whitespace(s[a]),
    ensures
        trim_start(s) == s.skip(a),
    decreases a,
{
    if a > 0 {
        let rest = s.drop_first();
        assert forall|j: int| 0 <= j < a - 1 implies is_whitespace(rest[j]) by {}
        lemma_trim_start_skips(rest, a - 1);
    }
}

/// If everything from `b` on is whitespace and `b` is the start of `s` or
/// follows a non-whitespace character, `trim_end` keeps exactly the first `b`
/// characters.
proof fn lemma_trim_end_takes(s: Seq<char>, b: int)
    requires
        0 <= b <= s.len(),
        forall|j: int| b <= j < s.len() ==> is_whitespace(s[j]),
        0 < b ==> !is_whitespace(s[b - 1]),
    ensures
        trim_end(s) == s.take(b),
    decreases s.len() - b,
{
    if b < s.len() {
        lemma_trim_end_takes(s.drop_last(), b);
    }
}

/// `trimmed(s)` is the stretch of `s` from `a` to `b` whenever only
/// whitespace lies outside that stretch and the stretch is empty or has a
/// non-whitespace character at either end.
pub proof fn lemma_trimmed_is_subrange(s: Seq<char>, a: int, b: int)
    requires
        0 <= a <= b <= s.len(),
        forall|j: int| 0 <= j < a ==> is_whitespace(s[j]),
        forall|j: int| b <= j < s.len() ==> is_whitespace(s[j]),
        a < b ==> !is_whitespace(s[a]) && !is_whitespace(s[b - 1]),
    ensures
        trimmed(s) == s.subrange(a, b),
{
    if a < b {
        lemma_trim_start_skips(s, a);
        lemma_trim_end_takes(s.skip(a), b - a);
    } else {
        // Nothing but whitespace: the whole of `s` is dropped from the front.
        lemma_trim_start_skips(s, s.len() as int);
    }
}

/// Trimming changes nothing but the ends: a non-empty text that neither
/// starts nor ends with whitespace is kept verbatim, whatever else it holds.
pub proof fn lemma_trimmed_keeps_inner_text(s: Seq<char>)
    requires
        s.len() > 0,
        !is_whitespace(s.first()),
        !is_whitespace(s.last()),
    ensures
        trimmed(s) == s,
{
    lemma_trimmed_is_subrange(s, 0, s.len() as int);
}

/// What `trim_start` leaves is the tail of `s` that begins at its first
/// non-whitespace character, or nothing.
proof fn lemma_trim_start_shape(s: Seq<char>)
    ensures
        trim_start(s).len() <= s.len(),
        trim_start(s) == s.skip(s.len() - trim_start(s).len()),
        trim_start(s).len() > 0 ==> !is_whitespace(trim_start(s).first()),
    decreases s.len(),
{
    if s.len() > 0 && is_whitespace(s.first()) {
        let rest = s.drop_first();
        lemma_trim_start_shape(rest);
        assert(rest.skip(rest.len() - trim_start(rest).len()) =~= s.skip(
            s.len() - trim_start(rest).len(),
        ));
    }
}

/// What `trim_end` leaves is the head of `s` that ends at its last
/// non-whitespace character, or nothing.
proof fn lemma_trim_end_shape(s: Seq<char>)
    ensures
        trim_end(s).len() <= s.len(),
        trim_end(s) == s.take(trim_end(s).len() as int),
        trim_end(s).len() > 0 ==> !is_whitespace(trim_end(s).last()),
    decreases s.len(),
{
    if s.len() > 0 && is_whitespace(s.last()) {
        lemma_trim_end_shape(s.drop_last());
    }
}

/// A trimmed text neither starts nor ends with whitespace.
pub proof fn lemma_trimmed_has_no_outer_whitespace(s: Seq<char>)
    ensures
        trimmed(s).len() > 0 ==> !is_whitespace(trimmed(s).first()) && !is_whitespace(
            trimmed(s).last(),
        ),
{
    lemma_trim_start_shape(s);
    lemma_trim_end_shape(trim_start(s));
}

/// Trimming a trimmed text changes nothing.
pub proof fn lemma_trimmed_is_idempotent(s: Seq<char>)
    ensures
        trimmed(trimmed(s)) == trimmed(s),
{
    lemma_trimmed_has_no_outer_whitespace(s);
    if trimmed(s).len() > 0 {
        lemma_trimmed_keeps_inner_text(trimmed(s));
    }
}

/// Removes leading and trailing whitespace from `s`.
pub fn trim(s: &str) -> (r: &str)
    ensures
        r@ == trimmed(s@),
{
    // Counting the characters first bounds every position below.
    let len = s.unicode_len();
    // `start..end` spans from the first to the last non-whitespace character
    // seen so far; it is empty, and sits at `i`, while none has been seen.
    let mut start: usize = 0;
    let mut end: usize = 0;
    let mut i: usize = 0;
    for c in it: s.chars()
        invariant
            it.seq() == s@,
            len == s@.len(),
            i == it.index(),
            start <= end <= i,
            start == end ==> start == i,
            forall|j: int| 0 <= j < start ==> is_whitespace(s@[j]),
            forall|j: int| end <= j < i ==> is_whitespace(s@[j]),
            start < end ==> !is_whitespace(s@[start as int]) && !is_whitespace(s@[end - 1]),
    {
        if !char_is_whitespace(c) {
            end = i + 1;
        } else if start == end {
            start = i + 1;
            end = i + 1;
        }
        i = i + 1;
    }
    proof {
        lemma_trimmed_is_subrange(s@, start as int, end as int);
    }
    s.substring_char(start, end)
}

/// Calls `String::push`. Trusted: afterwards `s` holds what it held before
/// followed by `c`, as the standard library documents.
#[verifier::external_body]
fn push_char(s: &mut String, c: char)
    ensures
        final(s)@ == old(s)@.push(c),
{
    s.push(c);
}

/// The texts that a sequence of strings holds, in order.
pub open spec fn texts(strings: Seq<String>) -> Seq<Seq<char>> {
    strings.map_values(|s: String| s@)
}

/// Length of the longest prefix of `s` that holds no comma.
pub open spec fn field_len(s: Seq<char>) -> nat
    decreases s.len(),
{
    if s.len() == 0 || s.first() == ',' {
        0
    } else {
        1 + field_len(s.drop_first())
    }
}

/// The fields of `line`: the text before its first comma, then the fields of
/// the text after that comma. A line without a comma is a single field, and
/// so is the empty line.
pub open spec fn split_fields(line: Seq<char>) -> Seq<Seq<char>>
    decreases line.len(),
{
    let n = field_len(line) as int;
    if n >= line.len() {
        seq![line]
    } else {
        seq![line.take(n)] + split_fields(line.skip(n + 1))
    }
}

/// `field_len(s)` is `n` when the first `n` characters of `s` hold no comma
/// and `s` ends there or goes on with a comma.
proof fn lemma_field_len_is(s: Seq<char>, n: int)
    requires
        0 <= n <= s.len(),
        forall|j: int| 0 <= j < n ==> s[j] != ',',
        n < s.len() ==> s[n] == ',',
    ensures
        field_len(s) == n,
    decreases n,
{
    if n > 0 {
        let rest = s.drop_first();
        assert forall|j: int| 0 <= j < n - 1 implies rest[j] != ',' by {}
        lemma_field_len_is(rest, n - 1);
    }
}

/// Splits `line` at every comma. The fields come back in order and
/// untouched: nothing is trimmed, and empty fields are kept.
pub fn split(line: &str) -> (fields: Vec<String>)
    ensures
        texts(fields@) == split_fields(line@),
{
    let mut fields: Vec<String> = Vec::new();
    let mut current = String::new();
    // Where the field that `current` collects begins in `line`.
    let ghost mut field_start: int = 0;
    assert(line@.skip(0) =~= line@);
    for c in it: line.chars()
        invariant
            it.seq() == line@,
            0 <= field_start <= it.index(),
            current@ == line@.subrange(field_start, it.index() as int),
            forall|j: int| field_start <= j < it.index() ==> line@[j] != ',',
            texts(fields@) + split_fields(line@.skip(field_start)) == split_fields(line@),
    {
        if c == ',' {
            proof {
                let rest = line@.skip(field_start);
                let n = it.index() - field_start;
                lemma_field_len_is(rest, n);
                assert(rest.take(n) =~= current@);
                assert(rest.skip(n + 1) =~= line@.skip(it.index() + 1));
                field_start = it.index() + 1;
            }
            fields.push(current);
            current = String::new();
        } else {
            push_char(&mut current, c);
        }
    }
    proof {
        let rest = line@.skip(field_start);
        lemma_field_len_is(rest, rest.len() as int);
    }
    fields.push(current);
    fields
}

/// Whether `a` and `b` hold the same characters.
pub fn same_text(a: &str, b: &str) -> (same: bool)
    ensures
        same == (a@ == b@),
{
    let mut rest = b.chars();
    for x in it: a.chars()
        invariant
            it.seq() == a@,
            rest.obeys_prophetic_iter_laws(),
            it.index() <= b@.len(),
            rest.remaining() == b@.skip(it.index() as int),
            a@.take(it.index() as int) == b@.take(it.index() as int),
    {
        match rest.next() {
            Some(y) => {
                if x != y {
                    return false;
                }
            },
            None => {
                return false;
            },
        }
    }
    let last = rest.next();
    assert(a@.take(a@.len() as int) =~= a@);
    last.is_none()
}

} // verus!
