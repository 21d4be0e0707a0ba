//! Placeholders of the form `[[key]]` and their substitution.
//!
//! A placeholder is found by comparing characters, never by interpreting the
//! key as a pattern. Substitution walks the text once from left to right; the
//! text it inserts is not looked at again.

use crate::text::{chars_of, push_char};
use vstd::prelude::*;

verus! {

/// The placeholder that stands for `key`: the key between `[[` and `]]`.
pub open spec fn placeholder(key: Seq<char>) -> Seq<char> {
    seq!['[', '['] + key + seq![']', ']']
}

/// `pattern` stands in `text` at index `at`.
pub open spec fn occurs_at(text: Seq<char>, pattern: Seq<char>, at: int) -> bool {
    &&& 0 <= at
    &&& at + pattern.len() <= text.len()
    &&& text.subrange(at, at + pattern.len()) == pattern
}

/// `pattern` stands somewhere in `text`.
pub open spec fn occurs(text: Seq<char>, pattern: Seq<char>) -> bool {
    exists|at: int| occurs_at(text, pattern, at)
}

/// `pattern` stands in `text` at index `at` and nowhere else.
pub open spec fn occurs_only_at(text: Seq<char>, pattern: Seq<char>, at: int) -> bool {
    &&& occurs_at(text, pattern, at)
    &&& forall|other: int| occurs_at(text, pattern, other) ==> other == at
}

/// `text` with every occurrence of `pattern` replaced by `with`, found from
/// left to right. An occurrence begins where the one before it has ended, and
/// what was inserted is not searched.
pub open spec fn replace_all(text: Seq<char>, pattern: Seq<char>, with: Seq<char>) -> Seq<char>
    recommends
        pattern.len() > 0,
    decreases text.len(),
{
    if pattern.len() == 0 || text.len() == 0 {
        text
    } else if occurs_at(text, pattern, 0) {
        with + replace_all(text.skip(pattern.len() as int), pattern, with)
    } else {
        seq![text[0]] + replace_all(text.skip(1), pattern, with)
    }
}

/// `text` with every placeholder for `key` replaced by `value`.
pub open spec fn substitute(text: Seq<char>, key: Seq<char>, value: Seq<char>) -> Seq<char> {
    replace_all(text, placeholder(key), value)
}

/// `text` with the `len` characters from index `at` on replaced by `with`.
pub open spec fn splice(text: Seq<char>, at: int, len: int, with: Seq<char>) -> Seq<char> {
    text.take(at) + with + text.skip(at + len)
}

proof fn lemma_occurs_at_skip(text: Seq<char>, pattern: Seq<char>, n: int, at: int)
    requires
        0 <= n <= text.len(),
        0 <= at,
    ensures
        occurs_at(text.skip(n), pattern, at) == occurs_at(text, pattern, n + at),
{
    if at + pattern.len() <= text.len() - n {
        assert(text.skip(n).subrange(at, at + pattern.len()) =~= text.subrange(
            n + at,
            n + at + pattern.len(),
        ));
    }
}

proof fn lemma_replace_without_occurrence(text: Seq<char>, pattern: Seq<char>, with: Seq<char>)
    requires
        !occurs(text, pattern),
    ensures
        replace_all(text, pattern, with) == text,
    decreases text.len(),
{
    if pattern.len() > 0 && text.len() > 0 {
        assert(!occurs_at(text, pattern, 0));
        let rest = text.skip(1);
        assert forall|at: int| !occurs_at(rest, pattern, at) by {
            if 0 <= at {
                lemma_occurs_at_skip(text, pattern, 1, at);
                assert(!occurs_at(text, pattern, 1 + at));
            }
        }
        lemma_replace_without_occurrence(rest, pattern, with);
        assert(seq![text[0]] + rest =~= text);
    }
}

proof fn lemma_replace_len(text: Seq<char>, pattern: Seq<char>, with: Seq<char>)
    ensures
        with.len() <= pattern.len() ==> replace_all(text, pattern, with).len() <= text.len(),
        with.len() >= pattern.len() ==> replace_all(text, pattern, with).len() >= text.len(),
    decreases text.len(),
{
    if pattern.len() > 0 && text.len() > 0 {
        if occurs_at(text, pattern, 0) {
            lemma_replace_len(text.skip(pattern.len() as int), pattern, with);
        } else {
            lemma_replace_len(text.skip(1), pattern, with);
        }
    }
}

proof fn lemma_replace_differs(text: Seq<char>, pattern: Seq<char>, with: Seq<char>)
    requires
        pattern.len() > 0,
        occurs(text, pattern),
        with != pattern,
    ensures
        replace_all(text, pattern, with) != text,
    decreases text.len(),
{
    let m = pattern.len() as int;
    let at = choose|at: int| occurs_at(text, pattern, at);
    if occurs_at(text, pattern, 0) {
        let rest = text.skip(m);
        let done = replace_all(rest, pattern, with);
        lemma_replace_len(rest, pattern, with);
        if with + done == text {
            assert(with.len() == m);
            assert(with =~= (with + done).subrange(0, m));
            assert(pattern == text.subrange(0, m));
        }
    } else {
        let rest = text.skip(1);
        lemma_occurs_at_skip(text, pattern, 1, at - 1);
        assert(occurs_at(rest, pattern, at - 1));
        lemma_replace_differs(rest, pattern, with);
        let done = replace_all(rest, pattern, with);
        if seq![text[0]] + done == text {
            assert(done =~= (seq![text[0]] + done).skip(1));
        }
    }
}

proof fn lemma_replace_first_occurrence(
    text: Seq<char>,
    pattern: Seq<char>,
    with: Seq<char>,
    at: int,
)
    requires
        pattern.len() > 0,
        occurs_at(text, pattern, at),
        forall|before: int| 0 <= before < at ==> !occurs_at(text, pattern, before),
    ensures
        replace_all(text, pattern, with) == text.take(at) + with + replace_all(
            text.skip(at + pattern.len()),
            pattern,
            with,
        ),
    decreases at,
{
    let m = pattern.len() as int;
    if at == 0 {
        assert(text.take(0) + with =~= with);
    } else {
        let rest = text.skip(1);
        lemma_occurs_at_skip(text, pattern, 1, at - 1);
        assert forall|before: int| 0 <= before < at - 1 implies !occurs_at(
            rest,
            pattern,
            before,
        ) by {
            lemma_occurs_at_skip(text, pattern, 1, before);
        }
        lemma_replace_first_occurrence(rest, pattern, with, at - 1);
        assert(rest.skip(at - 1 + m) =~= text.skip(at + m));
        assert(seq![text[0]] + (rest.take(at - 1) + with + replace_all(
            text.skip(at + m),
            pattern,
            with,
        )) =~= text.take(at) + with + replace_all(text.skip(at + m), pattern, with));
    }
}

proof fn lemma_replace_single_occurrence(
    text: Seq<char>,
    pattern: Seq<char>,
    with: Seq<char>,
    at: int,
)
    requires
        pattern.len() > 0,
        occurs_only_at(text, pattern, at),
    ensures
        replace_all(text, pattern, with) == splice(text, at, pattern.len() as int, with),
{
    let rest = text.skip(at + pattern.len());
    assert forall|other: int| !occurs_at(rest, pattern, other) by {
        if 0 <= other {
            lemma_occurs_at_skip(text, pattern, at + pattern.len(), other);
        }
    }
    lemma_replace_without_occurrence(rest, pattern, with);
    lemma_replace_first_occurrence(text, pattern, with, at);
}

/// Substitution works from left to right: the text before the first
/// placeholder is kept, the value takes the placeholder's place, and the
/// search goes on behind the placeholder, not inside the value.
pub proof fn lemma_first_placeholder(text: Seq<char>, key: Seq<char>, value: Seq<char>, at: int)
    requires
        occurs_at(text, placeholder(key), at),
        forall|before: int| 0 <= before < at ==> !occurs_at(text, placeholder(key), before),
    ensures
        substitute(text, key, value) == text.take(at) + value + substitute(
            text.skip(at + placeholder(key).len()),
            key,
            value,
        ),
{
    lemma_replace_first_occurrence(text, placeholder(key), value, at);
}

/// Substituting a key whose placeholder does not occur leaves the text as it
/// was.
pub proof fn lemma_absent_key_unchanged(text: Seq<char>, key: Seq<char>, value: Seq<char>)
    requires
        !occurs(text, placeholder(key)),
    ensures
        substitute(text, key, value) == text,
{
    lemma_replace_without_occurrence(text, placeholder(key), value);
}

/// Where the placeholder occurs at one place only, substitution puts the
/// value at that place and keeps what stands before and after it.
pub proof fn lemma_single_placeholder(
    text: Seq<char>,
    key: Seq<char>,
    value: Seq<char>,
    at: int,
)
    requires
        occurs_only_at(text, placeholder(key), at),
    ensures
        substitute(text, key, value) == splice(text, at, placeholder(key).len() as int, value),
{
    lemma_replace_single_occurrence(text, placeholder(key), value, at);
}

/// Substitution leaves a text unchanged exactly when there is nothing to
/// replace, or when each placeholder is replaced by itself.
pub proof fn lemma_unchanged_iff(text: Seq<char>, key: Seq<char>, value: Seq<char>)
    ensures
        substitute(text, key, value) == text <==> (!occurs(text, placeholder(key)) || value
            == placeholder(key)),
{
    let pattern = placeholder(key);
    if !occurs(text, pattern) {
        lemma_replace_without_occurrence(text, pattern, value);
    } else if value == pattern {
        lemma_replace_by_itself(text, pattern);
    } else {
        lemma_replace_differs(text, pattern, value);
    }
}

proof fn lemma_replace_by_itself(text: Seq<char>, pattern: Seq<char>)
    ensures
        replace_all(text, pattern, pattern) == text,
    decreases text.len(),
{
    if pattern.len() > 0 && text.len() > 0 {
        if occurs_at(text, pattern, 0) {
            let rest = text.skip(pattern.len() as int);
            lemma_replace_by_itself(rest, pattern);
            assert(pattern + rest =~= text);
        } else {
            lemma_replace_by_itself(text.skip(1), pattern);
            assert(seq![text[0]] + text.skip(1) =~= text);
        }
    }
}

/// A placeholder that occurs once is used up by the first substitution: a
/// second one for the same key changes nothing, unless the first has put a
/// placeholder for the key back into the text, be it inside the value or
/// where the value meets the text around it.
pub proof fn lemma_second_substitution_unchanged(
    text: Seq<char>,
    key: Seq<char>,
    first: Seq<char>,
    second: Seq<char>,
    at: int,
)
    requires
        occurs_only_at(text, placeholder(key), at),
        !occurs(splice(text, at, placeholder(key).len() as int, first), placeholder(key)) || second
            == placeholder(key),
    ensures
        substitute(text, key, first) == splice(text, at, placeholder(key).len() as int, first),
        substitute(substitute(text, key, first), key, second) == substitute(text, key, first),
{
    lemma_single_placeholder(text, key, first, at);
    lemma_unchanged_iff(substitute(text, key, first), key, second);
}

/// Whether `pattern` stands in `text` at index `at`.
fn matches_at(text: &Vec<char>, at: usize, pattern: &Vec<char>) -> (found: bool)
    requires
        at + pattern.len() <= text.len(),
    ensures
        found == occurs_at(text@, pattern@, at as int),
{
    let mut k: usize = 0;
    while k < pattern.len()
        invariant
            k <= pattern.len(),
            at + pattern.len() <= text.len(),
            forall|j: int| 0 <= j < k ==> text@[at + j] == pattern@[j],
        decreases pattern.len() - k,
    {
        if text[at + k] != pattern[k] {
            proof {
                let window = text@.subrange(at as int, at + pattern.len());
                assert(window[k as int] == text@[at + k]);
            }
            return false;
        }
        k += 1;
    }
    assert(text@.subrange(at as int, at + pattern.len()) =~= pattern@);
    true
}

/// Whether `pattern` stands somewhere in `text`.
pub fn contains(text: &str, pattern: &str) -> (found: bool)
    ensures
        found == occurs(text@, pattern@),
{
    let source = chars_of(text);
    let sought = chars_of(pattern);
    if source.len() < sought.len() {
        return false;
    }
    let last = source.len() - sought.len();
    let mut at: usize = 0;
    loop
        invariant
            at <= last,
            last + sought@.len() == source@.len(),
            source@ == text@,
            sought@ == pattern@,
            forall|before: int| 0 <= before < at ==> !occurs_at(text@, pattern@, before),
        decreases last - at,
    {
        if matches_at(&source, at, &sought) {
            assert(occurs_at(text@, pattern@, at as int));
            return true;
        }
        if at == last {
            assert forall|any: int| !occurs_at(text@, pattern@, any) by {
                if 0 <= any && any + pattern@.len() <= text@.len() {
                    assert(any < at || any == at);
                }
            }
            return false;
        }
        at += 1;
    }
}

/// Replaces every placeholder for `key` in `text` by `value`, in one pass
/// from left to right.
pub fn fill(text: &str, key: &str, value: &str) -> (filled: String)
    ensures
        filled@ == substitute(text@, key@, value@),
{
    let mut marker = String::from_str("[[");
    marker.append(key);
    marker.append("]]");
    proof {
        reveal_strlit("[[");
        reveal_strlit("]]");
        assert(marker@ =~= placeholder(key@));
    }
    let source = chars_of(text);
    let pattern = chars_of(marker.as_str());
    let n = source.len();
    let m = pattern.len();
    let mut filled = String::new();
    let mut at: usize = 0;
    proof {
        assert(source@.skip(0) =~= source@);
        assert(filled@ + replace_all(source@, pattern@, value@) =~= replace_all(
            source@,
            pattern@,
            value@,
        ));
    }
    while at < n
        invariant
            at <= n,
            n == source@.len(),
            m == pattern@.len(),
            m > 0,
            filled@ + replace_all(source@.skip(at as int), pattern@, value@) == replace_all(
                source@,
                pattern@,
                value@,
            ),
        decreases n - at,
    {
        let ghost rest = source@.skip(at as int);
        if m <= n - at && matches_at(&source, at, &pattern) {
            proof {
                lemma_occurs_at_skip(source@, pattern@, at as int, 0);
                assert(rest.skip(m as int) =~= source@.skip(at + m));
                assert((filled@ + value@) + replace_all(rest.skip(m as int), pattern@, value@)
                    =~= filled@ + (value@ + replace_all(rest.skip(m as int), pattern@, value@)));
            }
            filled.append(value);
            at += m;
        } else {
            proof {
                lemma_occurs_at_skip(source@, pattern@, at as int, 0);
                assert(rest.skip(1) =~= source@.skip(at + 1));
                assert(filled@.push(rest[0]) + replace_all(rest.skip(1), pattern@, value@)
                    =~= filled@ + (seq![rest[0]] + replace_all(rest.skip(1), pattern@, value@)));
            }
            push_char(&mut filled, source[at]);
            at += 1;
        }
    }
    assert(source@.skip(n as int) =~= Seq::<char>::empty());
    filled
}

} // verus!
