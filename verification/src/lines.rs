//! Classification and rewriting of `key=value` lines.
//!
//! A line is *addressable* when it starts with a non-empty key — one or
//! more characters that are neither the separator `=` nor a comment
//! marker `;`/`#` — followed by a literal `=`.  Everything after that
//! `=` up to the first `;` or `#` is the value; the rest of the line is
//! a trailing comment.  Blank lines, comment lines and `[Section]`
//! headers all fail this shape and are never addressable.

use vstd::prelude::*;

verus! {

/// Characters allowed in the key of a `key=value` declaration:
/// anything but the separator `=` and the comment markers `;` and `#`.
pub open spec fn is_key_char(c: char) -> bool {
    c != '=' && c != ';' && c != '#'
}

/// `;` and `#` open a trailing comment after the value of a line.
pub open spec fn is_comment_char(c: char) -> bool {
    c == ';' || c == '#'
}

/// Index of the first character at or after `i` that cannot belong to a
/// key (`=`, `;` or `#`); `s.len()` if there is none.
pub open spec fn key_end_from(s: Seq<char>, i: int) -> int
    recommends
        0 <= i <= s.len(),
    decreases s.len() - i when 0 <= i <= s.len()
{
    if i >= s.len() {
        s.len() as int
    } else if !is_key_char(s[i]) {
        i
    } else {
        key_end_from(s, i + 1)
    }
}

/// Index of the first comment marker (`;` or `#`) at or after `i`;
/// `s.len()` if there is none.
pub open spec fn comment_start_from(s: Seq<char>, i: int) -> int
    recommends
        0 <= i <= s.len(),
    decreases s.len() - i when 0 <= i <= s.len()
{
    if i >= s.len() {
        s.len() as int
    } else if is_comment_char(s[i]) {
        i
    } else {
        comment_start_from(s, i + 1)
    }
}

/// Length of the key of `s`: the longest prefix made of key characters.
pub open spec fn key_len(s: Seq<char>) -> int {
    key_end_from(s, 0)
}

/// A line is addressable when a non-empty, marker-free key is followed
/// by a literal `=`.
pub open spec fn line_is_addressable(s: Seq<char>) -> bool {
    1 <= key_len(s) < s.len() && s[key_len(s)] == '='
}

/// Index one past the value of an addressable line: the first `;` or
/// `#` after the key's `=`, or the end of the line.
pub open spec fn value_end(s: Seq<char>) -> int
    recommends
        line_is_addressable(s),
{
    comment_start_from(s, key_len(s) + 1)
}

/// The key of an addressable line: everything before the first `=`.
pub open spec fn spec_key(s: Seq<char>) -> Seq<char>
    recommends
        line_is_addressable(s),
{
    s.subrange(0, key_len(s))
}

/// The value of an addressable line: everything after the first `=` up
/// to (not including) the first comment marker.
pub open spec fn spec_value(s: Seq<char>) -> Seq<char>
    recommends
        line_is_addressable(s),
{
    s.subrange(key_len(s) + 1, value_end(s))
}

/// The trailing comment of an addressable line, possibly empty,
/// starting at its `;` or `#` marker.
pub open spec fn spec_comment(s: Seq<char>) -> Seq<char>
    recommends
        line_is_addressable(s),
{
    s.subrange(value_end(s), s.len() as int)
}

/// The line with its value replaced by `v`: key and `=` kept verbatim,
/// then `v`, then the original trailing comment.
pub open spec fn spec_rewrite(s: Seq<char>, v: Seq<char>) -> Seq<char>
    recommends
        line_is_addressable(s),
{
    s.subrange(0, key_len(s) + 1) + v + spec_comment(s)
}

/// `key_end_from` lands exactly on the first non-key character.
pub proof fn lemma_key_end_from_is(s: Seq<char>, i: int, j: int)
    requires
        0 <= i <= j <= s.len(),
        forall|k: int| i <= k < j ==> is_key_char(s[k]),
        j < s.len() ==> !is_key_char(s[j]),
    ensures
        key_end_from(s, i) == j,
    decreases j - i,
{
    if i < j {
        lemma_key_end_from_is(s, i + 1, j);
    }
}

/// Everything before `key_end_from` is a key character, and the
/// character there (if any) is not.
pub proof fn lemma_key_end_from_props(s: Seq<char>, i: int)
    requires
        0 <= i <= s.len(),
    ensures
        i <= key_end_from(s, i) <= s.len(),
        forall|k: int| i <= k < key_end_from(s, i) ==> is_key_char(s[k]),
        key_end_from(s, i) < s.len() ==> !is_key_char(s[key_end_from(s, i)]),
    decreases s.len() - i,
{
    if i < s.len() && is_key_char(s[i]) {
        lemma_key_end_from_props(s, i + 1);
    }
}

/// `comment_start_from` lands exactly on the first comment marker.
pub proof fn lemma_comment_start_from_is(s: Seq<char>, i: int, j: int)
    requires
        0 <= i <= j <= s.len(),
        forall|k: int| i <= k < j ==> !is_comment_char(s[k]),
        j < s.len() ==> is_comment_char(s[j]),
    ensures
        comment_start_from(s, i) == j,
    decreases j - i,
{
    if i < j {
        lemma_comment_start_from_is(s, i + 1, j);
    }
}

/// Everything before `comment_start_from` is comment-free, and the
/// character there (if any) is a marker.
pub proof fn lemma_comment_start_from_props(s: Seq<char>, i: int)
    requires
        0 <= i <= s.len(),
    ensures
        i <= comment_start_from(s, i) <= s.len(),
        forall|k: int| i <= k < comment_start_from(s, i) ==> !is_comment_char(s[k]),
        comment_start_from(s, i) < s.len() ==> is_comment_char(s[comment_start_from(s, i)]),
    decreases s.len() - i,
{
    if i < s.len() && !is_comment_char(s[i]) {
        lemma_comment_start_from_props(s, i + 1);
    }
}

/// Addressability in plain words: there is an `=` with a non-empty run
/// of key characters before it.
pub proof fn lemma_addressable_characterization(s: Seq<char>)
    ensures
        line_is_addressable(s) <==> exists|i: int|
            1 <= i < s.len() && s[i] == '=' && (forall|k: int| 0 <= k < i ==> is_key_char(s[k])),
{
    if line_is_addressable(s) {
        lemma_key_end_from_props(s, 0);
        let i = key_len(s);
        assert(1 <= i < s.len() && s[i] == '=' && (forall|k: int| 0 <= k < i ==> is_key_char(s[k])));
    }
    if exists|i: int|
        1 <= i < s.len() && s[i] == '=' && (forall|k: int| 0 <= k < i ==> is_key_char(s[k])) {
        let i = choose|i: int|
            1 <= i < s.len() && s[i] == '=' && (forall|k: int| 0 <= k < i ==> is_key_char(s[k]));
        lemma_key_end_from_is(s, 0, i);
    }
}

/// Where the key of `line` ends: the index of the first `=`, `;` or
/// `#`, or the length of the line if there is none.
pub fn key_end(line: &str) -> (j: usize)
    ensures
        j as int == key_len(line@),
{
    let n = line.unicode_len();
    let mut i: usize = 0;
    while i < n
        invariant
            0 <= i <= n,
            n == line@.len(),
            forall|k: int| 0 <= k < i ==> is_key_char(line@[k]),
        decreases n - i,
    {
        let c = line.get_char(i);
        if c == '=' || c == ';' || c == '#' {
            proof {
                lemma_key_end_from_is(line@, 0, i as int);
            }
            return i;
        }
        i = i + 1;
    }
    proof {
        lemma_key_end_from_is(line@, 0, n as int);
    }
    n
}

/// Where the trailing comment of `line` starts, scanning from `from`:
/// the index of the first `;` or `#`, or the length of the line.
pub fn comment_start(line: &str, from: usize) -> (j: usize)
    requires
        from <= line@.len(),
    ensures
        j as int == comment_start_from(line@, from as int),
{
    let n = line.unicode_len();
    let mut i: usize = from;
    while i < n
        invariant
            from <= i <= n,
            n == line@.len(),
            forall|k: int| from <= k < i ==> !is_comment_char(line@[k]),
        decreases n - i,
    {
        let c = line.get_char(i);
        if c == ';' || c == '#' {
            proof {
                lemma_comment_start_from_is(line@, from as int, i as int);
            }
            return i;
        }
        i = i + 1;
    }
    proof {
        lemma_comment_start_from_is(line@, from as int, n as int);
    }
    n
}

/// The key of an addressable line contains only key characters, and
/// its value contains no comment marker.
pub proof fn lemma_key_value_shape(s: Seq<char>)
    requires
        line_is_addressable(s),
    ensures
        key_len(s) + 1 <= value_end(s) <= s.len(),
        forall|k: int| 0 <= k < key_len(s) ==> is_key_char(#[trigger] spec_key(s)[k]),
        forall|k: int| 0 <= k < spec_value(s).len() ==> !is_comment_char(#[trigger] spec_value(s)[k]),
        value_end(s) < s.len() ==> is_comment_char(s[value_end(s)]),
{
    lemma_key_end_from_props(s, 0);
    lemma_comment_start_from_props(s, key_len(s) + 1);
    assert forall|k: int| 0 <= k < spec_value(s).len() implies !is_comment_char(
        #[trigger] spec_value(s)[k],
    ) by {
        assert(spec_value(s)[k] == s[key_len(s) + 1 + k]);
    }
    assert forall|k: int| 0 <= k < key_len(s) implies is_key_char(#[trigger] spec_key(s)[k]) by {
        assert(spec_key(s)[k] == s[k]);
    }
}

/// Rewriting the value keeps the line addressable, with the same key.
pub proof fn lemma_rewrite_keeps_key(s: Seq<char>, v: Seq<char>)
    requires
        line_is_addressable(s),
    ensures
        line_is_addressable(spec_rewrite(s, v)),
        key_len(spec_rewrite(s, v)) == key_len(s),
        spec_key(spec_rewrite(s, v)) == spec_key(s),
{
    let k = key_len(s);
    let r = spec_rewrite(s, v);
    lemma_key_end_from_props(s, 0);
    assert forall|i: int| 0 <= i < k implies is_key_char(r[i]) by {
        assert(r[i] == s[i]);
    }
    assert(r[k] == s[k]);
    lemma_key_end_from_is(r, 0, k);
    assert(spec_key(r) =~= spec_key(s));
}

/// Committing an edited value `v` round-trips: the rewritten line keeps
/// the key, carries exactly `v` as its value, and keeps the original
/// trailing comment.  `v` must be free of comment markers, or its tail
/// would be read back as a comment.
pub proof fn lemma_commit_round_trip(s: Seq<char>, v: Seq<char>)
    requires
        line_is_addressable(s),
        forall|i: int| 0 <= i < v.len() ==> !is_comment_char(v[i]),
    ensures
        line_is_addressable(spec_rewrite(s, v)),
        spec_key(spec_rewrite(s, v)) == spec_key(s),
        spec_value(spec_rewrite(s, v)) == v,
        spec_comment(spec_rewrite(s, v)) == spec_comment(s),
{
    let k = key_len(s);
    let r = spec_rewrite(s, v);
    lemma_rewrite_keeps_key(s, v);
    lemma_key_value_shape(s);
    assert forall|i: int| k + 1 <= i < k + 1 + v.len() implies !is_comment_char(r[i]) by {
        assert(r[i] == v[i - (k + 1)]);
    }
    if value_end(s) < s.len() {
        assert(r[k + 1 + v.len()] == spec_comment(s)[0]);
        assert(spec_comment(s)[0] == s[value_end(s)]);
        lemma_comment_start_from_is(r, k + 1, k + 1 + v.len());
    } else {
        assert(spec_comment(s).len() == 0);
        assert(r.len() == k + 1 + v.len());
        lemma_comment_start_from_is(r, k + 1, k + 1 + v.len());
    }
    assert(spec_value(r) =~= v);
    assert(spec_comment(r) =~= spec_comment(s));
}

/// Whether `line` is an addressable `key=value` declaration.
pub fn is_addressable_line(line: &str) -> (r: bool)
    ensures
        r == line_is_addressable(line@),
{
    let n = line.unicode_len();
    let k = key_end(line);
    if k >= 1 && k < n {
        let c = line.get_char(k);
        c == '='
    } else {
        false
    }
}

/// The key and value of an addressable line, as owned strings.
pub fn split_key_value(line: &str) -> (r: (String, String))
    requires
        line_is_addressable(line@),
    ensures
        r.0@ == spec_key(line@),
        r.1@ == spec_value(line@),
{
    // The line's length fits a usize, so stepping past the key's `=`
    // cannot overflow.
    let _len = line.unicode_len();
    let k = key_end(line);
    let key = line.substring_char(0, k).to_owned();
    proof {
        lemma_comment_start_from_props(line@, k as int + 1);
    }
    let ve = comment_start(line, k + 1);
    let value = line.substring_char(k + 1, ve).to_owned();
    (key, value)
}

/// The line with its value portion replaced by `new_value`; the key,
/// its `=`, and any trailing comment are kept verbatim.
pub fn rewrite_value(line: &str, new_value: &str) -> (r: String)
    requires
        line_is_addressable(line@),
    ensures
        r@ == spec_rewrite(line@, new_value@),
{
    let n = line.unicode_len();
    let k = key_end(line);
    proof {
        lemma_comment_start_from_props(line@, k as int + 1);
    }
    let ve = comment_start(line, k + 1);
    let mut out = line.substring_char(0, k + 1).to_owned();
    out.append(new_value);
    out.append(line.substring_char(ve, n));
    out
}

} // verus!
