//! Which metadata keys are volatile (timestamps and the like) and so left
//! out of membership proofs.
//!
//! The last dot-separated fragment of a key is normalized to snake case
//! and compared with a fixed list of words and suffixes.  Unicode case and
//! digit classes come from std's `char` and `str` methods; their results
//! are named here.

use vstd::prelude::*;
use crate::text::{push_char, text_eq};

verus! {

/// Whether `c` has the Unicode `Uppercase` property (`char::is_uppercase`).
pub uninterp spec fn char_is_uppercase(c: char) -> bool;

/// Whether `c` has the Unicode `Lowercase` property (`char::is_lowercase`).
pub uninterp spec fn char_is_lowercase(c: char) -> bool;

/// Whether `c` is numeric in Unicode's sense (`char::is_numeric`).
pub uninterp spec fn char_is_numeric(c: char) -> bool;

/// The first character of the lowercase mapping of `c`
/// (`char::to_lowercase`, first item).
pub uninterp spec fn char_lowercase_first(c: char) -> char;

/// The lowercase mapping of a text (`str::to_lowercase`).
pub uninterp spec fn text_to_lowercase(s: Seq<char>) -> Seq<char>;

/// An ASCII character.
pub open spec fn is_ascii_char(c: char) -> bool {
    (c as u32) < 128
}

/// The ASCII lowercase mapping: 'A'..='Z' to 'a'..='z', others kept.
pub open spec fn ascii_lower(c: char) -> char {
    if 65 <= (c as u32) <= 90 {
        ((c as u32) + 32) as char
    } else {
        c
    }
}

/// Trusted: `char::is_uppercase`; the contract names its result, and
/// states that among ASCII characters exactly 'A'..='Z' are uppercase.
#[verifier::external_body]
fn is_uppercase_char(c: char) -> (r: bool)
    ensures
        r == char_is_uppercase(c),
        is_ascii_char(c) ==> (r <==> 65 <= (c as u32) <= 90),
{
    c.is_uppercase()
}

/// Trusted: `char::is_lowercase`; the contract names its result, and
/// states that among ASCII characters exactly 'a'..='z' are lowercase.
#[verifier::external_body]
fn is_lowercase_char(c: char) -> (r: bool)
    ensures
        r == char_is_lowercase(c),
        is_ascii_char(c) ==> (r <==> 97 <= (c as u32) <= 122),
{
    c.is_lowercase()
}

/// Trusted: `char::is_numeric`; the contract names its result, and
/// states that among ASCII characters exactly '0'..='9' are numeric.
#[verifier::external_body]
fn is_numeric_char(c: char) -> (r: bool)
    ensures
        r == char_is_numeric(c),
        is_ascii_char(c) ==> (r <==> 48 <= (c as u32) <= 57),
{
    c.is_numeric()
}

/// Trusted: the first item of `char::to_lowercase`, an iterator that
/// always yields at least one character; the contract names the result,
/// and states that an ASCII character maps to its ASCII lowercase.
#[verifier::external_body]
fn lowercase_first(c: char) -> (r: char)
    ensures
        r == char_lowercase_first(c),
        is_ascii_char(c) ==> r == ascii_lower(c),
{
    c.to_lowercase().next().unwrap()
}

/// Trusted: `str::to_lowercase`; the contract names its result, and
/// states that an all-ASCII text maps character by character to ASCII
/// lowercase.
#[verifier::external_body]
pub(crate) fn lowercase_text(s: &str) -> (r: String)
    ensures
        r@ == text_to_lowercase(s@),
        (forall|i: int| 0 <= i < s@.len() ==> is_ascii_char(#[trigger] s@[i])) ==> r@ == s@.map_values(
            |c: char| ascii_lower(c),
        ),
{
    s.to_lowercase()
}

/// The text after the last '.' of `key` (all of it when it has none).
pub open spec fn last_fragment(key: Seq<char>) -> Seq<char>
    decreases key.len(),
{
    if key.len() == 0 {
        key
    } else if key[key.len() - 1] == '.' {
        Seq::empty()
    } else {
        last_fragment(key.drop_last()).push(key[key.len() - 1])
    }
}

/// `s` with every '-' replaced by '_'.
pub open spec fn dashes_to_underscores(s: Seq<char>) -> Seq<char> {
    s.map_values(|c: char| if c == '-' { '_' } else { c })
}

/// Every character is uppercase or '_'.
pub open spec fn all_upper_or_underscore(s: Seq<char>) -> bool {
    forall|i: int| 0 <= i < s.len() ==> char_is_uppercase(#[trigger] s[i]) || s[i] == '_'
}

/// camelCase to snake_case, read from the left: an uppercase character is
/// lowered and, after a lowercase letter or a digit, preceded by '_'.
/// The second component says whether the last character read was a
/// lowercase letter or a digit.
pub open spec fn snake_fold(s: Seq<char>) -> (Seq<char>, bool)
    decreases s.len(),
{
    if s.len() == 0 {
        (Seq::empty(), false)
    } else {
        let prev = snake_fold(s.drop_last());
        let ch = s[s.len() - 1];
        if char_is_uppercase(ch) {
            let base = if prev.1 {
                prev.0.push('_')
            } else {
                prev.0
            };
            (base.push(char_lowercase_first(ch)), false)
        } else {
            (prev.0.push(ch), char_is_lowercase(ch) || char_is_numeric(ch))
        }
    }
}

/// The normalized form of a key fragment: dashes become underscores; an
/// all-uppercase fragment is lowercased; any other is turned from
/// camelCase into snake_case.
pub open spec fn normalize_fragment_spec(fragment: Seq<char>) -> Seq<char> {
    let cleaned = dashes_to_underscores(fragment);
    if cleaned.len() == 0 {
        Seq::empty()
    } else if all_upper_or_underscore(cleaned) {
        text_to_lowercase(cleaned)
    } else {
        snake_fold(cleaned).0
    }
}

/// Words that mark a key as volatile.
pub open spec fn volatile_words() -> Seq<Seq<char>> {
    seq![
        "timestamp"@,
        "created"@,
        "created_at"@,
        "updated"@,
        "updated_at"@,
        "ingested"@,
        "ingested_at"@,
        "acquired"@,
        "activated"@,
        "generated"@,
        "refreshed"@,
    ]
}

/// Suffixes that mark a key as volatile.
pub open spec fn volatile_suffixes() -> Seq<Seq<char>> {
    seq!["_at"@, "_time"@, "_timestamp"@, "_ts"@]
}

/// Whether `s` ends with `suffix`.
pub open spec fn ends_with(s: Seq<char>, suffix: Seq<char>) -> bool {
    s.len() >= suffix.len() && s.subrange(s.len() - suffix.len(), s.len() as int) == suffix
}

/// A key is volatile when the normalized form of its last fragment is one
/// of the volatile words or ends with a volatile suffix.
pub open spec fn is_volatile_spec(key: Seq<char>) -> bool {
    let n = normalize_fragment_spec(last_fragment(key));
    volatile_words().contains(n) || exists|i: int|
        0 <= i < volatile_suffixes().len() && ends_with(n, #[trigger] volatile_suffixes()[i])
}

/// Every character of `s` is ASCII.
pub open spec fn all_ascii(s: Seq<char>) -> bool {
    forall|i: int| 0 <= i < s.len() ==> is_ascii_char(#[trigger] s[i])
}

/// An ASCII uppercase letter, 'A'..='Z'.
pub open spec fn ascii_upper(c: char) -> bool {
    65 <= (c as u32) <= 90
}

/// An ASCII lowercase letter or digit, 'a'..='z' or '0'..='9'.
pub open spec fn ascii_lower_or_digit(c: char) -> bool {
    97 <= (c as u32) <= 122 || 48 <= (c as u32) <= 57
}

/// Every character is an ASCII uppercase letter or '_'.
pub open spec fn all_ascii_upper_or_underscore(s: Seq<char>) -> bool {
    forall|i: int| 0 <= i < s.len() ==> ascii_upper(#[trigger] s[i]) || s[i] == '_'
}

/// `snake_fold` on ASCII text: 'A'..='Z' is lowered and, after 'a'..='z'
/// or '0'..='9', preceded by '_'.
pub open spec fn ascii_snake_fold(s: Seq<char>) -> (Seq<char>, bool)
    decreases s.len(),
{
    if s.len() == 0 {
        (Seq::empty(), false)
    } else {
        let prev = ascii_snake_fold(s.drop_last());
        let ch = s[s.len() - 1];
        if ascii_upper(ch) {
            let base = if prev.1 {
                prev.0.push('_')
            } else {
                prev.0
            };
            (base.push(ascii_lower(ch)), false)
        } else {
            (prev.0.push(ch), ascii_lower_or_digit(ch))
        }
    }
}

/// The normalized form of an all-ASCII key fragment: dashes become
/// underscores; a fragment of 'A'..='Z' and '_' alone is lowercased; any
/// other is turned from camelCase into snake_case.
pub open spec fn ascii_normalize(fragment: Seq<char>) -> Seq<char> {
    let cleaned = dashes_to_underscores(fragment);
    if cleaned.len() == 0 {
        Seq::empty()
    } else if all_ascii_upper_or_underscore(cleaned) {
        cleaned.map_values(|c: char| ascii_lower(c))
    } else {
        ascii_snake_fold(cleaned).0
    }
}

/// `is_volatile_spec` for an all-ASCII key, over `ascii_normalize`.
pub open spec fn ascii_volatile(key: Seq<char>) -> bool {
    let n = ascii_normalize(last_fragment(key));
    volatile_words().contains(n) || exists|i: int|
        0 <= i < volatile_suffixes().len() && ends_with(n, #[trigger] volatile_suffixes()[i])
}

proof fn lemma_last_fragment_ascii(key: Seq<char>)
    requires
        all_ascii(key),
    ensures
        all_ascii(last_fragment(key)),
    decreases key.len(),
{
    if key.len() > 0 && key[key.len() - 1] != '.' {
        lemma_last_fragment_ascii(key.drop_last());
        let f = last_fragment(key.drop_last());
        assert forall|i: int| 0 <= i < f.len() + 1 implies is_ascii_char(#[trigger] f.push(key[key.len() - 1])[i]) by {
            if i < f.len() {
                assert(f.push(key[key.len() - 1])[i] == f[i]);
            }
        }
    }
}

proof fn lemma_last_fragment_after(key: Seq<char>, p: int)
    requires
        0 <= p < key.len(),
        key[p] == '.',
        forall|t: int| p < t < key.len() ==> key[t] != '.',
    ensures
        last_fragment(key) == key.subrange(p + 1, key.len() as int),
    decreases key.len(),
{
    if p < key.len() - 1 {
        lemma_last_fragment_after(key.drop_last(), p);
        assert(key.subrange(p + 1, key.len() as int) =~= key.drop_last().subrange(p + 1, key.len() - 1).push(
            key[key.len() - 1],
        ));
    } else {
        assert(key.subrange(p + 1, key.len() as int) =~= Seq::<char>::empty());
    }
}

proof fn lemma_last_fragment_whole(key: Seq<char>)
    requires
        forall|t: int| 0 <= t < key.len() ==> key[t] != '.',
    ensures
        last_fragment(key) == key,
    decreases key.len(),
{
    if key.len() > 0 {
        lemma_last_fragment_whole(key.drop_last());
        assert(key.drop_last().push(key[key.len() - 1]) =~= key);
    }
}

/// The text after the last '.' of `key`.
pub fn last_key_fragment(key: &Vec<char>) -> (fragment: Vec<char>)
    ensures
        fragment@ == last_fragment(key@),
{
    let mut start: usize = 0;
    let mut i: usize = 0;
    let ghost mut dot: int = -1;
    while i < key.len()
        invariant
            0 <= i <= key@.len(),
            -1 <= dot < i,
            start == dot + 1,
            dot >= 0 ==> key@[dot] == '.',
            forall|t: int| dot < t < i ==> key@[t] != '.',
        decreases key@.len() - i,
    {
        if key[i] == '.' {
            start = i + 1;
            proof {
                dot = i as int;
            }
        }
        i = i + 1;
    }
    proof {
        if dot >= 0 {
            lemma_last_fragment_after(key@, dot);
        } else {
            lemma_last_fragment_whole(key@);
        }
    }
    let mut fragment: Vec<char> = Vec::new();
    let mut j: usize = start;
    while j < key.len()
        invariant
            start <= j <= key@.len(),
            fragment@ == key@.subrange(start as int, j as int),
        decreases key@.len() - j,
    {
        fragment.push(key[j]);
        assert(fragment@ =~= key@.subrange(start as int, j + 1));
        j = j + 1;
    }
    assert(key@.subrange(0, key@.len() as int) =~= key@);
    fragment
}

/// The normalized form of a key fragment (see `normalize_fragment_spec`).
pub fn normalize_key_fragment(fragment: &str) -> (normalized: String)
    ensures
        normalized@ == normalize_fragment_spec(fragment@),
        all_ascii(fragment@) ==> normalized@ == ascii_normalize(fragment@),
{
    let chars = crate::text::chars_of(fragment);
    let mut cleaned: Vec<char> = Vec::new();
    let mut i: usize = 0;
    while i < chars.len()
        invariant
            0 <= i <= chars@.len(),
            chars@ == fragment@,
            cleaned@ == dashes_to_underscores(chars@.subrange(0, i as int)),
        decreases chars@.len() - i,
    {
        let c = chars[i];
        if c == '-' {
            cleaned.push('_');
        } else {
            cleaned.push(c);
        }
        assert(cleaned@ =~= dashes_to_underscores(chars@.subrange(0, i + 1)));
        i = i + 1;
    }
    assert(chars@.subrange(0, chars@.len() as int) =~= chars@);
    proof {
        if all_ascii(fragment@) {
            assert forall|t: int| 0 <= t < cleaned@.len() implies is_ascii_char(#[trigger] cleaned@[t]) by {
                assert(cleaned@[t] == '_' || cleaned@[t] == fragment@[t]);
            }
        }
    }
    if cleaned.len() == 0 {
        return String::new();
    }
    let mut all_upper = true;
    let mut k: usize = 0;
    while k < cleaned.len()
        invariant
            0 <= k <= cleaned@.len(),
            all_upper == forall|t: int| 0 <= t < k ==> char_is_uppercase(#[trigger] cleaned@[t]) || cleaned@[t] == '_',
            all_ascii(cleaned@) ==> (all_upper == forall|t: int|
                0 <= t < k ==> ascii_upper(#[trigger] cleaned@[t]) || cleaned@[t] == '_'),
        decreases cleaned@.len() - k,
    {
        let c = cleaned[k];
        if !(is_uppercase_char(c) || c == '_') {
            all_upper = false;
        }
        k = k + 1;
    }
    if all_upper {
        let text = crate::text::text_of(&cleaned);
        return lowercase_text(text.as_str());
    }
    let mut result = String::new();
    let mut prev_lower = false;
    let mut m: usize = 0;
    while m < cleaned.len()
        invariant
            0 <= m <= cleaned@.len(),
            (result@, prev_lower) == snake_fold(cleaned@.subrange(0, m as int)),
            all_ascii(cleaned@) ==> (result@, prev_lower) == ascii_snake_fold(cleaned@.subrange(0, m as int)),
        decreases cleaned@.len() - m,
    {
        let ch = cleaned[m];
        proof {
            let next = cleaned@.subrange(0, m + 1);
            assert(next.drop_last() =~= cleaned@.subrange(0, m as int));
        }
        if is_uppercase_char(ch) {
            if prev_lower {
                push_char(&mut result, '_');
            }
            push_char(&mut result, lowercase_first(ch));
            prev_lower = false;
        } else {
            push_char(&mut result, ch);
            prev_lower = is_lowercase_char(ch) || is_numeric_char(ch);
        }
        m = m + 1;
    }
    assert(cleaned@.subrange(0, cleaned@.len() as int) =~= cleaned@);
    result
}

/// Whether `s` ends with `suffix`.
pub fn text_ends_with(s: &str, suffix: &str) -> (r: bool)
    ensures
        r == ends_with(s@, suffix@),
{
    let a = crate::text::chars_of(s);
    let b = crate::text::chars_of(suffix);
    if a.len() < b.len() {
        return false;
    }
    let offset = a.len() - b.len();
    let mut i: usize = 0;
    while i < b.len()
        invariant
            a@ == s@,
            b@ == suffix@,
            offset + b@.len() == a@.len(),
            0 <= i <= b@.len(),
            forall|t: int| 0 <= t < i ==> a@[offset + t] == b@[t],
        decreases b@.len() - i,
    {
        assert(offset + i < a.len());
        if a[offset + i] != b[i] {
            assert(s@.subrange(offset as int, s@.len() as int)[i as int] != suffix@[i as int]);
            return false;
        }
        i = i + 1;
    }
    assert(s@.subrange(offset as int, s@.len() as int) =~= suffix@);
    true
}

/// Whether a metadata key is volatile (see `is_volatile_spec`).
pub fn is_volatile_key(key: &str) -> (volatile: bool)
    ensures
        volatile == is_volatile_spec(key@),
        all_ascii(key@) ==> volatile == ascii_volatile(key@),
{
    let chars = crate::text::chars_of(key);
    let fragment_chars = last_key_fragment(&chars);
    let fragment = crate::text::text_of(&fragment_chars);
    let normalized = normalize_key_fragment(fragment.as_str());
    proof {
        if all_ascii(key@) {
            lemma_last_fragment_ascii(key@);
        }
    }
    let words: Vec<&str> = vec![
        "timestamp",
        "created",
        "created_at",
        "updated",
        "updated_at",
        "ingested",
        "ingested_at",
        "acquired",
        "activated",
        "generated",
        "refreshed",
    ];
    let ghost wv = words@.map_values(|w: &str| w@);
    assert(wv =~= volatile_words());
    assert(normalized@ == normalize_fragment_spec(last_fragment(key@)));
    assert(all_ascii(key@) ==> normalized@ == ascii_normalize(last_fragment(key@)));
    let mut i: usize = 0;
    while i < words.len()
        invariant
            0 <= i <= words@.len(),
            wv == words@.map_values(|w: &str| w@),
            wv == volatile_words(),
            normalized@ == normalize_fragment_spec(last_fragment(key@)),
            all_ascii(key@) ==> normalized@ == ascii_normalize(last_fragment(key@)),
            forall|t: int| 0 <= t < i ==> wv[t] != normalized@,
        decreases words@.len() - i,
    {
        if text_eq(normalized.as_str(), words[i]) {
            assert(wv[i as int] == normalized@);
            assert(volatile_words()[i as int] == normalized@);
            return true;
        }
        i = i + 1;
    }
    assert(!volatile_words().contains(normalized@));
    let suffixes: Vec<&str> = vec!["_at", "_time", "_timestamp", "_ts"];
    let ghost sv = suffixes@.map_values(|w: &str| w@);
    assert(sv =~= volatile_suffixes());
    let mut j: usize = 0;
    while j < suffixes.len()
        invariant
            0 <= j <= suffixes@.len(),
            sv == suffixes@.map_values(|w: &str| w@),
            sv == volatile_suffixes(),
            normalized@ == normalize_fragment_spec(last_fragment(key@)),
            all_ascii(key@) ==> normalized@ == ascii_normalize(last_fragment(key@)),
            forall|t: int| 0 <= t < j ==> !ends_with(normalized@, #[trigger] sv[t]),
        decreases suffixes@.len() - j,
    {
        if text_ends_with(normalized.as_str(), suffixes[j]) {
            assert(ends_with(normalized@, sv[j as int]));
            assert(ends_with(normalized@, volatile_suffixes()[j as int]));
            return true;
        }
        j = j + 1;
    }
    false
}


/// A volatile normalized fragment: one of the words timestamp, created,
/// created_at, updated, updated_at, ingested, ingested_at, acquired,
/// activated, generated, refreshed, or ending in _at, _time, _timestamp or
/// _ts (the lists written out).
proof fn lemma_volatile_fragment(n: Seq<char>)
    ensures
        (volatile_words().contains(n) || exists|i: int|
            0 <= i < volatile_suffixes().len() && ends_with(n, #[trigger] volatile_suffixes()[i])) <==> (n == "timestamp"@ || n == "created"@ || n == "created_at"@ || n == "updated"@ || n == "updated_at"@ || n == "ingested"@ || n == "ingested_at"@ || n == "acquired"@ || n == "activated"@ || n == "generated"@ || n == "refreshed"@ || ends_with(n, "_at"@) || ends_with(n, "_time"@) || ends_with(n, "_timestamp"@) || ends_with(n, "_ts"@)),
{
    assert(volatile_words()[0] == "timestamp"@);
    assert(volatile_words()[1] == "created"@);
    assert(volatile_words()[2] == "created_at"@);
    assert(volatile_words()[3] == "updated"@);
    assert(volatile_words()[4] == "updated_at"@);
    assert(volatile_words()[5] == "ingested"@);
    assert(volatile_words()[6] == "ingested_at"@);
    assert(volatile_words()[7] == "acquired"@);
    assert(volatile_words()[8] == "activated"@);
    assert(volatile_words()[9] == "generated"@);
    assert(volatile_words()[10] == "refreshed"@);
    assert(volatile_suffixes()[0] == "_at"@);
    assert(volatile_suffixes()[1] == "_time"@);
    assert(volatile_suffixes()[2] == "_timestamp"@);
    assert(volatile_suffixes()[3] == "_ts"@);
    if volatile_words().contains(n) {
        let i = choose|i: int| 0 <= i < volatile_words().len() && volatile_words()[i] == n;
    }
    if exists|i: int| 0 <= i < volatile_suffixes().len() && ends_with(n, #[trigger] volatile_suffixes()[i]) {
        let i = choose|i: int| 0 <= i < volatile_suffixes().len() && ends_with(n, #[trigger] volatile_suffixes()[i]);
    }
}

/// Law: a key is volatile exactly when the normalized text after its last
/// '.' is one of timestamp, created, created_at, updated, updated_at,
/// ingested, ingested_at, acquired, activated, generated, refreshed, or
/// ends in _at, _time, _timestamp or _ts; for all-ASCII keys the
/// normalization is `ascii_normalize`.
pub proof fn lemma_volatile_key_words(key: Seq<char>)
    ensures
        is_volatile_spec(key) <==> ({
            let n = normalize_fragment_spec(last_fragment(key));
            n == "timestamp"@ || n == "created"@ || n == "created_at"@ || n == "updated"@ || n == "updated_at"@ || n == "ingested"@ || n == "ingested_at"@ || n == "acquired"@ || n == "activated"@ || n == "generated"@ || n == "refreshed"@ || ends_with(n, "_at"@) || ends_with(n, "_time"@) || ends_with(n, "_timestamp"@) || ends_with(n, "_ts"@)
        }),
        ascii_volatile(key) <==> ({
            let n = ascii_normalize(last_fragment(key));
            n == "timestamp"@ || n == "created"@ || n == "created_at"@ || n == "updated"@ || n == "updated_at"@ || n == "ingested"@ || n == "ingested_at"@ || n == "acquired"@ || n == "activated"@ || n == "generated"@ || n == "refreshed"@ || ends_with(n, "_at"@) || ends_with(n, "_time"@) || ends_with(n, "_timestamp"@) || ends_with(n, "_ts"@)
        }),
{
    lemma_volatile_fragment(normalize_fragment_spec(last_fragment(key)));
    lemma_volatile_fragment(ascii_normalize(last_fragment(key)));
}

/// A text of 'a'..='z' and '_' is its own snake form.
proof fn lemma_snake_fold_lower(s: Seq<char>)
    requires
        forall|i: int| 0 <= i < s.len() ==> (97 <= (#[trigger] s[i] as u32) <= 122 || s[i] == '_'),
    ensures
        ascii_snake_fold(s).0 == s,
    decreases s.len(),
{
    if s.len() > 0 {
        lemma_snake_fold_lower(s.drop_last());
        assert(s.drop_last().push(s[s.len() - 1]) =~= s);
    }
}

/// A word of 'a'..='z' and '_' with at least one letter normalizes to
/// itself, alone or after a '.'.
proof fn lemma_lower_word_fragment(w: Seq<char>, prefix: Seq<char>)
    requires
        w.len() > 0,
        97 <= (w[0] as u32) <= 122,
        forall|i: int| 0 <= i < w.len() ==> (97 <= (#[trigger] w[i] as u32) <= 122 || w[i] == '_'),
    ensures
        ascii_normalize(last_fragment(w)) == w,
        ascii_normalize(last_fragment(prefix + "."@ + w)) == w,
{
    reveal_strlit(".");
    lemma_last_fragment_whole(w);
    let key = prefix + "."@ + w;
    assert forall|t: int| prefix.len() < t < key.len() implies key[t] != '.' by {
        assert(key[t] == w[t - prefix.len() - 1]);
    }
    lemma_last_fragment_after(key, prefix.len() as int);
    assert(key.subrange(prefix.len() as int + 1, key.len() as int) =~= w);
    assert(dashes_to_underscores(w) =~= w);
    assert(!all_ascii_upper_or_underscore(w)) by {
        assert(!(ascii_upper(w[0]) || w[0] == '_'));
    }
    lemma_snake_fold_lower(w);
}

/// Law: each of the words timestamp, created, created_at, updated,
/// updated_at, ingested, ingested_at, acquired, activated, generated and
/// refreshed is a volatile key, alone or as the last fragment of a dotted
/// key.
pub proof fn lemma_volatile_words_listed(prefix: Seq<char>)
    ensures
        ascii_volatile("timestamp"@),
        ascii_volatile(prefix + "."@ + "timestamp"@),
        ascii_volatile("created"@),
        ascii_volatile(prefix + "."@ + "created"@),
        ascii_volatile("created_at"@),
        ascii_volatile(prefix + "."@ + "created_at"@),
        ascii_volatile("updated"@),
        ascii_volatile(prefix + "."@ + "updated"@),
        ascii_volatile("updated_at"@),
        ascii_volatile(prefix + "."@ + "updated_at"@),
        ascii_volatile("ingested"@),
        ascii_volatile(prefix + "."@ + "ingested"@),
        ascii_volatile("ingested_at"@),
        ascii_volatile(prefix + "."@ + "ingested_at"@),
        ascii_volatile("acquired"@),
        ascii_volatile(prefix + "."@ + "acquired"@),
        ascii_volatile("activated"@),
        ascii_volatile(prefix + "."@ + "activated"@),
        ascii_volatile("generated"@),
        ascii_volatile(prefix + "."@ + "generated"@),
        ascii_volatile("refreshed"@),
        ascii_volatile(prefix + "."@ + "refreshed"@),
{
    reveal_strlit("timestamp");
    reveal_strlit("created");
    reveal_strlit("created_at");
    reveal_strlit("updated");
    reveal_strlit("updated_at");
    reveal_strlit("ingested");
    reveal_strlit("ingested_at");
    reveal_strlit("acquired");
    reveal_strlit("activated");
    reveal_strlit("generated");
    reveal_strlit("refreshed");
    reveal_strlit("_at");
    reveal_strlit("_time");
    reveal_strlit("_timestamp");
    reveal_strlit("_ts");
    assert forall|i: int| 0 <= i < "timestamp"@.len() implies (97 <= (#[trigger] "timestamp"@[i] as u32) <= 122 || "timestamp"@[i] == '_') by {}
    lemma_lower_word_fragment("timestamp"@, prefix);
    lemma_volatile_key_words("timestamp"@);
    lemma_volatile_key_words(prefix + "."@ + "timestamp"@);
    assert forall|i: int| 0 <= i < "created"@.len() implies (97 <= (#[trigger] "created"@[i] as u32) <= 122 || "created"@[i] == '_') by {}
    lemma_lower_word_fragment("created"@, prefix);
    lemma_volatile_key_words("created"@);
    lemma_volatile_key_words(prefix + "."@ + "created"@);
    assert forall|i: int| 0 <= i < "created_at"@.len() implies (97 <= (#[trigger] "created_at"@[i] as u32) <= 122 || "created_at"@[i] == '_') by {}
    lemma_lower_word_fragment("created_at"@, prefix);
    lemma_volatile_key_words("created_at"@);
    lemma_volatile_key_words(prefix + "."@ + "created_at"@);
    assert forall|i: int| 0 <= i < "updated"@.len() implies (97 <= (#[trigger] "updated"@[i] as u32) <= 122 || "updated"@[i] == '_') by {}
    lemma_lower_word_fragment("updated"@, prefix);
    lemma_volatile_key_words("updated"@);
    lemma_volatile_key_words(prefix + "."@ + "updated"@);
    assert forall|i: int| 0 <= i < "updated_at"@.len() implies (97 <= (#[trigger] "updated_at"@[i] as u32) <= 122 || "updated_at"@[i] == '_') by {}
    lemma_lower_word_fragment("updated_at"@, prefix);
    lemma_volatile_key_words("updated_at"@);
    lemma_volatile_key_words(prefix + "."@ + "updated_at"@);
    assert forall|i: int| 0 <= i < "ingested"@.len() implies (97 <= (#[trigger] "ingested"@[i] as u32) <= 122 || "ingested"@[i] == '_') by {}
    lemma_lower_word_fragment("ingested"@, prefix);
    lemma_volatile_key_words("ingested"@);
    lemma_volatile_key_words(prefix + "."@ + "ingested"@);
    assert forall|i: int| 0 <= i < "ingested_at"@.len() implies (97 <= (#[trigger] "ingested_at"@[i] as u32) <= 122 || "ingested_at"@[i] == '_') by {}
    lemma_lower_word_fragment("ingested_at"@, prefix);
    lemma_volatile_key_words("ingested_at"@);
    lemma_volatile_key_words(prefix + "."@ + "ingested_at"@);
    assert forall|i: int| 0 <= i < "acquired"@.len() implies (97 <= (#[trigger] "acquired"@[i] as u32) <= 122 || "acquired"@[i] == '_') by {}
    lemma_lower_word_fragment("acquired"@, prefix);
    lemma_volatile_key_words("acquired"@);
    lemma_volatile_key_words(prefix + "."@ + "acquired"@);
    assert forall|i: int| 0 <= i < "activated"@.len() implies (97 <= (#[trigger] "activated"@[i] as u32) <= 122 || "activated"@[i] == '_') by {}
    lemma_lower_word_fragment("activated"@, prefix);
    lemma_volatile_key_words("activated"@);
    lemma_volatile_key_words(prefix + "."@ + "activated"@);
    assert forall|i: int| 0 <= i < "generated"@.len() implies (97 <= (#[trigger] "generated"@[i] as u32) <= 122 || "generated"@[i] == '_') by {}
    lemma_lower_word_fragment("generated"@, prefix);
    lemma_volatile_key_words("generated"@);
    lemma_volatile_key_words(prefix + "."@ + "generated"@);
    assert forall|i: int| 0 <= i < "refreshed"@.len() implies (97 <= (#[trigger] "refreshed"@[i] as u32) <= 122 || "refreshed"@[i] == '_') by {}
    lemma_lower_word_fragment("refreshed"@, prefix);
    lemma_volatile_key_words("refreshed"@);
    lemma_volatile_key_words(prefix + "."@ + "refreshed"@);
}

} // verus!
