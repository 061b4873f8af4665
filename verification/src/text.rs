//! Character-sequence helpers shared by the site builder: prefix and
//! suffix tests, searching, splitting, trimming, decimal numbers, and the
//! conversions between `&str`/`String` and `Vec<char>`.

use vstd::prelude::*;

verus! {

// ---------------------------------------------------------------------------
// Specifications
// ---------------------------------------------------------------------------

/// `p` is a prefix of `s`.
pub open spec fn starts_with(s: Seq<char>, p: Seq<char>) -> bool {
    p.len() <= s.len() && s.subrange(0, p.len() as int) == p
}

/// `p` is a suffix of `s`.
pub open spec fn ends_with(s: Seq<char>, p: Seq<char>) -> bool {
    p.len() <= s.len() && s.subrange(s.len() - p.len(), s.len() as int) == p
}

/// A suffix fixes the last characters: the last three (as far as the
/// suffix reaches) are the suffix's own.
pub proof fn lemma_end_chars(s: Seq<char>, p: Seq<char>)
    requires
        ends_with(s, p),
    ensures
        p.len() >= 1 ==> s[s.len() - 1] == p[p.len() - 1],
        p.len() >= 2 ==> s[s.len() - 2] == p[p.len() - 2],
        p.len() >= 3 ==> s[s.len() - 3] == p[p.len() - 3],
{
    let t = s.subrange(s.len() - p.len(), s.len() as int);
    if p.len() >= 1 {
        assert(t[p.len() - 1] == s[s.len() - 1]);
    }
    if p.len() >= 2 {
        assert(t[p.len() - 2] == s[s.len() - 2]);
    }
    if p.len() >= 3 {
        assert(t[p.len() - 3] == s[s.len() - 3]);
    }
}

/// `p` occurs in `s` starting at index `i`.
pub open spec fn occurs_at(s: Seq<char>, p: Seq<char>, i: int) -> bool {
    0 <= i && i + p.len() <= s.len() && s.subrange(i, i + p.len()) == p
}

/// `p` occurs somewhere in `s`.
pub open spec fn contains_seq(s: Seq<char>, p: Seq<char>) -> bool {
    exists|i: int| occurs_at(s, p, i)
}

/// `i` is the first index at which `p` occurs in `s`.
pub open spec fn first_occurrence(s: Seq<char>, p: Seq<char>, i: int) -> bool {
    occurs_at(s, p, i) && forall|j: int| 0 <= j < i ==> !occurs_at(s, p, j)
}

/// `i` is the first index of the character `c` in `s`.
pub open spec fn first_char_index(s: Seq<char>, c: char, i: int) -> bool {
    0 <= i < s.len() && s[i] == c && forall|j: int| 0 <= j < i ==> s[j] != c
}

/// `i` is the last index of the character `c` in `s`.
pub open spec fn last_char_index(s: Seq<char>, c: char, i: int) -> bool {
    0 <= i < s.len() && s[i] == c && forall|j: int| i < j < s.len() ==> s[j] != c
}

/// `c` does not occur in `s`.
pub open spec fn lacks_char(s: Seq<char>, c: char) -> bool {
    forall|j: int| 0 <= j < s.len() ==> s[j] != c
}

/// The pieces of `s` between occurrences of `sep`, in order (as `str::split`
/// with a character pattern): there is always one more piece than there are
/// separators, and empty pieces are kept.
pub open spec fn split_char(s: Seq<char>, sep: char) -> Seq<Seq<char>>
    decreases s.len(),
{
    if s.len() == 0 {
        seq![Seq::<char>::empty()]
    } else {
        let init = split_char(s.drop_last(), sep);
        if s.last() == sep {
            init.push(Seq::<char>::empty())
        } else {
            init.update(init.len() - 1, init.last().push(s.last()))
        }
    }
}

/// Unicode `White_Space` characters, the set that `char::is_whitespace`
/// and `str::trim` use.
pub open spec fn is_white_space(c: char) -> bool {
    ||| c == '\t'
    ||| c == '\n'
    ||| c == '\u{0B}'
    ||| c == '\u{0C}'
    ||| c == '\r'
    ||| c == ' '
    ||| c == '\u{85}'
    ||| c == '\u{A0}'
    ||| c == '\u{1680}'
    ||| ('\u{2000}' <= c && c <= '\u{200A}')
    ||| c == '\u{2028}'
    ||| c == '\u{2029}'
    ||| c == '\u{202F}'
    ||| c == '\u{205F}'
    ||| c == '\u{3000}'
}

/// Drop the leading characters of `s` for which `f` holds.
pub open spec fn trim_start_by(s: Seq<char>, f: spec_fn(char) -> bool) -> Seq<char>
    decreases s.len(),
{
    if s.len() > 0 && f(s[0]) {
        trim_start_by(s.drop_first(), f)
    } else {
        s
    }
}

/// Drop the trailing characters of `s` for which `f` holds.
pub open spec fn trim_end_by(s: Seq<char>, f: spec_fn(char) -> bool) -> Seq<char>
    decreases s.len(),
{
    if s.len() > 0 && f(s.last()) {
        trim_end_by(s.drop_last(), f)
    } else {
        s
    }
}

pub open spec fn ws_pred() -> spec_fn(char) -> bool {
    |c: char| is_white_space(c)
}

pub open spec fn char_pred(x: char) -> spec_fn(char) -> bool {
    |c: char| c == x
}

/// `str::trim`: leading and trailing white space removed.
pub open spec fn trim(s: Seq<char>) -> Seq<char> {
    trim_end_by(trim_start_by(s, ws_pred()), ws_pred())
}

/// `str::trim_matches(c)`: leading and trailing `c` removed.
pub open spec fn trim_matches(s: Seq<char>, c: char) -> Seq<char> {
    trim_end_by(trim_start_by(s, char_pred(c)), char_pred(c))
}

/// ASCII case folding of a single character.
pub open spec fn ascii_lower_char(c: char) -> char {
    if 'A' <= c && c <= 'Z' {
        ((c as u32) + 32) as char
    } else {
        c
    }
}

/// ASCII upper-casing of a single character.
pub open spec fn ascii_upper_char(c: char) -> char {
    if 'a' <= c && c <= 'z' {
        ((c as u32) - 32) as char
    } else {
        c
    }
}

/// Every character of `s` is ASCII.
pub open spec fn all_ascii(s: Seq<char>) -> bool {
    forall|i: int| 0 <= i < s.len() ==> (s[i] as u32) < 128
}

/// ASCII lower-casing of a whole sequence.
pub open spec fn ascii_lower(s: Seq<char>) -> Seq<char> {
    s.map_values(|c: char| ascii_lower_char(c))
}

/// What `str::to_lowercase` returns for `s` (of interest where `s` is not
/// all ASCII; see [`lower_text`]).
pub uninterp spec fn unicode_lowercase(s: Seq<char>) -> Seq<char>;

/// What `char::to_uppercase` yields for `c` (of interest where `c` is not
/// ASCII; see [`upper_char_text`]).
pub uninterp spec fn unicode_uppercase_char(c: char) -> Seq<char>;

/// `s` lowercased as `str::to_lowercase` does: by the ASCII rule when `s`
/// is all ASCII, else by Unicode's rules (named, not written out).
pub open spec fn lower_text(s: Seq<char>) -> Seq<char> {
    if all_ascii(s) {
        ascii_lower(s)
    } else {
        unicode_lowercase(s)
    }
}

/// `c` uppercased as `char::to_uppercase` does: by the ASCII rule for an
/// ASCII character, else by Unicode's rules (named, not written out).
pub open spec fn upper_char_text(c: char) -> Seq<char> {
    if (c as u32) < 128 {
        seq![ascii_upper_char(c)]
    } else {
        unicode_uppercase_char(c)
    }
}

/// On ASCII text the lowercasing is the ASCII rule.
pub proof fn lemma_lower_text_ascii(s: Seq<char>)
    requires
        all_ascii(s),
    ensures
        lower_text(s) == ascii_lower(s),
{
}

/// `c` is an ASCII decimal digit.
pub open spec fn is_digit(c: char) -> bool {
    '0' <= c && c <= '9'
}

pub open spec fn digit_value(c: char) -> nat {
    ((c as u32) - ('0' as u32)) as nat
}

pub open spec fn digit_char(d: nat) -> char {
    if d == 0 {
        '0'
    } else if d == 1 {
        '1'
    } else if d == 2 {
        '2'
    } else if d == 3 {
        '3'
    } else if d == 4 {
        '4'
    } else if d == 5 {
        '5'
    } else if d == 6 {
        '6'
    } else if d == 7 {
        '7'
    } else if d == 8 {
        '8'
    } else {
        '9'
    }
}

/// Value of a sequence of decimal digits.
pub open spec fn decimal_value(d: Seq<char>) -> nat
    decreases d.len(),
{
    if d.len() == 0 {
        0
    } else {
        decimal_value(d.drop_last()) * 10 + digit_value(d.last())
    }
}

pub open spec fn all_digits(d: Seq<char>) -> bool {
    forall|i: int| 0 <= i < d.len() ==> is_digit(#[trigger] d[i])
}

/// What `str::parse` gives for an unsigned integer type whose largest value
/// is `max`: an optional `+`, then at least one ASCII digit, and a value
/// that fits.
pub open spec fn parse_unsigned(s: Seq<char>, max: nat) -> Option<nat> {
    let digits = if s.len() > 0 && s[0] == '+' {
        s.drop_first()
    } else {
        s
    };
    if digits.len() > 0 && all_digits(digits) && decimal_value(digits) <= max {
        Some(decimal_value(digits))
    } else {
        None
    }
}

/// Decimal digits of `n` without leading zeros (as `Display` for integers).
pub open spec fn decimal_digits(n: nat) -> Seq<char>
    decreases n,
{
    if n < 10 {
        seq![digit_char(n)]
    } else {
        decimal_digits(n / 10).push(digit_char(n % 10))
    }
}

/// Concatenation of `parts`, with `sep` between consecutive parts.
pub open spec fn join(parts: Seq<Seq<char>>, sep: Seq<char>) -> Seq<char>
    decreases parts.len(),
{
    if parts.len() == 0 {
        Seq::empty()
    } else if parts.len() == 1 {
        parts[0]
    } else {
        join(parts.drop_last(), sep) + sep + parts.last()
    }
}

/// Index of the first occurrence of `c` in `s`, if any.
pub open spec fn find_char_opt(s: Seq<char>, c: char) -> Option<int> {
    if exists|i: int| first_char_index(s, c, i) {
        Some(choose|i: int| first_char_index(s, c, i))
    } else {
        None
    }
}

/// The first index of a character is what the search finds.
pub proof fn lemma_find_char_some(s: Seq<char>, c: char, i: int)
    requires
        first_char_index(s, c, i),
    ensures
        find_char_opt(s, c) == Some(i),
{
    let k = choose|k: int| first_char_index(s, c, k);
    assert(first_char_index(s, c, k));
    if k < i {
        assert(s[k] != c);
    } else if i < k {
        assert(s[i] != c);
    }
}

/// A text without the character has no index for it.
pub proof fn lemma_find_char_none(s: Seq<char>, c: char)
    requires
        lacks_char(s, c),
    ensures
        find_char_opt(s, c) is None,
{
    assert forall|i: int| !first_char_index(s, c, i) by {
        if 0 <= i < s.len() {
            assert(s[i] != c);
        }
    }
}

/// Index of the first occurrence of `p` in `s`, if any.
pub open spec fn find_seq_opt(s: Seq<char>, p: Seq<char>) -> Option<int> {
    if exists|i: int| first_occurrence(s, p, i) {
        Some(choose|i: int| first_occurrence(s, p, i))
    } else {
        None
    }
}

/// Index of the last occurrence of `c` in `s`, if any.
pub open spec fn rfind_char_opt(s: Seq<char>, c: char) -> Option<int> {
    if exists|i: int| last_char_index(s, c, i) {
        Some(choose|i: int| last_char_index(s, c, i))
    } else {
        None
    }
}

// ---------------------------------------------------------------------------
// Lemmas
// ---------------------------------------------------------------------------

/// Trimming the start stops at the first character the predicate rejects.
pub proof fn lemma_trim_start_at(s: Seq<char>, f: spec_fn(char) -> bool, i: int)
    requires
        0 <= i <= s.len(),
        forall|j: int| 0 <= j < i ==> f(#[trigger] s[j]),
        i == s.len() || !f(s[i]),
    ensures
        trim_start_by(s, f) == s.subrange(i, s.len() as int),
    decreases i,
{
    if i == 0 {
        assert(s.subrange(0, s.len() as int) =~= s);
    } else {
        let t = s.drop_first();
        assert forall|j: int| 0 <= j < i - 1 implies f(#[trigger] t[j]) by {
            assert(t[j] == s[j + 1]);
        }
        assert(f(s[0]));
        lemma_trim_start_at(t, f, i - 1);
        assert(t.subrange(i - 1, t.len() as int) =~= s.subrange(i, s.len() as int));
    }
}

/// Trimming the end stops after the last character the predicate rejects.
pub proof fn lemma_trim_end_at(s: Seq<char>, f: spec_fn(char) -> bool, k: int)
    requires
        0 <= k <= s.len(),
        forall|j: int| k <= j < s.len() ==> f(#[trigger] s[j]),
        k == 0 || !f(s[k - 1]),
    ensures
        trim_end_by(s, f) == s.subrange(0, k),
    decreases s.len() - k,
{
    if k == s.len() {
        assert(s.subrange(0, s.len() as int) =~= s);
    } else {
        let t = s.drop_last();
        assert forall|j: int| k <= j < t.len() implies f(#[trigger] t[j]) by {
            assert(t[j] == s[j]);
        }
        assert(f(s.last()));
        lemma_trim_end_at(t, f, k);
        assert(t.subrange(0, k) =~= s.subrange(0, k));
    }
}

/// Splitting one more character either starts a new part or extends the last.
pub proof fn lemma_split_step(s: Seq<char>, sep: char, i: int)
    requires
        0 <= i < s.len(),
    ensures
        split_char(s.take(i + 1), sep) == (if s[i] == sep {
            split_char(s.take(i), sep).push(Seq::<char>::empty())
        } else {
            let init = split_char(s.take(i), sep);
            init.update(init.len() - 1, init.last().push(s[i]))
        }),
{
    assert(s.take(i + 1).drop_last() =~= s.take(i));
    assert(s.take(i + 1).last() == s[i]);
}

/// Splitting always gives at least one part.
pub proof fn lemma_split_nonempty(s: Seq<char>, sep: char)
    ensures
        split_char(s, sep).len() >= 1,
    decreases s.len(),
{
    if s.len() > 0 {
        lemma_split_nonempty(s.drop_last(), sep);
    }
}

/// A string without the separator splits into itself alone.
pub proof fn lemma_split_no_sep(s: Seq<char>, sep: char)
    requires
        lacks_char(s, sep),
    ensures
        split_char(s, sep) == seq![s],
    decreases s.len(),
{
    if s.len() == 0 {
        assert(s =~= Seq::<char>::empty());
    } else {
        let t = s.drop_last();
        assert(lacks_char(t, sep));
        assert(s[s.len() - 1] != sep);
        lemma_split_no_sep(t, sep);
        assert(t.push(s.last()) =~= s);
        assert(seq![t].update(0, t.push(s.last())) =~= seq![s]);
    }
}

/// One more digit multiplies the value by ten and adds the digit.
pub proof fn lemma_decimal_value_step(d: Seq<char>, i: int)
    requires
        0 <= i < d.len(),
    ensures
        decimal_value(d.take(i + 1)) == decimal_value(d.take(i)) * 10 + digit_value(d[i]),
{
    assert(d.take(i + 1).drop_last() =~= d.take(i));
}

/// A longer prefix of digits is worth at least as much.
pub proof fn lemma_decimal_value_mono(d: Seq<char>, i: int, j: int)
    requires
        0 <= i <= j <= d.len(),
    ensures
        decimal_value(d.take(i)) <= decimal_value(d.take(j)),
    decreases j - i,
{
    if i < j {
        lemma_decimal_value_mono(d, i, j - 1);
        lemma_decimal_value_step(d, j - 1);
    }
}

/// The decimal digits of a number are digits, at least one, and read back as the number.
pub proof fn lemma_decimal_digits_ok(n: nat)
    ensures
        all_digits(decimal_digits(n)),
        decimal_digits(n).len() >= 1,
        decimal_value(decimal_digits(n)) == n,
    decreases n,
{
    if n < 10 {
        let q = seq![digit_char(n)];
        assert(q.drop_last() =~= Seq::<char>::empty());
        assert(decimal_value(Seq::<char>::empty()) == 0);
        assert(digit_value(digit_char(n)) == n);
        assert(decimal_value(q) == decimal_value(q.drop_last()) * 10 + digit_value(q.last()));
    } else {
        lemma_decimal_digits_ok(n / 10);
        let p = decimal_digits(n / 10);
        let q = p.push(digit_char(n % 10));
        assert(q.drop_last() =~= p);
        assert(digit_value(digit_char(n % 10)) == n % 10);
        assert((n / 10) * 10 + n % 10 == n) by (nonlinear_arith);
        assert(decimal_value(q) == decimal_value(p) * 10 + digit_value(q.last()));
        assert forall|i: int| 0 <= i < q.len() implies is_digit(#[trigger] q[i]) by {
            if i < p.len() {
                assert(q[i] == p[i]);
            }
        }
    }
}

/// Joining one more part adds the separator and the part.
pub proof fn lemma_join_step(parts: Seq<Seq<char>>, sep: Seq<char>, i: int)
    requires
        1 <= i < parts.len(),
    ensures
        join(parts.take(i + 1), sep) == join(parts.take(i), sep) + sep + parts[i],
{
    assert(parts.take(i + 1).drop_last() =~= parts.take(i));
}

// ---------------------------------------------------------------------------
// Conversions (thin wrappers over std)
// ---------------------------------------------------------------------------

/// `str::chars` collected into a vector: the characters of `s` in order.
#[verifier::external_body]
pub(crate) fn str_chars(s: &str) -> (r: Vec<char>)
    ensures
        r@ == s@,
{
    s.chars().collect()
}

/// `String: FromIterator<char>`: the string made of the characters of `v`.
#[verifier::external_body]
pub(crate) fn chars_to_string(v: &[char]) -> (r: String)
    ensures
        r@ == v@,
{
    v.iter().collect()
}

/// `str::to_lowercase`. Its result is named; on ASCII input std lowercases
/// `A`..`Z` and leaves every other ASCII character as it is. What it does
/// with the rest of Unicode is left to the name.
#[verifier::external_body]
pub(crate) fn to_lowercase(s: &str) -> (r: String)
    ensures
        r@ == lower_text(s@),
        !all_ascii(s@) ==> r@ == unicode_lowercase(s@),
{
    s.to_lowercase()
}

/// `char::to_uppercase`, collected. Its result is named; for an ASCII
/// character it is that character upper-cased by the ASCII rule.
#[verifier::external_body]
pub(crate) fn char_to_uppercase(c: char) -> (r: Vec<char>)
    ensures
        r@ == upper_char_text(c),
        (c as u32) >= 128 ==> r@ == unicode_uppercase_char(c),
{
    c.to_uppercase().collect()
}

// ---------------------------------------------------------------------------
// Executable helpers
// ---------------------------------------------------------------------------

pub fn vec_starts_with(s: &[char], p: &[char]) -> (r: bool)
    ensures
        r == starts_with(s@, p@),
{
    if p.len() > s.len() {
        return false;
    }
    let mut i: usize = 0;
    while i < p.len()
        invariant
            p.len() <= s.len(),
            i <= p.len(),
            forall|j: int| 0 <= j < i ==> s@[j] == p@[j],
        decreases p.len() - i,
    {
        if s[i] != p[i] {
            assert(s@.subrange(0, p.len() as int)[i as int] != p@[i as int]);
            return false;
        }
        i += 1;
    }
    assert(s@.subrange(0, p.len() as int) =~= p@);
    true
}

pub fn vec_ends_with(s: &[char], p: &[char]) -> (r: bool)
    ensures
        r == ends_with(s@, p@),
{
    if p.len() > s.len() {
        return false;
    }
    let off = s.len() - p.len();
    let mut i: usize = 0;
    while i < p.len()
        invariant
            p.len() <= s.len(),
            off == s.len() - p.len(),
            i <= p.len(),
            forall|j: int| 0 <= j < i ==> s@[off + j] == p@[j],
        decreases p.len() - i,
    {
        if s[off + i] != p[i] {
            assert(s@.subrange(off as int, s.len() as int)[i as int] != p@[i as int]);
            return false;
        }
        i += 1;
    }
    assert(s@.subrange(off as int, s.len() as int) =~= p@);
    true
}

/// Whether `p` occurs in `s` at `i`.
pub fn occurs_at_exec(s: &[char], p: &[char], i: usize) -> (r: bool)
    ensures
        r == occurs_at(s@, p@, i as int),
{
    if i > s.len() || p.len() > s.len() - i {
        return false;
    }
    let mut k: usize = 0;
    while k < p.len()
        invariant
            i + p.len() <= s.len(),
            k <= p.len(),
            forall|j: int| 0 <= j < k ==> s@[i + j] == p@[j],
        decreases p.len() - k,
    {
        if s[i + k] != p[k] {
            assert(s@.subrange(i as int, i + p.len())[k as int] != p@[k as int]);
            return false;
        }
        k += 1;
    }
    assert(s@.subrange(i as int, i + p.len()) =~= p@);
    true
}

/// First index at which `p` occurs in `s`.
pub fn find_seq(s: &[char], p: &[char]) -> (r: Option<usize>)
    ensures
        r matches Some(i) ==> first_occurrence(s@, p@, i as int),
        r is None ==> !contains_seq(s@, p@),
{
    let mut i: usize = 0;
    while i < s.len()
        invariant
            i <= s.len(),
            forall|j: int| 0 <= j < i ==> !occurs_at(s@, p@, j),
        decreases s.len() - i,
    {
        if occurs_at_exec(s, p, i) {
            return Some(i);
        }
        i += 1;
    }
    if occurs_at_exec(s, p, s.len()) {
        return Some(s.len());
    }
    assert forall|j: int| !occurs_at(s@, p@, j) by {
        if j > s.len() {
        }
    }
    None
}

/// Whether `p` occurs in `s`.
pub fn contains_exec(s: &[char], p: &[char]) -> (r: bool)
    ensures
        r == contains_seq(s@, p@),
{
    match find_seq(s, p) {
        Some(_) => true,
        None => false,
    }
}

/// First index of `c` in `s`.
pub fn find_char(s: &[char], c: char) -> (r: Option<usize>)
    ensures
        r matches Some(i) ==> first_char_index(s@, c, i as int),
        r is None ==> lacks_char(s@, c),
{
    let mut i: usize = 0;
    while i < s.len()
        invariant
            i <= s.len(),
            forall|j: int| 0 <= j < i ==> s@[j] != c,
        decreases s.len() - i,
    {
        if s[i] == c {
            return Some(i);
        }
        i += 1;
    }
    None
}

/// Last index of `c` in `s`.
pub fn rfind_char(s: &[char], c: char) -> (r: Option<usize>)
    ensures
        r matches Some(i) ==> last_char_index(s@, c, i as int),
        r is None ==> lacks_char(s@, c),
{
    let mut k: usize = s.len();
    while k > 0
        invariant
            k <= s.len(),
            forall|j: int| k <= j < s.len() ==> s@[j] != c,
        decreases k,
    {
        if s[k - 1] == c {
            return Some(k - 1);
        }
        k -= 1;
    }
    None
}

/// The characters `s[from..to]`.
pub fn slice_chars(s: &[char], from: usize, to: usize) -> (r: Vec<char>)
    requires
        from <= to <= s.len(),
    ensures
        r@ == s@.subrange(from as int, to as int),
{
    let mut r: Vec<char> = Vec::new();
    let mut i = from;
    while i < to
        invariant
            from <= i <= to <= s.len(),
            r@ == s@.subrange(from as int, i as int),
        decreases to - i,
    {
        r.push(s[i]);
        assert(s@.subrange(from as int, i + 1) =~= s@.subrange(from as int, i as int).push(s@[i as int]));
        i += 1;
    }
    r
}

/// Append the characters of `b` to `a`.
pub fn append_chars(a: &mut Vec<char>, b: &[char])
    ensures
        final(a)@ == old(a)@ + b@,
{
    let mut i: usize = 0;
    while i < b.len()
        invariant
            i <= b.len(),
            a@ == old(a)@ + b@.subrange(0, i as int),
        decreases b.len() - i,
    {
        a.push(b[i]);
        assert(b@.subrange(0, i + 1) =~= b@.subrange(0, i as int).push(b@[i as int]));
        i += 1;
    }
    assert(b@.subrange(0, b.len() as int) =~= b@);
}

/// Append the characters of a string to `a`.
pub fn append_str(a: &mut Vec<char>, b: &str)
    ensures
        final(a)@ == old(a)@ + b@,
{
    let v = str_chars(b);
    append_chars(a, &v);
}

/// `s` ends with the characters of `suffix`.
pub fn ends_with_str(s: &[char], suffix: &str) -> (r: bool)
    ensures
        r == ends_with(s@, suffix@),
{
    let p = str_chars(suffix);
    vec_ends_with(s, &p)
}

/// `s` starts with the characters of `prefix`.
pub fn starts_with_str(s: &[char], prefix: &str) -> (r: bool)
    ensures
        r == starts_with(s@, prefix@),
{
    let p = str_chars(prefix);
    vec_starts_with(s, &p)
}

/// `s` is exactly the characters of `t`.
pub fn eq_str(s: &[char], t: &str) -> (r: bool)
    ensures
        r == (s@ == t@),
{
    let p = str_chars(t);
    eq_chars(s, &p)
}

/// Character-wise equality.
pub fn eq_chars(a: &[char], b: &[char]) -> (r: bool)
    ensures
        r == (a@ == b@),
{
    if a.len() != b.len() {
        return false;
    }
    let mut i: usize = 0;
    while i < a.len()
        invariant
            a.len() == b.len(),
            i <= a.len(),
            forall|j: int| 0 <= j < i ==> a@[j] == b@[j],
        decreases a.len() - i,
    {
        if a[i] != b[i] {
            return false;
        }
        i += 1;
    }
    assert(a@ =~= b@);
    true
}

/// `str::split` with a character pattern.
pub fn split_chars(s: &[char], sep: char) -> (r: Vec<Vec<char>>)
    ensures
        r@.len() == split_char(s@, sep).len(),
        forall|i: int| 0 <= i < r@.len() ==> #[trigger] r@[i]@ == split_char(s@, sep)[i],
{
    let mut parts: Vec<Vec<char>> = Vec::new();
    let mut cur: Vec<char> = Vec::new();
    let mut i: usize = 0;
    while i < s.len()
        invariant
            i <= s.len(),
            parts@.len() + 1 == split_char(s@.take(i as int), sep).len(),
            forall|k: int| 0 <= k < parts@.len() ==> #[trigger] parts@[k]@ == split_char(s@.take(i as int), sep)[k],
            cur@ == split_char(s@.take(i as int), sep).last(),
        decreases s.len() - i,
    {
        proof {
            lemma_split_step(s@, sep, i as int);
            lemma_split_nonempty(s@.take(i as int), sep);
        }
        if s[i] == sep {
            let done = cur;
            parts.push(done);
            cur = Vec::new();
        } else {
            cur.push(s[i]);
        }
        i += 1;
    }
    assert(s@.take(s.len() as int) =~= s@);
    parts.push(cur);
    parts
}

/// `str::trim`.
pub fn trim_chars(s: &[char]) -> (r: Vec<char>)
    ensures
        r@ == trim(s@),
{
    let mut i: usize = 0;
    while i < s.len() && is_whitespace(s[i])
        invariant
            i <= s.len(),
            forall|j: int| 0 <= j < i ==> is_white_space(#[trigger] s@[j]),
        decreases s.len() - i,
    {
        i += 1;
    }
    proof {
        assert forall|j: int| 0 <= j < i implies (ws_pred())(#[trigger] s@[j]) by {
            assert(is_white_space(s@[j]));
        }
        lemma_trim_start_at(s@, ws_pred(), i as int);
    }
    let mut k: usize = s.len();
    while k > i && is_whitespace(s[k - 1])
        invariant
            i <= k <= s.len(),
            forall|j: int| k <= j < s.len() ==> is_white_space(#[trigger] s@[j]),
        decreases k,
    {
        k -= 1;
    }
    proof {
        let t = s@.subrange(i as int, s.len() as int);
        assert forall|j: int| k - i <= j < t.len() implies (ws_pred())(#[trigger] t[j]) by {
            assert(t[j] == s@[i + j]);
        }
        if k > i {
            assert(t[k - i - 1] == s@[k - 1]);
        }
        lemma_trim_end_at(t, ws_pred(), k - i);
        assert(t.subrange(0, k - i) =~= s@.subrange(i as int, k as int));
    }
    slice_chars(s, i, k)
}

/// `str::trim_matches(c)` for one character `c`.
pub fn trim_matches_chars(s: &[char], c: char) -> (r: Vec<char>)
    ensures
        r@ == trim_matches(s@, c),
{
    let mut i: usize = 0;
    while i < s.len() && s[i] == c
        invariant
            i <= s.len(),
            forall|j: int| 0 <= j < i ==> s@[j] == c,
        decreases s.len() - i,
    {
        i += 1;
    }
    proof {
        assert forall|j: int| 0 <= j < i implies (char_pred(c))(#[trigger] s@[j]) by {}
        lemma_trim_start_at(s@, char_pred(c), i as int);
    }
    let mut k: usize = s.len();
    while k > i && s[k - 1] == c
        invariant
            i <= k <= s.len(),
            forall|j: int| k <= j < s.len() ==> s@[j] == c,
        decreases k,
    {
        k -= 1;
    }
    proof {
        let t = s@.subrange(i as int, s.len() as int);
        assert forall|j: int| k - i <= j < t.len() implies (char_pred(c))(#[trigger] t[j]) by {
            assert(t[j] == s@[i + j]);
        }
        if k > i {
            assert(t[k - i - 1] == s@[k - 1]);
        }
        lemma_trim_end_at(t, char_pred(c), k - i);
        assert(t.subrange(0, k - i) =~= s@.subrange(i as int, k as int));
    }
    slice_chars(s, i, k)
}

/// `str::trim_end_matches(c)` for one character `c`.
pub fn trim_end_matches_chars(s: &[char], c: char) -> (r: Vec<char>)
    ensures
        r@ == trim_end_by(s@, char_pred(c)),
{
    let mut k: usize = s.len();
    while k > 0 && s[k - 1] == c
        invariant
            k <= s.len(),
            forall|j: int| k <= j < s.len() ==> s@[j] == c,
        decreases k,
    {
        k -= 1;
    }
    proof {
        assert forall|j: int| k <= j < s.len() implies (char_pred(c))(#[trigger] s@[j]) by {}
        lemma_trim_end_at(s@, char_pred(c), k as int);
    }
    slice_chars(s, 0, k)
}

/// `char::is_whitespace`.
pub fn is_whitespace(c: char) -> (r: bool)
    ensures
        r == is_white_space(c),
{
    c == '\t' || c == '\n' || c == '\u{0B}' || c == '\u{0C}' || c == '\r' || c == ' '
        || c == '\u{85}' || c == '\u{A0}' || c == '\u{1680}' || ('\u{2000}' <= c && c
        <= '\u{200A}') || c == '\u{2028}' || c == '\u{2029}' || c == '\u{202F}' || c
        == '\u{205F}' || c == '\u{3000}'
}

/// `str::parse` for an unsigned integer type whose largest value is `max`.
pub fn parse_unsigned_chars(s: &[char], max: u32) -> (r: Option<u32>)
    ensures
        r matches Some(v) ==> parse_unsigned(s@, max as nat) == Some(v as nat),
        r is None ==> parse_unsigned(s@, max as nat) is None,
{
    let start: usize = if s.len() > 0 && s[0] == '+' {
        1
    } else {
        0
    };
    let ghost digits = if s@.len() > 0 && s@[0] == '+' {
        s@.drop_first()
    } else {
        s@
    };
    assert(digits =~= s@.subrange(start as int, s.len() as int));
    if start == s.len() {
        return None;
    }
    let mut v: u32 = 0;
    let mut i: usize = start;
    while i < s.len()
        invariant
            start <= i <= s.len(),
            digits == s@.subrange(start as int, s.len() as int),
            digits == (if s@.len() > 0 && s@[0] == '+' {
                s@.drop_first()
            } else {
                s@
            }),
            v as nat == decimal_value(digits.take(i - start)),
            all_digits(digits.take(i - start)),
            v <= max,
        decreases s.len() - i,
    {
        let c = s[i];
        let ghost k = i - start;
        assert(digits[k] == c);
        if !('0' <= c && c <= '9') {
            proof {
                assert(!is_digit(digits[k]));
                assert(!all_digits(digits));
            }
            return None;
        }
        let d: u32 = (c as u32) - ('0' as u32);
        proof {
            lemma_decimal_value_step(digits, k);
        }
        if d > max {
            proof {
                lemma_decimal_value_mono(digits, k + 1, digits.len() as int);
                assert(digits.take(digits.len() as int) =~= digits);
            }
            return None;
        }
        if v > (max - d) / 10 {
            proof {
                assert(v * 10 + d > max) by (nonlinear_arith)
                    requires
                        v > (max - d) / 10,
                        d <= max,
                ;
                lemma_decimal_value_mono(digits, k + 1, digits.len() as int);
                assert(digits.take(digits.len() as int) =~= digits);
            }
            return None;
        }
        proof {
            assert(v * 10 + d <= max) by (nonlinear_arith)
                requires
                    v <= (max - d) / 10,
                    d <= max,
            ;
        }
        v = v * 10 + d;
        proof {
            assert forall|j: int| 0 <= j < k + 1 implies is_digit(#[trigger] digits.take(k + 1)[j]) by {
                if j < k {
                    assert(digits.take(k + 1)[j] == digits.take(k)[j]);
                }
            }
        }
        i += 1;
    }
    assert(digits.take(digits.len() as int) =~= digits);
    Some(v)
}

/// Decimal rendering of `n`, as `Display` for unsigned integers.
pub fn decimal_chars(n: u64) -> (r: Vec<char>)
    ensures
        r@ == decimal_digits(n as nat),
    decreases n,
{
    let d = n % 10;
    let c = char_of_digit(d);
    if n < 10 {
        let mut v: Vec<char> = Vec::new();
        v.push(c);
        assert(v@ =~= seq![digit_char(n as nat)]);
        v
    } else {
        let mut v = decimal_chars(n / 10);
        v.push(c);
        v
    }
}

fn char_of_digit(d: u64) -> (c: char)
    requires
        d < 10,
    ensures
        c == digit_char(d as nat),
{
    if d == 0 {
        '0'
    } else if d == 1 {
        '1'
    } else if d == 2 {
        '2'
    } else if d == 3 {
        '3'
    } else if d == 4 {
        '4'
    } else if d == 5 {
        '5'
    } else if d == 6 {
        '6'
    } else if d == 7 {
        '7'
    } else if d == 8 {
        '8'
    } else {
        '9'
    }
}

/// `parts.join(sep)`.
pub fn join_chars(parts: &Vec<Vec<char>>, sep: &[char]) -> (r: Vec<char>)
    ensures
        r@ == join(parts@.map_values(|p: Vec<char>| p@), sep@),
{
    let ghost views = parts@.map_values(|p: Vec<char>| p@);
    let mut r: Vec<char> = Vec::new();
    if parts.len() == 0 {
        return r;
    }
    append_chars(&mut r, &parts[0]);
    assert(views.take(1) =~= seq![views[0]]);
    let mut i: usize = 1;
    while i < parts.len()
        invariant
            1 <= i <= parts.len(),
            views == parts@.map_values(|p: Vec<char>| p@),
            r@ == join(views.take(i as int), sep@),
        decreases parts.len() - i,
    {
        append_chars(&mut r, sep);
        append_chars(&mut r, &parts[i]);
        proof {
            lemma_join_step(views, sep@, i as int);
        }
        i += 1;
    }
    assert(views.take(parts.len() as int) =~= views);
    r
}

/// The first occurrence of a pattern is what the search finds.
pub proof fn lemma_find_seq_some(s: Seq<char>, p: Seq<char>, i: int)
    requires
        first_occurrence(s, p, i),
    ensures
        find_seq_opt(s, p) == Some(i),
{
    let k = choose|k: int| first_occurrence(s, p, k);
    assert(first_occurrence(s, p, k));
}

/// A text that does not contain the pattern has no occurrence of it.
pub proof fn lemma_find_seq_none(s: Seq<char>, p: Seq<char>)
    requires
        !contains_seq(s, p),
    ensures
        find_seq_opt(s, p) is None,
{
}

/// First index of `c` in `s`, as [`find_char_opt`] says.
pub fn find_char_index(s: &[char], c: char) -> (r: Option<usize>)
    ensures
        match r {
            Some(i) => find_char_opt(s@, c) == Some(i as int),
            None => find_char_opt(s@, c) is None,
        },
{
    match find_char(s, c) {
        Some(i) => {
            proof {
                lemma_find_char_some(s@, c, i as int);
            }
            Some(i)
        },
        None => {
            proof {
                lemma_find_char_none(s@, c);
            }
            None
        },
    }
}

/// First index of `p` in `s`, as [`find_seq_opt`] says.
pub fn find_seq_index(s: &[char], p: &[char]) -> (r: Option<usize>)
    ensures
        match r {
            Some(i) => find_seq_opt(s@, p@) == Some(i as int),
            None => find_seq_opt(s@, p@) is None,
        },
{
    match find_seq(s, p) {
        Some(i) => {
            proof {
                lemma_find_seq_some(s@, p@, i as int);
            }
            Some(i)
        },
        None => {
            proof {
                lemma_find_seq_none(s@, p@);
            }
            None
        },
    }
}

/// Last index of `c` in `s`, as [`rfind_char_opt`] says.
pub fn rfind_char_index(s: &[char], c: char) -> (r: Option<usize>)
    ensures
        match r {
            Some(i) => rfind_char_opt(s@, c) == Some(i as int) && last_char_index(s@, c, i as int),
            None => rfind_char_opt(s@, c) is None && lacks_char(s@, c),
        },
{
    match rfind_char(s, c) {
        Some(i) => {
            proof {
                let k = choose|k: int| last_char_index(s@, c, k);
                assert(last_char_index(s@, c, k));
                if k < i {
                    assert(s@[i as int] == c);
                } else if i < k {
                    assert(s@[k] == c);
                }
            }
            Some(i)
        },
        None => {
            proof {
                assert forall|i: int| !last_char_index(s@, c, i) by {
                    if 0 <= i < s@.len() {
                        assert(s@[i] != c);
                    }
                }
            }
            None
        },
    }
}

} // verus!
