//! Characters, classes of characters, and the scanning of text by class.
//!
//! Text is modelled as `Seq<char>`, the view of `str` and `String`. Everything
//! the parsers of the two notations need to take text apart is stated here over
//! that model: runs of characters of one class at either end of a text,
//! trimming, and splitting into whitespace-separated tokens.

use vstd::prelude::*;
use vstd::string::*;

verus! {

/// Whether `c` is white space. This is the answer of `char::is_whitespace`,
/// which follows Unicode's `White_Space` property; its table is not restated here.
pub uninterp spec fn white_space(c: char) -> bool;

/// `char::is_whitespace` reports, for every character, what [`white_space`] names.
/// Nothing is claimed of which characters those are.
pub assume_specification[ char::is_whitespace ](c: char) -> (b: bool)
    ensures
        b == white_space(c),
;

/// The lowercase form of `text`, as `str::to_lowercase` computes it from
/// Unicode's case mappings. One character may become several, so the length
/// of the result is not that of `text` in general.
pub uninterp spec fn lowercase(text: Seq<char>) -> Seq<char>;

/// `str::to_lowercase` returns a new string that holds what [`lowercase`] names
/// for the characters of `text`. Nothing is claimed of that text.
pub assume_specification[ str::to_lowercase ](text: &str) -> (folded: String)
    ensures
        folded@ == lowercase(text@),
;

/// An ASCII letter, `a` to `z` or `A` to `Z`.
pub open spec fn is_letter(c: char) -> bool {
    ('a' <= c && c <= 'z') || ('A' <= c && c <= 'Z')
}

/// An ASCII digit, `0` to `9`.
pub open spec fn is_digit(c: char) -> bool {
    '0' <= c && c <= '9'
}

/// The classes of characters by which text is scanned.
#[derive(Debug, Clone, Copy, PartialEq, Eq, Structural)]
pub enum CharClass {
    /// ASCII letters: the characters of a button.
    Letter,
    /// ASCII digits and the two square brackets: the characters of a numpad motion.
    MotionMark,
    /// White space.
    Space,
    /// Everything that is not white space.
    NonSpace,
    /// Everything but the full stop.
    NonDot,
}

impl CharClass {
    /// Whether `c` belongs to the class.
    pub open spec fn contains(self, c: char) -> bool {
        match self {
            CharClass::Letter => is_letter(c),
            CharClass::MotionMark => is_digit(c) || c == '[' || c == ']',
            CharClass::Space => white_space(c),
            CharClass::NonSpace => !white_space(c),
            CharClass::NonDot => c != '.',
        }
    }

    /// Tests whether `c` belongs to the class.
    pub fn holds(self, c: char) -> (b: bool)
        ensures
            b == self.contains(c),
    {
        match self {
            CharClass::Letter => (c >= 'a' && c <= 'z') || (c >= 'A' && c <= 'Z'),
            CharClass::MotionMark => (c >= '0' && c <= '9') || c == '[' || c == ']',
            CharClass::Space => c.is_whitespace(),
            CharClass::NonSpace => !c.is_whitespace(),
            CharClass::NonDot => c != '.',
        }
    }
}

/// Every character of `s` belongs to `class`. True of the empty text.
pub open spec fn all_in(s: Seq<char>, class: CharClass) -> bool {
    forall|i: int| 0 <= i < s.len() ==> class.contains(#[trigger] s[i])
}

/// The length of the longest prefix of `s` made of characters of `class`.
pub open spec fn leading(s: Seq<char>, class: CharClass) -> nat
    decreases s.len(),
{
    if s.len() > 0 && class.contains(s[0]) {
        1 + leading(s.skip(1), class)
    } else {
        0
    }
}

/// The length of the longest suffix of `s` made of characters of `class`.
pub open spec fn trailing(s: Seq<char>, class: CharClass) -> nat
    decreases s.len(),
{
    if s.len() > 0 && class.contains(s.last()) {
        1 + trailing(s.drop_last(), class)
    } else {
        0
    }
}

/// `leading` is a prefix of `s`, all of its characters are in the class, and
/// the character that follows it, if there is one, is not.
pub proof fn lemma_leading_run(s: Seq<char>, class: CharClass)
    ensures
        leading(s, class) <= s.len(),
        all_in(s.take(leading(s, class) as int), class),
        leading(s, class) < s.len() ==> !class.contains(s[leading(s, class) as int]),
    decreases s.len(),
{
    if s.len() > 0 && class.contains(s[0]) {
        let rest = s.skip(1);
        lemma_leading_run(rest, class);
        let n = leading(s, class) as int;
        assert forall|i: int| 0 <= i < n implies class.contains(#[trigger] s.take(n)[i]) by {
            if i > 0 {
                assert(rest.take(n - 1)[i - 1] == s[i]);
            }
        }
        if n < s.len() {
            assert(rest[n - 1] == s[n]);
        }
    }
}

/// A prefix of `n` characters of the class that cannot be extended is the
/// longest one.
pub proof fn lemma_leading_is(s: Seq<char>, class: CharClass, n: int)
    requires
        0 <= n <= s.len(),
        forall|i: int| 0 <= i < n ==> class.contains(#[trigger] s[i]),
        n < s.len() ==> !class.contains(s[n]),
    ensures
        leading(s, class) == n,
    decreases n,
{
    if n > 0 {
        let rest = s.skip(1);
        assert forall|i: int| 0 <= i < n - 1 implies class.contains(#[trigger] rest[i]) by {
            assert(rest[i] == s[i + 1]);
        }
        if n < s.len() {
            assert(rest[n - 1] == s[n]);
        }
        lemma_leading_is(rest, class, n - 1);
    }
}

/// `trailing` is a suffix of `s`, all of its characters are in the class, and
/// the character before it, if there is one, is not.
pub proof fn lemma_trailing_run(s: Seq<char>, class: CharClass)
    ensures
        trailing(s, class) <= s.len(),
        all_in(s.skip(s.len() - trailing(s, class)), class),
        trailing(s, class) < s.len() ==> !class.contains(s[s.len() - trailing(s, class) - 1]),
    decreases s.len(),
{
    if s.len() > 0 && class.contains(s.last()) {
        let rest = s.drop_last();
        lemma_trailing_run(rest, class);
        let n = trailing(s, class) as int;
        let tail = s.skip(s.len() - n);
        assert forall|i: int| 0 <= i < tail.len() implies class.contains(#[trigger] tail[i]) by {
            if i < n - 1 {
                assert(rest.skip(rest.len() - (n - 1))[i] == tail[i]);
            }
        }
        if n < s.len() {
            assert(rest[rest.len() - (n - 1) - 1] == s[s.len() - n - 1]);
        }
    }
}

/// A suffix of `n` characters of the class that cannot be extended is the
/// longest one.
pub proof fn lemma_trailing_is(s: Seq<char>, class: CharClass, n: int)
    requires
        0 <= n <= s.len(),
        forall|i: int| s.len() - n <= i < s.len() ==> class.contains(#[trigger] s[i]),
        n < s.len() ==> !class.contains(s[s.len() - n - 1]),
    ensures
        trailing(s, class) == n,
    decreases n,
{
    if n > 0 {
        let rest = s.drop_last();
        assert forall|i: int| rest.len() - (n - 1) <= i < rest.len() implies class.contains(
            #[trigger] rest[i],
        ) by {
            assert(rest[i] == s[i]);
        }
        if n < s.len() {
            assert(rest[rest.len() - (n - 1) - 1] == s[s.len() - n - 1]);
        }
        lemma_trailing_is(rest, class, n - 1);
    }
}

/// A text is made of one class exactly when its longest prefix of that class
/// is the whole text.
pub proof fn lemma_all_in_leading(s: Seq<char>, class: CharClass)
    ensures
        all_in(s, class) <==> leading(s, class) == s.len(),
{
    lemma_leading_run(s, class);
    if all_in(s, class) {
        lemma_leading_is(s, class, s.len() as int);
    } else if leading(s, class) == s.len() {
        assert(s.take(s.len() as int) =~= s);
    }
}

/// The characters of `text`, one by one.
pub fn chars_of(text: &str) -> (chars: Vec<char>)
    ensures
        chars@ == text@,
{
    let mut chars: Vec<char> = Vec::new();
    for c in it: text.chars()
        invariant
            chars@ == it.seq().take(it.index() as int),
            it.seq() == text@,
    {
        chars.push(c);
    }
    chars
}

/// Counts the characters of `class` at the start of `chars[from..to]`.
pub fn count_leading(chars: &Vec<char>, from: usize, to: usize, class: CharClass) -> (n: usize)
    requires
        from <= to <= chars.len(),
    ensures
        n == leading(chars@.subrange(from as int, to as int), class),
        from + n <= to,
{
    let ghost s = chars@.subrange(from as int, to as int);
    let mut i: usize = from;
    while i < to && class.holds(chars[i])
        invariant
            from <= i <= to <= chars.len(),
            s == chars@.subrange(from as int, to as int),
            forall|j: int| 0 <= j < i - from ==> class.contains(#[trigger] s[j]),
        decreases to - i,
    {
        i += 1;
    }
    proof {
        lemma_leading_is(s, class, i - from);
    }
    i - from
}

/// Counts the characters of `class` at the end of `chars[from..to]`.
pub fn count_trailing(chars: &Vec<char>, from: usize, to: usize, class: CharClass) -> (n: usize)
    requires
        from <= to <= chars.len(),
    ensures
        n == trailing(chars@.subrange(from as int, to as int), class),
        from + n <= to,
{
    let ghost s = chars@.subrange(from as int, to as int);
    let mut i: usize = to;
    while i > from && class.holds(chars[i - 1])
        invariant
            from <= i <= to <= chars.len(),
            s == chars@.subrange(from as int, to as int),
            forall|j: int| i - from <= j < s.len() ==> class.contains(#[trigger] s[j]),
        decreases i,
    {
        i -= 1;
    }
    proof {
        lemma_trailing_is(s, class, to - i);
    }
    to - i
}

/// Whether every character of `text` belongs to `class`.
pub fn made_of(text: &str, class: CharClass) -> (b: bool)
    ensures
        b == all_in(text@, class),
{
    let chars = chars_of(text);
    let n = count_leading(&chars, 0, chars.len(), class);
    proof {
        assert(chars@.subrange(0, chars.len() as int) =~= text@);
        lemma_all_in_leading(text@, class);
    }
    n == chars.len()
}

/// Whether two texts hold the same characters.
pub fn same_text(a: &str, b: &str) -> (same: bool)
    ensures
        same == (a@ == b@),
{
    let left = chars_of(a);
    let right = chars_of(b);
    if left.len() != right.len() {
        return false;
    }
    let mut i: usize = 0;
    while i < left.len()
        invariant
            i <= left.len() == right.len(),
            left@ == a@,
            right@ == b@,
            forall|j: int| 0 <= j < i ==> left@[j] == right@[j],
        decreases left.len() - i,
    {
        if left[i] != right[i] {
            return false;
        }
        i += 1;
    }
    proof {
        assert(a@ =~= b@);
    }
    true
}

/// Whether `text` begins with the characters of `word`.
pub fn starts_with(text: &str, word: &str) -> (b: bool)
    ensures
        b == word@.is_prefix_of(text@),
{
    let whole = chars_of(text);
    let start = chars_of(word);
    if start.len() > whole.len() {
        return false;
    }
    let mut i: usize = 0;
    while i < start.len()
        invariant
            i <= start.len() <= whole.len(),
            whole@ == text@,
            start@ == word@,
            forall|j: int| 0 <= j < i ==> whole@[j] == start@[j],
        decreases start.len() - i,
    {
        if whole[i] != start[i] {
            proof {
                assert(text@.subrange(0, word@.len() as int)[i as int] != word@[i as int]);
            }
            return false;
        }
        i += 1;
    }
    true
}

/// `s` without the white space at its two ends.
pub open spec fn trimmed(s: Seq<char>) -> Seq<char> {
    let t = s.skip(leading(s, CharClass::Space) as int);
    t.take(t.len() - trailing(t, CharClass::Space))
}

/// The part of `text` between its leading and its trailing white space.
pub fn trim<'a>(text: &'a str) -> (inner: &'a str)
    ensures
        inner@ == trimmed(text@),
{
    let chars = chars_of(text);
    let len = chars.len();
    let from = count_leading(&chars, 0, len, CharClass::Space);
    let cut = count_trailing(&chars, from, len, CharClass::Space);
    proof {
        assert(chars@.subrange(0, len as int) =~= text@);
        assert(chars@.subrange(from as int, len as int) =~= text@.skip(from as int));
        assert(text@.subrange(from as int, len - cut) =~= trimmed(text@));
    }
    text.substring_char(from, len - cut)
}

/// The maximal runs of characters other than white space in `s`, in the order
/// in which they stand: what is left of `s` when it is split at white space.
pub open spec fn tokens(s: Seq<char>) -> Seq<Seq<char>>
    decreases s.len(),
{
    if s.len() == 0 {
        Seq::empty()
    } else if white_space(s[0]) {
        tokens(s.skip(1))
    } else {
        let n = leading(s, CharClass::NonSpace) as int;
        proof {
            lemma_leading_run(s, CharClass::NonSpace);
        }
        seq![s.take(n)] + tokens(s.skip(n))
    }
}

/// White space at the start of a text adds no token.
pub proof fn lemma_tokens_skip_space(s: Seq<char>)
    ensures
        tokens(s) == tokens(s.skip(leading(s, CharClass::Space) as int)),
    decreases s.len(),
{
    if s.len() > 0 && white_space(s[0]) {
        let rest = s.skip(1);
        lemma_tokens_skip_space(rest);
        lemma_leading_run(rest, CharClass::Space);
        assert(rest.skip(leading(rest, CharClass::Space) as int) =~= s.skip(
            leading(s, CharClass::Space) as int,
        ));
    } else {
        assert(s.skip(0) =~= s);
    }
}

/// The texts that a sequence of string slices holds.
pub open spec fn texts(parts: Seq<&str>) -> Seq<Seq<char>> {
    Seq::new(parts.len(), |i: int| parts[i]@)
}

/// Splits `text` at white space. No part is empty, and none holds white space.
pub fn split_whitespace<'a>(text: &'a str) -> (parts: Vec<&'a str>)
    ensures
        texts(parts@) == tokens(text@),
{
    let chars = chars_of(text);
    let len = chars.len();
    let mut parts: Vec<&'a str> = Vec::new();
    let mut i: usize = count_leading(&chars, 0, len, CharClass::Space);
    proof {
        assert(chars@.subrange(0, len as int) =~= text@);
        lemma_tokens_skip_space(text@);
        lemma_leading_run(text@, CharClass::Space);
        assert(texts(parts@) + tokens(text@.skip(i as int)) =~= tokens(text@));
    }
    while i < len
        invariant
            i <= len == chars.len(),
            chars@ == text@,
            texts(parts@) + tokens(text@.skip(i as int)) == tokens(text@),
            i < len ==> !white_space(text@[i as int]),
        decreases len - i,
    {
        let ghost here = text@.skip(i as int);
        let ghost before = texts(parts@);
        let n = count_leading(&chars, i, len, CharClass::NonSpace);
        let k = count_leading(&chars, i + n, len, CharClass::Space);
        proof {
            assert(chars@.subrange(i as int, len as int) =~= here);
            lemma_leading_run(here, CharClass::NonSpace);
            let after = here.skip(n as int);
            assert(after =~= text@.skip(i + n));
            assert(chars@.subrange(i + n, len as int) =~= after);
            lemma_tokens_skip_space(after);
            lemma_leading_run(after, CharClass::Space);
            assert(after.skip(k as int) =~= text@.skip(i + n + k));
            assert(here.take(n as int) =~= text@.subrange(i as int, i + n));
            assert(tokens(here) == seq![here.take(n as int)] + tokens(after));
        }
        parts.push(text.substring_char(i, i + n));
        proof {
            assert(texts(parts@) =~= before + seq![here.take(n as int)]);
            assert(texts(parts@) + tokens(text@.skip(i + n + k)) =~= before + tokens(here));
        }
        i = i + n + k;
    }
    proof {
        assert(texts(parts@) + tokens(text@.skip(i as int)) =~= texts(parts@));
    }
    parts
}

/// Trimmed text neither begins nor ends with white space, and has nothing
/// left to trim.
pub proof fn trimmed_has_no_space_at_its_ends(s: Seq<char>)
    ensures
        trimmed(s).len() > 0 ==> !white_space(trimmed(s).first()) && !white_space(
            trimmed(s).last(),
        ),
        trimmed(trimmed(s)) == trimmed(s),
{
    let t = s.skip(leading(s, CharClass::Space) as int);
    let r = trimmed(s);
    lemma_leading_run(s, CharClass::Space);
    lemma_trailing_run(t, CharClass::Space);
    if r.len() > 0 {
        assert(r.last() == t[t.len() - trailing(t, CharClass::Space) - 1]);
        assert(r.first() == s[leading(s, CharClass::Space) as int]);
        lemma_leading_is(r, CharClass::Space, 0);
        lemma_trailing_is(r, CharClass::Space, 0);
        assert(r.skip(0) =~= r);
        assert(r.take(r.len() as int) =~= r);
    } else {
        assert(r.skip(0) =~= r);
        assert(r.take(0) =~= r);
    }
}

/// No token is empty, and none holds white space.
pub proof fn tokens_hold_no_space(s: Seq<char>)
    ensures
        forall|i: int|
            0 <= i < tokens(s).len() ==> (#[trigger] tokens(s)[i]).len() > 0 && all_in(
                tokens(s)[i],
                CharClass::NonSpace,
            ),
    decreases s.len(),
{
    if s.len() == 0 {
        assert(tokens(s).len() == 0);
    } else if white_space(s[0]) {
        tokens_hold_no_space(s.skip(1));
        assert(tokens(s) == tokens(s.skip(1)));
    } else {
        let n = leading(s, CharClass::NonSpace) as int;
        lemma_leading_run(s, CharClass::NonSpace);
        tokens_hold_no_space(s.skip(n));
        let rest = tokens(s.skip(n));
        assert forall|i: int| 0 <= i < tokens(s).len() implies (#[trigger] tokens(s)[i]).len() > 0
            && all_in(tokens(s)[i], CharClass::NonSpace) by {
            assert(tokens(s) == seq![s.take(n)] + rest);
            if i > 0 {
                assert(tokens(s)[i] == rest[i - 1]);
            } else {
                assert(tokens(s)[0] == s.take(n));
                assert(n > 0);
            }
        }
    }
}

} // verus!
