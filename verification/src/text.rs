//! Character-level text operations: character classes, trimming, splitting
//! and searching, each stated over `Seq<char>`.

use vstd::prelude::*;
use vstd::slice::slice_subrange;

verus! {

/// A set of characters that trimming and splitting treat alike.
#[derive(Clone, Copy, Debug)]
pub enum CharClass {
    /// The characters with the Unicode property `White_Space`.
    Whitespace,
    /// Space, tab, line feed, form feed and carriage return.
    AsciiWhitespace,
    /// The ASCII decimal digits.
    Digit,
    /// One character and no other.
    Only(char),
}

/// Whether `c` has the Unicode property `White_Space`.
pub open spec fn is_whitespace(c: char) -> bool {
    let n = c as u32;
    ||| 0x09 <= n <= 0x0D
    ||| n == 0x20
    ||| n == 0x85
    ||| n == 0xA0
    ||| n == 0x1680
    ||| 0x2000 <= n <= 0x200A
    ||| n == 0x2028
    ||| n == 0x2029
    ||| n == 0x202F
    ||| n == 0x205F
    ||| n == 0x3000
}

/// Whether `c` is a space, a tab, a line feed, a form feed or a carriage return.
pub open spec fn is_ascii_whitespace(c: char) -> bool {
    let n = c as u32;
    n == 0x20 || n == 0x09 || n == 0x0A || n == 0x0C || n == 0x0D
}

/// Whether `c` is one of `0` to `9`.
pub open spec fn is_digit(c: char) -> bool {
    0x30 <= c as u32 <= 0x39
}

impl CharClass {
    /// Whether `c` belongs to the class.
    pub open spec fn contains(self, c: char) -> bool {
        match self {
            CharClass::Whitespace => is_whitespace(c),
            CharClass::AsciiWhitespace => is_ascii_whitespace(c),
            CharClass::Digit => is_digit(c),
            CharClass::Only(d) => c == d,
        }
    }

    /// Tests whether `c` belongs to the class.
    pub fn has(&self, c: char) -> (b: bool)
        ensures
            b == self.contains(c),
    {
        let n: u32 = c as u32;
        match self {
            CharClass::Whitespace => {
                (0x09 <= n && n <= 0x0D) || n == 0x20 || n == 0x85 || n == 0xA0 || n == 0x1680 || (
                0x2000 <= n && n <= 0x200A) || n == 0x2028 || n == 0x2029 || n == 0x202F || n
                    == 0x205F || n == 0x3000
            },
            CharClass::AsciiWhitespace => {
                n == 0x20 || n == 0x09 || n == 0x0A || n == 0x0C || n == 0x0D
            },
            CharClass::Digit => 0x30 <= n && n <= 0x39,
            CharClass::Only(d) => c == *d,
        }
    }
}

/// How many characters at the front of `s` belong to `class`.
pub open spec fn leading(s: Seq<char>, class: CharClass) -> nat
    decreases s.len(),
{
    if s.len() > 0 && class.contains(s[0]) {
        1 + leading(s.drop_first(), class)
    } else {
        0
    }
}

/// Whether every character of `s` belongs to `class`.
pub open spec fn all_of(s: Seq<char>, class: CharClass) -> bool {
    forall|i: int| 0 <= i < s.len() ==> class.contains(#[trigger] s[i])
}

/// The characters at the front of `s` that belong to `class` are all of `s`
/// exactly where every character of `s` belongs to it.
pub proof fn lemma_leading_all(s: Seq<char>, class: CharClass)
    ensures
        leading(s, class) <= s.len(),
        leading(s, class) == s.len() <==> all_of(s, class),
    decreases s.len(),
{
    if s.len() > 0 {
        lemma_leading_all(s.drop_first(), class);
        if class.contains(s[0]) {
            if all_of(s.drop_first(), class) {
                assert forall|i: int| 0 <= i < s.len() implies class.contains(#[trigger] s[i]) by {
                    if i > 0 {
                        assert(s[i] == s.drop_first()[i - 1]);
                    }
                }
            }
            if all_of(s, class) {
                assert(all_of(s.drop_first(), class));
            }
        }
    }
}

/// How many characters at the back of `s` belong to `class`.
pub open spec fn trailing(s: Seq<char>, class: CharClass) -> nat
    decreases s.len(),
{
    if s.len() > 0 && class.contains(s.last()) {
        1 + trailing(s.drop_last(), class)
    } else {
        0
    }
}

/// `s` without the characters of `class` at its front.
pub open spec fn without_leading(s: Seq<char>, class: CharClass) -> Seq<char> {
    s.skip(leading(s, class) as int)
}

/// `s` without the characters of `class` at its back.
pub open spec fn without_trailing(s: Seq<char>, class: CharClass) -> Seq<char> {
    s.take(s.len() - trailing(s, class))
}

/// `s` without the whitespace at either end.
pub open spec fn trimmed(s: Seq<char>) -> Seq<char> {
    without_trailing(without_leading(s, CharClass::Whitespace), CharClass::Whitespace)
}

/// The pieces of `s` that the characters of `class` separate, empty pieces
/// included: there is one piece more than there are separators. Read from the
/// left, a separator closes the current piece and opens an empty one; any other
/// character is added to the current piece.
pub open spec fn pieces(s: Seq<char>, class: CharClass) -> Seq<Seq<char>>
    decreases s.len(),
{
    if s.len() == 0 {
        seq![Seq::<char>::empty()]
    } else {
        let before = pieces(s.drop_last(), class);
        if class.contains(s.last()) {
            before.push(Seq::<char>::empty())
        } else {
            before.drop_last().push(before.last().push(s.last()))
        }
    }
}

/// `list` without its empty members, in the same order.
pub open spec fn nonempty(list: Seq<Seq<char>>) -> Seq<Seq<char>>
    decreases list.len(),
{
    if list.len() == 0 {
        list
    } else if list.last().len() > 0 {
        nonempty(list.drop_last()).push(list.last())
    } else {
        nonempty(list.drop_last())
    }
}

/// The maximal runs of characters of `s` that are not of `class`, in order.
pub open spec fn words(s: Seq<char>, class: CharClass) -> Seq<Seq<char>> {
    nonempty(pieces(s, class))
}

/// The text of each slice of `list`.
pub open spec fn texts(list: Seq<&[char]>) -> Seq<Seq<char>> {
    Seq::new(list.len(), |i: int| list[i]@)
}

/// Whether `pattern` stands in `s` at index `at`.
pub open spec fn occurs_at(s: Seq<char>, pattern: Seq<char>, at: int) -> bool {
    &&& 0 <= at
    &&& at + pattern.len() <= s.len()
    &&& s.subrange(at, at + pattern.len()) == pattern
}

/// The least index from `from` on at which `pattern` stands in `s`. No search
/// is made for an empty pattern.
pub open spec fn find(s: Seq<char>, pattern: Seq<char>, from: int) -> Option<int>
    decreases s.len() - from,
{
    if from < 0 || from + pattern.len() > s.len() || pattern.len() == 0 {
        None
    } else if occurs_at(s, pattern, from) {
        Some(from)
    } else {
        find(s, pattern, from + 1)
    }
}

/// The text of `s` between the first occurrence of `pattern` and the next one
/// that does not overlap it, or the end of `s` where there is no next one.
pub open spec fn after_first(s: Seq<char>, pattern: Seq<char>) -> Option<Seq<char>> {
    match find(s, pattern, 0) {
        None => None,
        Some(first) => {
            let start = first + pattern.len();
            match find(s, pattern, start) {
                None => Some(s.skip(start)),
                Some(next) => Some(s.subrange(start, next)),
            }
        },
    }
}

/// The characters of `s`.
pub fn to_chars(s: &str) -> (chars: Vec<char>)
    ensures
        chars@ == s@,
{
    let mut chars: Vec<char> = Vec::new();
    let source = s.chars();
    for c in it: source
        invariant
            it.seq() == s@,
            chars@ == it.seq().take(it.index()),
    {
        chars.push(c);
    }
    chars
}

/// Whether the two slices hold the same text.
pub fn same_text(a: &[char], b: &[char]) -> (same: bool)
    ensures
        same == (a@ == b@),
{
    if a.len() != b.len() {
        return false;
    }
    let mut i: usize = 0;
    while i < a.len()
        invariant
            i <= a.len(),
            a.len() == b.len(),
            a@.take(i as int) == b@.take(i as int),
        decreases a.len() - i,
    {
        if a[i] != b[i] {
            return false;
        }
        i = i + 1;
    }
    assert(a@ == a@.take(a.len() as int));
    assert(b@ == b@.take(b.len() as int));
    true
}

/// Whether `s` begins with `prefix`.
pub fn starts_with(s: &[char], prefix: &[char]) -> (b: bool)
    ensures
        b == prefix@.is_prefix_of(s@),
{
    if prefix.len() > s.len() {
        return false;
    }
    same_text(slice_subrange(s, 0, prefix.len()), prefix)
}

/// Removes the characters of `class` at the front of `s`.
pub fn trim_start_matches<'a>(s: &'a [char], class: CharClass) -> (rest: &'a [char])
    ensures
        rest@ == without_leading(s@, class),
{
    let mut i: usize = 0;
    assert(s@.skip(0) == s@);
    while i < s.len() && class.has(s[i])
        invariant
            i <= s.len(),
            leading(s@, class) == i + leading(s@.skip(i as int), class),
        decreases s.len() - i,
    {
        assert(s@.skip(i as int).drop_first() == s@.skip(i + 1));
        i = i + 1;
    }
    slice_subrange(s, i, s.len())
}

/// Removes the characters of `class` at the back of `s`.
pub fn trim_end_matches<'a>(s: &'a [char], class: CharClass) -> (rest: &'a [char])
    ensures
        rest@ == without_trailing(s@, class),
{
    let mut end: usize = s.len();
    assert(s@.take(s.len() as int) == s@);
    while end > 0 && class.has(s[end - 1])
        invariant
            end <= s.len(),
            trailing(s@, class) == (s.len() - end) + trailing(s@.take(end as int), class),
        decreases end,
    {
        assert(s@.take(end as int).drop_last() == s@.take(end - 1));
        end = end - 1;
    }
    slice_subrange(s, 0, end)
}

/// Removes the whitespace at both ends of `s`.
pub fn trim<'a>(s: &'a [char]) -> (rest: &'a [char])
    ensures
        rest@ == trimmed(s@),
{
    trim_end_matches(trim_start_matches(s, CharClass::Whitespace), CharClass::Whitespace)
}

/// Splits `s` at each character of `class`, keeping empty pieces.
pub fn split<'a>(s: &'a [char], class: CharClass) -> (list: Vec<&'a [char]>)
    ensures
        texts(list@) == pieces(s@, class),
{
    let mut list: Vec<&'a [char]> = Vec::new();
    let mut start: usize = 0;
    let mut i: usize = 0;
    assert(texts(list@).push(s@.subrange(0, 0)) =~~= pieces(s@.take(0), class));
    while i < s.len()
        invariant
            start <= i <= s.len(),
            pieces(s@.take(i as int), class) == texts(list@).push(
                s@.subrange(start as int, i as int),
            ),
        decreases s.len() - i,
    {
        let ghost open = s@.subrange(start as int, i as int);
        assert(s@.take(i + 1).drop_last() == s@.take(i as int));
        if class.has(s[i]) {
            list.push(slice_subrange(s, start, i));
            start = i + 1;
            assert(s@.subrange(start as int, i + 1) =~= Seq::<char>::empty());
        } else {
            assert(open.push(s@[i as int]) =~= s@.subrange(start as int, i + 1));
        }
        i = i + 1;
    }
    assert(s@.take(s.len() as int) == s@);
    list.push(slice_subrange(s, start, s.len()));
    list
}

/// Splits `s` into its maximal runs of characters that are not of `class`.
pub fn split_words<'a>(s: &'a [char], class: CharClass) -> (list: Vec<&'a [char]>)
    ensures
        texts(list@) == words(s@, class),
{
    let mut list: Vec<&'a [char]> = Vec::new();
    let mut start: usize = 0;
    let mut i: usize = 0;
    let ghost mut closed: Seq<Seq<char>> = Seq::empty();
    assert(closed.push(s@.subrange(0, 0)) =~~= pieces(s@.take(0), class));
    while i < s.len()
        invariant
            start <= i <= s.len(),
            pieces(s@.take(i as int), class) == closed.push(s@.subrange(start as int, i as int)),
            texts(list@) == nonempty(closed),
        decreases s.len() - i,
    {
        let ghost open = s@.subrange(start as int, i as int);
        assert(s@.take(i + 1).drop_last() == s@.take(i as int));
        if class.has(s[i]) {
            if start < i {
                list.push(slice_subrange(s, start, i));
            }
            proof {
                assert(closed.push(open).drop_last() =~~= closed);
                closed = closed.push(open);
            }
            start = i + 1;
            assert(s@.subrange(start as int, i + 1) =~= Seq::<char>::empty());
        } else {
            assert(open.push(s@[i as int]) =~= s@.subrange(start as int, i + 1));
        }
        i = i + 1;
    }
    assert(s@.take(s.len() as int) == s@);
    if start < s.len() {
        list.push(slice_subrange(s, start, s.len()));
    }
    assert(closed.push(s@.subrange(start as int, s.len() as int)).drop_last() =~~= closed);
    list
}

/// Finds the first occurrence of `pattern` in `s` that starts at `from` or later.
pub fn find_from(s: &[char], pattern: &[char], from: usize) -> (found: Option<usize>)
    ensures
        match found {
            Some(at) => {
                &&& find(s@, pattern@, from as int) == Some(at as int)
                &&& from <= at
                &&& occurs_at(s@, pattern@, at as int)
            },
            None => find(s@, pattern@, from as int) is None,
        },
{
    if pattern.len() == 0 || pattern.len() > s.len() {
        return None;
    }
    let last: usize = s.len() - pattern.len();
    let mut i: usize = from;
    while i <= last
        invariant
            from <= i,
            last == s.len() - pattern.len(),
            0 < pattern.len() <= s.len(),
            find(s@, pattern@, from as int) == find(s@, pattern@, i as int),
        decreases last + 1 - i,
    {
        if same_text(slice_subrange(s, i, i + pattern.len()), pattern) {
            return Some(i);
        }
        i = i + 1;
    }
    None
}

/// The part of `s` between the first occurrence of `pattern` and the next.
pub fn split_after_first<'a>(s: &'a [char], pattern: &[char]) -> (part: Option<&'a [char]>)
    ensures
        match part {
            Some(p) => after_first(s@, pattern@) == Some(p@),
            None => after_first(s@, pattern@) is None,
        },
{
    match find_from(s, pattern, 0) {
        None => None,
        Some(first) => {
            let end: usize = s.len();
            let start: usize = first + pattern.len();
            match find_from(s, pattern, start) {
                None => Some(slice_subrange(s, start, end)),
                Some(next) => Some(slice_subrange(s, start, next)),
            }
        },
    }
}

/// The upper-case form of `s` as `str::to_uppercase` gives it, by the case
/// mapping of Unicode.
pub uninterp spec fn uppercase_text(s: Seq<char>) -> Seq<char>;

/// `str::to_uppercase`: the upper-case form of `s`. The result is named, not
/// described: it depends on nothing but the characters of `s`.
#[verifier::external_body]
pub(crate) fn to_uppercase(s: &str) -> (upper: String)
    ensures
        upper@ == uppercase_text(s@),
{
    s.to_uppercase()
}

/// `String::push`: the character is added at the end of the string.
#[verifier::external_body]
fn push_char(s: &mut String, c: char)
    ensures
        final(s)@ == old(s)@.push(c),
{
    s.push(c)
}

/// A string that holds `chars`.
pub fn to_string(chars: &[char]) -> (s: String)
    ensures
        s@ == chars@,
{
    let mut s = String::new();
    let mut i: usize = 0;
    while i < chars.len()
        invariant
            i <= chars.len(),
            s@ == chars@.take(i as int),
        decreases chars.len() - i,
    {
        push_char(&mut s, chars[i]);
        i = i + 1;
    }
    s
}

} // verus!
