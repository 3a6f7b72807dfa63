//! Text: sequences of characters, and the few operations on them that the protocol needs.
use vstd::prelude::*;
use vstd::string::*;
use vstd::utf8::*;

verus! {

// ---------------------------------------------------------------------------------------------
// Standard library operations
// ---------------------------------------------------------------------------------------------
/// `std::string::String::push` appends one character at the end.
pub assume_specification[ std::string::String::push ](s: &mut String, c: char)
    ensures
        final(s)@ == old(s)@.push(c),
;

/// What `str::to_lowercase` makes of a text that is not all ASCII.
pub uninterp spec fn unicode_lowercase(s: Seq<char>) -> Seq<char>;

/// `str::to_lowercase` maps the ASCII letters `A` to `Z` to `a` to `z` and keeps every other ASCII
/// character. What it makes of a text with other characters in it follows Unicode and is only
/// given a name here.
#[verifier::external_body]
pub(crate) fn lowercase_of(s: &str) -> (r: String)
    ensures
        is_ascii_chars(s@) ==> r@ == s@.map_values(|c: char| ascii_lowercase(c)),
        !is_ascii_chars(s@) ==> r@ == unicode_lowercase(s@),
{
    s.to_lowercase()
}

/// How `{:?}` shows a character that is not plain.
pub uninterp spec fn escaped_char(c: char) -> Seq<char>;

/// `format!("{:?}", c)` of a `char`: a printable ASCII character other than the single quote and
/// the backslash stands between single quotes as it is. How another character is escaped is only
/// given a name here.
#[verifier::external_body]
pub(crate) fn show_char(c: char) -> (r: String)
    ensures
        plain_in_quotes(c, '\'') ==> r@ == seq!['\'', c, '\''],
        !plain_in_quotes(c, '\'') ==> r@ == escaped_char(c),
{
    format!("{:?}", c)
}

/// How `{:?}` shows a text that is not all plain.
pub uninterp spec fn escaped_text(s: Seq<char>) -> Seq<char>;

/// `format!("{:?}", s)` of a `str`: a text of printable ASCII characters other than the double
/// quote and the backslash stands between double quotes as it is. How another text is escaped is
/// only given a name here.
#[verifier::external_body]
pub(crate) fn show_text(s: &str) -> (r: String)
    ensures
        all_plain_in_quotes(s@, '"') ==> r@ == seq!['"'] + s@ + seq!['"'],
        !all_plain_in_quotes(s@, '"') ==> r@ == escaped_text(s@),
{
    format!("{:?}", s)
}

// ---------------------------------------------------------------------------------------------
// Characters
// ---------------------------------------------------------------------------------------------
/// Whether a character is printable ASCII, and neither this quote nor the backslash.
pub open spec fn plain_in_quotes(c: char, quote: char) -> bool {
    ' ' <= c <= '~' && c != quote && c != '\\'
}

/// Whether all characters of a text are printable ASCII, and neither this quote nor the backslash.
pub open spec fn all_plain_in_quotes(s: Seq<char>, quote: char) -> bool {
    forall|i: int| 0 <= i < s.len() ==> plain_in_quotes(#[trigger] s[i], quote)
}

/// How `{:?}` shows a character.
pub open spec fn shown_char(c: char) -> Seq<char> {
    if plain_in_quotes(c, '\'') {
        seq!['\'', c, '\'']
    } else {
        escaped_char(c)
    }
}

/// How `{:?}` shows a text.
pub open spec fn shown_text(s: Seq<char>) -> Seq<char> {
    if all_plain_in_quotes(s, '"') {
        seq!['"'] + s + seq!['"']
    } else {
        escaped_text(s)
    }
}

/// The lower case of an ASCII letter; any other character is its own.
pub open spec fn ascii_lowercase(c: char) -> char {
    if 'A' <= c && c <= 'Z' {
        ((c as u32) + 32) as char
    } else {
        c
    }
}

/// A text in lower case.
pub open spec fn lowercase(s: Seq<char>) -> Seq<char> {
    if is_ascii_chars(s) {
        s.map_values(|c: char| ascii_lowercase(c))
    } else {
        unicode_lowercase(s)
    }
}

/// The characters with the Unicode property `White_Space`.
pub open spec fn is_white(c: char) -> bool {
    let u = c as u32;
    ||| 0x09 <= u <= 0x0d
    ||| u == 0x20
    ||| u == 0x85
    ||| u == 0xa0
    ||| u == 0x1680
    ||| 0x2000 <= u <= 0x200a
    ||| u == 0x2028
    ||| u == 0x2029
    ||| u == 0x202f
    ||| u == 0x205f
    ||| u == 0x3000
}

/// Tells whether a character has the Unicode property `White_Space`.
pub fn white(c: char) -> (r: bool)
    ensures
        r == is_white(c),
{
    let u: u32 = c as u32;
    (0x09 <= u && u <= 0x0d) || u == 0x20 || u == 0x85 || u == 0xa0 || u == 0x1680 || (0x2000 <= u
        && u <= 0x200a) || u == 0x2028 || u == 0x2029 || u == 0x202f || u == 0x205f || u == 0x3000
}

/// The characters of a text, one by one.
pub fn chars_of(s: &str) -> (r: Vec<char>)
    ensures
        r@ == s@,
{
    let mut r: Vec<char> = Vec::new();
    for c in it: s.chars()
        invariant
            r@ == it.seq().take(it.index() as int),
            it.seq() == s@,
    {
        r.push(c);
    }
    assert(r@ == s@);
    r
}

/// The text of the characters from `lo` up to `hi`.
pub fn text_between(chars: &Vec<char>, lo: usize, hi: usize) -> (r: String)
    requires
        lo <= hi <= chars@.len(),
    ensures
        r@ == chars@.subrange(lo as int, hi as int),
{
    let mut r = String::new();
    let mut i: usize = lo;
    while i < hi
        invariant
            lo <= i <= hi <= chars@.len(),
            r@ == chars@.subrange(lo as int, i as int),
        decreases hi - i,
    {
        r.push(chars[i]);
        i = i + 1;
    }
    r
}

/// Tells whether two texts are the same.
pub fn same_text(a: &str, b: &str) -> (r: bool)
    ensures
        r == (a@ == b@),
{
    a.to_owned() == b.to_owned()
}

/// Whether a result is the expected one, by its views.
pub open spec fn result_is<T: View>(
    r: Result<T, String>,
    expected: Result<T::V, Seq<char>>,
) -> bool {
    match (r, expected) {
        (Ok(value), Ok(v)) => value@ == v,
        (Err(message), Err(m)) => message@ == m,
        _ => false,
    }
}

/// One text and then another.
pub fn joined(a: &str, b: &str) -> (r: String)
    ensures
        r@ == a@ + b@,
{
    let mut r = a.to_owned();
    r.append(b);
    r
}

// ---------------------------------------------------------------------------------------------
// Trimming and searching
// ---------------------------------------------------------------------------------------------
/// What trimming takes away at the two ends of a text.
#[derive(Clone, Copy)]
pub enum Margin {
    White,
    Quote,
}

impl Margin {
    /// Whether the character belongs to the margin.
    pub open spec fn holds(self, c: char) -> bool {
        match self {
            Margin::White => is_white(c),
            Margin::Quote => c == '"',
        }
    }

    fn has(self, c: char) -> (r: bool)
        ensures
            r == self.holds(c),
    {
        match self {
            Margin::White => white(c),
            Margin::Quote => c == '"',
        }
    }
}

/// `s` without the margin characters that it starts with.
pub open spec fn without_front(s: Seq<char>, m: Margin) -> Seq<char>
    decreases s.len(),
{
    if s.len() > 0 && m.holds(s[0]) {
        without_front(s.drop_first(), m)
    } else {
        s
    }
}

/// `s` without the margin characters that it ends with.
pub open spec fn without_back(s: Seq<char>, m: Margin) -> Seq<char>
    decreases s.len(),
{
    if s.len() > 0 && m.holds(s.last()) {
        without_back(s.drop_last(), m)
    } else {
        s
    }
}

/// `s` without the margin characters at both ends.
pub open spec fn trimmed(s: Seq<char>, m: Margin) -> Seq<char> {
    without_back(without_front(s, m), m)
}

/// Narrows the range `lo..hi` of `chars` to what trimming leaves of it.
pub fn trim_range(chars: &Vec<char>, lo: usize, hi: usize, m: Margin) -> (r: (usize, usize))
    requires
        lo <= hi <= chars@.len(),
    ensures
        lo <= r.0 <= r.1 <= hi,
        chars@.subrange(r.0 as int, r.1 as int) == trimmed(
            chars@.subrange(lo as int, hi as int),
            m,
        ),
{
    let mut a: usize = lo;
    while a < hi && m.has(chars[a])
        invariant
            lo <= a <= hi <= chars@.len(),
            without_front(chars@.subrange(lo as int, hi as int), m) == without_front(
                chars@.subrange(a as int, hi as int),
                m,
            ),
        decreases hi - a,
    {
        assert(chars@.subrange(a as int, hi as int).drop_first() == chars@.subrange(
            a + 1,
            hi as int,
        ));
        a = a + 1;
    }
    let ghost front = chars@.subrange(a as int, hi as int);
    let mut b: usize = hi;
    while a < b && m.has(chars[b - 1])
        invariant
            lo <= a <= b <= hi <= chars@.len(),
            without_back(front, m) == without_back(chars@.subrange(a as int, b as int), m),
        decreases b - a,
    {
        assert(chars@.subrange(a as int, b as int).drop_last() == chars@.subrange(a as int, b - 1));
        b = b - 1;
    }
    (a, b)
}

/// The index of the first `c` in `s`, or the length of `s` where there is none.
pub open spec fn find_char(s: Seq<char>, c: char) -> int
    decreases s.len(),
{
    if s.len() == 0 || s[0] == c {
        0
    } else {
        1 + find_char(s.drop_first(), c)
    }
}

/// The first `c` is where there is a `c` and none before it.
pub proof fn find_char_at(s: Seq<char>, c: char, i: int)
    requires
        0 <= i < s.len(),
        s[i] == c,
        forall|j: int| 0 <= j < i ==> s[j] != c,
    ensures
        find_char(s, c) == i,
    decreases s.len(),
{
    if i > 0 {
        assert forall|j: int| 0 <= j < i - 1 implies s.drop_first()[j] != c by {
            assert(s.drop_first()[j] == s[j + 1]);
        }
        find_char_at(s.drop_first(), c, i - 1);
    }
}

/// Where a character is searched for, the place is in the text or at its end.
pub proof fn find_char_bounds(s: Seq<char>, c: char)
    ensures
        0 <= find_char(s, c) <= s.len(),
    decreases s.len(),
{
    if s.len() > 0 && s[0] != c {
        find_char_bounds(s.drop_first(), c);
    }
}

/// A character that does not occur is found nowhere.
pub proof fn find_char_none(s: Seq<char>, c: char)
    requires
        forall|j: int| 0 <= j < s.len() ==> #[trigger] s[j] != c,
    ensures
        find_char(s, c) == s.len(),
    decreases s.len(),
{
    if s.len() > 0 {
        let rest = s.drop_first();
        assert forall|j: int| 0 <= j < rest.len() implies #[trigger] rest[j] != c by {
            assert(rest[j] == s[j + 1]);
        }
        find_char_none(rest, c);
    }
}

/// An ASCII text has a front of any length: its first characters.
pub proof fn ascii_front(s: Seq<char>, n: nat)
    requires
        is_ascii_chars(s),
    ensures
        has_front(s, n),
        front(s, n) == s.take(if n <= s.len() {
            n as int
        } else {
            s.len() as int
        }),
{
    is_ascii_chars_encode_utf8(s);
    let bytes = encode_utf8(s);
    let k = front_len(s, n);
    encode_utf8_valid_utf8(s);
    is_char_boundary_start_end_of_seq(bytes);
    let t = s.take(k);
    assert(is_ascii_chars(t));
    is_ascii_chars_encode_utf8(t);
    assert(encode_utf8(t) =~= bytes.subrange(0, k));
    encode_utf8_decode_utf8(t);
    if k < bytes.len() {
        is_char_boundary_iff_is_leading_byte(bytes, k);
        assert(bytes[k] == s[k] as u8);
        assert(is_leading_byte_width_1(bytes[k]));
    }
}

/// Finds the first `c` in the range `lo..hi` of `chars`; `hi` where there is none.
pub fn find_in_range(chars: &Vec<char>, lo: usize, hi: usize, c: char) -> (r: usize)
    requires
        lo <= hi <= chars@.len(),
    ensures
        lo <= r <= hi,
        r - lo == find_char(chars@.subrange(lo as int, hi as int), c),
        r < hi ==> chars@[r as int] == c,
{
    let mut i: usize = lo;
    while i < hi && chars[i] != c
        invariant
            lo <= i <= hi <= chars@.len(),
            find_char(chars@.subrange(lo as int, hi as int), c) == i - lo + find_char(
                chars@.subrange(i as int, hi as int),
                c,
            ),
        decreases hi - i,
    {
        assert(chars@.subrange(i as int, hi as int).drop_first() == chars@.subrange(
            i + 1,
            hi as int,
        ));
        i = i + 1;
    }
    i
}

/// The pieces between the separators of `s`; one more than there are separators.
pub open spec fn split_on(s: Seq<char>, sep: char) -> Seq<Seq<char>>
    decreases s.len(),
{
    if s.len() == 0 {
        seq![Seq::<char>::empty()]
    } else {
        let before = split_on(s.drop_last(), sep);
        if s.last() == sep {
            before.push(Seq::<char>::empty())
        } else {
            before.drop_last().push(before.last().push(s.last()))
        }
    }
}

// ---------------------------------------------------------------------------------------------
// Numbers in decimal
// ---------------------------------------------------------------------------------------------
/// The decimal digit of a number below ten.
pub open spec fn digit(n: nat) -> char {
    ((48 + n) as u32) as char
}

/// A number in decimal.
pub open spec fn decimal(n: nat) -> Seq<char>
    decreases n,
{
    if n < 10 {
        seq![digit(n)]
    } else {
        decimal(n / 10).push(digit(n % 10))
    }
}

/// A number in decimal, with its sign where it is negative.
pub open spec fn signed_decimal(n: int) -> Seq<char> {
    if n < 0 {
        seq!['-'] + decimal((-n) as nat)
    } else {
        decimal(n as nat)
    }
}

/// Writes a number in decimal.
pub fn decimal_of(n: u128) -> (r: String)
    ensures
        r@ == decimal(n as nat),
    decreases n,
{
    let d: u8 = 48 + (n % 10) as u8;
    assert(d as char == digit((n % 10) as nat));
    let mut r = if n < 10 {
        String::new()
    } else {
        decimal_of(n / 10)
    };
    r.push(d as char);
    r
}

/// Writes a signed number in decimal.
pub fn signed_decimal_of(n: i32) -> (r: String)
    ensures
        r@ == signed_decimal(n as int),
{
    if n < 0 {
        let mut r = String::new();
        r.push('-');
        r.append(decimal_of((-(n as i64)) as u128).as_str());
        assert(r@ == seq!['-'] + decimal((-n) as nat));
        r
    } else {
        decimal_of(n as u128)
    }
}

// ---------------------------------------------------------------------------------------------
// The front of a text, counted in bytes
// ---------------------------------------------------------------------------------------------
/// The smaller of `n` and the length of `s` in UTF-8.
pub open spec fn front_len(s: Seq<char>, n: nat) -> int {
    if n <= encode_utf8(s).len() {
        n as int
    } else {
        encode_utf8(s).len() as int
    }
}

/// Whether the first `n` bytes of `s` in UTF-8 (all of them, where there are fewer) end where a
/// character ends.
pub open spec fn has_front(s: Seq<char>, n: nat) -> bool {
    is_char_boundary(encode_utf8(s), front_len(s, n))
}

/// The text of the first `n` bytes of `s` in UTF-8, or all of it where it has fewer.
pub open spec fn front(s: Seq<char>, n: nat) -> Seq<char> {
    decode_utf8(encode_utf8(s).subrange(0, front_len(s, n)))
}

/// Tells whether the first `n` bytes of `s` are a text of their own.
pub fn can_front(s: &str, n: usize) -> (r: bool)
    ensures
        r == has_front(s@, n as nat),
{
    let len: usize = s.as_bytes().len();
    let k: usize = if n <= len {
        n
    } else {
        len
    };
    s.is_char_boundary(k)
}

/// The first `n` bytes of `s`, or all of it where it has fewer.
pub fn front_of(s: &str, n: usize) -> (r: &str)
    requires
        has_front(s@, n as nat),
    ensures
        r@ == front(s@, n as nat),
{
    let len: usize = s.as_bytes().len();
    let k: usize = if n <= len {
        n
    } else {
        len
    };
    let r = s.split_at(k).0;
    proof {
        encode_utf8_decode_utf8(r@);
    }
    r
}

// ---------------------------------------------------------------------------------------------
// Laws
// ---------------------------------------------------------------------------------------------
/// White space is the tab, the line feed, the vertical tab, the form feed, the carriage return, the
/// space, and the other Unicode characters of that property.
pub proof fn white_space(c: char)
    ensures
        is_white(c) <==> c == '\t' || c == '\n' || c == '\u{b}' || c == '\u{c}' || c == '\r' || c
            == ' ' || c == '\u{85}' || c == '\u{a0}' || c == '\u{1680}' || ('\u{2000}' <= c
            <= '\u{200a}') || c == '\u{2028}' || c == '\u{2029}' || c == '\u{202f}' || c
            == '\u{205f}' || c == '\u{3000}',
        Margin::White.holds(c) <==> is_white(c),
        Margin::Quote.holds(c) <==> c == '"',
{
}

/// Trimming takes margin characters away at both ends and leaves none there: what it leaves of a
/// text that is margin in front, then something that starts and ends with other characters, then
/// margin, is that something.
pub proof fn trimming(front: Seq<char>, core: Seq<char>, back: Seq<char>, m: Margin)
    requires
        forall|i: int| 0 <= i < front.len() ==> m.holds(#[trigger] front[i]),
        forall|i: int| 0 <= i < back.len() ==> m.holds(#[trigger] back[i]),
        core.len() > 0 ==> !m.holds(core[0]) && !m.holds(core.last()),
    ensures
        trimmed(front + core + back, m) == core,
    decreases front.len() + back.len(),
{
    let s = front + core + back;
    if front.len() > 0 {
        let rest = front.drop_first();
        assert(s[0] == front[0]);
        assert(s.drop_first() == rest + core + back);
        assert forall|i: int| 0 <= i < rest.len() implies m.holds(#[trigger] rest[i]) by {
            assert(rest[i] == front[i + 1]);
        }
        trimming(rest, core, back, m);
    } else if core.len() == 0 {
        assert(s == back);
        if back.len() > 0 {
            let rest = back.drop_first();
            assert forall|i: int| 0 <= i < rest.len() implies m.holds(#[trigger] rest[i]) by {
                assert(rest[i] == back[i + 1]);
            }
            assert(m.holds(back[0]));
            trimming(front, core, rest, m);
            assert(front + core + rest == rest);
            assert(without_front(s, m) == without_front(rest, m));
        }
    } else {
        assert(s == core + back);
        assert(s[0] == core[0]);
        assert(without_front(s, m) == s);
        trimming_back(core, back, m);
    }
}

proof fn trimming_back(core: Seq<char>, back: Seq<char>, m: Margin)
    requires
        forall|i: int| 0 <= i < back.len() ==> m.holds(#[trigger] back[i]),
        core.len() > 0,
        !m.holds(core.last()),
    ensures
        without_back(core + back, m) == core,
    decreases back.len(),
{
    let s = core + back;
    if back.len() > 0 {
        let rest = back.drop_last();
        assert(s.last() == back[back.len() - 1]);
        assert(s.drop_last() == core + rest);
        assert forall|i: int| 0 <= i < rest.len() implies m.holds(#[trigger] rest[i]) by {
            assert(rest[i] == back[i]);
        }
        trimming_back(core, rest, m);
    } else {
        assert(s == core);
    }
}

/// The value of decimal digits.
pub open spec fn digits_read(s: Seq<char>) -> int {
    s.fold_left(0, |sum: int, c: char| sum * 10 + (c as int - 48))
}

/// A number in decimal is read again: it is made of digits, the first of which is no `0` but for
/// zero itself.
pub proof fn decimal_reads_back(n: nat)
    ensures
        digits_read(decimal(n)) == n,
        decimal(n).len() > 0,
        forall|i: int| 0 <= i < decimal(n).len() ==> '0' <= #[trigger] decimal(n)[i] <= '9',
        n > 0 ==> decimal(n)[0] != '0',
        n == 0 ==> decimal(n) == seq!['0'],
    decreases n,
{
    let f = |sum: int, c: char| sum * 10 + (c as int - 48);
    let s = decimal(n);
    if n >= 10 {
        decimal_reads_back(n / 10);
        assert(s.drop_last() == decimal(n / 10));
    } else {
        assert(s.drop_last() == Seq::<char>::empty());
        assert(s.drop_last().fold_left(0, f) == 0);
    }
    assert(s.fold_left(0, f) == f(s.drop_last().fold_left(0, f), s.last()));
}

/// A signed number has a `-` in front exactly where it is negative, and then its size.
pub proof fn signed_decimal_reads_back(n: int)
    ensures
        n >= 0 ==> signed_decimal(n) == decimal(n as nat),
        n < 0 ==> signed_decimal(n)[0] == '-' && signed_decimal(n).skip(1) == decimal((-n) as nat),
{
    if n < 0 {
        assert(signed_decimal(n).skip(1) == decimal((-n) as nat));
    }
}

/// The front of a text, in UTF-8, is as many of the first bytes of the text.
pub proof fn front_is_the_first_bytes(s: Seq<char>, n: nat)
    requires
        has_front(s, n),
    ensures
        encode_utf8(front(s, n)) == encode_utf8(s).take(
            if n <= encode_utf8(s).len() {
                n as int
            } else {
                encode_utf8(s).len() as int
            },
        ),
{
    let bytes = encode_utf8(s);
    let k = front_len(s, n);
    encode_utf8_valid_utf8(s);
    assert(bytes.take(k) == bytes.subrange(0, k));
    valid_utf8_split(bytes, k);
    decode_utf8_encode_utf8(bytes.subrange(0, k));
}

/// The lower case of an ASCII text: its capital letters are 32 codes higher, and all else is as it
/// was.
pub proof fn lower_case(s: Seq<char>)
    requires
        is_ascii_chars(s),
    ensures
        lowercase(s).len() == s.len(),
        forall|i: int|
            0 <= i < s.len() ==> #[trigger] lowercase(s)[i] as int == s[i] as int + if 'A' <= s[i]
                <= 'Z' {
                32int
            } else {
                0int
            },
{
}

/// A text has a front of some length exactly where it has no more bytes in UTF-8 than that, or the
/// byte behind the front is none that goes on with a character.
pub proof fn where_a_front_ends(s: Seq<char>, n: nat)
    ensures
        has_front(s, n) <==> n >= encode_utf8(s).len() || encode_utf8(s)[n as int] < 0x80
            || encode_utf8(s)[n as int] > 0xbf,
{
    let bytes = encode_utf8(s);
    encode_utf8_valid_utf8(s);
    is_char_boundary_start_end_of_seq(bytes);
    if n < bytes.len() {
        is_char_boundary_iff_not_is_continuation_byte(bytes, n as int);
    }
}

} // verus!
