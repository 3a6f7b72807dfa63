//! The structured header values of the protocol, such as
//! `solana; amount="0.001"; recipient="9WzD..."; network="devnet"`.
use vstd::prelude::*;
use vstd::string::*;
use vstd::utf8::*;

use crate::base58::{alphanumeric, base58_text, text_is_of_the_alphabet};
use crate::string_map::StringMap;
use crate::text::{
    chars_of, find_char, find_char_at, find_char_bounds, find_char_none, find_in_range, is_white,
    lowercase, lowercase_of, split_on, text_between, trim_range, trimmed, trimming, Margin,
};

verus! {

/// What one part of a header adds to the parameters: its key, in lower case, and its value, without
/// the quotes around it. A part with no `=` adds nothing.
pub open spec fn with_part(params: Map<Seq<char>, Seq<char>>, part: Seq<char>) -> Map<
    Seq<char>,
    Seq<char>,
> {
    let p = trimmed(part, Margin::White);
    let eq = find_char(p, '=');
    if eq < p.len() {
        let key = lowercase(trimmed(p.take(eq), Margin::White));
        let value = trimmed(trimmed(p.skip(eq + 1), Margin::White), Margin::Quote);
        params.insert(key, value)
    } else {
        params
    }
}

/// The parameters in a list of parts; where a key occurs again, the later part counts.
pub open spec fn params_in(parts: Seq<Seq<char>>) -> Map<Seq<char>, Seq<char>>
    decreases parts.len(),
{
    if parts.len() == 0 {
        Map::empty()
    } else {
        with_part(params_in(parts.drop_last()), parts.last())
    }
}

/// The parameters of a header value: those in its parts after the first, parted by `;`.
pub open spec fn header_params(header: Seq<char>) -> Map<Seq<char>, Seq<char>> {
    params_in(split_on(header, ';').drop_first())
}

/// Adds the part `lo..hi` of a header to the parameters.
fn add_part(params: &mut StringMap<String>, chars: &Vec<char>, lo: usize, hi: usize)
    requires
        lo <= hi <= chars@.len(),
    ensures
        final(params)@ == with_part(old(params)@, chars@.subrange(lo as int, hi as int)),
{
    let (a, b) = trim_range(chars, lo, hi, Margin::White);
    let ghost p = chars@.subrange(a as int, b as int);
    let eq = find_in_range(chars, a, b, '=');
    if eq < b {
        assert(p.take(eq - a) == chars@.subrange(a as int, eq as int));
        assert(p.skip(eq - a + 1) == chars@.subrange(eq + 1, b as int));
        let (ka, kb) = trim_range(chars, a, eq, Margin::White);
        let key = lowercase_of(text_between(chars, ka, kb).as_str());
        let (va, vb) = trim_range(chars, eq + 1, b, Margin::White);
        let (qa, qb) = trim_range(chars, va, vb, Margin::Quote);
        let value = text_between(chars, qa, qb);
        params.insert(key, value);
    }
}

/// Parses a structured header value like
/// `solana; amount="0.001"; recipient="9WzD..."; network="devnet"`.
pub fn parse_header_params(header: &str) -> (r: StringMap<String>)
    ensures
        r@ == header_params(header@),
{
    let chars = chars_of(header);
    let mut params: StringMap<String> = StringMap::new();
    let mut first: bool = true;
    let mut start: usize = 0;
    let mut i: usize = 0;
    let ghost mut done: Seq<Seq<char>> = Seq::empty();
    assert(chars@.subrange(0, 0) == Seq::<char>::empty());
    assert(done.push(Seq::empty()) == seq![Seq::<char>::empty()]);
    while i < chars.len()
        invariant
            start <= i <= chars@.len(),
            split_on(chars@.take(i as int), ';') == done.push(
                chars@.subrange(start as int, i as int),
            ),
            first == (done.len() == 0),
            first ==> params@ == Map::<Seq<char>, Seq<char>>::empty(),
            !first ==> params@ == params_in(done.drop_first()),
        decreases chars.len() - i,
    {
        let ghost before = split_on(chars@.take(i as int), ';');
        assert(chars@.take(i + 1).drop_last() == chars@.take(i as int));
        if chars[i] == ';' {
            let ghost piece = chars@.subrange(start as int, i as int);
            if first {
                first = false;
                assert(done.push(piece).drop_first() == Seq::<Seq<char>>::empty());
            } else {
                add_part(&mut params, &chars, start, i);
                assert(done.push(piece).drop_first().drop_last() == done.drop_first());
            }
            proof {
                done = before;
            }
            start = i + 1;
            assert(chars@.subrange(start as int, i + 1) == Seq::<char>::empty());
        } else {
            assert(before.drop_last() == done);
            assert(chars@.subrange(start as int, i as int).push(chars@[i as int])
                == chars@.subrange(start as int, i + 1));
        }
        i = i + 1;
    }
    assert(chars@.take(i as int) == chars@);
    let ghost piece = chars@.subrange(start as int, i as int);
    if first {
        assert(done.push(piece).drop_first() == Seq::<Seq<char>>::empty());
    } else {
        add_part(&mut params, &chars, start, i);
        assert(done.push(piece).drop_first().drop_last() == done.drop_first());
    }
    params
}

// ---------------------------------------------------------------------------------------------
// Header values as bytes
// ---------------------------------------------------------------------------------------------
/// Whether a byte is visible ASCII or a tab.
pub open spec fn visible(b: u8) -> bool {
    32 <= b < 127 || b == 9
}

/// The text of a header value, which it has where all its bytes are visible.
pub open spec fn visible_text(bytes: Seq<u8>) -> Option<Seq<char>> {
    if forall|i: int| 0 <= i < bytes.len() ==> visible(#[trigger] bytes[i]) {
        Some(Seq::new(bytes.len(), |i: int| bytes[i] as char))
    } else {
        None
    }
}

/// Reads a header value as a text.
pub fn header_text(bytes: &[u8]) -> (r: Option<String>)
    ensures
        match (r, visible_text(bytes@)) {
            (Some(s), Some(text)) => s@ == text && is_ascii_chars(text),
            (None, None) => true,
            _ => false,
        },
{
    let mut r = String::new();
    let mut i: usize = 0;
    while i < bytes.len()
        invariant
            i <= bytes@.len(),
            forall|j: int| 0 <= j < i ==> visible(#[trigger] bytes@[j]),
            r@ == Seq::new(i as nat, |j: int| bytes@[j] as char),
        decreases bytes.len() - i,
    {
        let b: u8 = bytes[i];
        if !((32 <= b && b < 127) || b == 9) {
            return None;
        }
        r.push(b as char);
        i = i + 1;
    }
    Some(r)
}

// ---------------------------------------------------------------------------------------------
// Writing header values
// ---------------------------------------------------------------------------------------------
/// One parameter: the key, and the value in quotes.
pub open spec fn quoted(key: Seq<char>, value: Seq<char>) -> Seq<char> {
    key + "=\""@ + value + "\""@
}

/// The header value that asks for a payment.
pub open spec fn payment_request_text(
    amount: Seq<char>,
    recipient: Seq<char>,
    network: Seq<char>,
) -> Seq<char> {
    "solana"@ + "; "@ + quoted("amount"@, amount) + "; "@ + quoted("recipient"@, recipient) + "; "@
        + quoted("network"@, network)
}

/// The header value that proves a payment.
pub open spec fn payment_receipt_text(
    signature: Seq<char>,
    network: Seq<char>,
    amount: Seq<char>,
) -> Seq<char> {
    "solana"@ + "; "@ + quoted("signature"@, signature) + "; "@ + quoted("network"@, network)
        + "; "@ + quoted("amount"@, amount)
}

/// Appends one parameter, after the separator.
fn append_quoted(out: &mut String, key: &str, value: &str)
    ensures
        final(out)@ == old(out)@ + "; "@ + quoted(key@, value@),
{
    let ghost before = out@;
    out.append("; ");
    out.append(key);
    out.append("=\"");
    out.append(value);
    out.append("\"");
    assert(out@ == before + "; "@ + quoted(key@, value@));
}

/// Writes the header value that asks for a payment:
/// `solana; amount="..."; recipient="..."; network="..."`.
pub fn payment_request_header(amount: &str, recipient: &str, network: &str) -> (r: String)
    ensures
        r@ == payment_request_text(amount@, recipient@, network@),
{
    let mut r = String::from_str("solana");
    append_quoted(&mut r, "amount", amount);
    append_quoted(&mut r, "recipient", recipient);
    append_quoted(&mut r, "network", network);
    r
}

/// Writes the header value that proves a payment:
/// `solana; signature="..."; network="..."; amount="..."`.
pub fn payment_receipt_header(signature: &str, network: &str, amount: &str) -> (r: String)
    ensures
        r@ == payment_receipt_text(signature@, network@, amount@),
{
    let mut r = String::from_str("solana");
    append_quoted(&mut r, "signature", signature);
    append_quoted(&mut r, "network", network);
    append_quoted(&mut r, "amount", amount);
    r
}

// ---------------------------------------------------------------------------------------------
// Laws
// ---------------------------------------------------------------------------------------------
/// The values that survive being written in quotes and read again: no `;` in them, and no quote at
/// either end.
pub open spec fn plain_value(v: Seq<char>) -> bool {
    &&& !v.contains(';')
    &&& v.len() > 0 ==> v[0] != '"' && v.last() != '"'
}

/// A key of small ASCII letters.
spec fn plain_key(k: Seq<char>) -> bool {
    &&& k.len() > 0
    &&& forall|i: int| 0 <= i < k.len() ==> 'a' <= #[trigger] k[i] <= 'z'
}

/// A text with no separator in it is one piece.
proof fn split_one(s: Seq<char>, sep: char)
    requires
        !s.contains(sep),
    ensures
        split_on(s, sep) == seq![s],
    decreases s.len(),
{
    if s.len() > 0 {
        let front = s.drop_last();
        assert(s.contains(s.last()));
        assert forall|i: int| 0 <= i < front.len() implies front[i] != sep by {
            assert(s.contains(s[i]));
        }
        split_one(front, sep);
        assert(front.push(s.last()) == s);
        assert(seq![front].drop_last().push(s) == seq![s]);
    } else {
        assert(s == Seq::<char>::empty());
    }
}

/// A separator and a text with none in it add one piece.
proof fn split_more(a: Seq<char>, b: Seq<char>, sep: char)
    requires
        !b.contains(sep),
    ensures
        split_on(a + seq![sep] + b, sep) == split_on(a, sep).push(b),
    decreases b.len(),
{
    let all = a + seq![sep] + b;
    if b.len() == 0 {
        assert(all.drop_last() == a);
        assert(b == Seq::<char>::empty());
    } else {
        let front = b.drop_last();
        assert(b.contains(b.last()));
        assert forall|i: int| 0 <= i < front.len() implies front[i] != sep by {
            assert(b.contains(b[i]));
        }
        split_more(a, front, sep);
        assert(all.drop_last() == a + seq![sep] + front);
        assert(front.push(b.last()) == b);
        assert(split_on(a, sep).push(front).drop_last().push(b) == split_on(a, sep).push(b));
    }
}

/// What is read of one parameter as it is written.
#[verifier::rlimit(30)]
proof fn part_reads_back(params: Map<Seq<char>, Seq<char>>, key: Seq<char>, value: Seq<char>)
    requires
        plain_key(key),
        plain_value(value),
    ensures
        with_part(params, seq![' '] + quoted(key, value)) == params.insert(key, value),
        !(seq![' '] + quoted(key, value)).contains(';'),
{
    reveal_strlit("=\"");
    reveal_strlit("\"");
    assert("=\""@ == seq!['=', '"']);
    assert("\""@ == seq!['"']);
    let q = quoted(key, value);
    let part = seq![' '] + q;
    let n = key.len() as int;
    assert(q == key + seq!['=', '"'] + value + seq!['"']);
    assert(part.drop_first() == q);
    assert(q[0] == key[0]);
    assert(q.last() == '"');
    assert(trimmed(part, Margin::White) == q) by {
        reveal_with_fuel(crate::text::without_front, 2);
    }
    assert forall|j: int| 0 <= j < n implies q[j] != '=' by {
        assert(q[j] == key[j]);
    }
    assert(q[n] == '=');
    find_char_at(q, '=', n);
    assert(q.take(n) == key);
    assert(trimmed(key, Margin::White) == key);
    assert(is_ascii_chars(key));
    assert(lowercase(key) == key) by {
        assert(key.map_values(|c: char| crate::text::ascii_lowercase(c)) =~= key);
    }
    let v = q.skip(n + 1);
    assert(v == seq!['"'] + value + seq!['"']);
    assert(v[0] == '"' && v.last() == '"');
    assert(trimmed(v, Margin::White) == v);
    let rest = v.drop_first();
    assert(rest == value + seq!['"']);
    assert(trimmed(v, Margin::Quote) == value) by {
        reveal_with_fuel(crate::text::without_front, 3);
        reveal_with_fuel(crate::text::without_back, 2);
        if value.len() == 0 {
            assert(rest.drop_first() == value);
        } else {
            assert(rest[0] == value[0]);
            assert(rest.last() == '"');
            assert(rest.drop_last() == value);
        }
    }
    assert forall|i: int| 0 <= i < part.len() implies part[i] != ';' by {
        if 1 <= i && i < n + 1 {
            assert(part[i] == key[i - 1]);
        } else if n + 3 <= i && i < part.len() - 1 {
            assert(part[i] == value[i - n - 3]);
            assert(value.contains(value[i - n - 3]));
        }
    }
}

/// What is read of three parameters as they are written.
proof fn three_read_back(
    k1: Seq<char>,
    v1: Seq<char>,
    k2: Seq<char>,
    v2: Seq<char>,
    k3: Seq<char>,
    v3: Seq<char>,
)
    requires
        plain_key(k1),
        plain_value(v1),
        plain_key(k2),
        plain_value(v2),
        plain_key(k3),
        plain_value(v3),
    ensures
        header_params(
            "solana"@ + "; "@ + quoted(k1, v1) + "; "@ + quoted(k2, v2) + "; "@ + quoted(k3, v3),
        ) == Map::<Seq<char>, Seq<char>>::empty().insert(k1, v1).insert(k2, v2).insert(k3, v3),
{
    reveal_strlit("solana");
    reveal_strlit("; ");
    assert("; "@ == seq![';'] + seq![' ']);
    let name = "solana"@;
    let p1 = seq![' '] + quoted(k1, v1);
    let p2 = seq![' '] + quoted(k2, v2);
    let p3 = seq![' '] + quoted(k3, v3);
    let none = Map::<Seq<char>, Seq<char>>::empty();
    part_reads_back(none, k1, v1);
    part_reads_back(none.insert(k1, v1), k2, v2);
    part_reads_back(none.insert(k1, v1).insert(k2, v2), k3, v3);
    let h1 = name + seq![';'] + p1;
    let h2 = h1 + seq![';'] + p2;
    let h3 = h2 + seq![';'] + p3;
    assert(h3 == name + "; "@ + quoted(k1, v1) + "; "@ + quoted(k2, v2) + "; "@ + quoted(k3, v3));
    split_one(name, ';');
    split_more(name, p1, ';');
    split_more(h1, p2, ';');
    split_more(h2, p3, ';');
    let parts = split_on(h3, ';').drop_first();
    assert(parts == seq![p1, p2, p3]);
    assert(parts.drop_last() == seq![p1, p2]);
    assert(parts.drop_last().drop_last() == seq![p1]);
    assert(parts.drop_last().drop_last().drop_last() == Seq::<Seq<char>>::empty());
    reveal_with_fuel(params_in, 4);
}

/// The values in an ASCII header are ASCII.
pub proof fn ascii_values(header: Seq<char>, key: Seq<char>)
    requires
        is_ascii_chars(header),
        header_params(header).dom().contains(key),
    ensures
        is_ascii_chars(header_params(header)[key]),
{
    ascii_pieces(header);
    let pieces = split_on(header, ';');
    let parts = pieces.drop_first();
    assert forall|i: int| 0 <= i < parts.len() implies is_ascii_chars(#[trigger] parts[i]) by {
        assert(parts[i] == pieces[i + 1]);
    }
    ascii_params(parts, key);
}

proof fn ascii_pieces(s: Seq<char>)
    requires
        is_ascii_chars(s),
    ensures
        split_on(s, ';').len() > 0,
        forall|i: int|
            0 <= i < split_on(s, ';').len() ==> is_ascii_chars(#[trigger] split_on(s, ';')[i]),
    decreases s.len(),
{
    if s.len() > 0 {
        ascii_pieces(s.drop_last());
        assert(is_ascii_chars(split_on(s.drop_last(), ';').last()));
    }
}

proof fn ascii_trimmed(s: Seq<char>, m: Margin)
    requires
        is_ascii_chars(s),
    ensures
        is_ascii_chars(trimmed(s, m)),
{
    ascii_without_front(s, m);
    ascii_without_back(crate::text::without_front(s, m), m);
}

proof fn ascii_without_front(s: Seq<char>, m: Margin)
    requires
        is_ascii_chars(s),
    ensures
        is_ascii_chars(crate::text::without_front(s, m)),
    decreases s.len(),
{
    if s.len() > 0 && m.holds(s[0]) {
        ascii_without_front(s.drop_first(), m);
    }
}

proof fn ascii_without_back(s: Seq<char>, m: Margin)
    requires
        is_ascii_chars(s),
    ensures
        is_ascii_chars(crate::text::without_back(s, m)),
    decreases s.len(),
{
    if s.len() > 0 && m.holds(s.last()) {
        ascii_without_back(s.drop_last(), m);
    }
}

proof fn ascii_params(parts: Seq<Seq<char>>, key: Seq<char>)
    requires
        forall|i: int| 0 <= i < parts.len() ==> is_ascii_chars(#[trigger] parts[i]),
        params_in(parts).dom().contains(key),
    ensures
        is_ascii_chars(params_in(parts)[key]),
    decreases parts.len(),
{
    let front = parts.drop_last();
    let p = trimmed(parts.last(), Margin::White);
    assert(is_ascii_chars(parts[parts.len() - 1]));
    ascii_trimmed(parts.last(), Margin::White);
    find_char_bounds(p, '=');
    let eq = find_char(p, '=');
    if eq < p.len() {
        let v = p.skip(eq + 1);
        assert(is_ascii_chars(v));
        ascii_trimmed(v, Margin::White);
        ascii_trimmed(trimmed(v, Margin::White), Margin::Quote);
    }
    if params_in(front).dom().contains(key) {
        assert forall|i: int| 0 <= i < front.len() implies is_ascii_chars(#[trigger] front[i]) by {
            assert(front[i] == parts[i]);
        }
        ascii_params(front, key);
    }
}

/// The amount, the recipient and the network of a payment request are read as they were written.
pub proof fn payment_request_reads_back(
    amount: Seq<char>,
    recipient: Seq<char>,
    network: Seq<char>,
)
    requires
        plain_value(amount),
        plain_value(recipient),
        plain_value(network),
    ensures
        ({
            let params = header_params(payment_request_text(amount, recipient, network));
            &&& params.dom() == set!["amount"@, "recipient"@, "network"@]
            &&& params["amount"@] == amount
            &&& params["recipient"@] == recipient
            &&& params["network"@] == network
        }),
{
    reveal_strlit("amount");
    reveal_strlit("recipient");
    reveal_strlit("network");
    assert("amount"@.len() != "recipient"@.len() && "amount"@.len() != "network"@.len()
        && "recipient"@.len() != "network"@.len());
    three_read_back("amount"@, amount, "recipient"@, recipient, "network"@, network);
    assert(header_params(payment_request_text(amount, recipient, network)).dom()
        =~= set!["amount"@, "recipient"@, "network"@]);
}

/// The signature, the network and the amount of a payment receipt are read as they were written.
pub proof fn payment_receipt_reads_back(
    signature: Seq<char>,
    network: Seq<char>,
    amount: Seq<char>,
)
    requires
        plain_value(signature),
        plain_value(network),
        plain_value(amount),
    ensures
        ({
            let params = header_params(payment_receipt_text(signature, network, amount));
            &&& params.dom() == set!["signature"@, "network"@, "amount"@]
            &&& params["signature"@] == signature
            &&& params["network"@] == network
            &&& params["amount"@] == amount
        }),
{
    reveal_strlit("amount");
    reveal_strlit("signature");
    reveal_strlit("network");
    assert("amount"@.len() != "signature"@.len() && "amount"@.len() != "network"@.len()
        && "signature"@.len() != "network"@.len());
    three_read_back("signature"@, signature, "network"@, network, "amount"@, amount);
    assert(header_params(payment_receipt_text(signature, network, amount)).dom()
        =~= set!["signature"@, "network"@, "amount"@]);
}

/// A text of visible ASCII characters, sent byte by byte, is read as it was written.
pub proof fn visible_text_reads_back(text: Seq<char>)
    requires
        forall|i: int| 0 <= i < text.len() ==> ' ' <= #[trigger] text[i] <= '~',
    ensures
        visible_text(Seq::new(text.len(), |i: int| text[i] as u8)) == Some(text),
{
    let bytes = Seq::new(text.len(), |i: int| text[i] as u8);
    assert forall|i: int| 0 <= i < bytes.len() implies visible(#[trigger] bytes[i]) by {
        assert(' ' <= text[i] <= '~');
    }
    assert forall|i: int| 0 <= i < bytes.len() implies bytes[i] as char == #[trigger] text[i] by {
        assert(' ' <= text[i] <= '~');
    }
    assert(Seq::new(bytes.len(), |i: int| bytes[i] as char) == text);
}

/// The address of a key survives in a header value.
pub proof fn addresses_are_plain(key: Seq<u8>)
    ensures
        plain_value(base58_text(key)),
{
    text_is_of_the_alphabet(key);
    let text = base58_text(key);
    assert forall|i: int| 0 <= i < text.len() implies alphanumeric(#[trigger] text[i]) by {}
}

proof fn split_gives_some(s: Seq<char>, sep: char)
    ensures
        split_on(s, sep).len() > 0,
    decreases s.len(),
{
    if s.len() > 0 {
        split_gives_some(s.drop_last(), sep);
    }
}

/// What one more part adds to what was read before.
proof fn params_with_one_more(header: Seq<char>, part: Seq<char>)
    requires
        !part.contains(';'),
    ensures
        header_params(header + seq![';'] + part) == with_part(header_params(header), part),
{
    split_gives_some(header, ';');
    split_more(header, part, ';');
    let pieces = split_on(header, ';');
    assert(pieces.push(part).drop_first() == pieces.drop_first().push(part));
    assert(pieces.drop_first().push(part).drop_last() == pieces.drop_first());
}

/// Whether a text is all white space.
pub open spec fn all_white(s: Seq<char>) -> bool {
    forall|i: int| 0 <= i < s.len() ==> is_white(#[trigger] s[i])
}

/// Whether a text is all quotes.
pub open spec fn all_quotes(s: Seq<char>) -> bool {
    forall|i: int| 0 <= i < s.len() ==> #[trigger] s[i] == '"'
}

/// A header with no `;` in it has no parameters.
pub proof fn no_parameters(header: Seq<char>)
    requires
        !header.contains(';'),
    ensures
        header_params(header) == Map::<Seq<char>, Seq<char>>::empty(),
{
    split_one(header, ';');
    assert(seq![header].drop_first() == Seq::<Seq<char>>::empty());
}

/// A part with no `=` in it adds nothing.
pub proof fn a_part_without_a_value(header: Seq<char>, part: Seq<char>)
    requires
        !part.contains(';'),
        !part.contains('='),
    ensures
        header_params(header + seq![';'] + part) == header_params(header),
{
    params_with_one_more(header, part);
    trimmed_has_nothing_new(part, Margin::White, '=');
    find_char_none(trimmed(part, Margin::White), '=');
}

proof fn trimmed_has_nothing_new(s: Seq<char>, m: Margin, c: char)
    requires
        !s.contains(c),
    ensures
        forall|i: int| 0 <= i < trimmed(s, m).len() ==> #[trigger] trimmed(s, m)[i] != c,
{
    front_has_nothing_new(s, m, c);
    back_has_nothing_new(crate::text::without_front(s, m), m, c);
    let t = trimmed(s, m);
    assert forall|i: int| 0 <= i < t.len() implies #[trigger] t[i] != c by {
        assert(t.contains(t[i]));
    }
}

proof fn front_has_nothing_new(s: Seq<char>, m: Margin, c: char)
    requires
        !s.contains(c),
    ensures
        !crate::text::without_front(s, m).contains(c),
    decreases s.len(),
{
    if s.len() > 0 && m.holds(s[0]) {
        let rest = s.drop_first();
        assert forall|i: int| 0 <= i < rest.len() implies rest[i] != c by {
            assert(s.contains(s[i + 1]));
        }
        front_has_nothing_new(rest, m, c);
    }
}

proof fn back_has_nothing_new(s: Seq<char>, m: Margin, c: char)
    requires
        !s.contains(c),
    ensures
        !crate::text::without_back(s, m).contains(c),
    decreases s.len(),
{
    if s.len() > 0 && m.holds(s.last()) {
        let rest = s.drop_last();
        assert forall|i: int| 0 <= i < rest.len() implies rest[i] != c by {
            assert(s.contains(s[i]));
        }
        back_has_nothing_new(rest, m, c);
    }
}

/// A part that is a key, an `=` and a value, with any white space around the two and any quotes
/// around the value, gives the key, in lower case, that value, in place of any that it had.
pub proof fn one_more_parameter(
    header: Seq<char>,
    a: Seq<char>,
    key: Seq<char>,
    b: Seq<char>,
    c: Seq<char>,
    open: Seq<char>,
    value: Seq<char>,
    close: Seq<char>,
    d: Seq<char>,
)
    requires
        all_white(a),
        all_white(b),
        all_white(c),
        all_white(d),
        all_quotes(open),
        all_quotes(close),
        !key.contains(';'),
        !key.contains('='),
        key.len() > 0 ==> !is_white(key[0]) && !is_white(key.last()),
        !value.contains(';'),
        value.len() > 0 ==> value[0] != '"' && value.last() != '"',
        ({
            let v = open + value + close;
            v.len() > 0 ==> !is_white(v[0]) && !is_white(v.last())
        }),
    ensures
        header_params(
            header + seq![';'] + (a + key + b + seq!['='] + c + (open + value + close) + d),
        ) == header_params(header).insert(lowercase(key), value),
{
    let v = open + value + close;
    let part = a + key + b + seq!['='] + c + v + d;
    let none = Seq::<char>::empty();
    assert(!part.contains(';')) by {
        assert forall|i: int| 0 <= i < part.len() implies part[i] != ';' by {
            part_char(a, key, b, c, open, value, close, d, i);
        }
    }
    params_with_one_more(header, part);
    // The part without the white space at its ends.
    let left = if key.len() > 0 {
        key + b
    } else {
        none
    };
    let right = if v.len() > 0 {
        c + v
    } else {
        none
    };
    let front = if key.len() > 0 {
        a
    } else {
        a + b
    };
    let back = if v.len() > 0 {
        d
    } else {
        c + d
    };
    let core = left + seq!['='] + right;
    assert(part == front + core + back);
    assert(core[0] == if key.len() > 0 {
        key[0]
    } else {
        '='
    });
    assert(core.last() == if v.len() > 0 {
        v.last()
    } else {
        '='
    });
    assert forall|i: int| 0 <= i < front.len() implies Margin::White.holds(#[trigger] front[i]) by {
        if i >= a.len() {
            assert(front[i] == b[i - a.len()]);
        }
    }
    assert forall|i: int| 0 <= i < back.len() implies Margin::White.holds(#[trigger] back[i]) by {
        if v.len() == 0 && i >= c.len() {
            assert(back[i] == d[i - c.len()]);
        }
    }
    trimming(front, core, back, Margin::White);
    let p = trimmed(part, Margin::White);
    assert(p == core);
    // The key and the value in it.
    let n = left.len() as int;
    assert forall|j: int| 0 <= j < n implies p[j] != '=' by {
        if j < key.len() {
            assert(p[j] == key[j]);
            assert(key.contains(key[j]));
        } else {
            assert(p[j] == b[j - key.len()]);
            assert(is_white(b[j - key.len()]));
        }
    }
    assert(p[n] == '=');
    find_char_at(p, '=', n);
    assert(p.take(n) == left);
    assert(p.skip(n + 1) == right);
    trimming(none, key, b, Margin::White);
    assert(none + key + b == key + b);
    trimming(none, none, none, Margin::White);
    assert(none + none + none == none);
    assert(trimmed(left, Margin::White) == key);
    trimming(c, v, none, Margin::White);
    assert(c + v + none == c + v);
    assert(trimmed(right, Margin::White) == v);
    trimming(open, value, close, Margin::Quote);
}

proof fn part_char(
    a: Seq<char>,
    key: Seq<char>,
    b: Seq<char>,
    c: Seq<char>,
    open: Seq<char>,
    value: Seq<char>,
    close: Seq<char>,
    d: Seq<char>,
    i: int,
)
    requires
        all_white(a),
        all_white(b),
        all_white(c),
        all_white(d),
        all_quotes(open),
        all_quotes(close),
        !key.contains(';'),
        !value.contains(';'),
        0 <= i < (a + key + b + seq!['='] + c + (open + value + close) + d).len(),
    ensures
        (a + key + b + seq!['='] + c + (open + value + close) + d)[i] != ';',
{
    let part = a + key + b + seq!['='] + c + (open + value + close) + d;
    let k1 = a.len() as int;
    let k2 = k1 + key.len();
    let k3 = k2 + b.len();
    let k4 = k3 + 1 + c.len();
    let k5 = k4 + open.len();
    let k6 = k5 + value.len();
    let k7 = k6 + close.len();
    if i < k1 {
        assert(part[i] == a[i]);
    } else if i < k2 {
        assert(part[i] == key[i - k1]);
        assert(key.contains(key[i - k1]));
    } else if i < k3 {
        assert(part[i] == b[i - k2]);
    } else if i == k3 {
        assert(part[i] == '=');
    } else if i < k4 {
        assert(part[i] == c[i - k3 - 1]);
    } else if i < k5 {
        assert(part[i] == open[i - k4]);
    } else if i < k6 {
        assert(part[i] == value[i - k5]);
        assert(value.contains(value[i - k5]));
    } else if i < k7 {
        assert(part[i] == close[i - k6]);
    } else {
        assert(part[i] == d[i - k7]);
    }
}

/// A header value has a text exactly where each of its bytes is a tab or from the space to the
/// tilde, and the text has the characters with these codes.
pub proof fn visible_bytes(bytes: Seq<u8>)
    ensures
        visible_text(bytes) is Some <==> forall|i: int|
            0 <= i < bytes.len() ==> #[trigger] bytes[i] == 9 || 32 <= bytes[i] <= 126,
        visible_text(bytes) matches Some(text) ==> text.len() == bytes.len() && forall|i: int|
            0 <= i < bytes.len() ==> (#[trigger] text[i]) as int == bytes[i],
{
    if visible_text(bytes) is Some {
        assert forall|i: int| 0 <= i < bytes.len() implies #[trigger] bytes[i] == 9 || 32 <= bytes[i]
            <= 126 by {
            assert(visible(bytes[i]));
        }
    }
}

/// The two header values, as they are written.
pub proof fn header_values_in_full(
    amount: Seq<char>,
    recipient: Seq<char>,
    network: Seq<char>,
    signature: Seq<char>,
)
    ensures
        payment_request_text(amount, recipient, network) == "solana; amount=\""@ + amount
            + "\"; recipient=\""@ + recipient + "\"; network=\""@ + network + "\""@,
        payment_receipt_text(signature, network, amount) == "solana; signature=\""@ + signature
            + "\"; network=\""@ + network + "\"; amount=\""@ + amount + "\""@,
{
    reveal_strlit("solana");
    reveal_strlit("; ");
    reveal_strlit("=\"");
    reveal_strlit("\"");
    reveal_strlit("amount");
    reveal_strlit("recipient");
    reveal_strlit("network");
    reveal_strlit("signature");
    reveal_strlit("solana; amount=\"");
    reveal_strlit("\"; recipient=\"");
    reveal_strlit("\"; network=\"");
    reveal_strlit("solana; signature=\"");
    reveal_strlit("\"; amount=\"");
    assert("solana; amount=\""@ == "solana"@ + "; "@ + "amount"@ + "=\""@);
    assert("solana; signature=\""@ == "solana"@ + "; "@ + "signature"@ + "=\""@);
    assert("\"; recipient=\""@ == "\""@ + "; "@ + "recipient"@ + "=\""@);
    assert("\"; network=\""@ == "\""@ + "; "@ + "network"@ + "=\""@);
    assert("\"; amount=\""@ == "\""@ + "; "@ + "amount"@ + "=\""@);
    assert(payment_request_text(amount, recipient, network) == "solana; amount=\""@ + amount
        + "\"; recipient=\""@ + recipient + "\"; network=\""@ + network + "\""@);
    assert(payment_receipt_text(signature, network, amount) == "solana; signature=\""@ + signature
        + "\"; network=\""@ + network + "\"; amount=\""@ + amount + "\""@);
}

} // verus!
