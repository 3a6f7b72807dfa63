//! The wire form of a signed SOL transfer.
use base64::engine::general_purpose::STANDARD;
use base64::Engine;
use vstd::prelude::*;

use crate::keys::{ed25519_signature, SigningKey};

verus! {

// ---------------------------------------------------------------------------------------------
// Lengths and numbers
// ---------------------------------------------------------------------------------------------
/// A length in the compact form: seven bits to a byte, the low ones first, and the top bit set on
/// each byte that another follows. The third byte keeps the low eight bits of what is left.
pub open spec fn compact_u16(n: nat) -> Seq<u8> {
    if n < 0x80 {
        seq![n as u8]
    } else if n < 0x4000 {
        seq![(n % 0x80 + 0x80) as u8, (n / 0x80) as u8]
    } else {
        seq![
            (n % 0x80 + 0x80) as u8,
            ((n / 0x80) % 0x80 + 0x80) as u8,
            ((n / 0x4000) % 0x100) as u8,
        ]
    }
}

/// Writes a length in the compact form.
pub fn encode_compact_u16(n: usize) -> (r: Vec<u8>)
    ensures
        r@ == compact_u16(n as nat),
{
    if n < 0x80 {
        vec![n as u8]
    } else if n < 0x4000 {
        vec![(n % 0x80 + 0x80) as u8, (n / 0x80) as u8]
    } else {
        vec![
            (n % 0x80 + 0x80) as u8,
            ((n / 0x80) % 0x80 + 0x80) as u8,
            ((n / 0x4000) % 0x100) as u8,
        ]
    }
}

/// The length that compact bytes stand for.
pub open spec fn compact_value(bytes: Seq<u8>) -> nat {
    if bytes.len() == 1 {
        bytes[0] as nat
    } else if bytes.len() == 2 {
        ((bytes[0] - 0x80) + bytes[1] * 0x80) as nat
    } else {
        ((bytes[0] - 0x80) + (bytes[1] - 0x80) * 0x80 + bytes[2] * 0x4000) as nat
    }
}

/// A length below 2 to the 22 can be read back from its compact form, in which every byte but the
/// last has its top bit set; of a larger one, the low 22 bits can. The form has as many bytes as
/// there are groups of seven bits, but three at the most.
pub proof fn compact_u16_reads_back(n: nat)
    ensures
        n < 0x400000 ==> compact_value(compact_u16(n)) == n,
        compact_value(compact_u16(n)) == n % 0x400000,
        compact_u16(n).len() == if n < 0x80 {
            1nat
        } else if n < 0x4000 {
            2nat
        } else {
            3nat
        },
        forall|i: int|
            0 <= i < compact_u16(n).len() - 1 ==> #[trigger] compact_u16(n)[i] >= 0x80,
        n < 0x4000 ==> compact_u16(n).last() < 0x80,
{
    assert(n / 0x80 / 0x80 == n / 0x4000);
    if n >= 0x4000 {
        let m = n % 0x400000;
        let k = n / 0x400000;
        assert(n == k * 0x400000 + m);
        assert(n % 0x80 == m % 0x80);
        assert(n / 0x80 == k * 0x8000 + m / 0x80);
        assert((n / 0x80) % 0x80 == (m / 0x80) % 0x80);
        assert(n / 0x4000 == k * 0x100 + m / 0x4000);
        assert((n / 0x4000) % 0x100 == m / 0x4000);
        assert(m / 0x80 / 0x80 == m / 0x4000);
    }
}

/// The low `k` bytes of a number, the lowest first.
pub open spec fn le_bytes(n: nat, k: nat) -> Seq<u8>
    decreases k,
{
    if k == 0 {
        Seq::empty()
    } else {
        seq![(n % 256) as u8] + le_bytes(n / 256, (k - 1) as nat)
    }
}

/// Appends the low `k` bytes of a number, the lowest first.
fn push_le(out: &mut Vec<u8>, n: u64, k: usize)
    ensures
        final(out)@ == old(out)@ + le_bytes(n as nat, k as nat),
{
    let mut left: u64 = n;
    let mut i: usize = 0;
    let ghost start = out@;
    while i < k
        invariant
            i <= k,
            start + le_bytes(n as nat, k as nat) == out@ + le_bytes(left as nat, (k - i) as nat),
        decreases k - i,
    {
        let b: u8 = (left % 256) as u8;
        let ghost rest = le_bytes((left / 256) as nat, (k - i - 1) as nat);
        assert(out@.push(b) + rest == out@ + (seq![b] + rest));
        out.push(b);
        left = left / 256;
        i = i + 1;
    }
    assert(out@ + Seq::<u8>::empty() == out@);
}

/// Appends bytes.
fn push_all(out: &mut Vec<u8>, bytes: &[u8])
    ensures
        final(out)@ == old(out)@ + bytes@,
{
    let ghost before = out@;
    out.extend_from_slice(bytes);
    assert(out@ == before + bytes@);
}

// ---------------------------------------------------------------------------------------------
// The message and the transaction
// ---------------------------------------------------------------------------------------------
/// The message of a transfer: one signer and one account that is only read, the three accounts
/// (payer, payee, system program), the recent block hash, and one instruction to the system
/// program, which is transfer, with the accounts 0 and 1 and the lamports.
pub open spec fn message_bytes(
    from: Seq<u8>,
    to: Seq<u8>,
    lamports: u64,
    blockhash: Seq<u8>,
) -> Seq<u8> {
    seq![1u8, 0, 1] + compact_u16(3) + from + to + Seq::new(32, |i: int| 0u8) + blockhash
        + compact_u16(1) + seq![2u8] + compact_u16(2) + seq![0u8, 1] + compact_u16(12)
        + le_bytes(2, 4) + le_bytes(lamports as nat, 8)
}

/// A transaction: the number of signatures, which is one, the signature, and the message.
pub open spec fn transaction_bytes(signature: Seq<u8>, message: Seq<u8>) -> Seq<u8> {
    compact_u16(1) + signature + message
}

/// Writes the message of a transfer.
pub fn transfer_message(
    from_pubkey: &[u8; 32],
    to_pubkey: &[u8; 32],
    lamports: u64,
    blockhash: &[u8; 32],
) -> (r: Vec<u8>)
    ensures
        r@ == message_bytes(from_pubkey@, to_pubkey@, lamports, blockhash@),
{
    let system_program: [u8; 32] = [0u8; 32];
    assert(system_program@ == Seq::new(32, |i: int| 0u8));
    let mut msg: Vec<u8> = vec![1, 0, 1];
    assert(msg@ == seq![1u8, 0, 1]);
    push_all(&mut msg, encode_compact_u16(3).as_slice());
    push_all(&mut msg, from_pubkey.as_slice());
    push_all(&mut msg, to_pubkey.as_slice());
    push_all(&mut msg, system_program.as_slice());
    push_all(&mut msg, blockhash.as_slice());
    push_all(&mut msg, encode_compact_u16(1).as_slice());
    let ghost head = msg@;
    msg.push(2);
    assert(msg@ == head + seq![2u8]);
    push_all(&mut msg, encode_compact_u16(2).as_slice());
    let accounts: [u8; 2] = [0, 1];
    assert(accounts@ == seq![0u8, 1]);
    push_all(&mut msg, accounts.as_slice());
    push_all(&mut msg, encode_compact_u16(12).as_slice());
    push_le(&mut msg, 2, 4);
    push_le(&mut msg, lamports, 8);
    msg
}

/// Puts a signature before the message that it signs.
pub fn signed_transaction(signature: &[u8; 64], message: &[u8]) -> (r: Vec<u8>)
    ensures
        r@ == transaction_bytes(signature@, message@),
{
    let mut tx: Vec<u8> = encode_compact_u16(1);
    push_all(&mut tx, signature.as_slice());
    push_all(&mut tx, message);
    tx
}

// ---------------------------------------------------------------------------------------------
// Base64
// ---------------------------------------------------------------------------------------------
/// The standard base64 character of a number below 64.
pub open spec fn base64_char(n: int) -> char {
    "ABCDEFGHIJKLMNOPQRSTUVWXYZabcdefghijklmnopqrstuvwxyz0123456789+/"@[n]
}

/// The standard base64 text of some bytes, padded with `=`.
pub open spec fn base64_text(b: Seq<u8>) -> Seq<char>
    decreases b.len(),
{
    let x = b[0] as int;
    let y = b[1] as int;
    let z = b[2] as int;
    if b.len() == 0 {
        Seq::empty()
    } else if b.len() == 1 {
        seq![base64_char(x / 4), base64_char(x % 4 * 16), '=', '=']
    } else if b.len() == 2 {
        seq![base64_char(x / 4), base64_char(x % 4 * 16 + y / 16), base64_char(y % 16 * 4), '=']
    } else {
        seq![
            base64_char(x / 4),
            base64_char(x % 4 * 16 + y / 16),
            base64_char(y % 16 * 4 + z / 64),
            base64_char(z % 64),
        ] + base64_text(b.skip(3))
    }
}

/// `encode` of `base64`'s engine `STANDARD`: the standard alphabet, padded. It panics where the
/// text's length would not fit, which `requires` leaves out.
#[verifier::external_body]
fn encode_base64(bytes: &[u8]) -> (r: String)
    requires
        bytes@.len() / 3 * 4 + 4 <= isize::MAX,
    ensures
        r@ == base64_text(bytes@),
{
    STANDARD.encode(bytes)
}

/// A signed SOL transfer, in base64.
pub open spec fn transfer_text(
    seed: Seq<u8>,
    from: Seq<u8>,
    to: Seq<u8>,
    lamports: u64,
    blockhash: Seq<u8>,
) -> Seq<char> {
    let message = message_bytes(from, to, lamports, blockhash);
    base64_text(transaction_bytes(ed25519_signature(seed, message), message))
}

/// Builds and signs a SOL transfer, and writes it in base64.
pub fn build_transfer_transaction(
    signing_key: &SigningKey,
    from_pubkey: &[u8; 32],
    to_pubkey: &[u8; 32],
    lamports: u64,
    blockhash: &[u8; 32],
) -> (r: String)
    ensures
        r@ == transfer_text(signing_key@, from_pubkey@, to_pubkey@, lamports, blockhash@),
{
    let msg = transfer_message(from_pubkey, to_pubkey, lamports, blockhash);
    let signature = signing_key.sign(msg.as_slice());
    let tx = signed_transaction(&signature, msg.as_slice());
    proof {
        transfer_layout(signature@, from_pubkey@, to_pubkey@, lamports, blockhash@);
    }
    encode_base64(tx.as_slice())
}

// ---------------------------------------------------------------------------------------------
// Laws
// ---------------------------------------------------------------------------------------------
/// The number that little-endian bytes write.
pub open spec fn le_value(bytes: Seq<u8>) -> nat
    decreases bytes.len(),
{
    if bytes.len() == 0 {
        0
    } else {
        bytes[0] as nat + 256 * le_value(bytes.drop_first())
    }
}

proof fn le_bytes_len(n: nat, k: nat)
    ensures
        le_bytes(n, k).len() == k,
    decreases k,
{
    if k > 0 {
        le_bytes_len(n / 256, (k - 1) as nat);
    }
}

/// The numbers below 256 to the `k`.
spec fn fits(n: nat, k: nat) -> bool
    decreases k,
{
    if k == 0 {
        n == 0
    } else {
        fits(n / 256, (k - 1) as nat)
    }
}

proof fn le_value_of_bytes(n: nat, k: nat)
    requires
        fits(n, k),
    ensures
        le_value(le_bytes(n, k)) == n,
    decreases k,
{
    if k > 0 {
        le_value_of_bytes(n / 256, (k - 1) as nat);
        assert(le_bytes(n, k).drop_first() == le_bytes(n / 256, (k - 1) as nat));
    }
}

/// The lamports of a transfer can be read back from its last eight bytes.
pub proof fn lamports_read_back(lamports: u64)
    ensures
        le_value(le_bytes(lamports as nat, 8)) == lamports,
{
    reveal_with_fuel(fits, 9);
    assert(fits(lamports as nat, 8));
    le_value_of_bytes(lamports as nat, 8);
}

/// Where everything stands in a transfer: the signature at 1, the payer at 69, the payee at 101,
/// the system program at 133, the block hash at 165, and the lamports in the last eight of 215
/// bytes.
pub proof fn transfer_layout(
    signature: Seq<u8>,
    from: Seq<u8>,
    to: Seq<u8>,
    lamports: u64,
    blockhash: Seq<u8>,
)
    requires
        signature.len() == 64,
        from.len() == 32,
        to.len() == 32,
        blockhash.len() == 32,
    ensures
        ({
            let tx = transaction_bytes(signature, message_bytes(from, to, lamports, blockhash));
            &&& tx.len() == 215
            &&& tx[0] == 1
            &&& tx.subrange(1, 65) == signature
            &&& tx.skip(65) == message_bytes(from, to, lamports, blockhash)
            &&& tx.subrange(65, 69) == seq![1u8, 0, 1, 3]
            &&& tx.subrange(69, 101) == from
            &&& tx.subrange(101, 133) == to
            &&& tx.subrange(133, 165) == Seq::new(32, |i: int| 0u8)
            &&& tx.subrange(165, 197) == blockhash
            &&& tx.subrange(197, 207) == seq![1u8, 2, 2, 0, 1, 12, 2, 0, 0, 0]
            &&& tx.skip(207) == le_bytes(lamports as nat, 8)
        }),
{
    le_bytes_len(2, 4);
    le_bytes_len(lamports as nat, 8);
    let message = message_bytes(from, to, lamports, blockhash);
    let tx = transaction_bytes(signature, message);
    assert(message.len() == 150);
    assert(tx.subrange(1, 65) == signature);
    assert(tx.skip(65) == message);
    assert(tx.subrange(65, 69) == seq![1u8, 0, 1, 3]);
    assert(tx.subrange(69, 101) == from);
    assert(tx.subrange(101, 133) == to);
    assert(tx.subrange(133, 165) == Seq::new(32, |i: int| 0u8));
    assert(tx.subrange(165, 197) == blockhash);
    assert(le_bytes(2, 4) == seq![2u8, 0, 0, 0]) by {
        reveal_with_fuel(le_bytes, 5);
    }
    assert(tx.subrange(197, 207) == seq![1u8, 2, 2, 0, 1, 12, 2, 0, 0, 0]);
    assert(tx.skip(207) == le_bytes(lamports as nat, 8));
}

/// The number that a base64 character stands for.
pub open spec fn base64_value(c: char) -> int {
    if 'A' <= c <= 'Z' {
        c as int - 65
    } else if 'a' <= c <= 'z' {
        c as int - 97 + 26
    } else if '0' <= c <= '9' {
        c as int - 48 + 52
    } else if c == '+' {
        62
    } else {
        63
    }
}

/// The bytes that a padded base64 text stands for: three for each four characters, and one fewer
/// for each `=` at the end.
pub open spec fn base64_decoded(t: Seq<char>) -> Seq<u8>
    decreases t.len(),
{
    if t.len() < 4 {
        Seq::empty()
    } else {
        let n = base64_value(t[0]) * 0x40000 + base64_value(t[1]) * 0x1000 + base64_value(t[2])
            * 0x40 + base64_value(t[3]);
        let m = base64_value(t[0]) * 0x1000 + base64_value(t[1]) * 0x40 + base64_value(t[2]);
        let l = base64_value(t[0]) * 0x40 + base64_value(t[1]);
        if t[2] == '=' {
            seq![(l / 0x10) as u8]
        } else if t[3] == '=' {
            seq![(m / 0x400) as u8, (m / 4 % 0x100) as u8]
        } else {
            seq![(n / 0x10000) as u8, (n / 0x100 % 0x100) as u8, (n % 0x100) as u8]
                + base64_decoded(t.skip(4))
        }
    }
}

/// The base64 characters stand for the numbers below 64, and none of them is `=`.
proof fn base64_char_value(n: int)
    requires
        0 <= n < 64,
    ensures
        base64_value(base64_char(n)) == n,
        base64_char(n) != '=',
{
    reveal_strlit("ABCDEFGHIJKLMNOPQRSTUVWXYZabcdefghijklmnopqrstuvwxyz0123456789+/");
    assert(n == 0 || n == 1 || n == 2 || n == 3 || n == 4 || n == 5 || n == 6 || n == 7 || n == 8
        || n == 9 || n == 10 || n == 11 || n == 12 || n == 13 || n == 14 || n == 15 || n == 16 || n
        == 17 || n == 18 || n == 19 || n == 20 || n == 21 || n == 22 || n == 23 || n == 24 || n
        == 25 || n == 26 || n == 27 || n == 28 || n == 29 || n == 30 || n == 31 || n == 32 || n
        == 33 || n == 34 || n == 35 || n == 36 || n == 37 || n == 38 || n == 39 || n == 40 || n
        == 41 || n == 42 || n == 43 || n == 44 || n == 45 || n == 46 || n == 47 || n == 48 || n
        == 49 || n == 50 || n == 51 || n == 52 || n == 53 || n == 54 || n == 55 || n == 56 || n
        == 57 || n == 58 || n == 59 || n == 60 || n == 61 || n == 62 || n == 63);
}

/// Three bytes, in four numbers below 64, are read again.
proof fn sextets_of_three(x: int, y: int, z: int)
    requires
        0 <= x < 256,
        0 <= y < 256,
        0 <= z < 256,
    ensures
        ({
            let n = x / 4 * 0x40000 + (x % 4 * 16 + y / 16) * 0x1000 + (y % 16 * 4 + z / 64) * 0x40
                + z % 64;
            n / 0x10000 == x && n / 0x100 % 0x100 == y && n % 0x100 == z
        }),
{
    let (a, b) = (x / 4, x % 4);
    let (c, d) = (y / 16, y % 16);
    let (e, f) = (z / 64, z % 64);
    assert(x == 4 * a + b);
    assert(y == 16 * c + d);
    assert(z == 64 * e + f);
    let n = a * 0x40000 + (b * 16 + c) * 0x1000 + (d * 4 + e) * 0x40 + f;
    three_bytes(n, x, y, z);
}

proof fn three_bytes(n: int, x: int, y: int, z: int)
    requires
        0 <= x < 256,
        0 <= y < 256,
        0 <= z < 256,
        n == x * 0x10000 + y * 0x100 + z,
    ensures
        n / 0x10000 == x,
        n / 0x100 % 0x100 == y,
        n % 0x100 == z,
{
    assert(n / 0x100 == x * 0x100 + y);
}

/// Two bytes, in three numbers below 64, are read again.
proof fn sextets_of_two(x: int, y: int)
    requires
        0 <= x < 256,
        0 <= y < 256,
    ensures
        ({
            let m = x / 4 * 0x1000 + (x % 4 * 16 + y / 16) * 0x40 + y % 16 * 4;
            m / 0x400 == x && m / 4 % 0x100 == y
        }),
{
    let m = x / 4 * 0x1000 + (x % 4 * 16 + y / 16) * 0x40 + y % 16 * 4;
    assert(m == (x * 0x100 + y) * 4);
}

/// The text of up to two bytes stands for them.
proof fn base64_end_reads_back(b: Seq<u8>)
    requires
        0 < b.len() < 3,
    ensures
        base64_decoded(base64_text(b)) == b,
{
    let t = base64_text(b);
    let x = b[0] as int;
    base64_char_value(x / 4);
    if b.len() == 1 {
        base64_char_value(x % 4 * 16);
        assert(t == seq![base64_char(x / 4), base64_char(x % 4 * 16), '=', '=']);
        assert((x / 4 * 0x40 + x % 4 * 16) / 0x10 == x);
        assert(base64_decoded(t) == seq![x as u8]);
        assert(b == seq![x as u8]);
    } else {
        let y = b[1] as int;
        base64_char_value(x % 4 * 16 + y / 16);
        base64_char_value(y % 16 * 4);
        sextets_of_two(x, y);
        assert(t == seq![
            base64_char(x / 4),
            base64_char(x % 4 * 16 + y / 16),
            base64_char(y % 16 * 4),
            '=',
        ]);
        assert(base64_decoded(t) == seq![x as u8, y as u8]);
        assert(b == seq![x as u8, y as u8]);
    }
}

/// The text of three bytes and more starts with four characters that stand for the three.
proof fn base64_start_reads_back(b: Seq<u8>)
    requires
        b.len() >= 3,
    ensures
        base64_text(b).len() >= 4,
        base64_text(b).skip(4) == base64_text(b.skip(3)),
        base64_decoded(base64_text(b)) == seq![b[0], b[1], b[2]] + base64_decoded(
            base64_text(b.skip(3)),
        ),
{
    let t = base64_text(b);
    let x = b[0] as int;
    let y = b[1] as int;
    let z = b[2] as int;
    base64_char_value(x / 4);
    base64_char_value(x % 4 * 16 + y / 16);
    base64_char_value(y % 16 * 4 + z / 64);
    base64_char_value(z % 64);
    sextets_of_three(x, y, z);
    let head = seq![
        base64_char(x / 4),
        base64_char(x % 4 * 16 + y / 16),
        base64_char(y % 16 * 4 + z / 64),
        base64_char(z % 64),
    ];
    assert(t == head + base64_text(b.skip(3)));
    assert(t[0] == head[0] && t[1] == head[1] && t[2] == head[2] && t[3] == head[3]);
    assert(t.skip(4) == base64_text(b.skip(3)));
}

/// A base64 text stands for the bytes that it was written for.
pub proof fn base64_reads_back(b: Seq<u8>)
    ensures
        base64_decoded(base64_text(b)) == b,
    decreases b.len(),
{
    if b.len() == 0 {
        assert(base64_text(b) == Seq::<char>::empty());
        assert(base64_decoded(base64_text(b)) == b);
    } else if b.len() < 3 {
        base64_end_reads_back(b);
    } else {
        base64_start_reads_back(b);
        base64_reads_back(b.skip(3));
        assert(seq![b[0], b[1], b[2]] + b.skip(3) == b);
    }
}

/// A signed transfer in base64 stands for the bytes 1, the signature under the seed of a message,
/// and that message. The message is that of one signer, with one account that is only read; its
/// accounts are the payer, the payee and the system program, whose key is all zeros; then comes the
/// block hash, and the one instruction that moves the lamports from the first account to the second.
pub proof fn what_a_transfer_says(
    seed: Seq<u8>,
    from: Seq<u8>,
    to: Seq<u8>,
    lamports: u64,
    blockhash: Seq<u8>,
)
    requires
        from.len() == 32,
        to.len() == 32,
        blockhash.len() == 32,
    ensures
        ({
            let tx = base64_decoded(transfer_text(seed, from, to, lamports, blockhash));
            let message = tx.skip(tx.len() - 150);
            &&& tx == seq![1u8] + ed25519_signature(seed, message) + message
            &&& message.len() == 150
            &&& message.take(4) == seq![1u8, 0, 1, 3]
            &&& message.subrange(4, 36) == from
            &&& message.subrange(36, 68) == to
            &&& message.subrange(68, 100) == Seq::new(32, |i: int| 0u8)
            &&& message.subrange(100, 132) == blockhash
            &&& message.subrange(132, 142) == seq![1u8, 2, 2, 0, 1, 12, 2, 0, 0, 0]
            &&& le_value(message.skip(142)) == lamports
        }),
{
    let message = message_bytes(from, to, lamports, blockhash);
    let signature = Seq::new(64, |i: int| 0u8);
    transfer_layout(signature, from, to, lamports, blockhash);
    let sample = transaction_bytes(signature, message);
    assert(message == sample.skip(65));
    assert(message.take(4) == sample.subrange(65, 69));
    assert(message.subrange(4, 36) == sample.subrange(69, 101));
    assert(message.subrange(36, 68) == sample.subrange(101, 133));
    assert(message.subrange(68, 100) == sample.subrange(133, 165));
    assert(message.subrange(100, 132) == sample.subrange(165, 197));
    assert(message.subrange(132, 142) == sample.subrange(197, 207));
    assert(message.skip(142) == sample.skip(207));
    lamports_read_back(lamports);
    let tx = transaction_bytes(ed25519_signature(seed, message), message);
    base64_reads_back(tx);
    assert(tx == seq![1u8] + ed25519_signature(seed, message) + message);
    assert(tx.skip(tx.len() - 150) == message);
}

} // verus!
