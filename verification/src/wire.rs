//! The wire format of token records, as mathematics: how a value is laid out
//! in bytes, how bytes are read back, and the proofs that reading gives back
//! what was written.

use vstd::prelude::*;
use vstd::utf8::{decode_utf8, encode_utf8, valid_utf8};
use crate::token_data::TokenRecord;

verus! {

broadcast use {vstd::utf8::encode_utf8_valid_utf8, vstd::utf8::encode_utf8_decode_utf8};

/// Why a byte sequence is not a well-formed encoding.
#[derive(PartialEq, Eq, Structural, Clone, Copy, Debug)]
pub enum WireError {
    /// The input ends before a value it announces is complete.
    Truncated,
    /// A length or integer starts with a tag byte that no 64-bit value uses.
    BadIntegerTag,
    /// A string's bytes are not UTF-8.
    InvalidUtf8,
}

/// 256 to the power `n`.
pub open spec fn pow256(n: nat) -> nat
    decreases n,
{
    if n == 0 { 1 } else { 256 * pow256((n - 1) as nat) }
}

/// The `n` low bytes of `v`, least significant first.
pub open spec fn le_bytes(v: nat, n: nat) -> Seq<u8>
    decreases n,
{
    if n == 0 { seq![] } else { seq![(v % 256) as u8] + le_bytes(v / 256, (n - 1) as nat) }
}

/// The number whose bytes, least significant first, are `b`.
pub open spec fn le_value(b: Seq<u8>) -> nat
    decreases b.len(),
{
    if b.len() == 0 { 0 } else { b[0] as nat + 256 * le_value(b.drop_first()) }
}

/// Variable-length encoding of an unsigned integer: a value below 251 is one
/// byte; otherwise a tag byte (251, 252 or 253) followed by the value in 2, 4
/// or 8 little-endian bytes, the shortest that holds it.
pub open spec fn varint_bytes(v: u64) -> Seq<u8> {
    if v <= 250 {
        seq![v as u8]
    } else if v <= 0xffff {
        seq![251u8] + le_bytes(v as nat, 2)
    } else if v <= 0xffff_ffff {
        seq![252u8] + le_bytes(v as nat, 4)
    } else {
        seq![253u8] + le_bytes(v as nat, 8)
    }
}

/// Reads a variable-length unsigned integer at the start of `b`: the value and
/// the number of bytes it took. The wider forms are accepted whatever value
/// they hold.
pub open spec fn varint_parse(b: Seq<u8>) -> Result<(u64, nat), WireError> {
    if b.len() == 0 {
        Err(WireError::Truncated)
    } else if b[0] <= 250 {
        Ok((b[0] as u64, 1))
    } else if b[0] == 251 {
        if b.len() >= 3 { Ok((le_value(b.subrange(1, 3)) as u64, 3)) } else { Err(WireError::Truncated) }
    } else if b[0] == 252 {
        if b.len() >= 5 { Ok((le_value(b.subrange(1, 5)) as u64, 5)) } else { Err(WireError::Truncated) }
    } else if b[0] == 253 {
        if b.len() >= 9 { Ok((le_value(b.subrange(1, 9)) as u64, 9)) } else { Err(WireError::Truncated) }
    } else {
        Err(WireError::BadIntegerTag)
    }
}

/// A string field: its UTF-8 length, then its UTF-8 bytes.
pub open spec fn str_field(s: Seq<char>) -> Seq<u8> {
    varint_bytes(encode_utf8(s).len() as u64) + encode_utf8(s)
}

/// A byte-vector field: its length, then its bytes.
pub open spec fn bytes_field(b: Seq<u8>) -> Seq<u8> {
    varint_bytes(b.len() as u64) + b
}

/// Reads a byte-vector field at the start of `b`.
pub open spec fn bytes_field_parse(b: Seq<u8>) -> Result<(Seq<u8>, nat), WireError> {
    match varint_parse(b) {
        Err(e) => Err(e),
        Ok((len, m)) => if m + len <= b.len() {
            Ok((b.subrange(m as int, m + len), (m + len) as nat))
        } else {
            Err(WireError::Truncated)
        },
    }
}

/// Reads a string field at the start of `b`.
pub open spec fn str_field_parse(b: Seq<u8>) -> Result<(Seq<char>, nat), WireError> {
    match bytes_field_parse(b) {
        Err(e) => Err(e),
        Ok((raw, n)) => if valid_utf8(raw) { Ok((decode_utf8(raw), n)) } else { Err(WireError::InvalidUtf8) },
    }
}

/// Reads a single byte at the start of `b`.
pub open spec fn byte_parse(b: Seq<u8>) -> Result<(u8, nat), WireError> {
    if b.len() >= 1 { Ok((b[0], 1)) } else { Err(WireError::Truncated) }
}

/// The encoding of one record: its fields in declaration order.
#[verifier::opaque]
pub open spec fn token_bytes(t: TokenRecord) -> Seq<u8> {
    varint_bytes(t.chain_id) + str_field(t.address) + str_field(t.name) + str_field(t.symbol)
        + seq![t.decimals] + bytes_field(t.icon_data_x32) + bytes_field(t.icon_data_x24)
}

/// The encodings of several records, one after the other.
pub open spec fn tokens_concat(ts: Seq<TokenRecord>) -> Seq<u8>
    decreases ts.len(),
{
    if ts.len() == 0 { seq![] } else { tokens_concat(ts.drop_last()) + token_bytes(ts.last()) }
}

/// The encoding of a list of records: the count, then each record.
pub open spec fn token_list_bytes(ts: Seq<TokenRecord>) -> Seq<u8> {
    varint_bytes(ts.len() as u64) + tokens_concat(ts)
}

/// Reads one record at the start of `b`: its value and the number of bytes it took.
#[verifier::opaque]
pub open spec fn token_parse(b: Seq<u8>) -> Result<(TokenRecord, nat), WireError> {
    match varint_parse(b) {
        Err(e) => Err(e),
        Ok((chain_id, n1)) => match str_field_parse(b.skip(n1 as int)) {
            Err(e) => Err(e),
            Ok((address, n2)) => match str_field_parse(b.skip((n1 + n2) as int)) {
                Err(e) => Err(e),
                Ok((name, n3)) => match str_field_parse(b.skip((n1 + n2 + n3) as int)) {
                    Err(e) => Err(e),
                    Ok((symbol, n4)) => match byte_parse(b.skip((n1 + n2 + n3 + n4) as int)) {
                        Err(e) => Err(e),
                        Ok((decimals, n5)) => match bytes_field_parse(b.skip((n1 + n2 + n3 + n4 + n5) as int)) {
                            Err(e) => Err(e),
                            Ok((icon_data_x32, n6)) => match bytes_field_parse(b.skip((n1 + n2 + n3 + n4 + n5 + n6) as int)) {
                                Err(e) => Err(e),
                                Ok((icon_data_x24, n7)) => Ok((
                                    TokenRecord { chain_id, address, name, symbol, decimals, icon_data_x32, icon_data_x24 },
                                    n1 + n2 + n3 + n4 + n5 + n6 + n7,
                                )),
                            },
                        },
                    },
                },
            },
        },
    }
}

/// Reads `k` records one after the other at the start of `b`.
pub open spec fn tokens_parse(b: Seq<u8>, k: nat) -> Result<(Seq<TokenRecord>, nat), WireError>
    decreases k,
{
    if k == 0 {
        Ok((seq![], 0))
    } else {
        match tokens_parse(b, (k - 1) as nat) {
            Err(e) => Err(e),
            Ok((ts, p)) => match token_parse(b.skip(p as int)) {
                Err(e) => Err(e),
                Ok((t, n)) => Ok((ts.push(t), p + n)),
            },
        }
    }
}

/// Reads a list of records: the count, then that many records.
pub open spec fn token_list_parse(b: Seq<u8>) -> Result<(Seq<TokenRecord>, nat), WireError> {
    match varint_parse(b) {
        Err(e) => Err(e),
        Ok((count, m)) => match tokens_parse(b.skip(m as int), count as nat) {
            Err(e) => Err(e),
            Ok((ts, n)) => Ok((ts, m + n)),
        },
    }
}

/// Every byte length of a record fits in 64 bits, as it does for any record held in memory.
pub open spec fn record_sizes_fit(t: TokenRecord) -> bool {
    &&& encode_utf8(t.address).len() <= u64::MAX
    &&& encode_utf8(t.name).len() <= u64::MAX
    &&& encode_utf8(t.symbol).len() <= u64::MAX
    &&& t.icon_data_x32.len() <= u64::MAX
    &&& t.icon_data_x24.len() <= u64::MAX
}

pub proof fn lemma_le_bytes(v: nat, n: nat)
    requires
        v < pow256(n),
    ensures
        le_bytes(v, n).len() == n,
        le_value(le_bytes(v, n)) == v,
    decreases n,
{
    if n > 0 {
        let p = pow256((n - 1) as nat);
        assert(v / 256 < p) by (nonlinear_arith)
            requires
                v < 256 * p,
        ;
        lemma_le_bytes(v / 256, (n - 1) as nat);
        let b = le_bytes(v, n);
        assert(b.drop_first() =~= le_bytes(v / 256, (n - 1) as nat));
        assert(v % 256 + 256 * (v / 256) == v) by (nonlinear_arith);
        assert(((v % 256) as u8) as nat == v % 256);
    }
}

/// Reading a variable-length integer back gives the value written, whatever follows it.
pub proof fn lemma_varint_roundtrip(v: u64, rest: Seq<u8>)
    ensures
        varint_parse(varint_bytes(v) + rest) == Ok::<(u64, nat), WireError>((v, varint_bytes(v).len())),
        1 <= varint_bytes(v).len() <= 9,
{
    reveal_with_fuel(pow256, 9);
    let b = varint_bytes(v) + rest;
    if v <= 250 {
    } else if v <= 0xffff {
        lemma_le_bytes(v as nat, 2);
        assert(b.subrange(1, 3) =~= le_bytes(v as nat, 2));
    } else if v <= 0xffff_ffff {
        lemma_le_bytes(v as nat, 4);
        assert(b.subrange(1, 5) =~= le_bytes(v as nat, 4));
    } else {
        lemma_le_bytes(v as nat, 8);
        assert(b.subrange(1, 9) =~= le_bytes(v as nat, 8));
    }
}

/// Reading a byte-vector field back gives the bytes written, whatever follows.
pub proof fn lemma_bytes_field_roundtrip(b: Seq<u8>, rest: Seq<u8>)
    requires
        b.len() <= u64::MAX,
    ensures
        bytes_field_parse(bytes_field(b) + rest) == Ok::<(Seq<u8>, nat), WireError>((b, bytes_field(b).len())),
{
    let v = b.len() as u64;
    let whole = bytes_field(b) + rest;
    lemma_varint_roundtrip(v, b + rest);
    assert(whole =~= varint_bytes(v) + (b + rest));
    let m = varint_bytes(v).len();
    assert(whole.subrange(m as int, (m + b.len()) as int) =~= b);
}

/// Reading a string field back gives the string written, whatever follows.
pub proof fn lemma_str_field_roundtrip(s: Seq<char>, rest: Seq<u8>)
    requires
        encode_utf8(s).len() <= u64::MAX,
    ensures
        str_field_parse(str_field(s) + rest) == Ok::<(Seq<char>, nat), WireError>((s, str_field(s).len())),
{
    lemma_bytes_field_roundtrip(encode_utf8(s), rest);
}

proof fn lemma_skip_past(b: Seq<u8>, k: int, a: Seq<u8>, r: Seq<u8>)
    requires
        0 <= k <= b.len(),
        b.skip(k) == a + r,
    ensures
        b.skip(k + a.len()) == r,
{
    assert(b.skip(k).len() == a.len() + r.len());
    assert forall|i: int| 0 <= i < r.len() implies #[trigger] b.skip(k + a.len())[i] == r[i] by {
        assert(b.skip(k)[a.len() + i] == (a + r)[a.len() + i]);
        assert(b.skip(k)[a.len() + i] == b[k + a.len() + i]);
        assert(b.skip(k + a.len())[i] == b[k + a.len() + i]);
    }
    assert(b.skip(k + a.len()) =~= r);
}

/// Reading a record back gives the record written, whatever follows it.
#[verifier::rlimit(40)]
pub proof fn lemma_token_roundtrip(t: TokenRecord, rest: Seq<u8>)
    requires
        record_sizes_fit(t),
    ensures
        token_parse(token_bytes(t) + rest) == Ok::<(TokenRecord, nat), WireError>((t, token_bytes(t).len())),
{
    reveal(token_bytes);
    reveal(token_parse);
    let p1 = varint_bytes(t.chain_id);
    let p2 = str_field(t.address);
    let p3 = str_field(t.name);
    let p4 = str_field(t.symbol);
    let p5 = seq![t.decimals];
    let p6 = bytes_field(t.icon_data_x32);
    let p7 = bytes_field(t.icon_data_x24);
    let b = token_bytes(t) + rest;
    let r7 = p7 + rest;
    let r6 = p6 + r7;
    let r5 = p5 + r6;
    let r4 = p4 + r5;
    let r3 = p3 + r4;
    let r2 = p2 + r3;
    assert(b =~= p1 + r2);
    assert(b.skip(0) =~= p1 + r2);
    let n1 = p1.len();
    let n2 = p2.len();
    let n3 = p3.len();
    let n4 = p4.len();
    let n6 = p6.len();
    let n7 = p7.len();
    lemma_skip_past(b, 0, p1, r2);
    lemma_skip_past(b, n1 as int, p2, r3);
    lemma_skip_past(b, (n1 + n2) as int, p3, r4);
    lemma_skip_past(b, (n1 + n2 + n3) as int, p4, r5);
    lemma_skip_past(b, (n1 + n2 + n3 + n4) as int, p5, r6);
    lemma_skip_past(b, (n1 + n2 + n3 + n4 + 1) as int, p6, r7);
    lemma_varint_roundtrip(t.chain_id, r2);
    lemma_str_field_roundtrip(t.address, r3);
    lemma_str_field_roundtrip(t.name, r4);
    lemma_str_field_roundtrip(t.symbol, r5);
    assert(r5[0] == t.decimals);
    assert(byte_parse(r5) == Ok::<(u8, nat), WireError>((t.decimals, 1)));
    lemma_bytes_field_roundtrip(t.icon_data_x32, r7);
    lemma_bytes_field_roundtrip(t.icon_data_x24, rest);
    assert(token_bytes(t).len() == n1 + n2 + n3 + n4 + 1 + n6 + n7);
}

pub proof fn lemma_tokens_concat_append(a: Seq<TokenRecord>, b: Seq<TokenRecord>)
    ensures
        tokens_concat(a + b) == tokens_concat(a) + tokens_concat(b),
    decreases b.len(),
{
    if b.len() == 0 {
        assert(a + b =~= a);
        assert(tokens_concat(a) + tokens_concat(b) =~= tokens_concat(a));
    } else {
        lemma_tokens_concat_append(a, b.drop_last());
        assert((a + b).drop_last() =~= a + b.drop_last());
        assert((a + b).last() == b.last());
        assert(tokens_concat(a + b) =~= tokens_concat(a) + tokens_concat(b.drop_last()) + token_bytes(b.last()));
    }
}

/// All records of `ts` have byte lengths that fit in 64 bits.
pub open spec fn records_fit(ts: Seq<TokenRecord>) -> bool {
    forall|i: int| 0 <= i < ts.len() ==> record_sizes_fit(#[trigger] ts[i])
}

proof fn lemma_tokens_parse_prefix(ts: Seq<TokenRecord>, rest: Seq<u8>, k: nat)
    requires
        k <= ts.len(),
        records_fit(ts),
    ensures
        tokens_parse(tokens_concat(ts) + rest, k) == Ok::<(Seq<TokenRecord>, nat), WireError>(
            (ts.take(k as int), tokens_concat(ts.take(k as int)).len()),
        ),
    decreases k,
{
    let b = tokens_concat(ts) + rest;
    if k == 0 {
        assert(ts.take(0) =~= Seq::<TokenRecord>::empty());
    } else {
        lemma_tokens_parse_prefix(ts, rest, (k - 1) as nat);
        let front = ts.take(k as int);
        let back = ts.skip(k as int);
        assert(ts =~= front + back);
        lemma_tokens_concat_append(front, back);
        assert(front.drop_last() =~= ts.take(k - 1));
        assert(front.last() == ts[k - 1]);
        let prev = tokens_concat(ts.take(k - 1));
        let cur = token_bytes(ts[k - 1]);
        let tail = tokens_concat(back) + rest;
        assert(tokens_concat(front) == prev + cur);
        assert(b =~= prev + (cur + tail));
        assert(b.skip(prev.len() as int) =~= cur + tail);
        assert(record_sizes_fit(ts[k - 1]));
        lemma_token_roundtrip(ts[k - 1], tail);
        assert(ts.take(k - 1).push(ts[k - 1]) =~= front);
    }
}

/// Reading a list of records back gives the list written, whatever follows it.
pub proof fn lemma_token_list_roundtrip(ts: Seq<TokenRecord>, rest: Seq<u8>)
    requires
        ts.len() <= u64::MAX,
        records_fit(ts),
    ensures
        token_list_parse(token_list_bytes(ts) + rest) == Ok::<(Seq<TokenRecord>, nat), WireError>(
            (ts, token_list_bytes(ts).len()),
        ),
{
    let count = ts.len() as u64;
    let body = tokens_concat(ts) + rest;
    let b = token_list_bytes(ts) + rest;
    assert(b =~= varint_bytes(count) + body);
    lemma_varint_roundtrip(count, body);
    assert(b.skip(varint_bytes(count).len() as int) =~= body);
    lemma_tokens_parse_prefix(ts, rest, ts.len());
    assert(ts.take(ts.len() as int) =~= ts);
}

/// Once reading the records fails, reading more of them fails the same way.
pub proof fn lemma_tokens_parse_err_persists(b: Seq<u8>, i: nat, k: nat)
    requires
        i <= k,
        tokens_parse(b, i) is Err,
    ensures
        tokens_parse(b, k) == tokens_parse(b, i),
    decreases k - i,
{
    if i < k {
        lemma_tokens_parse_err_persists(b, i, (k - 1) as nat);
    }
}

/// A record is written as the bincode standard encoding of its fields, in
/// declaration order and with nothing between them: the chain id as a
/// variable-length integer, the address, name and symbol each as a length and
/// its UTF-8 bytes, the decimals as one raw byte, then each icon as a length
/// and its bytes.
pub proof fn lemma_token_bytes_layout(t: TokenRecord)
    ensures
        token_bytes(t) == varint_bytes(t.chain_id)
            + (varint_bytes(encode_utf8(t.address).len() as u64) + encode_utf8(t.address))
            + (varint_bytes(encode_utf8(t.name).len() as u64) + encode_utf8(t.name))
            + (varint_bytes(encode_utf8(t.symbol).len() as u64) + encode_utf8(t.symbol))
            + seq![t.decimals]
            + (varint_bytes(t.icon_data_x32.len() as u64) + t.icon_data_x32)
            + (varint_bytes(t.icon_data_x24.len() as u64) + t.icon_data_x24),
{
    reveal(token_bytes);
}

/// The byte that follows the chain id, address, name and symbol of a record
/// is its decimals, written as they are.
pub proof fn lemma_token_bytes_decimals(t: TokenRecord)
    ensures
        ({
            let k = varint_bytes(t.chain_id).len() + str_field(t.address).len() + str_field(t.name).len()
                + str_field(t.symbol).len();
            &&& k < token_bytes(t).len()
            &&& token_bytes(t)[k as int] == t.decimals
        }),
{
    reveal(token_bytes);
    let head = varint_bytes(t.chain_id) + str_field(t.address) + str_field(t.name) + str_field(t.symbol);
    let tail = bytes_field(t.icon_data_x32) + bytes_field(t.icon_data_x24);
    assert(token_bytes(t) =~= head + seq![t.decimals] + tail);
    assert((head + seq![t.decimals] + tail)[head.len() as int] == t.decimals);
}

} // verus!
