//! Writing and reading token records in the wire format, through `bincode_next`.

use vstd::prelude::*;
use vstd::slice::slice_subrange;
use vstd::utf8::encode_utf8;
use crate::bincode_calls;
use crate::token_data::{TokenData, TokenRecord};
use crate::wire::{lemma_token_bytes_layout, lemma_tokens_parse_err_persists, bytes_field, bytes_field_parse, byte_parse, str_field, str_field_parse, token_bytes, token_list_bytes, token_list_parse, token_parse, tokens_concat, tokens_parse, varint_bytes, varint_parse, WireError};

verus! {

/// Appends the variable-length encoding of `v`.
fn push_varint(out: &mut Vec<u8>, v: u64)
    ensures
        final(out)@ == old(out)@ + varint_bytes(v),
{
    match bincode_calls::encode_u64(v) {
        Ok(mut b) => out.append(&mut b),
        Err(_) => {
            proof {
                assert(false);
            }
        },
    }
}

/// Appends a single raw byte.
fn push_byte(out: &mut Vec<u8>, v: u8)
    ensures
        final(out)@ == old(out)@ + seq![v],
{
    match bincode_calls::encode_u8(v) {
        Ok(mut b) => out.append(&mut b),
        Err(_) => {
            proof {
                assert(false);
            }
        },
    }
}

/// Appends a string field.
fn push_str(out: &mut Vec<u8>, s: &String)
    ensures
        final(out)@ == old(out)@ + str_field(s@),
{
    match bincode_calls::encode_str(s.as_str()) {
        Ok(mut b) => out.append(&mut b),
        Err(_) => {
            proof {
                assert(false);
            }
        },
    }
}

/// Appends a byte-vector field.
fn push_byte_vec(out: &mut Vec<u8>, v: &Vec<u8>)
    ensures
        final(out)@ == old(out)@ + bytes_field(v@),
{
    match bincode_calls::encode_byte_vec(v) {
        Ok(mut b) => out.append(&mut b),
        Err(_) => {
            proof {
                assert(false);
            }
        },
    }
}

/// Appends the encoding of one record.
fn push_token(out: &mut Vec<u8>, t: &TokenData)
    ensures
        final(out)@ == old(out)@ + token_bytes(t@),
{
    let ghost start = out@;
    push_varint(out, t.chain_id);
    push_str(out, &t.address);
    push_str(out, &t.name);
    push_str(out, &t.symbol);
    push_byte(out, t.decimals);
    push_byte_vec(out, &t.icon_data_x32);
    push_byte_vec(out, &t.icon_data_x24);
    proof {
        reveal(token_bytes);
        assert(out@ =~= start + token_bytes(t@));
    }
}

/// The records held by a vector of token data.
pub open spec fn records(ts: Seq<TokenData>) -> Seq<TokenRecord> {
    ts.map_values(|t: TokenData| t@)
}

impl TokenData {
    /// The wire encoding of this record: the chain id, address, name, symbol,
    /// decimals and both icons, in that order.
    pub fn encode(&self) -> (res: Vec<u8>)
        ensures
            res@ == token_bytes(self@),
            res@ == varint_bytes(self.chain_id)
                + (varint_bytes(encode_utf8(self.address@).len() as u64) + encode_utf8(self.address@))
                + (varint_bytes(encode_utf8(self.name@).len() as u64) + encode_utf8(self.name@))
                + (varint_bytes(encode_utf8(self.symbol@).len() as u64) + encode_utf8(self.symbol@))
                + seq![self.decimals]
                + (varint_bytes(self.icon_data_x32@.len() as u64) + self.icon_data_x32@)
                + (varint_bytes(self.icon_data_x24@.len() as u64) + self.icon_data_x24@),
    {
        let mut out: Vec<u8> = Vec::new();
        push_token(&mut out, self);
        proof {
            lemma_token_bytes_layout(self@);
        }
        assert(out@ =~= token_bytes(self@));
        out
    }
}

/// The wire encoding of a list of records: their count, then each record.
pub fn encode_token_list(ts: &Vec<TokenData>) -> (res: Vec<u8>)
    ensures
        res@ == token_list_bytes(records(ts@)),
{
    let mut out: Vec<u8> = Vec::new();
    push_varint(&mut out, ts.len() as u64);
    let ghost head = out@;
    let mut i: usize = 0;
    while i < ts.len()
        invariant
            i <= ts.len(),
            head == varint_bytes(ts@.len() as u64),
            out@ == head + tokens_concat(records(ts@).take(i as int)),
        decreases ts.len() - i,
    {
        push_token(&mut out, &ts[i]);
        proof {
            let rs = records(ts@);
            assert(rs.take(i + 1).drop_last() =~= rs.take(i as int));
            assert(rs.take(i + 1).last() == ts@[i as int]@);
            assert(out@ =~= head + tokens_concat(rs.take(i + 1)));
        }
        i = i + 1;
    }
    proof {
        assert(records(ts@).take(ts@.len() as int) =~= records(ts@));
    }
    out
}

/// Why no variable-length integer can be read at the start of `b`.
fn varint_failure(b: &[u8]) -> (e: WireError)
    requires
        varint_parse(b@) is Err,
    ensures
        varint_parse(b@) == Err::<(u64, nat), WireError>(e),
{
    if b.len() == 0 {
        WireError::Truncated
    } else if b[0] >= 254 {
        WireError::BadIntegerTag
    } else {
        WireError::Truncated
    }
}

/// Reads a variable-length integer at `pos`.
fn read_varint_at(bytes: &[u8], pos: usize) -> (res: Result<(u64, usize), WireError>)
    requires
        pos <= bytes@.len(),
    ensures
        match res {
            Ok((v, n)) => varint_parse(bytes@.skip(pos as int)) == Ok::<(u64, nat), WireError>((v, n as nat))
                && pos + n <= bytes@.len(),
            Err(e) => varint_parse(bytes@.skip(pos as int)) == Err::<(u64, nat), WireError>(e),
        },
{
    let rest = slice_subrange(bytes, pos, bytes.len());
    assert(rest@ =~= bytes@.skip(pos as int));
    match bincode_calls::decode_u64(rest) {
        Ok((v, n)) => Ok((v, n)),
        Err(_) => Err(varint_failure(rest)),
    }
}

/// Reads a single byte at `pos`.
fn read_byte_at(bytes: &[u8], pos: usize) -> (res: Result<(u8, usize), WireError>)
    requires
        pos <= bytes@.len(),
    ensures
        match res {
            Ok((v, n)) => byte_parse(bytes@.skip(pos as int)) == Ok::<(u8, nat), WireError>((v, n as nat))
                && pos + n <= bytes@.len(),
            Err(e) => byte_parse(bytes@.skip(pos as int)) == Err::<(u8, nat), WireError>(e),
        },
{
    let rest = slice_subrange(bytes, pos, bytes.len());
    assert(rest@ =~= bytes@.skip(pos as int));
    match bincode_calls::decode_u8(rest) {
        Ok((v, n)) => Ok((v, n)),
        Err(_) => Err(WireError::Truncated),
    }
}

/// Reads a byte-vector field at `pos`.
fn read_byte_vec_at(bytes: &[u8], pos: usize) -> (res: Result<(Vec<u8>, usize), WireError>)
    requires
        pos <= bytes@.len(),
    ensures
        match res {
            Ok((v, n)) => bytes_field_parse(bytes@.skip(pos as int)) == Ok::<(Seq<u8>, nat), WireError>((v@, n as nat))
                && pos + n <= bytes@.len(),
            Err(e) => bytes_field_parse(bytes@.skip(pos as int)) == Err::<(Seq<u8>, nat), WireError>(e),
        },
{
    let rest = slice_subrange(bytes, pos, bytes.len());
    assert(rest@ =~= bytes@.skip(pos as int));
    let (len, m) = match read_varint_at(bytes, pos) {
        Ok((x, k)) => (x, k),
        Err(e) => return Err(e),
    };
    if len > (rest.len() - m) as u64 {
        return Err(WireError::Truncated);
    }
    match bincode_calls::decode_byte_vec(rest) {
        Ok((v, n)) => Ok((v, n)),
        Err(_) => {
            proof {
                assert(false);
            }
            Err(WireError::Truncated)
        },
    }
}

/// Reads a string field at `pos`.
fn read_string_at(bytes: &[u8], pos: usize) -> (res: Result<(String, usize), WireError>)
    requires
        pos <= bytes@.len(),
    ensures
        match res {
            Ok((s, n)) => str_field_parse(bytes@.skip(pos as int)) == Ok::<(Seq<char>, nat), WireError>((s@, n as nat))
                && pos + n <= bytes@.len(),
            Err(e) => str_field_parse(bytes@.skip(pos as int)) == Err::<(Seq<char>, nat), WireError>(e),
        },
{
    let rest = slice_subrange(bytes, pos, bytes.len());
    assert(rest@ =~= bytes@.skip(pos as int));
    let (len, m) = match read_varint_at(bytes, pos) {
        Ok((x, k)) => (x, k),
        Err(e) => return Err(e),
    };
    if len > (rest.len() - m) as u64 {
        return Err(WireError::Truncated);
    }
    match bincode_calls::decode_string(rest) {
        Ok((s, n)) => Ok((s, n)),
        Err(_) => Err(WireError::InvalidUtf8),
    }
}

proof fn lemma_skip_skip(b: Seq<u8>, i: int, j: int)
    requires
        0 <= i,
        0 <= j,
        i + j <= b.len(),
    ensures
        b.skip(i).skip(j) == b.skip(i + j),
{
    assert(b.skip(i).skip(j) =~= b.skip(i + j));
}

/// Reads one record at `pos`.
#[verifier::rlimit(40)]
fn decode_token_at(bytes: &[u8], pos: usize) -> (res: Result<(TokenData, usize), WireError>)
    requires
        pos <= bytes@.len(),
    ensures
        match res {
            Ok((t, n)) => token_parse(bytes@.skip(pos as int)) == Ok::<(TokenRecord, nat), WireError>((t@, n as nat))
                && pos + n <= bytes@.len(),
            Err(e) => token_parse(bytes@.skip(pos as int)) == Err::<(TokenRecord, nat), WireError>(e),
        },
{
    reveal(token_parse);
    let ghost b = bytes@.skip(pos as int);
    let total = bytes.len();
    let (chain_id, n1) = match read_varint_at(bytes, pos) {
        Ok((x, k)) => (x, k),
        Err(e) => return Err(e),
    };
    let p1 = pos + n1;
    proof { lemma_skip_skip(bytes@, pos as int, n1 as int); }
    let (address, n2) = match read_string_at(bytes, p1) {
        Ok((x, k)) => (x, k),
        Err(e) => return Err(e),
    };
    let p2 = p1 + n2;
    proof { lemma_skip_skip(bytes@, pos as int, (n1 + n2) as int); }
    let (name, n3) = match read_string_at(bytes, p2) {
        Ok((x, k)) => (x, k),
        Err(e) => return Err(e),
    };
    let p3 = p2 + n3;
    proof { lemma_skip_skip(bytes@, pos as int, (n1 + n2 + n3) as int); }
    let (symbol, n4) = match read_string_at(bytes, p3) {
        Ok((x, k)) => (x, k),
        Err(e) => return Err(e),
    };
    let p4 = p3 + n4;
    proof { lemma_skip_skip(bytes@, pos as int, (n1 + n2 + n3 + n4) as int); }
    let (decimals, n5) = match read_byte_at(bytes, p4) {
        Ok((x, k)) => (x, k),
        Err(e) => return Err(e),
    };
    let p5 = p4 + n5;
    proof { lemma_skip_skip(bytes@, pos as int, (n1 + n2 + n3 + n4 + n5) as int); }
    let (icon_data_x32, n6) = match read_byte_vec_at(bytes, p5) {
        Ok((x, k)) => (x, k),
        Err(e) => return Err(e),
    };
    let p6 = p5 + n6;
    proof { lemma_skip_skip(bytes@, pos as int, (n1 + n2 + n3 + n4 + n5 + n6) as int); }
    let (icon_data_x24, n7) = match read_byte_vec_at(bytes, p6) {
        Ok((x, k)) => (x, k),
        Err(e) => return Err(e),
    };
    let p7 = p6 + n7;
    let t = TokenData::new(chain_id, address, name, symbol, decimals, icon_data_x32, icon_data_x24);
    Ok((t, p7 - pos))
}

impl TokenData {
    /// Reads one record from the start of `bytes`: the record and the number of
    /// bytes it took, or why the bytes do not start with a record.
    pub fn decode(bytes: &[u8]) -> (res: Result<(TokenData, usize), WireError>)
        ensures
            match res {
                Ok((t, n)) => token_parse(bytes@) == Ok::<(TokenRecord, nat), WireError>((t@, n as nat)),
                Err(e) => token_parse(bytes@) == Err::<(TokenRecord, nat), WireError>(e),
            },
    {
        assert(bytes@.skip(0) =~= bytes@);
        decode_token_at(bytes, 0)
    }
}

/// Reads a list of records from the start of `bytes`: the records and the
/// number of bytes they took, or why the bytes do not start with such a list.
pub fn decode_token_list(bytes: &[u8]) -> (res: Result<(Vec<TokenData>, usize), WireError>)
    ensures
        match res {
            Ok((ts, n)) => token_list_parse(bytes@) == Ok::<(Seq<TokenRecord>, nat), WireError>((records(ts@), n as nat)),
            Err(e) => token_list_parse(bytes@) == Err::<(Seq<TokenRecord>, nat), WireError>(e),
        },
{
    assert(bytes@.skip(0) =~= bytes@);
    let (count, m) = match read_varint_at(bytes, 0) {
        Ok((x, k)) => (x, k),
        Err(e) => return Err(e),
    };
    let ghost body = bytes@.skip(m as int);
    let total = bytes.len();
    let mut out: Vec<TokenData> = Vec::new();
    assert(records(out@) =~= Seq::<TokenRecord>::empty());
    let mut pos: usize = m;
    let mut i: u64 = 0;
    while i < count
        invariant
            m <= pos <= bytes@.len(),
            bytes@.len() == total,
            i <= count,
            body == bytes@.skip(m as int),
            varint_parse(bytes@) == Ok::<(u64, nat), WireError>((count, m as nat)),
            tokens_parse(body, i as nat) == Ok::<(Seq<TokenRecord>, nat), WireError>((records(out@), (pos - m) as nat)),
        decreases count - i,
    {
        proof { lemma_skip_skip(bytes@, m as int, pos - m); }
        match decode_token_at(bytes, pos) {
            Ok((t, n)) => {
                let ghost before = out@;
                out.push(t);
                proof {
                    assert(records(out@) =~= records(before).push(t@));
                }
                pos = pos + n;
            },
            Err(e) => {
                proof {
                    lemma_tokens_parse_err_persists(body, (i + 1) as nat, count as nat);
                }
                return Err(e);
            },
        }
        i = i + 1;
    }
    Ok((out, pos))
}

} // verus!
