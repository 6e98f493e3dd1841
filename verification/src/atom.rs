//! The token (atom) layer of the Opal wire format.
//!
//! A token stream is a sequence of atoms — unsigned integers and byte
//! strings — and structural tokens (list and name brackets, call,
//! end-of-data, end-of-session).  An integer encodes as a tiny atom when it
//! is at most 63 and otherwise as a short atom over its minimal big-endian
//! bytes; a byte string encodes as the shortest of the short, medium and
//! long forms that holds its length.  The decoder accepts padded integer
//! and oversized byte-string forms as well, so re-encoding a decoded stream
//! yields the canonical minimal form, not necessarily the original bytes.
//! Signed atoms and continued-byte forms are not used by the methods this
//! library speaks, and the decoder rejects them.

use vstd::prelude::*;
use vstd::assert_seqs_equal;
use crate::bytes::{
    be_bytes, be_val, min_be_len, pow256, lemma_be_bytes_len, lemma_be_val_bound,
    lemma_be_val_of_be_bytes, lemma_min_be_len_fits, lemma_min_be_len_le, lemma_pow256_8,
    put_be, read_be_u64, u64_min_be_len,
};

verus! {

/// One token of the stream.  `Bytes` owns its payload.
#[derive(Debug, Clone, PartialEq, Eq)]
pub enum Token {
    UInt(u64),
    Bytes(Vec<u8>),
    StartList,
    EndList,
    StartName,
    EndName,
    Call,
    EndOfData,
    EndOfSession,
}

/// The mathematical value of a token.
pub enum TokenV {
    UInt(u64),
    Bytes(Seq<u8>),
    StartList,
    EndList,
    StartName,
    EndName,
    Call,
    EndOfData,
    EndOfSession,
}

impl View for Token {
    type V = TokenV;

    open spec fn view(&self) -> TokenV {
        match self {
            Token::UInt(v) => TokenV::UInt(*v),
            Token::Bytes(b) => TokenV::Bytes(b@),
            Token::StartList => TokenV::StartList,
            Token::EndList => TokenV::EndList,
            Token::StartName => TokenV::StartName,
            Token::EndName => TokenV::EndName,
            Token::Call => TokenV::Call,
            Token::EndOfData => TokenV::EndOfData,
            Token::EndOfSession => TokenV::EndOfSession,
        }
    }
}

/// The values of a token sequence.
pub open spec fn tokens_view(ts: Seq<Token>) -> Seq<TokenV> {
    ts.map_values(|t: Token| t@)
}

/// A byte string longer than the long atom form carries cannot be encoded.
pub open spec fn token_wf(t: TokenV) -> bool {
    match t {
        TokenV::Bytes(b) => b.len() < 0x100_0000,
        _ => true,
    }
}

pub open spec fn tokens_wf(ts: Seq<TokenV>) -> bool {
    forall|i: int| 0 <= i < ts.len() ==> token_wf(#[trigger] ts[i])
}

/// The canonical (minimal) encoding of one token.
pub open spec fn spec_encode_token(t: TokenV) -> Seq<u8> {
    match t {
        TokenV::UInt(v) => if v <= 63 {
            seq![v as u8]
        } else {
            seq![(0x80 + min_be_len(v as nat)) as u8] + be_bytes(v as nat, min_be_len(v as nat))
        },
        TokenV::Bytes(b) => if b.len() <= 15 {
            seq![(0xA0 + b.len()) as u8] + b
        } else if b.len() <= 2047 {
            seq![(0xD0 + b.len() / 256) as u8, (b.len() % 256) as u8] + b
        } else {
            seq![0xE2u8] + be_bytes(b.len() as nat, 3) + b
        },
        TokenV::StartList => seq![0xF0u8],
        TokenV::EndList => seq![0xF1u8],
        TokenV::StartName => seq![0xF2u8],
        TokenV::EndName => seq![0xF3u8],
        TokenV::Call => seq![0xF8u8],
        TokenV::EndOfData => seq![0xF9u8],
        TokenV::EndOfSession => seq![0xFAu8],
    }
}

/// The canonical encoding of a token sequence: each token in turn.
pub open spec fn spec_encode_tokens(ts: Seq<TokenV>) -> Seq<u8>
    decreases ts.len(),
{
    if ts.len() == 0 {
        seq![]
    } else {
        spec_encode_token(ts[0]) + spec_encode_tokens(ts.skip(1))
    }
}

/// Decodes the first token of `s`: the token and how many bytes it took.
/// `None` where the stream starts with a signed, continued, reserved or
/// truncated form, or with an integer too wide for a `u64`.
pub open spec fn spec_decode_token(s: Seq<u8>) -> Option<(TokenV, int)> {
    if s.len() == 0 {
        None
    } else {
        let h = s[0];
        if h <= 0x3F {
            Some((TokenV::UInt(h as u64), 1))
        } else if h < 0x80 {
            None  // tiny signed atom
        } else if h < 0x90 {
            let n = h - 0x80;
            if n < 1 || n > 8 || s.len() < 1 + n {
                None
            } else {
                Some((TokenV::UInt(be_val(s.subrange(1, 1 + n)) as u64), 1 + n))
            }
        } else if h < 0xA0 {
            None  // short signed atom
        } else if h < 0xB0 {
            let n = h - 0xA0;
            if s.len() < 1 + n {
                None
            } else {
                Some((TokenV::Bytes(s.subrange(1, 1 + n)), 1 + n))
            }
        } else if h < 0xD0 {
            None  // continued bytes, medium signed/unsigned integers
        } else if h < 0xD8 {
            if s.len() < 2 {
                None
            } else {
                let n = (h - 0xD0) * 256 + s[1];
                if s.len() < 2 + n {
                    None
                } else {
                    Some((TokenV::Bytes(s.subrange(2, 2 + n)), 2 + n))
                }
            }
        } else if h == 0xE2 {
            if s.len() < 4 {
                None
            } else {
                let n = be_val(s.subrange(1, 4)) as int;
                if s.len() < 4 + n {
                    None
                } else {
                    Some((TokenV::Bytes(s.subrange(4, 4 + n)), 4 + n))
                }
            }
        } else if h == 0xF0 {
            Some((TokenV::StartList, 1))
        } else if h == 0xF1 {
            Some((TokenV::EndList, 1))
        } else if h == 0xF2 {
            Some((TokenV::StartName, 1))
        } else if h == 0xF3 {
            Some((TokenV::EndName, 1))
        } else if h == 0xF8 {
            Some((TokenV::Call, 1))
        } else if h == 0xF9 {
            Some((TokenV::EndOfData, 1))
        } else if h == 0xFA {
            Some((TokenV::EndOfSession, 1))
        } else {
            None  // long signed/integer, continued, reserved, empty atom
        }
    }
}

/// A decoded token always consumes between one byte and the whole stream,
/// and is well formed.
pub proof fn lemma_decode_token_advance(s: Seq<u8>)
    ensures
        spec_decode_token(s) matches Some((t, n)) ==> 1 <= n <= s.len() && token_wf(t),
{
    if spec_decode_token(s) is Some {
        let (t, n) = spec_decode_token(s)->Some_0;
        if s.len() > 0 && s[0] == 0xE2 && s.len() >= 4 {
            lemma_be_val_bound(s.subrange(1, 4));
            lemma_pow256_8();
        }
    }
}

/// Decoding a canonical token encoding, whatever follows it, returns the
/// token and consumes exactly its encoding.
pub proof fn lemma_decode_of_encode_token(t: TokenV, rest: Seq<u8>)
    requires
        token_wf(t),
    ensures
        spec_decode_token(spec_encode_token(t) + rest)
            == Some((t, spec_encode_token(t).len() as int)),
{
    let e = spec_encode_token(t);
    let s = e + rest;
    match t {
        TokenV::UInt(v) => {
            if v <= 63 {
            } else {
                lemma_min_be_len_fits(v as nat);
                lemma_pow256_8();
                lemma_min_be_len_le(v as nat, 8);
                let m = min_be_len(v as nat);
                lemma_be_bytes_len(v as nat, m);
                assert(s[0] == 0x80 + m);
                assert_seqs_equal!(s.subrange(1, 1 + m as int) == be_bytes(v as nat, m));
                lemma_be_val_of_be_bytes(v as nat, m);
            }
        },
        TokenV::Bytes(b) => {
            if b.len() <= 15 {
                assert(s[0] == 0xA0 + b.len());
                assert_seqs_equal!(s.subrange(1, 1 + b.len() as int) == b);
            } else if b.len() <= 2047 {
                assert(s[0] == 0xD0 + b.len() / 256);
                assert(s[1] == b.len() % 256);
                assert((s[0] - 0xD0) * 256 + s[1] == b.len());
                assert_seqs_equal!(s.subrange(2, 2 + b.len() as int) == b);
            } else {
                lemma_be_bytes_len(b.len(), 3);
                assert(s[0] == 0xE2);
                assert_seqs_equal!(s.subrange(1, 4) == be_bytes(b.len(), 3));
                lemma_pow256_8();
                lemma_be_val_of_be_bytes(b.len(), 3);
                assert_seqs_equal!(s.subrange(4, 4 + b.len() as int) == b);
            }
        },
        _ => {},
    }
}

/// Minimality: whatever form a token was decoded from, its canonical
/// encoding is no longer than the form it came from.
pub proof fn lemma_encode_minimal(s: Seq<u8>, t: TokenV, n: int)
    requires
        spec_decode_token(s) == Some((t, n)),
    ensures
        token_wf(t),
        spec_encode_token(t).len() <= n,
{
    lemma_decode_token_advance(s);
    let h = s[0];
    match t {
        TokenV::UInt(v) => {
            if h <= 0x3F {
            } else {
                let w = (h - 0x80) as int;
                let data = s.subrange(1, 1 + w);
                lemma_be_val_bound(data);
                lemma_pow256_8();
                if v > 63 {
                    lemma_min_be_len_le(v as nat, w as nat);
                    lemma_be_bytes_len(v as nat, min_be_len(v as nat));
                }
            }
        },
        TokenV::Bytes(b) => {
            if h < 0xB0 {
                // short form: already canonical for its length
            } else if h < 0xD8 {
                assert(b.len() <= 2047);
            } else {
                lemma_be_val_bound(s.subrange(1, 4));
                lemma_pow256_8();
                lemma_be_bytes_len(b.len(), 3);
            }
        },
        _ => {},
    }
}

/// Decodes a whole stream into its token sequence; `None` where any token
/// is malformed or the stream ends inside one.
pub open spec fn spec_decode_tokens(s: Seq<u8>) -> Option<Seq<TokenV>>
    decreases s.len(),
{
    if s.len() == 0 {
        Some(seq![])
    } else {
        match spec_decode_token(s) {
            None => None,
            Some((t, n)) => if 1 <= n <= s.len() {
                match spec_decode_tokens(s.skip(n)) {
                    None => None,
                    Some(ts) => Some(seq![t] + ts),
                }
            } else {
                None
            },
        }
    }
}

/// Round trip: decoding a canonical stream returns the tokens it encodes.
pub proof fn lemma_tokens_round_trip(ts: Seq<TokenV>)
    requires
        tokens_wf(ts),
    ensures
        spec_decode_tokens(spec_encode_tokens(ts)) == Some(ts),
    decreases ts.len(),
{
    if ts.len() == 0 {
    } else {
        let e0 = spec_encode_token(ts[0]);
        let rest = spec_encode_tokens(ts.skip(1));
        let s = e0 + rest;
        assert(token_wf(ts[0]));
        lemma_decode_of_encode_token(ts[0], rest);
        lemma_decode_token_advance(s);
        assert(tokens_wf(ts.skip(1))) by {
            assert(forall|i: int| 0 <= i < ts.skip(1).len()
                ==> #[trigger] ts.skip(1)[i] == ts[i + 1]);
        }
        lemma_tokens_round_trip(ts.skip(1));
        assert_seqs_equal!(s.skip(e0.len() as int) == rest);
        assert_seqs_equal!(seq![ts[0]] + ts.skip(1) == ts);
    }
}

/// Canonical encodings concatenate.
pub proof fn lemma_encode_tokens_app(a: Seq<TokenV>, b: Seq<TokenV>)
    ensures
        spec_encode_tokens(a + b) == spec_encode_tokens(a) + spec_encode_tokens(b),
    decreases a.len(),
{
    if a.len() == 0 {
        assert_seqs_equal!(a + b == b);
        assert_seqs_equal!(spec_encode_tokens(a) + spec_encode_tokens(b)
            == spec_encode_tokens(b));
    } else {
        lemma_encode_tokens_app(a.skip(1), b);
        assert_seqs_equal!((a + b).skip(1) == a.skip(1) + b);
        assert((a + b)[0] == a[0]);
        assert_seqs_equal!(spec_encode_token(a[0]) + (spec_encode_tokens(a.skip(1))
            + spec_encode_tokens(b))
            == (spec_encode_token(a[0]) + spec_encode_tokens(a.skip(1)))
            + spec_encode_tokens(b));
    }
}

pub proof fn lemma_encode_tokens_push(a: Seq<TokenV>, t: TokenV)
    ensures
        spec_encode_tokens(a.push(t)) == spec_encode_tokens(a) + spec_encode_token(t),
{
    lemma_encode_tokens_app(a, seq![t]);
    assert_seqs_equal!(a.push(t) == a + seq![t]);
    assert(spec_encode_tokens(seq![t]) == spec_encode_token(t) + spec_encode_tokens(
        Seq::<TokenV>::empty(),
    )) by {
        assert_seqs_equal!(seq![t].skip(1) == Seq::<TokenV>::empty());
    }
    assert_seqs_equal!(spec_encode_token(t) + Seq::<u8>::empty() == spec_encode_token(t));
}

/// Appends the canonical encoding of one token to `out`.
pub fn encode_token(t: &Token, out: &mut Vec<u8>)
    requires
        token_wf(t@),
    ensures
        final(out)@ == old(out)@ + spec_encode_token(t@),
{
    match t {
        Token::UInt(v) => {
            if *v <= 63 {
                out.push(*v as u8);
                proof {
                    assert_seqs_equal!(out@ == old(out)@ + spec_encode_token(t@));
                }
            } else {
                let m = u64_min_be_len(*v);
                out.push((0x80 + m) as u8);
                put_be(out, *v, m);
                proof {
                    assert_seqs_equal!(out@ == old(out)@ + spec_encode_token(t@));
                }
            }
        },
        Token::Bytes(b) => {
            let blen = b.len();
            if blen <= 15 {
                out.push((0xA0 + blen) as u8);
            } else if blen <= 2047 {
                out.push((0xD0 + blen / 256) as u8);
                out.push((blen % 256) as u8);
            } else {
                out.push(0xE2);
                put_be(out, blen as u64, 3);
            }
            let mut i: usize = 0;
            let ghost mid = out@;
            while i < blen
                invariant
                    i <= blen,
                    blen == b@.len(),
                    out@ == mid + b@.take(i as int),
                decreases blen - i,
            {
                out.push(b[i]);
                proof {
                    assert_seqs_equal!(mid + b@.take(i as int) + seq![b@[i as int]]
                        == mid + b@.take(i as int + 1));
                }
                i = i + 1;
            }
            proof {
                assert_seqs_equal!(b@.take(blen as int) == b@);
                assert_seqs_equal!(out@ == old(out)@ + spec_encode_token(t@));
            }
        },
        Token::StartList => { out.push(0xF0); proof { lemma_one(old(out)@, out@, t@); } },
        Token::EndList => { out.push(0xF1); proof { lemma_one(old(out)@, out@, t@); } },
        Token::StartName => { out.push(0xF2); proof { lemma_one(old(out)@, out@, t@); } },
        Token::EndName => { out.push(0xF3); proof { lemma_one(old(out)@, out@, t@); } },
        Token::Call => { out.push(0xF8); proof { lemma_one(old(out)@, out@, t@); } },
        Token::EndOfData => { out.push(0xF9); proof { lemma_one(old(out)@, out@, t@); } },
        Token::EndOfSession => { out.push(0xFA); proof { lemma_one(old(out)@, out@, t@); } },
    }
}

proof fn lemma_one(before: Seq<u8>, after: Seq<u8>, t: TokenV)
    requires
        spec_encode_token(t).len() == 1,
        after == before.push(spec_encode_token(t)[0]),
    ensures
        after == before + spec_encode_token(t),
{
    assert_seqs_equal!(before.push(spec_encode_token(t)[0]) == before + spec_encode_token(t));
}

/// The canonical encoding of a whole token sequence.
pub fn encode_tokens(ts: &Vec<Token>) -> (r: Vec<u8>)
    requires
        tokens_wf(tokens_view(ts@)),
    ensures
        r@ == spec_encode_tokens(tokens_view(ts@)),
{
    let mut out: Vec<u8> = Vec::new();
    let mut i: usize = 0;
    proof {
        assert_seqs_equal!(tokens_view(ts@).take(0) == Seq::<TokenV>::empty());
    }
    while i < ts.len()
        invariant
            i <= ts@.len(),
            tokens_wf(tokens_view(ts@)),
            out@ == spec_encode_tokens(tokens_view(ts@).take(i as int)),
        decreases ts@.len() - i,
    {
        proof {
            assert(token_wf(tokens_view(ts@)[i as int]));
            lemma_encode_tokens_push(tokens_view(ts@).take(i as int), ts@[i as int]@);
            assert_seqs_equal!(tokens_view(ts@).take(i as int).push(tokens_view(ts@)[i as int])
                == tokens_view(ts@).take(i as int + 1));
        }
        encode_token(&ts[i], &mut out);
        i = i + 1;
    }
    proof {
        assert_seqs_equal!(tokens_view(ts@).take(ts@.len() as int) == tokens_view(ts@));
    }
    out
}

/// A per-token bound on the canonical encoding's width.
pub open spec fn token_size(t: TokenV) -> nat {
    match t {
        TokenV::UInt(_) => 9,
        TokenV::Bytes(b) => 4 + b.len(),
        _ => 1,
    }
}

pub proof fn lemma_encode_token_size(t: TokenV)
    ensures
        spec_encode_token(t).len() <= token_size(t),
{
    match t {
        TokenV::UInt(v) => {
            if v > 63 {
                lemma_pow256_8();
                lemma_min_be_len_le(v as nat, 8);
                lemma_be_bytes_len(v as nat, min_be_len(v as nat));
            }
        },
        TokenV::Bytes(b) => {
            lemma_be_bytes_len(b.len(), 3);
        },
        _ => {},
    }
}

/// A uniform per-token bound bounds the whole stream.
pub proof fn lemma_encode_tokens_size(ts: Seq<TokenV>, k: nat)
    requires
        forall|i: int| 0 <= i < ts.len() ==> token_size(#[trigger] ts[i]) <= k,
    ensures
        spec_encode_tokens(ts).len() <= k * ts.len(),
    decreases ts.len(),
{
    if ts.len() == 0 {
    } else {
        lemma_encode_token_size(ts[0]);
        assert(forall|i: int| 0 <= i < ts.skip(1).len()
            ==> #[trigger] ts.skip(1)[i] == ts[i + 1]);
        lemma_encode_tokens_size(ts.skip(1), k);
        assert(k * ts.len() == k * ts.skip(1).len() + k) by (nonlinear_arith)
            requires ts.len() == ts.skip(1).len() + 1,
        ;
    }
}

/// Why a byte stream was rejected.
#[derive(Debug, Clone, Copy, PartialEq, Eq, Structural)]
pub enum CodecError {
    /// A framing header field does not match the bytes around it.
    MalformedHeader,
    /// The stream ends inside a token or a frame.
    Truncated,
    /// A token tag this library cannot interpret; skipping it is not safe.
    UnknownToken,
    /// The token stream is not the shape of a method result, or its
    /// structural tokens do not nest.
    UnexpectedTokens,
}

/// Decodes the token starting at `i`.
fn decode_token_at(bytes: &Vec<u8>, i: usize) -> (r: Result<(Token, usize), CodecError>)
    requires
        i <= bytes@.len(),
    ensures
        match r {
            Ok((t, j)) => {
                &&& spec_decode_token(bytes@.skip(i as int)) == Some((t@, j - i))
                &&& i < j <= bytes@.len()
                &&& token_wf(t@)
            },
            Err(_) => spec_decode_token(bytes@.skip(i as int)) is None,
        },
{
    let len = bytes.len();
    let ghost s = bytes@.skip(i as int);
    if i == len {
        return Err(CodecError::Truncated);
    }
    let h = bytes[i];
    assert(s[0] == h);
    if h <= 0x3F {
        Ok((Token::UInt(h as u64), i + 1))
    } else if h < 0x80 {
        Err(CodecError::UnknownToken)
    } else if h < 0x90 {
        let n = (h - 0x80) as usize;
        if n < 1 || n > 8 {
            return Err(CodecError::UnknownToken);
        }
        if len - i < 1 + n {
            return Err(CodecError::Truncated);
        }
        let v = read_be_u64(bytes, i + 1, n);
        proof {
            assert_seqs_equal!(s.subrange(1, 1 + n as int)
                == bytes@.subrange(i as int + 1, i as int + 1 + n as int));
        }
        Ok((Token::UInt(v), i + 1 + n))
    } else if h < 0xA0 {
        Err(CodecError::UnknownToken)
    } else if h < 0xB0 {
        let n = (h - 0xA0) as usize;
        if len - i < 1 + n {
            return Err(CodecError::Truncated);
        }
        let b = copy_range(bytes, i + 1, n);
        proof {
            assert_seqs_equal!(s.subrange(1, 1 + n as int) == b@);
        }
        Ok((Token::Bytes(b), i + 1 + n))
    } else if h < 0xD0 {
        Err(CodecError::UnknownToken)
    } else if h < 0xD8 {
        if len - i < 2 {
            return Err(CodecError::Truncated);
        }
        let n = (h - 0xD0) as usize * 256 + bytes[i + 1] as usize;
        assert(s[1] == bytes@[i as int + 1]);
        if len - i < 2 + n {
            return Err(CodecError::Truncated);
        }
        let b = copy_range(bytes, i + 2, n);
        proof {
            assert_seqs_equal!(s.subrange(2, 2 + n as int) == b@);
        }
        Ok((Token::Bytes(b), i + 2 + n))
    } else if h == 0xE2 {
        if len - i < 4 {
            return Err(CodecError::Truncated);
        }
        let nv = read_be_u64(bytes, i + 1, 3);
        proof {
            assert_seqs_equal!(s.subrange(1, 4)
                == bytes@.subrange(i as int + 1, i as int + 4));
            lemma_be_val_bound(s.subrange(1, 4));
            lemma_pow256_8();
        }
        let n = nv as usize;
        if len - i < 4 || len - i - 4 < n {
            return Err(CodecError::Truncated);
        }
        let b = copy_range(bytes, i + 4, n);
        proof {
            assert_seqs_equal!(s.subrange(4, 4 + n as int) == b@);
        }
        Ok((Token::Bytes(b), i + 4 + n))
    } else if h == 0xF0 {
        Ok((Token::StartList, i + 1))
    } else if h == 0xF1 {
        Ok((Token::EndList, i + 1))
    } else if h == 0xF2 {
        Ok((Token::StartName, i + 1))
    } else if h == 0xF3 {
        Ok((Token::EndName, i + 1))
    } else if h == 0xF8 {
        Ok((Token::Call, i + 1))
    } else if h == 0xF9 {
        Ok((Token::EndOfData, i + 1))
    } else if h == 0xFA {
        Ok((Token::EndOfSession, i + 1))
    } else {
        Err(CodecError::UnknownToken)
    }
}

/// Copies `n` bytes starting at `start` out of `bytes`.
pub fn copy_range(bytes: &Vec<u8>, start: usize, n: usize) -> (r: Vec<u8>)
    requires
        start + n <= bytes@.len(),
    ensures
        r@ == bytes@.subrange(start as int, start as int + n as int),
{
    let len = bytes.len();
    let mut r: Vec<u8> = Vec::new();
    let mut k: usize = 0;
    while k < n
        invariant
            k <= n,
            start + n <= len,
            len == bytes@.len(),
            r@ == bytes@.subrange(start as int, start as int + k as int),
        decreases n - k,
    {
        r.push(bytes[start + k]);
        proof {
            assert_seqs_equal!(bytes@.subrange(start as int, start as int + k as int)
                .push(bytes@[start as int + k as int])
                == bytes@.subrange(start as int, start as int + k as int + 1));
        }
        k = k + 1;
    }
    proof {
        assert_seqs_equal!(r@ == bytes@.subrange(start as int, start as int + n as int));
    }
    r
}

/// Decodes a whole byte stream into tokens.  Fails exactly where the
/// mathematical decoder does: on any signed, continued, reserved,
/// over-wide or truncated form.
pub fn decode_tokens(bytes: &Vec<u8>) -> (r: Result<Vec<Token>, CodecError>)
    ensures
        match r {
            Ok(ts) => {
                &&& spec_decode_tokens(bytes@) == Some(tokens_view(ts@))
                &&& tokens_wf(tokens_view(ts@))
            },
            Err(_) => spec_decode_tokens(bytes@) is None,
        },
{
    let len = bytes.len();
    let mut acc: Vec<Token> = Vec::new();
    let mut i: usize = 0;
    proof {
        assert(bytes@.skip(0) =~= bytes@);
        assert forall|ts2: Seq<TokenV>| tokens_view(acc@) + ts2 == ts2 by {
            assert(tokens_view(acc@) + ts2 =~= ts2);
        }
    }
    while i < len
        invariant
            i <= len,
            len == bytes@.len(),
            tokens_wf(tokens_view(acc@)),
            forall|ts2: Seq<TokenV>|
                spec_decode_tokens(bytes@.skip(i as int)) == Some(ts2)
                    ==> spec_decode_tokens(bytes@) == Some(tokens_view(acc@) + ts2),
            spec_decode_tokens(bytes@.skip(i as int)) is None
                ==> spec_decode_tokens(bytes@) is None,
        decreases len - i,
    {
        let ghost s = bytes@.skip(i as int);
        let step = decode_token_at(bytes, i);
        match step {
            Ok((t, j)) => {
                proof {
                    assert(s.len() > 0);
                    assert_seqs_equal!(s.skip(j - i) == bytes@.skip(j as int));
                    assert(forall|ts2: Seq<TokenV>|
                        spec_decode_tokens(bytes@.skip(j as int)) == Some(ts2)
                            ==> spec_decode_tokens(s) == Some(seq![t@] + ts2));
                    assert(forall|ts2: Seq<TokenV>|
                        spec_decode_tokens(bytes@.skip(j as int)) == Some(ts2)
                            ==> tokens_view(acc@) + (seq![t@] + ts2)
                                =~= tokens_view(acc@.push(t)) + ts2);
                    assert(tokens_view(acc@.push(t)) =~= tokens_view(acc@).push(t@));
                }
                acc.push(t);
                i = j;
            },
            Err(e) => {
                proof {
                    assert(s.len() > 0);
                }
                return Err(e);
            },
        }
    }
    proof {
        assert(bytes@.skip(len as int) =~= Seq::<u8>::empty());
        assert(tokens_view(acc@) + Seq::<TokenV>::empty() =~= tokens_view(acc@));
    }
    Ok(acc)
}

} // verus!
