//! Method calls and method results.
//!
//! A method call is an invoker row, a method identifier and a list of
//! parameter tokens; it travels as `Call`, the two identifiers as 8-byte
//! byte strings, the bracketed parameter list, `EndOfData`, and an expected
//! status list.  A result mirrors it: a bracketed result list, `EndOfData`,
//! and the status list the drive reports.  The result parser enforces the
//! shape and that the structural tokens of the result list nest.

use vstd::prelude::*;
use vstd::assert_seqs_equal;
use crate::bytes::{be_bytes, lemma_be_bytes_len};
use crate::atom::{
    spec_encode_tokens, tokens_view, tokens_wf, CodecError, Token, TokenV, encode_tokens,
};
use crate::uid::Uid;

verus! {

/// One remote invocation: who it is invoked on, what is invoked, and the
/// ordered parameter tokens.
pub struct MethodCall {
    pub invoker: Uid,
    pub method: Uid,
    pub params: Vec<Token>,
}

/// One decoded response: the result tokens and the reported status code.
pub struct MethodResult {
    pub results: Vec<Token>,
    pub status: u64,
}

/// The drive reports success.
pub const STATUS_SUCCESS: u64 = 0;

/// The drive rejected the credential.
pub const STATUS_NOT_AUTHORIZED: u64 = 1;

/// An identifier on the wire: its eight big-endian bytes.
pub open spec fn spec_uid_bytes(u: Uid) -> Seq<u8> {
    be_bytes(u.value as nat, 8)
}

/// The token stream of a method call.
pub open spec fn spec_call_tokens(invoker: Uid, method: Uid, params: Seq<TokenV>) -> Seq<TokenV> {
    seq![
        TokenV::Call,
        TokenV::Bytes(spec_uid_bytes(invoker)),
        TokenV::Bytes(spec_uid_bytes(method)),
        TokenV::StartList,
    ] + params + seq![
        TokenV::EndList,
        TokenV::EndOfData,
        TokenV::StartList,
        TokenV::UInt(0),
        TokenV::UInt(0),
        TokenV::UInt(0),
        TokenV::EndList,
    ]
}

/// Structural tokens nest: every `EndList` / `EndName` closes the matching
/// most recent opener, and everything opened is closed.
pub open spec fn nest_ok(ts: Seq<TokenV>, stack: Seq<bool>) -> bool
    decreases ts.len(),
{
    if ts.len() == 0 {
        stack.len() == 0
    } else {
        match ts[0] {
            TokenV::StartList => nest_ok(ts.skip(1), stack.push(true)),
            TokenV::StartName => nest_ok(ts.skip(1), stack.push(false)),
            TokenV::EndList => stack.len() > 0 && stack.last() == true
                && nest_ok(ts.skip(1), stack.drop_last()),
            TokenV::EndName => stack.len() > 0 && stack.last() == false
                && nest_ok(ts.skip(1), stack.drop_last()),
            _ => nest_ok(ts.skip(1), stack),
        }
    }
}

pub open spec fn well_nested(ts: Seq<TokenV>) -> bool {
    nest_ok(ts, seq![])
}

/// Parses a result stream: the result tokens and the status code, or
/// `None` where the stream has another shape or does not nest.
pub open spec fn spec_parse_result(ts: Seq<TokenV>) -> Option<(Seq<TokenV>, u64)> {
    let n = ts.len() as int;
    if n < 8 {
        None
    } else if !(ts[0] is StartList) || !(ts[n - 7] is EndList) || !(ts[n - 6] is EndOfData)
        || !(ts[n - 5] is StartList) || !(ts[n - 4] is UInt) || !(ts[n - 3] is UInt)
        || !(ts[n - 2] is UInt) || !(ts[n - 1] is EndList) {
        None
    } else if !well_nested(ts.subrange(1, n - 7)) {
        None
    } else {
        Some((ts.subrange(1, n - 7), ts[n - 4]->UInt_0))
    }
}

/// The call's token stream.  Consumes the call: the parameter tokens move
/// into the stream.
pub fn call_token_stream(call: MethodCall) -> (r: Vec<Token>)
    ensures
        tokens_view(r@) == spec_call_tokens(call.invoker, call.method, tokens_view(call.params@)),
        tokens_wf(tokens_view(call.params@)) ==> tokens_wf(tokens_view(r@)),
{
    proof {
        lemma_be_bytes_len(call.invoker.value as nat, 8);
        lemma_be_bytes_len(call.method.value as nat, 8);
    }
    let inv = crate::bytes::u64_be_bytes(call.invoker.value, 8);
    let met = crate::bytes::u64_be_bytes(call.method.value, 8);
    let ghost pv = tokens_view(call.params@);
    let mut v: Vec<Token> = Vec::new();
    v.push(Token::Call);
    v.push(Token::Bytes(inv));
    v.push(Token::Bytes(met));
    v.push(Token::StartList);
    let mut params = call.params;
    v.append(&mut params);
    v.push(Token::EndList);
    v.push(Token::EndOfData);
    v.push(Token::StartList);
    v.push(Token::UInt(0));
    v.push(Token::UInt(0));
    v.push(Token::UInt(0));
    v.push(Token::EndList);
    proof {
        let full = spec_call_tokens(call.invoker, call.method, pv);
        assert(v@.len() == 11 + pv.len());
        assert forall|i: int| 0 <= i < v@.len()
            implies tokens_view(v@)[i] == full[i] by {
            assert(tokens_view(v@)[i] == v@[i]@);
            if 4 <= i < 4 + pv.len() {
                assert(v@[i] == call.params@[i - 4]);
                assert(full[i] == pv[i - 4]);
            }
        }
        assert_seqs_equal!(tokens_view(v@) == full);
    }
    v
}

/// The canonical byte encoding of the call.  Consumes the call.
pub fn encode_call(call: MethodCall) -> (r: Vec<u8>)
    requires
        tokens_wf(tokens_view(call.params@)),
    ensures
        r@ == spec_encode_tokens(
            spec_call_tokens(call.invoker, call.method, tokens_view(call.params@)),
        ),
{
    let stream = call_token_stream(call);
    encode_tokens(&stream)
}

/// Whether the structural tokens of `ts` nest.
pub fn check_well_nested(ts: &Vec<Token>) -> (r: bool)
    ensures
        r == well_nested(tokens_view(ts@)),
{
    let len = ts.len();
    let mut stack: Vec<bool> = Vec::new();
    let mut i: usize = 0;
    proof {
        assert_seqs_equal!(tokens_view(ts@).skip(0) == tokens_view(ts@));
    }
    while i < len
        invariant
            i <= len,
            len == ts@.len(),
            well_nested(tokens_view(ts@))
                == nest_ok(tokens_view(ts@).skip(i as int), stack@),
        decreases len - i,
    {
        let ghost rem = tokens_view(ts@).skip(i as int);
        proof {
            assert(rem[0] == ts@[i as int]@);
            assert_seqs_equal!(rem.skip(1) == tokens_view(ts@).skip(i as int + 1));
        }
        match &ts[i] {
            Token::StartList => stack.push(true),
            Token::StartName => stack.push(false),
            Token::EndList => {
                let top = stack.pop();
                match top {
                    Some(b) => {
                        if !b {
                            return false;
                        }
                    },
                    None => {
                        return false;
                    },
                }
            },
            Token::EndName => {
                let top = stack.pop();
                match top {
                    Some(b) => {
                        if b {
                            return false;
                        }
                    },
                    None => {
                        return false;
                    },
                }
            },
            _ => {},
        }
        i = i + 1;
    }
    proof {
        assert(tokens_view(ts@).skip(len as int) =~= Seq::<TokenV>::empty());
    }
    stack.is_empty()
}

/// Parses a decoded token stream as a method result, enforcing the shape
/// and the nesting of the result list.
pub fn parse_method_result(ts: Vec<Token>) -> (r: Result<MethodResult, CodecError>)
    ensures
        match r {
            Ok(mr) => spec_parse_result(tokens_view(ts@))
                == Some((tokens_view(mr.results@), mr.status)),
            Err(_) => spec_parse_result(tokens_view(ts@)) is None,
        },
{
    let ghost orig = tokens_view(ts@);
    let mut v = ts;
    let n = v.len();
    if n < 8 {
        return Err(CodecError::UnexpectedTokens);
    }
    let t1 = v.pop().unwrap();
    let t2 = v.pop().unwrap();
    let t3 = v.pop().unwrap();
    let t4 = v.pop().unwrap();
    let t5 = v.pop().unwrap();
    let t6 = v.pop().unwrap();
    let t7 = v.pop().unwrap();
    proof {
        assert_seqs_equal!(v@ == ts@.take(n - 7));
    }
    if !matches!(t1, Token::EndList) || !matches!(t5, Token::StartList)
        || !matches!(t6, Token::EndOfData) || !matches!(t7, Token::EndList) {
        return Err(CodecError::UnexpectedTokens);
    }
    let status = match t4 {
        Token::UInt(s) => s,
        _ => {
            return Err(CodecError::UnexpectedTokens);
        },
    };
    if !matches!(t3, Token::UInt(_)) || !matches!(t2, Token::UInt(_)) {
        return Err(CodecError::UnexpectedTokens);
    }
    let first = v.remove(0);
    if !matches!(first, Token::StartList) {
        return Err(CodecError::UnexpectedTokens);
    }
    proof {
        assert_seqs_equal!(v@ == ts@.subrange(1, n - 7));
        assert_seqs_equal!(tokens_view(v@) == orig.subrange(1, n - 7));
    }
    if !check_well_nested(&v) {
        return Err(CodecError::UnexpectedTokens);
    }
    Ok(MethodResult { results: v, status })
}

/// The result tokens and status of a response frame carrying `com_id`,
/// or `None` where any layer rejects the bytes.
pub open spec fn spec_response_tokens(s: Seq<u8>, com_id: u16) -> Option<(Seq<TokenV>, u64)> {
    match crate::frame::spec_parse_com_packet(s) {
        None => None,
        Some((m, payload)) => if m.com_id != com_id {
            None
        } else {
            match crate::atom::spec_decode_tokens(payload) {
                None => None,
                Some(ts) => spec_parse_result(ts),
            }
        },
    }
}

/// Parses a response frame and its token stream as a method result,
/// enforcing the frame lengths, the token forms, the result shape and the
/// communication identifier.
pub fn decode_response(resp: &Vec<u8>, com_id: u16) -> (r: Result<MethodResult, CodecError>)
    ensures
        match r {
            Ok(mr) => spec_response_tokens(resp@, com_id)
                == Some((tokens_view(mr.results@), mr.status)),
            Err(_) => spec_response_tokens(resp@, com_id) is None,
        },
{
    let (meta, payload) = match crate::frame::parse_com_packet(resp) {
        Ok(p) => p,
        Err(e) => {
            return Err(e);
        },
    };
    if meta.com_id != com_id {
        return Err(CodecError::MalformedHeader);
    }
    let toks = match crate::atom::decode_tokens(&payload) {
        Ok(ts) => ts,
        Err(e) => {
            return Err(e);
        },
    };
    parse_method_result(toks)
}

} // verus!
