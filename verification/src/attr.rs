//! Attribute pools: a `v`, `vt` or `vn` line is split on whitespace, the
//! tag token is discarded, and every remaining token is validated against
//! the float-literal grammar and appended, in file order, to the
//! corresponding pool. The pools hold the tokens themselves; a consumer
//! turns each token into a machine float.

use vstd::prelude::*;

use crate::error::ErrModel;
use crate::error::ObjError;
use crate::lex::rest_tokens;
use crate::lex::split_tokens;
use crate::lex::tokenize;
use crate::lex::views_of;
use crate::numbers::check_float_token;
use crate::numbers::is_float_token;

verus! {

/// The outcome of scanning attribute tokens: the tokens accepted before the
/// first malformed one, and that malformed token, if any.
pub struct FloatScan {
    /// The accepted tokens, in file order.
    pub ok: Seq<Seq<u8>>,
    /// The first token that is not a float literal, if one occurs.
    pub bad: Option<Seq<u8>>,
}

/// Scans attribute tokens left to right, accepting float literals until the
/// first malformed token.
pub open spec fn scan_floats(toks: Seq<Seq<u8>>) -> FloatScan
    decreases toks.len(),
{
    if toks.len() == 0 {
        FloatScan { ok: Seq::empty(), bad: None }
    } else if !is_float_token(toks[0]) {
        FloatScan { ok: Seq::empty(), bad: Some(toks[0]) }
    } else {
        let rest = scan_floats(toks.skip(1));
        FloatScan { ok: seq![toks[0]] + rest.ok, bad: rest.bad }
    }
}

/// What an attribute line contributes to its pool: the scan of its tokens
/// after the tag token.
pub open spec fn attr_values(l: Seq<u8>) -> FloatScan {
    scan_floats(rest_tokens(l))
}

/// Parses one attribute line: splits it on whitespace, discards the tag,
/// and appends every remaining token to `pool` in file order. Fails with
/// `MalformedNumber` — carrying the line and the offending token — exactly
/// when some token is not a float literal; the tokens before it are already
/// appended then.
pub fn parse_obj_line(pool: &mut Vec<Vec<u8>>, line: &[u8]) -> (r: Result<(), ObjError>)
    ensures
        views_of(final(pool)@) == views_of(old(pool)@) + attr_values(line@).ok,
        match attr_values(line@).bad {
            Option::None => r is Ok,
            Option::Some(tok) => r matches Err(e) && e@ == (ErrModel::MalformedNumber {
                line: line@,
                token: tok,
            }),
        },
{
    let toks = tokenize(line);
    let ghost descs = rest_tokens(line@);
    let mut i: usize = 1;
    proof {
        assert(descs.skip(0) =~= descs);
        assert(descs.take(0) =~= Seq::<Seq<u8>>::empty());
        assert(views_of(pool@) + Seq::<Seq<u8>>::empty() =~= views_of(pool@));
    }
    while i < toks.len()
        invariant
            1 <= i,
            toks@.len() == 0 ==> i == 1,
            toks@.len() > 0 ==> i <= toks@.len(),
            views_of(toks@) == split_tokens(line@),
            descs == rest_tokens(line@),
            scan_floats(descs) == (FloatScan {
                ok: descs.take(i - 1) + scan_floats(descs.skip(i - 1)).ok,
                bad: scan_floats(descs.skip(i - 1)).bad,
            }),
            views_of(pool@) == views_of(old(pool)@) + descs.take(i - 1),
        decreases toks@.len() - i,
    {
        let ghost rest = descs.skip(i - 1);
        proof {
            assert(rest[0] == descs[i - 1]);
            assert(descs[i - 1] == toks@[i as int]@);
            assert(rest.skip(1) =~= descs.skip(i as int));
        }
        if !check_float_token(toks[i].as_slice()) {
            let token = vstd::slice::slice_to_vec(toks[i].as_slice());
            let line_copy = vstd::slice::slice_to_vec(line);
            proof {
                assert(scan_floats(rest).ok =~= Seq::<Seq<u8>>::empty());
                assert(descs.take(i - 1) + Seq::<Seq<u8>>::empty() =~= descs.take(i - 1));
                assert(attr_values(line@).ok =~= descs.take(i - 1));
            }
            return Err(ObjError::MalformedNumber { line: line_copy, token });
        }
        let tok = vstd::slice::slice_to_vec(toks[i].as_slice());
        proof {
            assert(scan_floats(rest) == (FloatScan {
                ok: seq![descs[i - 1]] + scan_floats(descs.skip(i as int)).ok,
                bad: scan_floats(descs.skip(i as int)).bad,
            }));
            assert(descs.take(i - 1) + (seq![descs[i - 1]] + scan_floats(
                descs.skip(i as int),
            ).ok) =~= descs.take(i as int) + scan_floats(descs.skip(i as int)).ok);
            assert(views_of(pool@.push(tok)) =~= views_of(pool@) + seq![tok@]);
            assert(views_of(old(pool)@) + descs.take(i - 1) + seq![descs[i - 1]] =~= views_of(
                old(pool)@,
            ) + descs.take(i as int));
        }
        pool.push(tok);
        i = i + 1;
    }
    proof {
        if toks@.len() > 0 {
            assert(descs.skip(i - 1) =~= Seq::<Seq<u8>>::empty());
        } else {
            assert(descs.skip(i - 1) =~= Seq::<Seq<u8>>::empty());
        }
        assert(scan_floats(Seq::<Seq<u8>>::empty()).ok =~= Seq::<Seq<u8>>::empty());
        assert(descs.take(i - 1) =~= descs);
        assert(descs + Seq::<Seq<u8>>::empty() =~= descs);
    }
    Ok(())
}

} // verus!
