//! Face handling: tokenizing a face line into face-vertex references,
//! rejecting malformed or relative indices, and expanding an n-gon into a
//! triangle fan.

use vstd::prelude::*;

use crate::error::ErrModel;
use crate::error::ObjError;
use crate::lex::rest_tokens;
use crate::lex::split_slash;
use crate::lex::split_slash_fields;
use crate::lex::split_tokens;
use crate::lex::tokenize;
use crate::lex::views_of;
use crate::numbers::check_negative_literal;
use crate::numbers::is_negative_literal;
use crate::numbers::parse_u32_digits;
use crate::numbers::u32_of_dec;

verus! {

/// One corner of a polygon face: which position, texture-coordinate and
/// normal pool entries it draws from, as the 1-based indices written in the
/// file. The texture-coordinate and normal fields may be absent; the normal
/// is carried for completeness but never read by the output stage.
#[derive(Clone, Copy)]
pub struct FaceVertexRef {
    /// 1-based index into the position pool.
    pub position_index: u32,
    /// 1-based index into the texture-coordinate pool, if present.
    pub texcoord_index: Option<u32>,
    /// 1-based index into the normal pool, if present.
    pub normal_index: Option<u32>,
}

/// How one face-vertex sub-token fails.
pub enum SubErr {
    /// The sub-token does not read as an unsigned integer.
    Malformed { token: Seq<u8> },
    /// The sub-token is a negative (relative) index.
    Relative,
}

/// Reads one present sub-token as an unsigned index: a negative literal is
/// a relative reference and out of range; anything else that is not an
/// unsigned integer is malformed.
pub open spec fn index_sub(sub: Seq<u8>) -> Result<u32, SubErr> {
    match u32_of_dec(sub) {
        Option::Some(v) => Result::Ok(v),
        Option::None => if is_negative_literal(sub) {
            Result::Err(SubErr::Relative)
        } else {
            Result::Err(SubErr::Malformed { token: sub })
        },
    }
}

/// Reads the optional sub-token at position `i`: absent sub-tokens (none
/// there, or nothing between consecutive slashes) give `None`.
pub open spec fn opt_index_sub(subs: Seq<Seq<u8>>, i: int) -> Result<Option<u32>, SubErr> {
    if i < subs.len() && subs[i].len() > 0 {
        match index_sub(subs[i]) {
            Result::Ok(v) => Result::Ok(Option::Some(v)),
            Result::Err(e) => Result::Err(e),
        }
    } else {
        Result::Ok(Option::None)
    }
}

/// Parses one face-vertex descriptor: its slash-separated sub-tokens are,
/// in fixed order, position, texture coordinate and normal; sub-tokens past
/// the third are ignored.
pub open spec fn parse_ref_model(d: Seq<u8>) -> Result<FaceVertexRef, SubErr> {
    let subs = split_slash(d);
    match index_sub(subs[0]) {
        Result::Err(e) => Result::Err(e),
        Result::Ok(p) => match opt_index_sub(subs, 1) {
            Result::Err(e) => Result::Err(e),
            Result::Ok(t) => match opt_index_sub(subs, 2) {
                Result::Err(e) => Result::Err(e),
                Result::Ok(n) => Result::Ok(
                    FaceVertexRef { position_index: p, texcoord_index: t, normal_index: n },
                ),
            },
        },
    }
}

/// Reads one present sub-token as an unsigned index; the executable twin of
/// [`index_sub`], with the surrounding line attached to the error.
fn parse_index_sub(sub: &[u8], line: &[u8]) -> (r: Result<u32, ObjError>)
    ensures
        match index_sub(sub@) {
            Result::Ok(v) => r matches Ok(w) && w == v,
            Result::Err(SubErr::Malformed { token }) => r matches Err(e) && e@
                == (ErrModel::MalformedIndex { line: line@, token }),
            Result::Err(SubErr::Relative) => r matches Err(e) && e@ == ErrModel::IndexOutOfRange,
        },
{
    match parse_u32_digits(sub) {
        Option::Some(v) => Ok(v),
        Option::None => {
            if check_negative_literal(sub) {
                Err(ObjError::IndexOutOfRange)
            } else {
                Err(
                    ObjError::MalformedIndex {
                        line: vstd::slice::slice_to_vec(line),
                        token: vstd::slice::slice_to_vec(sub),
                    },
                )
            }
        },
    }
}

/// Parses one face-vertex descriptor; the executable twin of
/// [`parse_ref_model`].
pub fn parse_face_ref(d: &[u8], line: &[u8]) -> (r: Result<FaceVertexRef, ObjError>)
    ensures
        match parse_ref_model(d@) {
            Result::Ok(fr) => r matches Ok(v) && v == fr,
            Result::Err(SubErr::Malformed { token }) => r matches Err(e) && e@
                == (ErrModel::MalformedIndex { line: line@, token }),
            Result::Err(SubErr::Relative) => r matches Err(e) && e@ == ErrModel::IndexOutOfRange,
        },
{
    let subs = split_slash_fields(d);
    let ghost subs_model = split_slash(d@);
    proof {
        assert(subs@.len() >= 1);
        assert(subs@[0]@ == subs_model[0]);
    }
    let p = match parse_index_sub(subs[0].as_slice(), line) {
        Ok(v) => v,
        Err(e) => {
            return Err(e);
        },
    };
    let mut t: Option<u32> = None;
    if subs.len() >= 2 && subs[1].len() > 0 {
        proof {
            assert(subs@[1]@ == subs_model[1]);
        }
        t = match parse_index_sub(subs[1].as_slice(), line) {
            Ok(v) => Some(v),
            Err(e) => {
                return Err(e);
            },
        };
    }
    let mut n: Option<u32> = None;
    if subs.len() >= 3 && subs[2].len() > 0 {
        proof {
            assert(subs@[2]@ == subs_model[2]);
        }
        n = match parse_index_sub(subs[2].as_slice(), line) {
            Ok(v) => Some(v),
            Err(e) => {
                return Err(e);
            },
        };
    }
    Ok(FaceVertexRef { position_index: p, texcoord_index: t, normal_index: n })
}

/// Which face-vertex reference the corner `c` of fan triangle `t` draws
/// from: corner 0 is always the face's first reference, the other two slide
/// over the remaining references.
pub open spec fn fan_corner(t: int, c: int) -> int {
    if c == 0 {
        0int
    } else {
        t + c
    }
}

/// The triangle fan of a face of `n >= 3` references: `n - 2` triangles,
/// flattened to `3 * (n - 2)` corner references in order.
pub open spec fn fan(face: Seq<FaceVertexRef>) -> Seq<FaceVertexRef>
    recommends
        face.len() >= 3,
{
    Seq::new((3 * (face.len() - 2)) as nat, |i: int| face[fan_corner(i / 3, i % 3)])
}

/// The `t`-th triangle of the fan, as its three corner references.
pub open spec fn fan_triangle(face: Seq<FaceVertexRef>, t: int) -> (
    FaceVertexRef,
    FaceVertexRef,
    FaceVertexRef,
)
    recommends
        face.len() >= 3,
        0 <= t < face.len() - 2,
{
    (fan(face)[3 * t], fan(face)[3 * t + 1], fan(face)[3 * t + 2])
}

/// Fan-triangulation law: a face of `n >= 3` references expands to exactly
/// `n - 2` triangles, and triangle `t` keeps the first reference fixed and
/// slides a window of two over the rest — its corners are references `0`,
/// `t + 1` and `t + 2` of the face, preserving the original winding.
pub proof fn lemma_fan_triangulation(face: Seq<FaceVertexRef>)
    requires
        face.len() >= 3,
    ensures
        fan(face).len() == 3 * (face.len() - 2),
        forall|t: int|
            0 <= t < face.len() - 2 ==> #[trigger] fan_triangle(face, t) == (
                face[0],
                face[t + 1],
                face[t + 2],
            ),
{
    assert forall|t: int| 0 <= t < face.len() - 2 implies #[trigger] fan_triangle(face, t) == (
        face[0],
        face[t + 1],
        face[t + 2],
    ) by {
        assert((3 * t) / 3 == t && (3 * t) % 3 == 0 && (3 * t + 1) / 3 == t && (3 * t + 1) % 3 == 1
            && (3 * t + 2) / 3 == t && (3 * t + 2) % 3 == 2) by (nonlinear_arith);
    }
}

/// Appends the fan expansion of `face` to `refs`, one triangle at a time.
pub fn triangulate(face: &Vec<FaceVertexRef>, refs: &mut Vec<FaceVertexRef>)
    requires
        face@.len() >= 3,
    ensures
        final(refs)@ == old(refs)@ + fan(face@),
{
    let n = face.len();
    let mut t: usize = 0;
    proof {
        assert(old(refs)@ + fan(face@).take(0) =~= old(refs)@);
    }
    while t < n - 2
        invariant
            0 <= t <= n - 2,
            n == face@.len(),
            n >= 3,
            refs@ == old(refs)@ + fan(face@).take(3 * t),
        decreases n - 2 - t,
    {
        let r0 = face[0];
        let r1 = face[t + 1];
        let r2 = face[t + 2];
        refs.push(r0);
        refs.push(r1);
        refs.push(r2);
        proof {
            let f = fan(face@);
            assert((3 * (t as int)) / 3 == t as int && (3 * (t as int)) % 3 == 0 && (3 * (t as int)
                + 1) / 3 == t as int && (3 * (t as int) + 1) % 3 == 1 && (3 * (t as int) + 2) / 3
                == t as int && (3 * (t as int) + 2) % 3 == 2) by (nonlinear_arith);
            let i0 = 3 * t as int;
            assert(f[i0] == face@[0]);
            assert(f[i0 + 1] == face@[t + 1]);
            assert(f[i0 + 2] == face@[t + 2]);
            assert(f.take(3 * (t + 1) as int) =~= f.take(i0) + seq![f[i0], f[i0 + 1], f[i0 + 2]]);
        }
        t = t + 1;
    }
    proof {
        assert(fan(face@).take(3 * (n - 2) as int) =~= fan(face@));
    }
}

/// Parses a run of face-vertex descriptors left to right, stopping at the
/// first failing sub-token.
pub open spec fn parse_face_refs(descs: Seq<Seq<u8>>, line: Seq<u8>) -> Result<
    Seq<FaceVertexRef>,
    ErrModel,
>
    decreases descs.len(),
{
    if descs.len() == 0 {
        Result::Ok(Seq::empty())
    } else {
        match parse_ref_model(descs[0]) {
            Result::Ok(fr) => match parse_face_refs(descs.skip(1), line) {
                Result::Ok(rest) => Result::Ok(seq![fr] + rest),
                Result::Err(e) => Result::Err(e),
            },
            Result::Err(SubErr::Malformed { token }) => Result::Err(
                ErrModel::MalformedIndex { line, token },
            ),
            Result::Err(SubErr::Relative) => Result::Err(ErrModel::IndexOutOfRange),
        }
    }
}

/// `r` with the already-parsed references `pre` in front of its payload.
pub open spec fn with_prefix(pre: Seq<FaceVertexRef>, r: Result<Seq<FaceVertexRef>, ErrModel>) -> Result<
    Seq<FaceVertexRef>,
    ErrModel,
> {
    match r {
        Result::Ok(rest) => Result::Ok(pre + rest),
        Result::Err(e) => Result::Err(e),
    }
}

/// What a face line contributes to the flat run of triangle corners: its
/// descriptors parsed in order, a face of fewer than three references
/// rejected as degenerate, and the face expanded as a triangle fan.
pub open spec fn face_line_refs(l: Seq<u8>) -> Result<Seq<FaceVertexRef>, ErrModel> {
    match parse_face_refs(rest_tokens(l), l) {
        Result::Ok(face) => if face.len() < 3 {
            Result::Err(ErrModel::DegenerateFace { line: l })
        } else {
            Result::Ok(fan(face))
        },
        Result::Err(e) => Result::Err(e),
    }
}

/// Parses one face line and appends its fan-expanded triangle corners to
/// `refs`; on any failure `refs` is left unchanged.
pub fn parse_face_line(refs: &mut Vec<FaceVertexRef>, line: &[u8]) -> (r: Result<(), ObjError>)
    ensures
        match face_line_refs(line@) {
            Result::Ok(rs) => r is Ok && final(refs)@ == old(refs)@ + rs,
            Result::Err(e) => (r matches Err(err) && err@ == e) && final(refs)@ == old(refs)@,
        },
{
    let toks = tokenize(line);
    let ghost descs = rest_tokens(line@);
    let mut face: Vec<FaceVertexRef> = Vec::new();
    let mut i: usize = 1;
    proof {
        assert(descs.skip(0) =~= descs);
        match parse_face_refs(descs, line@) {
            Result::Ok(rest) => {
                assert(Seq::<FaceVertexRef>::empty() + rest =~= rest);
            },
            Result::Err(_) => {},
        }
    }
    while i < toks.len()
        invariant
            1 <= i,
            toks@.len() == 0 ==> i == 1,
            toks@.len() > 0 ==> i <= toks@.len(),
            views_of(toks@) == split_tokens(line@),
            descs == rest_tokens(line@),
            parse_face_refs(descs, line@) == with_prefix(
                face@,
                parse_face_refs(descs.skip(i - 1), line@),
            ),
        decreases toks@.len() - i,
    {
        let ghost tail = descs.skip(i - 1);
        proof {
            assert(tail[0] == descs[i - 1]);
            assert(descs[i - 1] == toks@[i as int]@);
            assert(tail.skip(1) =~= descs.skip(i as int));
        }
        match parse_face_ref(toks[i].as_slice(), line) {
            Ok(fr) => {
                proof {
                    match parse_face_refs(descs.skip(i as int), line@) {
                        Result::Ok(r2) => {
                            assert(face@ + (seq![fr] + r2) =~= face@.push(fr) + r2);
                        },
                        Result::Err(_) => {},
                    }
                }
                face.push(fr);
            },
            Err(e) => {
                return Err(e);
            },
        }
        i = i + 1;
    }
    proof {
        assert(descs.skip(i - 1) =~= Seq::<Seq<u8>>::empty());
        assert(face@ + Seq::<FaceVertexRef>::empty() =~= face@);
    }
    if face.len() < 3 {
        return Err(ObjError::DegenerateFace { line: vstd::slice::slice_to_vec(line) });
    }
    triangulate(&face, refs);
    Ok(())
}

} // verus!
