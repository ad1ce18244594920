//! The parse session: classify each line, feed attribute lines into the
//! pools and face lines into the flat run of triangle corners, then
//! normalize indices, settle the texture-coordinate question, and hand the
//! corners to the deduplication pass.

use vstd::prelude::*;

use crate::attr::attr_values;
use crate::attr::parse_obj_line;
use crate::dedup::dedup_pass;
use crate::dedup::dedup_run;
use crate::dedup::empty_acc;
use crate::dedup::MeshBuffers;
use crate::error::ErrModel;
use crate::error::ObjError;
use crate::face::face_line_refs;
use crate::face::parse_face_line;
use crate::face::FaceVertexRef;
use crate::lex::split_into_lines;
use crate::lex::split_lines;
use crate::lex::views_of;

verus! {

/// What the two-byte prefix of a line says it is. A `vp` (free-form
/// geometry) line and every unrecognized or short line are skipped.
#[derive(Clone, Copy)]
pub enum LineKind {
    /// A `v ` line: a position tuple.
    Position,
    /// A `vt` line: a texture-coordinate tuple.
    Texcoord,
    /// A `vn` line: a normal tuple.
    Normal,
    /// An `f ` line: a polygon face.
    Face,
    /// Anything else: ignored.
    Skipped,
}

/// Classifies a line by its leading two bytes; shorter lines are skipped.
/// No line is reinterpreted once classified.
pub open spec fn classify(l: Seq<u8>) -> LineKind {
    if l.len() < 2 {
        LineKind::Skipped
    } else if l[0] == 118 && l[1] == 32 {
        LineKind::Position
    } else if l[0] == 118 && l[1] == 116 {
        LineKind::Texcoord
    } else if l[0] == 118 && l[1] == 110 {
        LineKind::Normal
    } else if l[0] == 102 && l[1] == 32 {
        LineKind::Face
    } else {
        LineKind::Skipped
    }
}

/// Classifies a line; the executable twin of [`classify`].
pub fn classify_line(line: &[u8]) -> (k: LineKind)
    ensures
        k == classify(line@),
{
    if line.len() < 2 {
        LineKind::Skipped
    } else if line[0] == 118 && line[1] == 32 {
        LineKind::Position
    } else if line[0] == 118 && line[1] == 116 {
        LineKind::Texcoord
    } else if line[0] == 118 && line[1] == 110 {
        LineKind::Normal
    } else if line[0] == 102 && line[1] == 32 {
        LineKind::Face
    } else {
        LineKind::Skipped
    }
}

/// The state of a parse session after some lines: the three attribute
/// pools, each a sequence of scalar tokens, and the flat run of
/// fan-expanded triangle corners with their 1-based file indices.
pub struct ParseState {
    /// The position pool, three tokens per `v` line entry.
    pub v: Seq<Seq<u8>>,
    /// The texture-coordinate pool, two tokens per `vt` line entry.
    pub vt: Seq<Seq<u8>>,
    /// The normal pool; filled and validated, but never read by the output
    /// stage.
    pub vn: Seq<Seq<u8>>,
    /// Triangle corners in file order, three per triangle.
    pub refs: Seq<FaceVertexRef>,
}

/// The state before any line is read.
pub open spec fn init_state() -> ParseState {
    ParseState { v: Seq::empty(), vt: Seq::empty(), vn: Seq::empty(), refs: Seq::empty() }
}

/// Consumes one classified line: attribute lines extend their pool, face
/// lines extend the corner run, skipped lines change nothing.
pub open spec fn line_step(st: ParseState, l: Seq<u8>) -> Result<ParseState, ErrModel> {
    match classify(l) {
        LineKind::Skipped => Result::Ok(st),
        LineKind::Position => {
            let p = attr_values(l);
            match p.bad {
                Option::Some(token) => Result::Err(ErrModel::MalformedNumber { line: l, token }),
                Option::None => Result::Ok(ParseState { v: st.v + p.ok, ..st }),
            }
        },
        LineKind::Texcoord => {
            let p = attr_values(l);
            match p.bad {
                Option::Some(token) => Result::Err(ErrModel::MalformedNumber { line: l, token }),
                Option::None => Result::Ok(ParseState { vt: st.vt + p.ok, ..st }),
            }
        },
        LineKind::Normal => {
            let p = attr_values(l);
            match p.bad {
                Option::Some(token) => Result::Err(ErrModel::MalformedNumber { line: l, token }),
                Option::None => Result::Ok(ParseState { vn: st.vn + p.ok, ..st }),
            }
        },
        LineKind::Face => match face_line_refs(l) {
            Result::Ok(rs) => Result::Ok(ParseState { refs: st.refs + rs, ..st }),
            Result::Err(e) => Result::Err(e),
        },
    }
}

/// Consumes the lines left to right from state `st`, stopping at the first
/// failing line.
pub open spec fn parse_lines(lines: Seq<Seq<u8>>, st: ParseState) -> Result<ParseState, ErrModel>
    decreases lines.len(),
{
    if lines.len() == 0 {
        Result::Ok(st)
    } else {
        match line_step(st, lines[0]) {
            Result::Err(e) => Result::Err(e),
            Result::Ok(st2) => parse_lines(lines.skip(1), st2),
        }
    }
}

/// Whether some corner carries a zero file index: file indices are 1-based,
/// so zero (like a negative index) is out of range.
pub open spec fn has_zero_index(refs: Seq<FaceVertexRef>) -> bool {
    exists|m: int|
        0 <= m < refs.len() && {
            let r = #[trigger] refs[m];
            r.position_index == 0 || r.texcoord_index == Option::Some(0u32) || r.normal_index
                == Option::Some(0u32)
        }
}

/// Whether no corner carries a texture-coordinate index.
pub open spec fn all_tex_absent(refs: Seq<FaceVertexRef>) -> bool {
    forall|m: int| 0 <= m < refs.len() ==> (#[trigger] refs[m]).texcoord_index is None
}

/// Whether every corner carries a texture-coordinate index.
pub open spec fn all_tex_present(refs: Seq<FaceVertexRef>) -> bool {
    forall|m: int| 0 <= m < refs.len() ==> (#[trigger] refs[m]).texcoord_index is Some
}

/// The token `0`, the scalar of the synthesized texture-coordinate entry.
pub open spec fn zero_token() -> Seq<u8> {
    seq![48u8]
}

/// Converts a 1-based file index to a 0-based pool index.
pub open spec fn sub1(x: u32) -> u32
    recommends
        x >= 1,
{
    (x - 1) as u32
}

/// The corners normalized to 0-based indices, every texture-coordinate
/// index replaced by the synthesized entry 0.
pub open spec fn occs_absent(refs: Seq<FaceVertexRef>) -> Seq<(u32, u32)> {
    refs.map_values(|r: FaceVertexRef| (sub1(r.position_index), 0u32))
}

/// The corners normalized to 0-based indices, texture-coordinate indices
/// taken from the file.
pub open spec fn occs_present(refs: Seq<FaceVertexRef>) -> Seq<(u32, u32)> {
    refs.map_values(
        |r: FaceVertexRef| (sub1(r.position_index), sub1(r.texcoord_index.unwrap())),
    )
}

/// After all lines are consumed: reject zero (relative) indices, settle the
/// texture-coordinate question for the whole file — no corner has one:
/// synthesize a single zero entry; all have one: use them; anything mixed
/// is inconsistent — and run the deduplication pass.
pub open spec fn finalize(st: ParseState) -> Result<(Seq<Seq<u8>>, Seq<u32>), ErrModel> {
    if has_zero_index(st.refs) {
        Result::Err(ErrModel::IndexOutOfRange)
    } else if all_tex_absent(st.refs) {
        match dedup_run(occs_absent(st.refs), st.v, seq![zero_token(), zero_token()], empty_acc()) {
            Result::Ok(acc) => Result::Ok((acc.verts, acc.inds)),
            Result::Err(e) => Result::Err(e),
        }
    } else if all_tex_present(st.refs) {
        match dedup_run(occs_present(st.refs), st.v, st.vt, empty_acc()) {
            Result::Ok(acc) => Result::Ok((acc.verts, acc.inds)),
            Result::Err(e) => Result::Err(e),
        }
    } else {
        Result::Err(ErrModel::InconsistentTexcoords)
    }
}

/// What the whole loader computes from the raw text: the parse fold over
/// the lines, then the finishing stages.
pub open spec fn obj_model(text: Seq<u8>) -> Result<(Seq<Seq<u8>>, Seq<u32>), ErrModel> {
    match parse_lines(split_lines(text), init_state()) {
        Result::Err(e) => Result::Err(e),
        Result::Ok(st) => finalize(st),
    }
}

/// Each face line contributes whole triangles, so a successful parse keeps
/// the corner count a multiple of three.
pub proof fn lemma_parse_lines_mod3(lines: Seq<Seq<u8>>, st: ParseState)
    requires
        parse_lines(lines, st) is Ok,
        st.refs.len() % 3 == 0,
    ensures
        (parse_lines(lines, st)->Ok_0).refs.len() % 3 == 0,
    decreases lines.len(),
{
    if lines.len() > 0 {
        let st2 = line_step(st, lines[0])->Ok_0;
        match classify(lines[0]) {
            LineKind::Face => {
                match crate::face::parse_face_refs(
                    crate::lex::rest_tokens(lines[0]),
                    lines[0],
                ) {
                    Result::Ok(face) => {
                        assert(st2.refs.len() == st.refs.len() + 3 * (face.len() - 2));
                        assert((st.refs.len() + 3 * (face.len() - 2)) % 3 == 0)
                            by (nonlinear_arith)
                            requires
                                st.refs.len() % 3 == 0,
                                face.len() >= 3,
                        ;
                    },
                    Result::Err(_) => {},
                }
            },
            _ => {},
        }
        lemma_parse_lines_mod3(lines.skip(1), st2);
    }
}

/// Dummy texture-coordinate law: when no corner of the file carries a
/// texture-coordinate index, a successful finish gives every output vertex
/// the synthesized coordinates — its fourth and fifth scalars are both the
/// token `0`.
pub proof fn lemma_dummy_uv(st: ParseState)
    requires
        all_tex_absent(st.refs),
        finalize(st) is Ok,
    ensures
        ({
            let out = finalize(st)->Ok_0;
            crate::dedup::uv_const(out.0, zero_token(), zero_token())
        }),
{
    let occs = occs_absent(st.refs);
    let vt2 = seq![zero_token(), zero_token()];
    assert forall|m: int| 0 <= m < occs.len() implies (#[trigger] occs[m]).1 == 0 by {
        assert(occs[m] == (sub1(st.refs[m].position_index), 0u32));
    }
    crate::dedup::lemma_empty_acc_wf();
    crate::dedup::lemma_dedup_uv_const(occs, st.v, vt2, empty_acc());
}

/// Output-buffer invariants: a successful parse yields a vertex buffer of
/// whole five-scalar entries, an index buffer whose length is a multiple of
/// three, and every index names a vertex entry within bounds.
pub proof fn lemma_output_invariants(text: Seq<u8>)
    requires
        obj_model(text) is Ok,
    ensures
        ({
            let out = obj_model(text)->Ok_0;
            &&& out.0.len() % 5 == 0
            &&& out.1.len() % 3 == 0
            &&& forall|j: int|
                0 <= j < out.1.len() ==> ((#[trigger] out.1[j]) as int) < out.0.len() / 5
        }),
{
    let lines = split_lines(text);
    let st = parse_lines(lines, init_state())->Ok_0;
    lemma_parse_lines_mod3(lines, init_state());
    crate::dedup::lemma_empty_acc_wf();
    if !has_zero_index(st.refs) {
        if all_tex_absent(st.refs) {
            let occs = occs_absent(st.refs);
            crate::dedup::lemma_dedup_run_props(
                occs,
                st.v,
                seq![zero_token(), zero_token()],
                empty_acc(),
            );
            assert(occs.len() == st.refs.len());
        } else if all_tex_present(st.refs) {
            let occs = occs_present(st.refs);
            crate::dedup::lemma_dedup_run_props(occs, st.v, st.vt, empty_acc());
            assert(occs.len() == st.refs.len());
        }
    }
}

/// Turns the raw text of a mesh description into GPU-ready buffers. The
/// result — success or structured failure — is exactly [`obj_model`] of the
/// text; in particular two parses of the same text yield identical buffers,
/// and no partial buffers are ever returned on failure. A successful result
/// holds whole five-scalar vertex entries and whole triangles, every index
/// within bounds.
pub fn file2obj(text: &[u8]) -> (r: Result<MeshBuffers, ObjError>)
    ensures
        match r {
            Ok(m) => obj_model(text@) == Result::<(Seq<Seq<u8>>, Seq<u32>), ErrModel>::Ok(
                (views_of(m.vertices@), m.indices@),
            ),
            Err(e) => obj_model(text@) == Result::<(Seq<Seq<u8>>, Seq<u32>), ErrModel>::Err(e@),
        },
        r matches Ok(m) ==> m.vertices@.len() % 5 == 0 && m.indices@.len() % 3 == 0 && forall|
            j: int,
        |
            0 <= j < m.indices@.len() ==> ((#[trigger] m.indices@[j]) as int) < m.vertices@.len()
                / 5,
{
    let lines = split_into_lines(text);
    let ghost lines_model = split_lines(text@);
    let mut v: Vec<Vec<u8>> = Vec::new();
    let mut vt: Vec<Vec<u8>> = Vec::new();
    let mut vn: Vec<Vec<u8>> = Vec::new();
    let mut refs: Vec<FaceVertexRef> = Vec::new();
    let mut li: usize = 0;
    proof {
        assert(lines_model.skip(0) =~= lines_model);
        assert(views_of(v@) =~= Seq::<Seq<u8>>::empty());
        assert(views_of(vt@) =~= Seq::<Seq<u8>>::empty());
        assert(views_of(vn@) =~= Seq::<Seq<u8>>::empty());
    }
    while li < lines.len()
        invariant
            0 <= li <= lines@.len(),
            views_of(lines@) == lines_model,
            lines_model == split_lines(text@),
            parse_lines(lines_model, init_state()) == parse_lines(
                lines_model.skip(li as int),
                ParseState { v: views_of(v@), vt: views_of(vt@), vn: views_of(vn@), refs: refs@ },
            ),
        decreases lines@.len() - li,
    {
        let ghost tail = lines_model.skip(li as int);
        let ghost st_now = ParseState {
            v: views_of(v@),
            vt: views_of(vt@),
            vn: views_of(vn@),
            refs: refs@,
        };
        proof {
            assert(tail[0] == lines_model[li as int]);
            assert(lines_model[li as int] == lines@[li as int]@);
            assert(tail.skip(1) =~= lines_model.skip(li + 1));
        }
        let line = lines[li].as_slice();
        match classify_line(line) {
            LineKind::Skipped => {},
            LineKind::Position => {
                match parse_obj_line(&mut v, line) {
                    Ok(()) => {},
                    Err(e) => {
                        return Err(e);
                    },
                }
            },
            LineKind::Texcoord => {
                match parse_obj_line(&mut vt, line) {
                    Ok(()) => {},
                    Err(e) => {
                        return Err(e);
                    },
                }
            },
            LineKind::Normal => {
                match parse_obj_line(&mut vn, line) {
                    Ok(()) => {},
                    Err(e) => {
                        return Err(e);
                    },
                }
            },
            LineKind::Face => {
                match parse_face_line(&mut refs, line) {
                    Ok(()) => {},
                    Err(e) => {
                        return Err(e);
                    },
                }
            },
        }
        li = li + 1;
    }
    proof {
        assert(lines_model.skip(li as int) =~= Seq::<Seq<u8>>::empty());
    }
    let r = finish(v, vt, vn, refs);
    proof {
        if r is Ok {
            lemma_output_invariants(text@);
        }
    }
    r
}

/// The finishing stages, from the completed parse state to the buffers;
/// the executable twin of [`finalize`].
fn finish(v: Vec<Vec<u8>>, vt: Vec<Vec<u8>>, vn: Vec<Vec<u8>>, refs: Vec<FaceVertexRef>) -> (r:
    Result<MeshBuffers, ObjError>)
    ensures
        ({
            let st = ParseState {
                v: views_of(v@),
                vt: views_of(vt@),
                vn: views_of(vn@),
                refs: refs@,
            };
            match r {
                Ok(m) => finalize(st) == Result::<(Seq<Seq<u8>>, Seq<u32>), ErrModel>::Ok(
                    (views_of(m.vertices@), m.indices@),
                ),
                Err(e) => finalize(st) == Result::<(Seq<Seq<u8>>, Seq<u32>), ErrModel>::Err(e@),
            }
        }),
{
    let ghost st = ParseState { v: views_of(v@), vt: views_of(vt@), vn: views_of(vn@), refs: refs@ };
    let mut m: usize = 0;
    let mut saw_some = false;
    let mut saw_none = false;
    while m < refs.len()
        invariant
            0 <= m <= refs@.len(),
            forall|j: int|
                0 <= j < m ==> {
                    let rr = #[trigger] refs@[j];
                    rr.position_index != 0 && rr.texcoord_index != Option::Some(0u32)
                        && rr.normal_index != Option::Some(0u32)
                },
            saw_some == exists|j: int|
                0 <= j < m && (#[trigger] refs@[j]).texcoord_index is Some,
            saw_none == exists|j: int|
                0 <= j < m && (#[trigger] refs@[j]).texcoord_index is None,
        decreases refs@.len() - m,
    {
        let rr = refs[m];
        if rr.position_index == 0 {
            return Err(ObjError::IndexOutOfRange);
        }
        match rr.texcoord_index {
            Some(x) => {
                if x == 0 {
                    return Err(ObjError::IndexOutOfRange);
                }
                saw_some = true;
            },
            None => {
                saw_none = true;
            },
        }
        match rr.normal_index {
            Some(x) => {
                if x == 0 {
                    return Err(ObjError::IndexOutOfRange);
                }
            },
            None => {},
        }
        m = m + 1;
    }
    assert(!has_zero_index(refs@));
    if !saw_some {
        assert(all_tex_absent(refs@));
        let mut vt2: Vec<Vec<u8>> = Vec::new();
        let mut z: Vec<u8> = Vec::new();
        z.push(48);
        let z2 = vstd::slice::slice_to_vec(z.as_slice());
        proof {
            assert(z@ =~= zero_token());
        }
        vt2.push(z);
        vt2.push(z2);
        proof {
            assert(views_of(vt2@) =~= seq![zero_token(), zero_token()]);
        }
        let occs = collect_occs_absent(&refs);
        dedup_pass(&occs, &v, &vt2)
    } else if saw_none {
        assert(!all_tex_absent(refs@));
        assert(!all_tex_present(refs@));
        Err(ObjError::InconsistentTexcoords)
    } else {
        assert(all_tex_present(refs@));
        assert(!all_tex_absent(refs@) || refs@.len() == 0);
        let occs = collect_occs_present(&refs);
        dedup_pass(&occs, &v, &vt)
    }
}

/// Normalizes the corners to 0-based indices with the synthesized
/// texture-coordinate entry; the executable twin of [`occs_absent`].
fn collect_occs_absent(refs: &Vec<FaceVertexRef>) -> (occs: Vec<(u32, u32)>)
    requires
        !has_zero_index(refs@),
    ensures
        occs@ == occs_absent(refs@),
{
    let mut occs: Vec<(u32, u32)> = Vec::new();
    let mut m: usize = 0;
    proof {
        assert(occs@ =~= occs_absent(refs@).take(0));
    }
    while m < refs.len()
        invariant
            0 <= m <= refs@.len(),
            !has_zero_index(refs@),
            occs@ == occs_absent(refs@).take(m as int),
        decreases refs@.len() - m,
    {
        let rr = refs[m];
        assert(rr.position_index != 0);
        occs.push(((rr.position_index - 1), 0u32));
        proof {
            assert(occs_absent(refs@).take(m + 1) =~= occs_absent(refs@).take(m as int).push(
                (sub1(refs@[m as int].position_index), 0u32),
            ));
        }
        m = m + 1;
    }
    proof {
        assert(occs_absent(refs@).take(refs@.len() as int) =~= occs_absent(refs@));
    }
    occs
}

/// Normalizes the corners to 0-based indices with their own
/// texture-coordinate indices; the executable twin of [`occs_present`].
fn collect_occs_present(refs: &Vec<FaceVertexRef>) -> (occs: Vec<(u32, u32)>)
    requires
        !has_zero_index(refs@),
        all_tex_present(refs@),
    ensures
        occs@ == occs_present(refs@),
{
    let mut occs: Vec<(u32, u32)> = Vec::new();
    let mut m: usize = 0;
    proof {
        assert(occs@ =~= occs_present(refs@).take(0));
    }
    while m < refs.len()
        invariant
            0 <= m <= refs@.len(),
            !has_zero_index(refs@),
            all_tex_present(refs@),
            occs@ == occs_present(refs@).take(m as int),
        decreases refs@.len() - m,
    {
        let rr = refs[m];
        assert(rr.position_index != 0);
        assert(rr.texcoord_index is Some && rr.texcoord_index != Option::Some(0u32));
        let tx = match rr.texcoord_index {
            Some(x) => x,
            None => 1,
        };
        occs.push(((rr.position_index - 1), (tx - 1)));
        proof {
            assert(occs_present(refs@).take(m + 1) =~= occs_present(refs@).take(m as int).push(
                (sub1(refs@[m as int].position_index), sub1(refs@[m as int].texcoord_index.unwrap())),
            ));
        }
        m = m + 1;
    }
    proof {
        assert(occs_present(refs@).take(refs@.len() as int) =~= occs_present(refs@));
    }
    occs
}

} // verus!
