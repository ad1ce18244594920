//! Vertex deduplication and index remapping: every triangle corner is a
//! (position-index, texture-coordinate-index) pair, each distinct pair gets
//! exactly one slot in the interleaved output vertex buffer — in the order
//! pairs are first seen — and every corner is rewritten into an index into
//! that buffer.

use vstd::prelude::*;

use std::collections::HashMap;

use crate::error::ErrModel;
use crate::error::ObjError;
use crate::lex::views_of;

verus! {

/// A GPU-ready mesh: an interleaved vertex buffer of five scalar tokens per
/// vertex — three position coordinates, then two texture coordinates — and
/// a triangle-list index buffer, three indices per triangle. Each scalar is
/// carried as its numeric source token; a consumer turns the tokens into
/// machine floats when uploading.
pub struct MeshBuffers {
    /// The interleaved vertex scalars, five tokens per output vertex.
    pub vertices: Vec<Vec<u8>>,
    /// Indices into the vertex buffer, counted in vertices (not scalars).
    pub indices: Vec<u32>,
}

/// The dedup key of one corner: its 0-based position and texture-coordinate
/// indices packed into one word.
pub open spec fn pack_key(p: u32, t: u32) -> u64 {
    ((p as u64) << 32) | (t as u64)
}

/// Packing is injective: equal keys mean equal index pairs.
pub proof fn lemma_pack_injective(p1: u32, t1: u32, p2: u32, t2: u32)
    requires
        pack_key(p1, t1) == pack_key(p2, t2),
    ensures
        p1 == p2 && t1 == t2,
{
    assert((((p1 as u64) << 32) | (t1 as u64)) == (((p2 as u64) << 32) | (t2 as u64)) ==> p1 == p2
        && t1 == t2) by (bit_vector);
}

/// The running state of the deduplication pass: the vertex buffer built so
/// far, the index buffer built so far, and the slot assigned to each dedup
/// key already discovered.
pub struct DedupAcc {
    /// Interleaved vertex scalars, five per slot.
    pub verts: Seq<Seq<u8>>,
    /// Resolved output indices, one per corner processed.
    pub inds: Seq<u32>,
    /// The output slot of each discovered dedup key.
    pub slot_of: Map<u64, u32>,
}

/// The state before any corner is processed.
pub open spec fn empty_acc() -> DedupAcc {
    DedupAcc { verts: Seq::empty(), inds: Seq::empty(), slot_of: Map::empty() }
}

/// Processes one corner `occ` (0-based position and texture-coordinate
/// indices): a known key reuses its slot; a new key checks the pool bounds,
/// appends the corner's five scalars, and takes the next sequential slot.
pub open spec fn dedup_step(
    acc: DedupAcc,
    occ: (u32, u32),
    v: Seq<Seq<u8>>,
    vt: Seq<Seq<u8>>,
) -> Result<DedupAcc, ErrModel> {
    let key = pack_key(occ.0, occ.1);
    if acc.slot_of.contains_key(key) {
        Result::Ok(
            DedupAcc {
                verts: acc.verts,
                inds: acc.inds.push(acc.slot_of[key]),
                slot_of: acc.slot_of,
            },
        )
    } else if 3 * (occ.0 as int) + 3 > v.len() || 2 * (occ.1 as int) + 2 > vt.len() {
        Result::Err(ErrModel::IndexOutOfRange)
    } else if acc.verts.len() / 5 > 0xFFFF_FFFF {
        Result::Err(ErrModel::IndexOutOfRange)
    } else {
        let slot = (acc.verts.len() / 5) as u32;
        Result::Ok(
            DedupAcc {
                verts: acc.verts + v.subrange(3 * (occ.0 as int), 3 * (occ.0 as int) + 3)
                    + vt.subrange(2 * (occ.1 as int), 2 * (occ.1 as int) + 2),
                inds: acc.inds.push(slot),
                slot_of: acc.slot_of.insert(key, slot),
            },
        )
    }
}

/// Runs the deduplication pass over the corners `occs`, left to right,
/// starting from `acc`.
pub open spec fn dedup_run(
    occs: Seq<(u32, u32)>,
    v: Seq<Seq<u8>>,
    vt: Seq<Seq<u8>>,
    acc: DedupAcc,
) -> Result<DedupAcc, ErrModel>
    decreases occs.len(),
{
    if occs.len() == 0 {
        Result::Ok(acc)
    } else {
        match dedup_step(acc, occs[0], v, vt) {
            Result::Err(e) => Result::Err(e),
            Result::Ok(a2) => dedup_run(occs.skip(1), v, vt, a2),
        }
    }
}

/// Well-formedness of a deduplication state: the vertex buffer holds whole
/// five-scalar entries, one per discovered key, every assigned slot and
/// every resolved index names one of them, and distinct keys hold distinct
/// slots.
pub open spec fn acc_wf(acc: DedupAcc) -> bool {
    &&& acc.verts.len() % 5 == 0
    &&& acc.slot_of.dom().finite()
    &&& acc.verts.len() == 5 * acc.slot_of.dom().len()
    &&& forall|k: u64|
        #[trigger] acc.slot_of.contains_key(k) ==> (acc.slot_of[k] as int) < acc.verts.len() / 5
    &&& forall|j: int|
        0 <= j < acc.inds.len() ==> ((#[trigger] acc.inds[j]) as int) < acc.verts.len() / 5
    &&& forall|k1: u64, k2: u64|
        acc.slot_of.contains_key(k1) && acc.slot_of.contains_key(k2) && k1 != k2
            ==> #[trigger] acc.slot_of[k1] != #[trigger] acc.slot_of[k2]
}

/// Whether some corner among `occs` packs to the key `k`.
pub open spec fn occs_have_key(occs: Seq<(u32, u32)>, k: u64) -> bool {
    exists|m: int| 0 <= m < occs.len() && pack_key((#[trigger] occs[m]).0, occs[m].1) == k
}

/// The inductive heart of the deduplication laws: a successful run
/// preserves well-formedness, resolves exactly one index per corner, only
/// ever adds slot assignments — discovering exactly the corners' keys —
/// and resolves every corner to the slot of its own key.
#[verifier::rlimit(50)]
pub proof fn lemma_dedup_run_props(
    occs: Seq<(u32, u32)>,
    v: Seq<Seq<u8>>,
    vt: Seq<Seq<u8>>,
    acc: DedupAcc,
)
    requires
        acc_wf(acc),
        dedup_run(occs, v, vt, acc) is Ok,
    ensures
        ({
            let fin = dedup_run(occs, v, vt, acc)->Ok_0;
            &&& acc_wf(fin)
            &&& fin.inds.len() == acc.inds.len() + occs.len()
            &&& fin.inds.take(acc.inds.len() as int) == acc.inds
            &&& fin.verts.len() >= acc.verts.len()
            &&& fin.verts.take(acc.verts.len() as int) == acc.verts
            &&& forall|k: u64|
                #[trigger] acc.slot_of.contains_key(k) ==> fin.slot_of.contains_key(k)
                    && fin.slot_of[k] == acc.slot_of[k]
            &&& forall|k: u64|
                #[trigger] fin.slot_of.contains_key(k) ==> acc.slot_of.contains_key(k)
                    || occs_have_key(occs, k)
            &&& forall|m: int|
                0 <= m < occs.len() ==> {
                    let k = pack_key((#[trigger] occs[m]).0, occs[m].1);
                    fin.slot_of.contains_key(k) && fin.inds[acc.inds.len() + m] == fin.slot_of[k]
                }
        }),
    decreases occs.len(),
{
    let fin = dedup_run(occs, v, vt, acc)->Ok_0;
    if occs.len() == 0 {
        assert(fin.inds.take(acc.inds.len() as int) =~= acc.inds);
        assert(fin.verts.take(acc.verts.len() as int) =~= acc.verts);
    } else {
        let occ0 = occs[0];
        let k0 = pack_key(occ0.0, occ0.1);
        let a2 = dedup_step(acc, occ0, v, vt)->Ok_0;
        // One step keeps the state well formed.
        if acc.slot_of.contains_key(k0) {
            assert(acc_wf(a2));
        } else {
            assert(a2.verts.len() == acc.verts.len() + 5);
            assert(a2.slot_of.dom() =~= acc.slot_of.dom().insert(k0));
            assert(a2.slot_of.dom().len() == acc.slot_of.dom().len() + 1);
            assert((acc.verts.len() + 5) / 5 == acc.verts.len() / 5 + 1) by (nonlinear_arith)
                requires
                    acc.verts.len() % 5 == 0,
            ;
            assert(acc_wf(a2));
        }
        assert(a2.slot_of.contains_key(k0));
        assert(a2.inds == acc.inds.push(a2.slot_of[k0]));
        lemma_dedup_run_props(occs.skip(1), v, vt, a2);
        assert(occs.skip(1).len() == occs.len() - 1);
        // Prefixes survive: what `acc` had already built is untouched.
        assert(fin.inds.take(acc.inds.len() as int) =~= fin.inds.take(
            a2.inds.len() as int,
        ).take(acc.inds.len() as int));
        assert(fin.inds.take(acc.inds.len() as int) =~= acc.inds);
        assert(fin.verts.take(acc.verts.len() as int) =~= fin.verts.take(
            a2.verts.len() as int,
        ).take(acc.verts.len() as int));
        assert(fin.verts.take(acc.verts.len() as int) =~= acc.verts);
        // Old slot assignments survive the step and, by induction, the run.
        assert forall|k: u64| #[trigger] acc.slot_of.contains_key(k) implies
            fin.slot_of.contains_key(k) && fin.slot_of[k] == acc.slot_of[k] by {
            assert(a2.slot_of.contains_key(k));
            assert(a2.slot_of[k] == acc.slot_of[k]);
        }
        // Every discovered key is an old key or some corner's key.
        assert forall|k: u64| #[trigger] fin.slot_of.contains_key(k) implies
            acc.slot_of.contains_key(k) || occs_have_key(occs, k) by {
            if !acc.slot_of.contains_key(k) {
                if a2.slot_of.contains_key(k) {
                    assert(k == k0);
                    assert(pack_key(occs[0].0, occs[0].1) == k);
                } else {
                    assert(occs_have_key(occs.skip(1), k));
                    let m = choose|m: int|
                        0 <= m < occs.skip(1).len() && pack_key(
                            (#[trigger] occs.skip(1)[m]).0,
                            occs.skip(1)[m].1,
                        ) == k;
                    assert(occs.skip(1)[m] == occs[m + 1]);
                    assert(pack_key((occs[m + 1]).0, occs[m + 1].1) == k);
                }
            }
        }
        // Every corner resolves to the slot of its own key.
        assert forall|m: int| 0 <= m < occs.len() implies {
            let k = pack_key((#[trigger] occs[m]).0, occs[m].1);
            fin.slot_of.contains_key(k) && fin.inds[acc.inds.len() + m] == fin.slot_of[k]
        } by {
            if m == 0 {
                assert(fin.slot_of.contains_key(k0) && fin.slot_of[k0] == a2.slot_of[k0]);
                assert(acc.inds.len() < a2.inds.len());
                assert(fin.inds.take(a2.inds.len() as int)[acc.inds.len() as int] == a2.inds[acc.inds.len() as int]);
                assert(fin.inds[acc.inds.len() as int] == a2.slot_of[k0]);
            } else {
                assert(occs.skip(1)[m - 1] == occs[m]);
                let k = pack_key(occs[m].0, occs[m].1);
                assert(fin.slot_of.contains_key(k) && fin.inds[a2.inds.len() + (m - 1)]
                    == fin.slot_of[k]);
                assert(a2.inds.len() + (m - 1) == acc.inds.len() + m);
            }
        }
    }
}

/// Deduplication law, shared keys: in a successful run from the empty
/// state, two corners that reference the same (position-index,
/// texcoord-index) pair resolve to the same output vertex index, whichever
/// faces they came from.
pub proof fn lemma_dedup_shared_key(
    occs: Seq<(u32, u32)>,
    v: Seq<Seq<u8>>,
    vt: Seq<Seq<u8>>,
    i: int,
    j: int,
)
    requires
        dedup_run(occs, v, vt, empty_acc()) is Ok,
        0 <= i < occs.len(),
        0 <= j < occs.len(),
        occs[i] == occs[j],
    ensures
        ({
            let fin = dedup_run(occs, v, vt, empty_acc())->Ok_0;
            fin.inds[i] == fin.inds[j]
        }),
{
    lemma_empty_acc_wf();
    lemma_dedup_run_props(occs, v, vt, empty_acc());
}

/// Deduplication law, no duplicate entries: in a successful run from the
/// empty state, the vertex buffer holds exactly one five-scalar entry per
/// distinct (position-index, texcoord-index) pair among the corners, and
/// distinct pairs hold distinct slots.
pub proof fn lemma_dedup_vertex_count(occs: Seq<(u32, u32)>, v: Seq<Seq<u8>>, vt: Seq<Seq<u8>>)
    requires
        dedup_run(occs, v, vt, empty_acc()) is Ok,
    ensures
        ({
            let fin = dedup_run(occs, v, vt, empty_acc())->Ok_0;
            &&& fin.verts.len() == 5 * fin.slot_of.dom().len()
            &&& forall|k: u64| #[trigger] fin.slot_of.contains_key(k) <==> occs_have_key(occs, k)
            &&& forall|k1: u64, k2: u64|
                fin.slot_of.contains_key(k1) && fin.slot_of.contains_key(k2) && k1 != k2
                    ==> #[trigger] fin.slot_of[k1] != #[trigger] fin.slot_of[k2]
        }),
{
    lemma_empty_acc_wf();
    lemma_dedup_run_props(occs, v, vt, empty_acc());
    let fin = dedup_run(occs, v, vt, empty_acc())->Ok_0;
    assert forall|k: u64| occs_have_key(occs, k) implies #[trigger] fin.slot_of.contains_key(
        k,
    ) by {
        let m = choose|m: int|
            0 <= m < occs.len() && pack_key((#[trigger] occs[m]).0, occs[m].1) == k;
        assert(fin.slot_of.contains_key(pack_key(occs[m].0, occs[m].1)));
    }
}

/// The empty state is well formed.
pub proof fn lemma_empty_acc_wf()
    ensures
        acc_wf(empty_acc()),
{
    assert(empty_acc().slot_of.dom() =~= Set::<u64>::empty());
}

/// Whether every vertex entry of `verts` carries `u` and `w` as its fourth
/// and fifth scalars — its texture coordinates.
pub open spec fn uv_const(verts: Seq<Seq<u8>>, u: Seq<u8>, w: Seq<u8>) -> bool {
    forall|m: int|
        0 <= m < verts.len() ==> {
            let x = #[trigger] verts[m];
            (m % 5 == 3 ==> x == u) && (m % 5 == 4 ==> x == w)
        }
}

/// Texture-coordinate column law: when every corner draws its texture
/// coordinates from entry 0 of the pool, every vertex the run appends
/// carries the pool's first two scalars.
pub proof fn lemma_dedup_uv_const(
    occs: Seq<(u32, u32)>,
    v: Seq<Seq<u8>>,
    vt: Seq<Seq<u8>>,
    acc: DedupAcc,
)
    requires
        acc_wf(acc),
        dedup_run(occs, v, vt, acc) is Ok,
        forall|m: int| 0 <= m < occs.len() ==> (#[trigger] occs[m]).1 == 0,
        vt.len() >= 2,
        uv_const(acc.verts, vt[0], vt[1]),
    ensures
        ({
            let fin = dedup_run(occs, v, vt, acc)->Ok_0;
            uv_const(fin.verts, vt[0], vt[1])
        }),
    decreases occs.len(),
{
    if occs.len() > 0 {
        let occ0 = occs[0];
        let k0 = pack_key(occ0.0, occ0.1);
        let a2 = dedup_step(acc, occ0, v, vt)->Ok_0;
        if acc.slot_of.contains_key(k0) {
            assert(acc_wf(a2));
        } else {
            let old_len = acc.verts.len() as int;
            assert(a2.verts.len() == old_len + 5);
            assert(a2.slot_of.dom() =~= acc.slot_of.dom().insert(k0));
            assert((acc.verts.len() + 5) / 5 == acc.verts.len() / 5 + 1) by (nonlinear_arith)
                requires
                    acc.verts.len() % 5 == 0,
            ;
            assert(acc_wf(a2));
            assert forall|m: int| 0 <= m < a2.verts.len() implies {
                let x = #[trigger] a2.verts[m];
                (m % 5 == 3 ==> x == vt[0]) && (m % 5 == 4 ==> x == vt[1])
            } by {
                if m >= old_len {
                    assert((old_len + 3) % 5 == 3 && (old_len + 4) % 5 == 4) by (nonlinear_arith)
                        requires
                            old_len % 5 == 0,
                            old_len >= 0,
                    ;
                    assert((old_len) % 5 == 0 && (old_len + 1) % 5 == 1 && (old_len + 2) % 5 == 2)
                        by (nonlinear_arith)
                        requires
                            old_len % 5 == 0,
                            old_len >= 0,
                    ;
                    if m == old_len + 3 {
                        assert(a2.verts[m] == vt.subrange(0, 2)[0]);
                    }
                    if m == old_len + 4 {
                        assert(a2.verts[m] == vt.subrange(0, 2)[1]);
                    }
                }
            }
        }
        assert forall|m: int| 0 <= m < occs.skip(1).len() implies (#[trigger] occs.skip(1)[m]).1
            == 0 by {
            assert(occs.skip(1)[m] == occs[m + 1]);
        }
        lemma_dedup_uv_const(occs.skip(1), v, vt, a2);
    }
}

/// Runs the deduplication pass; the executable twin of [`dedup_run`] from
/// the empty state.
pub fn dedup_pass(occs: &Vec<(u32, u32)>, v: &Vec<Vec<u8>>, vt: &Vec<Vec<u8>>) -> (r: Result<
    MeshBuffers,
    ObjError,
>)
    ensures
        match dedup_run(occs@, views_of(v@), views_of(vt@), empty_acc()) {
            Result::Ok(acc) => r matches Ok(m) && views_of(m.vertices@) == acc.verts && m.indices@
                == acc.inds,
            Result::Err(e) => r matches Err(err) && err@ == e,
        },
{
    let ghost vv = views_of(v@);
    let ghost vtv = views_of(vt@);
    let mut verts: Vec<Vec<u8>> = Vec::new();
    let mut inds: Vec<u32> = Vec::new();
    let mut slots: HashMap<u64, u32> = HashMap::new();
    let mut i: usize = 0;
    proof {
        assert(occs@.skip(0) =~= occs@);
        assert(views_of(verts@) =~= Seq::<Seq<u8>>::empty());
    }
    while i < occs.len()
        invariant
            0 <= i <= occs@.len(),
            vv == views_of(v@),
            vtv == views_of(vt@),
            dedup_run(occs@, vv, vtv, empty_acc()) == dedup_run(
                occs@.skip(i as int),
                vv,
                vtv,
                DedupAcc { verts: views_of(verts@), inds: inds@, slot_of: slots@ },
            ),
        decreases occs@.len() - i,
    {
        let ghost tail = occs@.skip(i as int);
        let ghost acc_now = DedupAcc { verts: views_of(verts@), inds: inds@, slot_of: slots@ };
        proof {
            assert(tail[0] == occs@[i as int]);
            assert(tail.skip(1) =~= occs@.skip(i + 1));
        }
        let (p, t) = occs[i];
        let key: u64 = ((p as u64) << 32) | (t as u64);
        match slots.get(&key) {
            Some(slot_ref) => {
                let slot = *slot_ref;
                inds.push(slot);
            },
            None => {
                let p64 = p as u64;
                let t64 = t as u64;
                if 3 * p64 + 3 > v.len() as u64 || 2 * t64 + 2 > vt.len() as u64 {
                    return Err(ObjError::IndexOutOfRange);
                }
                if verts.len() as u64 / 5 > 0xFFFF_FFFFu64 {
                    return Err(ObjError::IndexOutOfRange);
                }
                let slot: u32 = (verts.len() / 5) as u32;
                let base_p: usize = (3 * p64) as usize;
                let base_t: usize = (2 * t64) as usize;
                let ghost verts_before = views_of(verts@);
                verts.push(vstd::slice::slice_to_vec(v[base_p].as_slice()));
                verts.push(vstd::slice::slice_to_vec(v[base_p + 1].as_slice()));
                verts.push(vstd::slice::slice_to_vec(v[base_p + 2].as_slice()));
                verts.push(vstd::slice::slice_to_vec(vt[base_t].as_slice()));
                verts.push(vstd::slice::slice_to_vec(vt[base_t + 1].as_slice()));
                proof {
                    assert(views_of(verts@) =~= verts_before + vv.subrange(
                        3 * (p as int),
                        3 * (p as int) + 3,
                    ) + vtv.subrange(2 * (t as int), 2 * (t as int) + 2));
                }
                slots.insert(key, slot);
                inds.push(slot);
            },
        }
        i = i + 1;
    }
    proof {
        assert(occs@.skip(occs@.len() as int) =~= Seq::<(u32, u32)>::empty());
    }
    Ok(MeshBuffers { vertices: verts, indices: inds })
}

} // verus!
