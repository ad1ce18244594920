use objmesh::file2obj;
use objmesh::MeshBuffers;
use objmesh::ObjError;

/// The scalar at position `i` of the interleaved vertex buffer, as a float.
fn scalar(m: &MeshBuffers, i: usize) -> f32 {
    std::str::from_utf8(&m.vertices[i]).unwrap().parse::<f32>().unwrap()
}

fn all_scalars(m: &MeshBuffers) -> Vec<f32> {
    (0..m.vertices.len()).map(|i| scalar(m, i)).collect()
}

#[test]
fn scenario_triangle_with_texcoords() {
    let text = b"v 0 0 0\nv 1 0 0\nv 1 1 0\nvt 0 0\nvt 1 0\nvt 1 1\nf 1/1 2/2 3/3\n";
    let m = file2obj(text).unwrap();
    assert_eq!(
        all_scalars(&m),
        vec![0.0, 0.0, 0.0, 0.0, 0.0, 1.0, 0.0, 0.0, 1.0, 0.0, 1.0, 1.0, 0.0, 1.0, 1.0]
    );
    assert_eq!(m.indices, vec![0, 1, 2]);
}

#[test]
fn scenario_quad_fan() {
    let text = b"v 0 0 0\nv 1 0 0\nv 1 1 0\nv 0 1 0\n\
                 vt 0 0\nvt 1 0\nvt 1 1\nvt 0 1\n\
                 f 1/1 2/2 3/3 4/4\n";
    let m = file2obj(text).unwrap();
    assert_eq!(m.vertices.len(), 4 * 5);
    assert_eq!(m.indices, vec![0, 1, 2, 0, 2, 3]);
}

#[test]
fn scenario_malformed_index_token() {
    let text = b"v 0 0 0\nv 1 0 0\nv 1 1 0\nvt 0 0\nvt 1 0\nvt 1 1\nf 1/a 2/2 3/3\n";
    match file2obj(text) {
        Err(ObjError::MalformedIndex { token, .. }) => {
            assert_eq!(token, b"a".to_vec());
        },
        other => panic!("expected a malformed index, got {:?}", other.is_ok()),
    }
}

#[test]
fn index_base_conversion() {
    // Declared index 1 resolves to the pool's first (0th) entry.
    let text = b"v 5 6 7\nvt 0.5 0.25\nf 1/1 1/1 1/1\n";
    let m = file2obj(text).unwrap();
    assert_eq!(all_scalars(&m), vec![5.0, 6.0, 7.0, 0.5, 0.25]);
    assert_eq!(m.indices, vec![0, 0, 0]);
}

#[test]
fn degenerate_face_rejected() {
    let text = b"v 0 0 0\nf 1 1\n";
    assert!(matches!(file2obj(text), Err(ObjError::DegenerateFace { .. })));
}

#[test]
fn pentagon_fan_three_triangles() {
    let text = b"v 0 0 0\nv 1 0 0\nv 2 1 0\nv 1 2 0\nv 0 1 0\nf 1 2 3 4 5\n";
    let m = file2obj(text).unwrap();
    assert_eq!(m.indices, vec![0, 1, 2, 0, 2, 3, 0, 3, 4]);
    assert_eq!(m.vertices.len(), 5 * 5);
}

#[test]
fn dummy_uv_injected_when_no_texcoords() {
    let text = b"v 0 0 0\nv 1 0 0\nv 0 1 0\nf 1 2 3\n";
    let m = file2obj(text).unwrap();
    assert_eq!(m.vertices.len(), 3 * 5);
    for s in 0..3 {
        assert_eq!(scalar(&m, 5 * s + 3), 0.0);
        assert_eq!(scalar(&m, 5 * s + 4), 0.0);
    }
    assert_eq!(m.indices, vec![0, 1, 2]);
}

#[test]
fn parsing_twice_is_identical() {
    let text = b"v 0 0 0\nv 1 0 0\nv 1 1 0\nvt 0 0\nvt 1 0\nvt 1 1\n\
                 f 1/1 2/2 3/3\nf 1/1 3/3 2/2\n";
    let m1 = file2obj(text).unwrap();
    let m2 = file2obj(text).unwrap();
    assert_eq!(m1.vertices, m2.vertices);
    assert_eq!(m1.indices, m2.indices);
}

#[test]
fn shared_pairs_resolve_to_shared_slots() {
    // Two faces reuse the pairs 1/1 and 3/3: the output has one vertex
    // entry per distinct pair and repeated indices for repeated pairs.
    let text = b"v 0 0 0\nv 1 0 0\nv 1 1 0\nv 0 1 0\n\
                 vt 0 0\nvt 1 0\nvt 1 1\nvt 0 1\n\
                 f 1/1 2/2 3/3\nf 1/1 3/3 4/4\n";
    let m = file2obj(text).unwrap();
    assert_eq!(m.vertices.len(), 4 * 5);
    assert_eq!(m.indices, vec![0, 1, 2, 0, 2, 3]);
}

#[test]
fn skipped_lines_are_ignored() {
    let text = b"# a comment\nvp 0 1\no name\ns off\ng grp\n\nx\n\
                 v 0 0 0\nv 1 0 0\nv 0 1 0\nf 1 2 3\n";
    let m = file2obj(text).unwrap();
    assert_eq!(m.indices, vec![0, 1, 2]);
}

#[test]
fn carriage_returns_are_stripped() {
    let unix = b"v 0 0 0\nv 1 0 0\nv 0 1 0\nf 1 2 3\n";
    let dos = b"v 0 0 0\r\nv 1 0 0\r\nv 0 1 0\r\nf 1 2 3\r\n";
    let m1 = file2obj(unix).unwrap();
    let m2 = file2obj(dos).unwrap();
    assert_eq!(m1.vertices, m2.vertices);
    assert_eq!(m1.indices, m2.indices);
}

#[test]
fn empty_input_gives_empty_buffers() {
    let m = file2obj(b"").unwrap();
    assert_eq!(m.vertices.len(), 0);
    assert_eq!(m.indices.len(), 0);
}

#[test]
fn normals_are_parsed_but_not_emitted() {
    let text = b"v 0 0 0\nv 1 0 0\nv 0 1 0\nvt 0 0\nvn 0 0 1\n\
                 f 1/1/1 2/1/1 3/1/1\n";
    let m = file2obj(text).unwrap();
    // Five scalars per vertex: position and texture coordinate only.
    assert_eq!(m.vertices.len(), 3 * 5);
    assert_eq!(m.indices, vec![0, 1, 2]);
}

#[test]
fn missing_texcoord_slot_with_normal() {
    // The `1//2` form leaves the texture coordinate absent.
    let text = b"v 0 0 0\nv 1 0 0\nv 0 1 0\nvn 0 0 1\nvn 0 1 0\n\
                 f 1//1 2//2 3//1\n";
    let m = file2obj(text).unwrap();
    assert_eq!(m.vertices.len(), 3 * 5);
    for s in 0..3 {
        assert_eq!(scalar(&m, 5 * s + 3), 0.0);
        assert_eq!(scalar(&m, 5 * s + 4), 0.0);
    }
}
