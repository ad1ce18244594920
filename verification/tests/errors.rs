use objmesh::file2obj;
use objmesh::parse_obj_line;
use objmesh::ObjError;

#[test]
fn malformed_number_names_line_and_token() {
    let text = b"v 0 x 0\n";
    match file2obj(text) {
        Err(ObjError::MalformedNumber { line, token }) => {
            assert_eq!(line, b"v 0 x 0".to_vec());
            assert_eq!(token, b"x".to_vec());
        },
        other => panic!("expected a malformed number, got {:?}", other.is_ok()),
    }
}

#[test]
fn zero_index_is_out_of_range() {
    let text = b"v 0 0 0\nf 0 1 1\n";
    assert!(matches!(file2obj(text), Err(ObjError::IndexOutOfRange)));
}

#[test]
fn negative_index_is_out_of_range() {
    let text = b"v 0 0 0\nv 1 0 0\nv 0 1 0\nf -1 2 3\n";
    assert!(matches!(file2obj(text), Err(ObjError::IndexOutOfRange)));
}

#[test]
fn position_index_past_pool_is_out_of_range() {
    let text = b"v 0 0 0\nf 1 2 3\n";
    assert!(matches!(file2obj(text), Err(ObjError::IndexOutOfRange)));
}

#[test]
fn texcoord_index_past_pool_is_out_of_range() {
    let text = b"v 0 0 0\nv 1 0 0\nv 0 1 0\nvt 0 0\nf 1/1 2/2 3/1\n";
    assert!(matches!(file2obj(text), Err(ObjError::IndexOutOfRange)));
}

#[test]
fn zero_normal_index_is_out_of_range() {
    let text = b"v 0 0 0\nv 1 0 0\nv 0 1 0\nvn 0 0 1\nf 1//0 2//1 3//1\n";
    assert!(matches!(file2obj(text), Err(ObjError::IndexOutOfRange)));
}

#[test]
fn malformed_normal_index() {
    let text = b"v 0 0 0\nv 1 0 0\nv 0 1 0\nf 1//x 2//1 3//1\n";
    match file2obj(text) {
        Err(ObjError::MalformedIndex { token, .. }) => {
            assert_eq!(token, b"x".to_vec());
        },
        other => panic!("expected a malformed index, got {:?}", other.is_ok()),
    }
}

#[test]
fn mixed_texcoord_presence_is_inconsistent() {
    let text = b"v 0 0 0\nv 1 0 0\nv 0 1 0\nvt 0 0\nf 1/1 2/1 3\n";
    assert!(matches!(file2obj(text), Err(ObjError::InconsistentTexcoords)));
}

#[test]
fn mixed_texcoord_presence_across_faces() {
    let text = b"v 0 0 0\nv 1 0 0\nv 0 1 0\nvt 0 0\n\
                 f 1/1 2/1 3/1\nf 1 2 3\n";
    assert!(matches!(file2obj(text), Err(ObjError::InconsistentTexcoords)));
}

#[test]
fn huge_index_is_malformed() {
    // 2^32 does not fit an unsigned 32-bit index.
    let text = b"v 0 0 0\nv 1 0 0\nv 0 1 0\nf 4294967296 2 3\n";
    assert!(matches!(file2obj(text), Err(ObjError::MalformedIndex { .. })));
}

#[test]
fn parse_obj_line_appends_tokens() {
    let mut pool: Vec<Vec<u8>> = Vec::new();
    parse_obj_line(&mut pool, b"v 1.5 -2e3 .25").unwrap();
    assert_eq!(pool, vec![b"1.5".to_vec(), b"-2e3".to_vec(), b".25".to_vec()]);
    parse_obj_line(&mut pool, b"v 7").unwrap();
    assert_eq!(pool.len(), 4);
}

#[test]
fn parse_obj_line_rejects_bad_token() {
    let mut pool: Vec<Vec<u8>> = Vec::new();
    match parse_obj_line(&mut pool, b"v 1.0 1..0 2") {
        Err(ObjError::MalformedNumber { token, .. }) => {
            assert_eq!(token, b"1..0".to_vec());
        },
        other => panic!("expected a malformed number, got {:?}", other.is_ok()),
    }
    // The token before the malformed one was already appended.
    assert_eq!(pool, vec![b"1.0".to_vec()]);
}

#[test]
fn float_grammar_accepts_rust_literal_forms() {
    let mut pool: Vec<Vec<u8>> = Vec::new();
    parse_obj_line(&mut pool, b"v 1. .5 +4 1e3 -2.5E-2 inf -Infinity NaN").unwrap();
    assert_eq!(pool.len(), 8);
    for tok in &pool {
        // Every accepted token really is a float literal.
        std::str::from_utf8(tok).unwrap().parse::<f32>().unwrap();
    }
}

#[test]
fn float_grammar_rejects_junk() {
    for bad in [&b"1e"[..], b"--1", b".", b"nan1", b"0x1", b"1.0.0", b"e3"] {
        let mut pool: Vec<Vec<u8>> = Vec::new();
        let mut line: Vec<u8> = b"v ".to_vec();
        line.extend_from_slice(bad);
        assert!(
            matches!(parse_obj_line(&mut pool, &line), Err(ObjError::MalformedNumber { .. })),
            "accepted {:?}",
            std::str::from_utf8(bad).unwrap()
        );
    }
}

#[test]
fn short_position_tuple_is_caught_at_lookup() {
    // Tuple arity is not validated at the line; the misaligned pool is
    // caught downstream when the face looks its entry up.
    let text = b"v 1 2\nf 1 1 1\n";
    assert!(matches!(file2obj(text), Err(ObjError::IndexOutOfRange)));
}

#[test]
fn extra_descriptor_fields_are_ignored() {
    let text = b"v 0 0 0\nv 1 0 0\nv 0 1 0\nvt 0 0\nvn 0 0 1\n\
                 f 1/1/1/9 2/1/1/9 3/1/1/9\n";
    let m = file2obj(text).unwrap();
    assert_eq!(m.indices, vec![0, 1, 2]);
}

#[test]
fn error_kind_names() {
    assert_eq!(ObjError::IndexOutOfRange.kind_name(), "index out of range");
    assert_eq!(ObjError::InconsistentTexcoords.kind_name(), "inconsistent texcoords");
    assert_eq!(ObjError::DedupInvariantBroken.kind_name(), "dedup invariant broken");
    assert_eq!(ObjError::IOError.kind_name(), "io error");
}
