use oreos::abi::{AuthPath, NoteWitness};
use oreos::errors::PipelineError;
use oreos::witness::{assemble_witness, Side};

fn hash_hex(last: u8) -> String {
    let mut s = "00".repeat(31);
    s.push_str(&format!("{:02x}", last));
    s
}

fn record() -> NoteWitness {
    NoteWitness {
        treeSize: 1024,
        rootHash: hash_hex(0xaa),
        authPath: vec![
            AuthPath { side: "Left".to_string(), hashOfSibling: hash_hex(0x01) },
            AuthPath { side: "Right".to_string(), hashOfSibling: hash_hex(0x02) },
        ],
    }
}

#[test]
fn assembles_hashes_and_sides_in_order() {
    let sw = assemble_witness(&record()).unwrap();
    assert_eq!(sw.tree_size, 1024);
    assert_eq!(sw.root_hash.len(), 32);
    assert_eq!(sw.root_hash[31], 0xaa);
    assert_eq!(sw.root_hash[0], 0x00);
    assert_eq!(sw.path.len(), 2);
    assert_eq!(sw.path[0].side, Side::Left);
    assert_eq!(sw.path[0].sibling[31], 0x01);
    assert_eq!(sw.path[1].side, Side::Right);
    assert_eq!(sw.path[1].sibling[31], 0x02);
}

#[test]
fn assembly_is_deterministic() {
    let a = assemble_witness(&record()).unwrap();
    let b = assemble_witness(&record()).unwrap();
    assert_eq!(a.tree_size, b.tree_size);
    assert_eq!(a.root_hash, b.root_hash);
    assert_eq!(a.path.len(), b.path.len());
    for (x, y) in a.path.iter().zip(b.path.iter()) {
        assert_eq!(x.side, y.side);
        assert_eq!(x.sibling, y.sibling);
    }
}

#[test]
fn permuting_the_path_permutes_the_result() {
    let mut rec = record();
    rec.authPath.reverse();
    let sw = assemble_witness(&rec).unwrap();
    assert_eq!(sw.path[0].side, Side::Right);
    assert_eq!(sw.path[0].sibling[31], 0x02);
    assert_eq!(sw.path[1].side, Side::Left);
    assert_eq!(sw.path[1].sibling[31], 0x01);
}

#[test]
fn unknown_side_tag_reads_as_right() {
    let mut rec = record();
    rec.authPath[0].side = "left".to_string();
    let sw = assemble_witness(&rec).unwrap();
    assert_eq!(sw.path[0].side, Side::Right);
}

#[test]
fn bad_sibling_hash_is_a_hard_failure() {
    let mut rec = record();
    rec.authPath[1].hashOfSibling = "zz".repeat(32);
    assert!(matches!(
        assemble_witness(&rec),
        Err(PipelineError::MalformedInput)
    ));

    let mut rec = record();
    rec.authPath[0].hashOfSibling = "0102".to_string();
    assert!(matches!(
        assemble_witness(&rec),
        Err(PipelineError::MalformedInput)
    ));

    let mut rec = record();
    rec.authPath[0].hashOfSibling.push('0');
    assert!(matches!(
        assemble_witness(&rec),
        Err(PipelineError::MalformedInput)
    ));
}

#[test]
fn bad_root_hash_is_a_hard_failure() {
    let mut rec = record();
    rec.rootHash = "ff".to_string();
    assert!(matches!(
        assemble_witness(&rec),
        Err(PipelineError::MalformedInput)
    ));
}
