//! Commitments, Merkle batching and threshold shares.

use reassembly::verification::MerkleTree;
use reassembly::verification::SignatureShare;
use reassembly::verification::ThresholdSignature;
use reassembly::verification::VerificationEngine;

#[test]
fn test_verification_engine() {
    let mut engine = VerificationEngine::new().unwrap();

    let data = b"Hello, REASSEMBLY!".to_vec();
    let commitment = engine.create_commitment(&data);

    assert!(engine.verify_commitment(&commitment, &data));
    assert!(!engine.verify_commitment(&commitment, &b"Wrong data".to_vec()));
}

#[test]
fn test_merkle_tree() {
    let mut tree = MerkleTree::new();

    tree.add_leaf(&b"leaf1".to_vec());
    tree.add_leaf(&b"leaf2".to_vec());
    tree.add_leaf(&b"leaf3".to_vec());
    tree.add_leaf(&b"leaf4".to_vec());

    tree.build();

    assert!(tree.root().is_some());

    let proof = tree.prove(0).unwrap();
    assert!(MerkleTree::verify_proof(&proof));
}

#[test]
fn test_threshold_signature() {
    let mut ts = ThresholdSignature::new(2, 3);

    ts.add_share(SignatureShare {
        index: 0,
        share: vec![1, 2, 3],
        public_key: vec![4, 5, 6],
    });

    assert!(!ts.can_reconstruct());

    ts.add_share(SignatureShare {
        index: 1,
        share: vec![7, 8, 9],
        public_key: vec![10, 11, 12],
    });

    assert!(ts.can_reconstruct());
    assert!(ts.reconstruct().is_some());
}

#[test]
fn commitment_hashes_are_the_known_digests() {
    // Known-answer vectors for the two digests over the empty string.
    let mut engine = VerificationEngine::new().unwrap();
    let commitment = engine.create_commitment(&Vec::new());

    let sha3_empty: [u8; 32] = [
        0xa7, 0xff, 0xc6, 0xf8, 0xbf, 0x1e, 0xd7, 0x66, 0x51, 0xc1, 0x47, 0x56, 0xa0, 0x61, 0xd6,
        0x62, 0xf5, 0x80, 0xff, 0x4d, 0xe4, 0x3b, 0x49, 0xfa, 0x82, 0xd8, 0x0a, 0x4b, 0x80, 0xf8,
        0x43, 0x4a,
    ];
    let blake3_empty: [u8; 32] = [
        0xaf, 0x13, 0x49, 0xb9, 0xf5, 0xf9, 0xa1, 0xa6, 0xa0, 0x40, 0x4d, 0xea, 0x36, 0xdc, 0xc9,
        0x49, 0x9b, 0xcb, 0x25, 0xc9, 0xad, 0xc1, 0x12, 0xb7, 0xcc, 0x9a, 0x93, 0xca, 0xe4, 0x1f,
        0x32, 0x62,
    ];
    assert_eq!(commitment.sha3_256, sha3_empty.to_vec());
    assert_eq!(commitment.blake3, blake3_empty.to_vec());
    assert_eq!(commitment.signature.len(), 64);
    assert_eq!(commitment.public_key.len(), 32);
}

#[test]
fn commitment_rejects_tampered_signature() {
    let mut engine = VerificationEngine::new().unwrap();
    let data = b"attested output".to_vec();
    let mut commitment = engine.create_commitment(&data);
    assert!(engine.verify_commitment(&commitment, &data));

    commitment.signature[0] ^= 0x01;
    assert!(!engine.verify_commitment(&commitment, &data));
}

#[test]
fn commitment_from_another_engine_still_verifies() {
    // Verification rests on the commitment's own public key, not on the
    // engine that happens to check it.
    let mut signer = VerificationEngine::new().unwrap();
    let mut other = VerificationEngine::new().unwrap();
    let data = b"portable".to_vec();
    let commitment = signer.create_commitment(&data);
    assert!(other.verify_commitment(&commitment, &data));
}

#[test]
fn merkle_proofs_for_every_leaf_and_length() {
    let mut tree = MerkleTree::new();
    let leaves: Vec<Vec<u8>> = (0u8..6).map(|i| vec![i, i + 1]).collect();
    for leaf in &leaves {
        tree.add_leaf(leaf);
    }
    tree.build();

    // Six leaves: every proof verifies and has ceil(log2(6)) = 3 siblings.
    for i in 0..6 {
        let proof = tree.prove(i).unwrap();
        assert!(MerkleTree::verify_proof(&proof));
        assert_eq!(proof.proof.len(), 3);
    }
    assert!(tree.prove(6).is_none());
}

#[test]
fn merkle_proof_length_single_and_pairs() {
    let mut tree = MerkleTree::new();
    tree.add_leaf(&b"only".to_vec());
    tree.build();
    let proof = tree.prove(0).unwrap();
    assert_eq!(proof.proof.len(), 0);
    assert!(MerkleTree::verify_proof(&proof));

    let mut tree2 = MerkleTree::new();
    tree2.add_leaf(&b"a".to_vec());
    tree2.add_leaf(&b"b".to_vec());
    tree2.build();
    let proof2 = tree2.prove(1).unwrap();
    assert_eq!(proof2.proof.len(), 1);
    assert!(MerkleTree::verify_proof(&proof2));
}

#[test]
fn merkle_proof_rejects_any_flip() {
    let mut tree = MerkleTree::new();
    for i in 0u8..4 {
        tree.add_leaf(&vec![i]);
    }
    tree.build();
    let good = tree.prove(2).unwrap();
    assert!(MerkleTree::verify_proof(&good));

    let mut bad_leaf = tree.prove(2).unwrap();
    bad_leaf.leaf_hash[0] ^= 0x80;
    assert!(!MerkleTree::verify_proof(&bad_leaf));

    let mut bad_root = tree.prove(2).unwrap();
    bad_root.root[31] ^= 0x01;
    assert!(!MerkleTree::verify_proof(&bad_root));

    let mut bad_sibling = tree.prove(2).unwrap();
    bad_sibling.proof[0].hash[5] ^= 0x10;
    assert!(!MerkleTree::verify_proof(&bad_sibling));
}

#[test]
fn merkle_rebuild_after_append_changes_root() {
    let mut tree = MerkleTree::new();
    tree.add_leaf(&b"x".to_vec());
    tree.add_leaf(&b"y".to_vec());
    tree.build();
    let root_before = tree.root().unwrap().clone();

    tree.add_leaf(&b"z".to_vec());
    assert!(tree.root().is_none());
    tree.build();
    let root_after = tree.root().unwrap().clone();
    assert_ne!(root_before, root_after);
}

#[test]
fn threshold_ignores_duplicate_and_out_of_range_shares() {
    let mut ts = ThresholdSignature::new(2, 3);
    ts.add_share(SignatureShare { index: 1, share: vec![1], public_key: vec![] });
    // The same index again does not count toward the threshold.
    ts.add_share(SignatureShare { index: 1, share: vec![2], public_key: vec![] });
    assert!(!ts.can_reconstruct());
    // An index outside [0, n) does not count either.
    ts.add_share(SignatureShare { index: 3, share: vec![3], public_key: vec![] });
    assert!(!ts.can_reconstruct());
    ts.add_share(SignatureShare { index: 0, share: vec![4], public_key: vec![] });
    assert!(ts.can_reconstruct());
    // The combined signature is the first collected share's bytes.
    assert_eq!(ts.reconstruct().unwrap(), vec![1]);
}
