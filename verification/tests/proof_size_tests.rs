use stir_whir_estimation::field::Field;
use stir_whir_estimation::proof_size::FieldElements;
use stir_whir_estimation::proof_size::MerkleQueries;
use stir_whir_estimation::proof_size::MerkleTree;
use stir_whir_estimation::proof_size::Proof;
use stir_whir_estimation::proof_size::ProofElement;
use stir_whir_estimation::proof_size::ProofRound;

fn babybear_field() -> Field {
    Field { name: "Babybear", field_size_bits: 27, extension_degree: 5 }
}

#[test]
fn test_total_size_bits() {
    let tree = MerkleTree::new(12, babybear_field(), 4, false);
    assert_eq!(tree.digest_size, 256);
    // One root, one batch opening, one batch of extension elements.
    let queries = MerkleQueries { merkle_tree: tree, num_openings: 2 };
    // Leaf size: 4 * 27 = 108 bits; ceil(log2 2) = 1.
    // Openings: 2 * 108; copaths: 2 * min(108, 256) + 2 * (12 - 1) * 256.
    let queries_size = 2 * 108 + 2 * 108 + 2 * 11 * 256;
    let elements = FieldElements { field: babybear_field(), num_elements: 3, is_extension: true };
    let elements_size = 3 * 27 * 5;
    let proof = Proof(vec![
        ProofRound {
            round_number: 0,
            proof_elements: vec![ProofElement::MerkleRoot(tree)],
        },
        ProofRound {
            round_number: 1,
            proof_elements: vec![
                ProofElement::MerkleQueries(queries),
                ProofElement::FieldElements(elements),
            ],
        },
    ]);
    assert_eq!(proof.total_size_bits(), 256 + queries_size + elements_size);
}

#[test]
fn test_total_size_bits_empty() {
    let proof = Proof(vec![]);
    assert_eq!(proof.total_size_bits(), 0);
}
