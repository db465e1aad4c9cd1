use stir_whir_estimation::ParameterError;
use stir_whir_estimation::field::Field;
use stir_whir_estimation::fixed::FP_ONE;
use stir_whir_estimation::protocol::Message;
use stir_whir_estimation::protocol::ProverMessage;
use stir_whir_estimation::protocol::RbRError;
use stir_whir_estimation::protocol::VerifierMessage;
use stir_whir_estimation::protocol::builder::ProtocolBuilder;
use stir_whir_estimation::protocol::proof_size::FieldElements;
use stir_whir_estimation::protocol::proof_size::MerkleQueries;
use stir_whir_estimation::protocol::proof_size::MerkleTree;
use stir_whir_estimation::protocol::proof_size::ProofElement;

fn goldilocks_field() -> Field {
    Field { name: "Goldilocks", field_size_bits: 64, extension_degree: 2 }
}

fn vm(errors: &[(&str, i64)], pow_bits: i64) -> VerifierMessage {
    let mut errs = Vec::new();
    for (name, e) in errors {
        errs.push(RbRError::new(name, *e));
    }
    VerifierMessage::new(errs, pow_bits)
}

#[test]
fn test_build_with_open_round_fails() {
    let builder = ProtocolBuilder::new("test protocol", 256)
        .start_round("round")
        .unwrap()
        .verifier_message(vm(&[("error", 10 * FP_ONE)], 0))
        .unwrap();
    assert_eq!(builder.build().err(), Some(ParameterError::UnfinishedRound));
}

#[test]
fn test_prover_message_digest_mismatch_fails() {
    let tree = MerkleTree::new(10, goldilocks_field(), 4, false);
    assert_eq!(tree.digest_size, 256);
    let res = ProtocolBuilder::new("test protocol", 128)
        .start_round("round")
        .unwrap()
        .prover_message(ProverMessage::new(ProofElement::MerkleRoot(tree)));
    assert_eq!(res.err(), Some(ParameterError::DigestSizeMismatch));
}

#[test]
fn test_round_discipline() {
    let b = ProtocolBuilder::new("test protocol", 256);
    // No round open: messages and end_round are rejected.
    let b = match b.verifier_message(vm(&[("error", FP_ONE)], 0)) {
        Err(ParameterError::NoOpenRound) => ProtocolBuilder::new("test protocol", 256),
        other => panic!("expected NoOpenRound, got {:?}", other.is_ok()),
    };
    let b = match b.end_round() {
        Err(ParameterError::NoOpenRound) => ProtocolBuilder::new("test protocol", 256),
        other => panic!("expected NoOpenRound, got {:?}", other.is_ok()),
    };
    // A round cannot be opened over an open round.
    let open = b.start_round("first").unwrap();
    assert_eq!(
        open.start_round("second").err(),
        Some(ParameterError::RoundAlreadyOpen)
    );
    // An empty round cannot be closed.
    let open = ProtocolBuilder::new("test protocol", 256).start_round("first").unwrap();
    assert_eq!(open.end_round().err(), Some(ParameterError::EmptyRound));
}

#[test]
fn test_verifier_message_rbr_error_is_min_plus_pow() {
    let m = vm(
        &[("a", 50 * FP_ONE), ("b", 30 * FP_ONE), ("c", 70 * FP_ONE)],
        5 * FP_ONE,
    );
    assert_eq!(m.rbr_error(), 35 * FP_ONE);
}

fn protocol_with_errors(errors: &[i64]) -> stir_whir_estimation::protocol::Protocol {
    let mut b = ProtocolBuilder::new("test protocol", 256);
    for e in errors {
        b = b
            .start_round("round")
            .unwrap()
            .verifier_message(vm(&[("error", *e)], 0))
            .unwrap()
            .end_round()
            .unwrap();
    }
    b.build().unwrap()
}

#[test]
fn test_rbr_error_is_min_of_rbr_errors() {
    let p = protocol_with_errors(&[90 * FP_ONE, 40 * FP_ONE, 60 * FP_ONE]);
    let errs = p.rbr_errors();
    assert_eq!(errs, vec![90 * FP_ONE, 40 * FP_ONE, 60 * FP_ONE]);
    assert_eq!(p.rbr_error(), *errs.iter().min().unwrap());
    assert_eq!(p.rbr_error(), 40 * FP_ONE);
}

#[test]
fn test_rbr_error_is_order_independent() {
    let p1 = protocol_with_errors(&[90 * FP_ONE, 40 * FP_ONE, 60 * FP_ONE]);
    let p2 = protocol_with_errors(&[60 * FP_ONE, 90 * FP_ONE, 40 * FP_ONE]);
    assert_eq!(p1.rbr_error(), p2.rbr_error());
}

#[test]
fn test_compiled_security() {
    let p = protocol_with_errors(&[100 * FP_ONE]);
    // Classical: min(100 - 30, 256 - (log2(3) + 60)) = 70.
    let classical = p.compiled_classical_security(30) as f64 / FP_ONE as f64;
    assert!((classical - 70.0).abs() < 0.01);
    // Quantum: min(100 - 60, 256 - 90) = 40.
    let quantum = p.compiled_quantum_security(30) as f64 / FP_ONE as f64;
    assert!((quantum - 40.0).abs() < 0.01);
}

#[test]
fn test_merkle_queries_sizes() {
    // Leaves of 2 base-field elements of 64 bits each: 128 bits per leaf.
    let tree = MerkleTree::new(10, goldilocks_field(), 2, false);
    let q = MerkleQueries { merkle_tree: tree, num_openings: 4 };
    // Pruned copaths: 4 * (10 - ceil(log2 4)) = 32 digests.
    assert_eq!(q.copath_elements(), 32);
    // Revealed neighbours cost min(128, 256) = 128 bits each.
    assert_eq!(q.copath_size(), 4 * 128 + 32 * 256);
    assert_eq!(q.opening_size(), 4 * 128);
    assert_eq!(q.estimate_size_bits(), 4 * 128 + 32 * 256 + 4 * 128);
}

#[test]
fn test_field_elements_size() {
    let base = FieldElements { field: goldilocks_field(), num_elements: 3, is_extension: false };
    assert_eq!(base.size_bits(), 3 * 64);
    let ext = FieldElements { field: goldilocks_field(), num_elements: 3, is_extension: true };
    assert_eq!(ext.size_bits(), 3 * 128);
}

#[test]
fn test_proof_size_bits_counts_prover_messages_only() {
    let root = MerkleTree::new(8, goldilocks_field(), 1, false);
    let p = ProtocolBuilder::new("test protocol", 256)
        .start_round("round")
        .unwrap()
        .prover_message(ProverMessage::new(ProofElement::MerkleRoot(root)))
        .unwrap()
        .verifier_message(vm(&[("error", FP_ONE)], 0))
        .unwrap()
        .prover_message(ProverMessage::new(ProofElement::FieldElements(FieldElements {
            field: goldilocks_field(),
            num_elements: 2,
            is_extension: true,
        })))
        .unwrap()
        .end_round()
        .unwrap()
        .build()
        .unwrap();
    assert_eq!(p.proof_size_bits(), 256 + 2 * 128);
    assert_eq!(p.rounds.len(), 1);
    let round = &p.rounds[0];
    assert!(round.messages[0].is_prover_message());
    assert!(round.messages[1].is_verifier_message());
    assert!(matches!(round.messages[2], Message::ProverMessage(_)));
}

#[test]
fn test_chain_concatenates_rounds() {
    let p1 = protocol_with_errors(&[90 * FP_ONE]);
    let p2 = protocol_with_errors(&[40 * FP_ONE, 60 * FP_ONE]);
    let chained = p1.chain(p2);
    assert_eq!(chained.rounds.len(), 3);
    assert_eq!(chained.protocol_name, "test protocol <> test protocol");
    assert_eq!(chained.rbr_error(), 40 * FP_ONE);
}
