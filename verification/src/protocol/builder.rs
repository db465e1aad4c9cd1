//! Builder assembling a protocol transcript: an explicit two-state machine
//! (no round open, or one round open) that rejects illegal transitions with
//! a typed error instead of silently discarding work.

use vstd::prelude::*;

use crate::ParameterError;
use crate::protocol::Message;
use crate::protocol::Protocol;
use crate::protocol::ProverMessage;
use crate::protocol::Round;
use crate::protocol::VerifierMessage;
use crate::protocol::proof_size::ProofElement;

verus! {

/// Assembles a protocol transcript round by round.
pub struct ProtocolBuilder {
    /// The name the built protocol will carry.
    pub protocol_name: String,
    /// The digest size every Merkle commitment must match.
    pub digest_size_bits: usize,
    /// The finished rounds so far.
    pub rounds: Vec<Round>,
    /// The currently open round, if any.
    pub current_round: Option<RoundBuilder>,
}

/// Assembles one round of a protocol.
pub struct RoundBuilder {
    /// The name the built round will carry.
    pub name: String,
    /// The messages of the round so far.
    pub messages: Vec<Message>,
}

/// The digest size a prover message commits to: the digest of its Merkle
/// root or queried tree, or the protocol's own digest size for plain field
/// elements (which carry no commitment).
pub open spec fn spec_message_digest(e: ProofElement, protocol_digest: int) -> int {
    match e {
        ProofElement::MerkleRoot(mt) => mt.digest_size as int,
        ProofElement::MerkleQueries(q) => q.merkle_tree.digest_size as int,
        ProofElement::FieldElements(_) => protocol_digest,
    }
}

impl RoundBuilder {
    /// Opens an empty round.
    pub fn new(name: &str) -> (r: RoundBuilder)
        ensures
            r.name@ == name@,
            r.messages@ == Seq::<Message>::empty(),
    {
        RoundBuilder { name: name.to_owned(), messages: Vec::new() }
    }

    /// Closes the round; a round must carry at least one message.
    pub fn build(self) -> (res: Result<Round, ParameterError>)
        ensures
            self.messages@.len() == 0 ==> res == Err::<Round, ParameterError>(
                ParameterError::EmptyRound,
            ),
            self.messages@.len() > 0 ==> res == Ok::<Round, ParameterError>(
                Round { name: self.name, messages: self.messages },
            ),
    {
        if self.messages.len() == 0 {
            Err(ParameterError::EmptyRound)
        } else {
            Ok(Round { name: self.name, messages: self.messages })
        }
    }
}

impl ProtocolBuilder {
    /// Starts a transcript with no rounds and no open round.
    pub fn new(name: &str, digest_size_bits: usize) -> (r: ProtocolBuilder)
        ensures
            r.protocol_name@ == name@,
            r.digest_size_bits == digest_size_bits,
            r.rounds@ == Seq::<Round>::empty(),
            r.current_round is None,
    {
        ProtocolBuilder {
            protocol_name: name.to_owned(),
            digest_size_bits,
            rounds: Vec::new(),
            current_round: None,
        }
    }

    /// Opens a round. Opening a round while another is open is an error:
    /// the open round is not silently discarded.
    pub fn start_round(self, name: &str) -> (res: Result<ProtocolBuilder, ParameterError>)
        ensures
            self.current_round is Some ==> res == Err::<ProtocolBuilder, ParameterError>(
                ParameterError::RoundAlreadyOpen,
            ),
            self.current_round is None ==> (res matches Ok(b) && b.protocol_name
                == self.protocol_name && b.digest_size_bits == self.digest_size_bits && b.rounds
                == self.rounds && (b.current_round matches Some(rb) && rb.name@ == name@
                && rb.messages@.len() == 0)),
    {
        let ProtocolBuilder { protocol_name, digest_size_bits, rounds, current_round } = self;
        match current_round {
            Some(_) => Err(ParameterError::RoundAlreadyOpen),
            None => Ok(
                ProtocolBuilder {
                    protocol_name,
                    digest_size_bits,
                    rounds,
                    current_round: Some(RoundBuilder::new(name)),
                },
            ),
        }
    }

    /// Adds a prover message to the open round. The digest size the message
    /// commits to must match the protocol's, and a round must be open.
    pub fn prover_message(self, message: ProverMessage) -> (res: Result<
        ProtocolBuilder,
        ParameterError,
    >)
        ensures
            spec_message_digest(message.element, self.digest_size_bits as int)
                != self.digest_size_bits ==> res == Err::<ProtocolBuilder, ParameterError>(
                ParameterError::DigestSizeMismatch,
            ),
            spec_message_digest(message.element, self.digest_size_bits as int)
                == self.digest_size_bits && self.current_round is None ==> res == Err::<
                ProtocolBuilder,
                ParameterError,
            >(ParameterError::NoOpenRound),
            spec_message_digest(message.element, self.digest_size_bits as int)
                == self.digest_size_bits ==> (self.current_round matches Some(rb) ==> (res
                matches Ok(b) && b.protocol_name == self.protocol_name && b.digest_size_bits
                == self.digest_size_bits && b.rounds == self.rounds && (b.current_round
                matches Some(rb2) && rb2.name == rb.name && rb2.messages@ == rb.messages@.push(
                Message::ProverMessage(message),
            )))),
    {
        let digest_len = match &message.element {
            ProofElement::MerkleRoot(mt) => mt.digest_size,
            ProofElement::MerkleQueries(mt_queries) => mt_queries.merkle_tree.digest_size,
            ProofElement::FieldElements(_) => self.digest_size_bits,
        };
        if digest_len != self.digest_size_bits {
            return Err(ParameterError::DigestSizeMismatch);
        }
        let ProtocolBuilder { protocol_name, digest_size_bits, rounds, current_round } = self;
        match current_round {
            None => Err(ParameterError::NoOpenRound),
            Some(rb) => {
                let RoundBuilder { name, mut messages } = rb;
                messages.push(Message::ProverMessage(message));
                Ok(
                    ProtocolBuilder {
                        protocol_name,
                        digest_size_bits,
                        rounds,
                        current_round: Some(RoundBuilder { name, messages }),
                    },
                )
            },
        }
    }

    /// Adds a verifier message to the open round. Verifier messages carry no
    /// commitment, so no digest check applies.
    pub fn verifier_message(self, message: VerifierMessage) -> (res: Result<
        ProtocolBuilder,
        ParameterError,
    >)
        ensures
            self.current_round is None ==> res == Err::<ProtocolBuilder, ParameterError>(
                ParameterError::NoOpenRound,
            ),
            self.current_round matches Some(rb) ==> (res matches Ok(b) && b.protocol_name
                == self.protocol_name && b.digest_size_bits == self.digest_size_bits && b.rounds
                == self.rounds && (b.current_round matches Some(rb2) && rb2.name == rb.name
                && rb2.messages@ == rb.messages@.push(Message::VerifierMessage(message)))),
    {
        let ProtocolBuilder { protocol_name, digest_size_bits, rounds, current_round } = self;
        match current_round {
            None => Err(ParameterError::NoOpenRound),
            Some(rb) => {
                let RoundBuilder { name, mut messages } = rb;
                messages.push(Message::VerifierMessage(message));
                Ok(
                    ProtocolBuilder {
                        protocol_name,
                        digest_size_bits,
                        rounds,
                        current_round: Some(RoundBuilder { name, messages }),
                    },
                )
            },
        }
    }

    /// Closes the open round and records it. A round must be open and must
    /// carry at least one message.
    pub fn end_round(self) -> (res: Result<ProtocolBuilder, ParameterError>)
        ensures
            self.current_round is None ==> res == Err::<ProtocolBuilder, ParameterError>(
                ParameterError::NoOpenRound,
            ),
            self.current_round matches Some(rb) ==> (rb.messages@.len() == 0 ==> res == Err::<
                ProtocolBuilder,
                ParameterError,
            >(ParameterError::EmptyRound)),
            self.current_round matches Some(rb) ==> (rb.messages@.len() > 0 ==> (res matches Ok(b)
                && b.protocol_name == self.protocol_name && b.digest_size_bits
                == self.digest_size_bits && b.rounds@ == self.rounds@.push(
                Round { name: rb.name, messages: rb.messages },
            ) && b.current_round is None)),
    {
        let ProtocolBuilder { protocol_name, digest_size_bits, mut rounds, current_round } = self;
        match current_round {
            None => Err(ParameterError::NoOpenRound),
            Some(rb) => {
                match rb.build() {
                    Err(e) => Err(e),
                    Ok(round) => {
                        rounds.push(round);
                        Ok(
                            ProtocolBuilder {
                                protocol_name,
                                digest_size_bits,
                                rounds,
                                current_round: None,
                            },
                        )
                    },
                }
            },
        }
    }

    /// Finalizes the transcript. A transcript with a round still open cannot
    /// be built.
    pub fn build(self) -> (res: Result<Protocol, ParameterError>)
        ensures
            self.current_round is Some ==> res == Err::<Protocol, ParameterError>(
                ParameterError::UnfinishedRound,
            ),
            self.current_round is None ==> res == Ok::<Protocol, ParameterError>(
                Protocol {
                    protocol_name: self.protocol_name,
                    digest_size_bits: self.digest_size_bits,
                    rounds: self.rounds,
                },
            ),
    {
        match self.current_round {
            Some(_) => Err(ParameterError::UnfinishedRound),
            None => Ok(
                Protocol {
                    protocol_name: self.protocol_name,
                    digest_size_bits: self.digest_size_bits,
                    rounds: self.rounds,
                },
            ),
        }
    }
}

} // verus!
