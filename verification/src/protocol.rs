//! Protocol transcript model: a protocol is an ordered list of rounds, each
//! an ordered list of prover and verifier messages. The transcript exposes
//! the total proof size, the per-round soundness errors, their minimum, and
//! the Fiat-Shamir-compiled classical and quantum security.
//!
//! Error terms within one verifier message combine by minimum, not by sum:
//! a deliberate, documented approximation that avoids cancellation when
//! terms are close; the per-term breakdown is kept alongside the aggregate.

pub mod builder;
pub mod proof_size;

use vstd::prelude::*;
use vstd::math::min;

use crate::fixed::LOG2_3_FP;
use crate::fixed::UNBOUNDED_ERROR_FP;
use crate::fixed::fp;
use crate::protocol::proof_size::ProofElement;
use crate::protocol::proof_size::spec_element_fits;
use crate::protocol::proof_size::spec_element_size;

verus! {

/// A protocol: its name, the digest size of its random oracle, and its
/// ordered rounds.
#[derive(Debug, Clone)]
pub struct Protocol {
    /// The name of the protocol.
    pub protocol_name: String,
    /// The size of the digest in bits.
    pub digest_size_bits: usize,
    /// The rounds involved in the protocol.
    pub rounds: Vec<Round>,
}

/// Represents a round of the protocol. This groups a number of messages into
/// a single round; the number of rounds in the classical sense is obtained by
/// counting the verifier messages.
#[derive(Debug, Clone)]
pub struct Round {
    /// The name of the round, for display.
    pub name: String,
    /// The messages exchanged in the round.
    pub messages: Vec<Message>,
}

/// A message exchanged in the protocol.
#[derive(Debug, Clone)]
pub enum Message {
    /// A message sent by the prover.
    ProverMessage(ProverMessage),
    /// A message sent by the verifier.
    VerifierMessage(VerifierMessage),
}

/// Represents a message sent from the prover to the verifier.
#[derive(Debug, Clone)]
pub struct ProverMessage {
    /// The proof element the message carries.
    pub element: ProofElement,
}

/// Represents a message sent from the verifier to the prover: the named
/// round-by-round error terms it incurs and the proof-of-work bits imposed.
#[derive(Debug, Clone)]
pub struct VerifierMessage {
    /// The named error terms of this round.
    pub rbr_errors: Vec<RbRError>,
    /// The proof-of-work bits imposed on the prover.
    pub pow_bits: i64,
}

/// Represents one named round-by-round error term.
#[derive(Debug, Clone)]
pub struct RbRError {
    /// The name of the error term, for display.
    pub name: String,
    /// The error in fixed-point bits.
    pub error: i64,
}

/// The minimum of a sequence of error values; the identity of minimum (the
/// unbounded error) when the sequence is empty.
pub open spec fn spec_seq_min(s: Seq<int>) -> int
    decreases s.len(),
{
    if s.len() == 0 {
        UNBOUNDED_ERROR_FP as int
    } else if s.len() == 1 {
        s[0]
    } else {
        min(s[0], spec_seq_min(s.drop_first()))
    }
}

/// A sequence of fixed-point values as mathematical integers.
pub open spec fn spec_i64_seq(s: Seq<i64>) -> Seq<int> {
    s.map_values(|x: i64| x as int)
}

/// The error values of one verifier message.
pub open spec fn spec_vm_errors(m: VerifierMessage) -> Seq<int> {
    m.rbr_errors@.map_values(|e: RbRError| e.error as int)
}

/// The round-by-round error of one verifier message: the minimum of its
/// named error terms, plus the proof-of-work bits.
pub open spec fn spec_vm_rbr_error(m: VerifierMessage) -> int {
    spec_seq_min(spec_vm_errors(m)) + m.pow_bits
}

/// A verifier message whose round-by-round error is computable: it has at
/// least one error term, the terms and proof-of-work bits are in the
/// fixed-point range, and their combination fits the representation.
pub open spec fn spec_vm_fits(m: VerifierMessage) -> bool {
    &&& m.rbr_errors@.len() >= 1
    &&& forall|i: int|
        0 <= i < m.rbr_errors@.len() ==> -UNBOUNDED_ERROR_FP <= (
        #[trigger] m.rbr_errors@[i]).error <= UNBOUNDED_ERROR_FP
    &&& 0 <= m.pow_bits <= UNBOUNDED_ERROR_FP
    &&& spec_vm_rbr_error(m) <= i64::MAX
}

/// The proof-size contribution of one message: only prover messages carry
/// proof bytes.
pub open spec fn spec_message_size(m: Message) -> int {
    match m {
        Message::ProverMessage(pm) => spec_element_size(pm.element),
        Message::VerifierMessage(_) => 0,
    }
}

/// The proof size of the first n messages of a round.
pub open spec fn spec_messages_size_prefix(s: Seq<Message>, n: int) -> int
    decreases n,
{
    if n <= 0 {
        0
    } else {
        spec_messages_size_prefix(s, n - 1) + spec_message_size(s[n - 1])
    }
}

/// The proof size of one round.
pub open spec fn spec_round_proof_size(r: Round) -> int {
    spec_messages_size_prefix(r.messages@, r.messages@.len() as int)
}

/// The proof size of the first n rounds.
pub open spec fn spec_rounds_proof_size_prefix(s: Seq<Round>, n: int) -> int
    decreases n,
{
    if n <= 0 {
        0
    } else {
        spec_rounds_proof_size_prefix(s, n - 1) + spec_round_proof_size(s[n - 1])
    }
}

/// The total proof size of a protocol: the sizes of all prover messages.
pub open spec fn spec_proof_size(p: Protocol) -> int {
    spec_rounds_proof_size_prefix(p.rounds@, p.rounds@.len() as int)
}

/// The round-by-round errors of the first n messages of a round, in order.
pub open spec fn spec_messages_rbr_prefix(s: Seq<Message>, n: int) -> Seq<int>
    decreases n,
{
    if n <= 0 {
        Seq::empty()
    } else {
        let pre = spec_messages_rbr_prefix(s, n - 1);
        match s[n - 1] {
            Message::VerifierMessage(vm) => pre.push(spec_vm_rbr_error(vm)),
            Message::ProverMessage(_) => pre,
        }
    }
}

/// The round-by-round errors of the first n rounds, in order.
pub open spec fn spec_rounds_rbr_prefix(s: Seq<Round>, n: int) -> Seq<int>
    decreases n,
{
    if n <= 0 {
        Seq::empty()
    } else {
        spec_rounds_rbr_prefix(s, n - 1) + spec_messages_rbr_prefix(
            s[n - 1].messages@,
            s[n - 1].messages@.len() as int,
        )
    }
}

/// The vector of round-by-round errors of the protocol, in message order.
pub open spec fn spec_rbr_errors(p: Protocol) -> Seq<int> {
    spec_rounds_rbr_prefix(p.rounds@, p.rounds@.len() as int)
}

/// The overall round-by-round soundness of the protocol: the minimum over
/// all verifier messages.
pub open spec fn spec_rbr_error(p: Protocol) -> int {
    spec_seq_min(spec_rbr_errors(p))
}

/// Every prover message's element is computable within machine bounds.
pub open spec fn spec_protocol_elements_fit(p: Protocol) -> bool {
    forall|i: int, j: int|
        0 <= i < p.rounds@.len() && 0 <= j < p.rounds@[i].messages@.len()
            ==> (#[trigger] p.rounds@[i].messages@[j] matches Message::ProverMessage(pm)
            ==> spec_element_fits(pm.element))
}

/// The verifier content of one message, if any, is computable.
pub open spec fn spec_message_vm_fits(m: Message) -> bool {
    m matches Message::VerifierMessage(vm) ==> spec_vm_fits(vm)
}

/// Every verifier message in a list of rounds is computable.
pub open spec fn spec_rounds_vms_fit(rounds: Seq<Round>) -> bool {
    forall|i: int, j: int|
        0 <= i < rounds.len() && 0 <= j < rounds[i].messages@.len() ==> spec_message_vm_fits(
            #[trigger] rounds[i].messages@[j],
        )
}

/// Every verifier message's round-by-round error is computable.
pub open spec fn spec_protocol_vms_fit(p: Protocol) -> bool {
    spec_rounds_vms_fit(p.rounds@)
}

/// Appending a round whose messages all fit preserves fitting.
pub proof fn lemma_rounds_vms_fit_push(rounds: Seq<Round>, r: Round)
    requires
        spec_rounds_vms_fit(rounds),
        forall|j: int|
            0 <= j < r.messages@.len() ==> spec_message_vm_fits(#[trigger] r.messages@[j]),
    ensures
        spec_rounds_vms_fit(rounds.push(r)),
{
    let pushed = rounds.push(r);
    assert forall|i: int, j: int|
        0 <= i < pushed.len() && 0 <= j < pushed[i].messages@.len() implies spec_message_vm_fits(
        #[trigger] pushed[i].messages@[j],
    ) by {
        if i < rounds.len() {
            assert(pushed[i] == rounds[i]);
        } else {
            assert(pushed[i] == r);
        }
    }
}

/// A verifier message with one error term within the ranges the error model
/// produces is computable.
pub proof fn lemma_vm_fits_one(m: VerifierMessage)
    requires
        m.rbr_errors@.len() == 1,
        -0x1_0000_0000_0000 <= m.rbr_errors@[0].error <= UNBOUNDED_ERROR_FP,
        0 <= m.pow_bits <= 0x4_0000_0000_0000,
    ensures
        spec_vm_fits(m),
{
    let es = spec_vm_errors(m);
    assert(es[0] == m.rbr_errors@[0].error);
    assert(spec_seq_min(es) == es[0]);
}

/// A verifier message with two error terms within the ranges the error model
/// produces is computable.
pub proof fn lemma_vm_fits_two(m: VerifierMessage)
    requires
        m.rbr_errors@.len() == 2,
        forall|i: int|
            0 <= i < 2 ==> -0x1_0000_0000_0000 <= (#[trigger] m.rbr_errors@[i]).error
                <= UNBOUNDED_ERROR_FP,
        0 <= m.pow_bits <= 0x4_0000_0000_0000,
    ensures
        spec_vm_fits(m),
{
    reveal_with_fuel(spec_seq_min, 3);
    let es = spec_vm_errors(m);
    assert(es[0] == m.rbr_errors@[0].error);
    assert(es[1] == m.rbr_errors@[1].error);
    assert(es.drop_first() =~= seq![es[1]]);
    assert(spec_seq_min(es) == min(es[0], es[1]));
}

/// A verifier message with three error terms within the ranges the error
/// model produces is computable.
pub proof fn lemma_vm_fits_three(m: VerifierMessage)
    requires
        m.rbr_errors@.len() == 3,
        forall|i: int|
            0 <= i < 3 ==> -0x1_0000_0000_0000 <= (#[trigger] m.rbr_errors@[i]).error
                <= UNBOUNDED_ERROR_FP,
        0 <= m.pow_bits <= 0x4_0000_0000_0000,
    ensures
        spec_vm_fits(m),
{
    reveal_with_fuel(spec_seq_min, 4);
    let es = spec_vm_errors(m);
    assert(es[0] == m.rbr_errors@[0].error);
    assert(es[1] == m.rbr_errors@[1].error);
    assert(es[2] == m.rbr_errors@[2].error);
    assert(es.drop_first() =~= seq![es[1], es[2]]);
    assert(es.drop_first().drop_first() =~= seq![es[2]]);
    assert(spec_seq_min(es) == min(es[0], min(es[1], es[2])));
}

/// Sizes of fitting messages are nonnegative, so the prefix sums are
/// nonnegative and monotone.
proof fn lemma_messages_prefix_mono(s: Seq<Message>, n: int, m: int)
    requires
        0 <= n <= m <= s.len(),
        forall|j: int|
            0 <= j < s.len() ==> (#[trigger] s[j] matches Message::ProverMessage(pm)
                ==> spec_element_fits(pm.element)),
    ensures
        0 <= spec_messages_size_prefix(s, n) <= spec_messages_size_prefix(s, m),
    decreases m,
{
    if m > 0 {
        assert(spec_message_size(s[m - 1]) >= 0) by {
            match s[m - 1] {
                Message::ProverMessage(pm) => {
                    crate::protocol::proof_size::lemma_element_size_nonneg(pm.element);
                },
                Message::VerifierMessage(_) => {},
            }
        }
        if n == m {
            lemma_messages_prefix_mono(s, n - 1, m - 1);
        } else {
            lemma_messages_prefix_mono(s, n, m - 1);
        }
    }
}

/// Round proof sizes of fitting protocols are nonnegative and their prefix
/// sums monotone.
proof fn lemma_rounds_prefix_mono(s: Seq<Round>, n: int, m: int)
    requires
        0 <= n <= m <= s.len(),
        forall|i: int, j: int|
            0 <= i < s.len() && 0 <= j < s[i].messages@.len() ==> (
            #[trigger] s[i].messages@[j] matches Message::ProverMessage(pm)
                ==> spec_element_fits(pm.element)),
    ensures
        0 <= spec_rounds_proof_size_prefix(s, n) <= spec_rounds_proof_size_prefix(s, m),
    decreases m,
{
    if m > 0 {
        let r = s[m - 1];
        assert(spec_round_proof_size(r) >= 0) by {
            lemma_messages_prefix_mono(r.messages@, 0, r.messages@.len() as int);
        }
        if n == m {
            lemma_rounds_prefix_mono(s, m - 1, m - 1);
        } else {
            lemma_rounds_prefix_mono(s, n, m - 1);
        }
    }
}

/// The minimum of a nonempty sequence is an element of it and a lower bound
/// on all of its elements.
pub proof fn lemma_seq_min_properties(s: Seq<int>)
    requires
        s.len() >= 1,
    ensures
        s.contains(spec_seq_min(s)),
        forall|i: int| 0 <= i < s.len() ==> spec_seq_min(s) <= #[trigger] s[i],
    decreases s.len(),
{
    if s.len() > 1 {
        lemma_seq_min_properties(s.drop_first());
        let m = spec_seq_min(s);
        let mt = spec_seq_min(s.drop_first());
        assert(s.drop_first().contains(mt));
        let k = choose|k: int| 0 <= k < s.drop_first().len() && s.drop_first()[k] == mt;
        if m == mt {
            assert(s[k + 1] == mt);
        }
        assert(forall|i: int| 1 <= i < s.len() ==> s.drop_first()[i - 1] == #[trigger] s[i]);
    }
}

/// Appending one value turns the minimum into the minimum of the old value
/// and the new one.
pub proof fn lemma_seq_min_push(s: Seq<int>, x: int)
    requires
        s.len() >= 1,
    ensures
        spec_seq_min(s.push(x)) == min(spec_seq_min(s), x),
    decreases s.len(),
{
    assert(s.push(x)[0] == s[0]);
    if s.len() == 1 {
        assert(s.push(x).drop_first() =~= seq![x]);
        assert(spec_seq_min(s.push(x).drop_first()) == x);
    } else {
        lemma_seq_min_push(s.drop_first(), x);
        assert(s.push(x).drop_first() =~= s.drop_first().push(x));
    }
}

/// The minimum of a sequence depends only on its multiset of values: any
/// reordering yields the same minimum.
pub proof fn lemma_seq_min_multiset_invariant(s1: Seq<int>, s2: Seq<int>)
    requires
        s1.to_multiset() == s2.to_multiset(),
    ensures
        spec_seq_min(s1) == spec_seq_min(s2),
{
    broadcast use vstd::seq_lib::group_to_multiset_ensures;

    assert(s1.to_multiset().len() == s1.len());
    assert(s2.to_multiset().len() == s2.len());
    if s1.len() == 0 {
        assert(s2.len() == 0);
    } else {
        assert(s2.len() == s1.len());
        lemma_seq_min_properties(s1);
        lemma_seq_min_properties(s2);
        let m1 = spec_seq_min(s1);
        let m2 = spec_seq_min(s2);
        assert(s1.to_multiset().count(m1) > 0);
        assert(s2.contains(m1));
        assert(s2.to_multiset().count(m2) > 0);
        assert(s1.contains(m2));
        let i = choose|i: int| 0 <= i < s2.len() && s2[i] == m1;
        let j = choose|j: int| 0 <= j < s1.len() && s1[j] == m2;
        assert(m2 <= s2[i]);
        assert(m1 <= s1[j]);
    }
}

/// The overall round-by-round soundness of a protocol depends only on the
/// multiset of its round-by-round errors: any reordering of the verifier
/// messages across the transcript leaves it unchanged.
pub proof fn lemma_rbr_error_order_independent(p1: Protocol, p2: Protocol)
    requires
        spec_rbr_errors(p1).to_multiset() == spec_rbr_errors(p2).to_multiset(),
    ensures
        spec_rbr_error(p1) == spec_rbr_error(p2),
{
    lemma_seq_min_multiset_invariant(spec_rbr_errors(p1), spec_rbr_errors(p2));
}

impl Protocol {
    /// Compose two protocols that use the same digest size: the rounds of
    /// `other` follow the rounds of `self`, and the names are joined.
    pub fn chain(self, other: Protocol) -> (r: Protocol)
        requires
            self.digest_size_bits == other.digest_size_bits,
        ensures
            r.protocol_name@ == self.protocol_name@ + " <> "@ + other.protocol_name@,
            r.digest_size_bits == self.digest_size_bits,
            r.rounds@ == self.rounds@ + other.rounds@,
    {
        let Protocol { protocol_name, digest_size_bits, rounds } = self;
        let mut name = protocol_name;
        name.append(" <> ");
        name.append(other.protocol_name.as_str());
        let mut rounds = rounds;
        let mut other_rounds = other.rounds;
        rounds.append(&mut other_rounds);
        Protocol { protocol_name: name, digest_size_bits, rounds }
    }

    /// Calculates the proof size in bits of the protocol: the sum of the
    /// sizes of all prover messages.
    #[verifier::loop_isolation(false)]
    pub fn proof_size_bits(&self) -> (r: usize)
        requires
            spec_protocol_elements_fit(*self),
            spec_proof_size(*self) <= usize::MAX,
        ensures
            r == spec_proof_size(*self),
    {
        let ghost rounds = self.rounds@;
        let mut res: usize = 0;
        let mut i: usize = 0;
        while i < self.rounds.len()
            invariant
                0 <= i <= rounds.len(),
                res == spec_rounds_proof_size_prefix(rounds, i as int),
            decreases rounds.len() - i,
        {
            let round = &self.rounds[i];
            let ghost msgs = round.messages@;
            let mut j: usize = 0;
            let mut round_total: usize = 0;
            proof {
                lemma_rounds_prefix_mono(rounds, 0, i as int);
                lemma_rounds_prefix_mono(rounds, i as int, i + 1);
                lemma_rounds_prefix_mono(rounds, i + 1, rounds.len() as int);
            }
            while j < round.messages.len()
                invariant
                    0 <= j <= msgs.len(),
                    round_total == spec_messages_size_prefix(msgs, j as int),
                decreases msgs.len() - j,
            {
                proof {
                    lemma_messages_prefix_mono(msgs, 0, j as int);
                    lemma_messages_prefix_mono(msgs, j + 1, msgs.len() as int);
                }
                match &round.messages[j] {
                    Message::ProverMessage(pm) => {
                        round_total = round_total + pm.element.size_bits();
                    },
                    Message::VerifierMessage(_) => {},
                }
                j = j + 1;
            }
            res = res + round_total;
            i = i + 1;
        }
        res
    }

    /// Returns the vector of round-by-round errors of the protocol, one per
    /// verifier message, in transcript order.
    #[verifier::loop_isolation(false)]
    pub fn rbr_errors(&self) -> (r: Vec<i64>)
        requires
            spec_protocol_vms_fit(*self),
        ensures
            spec_i64_seq(r@) == spec_rbr_errors(*self),
    {
        let ghost rounds = self.rounds@;
        let mut res: Vec<i64> = Vec::new();
        let mut i: usize = 0;
        while i < self.rounds.len()
            invariant
                0 <= i <= rounds.len(),
                spec_i64_seq(res@) == spec_rounds_rbr_prefix(rounds, i as int),
            decreases rounds.len() - i,
        {
            let round = &self.rounds[i];
            let ghost msgs = round.messages@;
            let mut j: usize = 0;
            while j < round.messages.len()
                invariant
                    0 <= j <= msgs.len(),
                    spec_i64_seq(res@) == spec_rounds_rbr_prefix(rounds, i as int)
                        + spec_messages_rbr_prefix(msgs, j as int),
                decreases msgs.len() - j,
            {
                match &round.messages[j] {
                    Message::ProverMessage(_) => {},
                    Message::VerifierMessage(vm) => {
                        let e = vm.rbr_error();
                        let ghost prev = res@;
                        res.push(e);
                        proof {
                            let pre_i = spec_rounds_rbr_prefix(rounds, i as int);
                            let pre_j = spec_messages_rbr_prefix(msgs, j as int);
                            assert(msgs[j as int] == Message::VerifierMessage(*vm));
                            assert(spec_messages_rbr_prefix(msgs, j + 1) == pre_j.push(
                                spec_vm_rbr_error(*vm),
                            ));
                            assert(res@ == prev.push(e));
                            assert(spec_i64_seq(res@) =~= spec_i64_seq(prev).push(e as int));
                            assert(spec_i64_seq(prev) == pre_i + pre_j);
                            assert((pre_i + pre_j).push(e as int) =~= pre_i + pre_j.push(e as int));
                            assert(spec_i64_seq(res@) == pre_i + spec_messages_rbr_prefix(
                                msgs,
                                j + 1,
                            ));
                        }
                    },
                }
                j = j + 1;
            }
            proof {
                assert(spec_rounds_rbr_prefix(rounds, i + 1) == spec_rounds_rbr_prefix(
                    rounds,
                    i as int,
                ) + spec_messages_rbr_prefix(msgs, msgs.len() as int));
            }
            i = i + 1;
        }
        res
    }

    /// Returns the overall round-by-round knowledge soundness of the
    /// protocol: the minimum of `rbr_errors`.
    #[verifier::loop_isolation(false)]
    pub fn rbr_error(&self) -> (r: i64)
        requires
            spec_protocol_vms_fit(*self),
            spec_rbr_errors(*self).len() >= 1,
        ensures
            r == spec_rbr_error(*self),
            r == spec_seq_min(spec_rbr_errors(*self)),
    {
        let errs = self.rbr_errors();
        let ghost es = spec_rbr_errors(*self);
        let mut best: i64 = errs[0];
        let mut i: usize = 1;
        proof {
            assert(es[0] == best as int);
            assert(es.take(1) =~= seq![es[0]]);
        }
        while i < errs.len()
            invariant
                1 <= i <= es.len(),
                spec_i64_seq(errs@) == es,
                best == spec_seq_min(es.take(i as int)),
            decreases es.len() - i,
        {
            let e = errs[i];
            proof {
                lemma_seq_min_push(es.take(i as int), es[i as int]);
                assert(es.take(i + 1) =~= es.take(i as int).push(es[i as int]));
                assert(e as int == es[i as int]);
            }
            if e < best {
                best = e;
            }
            i = i + 1;
        }
        proof {
            assert(es.take(es.len() as int) =~= es);
        }
        best
    }

    /// Computes the bits of security of the protocol against an adversary
    /// making 2^log_ro_queries classical queries to the random oracle: the
    /// state-restoration error and the digest-collision term, combined by
    /// minimum.
    pub fn compiled_classical_security(&self, log_ro_queries: usize) -> (r: i64)
        requires
            spec_protocol_vms_fit(*self),
            spec_rbr_errors(*self).len() >= 1,
            log_ro_queries <= 0x10_0000,
            self.digest_size_bits <= 0x10_0000,
        ensures
            r == min(
                spec_rbr_error(*self) - fp(log_ro_queries as int),
                fp(self.digest_size_bits as int) - (LOG2_3_FP + 2 * fp(log_ro_queries as int)),
            ),
    {
        let min_error = self.rbr_error();
        proof {
            lemma_rbr_error_bounds(*self);
        }
        // State-restoration error, discounting the round count against the
        // query count.
        let state_restoration_error = min_error - (log_ro_queries as i64) * 65536;
        let digest_term = (self.digest_size_bits as i64) * 65536 - (LOG2_3_FP + 2
            * (log_ro_queries as i64) * 65536);
        if state_restoration_error < digest_term {
            state_restoration_error
        } else {
            digest_term
        }
    }

    /// Computes the bits of security of the protocol against an adversary
    /// making 2^log_ro_queries quantum queries to the random oracle.
    pub fn compiled_quantum_security(&self, log_ro_queries: usize) -> (r: i64)
        requires
            spec_protocol_vms_fit(*self),
            spec_rbr_errors(*self).len() >= 1,
            log_ro_queries <= 0x10_0000,
            self.digest_size_bits <= 0x10_0000,
        ensures
            r == min(
                spec_rbr_error(*self) - 2 * fp(log_ro_queries as int),
                fp(self.digest_size_bits as int) - 3 * fp(log_ro_queries as int),
            ),
    {
        let min_error = self.rbr_error();
        proof {
            lemma_rbr_error_bounds(*self);
        }
        let restoration = min_error - 2 * (log_ro_queries as i64) * 65536;
        let digest_term = (self.digest_size_bits as i64) * 65536 - 3 * (log_ro_queries as i64)
            * 65536;
        if restoration < digest_term {
            restoration
        } else {
            digest_term
        }
    }
}

/// Every round-by-round error of a fitting protocol lies in the fixed-point
/// range, and so does their minimum.
pub proof fn lemma_rbr_error_bounds(p: Protocol)
    requires
        spec_protocol_vms_fit(p),
        spec_rbr_errors(p).len() >= 1,
    ensures
        -UNBOUNDED_ERROR_FP <= spec_rbr_error(p) <= i64::MAX,
{
    lemma_rbr_values_bounded(p.rounds@, p.rounds@.len() as int);
    lemma_seq_min_properties(spec_rbr_errors(p));
    let s = spec_rbr_errors(p);
    let m = spec_seq_min(s);
    assert(s.contains(m));
}

/// Each value in the round-by-round error list of a fitting protocol prefix
/// is in range.
proof fn lemma_rbr_values_bounded(rounds: Seq<Round>, n: int)
    requires
        0 <= n <= rounds.len(),
        spec_rounds_vms_fit(rounds),
    ensures
        forall|k: int|
            0 <= k < spec_rounds_rbr_prefix(rounds, n).len() ==> -UNBOUNDED_ERROR_FP <= (
            #[trigger] spec_rounds_rbr_prefix(rounds, n)[k]) <= i64::MAX,
    decreases n,
{
    if n > 0 {
        lemma_rbr_values_bounded(rounds, n - 1);
        assert(forall|j: int|
            0 <= j < rounds[n - 1].messages@.len() ==> spec_message_vm_fits(
                #[trigger] rounds[n - 1].messages@[j],
            ));
        lemma_rbr_message_values_bounded(
            rounds[n - 1].messages@,
            rounds[n - 1].messages@.len() as int,
        );
        let pre = spec_rounds_rbr_prefix(rounds, n - 1);
        let mid = spec_messages_rbr_prefix(
            rounds[n - 1].messages@,
            rounds[n - 1].messages@.len() as int,
        );
        let cur = spec_rounds_rbr_prefix(rounds, n);
        assert forall|k: int| 0 <= k < cur.len() implies -UNBOUNDED_ERROR_FP <= (#[trigger] cur[k])
            <= i64::MAX by {
            if k < pre.len() {
                assert(cur[k] == pre[k]);
            } else {
                assert(cur[k] == mid[k - pre.len()]);
            }
        }
    }
}

/// Each value contributed by one round's messages is in range.
proof fn lemma_rbr_message_values_bounded(msgs: Seq<Message>, n: int)
    requires
        0 <= n <= msgs.len(),
        forall|j: int| 0 <= j < msgs.len() ==> spec_message_vm_fits(#[trigger] msgs[j]),
    ensures
        forall|k: int|
            0 <= k < spec_messages_rbr_prefix(msgs, n).len() ==> -UNBOUNDED_ERROR_FP <= (
            #[trigger] spec_messages_rbr_prefix(msgs, n)[k]) <= i64::MAX,
    decreases n,
{
    if n > 0 {
        lemma_rbr_message_values_bounded(msgs, n - 1);
        let pre = spec_messages_rbr_prefix(msgs, n - 1);
        let cur = spec_messages_rbr_prefix(msgs, n);
        match msgs[n - 1] {
            Message::VerifierMessage(vm) => {
                lemma_vm_rbr_error_bounds(vm);
                assert forall|k: int|
                    0 <= k < cur.len() implies -UNBOUNDED_ERROR_FP <= (#[trigger] cur[k])
                    <= i64::MAX by {
                    if k < pre.len() {
                        assert(cur[k] == pre[k]);
                    } else {
                        assert(cur[k] == spec_vm_rbr_error(vm));
                    }
                }
            },
            Message::ProverMessage(_) => {
                assert(cur == pre);
            },
        }
    }
}

/// The round-by-round error of a fitting verifier message is in range.
proof fn lemma_vm_rbr_error_bounds(vm: VerifierMessage)
    requires
        spec_vm_fits(vm),
    ensures
        -UNBOUNDED_ERROR_FP <= spec_vm_rbr_error(vm) <= i64::MAX,
{
    let es = spec_vm_errors(vm);
    lemma_seq_min_properties(es);
    assert(es.contains(spec_seq_min(es)));
}

impl Message {
    /// Whether the message was sent by the prover.
    pub fn is_prover_message(&self) -> (r: bool)
        ensures
            r == (self is ProverMessage),
    {
        matches!(self, Message::ProverMessage(_))
    }

    /// Whether the message was sent by the verifier.
    pub fn is_verifier_message(&self) -> (r: bool)
        ensures
            r == (self is VerifierMessage),
    {
        matches!(self, Message::VerifierMessage(_))
    }
}

impl ProverMessage {
    /// Creates a prover message.
    pub fn new(element: ProofElement) -> (r: ProverMessage)
        ensures
            r == (ProverMessage { element }),
    {
        ProverMessage { element }
    }
}

impl VerifierMessage {
    /// Creates a verifier message.
    pub fn new(rbr_errors: Vec<RbRError>, pow_bits: i64) -> (r: VerifierMessage)
        ensures
            r.rbr_errors == rbr_errors,
            r.pow_bits == pow_bits,
    {
        VerifierMessage { rbr_errors, pow_bits }
    }

    /// Computes the overall round-by-round error of this message: the
    /// minimum of its error terms (not their sum, to avoid precision loss),
    /// plus the proof-of-work bits.
    #[verifier::loop_isolation(false)]
    pub fn rbr_error(&self) -> (r: i64)
        requires
            spec_vm_fits(*self),
        ensures
            r == spec_vm_rbr_error(*self),
    {
        let ghost es = spec_vm_errors(*self);
        let mut best: i64 = self.rbr_errors[0].error;
        let mut i: usize = 1;
        proof {
            assert(es[0] == best as int);
            assert(es.take(1) =~= seq![es[0]]);
            lemma_vm_rbr_error_bounds(*self);
            lemma_seq_min_properties(es);
        }
        while i < self.rbr_errors.len()
            invariant
                1 <= i <= es.len(),
                es.len() == self.rbr_errors@.len(),
                best == spec_seq_min(es.take(i as int)),
                -UNBOUNDED_ERROR_FP <= best <= UNBOUNDED_ERROR_FP,
            decreases es.len() - i,
        {
            let e = self.rbr_errors[i].error;
            proof {
                lemma_seq_min_push(es.take(i as int), es[i as int]);
                assert(es.take(i + 1) =~= es.take(i as int).push(es[i as int]));
                assert(e as int == es[i as int]);
            }
            if e < best {
                best = e;
            }
            i = i + 1;
        }
        proof {
            assert(es.take(es.len() as int) =~= es);
        }
        best + self.pow_bits
    }
}

impl RbRError {
    /// Creates a named round-by-round error term.
    pub fn new(name: &str, error: i64) -> (r: RbRError)
        ensures
            r.name@ == name@,
            r.error == error,
    {
        RbRError { name: name.to_owned(), error }
    }
}

} // verus!
