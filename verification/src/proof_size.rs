//! Standalone proof-size accounting: a proof is a list of rounds, each a
//! list of proof elements, and its total size is the sum of their bit sizes.

use vstd::prelude::*;
use vstd::math::min;

use crate::field::Field;
use crate::fixed::log2_ceil;
use crate::fixed::log2_ceil_usize;

verus! {

/// A token which is part of the argument string.
#[derive(Debug, Clone, Copy)]
pub enum ProofElement {
    /// A Merkle root.
    MerkleRoot(MerkleTree),
    /// A list of queries to the Merkle tree (with corresponding
    /// authentication paths and openings).
    MerkleQueries(MerkleQueries),
    /// A list of field elements.
    FieldElements(FieldElements),
}

/// A proof round contains the `ProofElement`s relating to this round.
#[derive(Debug, Clone)]
pub struct ProofRound {
    /// The ordinal of the round, for display.
    pub round_number: usize,
    /// The elements the prover sends in this round.
    pub proof_elements: Vec<ProofElement>,
}

/// A proof consists of a list of proof rounds.
#[derive(Debug, Clone)]
pub struct Proof(pub Vec<ProofRound>);

/// Represents a Merkle tree.
#[derive(Debug, Clone, Copy)]
pub struct MerkleTree {
    /// The elements in the leaf of the tree.
    pub leaf: FieldElements,
    /// How deep the tree is (it contains 2^tree_depth elements).
    pub tree_depth: usize,
    /// How large the hash digest is.
    pub digest_size: usize,
}

/// Represents the opening of a Merkle tree.
#[derive(Debug, Clone, Copy)]
pub struct MerkleQueries {
    /// The corresponding tree.
    pub merkle_tree: MerkleTree,
    /// How many openings are requested.
    pub num_openings: usize,
}

/// Represents a list of field elements.
#[derive(Debug, Clone, Copy)]
pub struct FieldElements {
    /// The field used.
    pub field: Field,
    /// How many elements (NOTE: not in log form).
    pub num_elements: usize,
    /// Whether these are extension or base field elements.
    pub is_extension: bool,
}

/// The size in bits of a batch of field elements.
pub open spec fn spec_field_elements_size(fe: FieldElements) -> int {
    fe.num_elements * (if fe.is_extension {
        fe.field.extension_degree * fe.field.field_size_bits
    } else {
        fe.field.field_size_bits as int
    })
}

/// The number of copath digests revealed by a pruned batch opening.
pub open spec fn spec_copath_elements(q: MerkleQueries) -> int {
    q.num_openings * (q.merkle_tree.tree_depth - log2_ceil(q.num_openings as nat))
}

/// The size in bits of the authentication paths of a batch opening.
pub open spec fn spec_copath_size(q: MerkleQueries) -> int {
    q.num_openings * min(
        spec_field_elements_size(q.merkle_tree.leaf),
        q.merkle_tree.digest_size as int,
    ) + spec_copath_elements(q) * q.merkle_tree.digest_size
}

/// The size in bits of the opened leaves of a batch opening.
pub open spec fn spec_opening_size(q: MerkleQueries) -> int {
    q.num_openings * spec_field_elements_size(q.merkle_tree.leaf)
}

/// The estimated size in bits of a batch opening: leaves plus copaths.
pub open spec fn spec_queries_size(q: MerkleQueries) -> int {
    spec_copath_size(q) + spec_opening_size(q)
}

/// The size in bits of a proof element: a root costs one digest, an opening
/// its estimate, field elements their batch size.
pub open spec fn spec_element_size(e: ProofElement) -> int {
    match e {
        ProofElement::MerkleRoot(tree) => tree.digest_size as int,
        ProofElement::MerkleQueries(q) => spec_queries_size(q),
        ProofElement::FieldElements(fe) => spec_field_elements_size(fe),
    }
}

/// Every proof element is well formed and its size computable within machine
/// bounds.
pub open spec fn spec_element_fits(e: ProofElement) -> bool {
    match e {
        ProofElement::MerkleRoot(_) => true,
        ProofElement::MerkleQueries(q) => {
            &&& q.merkle_tree.tree_depth >= log2_ceil(q.num_openings as nat)
            &&& q.merkle_tree.leaf.field.extension_degree
                * q.merkle_tree.leaf.field.field_size_bits <= usize::MAX
            &&& spec_field_elements_size(q.merkle_tree.leaf) <= usize::MAX
            &&& spec_copath_elements(q) <= usize::MAX
            &&& spec_queries_size(q) <= usize::MAX
        },
        ProofElement::FieldElements(fe) => fe.field.extension_degree * fe.field.field_size_bits
            <= usize::MAX && spec_field_elements_size(fe) <= usize::MAX,
    }
}

/// The total size of the first n elements of a round.
pub open spec fn spec_elements_size_prefix(s: Seq<ProofElement>, n: int) -> int
    decreases n,
{
    if n <= 0 {
        0
    } else {
        spec_elements_size_prefix(s, n - 1) + spec_element_size(s[n - 1])
    }
}

/// The total size of one round.
pub open spec fn spec_round_size(r: ProofRound) -> int {
    spec_elements_size_prefix(r.proof_elements@, r.proof_elements@.len() as int)
}

/// The total size of the first n rounds of a proof.
pub open spec fn spec_rounds_size_prefix(s: Seq<ProofRound>, n: int) -> int
    decreases n,
{
    if n <= 0 {
        0
    } else {
        spec_rounds_size_prefix(s, n - 1) + spec_round_size(s[n - 1])
    }
}

/// The total size in bits of a proof.
pub open spec fn spec_proof_size(p: Proof) -> int {
    spec_rounds_size_prefix(p.0@, p.0@.len() as int)
}

/// Every element of every round of the proof fits in machine bounds.
pub open spec fn spec_proof_fits(p: Proof) -> bool {
    &&& forall|i: int, j: int|
        0 <= i < p.0@.len() && 0 <= j < p.0@[i].proof_elements@.len() ==> spec_element_fits(
            #[trigger] p.0@[i].proof_elements@[j],
        )
    &&& spec_proof_size(p) <= usize::MAX
}

/// The size of a well-formed element is nonnegative.
pub proof fn lemma_element_size_nonneg(e: ProofElement)
    requires
        spec_element_fits(e),
    ensures
        spec_element_size(e) >= 0,
{
    match e {
        ProofElement::MerkleRoot(_) => {},
        ProofElement::MerkleQueries(q) => {
            lemma_field_size_nonneg(q.merkle_tree.leaf);
            vstd::arithmetic::mul::lemma_mul_nonnegative(
                q.num_openings as int,
                (q.merkle_tree.tree_depth - log2_ceil(q.num_openings as nat)) as int,
            );
            vstd::arithmetic::mul::lemma_mul_nonnegative(
                q.num_openings as int,
                min(
                    spec_field_elements_size(q.merkle_tree.leaf),
                    q.merkle_tree.digest_size as int,
                ),
            );
            vstd::arithmetic::mul::lemma_mul_nonnegative(
                spec_copath_elements(q),
                q.merkle_tree.digest_size as int,
            );
            vstd::arithmetic::mul::lemma_mul_nonnegative(
                q.num_openings as int,
                spec_field_elements_size(q.merkle_tree.leaf),
            );
        },
        ProofElement::FieldElements(fe) => {
            lemma_field_size_nonneg(fe);
        },
    }
}

/// The size of a field-element batch is nonnegative.
proof fn lemma_field_size_nonneg(fe: FieldElements)
    ensures
        spec_field_elements_size(fe) >= 0,
{
    let w = if fe.is_extension {
        fe.field.extension_degree * fe.field.field_size_bits
    } else {
        fe.field.field_size_bits as int
    };
    assert(w >= 0) by {
        vstd::arithmetic::mul::lemma_mul_nonnegative(
            fe.field.extension_degree as int,
            fe.field.field_size_bits as int,
        );
    }
    vstd::arithmetic::mul::lemma_mul_nonnegative(fe.num_elements as int, w);
}

/// Prefix sums of well-formed elements are nonnegative and monotone.
pub proof fn lemma_elements_prefix_mono(s: Seq<ProofElement>, n: int, m: int)
    requires
        0 <= n <= m <= s.len(),
        forall|j: int| 0 <= j < s.len() ==> spec_element_fits(#[trigger] s[j]),
    ensures
        0 <= spec_elements_size_prefix(s, n) <= spec_elements_size_prefix(s, m),
    decreases m,
{
    if m > 0 {
        lemma_element_size_nonneg(s[m - 1]);
        if n == m {
            lemma_elements_prefix_mono(s, n - 1, m - 1);
        } else {
            lemma_elements_prefix_mono(s, n, m - 1);
        }
    }
}

/// Prefix sums of rounds of well-formed elements are nonnegative and
/// monotone.
pub proof fn lemma_rounds_prefix_mono(s: Seq<ProofRound>, n: int, m: int)
    requires
        0 <= n <= m <= s.len(),
        forall|i: int, j: int|
            0 <= i < s.len() && 0 <= j < s[i].proof_elements@.len() ==> spec_element_fits(
                #[trigger] s[i].proof_elements@[j],
            ),
    ensures
        0 <= spec_rounds_size_prefix(s, n) <= spec_rounds_size_prefix(s, m),
    decreases m,
{
    if m > 0 {
        let r = s[m - 1];
        assert(spec_round_size(r) >= 0) by {
            lemma_elements_prefix_mono(r.proof_elements@, 0, r.proof_elements@.len() as int);
        }
        if n == m {
            lemma_rounds_prefix_mono(s, m - 1, m - 1);
        } else {
            lemma_rounds_prefix_mono(s, n, m - 1);
        }
    }
}

impl Proof {
    /// Given a proof, compute the total number of bits.
    #[verifier::loop_isolation(false)]
    pub fn total_size_bits(&self) -> (r: usize)
        requires
            spec_proof_fits(*self),
        ensures
            r == spec_proof_size(*self),
    {
        let ghost rounds = self.0@;
        let mut res: usize = 0;
        let mut i: usize = 0;
        while i < self.0.len()
            invariant
                0 <= i <= rounds.len(),
                res == spec_rounds_size_prefix(rounds, i as int),
            decreases rounds.len() - i,
        {
            let round = &self.0[i];
            let ghost elems = round.proof_elements@;
            let mut j: usize = 0;
            let mut round_total: usize = 0;
            proof {
                lemma_rounds_prefix_mono(rounds, 0, i as int);
                lemma_rounds_prefix_mono(rounds, i as int, i + 1);
                lemma_rounds_prefix_mono(rounds, i + 1, rounds.len() as int);
            }
            while j < round.proof_elements.len()
                invariant
                    0 <= j <= elems.len(),
                    round_total == spec_elements_size_prefix(elems, j as int),
                decreases elems.len() - j,
            {
                proof {
                    lemma_elements_prefix_mono(elems, 0, j as int);
                    lemma_elements_prefix_mono(elems, j + 1, elems.len() as int);
                    lemma_element_size_nonneg(elems[j as int]);
                }
                let sz = match &round.proof_elements[j] {
                    ProofElement::MerkleRoot(tree) => tree.digest_size,
                    ProofElement::MerkleQueries(queries) => queries.estimate_size_bits(),
                    ProofElement::FieldElements(elements) => elements.size_bits(),
                };
                round_total = round_total + sz;
                j = j + 1;
            }
            res = res + round_total;
            i = i + 1;
        }
        res
    }
}

impl MerkleTree {
    /// A tree of 2^tree_depth leaves, each holding `leaf_size` elements, with
    /// a 256-bit digest.
    pub fn new(tree_depth: usize, field: Field, leaf_size: usize, is_extension: bool) -> (r:
        MerkleTree)
        ensures
            r == (MerkleTree {
                leaf: FieldElements { field, num_elements: leaf_size, is_extension },
                tree_depth,
                digest_size: 256,
            }),
    {
        MerkleTree {
            leaf: FieldElements { field, num_elements: leaf_size, is_extension },
            tree_depth,
            digest_size: 256,  // a fixed digest size, independent of the security level
        }
    }
}

impl MerkleQueries {
    /// Computes the number of copath elements in an authentication path,
    /// accounting for the pruning done to deduplicate and reduce proof size.
    fn copath_elements(&self) -> (r: usize)
        requires
            self.merkle_tree.tree_depth >= log2_ceil(self.num_openings as nat),
            spec_copath_elements(*self) <= usize::MAX,
        ensures
            r == spec_copath_elements(*self),
    {
        let log_num_openings = log2_ceil_usize(self.num_openings);
        proof {
            assert(0 <= self.num_openings * (self.merkle_tree.tree_depth - log2_ceil(
                self.num_openings as nat,
            ))) by (nonlinear_arith)
                requires
                    self.merkle_tree.tree_depth >= log2_ceil(self.num_openings as nat),
                    self.num_openings >= 0,
            ;
        }
        self.num_openings * (self.merkle_tree.tree_depth - log_num_openings)
    }

    /// Computes the size of the authentication paths: for each opening we
    /// reveal the neighbouring leaf or its digest, whichever is shorter,
    /// plus the copath digests.
    fn copath_size(&self) -> (r: usize)
        requires
            spec_element_fits(ProofElement::MerkleQueries(*self)),
        ensures
            r == spec_copath_size(*self),
    {
        proof {
            lemma_element_size_nonneg(ProofElement::MerkleQueries(*self));
            lemma_field_size_nonneg(self.merkle_tree.leaf);
        }
        let leaf_bits = self.merkle_tree.leaf.size_bits();
        let revealed = if leaf_bits < self.merkle_tree.digest_size {
            leaf_bits
        } else {
            self.merkle_tree.digest_size
        };
        let copath = self.copath_elements();
        self.num_openings * revealed + copath * self.merkle_tree.digest_size
    }

    /// Computes the size of the openings themselves.
    fn opening_size(&self) -> (r: usize)
        requires
            spec_element_fits(ProofElement::MerkleQueries(*self)),
        ensures
            r == spec_opening_size(*self),
    {
        proof {
            lemma_element_size_nonneg(ProofElement::MerkleQueries(*self));
            lemma_field_size_nonneg(self.merkle_tree.leaf);
        }
        let leaf_bits = self.merkle_tree.leaf.size_bits();
        self.num_openings * leaf_bits
    }

    /// Computes the total size: the authentication paths and the openings.
    fn estimate_size_bits(&self) -> (r: usize)
        requires
            spec_element_fits(ProofElement::MerkleQueries(*self)),
        ensures
            r == spec_queries_size(*self),
    {
        proof {
            lemma_element_size_nonneg(ProofElement::MerkleQueries(*self));
        }
        self.copath_size() + self.opening_size()
    }
}

impl FieldElements {
    /// The size in bits of the batch.
    fn size_bits(&self) -> (r: usize)
        requires
            self.field.extension_degree * self.field.field_size_bits <= usize::MAX,
            spec_field_elements_size(*self) <= usize::MAX,
        ensures
            r == spec_field_elements_size(*self),
    {
        proof {
            lemma_field_size_nonneg(*self);
        }
        self.num_elements * (if self.is_extension {
            self.field.extension_bit_size()
        } else {
            self.field.field_size_bits
        })
    }
}

} // verus!
