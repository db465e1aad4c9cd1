//! Proof-cost model: value objects (Merkle tree, Merkle-query set, batch of
//! field elements) each exposing a deterministic bit-size estimate for
//! display, unioned into a tagged proof element.

use vstd::prelude::*;
use vstd::math::min;

use crate::field::Field;
use crate::fixed::log2_ceil;
use crate::fixed::log2_ceil_usize;

verus! {

/// A token which is part of the argument string.
#[derive(Debug, Clone, Copy)]
pub enum ProofElement {
    /// A Merkle root.
    MerkleRoot(MerkleTree),
    /// A list of queries to the Merkle tree (with corresponding
    /// authentication paths and openings).
    MerkleQueries(MerkleQueries),
    /// A list of field elements.
    FieldElements(FieldElements),
}

/// Represents a Merkle tree.
#[derive(Debug, Clone, Copy)]
pub struct MerkleTree {
    /// The elements in the leaf of the tree.
    pub leaf: FieldElements,
    /// How deep the tree is (it contains 2^tree_depth elements).
    pub tree_depth: usize,
    /// How large the hash digest is.
    pub digest_size: usize,
}

/// Represents the opening of a Merkle tree.
#[derive(Debug, Clone, Copy)]
pub struct MerkleQueries {
    /// The corresponding tree.
    pub merkle_tree: MerkleTree,
    /// How many openings are requested.
    pub num_openings: usize,
}

/// Represents a list of field elements.
#[derive(Debug, Clone, Copy)]
pub struct FieldElements {
    /// The field used.
    pub field: Field,
    /// How many elements (NOTE: not in log form).
    pub num_elements: usize,
    /// Whether these are extension or base field elements.
    pub is_extension: bool,
}

/// The size in bits of a batch of field elements: the count times the bit
/// size of one element of the base or extension field.
pub open spec fn spec_field_elements_size(fe: FieldElements) -> int {
    fe.num_elements * (if fe.is_extension {
        fe.field.extension_degree * fe.field.field_size_bits
    } else {
        fe.field.field_size_bits as int
    })
}

/// The number of copath digests revealed by a pruned batch opening:
/// num_openings paths of length tree_depth - ceil(log2 num_openings).
pub open spec fn spec_copath_elements(q: MerkleQueries) -> int {
    q.num_openings * (q.merkle_tree.tree_depth - log2_ceil(q.num_openings as nat))
}

/// The size in bits of the authentication paths of a batch opening.
pub open spec fn spec_copath_size(q: MerkleQueries) -> int {
    q.num_openings * min(
        spec_field_elements_size(q.merkle_tree.leaf),
        q.merkle_tree.digest_size as int,
    ) + spec_copath_elements(q) * q.merkle_tree.digest_size
}

/// The size in bits of the opened leaves of a batch opening.
pub open spec fn spec_opening_size(q: MerkleQueries) -> int {
    q.num_openings * spec_field_elements_size(q.merkle_tree.leaf)
}

/// The estimated size in bits of a batch opening: leaves plus copaths.
pub open spec fn spec_queries_size(q: MerkleQueries) -> int {
    spec_copath_size(q) + spec_opening_size(q)
}

/// A batch opening is meaningful only when the tree is at least as deep as
/// the pruned prefix of the paths.
pub open spec fn spec_queries_wf(q: MerkleQueries) -> bool {
    q.merkle_tree.tree_depth >= log2_ceil(q.num_openings as nat)
}

/// The bit width of one element of the batch's field fits in a word.
pub open spec fn spec_field_width_fits(fe: FieldElements) -> bool {
    fe.field.extension_degree * fe.field.field_size_bits <= usize::MAX
}

/// The machine bounds under which a batch opening's sizes are computable.
pub open spec fn spec_queries_fits(q: MerkleQueries) -> bool {
    &&& spec_queries_wf(q)
    &&& spec_field_width_fits(q.merkle_tree.leaf)
    &&& spec_field_elements_size(q.merkle_tree.leaf) <= usize::MAX
    &&& spec_copath_elements(q) <= usize::MAX
    &&& spec_queries_size(q) <= usize::MAX
}

/// The size in bits of a proof element: a root costs one digest, an opening
/// its estimate, field elements their batch size.
pub open spec fn spec_element_size(e: ProofElement) -> int {
    match e {
        ProofElement::MerkleRoot(tree) => tree.digest_size as int,
        ProofElement::MerkleQueries(q) => spec_queries_size(q),
        ProofElement::FieldElements(fe) => spec_field_elements_size(fe),
    }
}

/// Every element of a proof is well formed and its size computable within
/// machine bounds.
pub open spec fn spec_element_fits(e: ProofElement) -> bool {
    match e {
        ProofElement::MerkleRoot(_) => true,
        ProofElement::MerkleQueries(q) => spec_queries_fits(q),
        ProofElement::FieldElements(fe) => spec_field_width_fits(fe)
            && spec_field_elements_size(fe) <= usize::MAX,
    }
}

impl ProofElement {
    /// The kind of the element, for display.
    pub fn element_type(&self) -> (r: &'static str)
        ensures
            r@ == match *self {
                ProofElement::MerkleRoot(_) => "MerkleRoot"@,
                ProofElement::MerkleQueries(_) => "MerkleQueries"@,
                ProofElement::FieldElements(_) => "FieldElements"@,
            },
    {
        match self {
            ProofElement::MerkleRoot(_) => "MerkleRoot",
            ProofElement::MerkleQueries(_) => "MerkleQueries",
            ProofElement::FieldElements(_) => "FieldElements",
        }
    }

    /// Given a proof element, compute its total number of bits.
    pub fn size_bits(&self) -> (r: usize)
        requires
            spec_element_fits(*self),
        ensures
            r == spec_element_size(*self),
    {
        match self {
            ProofElement::MerkleRoot(tree) => tree.digest_size,
            ProofElement::MerkleQueries(queries) => queries.estimate_size_bits(),
            ProofElement::FieldElements(elements) => elements.size_bits(),
        }
    }
}

impl MerkleTree {
    /// A tree of 2^tree_depth leaves, each holding `leaf_size` elements, with
    /// a 256-bit digest.
    pub fn new(tree_depth: usize, field: Field, leaf_size: usize, is_extension: bool) -> (r:
        MerkleTree)
        ensures
            r == (MerkleTree {
                leaf: FieldElements { field, num_elements: leaf_size, is_extension },
                tree_depth,
                digest_size: 256,
            }),
    {
        MerkleTree {
            leaf: FieldElements { field, num_elements: leaf_size, is_extension },
            tree_depth,
            digest_size: 256,  // a fixed digest size, independent of the security level
        }
    }
}

impl MerkleQueries {
    /// Computes the number of copath elements in an authentication path,
    /// accounting for the pruning done to deduplicate and reduce proof size.
    pub fn copath_elements(&self) -> (r: usize)
        requires
            spec_queries_wf(*self),
            spec_copath_elements(*self) <= usize::MAX,
        ensures
            r == spec_copath_elements(*self),
    {
        let log_num_openings = log2_ceil_usize(self.num_openings);
        proof {
            assert(0 <= self.num_openings * (self.merkle_tree.tree_depth
                - log2_ceil(self.num_openings as nat))) by (nonlinear_arith)
                requires
                    self.merkle_tree.tree_depth >= log2_ceil(self.num_openings as nat),
                    self.num_openings >= 0,
            ;
        }
        self.num_openings * (self.merkle_tree.tree_depth - log_num_openings)
    }

    /// Computes the size of the authentication paths: for each opening we
    /// reveal the neighbouring leaf or its digest, whichever is shorter,
    /// plus the copath digests.
    pub fn copath_size(&self) -> (r: usize)
        requires
            spec_queries_wf(*self),
            spec_field_width_fits(self.merkle_tree.leaf),
            spec_field_elements_size(self.merkle_tree.leaf) <= usize::MAX,
            spec_copath_elements(*self) <= usize::MAX,
            spec_copath_size(*self) <= usize::MAX,
        ensures
            r == spec_copath_size(*self),
    {
        proof {
            lemma_copath_parts_nonneg(*self);
        }
        let leaf_bits = self.merkle_tree.leaf.size_bits();
        let revealed = if leaf_bits < self.merkle_tree.digest_size {
            leaf_bits
        } else {
            self.merkle_tree.digest_size
        };
        let copath = self.copath_elements();
        self.num_openings * revealed + copath * self.merkle_tree.digest_size
    }

    /// Computes the size of the openings themselves.
    pub fn opening_size(&self) -> (r: usize)
        requires
            spec_field_width_fits(self.merkle_tree.leaf),
            spec_field_elements_size(self.merkle_tree.leaf) <= usize::MAX,
            spec_opening_size(*self) <= usize::MAX,
        ensures
            r == spec_opening_size(*self),
    {
        proof {
            lemma_field_elements_size_nonneg(self.merkle_tree.leaf);
        }
        let leaf_bits = self.merkle_tree.leaf.size_bits();
        self.num_openings * leaf_bits
    }

    /// Computes the total size: the authentication paths and the openings.
    pub fn estimate_size_bits(&self) -> (r: usize)
        requires
            spec_queries_fits(*self),
        ensures
            r == spec_queries_size(*self),
    {
        proof {
            lemma_copath_parts_nonneg(*self);
            lemma_field_elements_size_nonneg(self.merkle_tree.leaf);
        }
        self.copath_size() + self.opening_size()
    }
}

impl FieldElements {
    /// The size in bits of the batch.
    pub fn size_bits(&self) -> (r: usize)
        requires
            spec_field_width_fits(*self),
            spec_field_elements_size(*self) <= usize::MAX,
        ensures
            r == spec_field_elements_size(*self),
    {
        proof {
            lemma_field_elements_size_nonneg(*self);
        }
        self.num_elements * (if self.is_extension {
            self.field.extension_bit_size()
        } else {
            self.field.field_size_bits
        })
    }
}

/// The size of a well-formed proof element is nonnegative.
pub proof fn lemma_element_size_nonneg(e: ProofElement)
    requires
        spec_element_fits(e),
    ensures
        spec_element_size(e) >= 0,
{
    match e {
        ProofElement::MerkleRoot(_) => {},
        ProofElement::MerkleQueries(q) => {
            lemma_copath_parts_nonneg(q);
        },
        ProofElement::FieldElements(fe) => {
            lemma_field_elements_size_nonneg(fe);
        },
    }
}

/// Sizes of field-element batches are nonnegative.
pub proof fn lemma_field_elements_size_nonneg(fe: FieldElements)
    ensures
        spec_field_elements_size(fe) >= 0,
{
    let w = if fe.is_extension {
        fe.field.extension_degree * fe.field.field_size_bits
    } else {
        fe.field.field_size_bits as int
    };
    assert(w >= 0) by {
        vstd::arithmetic::mul::lemma_mul_nonnegative(
            fe.field.extension_degree as int,
            fe.field.field_size_bits as int,
        );
    }
    vstd::arithmetic::mul::lemma_mul_nonnegative(fe.num_elements as int, w);
}

/// Both parts of a copath size are nonnegative for a well-formed opening.
pub proof fn lemma_copath_parts_nonneg(q: MerkleQueries)
    requires
        spec_queries_wf(q),
    ensures
        spec_copath_elements(q) >= 0,
        q.num_openings * min(
            spec_field_elements_size(q.merkle_tree.leaf),
            q.merkle_tree.digest_size as int,
        ) >= 0,
        spec_copath_elements(q) * q.merkle_tree.digest_size >= 0,
        spec_opening_size(q) >= 0,
{
    lemma_field_elements_size_nonneg(q.merkle_tree.leaf);
    vstd::arithmetic::mul::lemma_mul_nonnegative(
        q.num_openings as int,
        (q.merkle_tree.tree_depth - log2_ceil(q.num_openings as nat)) as int,
    );
    vstd::arithmetic::mul::lemma_mul_nonnegative(
        q.num_openings as int,
        min(spec_field_elements_size(q.merkle_tree.leaf), q.merkle_tree.digest_size as int),
    );
    vstd::arithmetic::mul::lemma_mul_nonnegative(
        spec_copath_elements(q),
        q.merkle_tree.digest_size as int,
    );
    vstd::arithmetic::mul::lemma_mul_nonnegative(
        q.num_openings as int,
        spec_field_elements_size(q.merkle_tree.leaf),
    );
}

} // verus!
