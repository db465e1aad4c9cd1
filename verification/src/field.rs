//! Descriptor of the field a low-degree test works over.

use vstd::prelude::*;

verus! {

/// Field represents a field that we are working over.
#[derive(Debug, Clone, Copy)]
pub struct Field {
    /// The name of the field for displaying.
    pub name: &'static str,

    /// The size of the base field in bits; positive.
    pub field_size_bits: usize,

    /// The extension degree of the field (where we usually sample challenges
    /// from); positive.
    pub extension_degree: usize,
}

impl Field {
    /// The bit size of the extension field that challenges are drawn from.
    pub fn extension_bit_size(&self) -> (r: usize)
        requires
            self.extension_degree * self.field_size_bits <= usize::MAX,
        ensures
            r == self.extension_degree * self.field_size_bits,
    {
        self.extension_degree * self.field_size_bits
    }
}

} // verus!
