//! The unit of genetic material.

use vstd::prelude::*;
use vstd::std_specs::iter::IteratorSpec;

verus! {

/// An ordered run of genes, each the bit pattern of a single-precision
/// real. Once built, a chromosome keeps its length: genes can be read and
/// overwritten, never added or taken away.
#[derive(Debug)]
pub struct Chromosome {
    genes: Vec<u32>,
}

impl View for Chromosome {
    type V = Seq<u32>;

    closed spec fn view(&self) -> Seq<u32> {
        self.genes@
    }
}

impl Chromosome {
    /// The number of genes.
    pub fn len(&self) -> (count: usize)
        ensures
            count == self@.len(),
    {
        self.genes.len()
    }

    /// Whether there is no gene at all.
    #[must_use]
    pub fn is_empty(&self) -> (empty: bool)
        ensures
            empty == (self@.len() == 0),
    {
        self.len() == 0
    }

    /// The genes, first to last.
    pub fn iter(&self) -> (genes: std::slice::Iter<'_, u32>)
        ensures
            genes.remaining() == self@.as_ref(),
    {
        self.genes.iter()
    }

    /// The genes as a run that can be overwritten in place.
    pub fn iter_mut(&mut self) -> (genes: &mut [u32])
        ensures
            genes@ == old(self)@,
            final(genes)@ == final(self)@,
    {
        self.genes.as_mut_slice()
    }

    /// The chromosome that holds `genes` in their order.
    pub fn from_iter(genes: Vec<u32>) -> (chromosome: Chromosome)
        ensures
            chromosome@ == genes@,
    {
        Chromosome { genes }
    }
}

impl IntoIterator for Chromosome {
    type Item = u32;

    type IntoIter = std::vec::IntoIter<u32>;

    /// Gives the genes up, first to last.
    fn into_iter(self) -> (genes: std::vec::IntoIter<u32>)
        ensures
            genes.remaining() == self@,
    {
        self.genes.into_iter()
    }
}

impl Clone for Chromosome {
    /// A copy with the same genes.
    fn clone(&self) -> (copy: Chromosome)
        ensures
            copy@ == self@,
    {
        Chromosome { genes: self.genes.clone() }
    }
}

impl std::ops::Index<usize> for Chromosome {
    type Output = u32;

    /// The gene at `index`, which must lie below the length.
    fn index(&self, index: usize) -> (gene: &u32)
        ensures
            *gene == self@[index as int],
    {
        &self.genes[index]
    }
}

impl vstd::std_specs::core::IndexSpecImpl<usize> for Chromosome {
    open spec fn index_req(&self, index: &usize) -> bool {
        *index < self@.len()
    }
}

} // verus!
