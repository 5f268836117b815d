//! The placement of sections in memory.

use vstd::prelude::*;
use crate::object::object::ObjectFile;
use crate::object::section::Section;

verus! {

/// Where every section goes: `section_offsets[i][j]` is the address of
/// section `j` of object file `i`.
pub struct Layout {
    pub section_offsets: Vec<Vec<u64>>,
    pub section_sizes: Vec<u64>,
    pub base_address: u64,
}

/// The address `addr` moved up to the alignment `align`: the bits below
/// the alignment are cleared in `addr + align - 1`. For a power of two this
/// is the least multiple of `align` that is not below `addr`.
pub open spec fn aligned(addr: u64, align: u64) -> u64 {
    ((addr + align - 1) as u64) & !((align - 1) as u64)
}

/// The address behind the first `n` sections of `sections`, laid out one
/// behind the other from `addr`, each at its alignment.
pub open spec fn end_of(sections: Seq<Section>, n: int, addr: u64) -> u64
    decreases n,
{
    if n <= 0 {
        addr
    } else {
        (aligned(end_of(sections, n - 1, addr), sections[n - 1].align) + sections[n
            - 1].data@.len()) as u64
    }
}

/// The section `s` can be placed at or behind `addr`: it has an alignment
/// of one at least, and neither aligning nor the section runs over the end
/// of the address space.
pub open spec fn section_fits(s: Section, addr: u64) -> bool {
    &&& s.align >= 1
    &&& addr + s.align <= u64::MAX
    &&& aligned(addr, s.align) + s.data@.len() <= u64::MAX
}

/// The first `n` sections can be laid out from `addr`.
pub open spec fn sections_fit(sections: Seq<Section>, n: int, addr: u64) -> bool
    decreases n,
{
    n <= 0 || (sections_fit(sections, n - 1, addr) && section_fits(
        sections[n - 1],
        end_of(sections, n - 1, addr),
    ))
}

/// The address behind the first `n` object files, laid out one behind the
/// other from `addr`.
pub open spec fn end_of_objects(objects: Seq<ObjectFile>, n: int, addr: u64) -> u64
    decreases n,
{
    if n <= 0 {
        addr
    } else {
        end_of(
            objects[n - 1].sections@,
            objects[n - 1].sections@.len() as int,
            end_of_objects(objects, n - 1, addr),
        )
    }
}

/// The first `n` object files can be laid out from `addr`.
pub open spec fn objects_fit(objects: Seq<ObjectFile>, n: int, addr: u64) -> bool
    decreases n,
{
    n <= 0 || (objects_fit(objects, n - 1, addr) && sections_fit(
        objects[n - 1].sections@,
        objects[n - 1].sections@.len() as int,
        end_of_objects(objects, n - 1, addr),
    ))
}

/// Aligning to a power of two gives a multiple of the alignment that is
/// not below the address and less than one alignment above it.
pub proof fn lemma_aligned_power_of_two(addr: u64, align: u64)
    requires
        align >= 1,
        align & ((align - 1) as u64) == 0,
        addr + align - 1 <= u64::MAX,
    ensures
        aligned(addr, align) & ((align - 1) as u64) == 0,
        addr <= aligned(addr, align) < addr + align,
{
    assert((((addr + align - 1) as u64) & !((align - 1) as u64)) & ((align - 1) as u64) == 0)
        by (bit_vector);
    assert(addr <= (((addr + align - 1) as u64) & !((align - 1) as u64)) < addr + align)
        by (bit_vector)
        requires
            align >= 1,
            align & ((align - 1) as u64) == 0,
            addr + align - 1 <= u64::MAX,
    ;
}

impl Layout {
    /// Lays the sections of the object files out one behind the other from
    /// `base_address`, each at its alignment. The sizes of the merged
    /// sections are not computed yet.
    pub fn compute(objects: &[ObjectFile], base_address: u64) -> (r: Self)
        requires
            objects_fit(objects@, objects@.len() as int, base_address),
        ensures
            r.base_address == base_address,
            r.section_sizes@.len() == 0,
            r.section_offsets@.len() == objects@.len(),
            forall|i: int|
                0 <= i < objects@.len() ==> (#[trigger] r.section_offsets@[i])@.len()
                    == objects@[i].sections@.len(),
            forall|i: int, j: int|
                0 <= i < objects@.len() && 0 <= j < objects@[i].sections@.len()
                    ==> #[trigger] r.section_offsets@[i]@[j] == aligned(
                    end_of(objects@[i].sections@, j, end_of_objects(objects@, i, base_address)),
                    objects@[i].sections@[j].align,
                ),
    {
        let mut section_offsets: Vec<Vec<u64>> = Vec::new();
        let mut current_addr = base_address;
        let mut i: usize = 0;
        while i < objects.len()
            invariant
                i <= objects@.len(),
                objects_fit(objects@, objects@.len() as int, base_address),
                objects_fit(objects@, i as int, base_address),
                current_addr == end_of_objects(objects@, i as int, base_address),
                section_offsets@.len() == i,
                forall|a: int|
                    0 <= a < i ==> (#[trigger] section_offsets@[a])@.len()
                        == objects@[a].sections@.len(),
                forall|a: int, b: int|
                    0 <= a < i && 0 <= b < objects@[a].sections@.len()
                        ==> #[trigger] section_offsets@[a]@[b] == aligned(
                        end_of(objects@[a].sections@, b, end_of_objects(objects@, a, base_address)),
                        objects@[a].sections@[b].align,
                    ),
            decreases objects@.len() - i,
        {
            let obj = &objects[i];
            let ghost start = current_addr;
            proof {
                lemma_objects_fit_prefix(objects@, i + 1, objects@.len() as int, base_address);
            }
            let mut obj_offsets: Vec<u64> = Vec::new();
            let mut j: usize = 0;
            while j < obj.sections.len()
                invariant
                    j <= obj.sections@.len(),
                    sections_fit(obj.sections@, obj.sections@.len() as int, start),
                    current_addr == end_of(obj.sections@, j as int, start),
                    obj_offsets@.len() == j,
                    forall|b: int|
                        0 <= b < j ==> #[trigger] obj_offsets@[b] == aligned(
                            end_of(obj.sections@, b, start),
                            obj.sections@[b].align,
                        ),
                decreases obj.sections@.len() - j,
            {
                let sec = &obj.sections[j];
                proof {
                    lemma_sections_fit_prefix(
                        obj.sections@,
                        j + 1,
                        obj.sections@.len() as int,
                        start,
                    );
                }
                current_addr = (current_addr + sec.align - 1) & !(sec.align - 1);
                obj_offsets.push(current_addr);
                current_addr += sec.data.len() as u64;
                j += 1;
            }
            section_offsets.push(obj_offsets);
            i += 1;
        }
        Layout { section_offsets, section_sizes: Vec::new(), base_address }
    }
}

/// Where more sections fit, fewer fit.
pub proof fn lemma_sections_fit_prefix(sections: Seq<Section>, k: int, n: int, addr: u64)
    requires
        k <= n,
        sections_fit(sections, n, addr),
    ensures
        sections_fit(sections, k, addr),
    decreases n - k,
{
    if k < n {
        lemma_sections_fit_prefix(sections, k, n - 1, addr);
    }
}

/// Where more object files fit, fewer fit.
pub proof fn lemma_objects_fit_prefix(objects: Seq<ObjectFile>, k: int, n: int, addr: u64)
    requires
        k <= n,
        objects_fit(objects, n, addr),
    ensures
        objects_fit(objects, k, addr),
    decreases n - k,
{
    if k < n {
        lemma_objects_fit_prefix(objects, k, n - 1, addr);
    }
}

} // verus!
