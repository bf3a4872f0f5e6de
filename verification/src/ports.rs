//! Port allocation: pick the first port in `[preferred, preferred + SCAN_WIDTH)`
//! that a local probe found free, falling back to the preferred port itself
//! when the whole range is occupied. Probing a port (binding and immediately
//! releasing a listener) is the caller's job; this module decides which port
//! to probe next and which port the scan settles on. The availability of a
//! port can change between the probe and the server's own bind; the scan
//! only reports what the probes observed.

use vstd::prelude::*;

verus! {

/// Width of the scanned port range.
pub const SCAN_WIDTH: u16 = 100;

/// Index of the first `true` in `free`, or `-1` when there is none.
pub open spec fn first_free_index(free: Seq<bool>) -> int
    decreases free.len(),
{
    if free.len() == 0 {
        -1
    } else if free[0] {
        0
    } else {
        let rest = first_free_index(free.drop_first());
        if rest < 0 {
            -1
        } else {
            rest + 1
        }
    }
}

/// The port the scan settles on, given the probe answers for each offset:
/// preferred + (first free offset), or the preferred port itself when no
/// probed port was free.
pub open spec fn chosen_port(preferred: u16, free: Seq<bool>) -> int {
    let idx = first_free_index(free);
    if idx < 0 {
        preferred as int
    } else {
        preferred + idx
    }
}

/// `first_free_index` points at a free slot, and at the first one.
proof fn lemma_first_free_index(free: Seq<bool>)
    ensures
        first_free_index(free) >= 0 ==> {
            &&& first_free_index(free) < free.len()
            &&& free[first_free_index(free)]
            &&& forall|j: int| 0 <= j < first_free_index(free) ==> !free[j]
        },
        first_free_index(free) < 0 ==> (forall|j: int| 0 <= j < free.len() ==> !free[j]),
    decreases free.len(),
{
    if free.len() > 0 && !free[0] {
        lemma_first_free_index(free.drop_first());
        let rest = first_free_index(free.drop_first());
        if rest >= 0 {
            assert forall|j: int| 0 <= j < rest + 1 implies !free[j] by {
                if j > 0 {
                    assert(free[j] == free.drop_first()[j - 1]);
                }
            }
        } else {
            assert forall|j: int| 0 <= j < free.len() implies !free[j] by {
                if j > 0 {
                    assert(free[j] == free.drop_first()[j - 1]);
                }
            }
        }
    }
}

/// Fallback identity: when every port in the range is occupied, the scan
/// settles on exactly the preferred port.
pub proof fn lemma_all_occupied_falls_back(preferred: u16, free: Seq<bool>)
    requires
        forall|j: int| 0 <= j < free.len() ==> !free[j],
    ensures
        chosen_port(preferred, free) == preferred as int,
    decreases free.len(),
{
    if free.len() > 0 {
        lemma_all_occupied_falls_back(preferred, free.drop_first());
    }
}

/// When the preferred port itself is free, the scan settles on it.
pub proof fn lemma_preferred_free_wins(preferred: u16, free: Seq<bool>)
    requires
        free.len() > 0,
        free[0],
    ensures
        chosen_port(preferred, free) == preferred as int,
{
}

/// The general shape of a scan: if offset `k` is the first free one, the
/// scan settles on `preferred + k`.
pub proof fn lemma_first_free_offset_wins(preferred: u16, free: Seq<bool>, k: int)
    requires
        0 <= k < free.len(),
        free[k],
        forall|j: int| 0 <= j < k ==> !free[j],
    ensures
        chosen_port(preferred, free) == preferred + k,
    decreases k,
{
    if k > 0 {
        lemma_first_free_offset_wins(preferred, free.drop_first(), k - 1);
    }
}

/// Settles the scan given the probe answer for every offset in the range:
/// the first free port, or the preferred port when none was free.
pub fn allocate_from(preferred: u16, free: &Vec<bool>) -> (r: u16)
    requires
        free.len() == SCAN_WIDTH,
        preferred + SCAN_WIDTH <= u16::MAX + 1,
    ensures
        r as int == chosen_port(preferred, free@),
{
    let mut i: usize = 0;
    while i < free.len()
        invariant
            free.len() == SCAN_WIDTH,
            preferred + SCAN_WIDTH <= u16::MAX + 1,
            i <= free.len(),
            forall|j: int| 0 <= j < i ==> !free@[j],
        decreases free.len() - i,
    {
        if free[i] {
            proof {
                lemma_first_free_offset_wins(preferred, free@, i as int);
            }
            return preferred + (i as u16);
        }
        i += 1;
    }
    proof {
        lemma_all_occupied_falls_back(preferred, free@);
    }
    preferred
}

/// A scan in progress: the preferred port and how many offsets have been
/// probed and found occupied so far.
pub struct PortScan {
    preferred: u16,
    probed: u16,
}

impl PortScan {
    pub closed spec fn spec_preferred(self) -> u16 {
        self.preferred
    }

    pub closed spec fn spec_probed(self) -> u16 {
        self.probed
    }

    pub open spec fn wf(self) -> bool {
        &&& self.spec_probed() <= SCAN_WIDTH
        &&& self.spec_preferred() + SCAN_WIDTH <= u16::MAX + 1
    }

    pub fn new(preferred: u16) -> (s: Self)
        requires
            preferred + SCAN_WIDTH <= u16::MAX + 1,
        ensures
            s.wf(),
            s.spec_preferred() == preferred,
            s.spec_probed() == 0,
    {
        PortScan { preferred, probed: 0 }
    }

    /// The next port to probe, or `None` when the range is exhausted.
    pub fn next_candidate(&self) -> (r: Option<u16>)
        requires
            self.wf(),
        ensures
            r == if self.spec_probed() < SCAN_WIDTH {
                Some((self.spec_preferred() + self.spec_probed()) as u16)
            } else {
                None::<u16>
            },
    {
        if self.probed < SCAN_WIDTH {
            Some(self.preferred + self.probed)
        } else {
            None
        }
    }

    /// Records that the current candidate was probed and found occupied.
    pub fn record_occupied(&mut self)
        requires
            old(self).wf(),
            old(self).spec_probed() < SCAN_WIDTH,
        ensures
            final(self).wf(),
            final(self).spec_preferred() == old(self).spec_preferred(),
            final(self).spec_probed() == old(self).spec_probed() + 1,
    {
        self.probed += 1;
    }

    /// The port to fall back on when every candidate was occupied.
    pub fn fallback(&self) -> (r: u16)
        ensures
            r == self.spec_preferred(),
    {
        self.preferred
    }
}

} // verus!
