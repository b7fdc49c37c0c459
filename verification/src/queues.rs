//! Queue-family bookkeeping for device selection: the pair of family indices
//! a device must offer, its partially discovered form, and the error a still
//! incomplete pair turns into.

use std::collections::HashSet;
use vstd::prelude::*;
use vstd::string::StringExecFns;

verus! {

broadcast use vstd::std_specs::hash::group_hash_axioms;

/// The two queue families the renderer needs: one with graphics support and
/// one that can present to the surface.
#[derive(Debug, Clone)]
pub struct QueueFamilies {
    pub graphics: u32,
    pub present: u32,
}

impl QueueFamilies {
    /// Both family indices, graphics first.
    pub fn to_vec(&self) -> (r: Vec<u32>)
        ensures
            r@ == seq![self.graphics, self.present],
    {
        let mut r: Vec<u32> = Vec::new();
        r.push(self.graphics);
        r.push(self.present);
        proof {
            assert(r@ =~= seq![self.graphics, self.present]);
        }
        r
    }

    /// The set of distinct family indices: one element when graphics and
    /// present share a family, two otherwise.
    pub fn get_unique_families(&self) -> (r: HashSet<u32>)
        ensures
            forall|x: u32| r@.contains(x) <==> (x == self.graphics || x == self.present),
    {
        let families = self.to_vec();
        let mut set: HashSet<u32> = HashSet::new();
        let mut i: usize = 0;
        while i < families.len()
            invariant
                i <= families@.len(),
                families@ == seq![self.graphics, self.present],
                forall|x: u32| set@.contains(x) <==> families@.take(i as int).contains(x),
            decreases families@.len() - i,
        {
            let family = families[i];
            set.insert(family);
            proof {
                assert(families@.take(i as int + 1) =~= families@.take(i as int).push(family));
                assert(families@.take(i as int + 1)[i as int] == family);
                assert forall|x: u32| set@.contains(x) <==> families@.take(
                    i as int + 1,
                ).contains(x) by {
                    if families@.take(i as int + 1).contains(x) {
                        let w = choose|w: int|
                            0 <= w < i + 1 && #[trigger] families@.take(i as int + 1)[w] == x;
                        if w < i {
                            assert(families@.take(i as int)[w] == x);
                        }
                    }
                    if set@.contains(x) && x != family {
                        let w = choose|w: int|
                            0 <= w < i && #[trigger] families@.take(i as int)[w] == x;
                        assert(families@.take(i as int + 1)[w] == x);
                    }
                }
            }
            i = i + 1;
        }
        proof {
            assert(families@.take(2) =~= families@);
            assert forall|x: u32| set@.contains(x) <==> (x == self.graphics || x
                == self.present) by {
                if x == self.graphics {
                    assert(families@[0] == x);
                }
                if x == self.present {
                    assert(families@[1] == x);
                }
            }
        }
        set
    }
}

/// The queue families found so far while scanning a device's family table.
#[derive(Debug, Clone)]
pub struct PartialQueueFamilies {
    pub graphics: Option<u32>,
    pub present: Option<u32>,
}

impl PartialQueueFamilies {
    /// An empty scan: no family found yet.
    pub fn new() -> (r: Self)
        ensures
            r.graphics is None,
            r.present is None,
    {
        Self { graphics: None, present: None }
    }

    /// One step of a device's family scan: records this family for each
    /// capability it offers, overwriting any family recorded earlier, as the
    /// scan keeps the last suitable family it sees.
    pub fn note_family(&mut self, family: u32, supports_graphics: bool, supports_present: bool)
        ensures
            final(self).graphics == (if supports_graphics {
                Some(family)
            } else {
                old(self).graphics
            }),
            final(self).present == (if supports_present {
                Some(family)
            } else {
                old(self).present
            }),
    {
        if supports_graphics {
            self.graphics = Some(family);
        }
        if supports_present {
            self.present = Some(family);
        }
    }

    /// Whether a family of each kind has been found.
    pub fn is_complete(&self) -> (r: bool)
        ensures
            r == (self.graphics is Some && self.present is Some),
    {
        self.graphics.is_some() && self.present.is_some()
    }
}

impl Default for PartialQueueFamilies {
    fn default() -> (r: Self)
        ensures
            r.graphics is None,
            r.present is None,
    {
        Self::new()
    }
}

/// Which of the two queue families a device scan failed to find.
pub open spec fn spec_incomplete_message(p: PartialQueueFamilies) -> Seq<char> {
    (if p.graphics is None {
        "Missing graphics queue"@
    } else {
        Seq::<char>::empty()
    }) + (if p.present is None {
        "Missing present queue"@
    } else {
        Seq::<char>::empty()
    })
}

/// A device scan ended without finding every needed queue family.
#[derive(Debug, Clone)]
pub struct IncompleteQueueFamiliesError {
    pub partial_families: PartialQueueFamilies,
}

impl IncompleteQueueFamiliesError {
    /// Names the queue families that are missing.
    pub fn message(&self) -> (r: String)
        ensures
            r@ == spec_incomplete_message(self.partial_families),
    {
        let mut s = String::new();
        if self.partial_families.graphics.is_none() {
            s.append("Missing graphics queue");
        }
        if self.partial_families.present.is_none() {
            s.append("Missing present queue");
        }
        proof {
            assert(s@ =~= spec_incomplete_message(self.partial_families));
        }
        s
    }
}

impl QueueFamilies {
    /// Completes a scan: both families when each was found, else the error
    /// naming what is missing.
    pub fn try_from(partial_families: PartialQueueFamilies) -> (r: Result<
        QueueFamilies,
        IncompleteQueueFamiliesError,
    >)
        ensures
            partial_families.graphics is Some && partial_families.present is Some ==> (
            r matches Ok(q) && q.graphics == partial_families.graphics->0 && q.present
                == partial_families.present->0),
            !(partial_families.graphics is Some && partial_families.present is Some) ==> (
            r matches Err(e) && e.partial_families == partial_families),
    {
        match (partial_families.graphics, partial_families.present) {
            (Some(graphics), Some(present)) => Ok(QueueFamilies { graphics, present }),
            _ => Err(IncompleteQueueFamiliesError { partial_families }),
        }
    }
}

} // verus!
