//! Capabilities: the subprotocols that two peers speak, and where their message ids start.

use vstd::prelude::*;

verus! {

/// A subprotocol by name and version, such as version 68 of `eth`.
#[derive(Debug)]
pub struct Capability {
    /// The name of the subprotocol.
    pub name: String,
    /// The version of the subprotocol.
    pub version: usize,
}

impl View for Capability {
    type V = (Seq<char>, usize);

    open spec fn view(&self) -> (Seq<char>, usize) {
        (self.name@, self.version)
    }
}

impl Clone for Capability {
    fn clone(&self) -> (res: Self)
        ensures
            res == *self,
    {
        Capability { name: self.name.clone(), version: self.version }
    }
}

impl Capability {
    /// The capability of the given name and version.
    pub fn new(name: String, version: usize) -> (cap: Self)
        ensures
            cap.name == name,
            cap.version == version,
    {
        Capability { name, version }
    }

    /// Whether both name and version agree.
    pub fn matches(&self, other: &Capability) -> (yes: bool)
        ensures
            yes == (self@ == other@),
            yes == (self.name@ == other.name@ && self.version == other.version),
    {
        self.name == other.name && self.version == other.version
    }
}

/// A capability that both peers have, with the offset that its message ids got.
#[derive(Debug)]
pub struct SharedCapability {
    /// The capability.
    pub capability: Capability,
    /// How far its message ids are shifted, counted from the first id that is not reserved for
    /// the p2p connection itself.
    pub offset: u8,
}

impl Clone for SharedCapability {
    fn clone(&self) -> (res: Self)
        ensures
            res == *self,
    {
        SharedCapability { capability: self.capability.clone(), offset: self.offset }
    }
}

impl SharedCapability {
    /// The capability `capability` with its ids shifted by `offset`.
    pub fn new(capability: Capability, offset: u8) -> (shared: Self)
        ensures
            shared.capability == capability,
            shared.offset == offset,
    {
        SharedCapability { capability, offset }
    }

    /// How far the message ids of this capability are shifted.
    pub fn relative_message_id_offset(&self) -> (offset: u8)
        ensures
            offset == self.offset,
    {
        self.offset
    }
}

/// The capability asked for is not among those that both peers have.
#[derive(Debug)]
pub struct UnsupportedCapabilityError {
    /// The capability that was asked for.
    pub capability: Capability,
}

/// The capabilities that both peers have.
#[derive(Debug)]
pub struct SharedCapabilities {
    caps: Vec<SharedCapability>,
}

impl View for SharedCapabilities {
    type V = Seq<SharedCapability>;

    closed spec fn view(&self) -> Seq<SharedCapability> {
        self.caps@
    }
}

/// Whether the capability at `i` is the first of `caps` with the name and version `cap`.
pub open spec fn is_first_match(
    caps: Seq<SharedCapability>,
    cap: (Seq<char>, usize),
    i: int,
) -> bool {
    &&& 0 <= i < caps.len()
    &&& caps[i].capability@ == cap
    &&& forall|j: int| 0 <= j < i ==> (#[trigger] caps[j]).capability@ != cap
}

/// The first of `caps` with the name and version `cap`, if there is one.
pub open spec fn matching(
    caps: Seq<SharedCapability>,
    cap: (Seq<char>, usize),
) -> Option<SharedCapability> {
    if exists|i: int| is_first_match(caps, cap, i) {
        Some(caps[choose|i: int| is_first_match(caps, cap, i)])
    } else {
        None
    }
}

/// A capability is found exactly if it is shared, and what is found has the name and version that
/// was asked for.
pub proof fn law_matching_is_shared(caps: Seq<SharedCapability>, cap: (Seq<char>, usize))
    ensures
        matching(caps, cap) is Some <==> exists|i: int|
            0 <= i < caps.len() && (#[trigger] caps[i]).capability@ == cap,
        matching(caps, cap) matches Some(shared) ==> shared.capability@ == cap && caps.contains(
            shared,
        ),
{
    if exists|i: int| 0 <= i < caps.len() && (#[trigger] caps[i]).capability@ == cap {
        let i = choose|i: int| 0 <= i < caps.len() && (#[trigger] caps[i]).capability@ == cap;
        lemma_first_match_exists(caps, cap, i);
    }
}

/// If the capability listed at `i` is the first with the name and version that are asked for, it
/// is the one that is found; if there is no such capability, none is.
pub proof fn law_first_match_is_found(
    caps: Seq<SharedCapability>,
    name: Seq<char>,
    version: usize,
    i: int,
)
    requires
        0 <= i <= caps.len(),
        forall|j: int|
            0 <= j < i ==> (#[trigger] caps[j]).capability.name@ != name
                || caps[j].capability.version != version,
        i < caps.len() ==> caps[i].capability.name@ == name && caps[i].capability.version
            == version,
    ensures
        matching(caps, (name, version)) == (if i < caps.len() {
            Some(caps[i])
        } else {
            None
        }),
{
    if i < caps.len() {
        assert(is_first_match(caps, (name, version), i));
        let k = choose|k: int| is_first_match(caps, (name, version), k);
        assert(k == i) by {
            if k < i {
                assert(caps[k].capability.name@ != name || caps[k].capability.version != version);
            } else if i < k {
                assert(caps[i].capability@ != (name, version));
            }
        }
    } else {
        assert forall|k: int| !is_first_match(caps, (name, version), k) by {
            if 0 <= k < caps.len() {
                assert(caps[k].capability.name@ != name || caps[k].capability.version != version);
            }
        }
    }
}

proof fn lemma_first_match_exists(caps: Seq<SharedCapability>, cap: (Seq<char>, usize), i: int)
    requires
        0 <= i < caps.len(),
        caps[i].capability@ == cap,
    ensures
        exists|k: int| is_first_match(caps, cap, k),
    decreases i,
{
    if exists|j: int| 0 <= j < i && (#[trigger] caps[j]).capability@ == cap {
        let j = choose|j: int| 0 <= j < i && (#[trigger] caps[j]).capability@ == cap;
        lemma_first_match_exists(caps, cap, j);
    } else {
        assert(is_first_match(caps, cap, i));
    }
}

impl SharedCapabilities {
    /// The shared capabilities, in the order in which they were agreed on.
    pub fn new(caps: Vec<SharedCapability>) -> (shared: Self)
        ensures
            shared@ == caps@,
    {
        SharedCapabilities { caps }
    }

    /// The shared capability with the name and version of `cap`, or an error that names `cap` if
    /// the peers do not share it.
    pub fn ensure_matching_capability(&self, cap: &Capability) -> (res: Result<
        &SharedCapability,
        UnsupportedCapabilityError,
    >)
        ensures
            match res {
                Ok(shared) => matching(self@, cap@) == Some(*shared),
                Err(err) => matching(self@, cap@) is None && err.capability == *cap,
            },
    {
        let mut i: usize = 0;
        while i < self.caps.len()
            invariant
                i <= self.caps@.len(),
                forall|j: int| 0 <= j < i ==> (#[trigger] self.caps@[j]).capability@ != cap@,
            decreases self.caps@.len() - i,
        {
            if self.caps[i].capability.matches(cap) {
                assert(is_first_match(self@, cap@, i as int));
                return Ok(&self.caps[i]);
            }
            i = i + 1;
        }
        Err(UnsupportedCapabilityError { capability: cap.clone() })
    }
}

} // verus!
