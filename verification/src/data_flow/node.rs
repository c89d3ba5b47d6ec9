//! Nodes of the region graph and the handles that name them.

use vstd::prelude::*;

verus! {

/// A handle to a node of a graph.
///
/// The low 32 bits hold the slot the node lives in and the high 32 bits the
/// generation of that slot. A handle is only ever made by a graph (or is the
/// null handle), so its generation is always odd.
#[derive(Clone, Copy, Debug, Hash)]
pub struct NodeId {
    raw: u64,
}

/// The raw value of the null handle: slot `u32::MAX`, generation 1.
pub const NULL_HANDLE: u64 = 0x1_ffff_ffff;

/// The slot index encoded in a raw handle.
pub open spec fn slot_of(raw: u64) -> int {
    raw as int % 0x1_0000_0000
}

/// The generation encoded in a raw handle.
pub open spec fn generation_of(raw: u64) -> int {
    raw as int / 0x1_0000_0000
}

impl View for NodeId {
    type V = u64;

    closed spec fn view(&self) -> u64 {
        self.raw
    }
}

impl NodeId {
    #[verifier::type_invariant]
    pub closed spec fn wf(self) -> bool {
        generation_of(self.raw) % 2 == 1
    }

    /// Two handles with the same raw value are the same handle.
    pub proof fn lemma_view_injective(a: NodeId, b: NodeId)
        ensures
            a@ == b@ <==> a == b,
    {
    }

    /// Rebuilds a handle from its raw value.
    pub(crate) fn from_raw(raw: u64) -> (id: NodeId)
        requires
            generation_of(raw) % 2 == 1,
        ensures
            id@ == raw,
    {
        NodeId { raw }
    }

    /// The raw value of the handle.
    pub fn raw(self) -> (raw: u64)
        ensures
            raw == self@,
            generation_of(raw) % 2 == 1,
    {
        proof {
            use_type_invariant(&self);
        }
        self.raw
    }

    /// Whether two handles name the same node.
    pub fn same(self, other: NodeId) -> (r: bool)
        ensures
            r == (self == other),
    {
        self.raw == other.raw
    }
}

impl Default for NodeId {
    /// The null handle, which names no node.
    fn default() -> (id: NodeId)
        ensures
            id@ == NULL_HANDLE,
    {
        NodeId { raw: NULL_HANDLE }
    }
}

/// Marks the entry of a region.
#[derive(Clone, Copy, Debug)]
pub struct RegionStart;

/// Marks the exit of a region.
#[derive(Clone, Copy, Debug)]
pub struct RegionEnd;

/// A node without regions of its own.
#[derive(Clone, Copy, Debug)]
pub enum Simple {
    RegionStart(RegionStart),
    RegionEnd(RegionEnd),
}

/// A sub-graph, named by its entry and exit markers.
#[derive(Clone, Copy, Debug)]
pub struct Region {
    start: NodeId,
    end: NodeId,
}

impl Region {
    pub closed spec fn start_id(self) -> NodeId {
        self.start
    }

    pub closed spec fn end_id(self) -> NodeId {
        self.end
    }

    pub fn new(start: NodeId, end: NodeId) -> (region: Region)
        ensures
            region.start_id() == start,
            region.end_id() == end,
    {
        Region { start, end }
    }

    #[must_use]
    pub fn start(self) -> (id: NodeId)
        ensures
            id == self.start_id(),
    {
        self.start
    }

    #[must_use]
    pub fn end(self) -> (id: NodeId)
        ensures
            id == self.end_id(),
    {
        self.end
    }
}

/// A choice between several regions.
#[derive(Debug)]
pub struct Gamma {
    regions: Vec<Region>,
}

impl Gamma {
    pub closed spec fn region_seq(&self) -> Seq<Region> {
        self.regions@
    }

    pub fn new(regions: Vec<Region>) -> (gamma: Gamma)
        ensures
            gamma.region_seq() == regions@,
    {
        Gamma { regions }
    }

    #[must_use]
    pub fn regions(&self) -> (list: &[Region])
        ensures
            list@ == self.region_seq(),
    {
        self.regions.as_slice()
    }
}

/// A loop over one region.
#[derive(Clone, Copy, Debug)]
pub struct Theta {
    region: Region,
}

/// A function body of one region.
#[derive(Clone, Copy, Debug)]
pub struct Lambda {
    region: Region,
}

/// A recursion environment of one region.
#[derive(Clone, Copy, Debug)]
pub struct Phi {
    region: Region,
}

impl Theta {
    pub closed spec fn region_of(&self) -> Region {
        self.region
    }

    pub fn new(region: Region) -> (node: Theta)
        ensures
            node.region_of() == region,
    {
        Theta { region }
    }

    #[must_use]
    pub fn region(&self) -> (region: Region)
        ensures
            region == self.region_of(),
    {
        self.region
    }
}

impl Lambda {
    pub closed spec fn region_of(&self) -> Region {
        self.region
    }

    pub fn new(region: Region) -> (node: Lambda)
        ensures
            node.region_of() == region,
    {
        Lambda { region }
    }

    #[must_use]
    pub fn region(&self) -> (region: Region)
        ensures
            region == self.region_of(),
    {
        self.region
    }
}

impl Phi {
    pub closed spec fn region_of(&self) -> Region {
        self.region
    }

    pub fn new(region: Region) -> (node: Phi)
        ensures
            node.region_of() == region,
    {
        Phi { region }
    }

    #[must_use]
    pub fn region(&self) -> (region: Region)
        ensures
            region == self.region_of(),
    {
        self.region
    }
}

/// A node that owns regions.
#[derive(Debug)]
pub enum Compound {
    Gamma(Gamma),
    Theta(Theta),
    Lambda(Lambda),
    Phi(Phi),
}

/// The slice that holds exactly `item`.
///
/// Specifies `core::slice::from_ref`, which std documents as converting a
/// reference into a slice of length one.
pub assume_specification<T>[ core::slice::from_ref::<T> ](item: &T) -> (list: &[T])
    ensures
        list@ == seq![*item],
;

impl Compound {
    /// The regions the node owns, in order.
    pub open spec fn region_seq(&self) -> Seq<Region> {
        match self {
            Compound::Gamma(gamma) => gamma.region_seq(),
            Compound::Theta(theta) => seq![theta.region_of()],
            Compound::Lambda(lambda) => seq![lambda.region_of()],
            Compound::Phi(phi) => seq![phi.region_of()],
        }
    }

    #[must_use]
    pub fn as_regions(&self) -> (list: &[Region])
        ensures
            list@ == self.region_seq(),
    {
        match self {
            Compound::Gamma(gamma) => gamma.regions(),
            Compound::Theta(theta) => core::slice::from_ref(&theta.region),
            Compound::Lambda(lambda) => core::slice::from_ref(&lambda.region),
            Compound::Phi(phi) => core::slice::from_ref(&phi.region),
        }
    }
}

/// A node of the region graph.
#[derive(Debug)]
pub enum Node {
    Simple(Simple),
    Compound(Compound),
}

impl Node {
    /// The regions the node owns; none for a simple node.
    pub open spec fn region_seq(&self) -> Seq<Region> {
        match self {
            Node::Simple(_) => Seq::empty(),
            Node::Compound(compound) => compound.region_seq(),
        }
    }

    #[must_use]
    pub fn as_simple(&self) -> (simple: Option<&Simple>)
        ensures
            simple == match *self {
                Node::Simple(s) => Some(&s),
                Node::Compound(_) => None,
            },
    {
        match self {
            Node::Simple(simple) => Some(simple),
            Node::Compound(_) => None,
        }
    }

    #[must_use]
    pub fn as_compound(&self) -> (compound: Option<&Compound>)
        ensures
            compound == match *self {
                Node::Simple(_) => None,
                Node::Compound(c) => Some(&c),
            },
    {
        match self {
            Node::Simple(_) => None,
            Node::Compound(compound) => Some(compound),
        }
    }

    #[must_use]
    pub fn as_regions(&self) -> (list: Option<&[Region]>)
        ensures
            match list {
                Some(l) => *self is Compound && l@ == self.region_seq(),
                None => *self is Simple,
            },
    {
        match self.as_compound() {
            Some(compound) => Some(compound.as_regions()),
            None => None,
        }
    }
}


impl From<RegionStart> for Node {
    /// The node that marks the entry of a region.
    fn from(data: RegionStart) -> (node: Node) {
        Node::Simple(Simple::RegionStart(data))
    }
}

impl vstd::std_specs::convert::FromSpecImpl<RegionStart> for Node {
    open spec fn obeys_from_spec() -> bool {
        true
    }

    open spec fn from_spec(data: RegionStart) -> Node {
        Node::Simple(Simple::RegionStart(data))
    }
}

impl From<RegionEnd> for Node {
    /// The node that marks the exit of a region.
    fn from(data: RegionEnd) -> (node: Node) {
        Node::Simple(Simple::RegionEnd(data))
    }
}

impl vstd::std_specs::convert::FromSpecImpl<RegionEnd> for Node {
    open spec fn obeys_from_spec() -> bool {
        true
    }

    open spec fn from_spec(data: RegionEnd) -> Node {
        Node::Simple(Simple::RegionEnd(data))
    }
}

impl From<Gamma> for Node {
    /// The node that holds a choice.
    fn from(data: Gamma) -> (node: Node) {
        Node::Compound(Compound::Gamma(data))
    }
}

impl vstd::std_specs::convert::FromSpecImpl<Gamma> for Node {
    open spec fn obeys_from_spec() -> bool {
        true
    }

    open spec fn from_spec(data: Gamma) -> Node {
        Node::Compound(Compound::Gamma(data))
    }
}

impl From<Theta> for Node {
    /// The node that holds a loop.
    fn from(data: Theta) -> (node: Node) {
        Node::Compound(Compound::Theta(data))
    }
}

impl vstd::std_specs::convert::FromSpecImpl<Theta> for Node {
    open spec fn obeys_from_spec() -> bool {
        true
    }

    open spec fn from_spec(data: Theta) -> Node {
        Node::Compound(Compound::Theta(data))
    }
}

impl From<Lambda> for Node {
    /// The node that holds a function body.
    fn from(data: Lambda) -> (node: Node) {
        Node::Compound(Compound::Lambda(data))
    }
}

impl vstd::std_specs::convert::FromSpecImpl<Lambda> for Node {
    open spec fn obeys_from_spec() -> bool {
        true
    }

    open spec fn from_spec(data: Lambda) -> Node {
        Node::Compound(Compound::Lambda(data))
    }
}

impl From<Phi> for Node {
    /// The node that holds a recursion environment.
    fn from(data: Phi) -> (node: Node) {
        Node::Compound(Compound::Phi(data))
    }
}

impl vstd::std_specs::convert::FromSpecImpl<Phi> for Node {
    open spec fn obeys_from_spec() -> bool {
        true
    }

    open spec fn from_spec(data: Phi) -> Node {
        Node::Compound(Compound::Phi(data))
    }
}

impl From<Region> for Theta {
    fn from(region: Region) -> (node: Theta) {
        Theta { region }
    }
}

impl vstd::std_specs::convert::FromSpecImpl<Region> for Theta {
    open spec fn obeys_from_spec() -> bool {
        true
    }

    closed spec fn from_spec(region: Region) -> Theta {
        Theta { region }
    }
}

impl Theta {
    /// The node around `region` has `region` as its region.
    pub proof fn lemma_from_region(region: Region)
        ensures
            <Theta as vstd::std_specs::convert::FromSpec<Region>>::from_spec(region).region_of() == region,
    {
    }
}

impl From<Region> for Lambda {
    fn from(region: Region) -> (node: Lambda) {
        Lambda { region }
    }
}

impl vstd::std_specs::convert::FromSpecImpl<Region> for Lambda {
    open spec fn obeys_from_spec() -> bool {
        true
    }

    closed spec fn from_spec(region: Region) -> Lambda {
        Lambda { region }
    }
}

impl Lambda {
    /// The node around `region` has `region` as its region.
    pub proof fn lemma_from_region(region: Region)
        ensures
            <Lambda as vstd::std_specs::convert::FromSpec<Region>>::from_spec(region).region_of() == region,
    {
    }
}

impl From<Region> for Phi {
    fn from(region: Region) -> (node: Phi) {
        Phi { region }
    }
}

impl vstd::std_specs::convert::FromSpecImpl<Region> for Phi {
    open spec fn obeys_from_spec() -> bool {
        true
    }

    closed spec fn from_spec(region: Region) -> Phi {
        Phi { region }
    }
}

impl Phi {
    /// The node around `region` has `region` as its region.
    pub proof fn lemma_from_region(region: Region)
        ensures
            <Phi as vstd::std_specs::convert::FromSpec<Region>>::from_spec(region).region_of() == region,
    {
    }
}

} // verus!
