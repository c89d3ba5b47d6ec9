//! The small pieces of text that the rendering is made of.

use vstd::prelude::*;
use vstd::string::*;

use crate::data_flow::node::{slot_of, generation_of, NodeId, Simple};
use crate::text::{decimal, push_decimal, push_index};

verus! {

/// The kinds of cluster in a rendering.
#[derive(Clone, Copy, Debug, PartialEq, Eq, Structural)]
pub enum NodeType {
    Gamma,
    Theta,
    Lambda,
    Phi,
    Then,
    Reachable,
    NotReachable,
}

/// The fill colour of a cluster, quoted.
pub open spec fn color_text(typ: NodeType) -> Seq<char> {
    match typ {
        NodeType::Gamma => "\"#8b81e8\""@,
        NodeType::Theta => "\"#bb84ca\""@,
        NodeType::Lambda => "\"#dde881\""@,
        NodeType::Phi => "\"#e6b79a\""@,
        NodeType::Then => "\"#89b7d7\""@,
        NodeType::Reachable => "\"#81e8bf\""@,
        NodeType::NotReachable => "\"#e881aa\""@,
    }
}

/// The name of a cluster, quoted.
pub open spec fn label_text(typ: NodeType) -> Seq<char> {
    match typ {
        NodeType::Gamma => "\"Gamma\""@,
        NodeType::Theta => "\"Theta\""@,
        NodeType::Lambda => "\"Lambda\""@,
        NodeType::Phi => "\"Phi\""@,
        NodeType::Then => "\"Then\""@,
        NodeType::Reachable => "\"Reachable\""@,
        NodeType::NotReachable => "\"Not Reachable\""@,
    }
}

/// The fill colour of a kind of cluster.
#[derive(Clone, Copy)]
pub struct Color(pub NodeType);

impl Color {
    pub fn text(&self) -> (s: &'static str)
        ensures
            s@ == color_text(self.0),
    {
        match self.0 {
            NodeType::Gamma => "\"#8b81e8\"",
            NodeType::Theta => "\"#bb84ca\"",
            NodeType::Lambda => "\"#dde881\"",
            NodeType::Phi => "\"#e6b79a\"",
            NodeType::Then => "\"#89b7d7\"",
            NodeType::Reachable => "\"#81e8bf\"",
            NodeType::NotReachable => "\"#e881aa\"",
        }
    }
}

/// The name of a kind of cluster.
#[derive(Clone, Copy)]
pub struct Label(pub NodeType);

impl Label {
    pub fn text(&self) -> (s: &'static str)
        ensures
            s@ == label_text(self.0),
    {
        match self.0 {
            NodeType::Gamma => "\"Gamma\"",
            NodeType::Theta => "\"Theta\"",
            NodeType::Lambda => "\"Lambda\"",
            NodeType::Phi => "\"Phi\"",
            NodeType::Then => "\"Then\"",
            NodeType::Reachable => "\"Reachable\"",
            NodeType::NotReachable => "\"Not Reachable\"",
        }
    }
}

/// `w` followed by the cells of the ports `0..count`, each named by
/// `post` and its number.
pub open spec fn cells_out(w: Seq<char>, post: Seq<char>, count: int) -> Seq<char>
    decreases count,
{
    if count <= 0 {
        w
    } else {
        cells_out(w, post, count - 1) + "<TD PORT=\""@ + post + decimal((count - 1) as nat) + "\">"@
            + decimal((count - 1) as nat) + "</TD>"@
    }
}

/// `w` followed by a table row with a cell for each of `count` ports, or
/// by nothing if there are no ports.
pub open spec fn ports_out(w: Seq<char>, post: Seq<char>, count: int) -> Seq<char> {
    if count <= 0 {
        w
    } else {
        cells_out(w + "<TR>"@, post, count) + "</TR>"@
    }
}

/// A row of ports of a node: their common prefix and their number.
#[derive(Clone, Copy)]
pub struct Ports(pub &'static str, pub usize);

impl Ports {
    /// Appends the row.
    pub fn write(&self, w: &mut String)
        ensures
            final(w)@ == ports_out(old(w)@, self.0@, self.1 as int),
    {
        if self.1 == 0 {
            return ;
        }
        w.append("<TR>");
        let mut i: usize = 0;
        while i < self.1
            invariant
                i <= self.1,
                w@ == cells_out(old(w)@ + "<TR>"@, self.0@, i as int),
            decreases self.1 - i,
        {
            w.append("<TD PORT=\"");
            w.append(self.0);
            push_index(w, i);
            w.append("\">");
            push_index(w, i);
            w.append("</TD>");
            i += 1;
        }
        w.append("</TR>");
    }

    /// The row as text.
    pub fn to_text(&self) -> (s: String)
        ensures
            s@ == ports_out(Seq::empty(), self.0@, self.1 as int),
    {
        let mut s = String::new();
        self.write(&mut s);
        s
    }
}

/// The name of a simple node.
pub open spec fn mnemonic_text(simple: Simple) -> Seq<char> {
    match simple {
        Simple::RegionStart(_) => "Start"@,
        Simple::RegionEnd(_) => "End"@,
    }
}

/// The name of a simple node.
#[derive(Clone, Copy)]
pub struct Mnemonic<'a>(pub &'a Simple);

impl<'a> Mnemonic<'a> {
    pub fn text(&self) -> (s: &'static str)
        ensures
            s@ == mnemonic_text(*self.0),
    {
        match self.0 {
            Simple::RegionStart(_) => "Start",
            Simple::RegionEnd(_) => "End",
        }
    }
}

/// `w` followed by the name of a node: `N`, its slot, `v` and its
/// generation; or `Nnull` for the null handle.
pub open spec fn id_out(w: Seq<char>, raw: u64) -> Seq<char> {
    if slot_of(raw) == u32::MAX {
        w + "Nnull"@
    } else {
        w + "N"@ + decimal(slot_of(raw) as nat) + "v"@ + decimal(generation_of(raw) as nat)
    }
}

/// Appends the name of a node.
pub fn write_id(id: NodeId, w: &mut String)
    ensures
        final(w)@ == id_out(old(w)@, id@),
{
    let raw = id.raw();
    let slot = raw % 0x1_0000_0000;
    if slot == 0xffff_ffff {
        w.append("Nnull");
    } else {
        w.append("N");
        push_decimal(w, slot);
        w.append("v");
        push_decimal(w, raw / 0x1_0000_0000);
    }
}

} // verus!
