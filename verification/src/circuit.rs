//! The flat circuit: an ordered collection of elements over numbered nodes.

use std::collections::HashMap;
use vstd::prelude::*;
use vstd::seq_lib::lemma_seq_contains_after_push;
use vstd::std_specs::hash::group_hash_axioms;
use crate::element::capacitor::Capacitor;
use crate::element::diode::Diode;
use crate::element::independent::{CurrentSource, VoltageSource};
use crate::element::isine::CurrentSourceSine;
use crate::element::resistor::Resistor;
use crate::element::vdepsrc::{Vccs, Vcvs};
use crate::element::vpwl::VoltageSourcePwl;
use crate::element::vsine::VoltageSourceSine;
use crate::element::Element;
use crate::parameter::{find_value, value_from, Parameter};
use crate::scalar::Scalar;

verus! {

/// Index of a node. Node 0 is ground.
pub type NodeId = usize;

/// Word of the Boltzmann constant, 1.3806488e-23 joules per kelvin.
pub const BOLTZMANN: u64 = 0x3B30_B0E6_ACCD_CC7E;

/// Word of the charge of an electron as the simulator uses it, 1.603e-19
/// coulombs.
pub const CHARGE: u64 = 0x3C07_A7F6_7898_4AE7;

/// Word of the minimum conductance between nodes, 1.0e-12 siemens.
pub const GMIN: u64 = 0x3D71_9799_812D_EA11;

/// An instantiation of a subcircuit, or of a device that takes its value
/// from a parameter.
#[derive(Clone, Debug)]
pub struct Instance {
    pub name: String,
    /// The subcircuit that is instantiated.
    pub subckt: String,
    /// The nodes that the ports are connected to, in the order of the ports.
    pub conns: Vec<NodeId>,
    /// The parameters given with the instantiation.
    pub params: Vec<Parameter>,
}

impl Instance {
    /// An instance without connections and parameters.
    pub fn new(name: &str, subckt: &str) -> (inst: Instance)
        ensures
            inst.name@ == name@,
            inst.subckt@ == subckt@,
            inst.conns@.len() == 0,
            inst.params@.len() == 0,
    {
        Instance {
            name: name.to_owned(),
            subckt: subckt.to_owned(),
            conns: Vec::new(),
            params: Vec::new(),
        }
    }

    /// Connects the next port to node `nid`.
    pub fn add_connection(&mut self, nid: NodeId)
        ensures
            *final(self) == (Instance { conns: final(self).conns, ..*old(self) }),
            final(self).conns@ == old(self).conns@.push(nid),
    {
        self.conns.push(nid);
    }

    /// Adds a copy of a parameter.
    pub fn add_parameter(&mut self, param: &Parameter)
        ensures
            *final(self) == (Instance { params: final(self).params, ..*old(self) }),
            final(self).params@ == old(self).params@.push(*param),
    {
        self.params.push(param.duplicate());
    }
}

/// A collection of circuit elements describing a circuit.
#[derive(Clone, Debug)]
pub struct Circuit {
    pub name: String,
    /// The elements, in the order in which they were added.
    pub elements: Vec<Element>,
    /// The index that the next new node gets.
    pub nid_next: usize,
    /// The branch index that the next voltage-defining element gets.
    pub v_idx_next: usize,
    /// The names of the nodes, in the order in which they were entered. A
    /// name entered again stands for the node of its latest entry.
    pub nodes: Vec<(String, NodeId)>,
    /// From a node to its name: for every node in `nodes`, the name of its
    /// latest entry there, once the lookup is built.
    pub node_id_lut: HashMap<NodeId, String>,
    /// The instantiations, in the order in which they were added.
    pub instances: Vec<Instance>,
    /// Number of ports, for a subcircuit.
    pub num_ports: usize,
    /// The parameters.
    pub params: Vec<Parameter>,
}

/// What the lookup `after` holds for node `id`, when it is the lookup
/// `before` with the nodes of `entries` listed: the name of the latest
/// entry of the node, or what `before` held if the node has no entry.
pub open spec fn listed_at(
    before: Map<NodeId, String>,
    entries: Seq<(Seq<char>, NodeId)>,
    after: Map<NodeId, String>,
    id: NodeId,
) -> bool {
    match labelled(entries, id) {
        Some(name) => after.contains_key(id) && after[id]@ == name,
        None => after.contains_key(id) == before.contains_key(id) && (before.contains_key(id)
            ==> after[id] == before[id]),
    }
}

/// The lookup `after` is the lookup `before` with every node of `entries`
/// listed under the name of its latest entry.
pub open spec fn listed(
    before: Map<NodeId, String>,
    entries: Seq<(Seq<char>, NodeId)>,
    after: Map<NodeId, String>,
) -> bool {
    forall|id: NodeId| #[trigger] listed_at(before, entries, after, id)
}

/// The entries of a table of names, each name as its text.
pub open spec fn table(nodes: Seq<(String, NodeId)>) -> Seq<(Seq<char>, NodeId)> {
    Seq::new(nodes.len(), |i: int| (nodes[i].0@, nodes[i].1))
}

/// The node that `name` stands for in a table: that of its latest entry.
pub open spec fn named(entries: Seq<(Seq<char>, NodeId)>, name: Seq<char>) -> Option<NodeId>
    decreases entries.len(),
{
    if entries.len() == 0 {
        None
    } else if entries.last().0 == name {
        Some(entries.last().1)
    } else {
        named(entries.drop_last(), name)
    }
}

/// The name under which a node is listed: that of its latest entry.
pub open spec fn labelled(entries: Seq<(Seq<char>, NodeId)>, id: NodeId) -> Option<Seq<char>>
    decreases entries.len(),
{
    if entries.len() == 0 {
        None
    } else if entries.last().1 == id {
        Some(entries.last().0)
    } else {
        labelled(entries.drop_last(), id)
    }
}

/// How many characters of `name` precede its last component: one more than
/// the position of its last dot, or none if it has no dot.
pub open spec fn prefix_len(name: Seq<char>) -> int
    decreases name.len(),
{
    if name.len() == 0 {
        0
    } else if name.last() == '.' {
        name.len() as int
    } else {
        prefix_len(name.drop_last())
    }
}

/// The last component of a hierarchical name: what follows its last dot.
pub open spec fn local_name(name: Seq<char>) -> Seq<char> {
    name.subrange(prefix_len(name), name.len() as int)
}

/// The names by which ground goes: `gnd`, `GND` and `0`.
pub open spec fn is_ground_name(name: Seq<char>) -> bool {
    name == seq!['g', 'n', 'd'] || name == seq!['G', 'N', 'D'] || name == seq!['0']
}

/// The node that a name stands for in a circuit. A name whose last
/// component is a name of ground stands for ground, at whatever level of
/// the hierarchy; any other name stands for the node of its latest entry.
pub open spec fn node_of(entries: Seq<(Seq<char>, NodeId)>, name: Seq<char>) -> Option<NodeId> {
    if is_ground_name(local_name(name)) {
        Some(0usize)
    } else {
        named(entries, name)
    }
}

/// The prefix ends after the last dot: there is no dot from `k` on, and
/// there is one just before `k` unless `k` is 0.
proof fn lemma_prefix_len(name: Seq<char>, k: int)
    requires
        0 <= k <= name.len(),
        forall|j: int| k <= j < name.len() ==> name[j] != '.',
        k > 0 ==> name[k - 1] == '.',
    ensures
        prefix_len(name) == k,
    decreases name.len(),
{
    if name.len() > 0 && k < name.len() {
        let head = name.drop_last();
        assert(name.last() != '.');
        assert forall|j: int| k <= j < head.len() implies head[j] != '.' by {
            assert(head[j] == name[j]);
        }
        if k > 0 {
            assert(head[k - 1] == name[k - 1]);
        }
        lemma_prefix_len(head, k);
    }
}

/// The name of a table with one more entry at its end.
proof fn lemma_table_push(nodes: Seq<(String, NodeId)>, entry: (String, NodeId))
    ensures
        table(nodes.push(entry)) == table(nodes).push((entry.0@, entry.1)),
{
    assert(table(nodes.push(entry)) =~= table(nodes).push((entry.0@, entry.1)));
}

/// `n` is ground or a terminal of one of `elements`.
pub open spec fn is_node(elements: Seq<Element>, n: NodeId) -> bool {
    n == 0 || exists|i: int, k: int|
        0 <= i < elements.len() && 0 <= k < elements[i].terminals().len()
            && #[trigger] elements[i].terminals()[k] == n
}

/// The nodes of a circuit: ground and every terminal of every element.
pub open spec fn node_set(elements: Seq<Element>) -> Set<NodeId> {
    Set::new(|n: NodeId| is_node(elements, n))
}

/// The branch indices of the voltage-defining elements, in element order.
pub open spec fn branches(elements: Seq<Element>) -> Seq<usize>
    decreases elements.len(),
{
    if elements.len() == 0 {
        Seq::empty()
    } else {
        match elements.last().branch() {
            Some(idx) => branches(elements.drop_last()).push(idx),
            None => branches(elements.drop_last()),
        }
    }
}

/// The branch indices of a sequence with one more element at its end.
proof fn lemma_branches_push(s: Seq<Element>, e: Element)
    ensures
        branches(s.push(e)) == match e.branch() {
            Some(idx) => branches(s).push(idx),
            None => branches(s),
        },
{
    assert(s.push(e).drop_last() =~= s);
}

impl Circuit {
    /// The branch indices were handed out in order: the voltage-defining
    /// elements carry 0, 1, 2, ... in element order, and `v_idx_next` is the
    /// first index not yet used.
    pub open spec fn wf(self) -> bool {
        branches(self.elements@) == Seq::new(self.v_idx_next as nat, |i: int| i as usize)
    }

    /// Everything but the elements and the branch counter is as in `other`.
    pub open spec fn keeps_names(self, other: Circuit) -> bool {
        &&& self.name == other.name
        &&& self.nid_next == other.nid_next
        &&& self.nodes == other.nodes
        &&& self.node_id_lut == other.node_id_lut
        &&& self.instances == other.instances
        &&& self.num_ports == other.num_ports
        &&& self.params == other.params
    }

    /// Everything but the table of names and the node counter is as in
    /// `other`.
    pub open spec fn keeps_elements(self, other: Circuit) -> bool {
        &&& self.name == other.name
        &&& self.elements == other.elements
        &&& self.v_idx_next == other.v_idx_next
        &&& self.node_id_lut == other.node_id_lut
        &&& self.instances == other.instances
        &&& self.num_ports == other.num_ports
        &&& self.params == other.params
    }

    /// An empty top-level circuit. Ground is the only node, entered as `gnd`.
    pub fn new() -> (ckt: Circuit)
        ensures
            ckt.name@ == "<toplevel>"@,
            ckt.elements@.len() == 0,
            ckt.nid_next == 1,
            ckt.v_idx_next == 0,
            table(ckt.nodes@) == seq![("gnd"@, 0usize)],
            ckt.node_id_lut@ == Map::<NodeId, String>::empty(),
            ckt.instances@.len() == 0,
            ckt.num_ports == 0,
            ckt.params@.len() == 0,
            ckt.wf(),
    {
        let mut nodes: Vec<(String, NodeId)> = Vec::new();
        nodes.push(("gnd".to_owned(), 0));
        let ckt = Circuit {
            name: "<toplevel>".to_owned(),
            elements: Vec::new(),
            nid_next: 1,
            v_idx_next: 0,
            nodes,
            node_id_lut: HashMap::new(),
            instances: Vec::new(),
            num_ports: 0,
            params: Vec::new(),
        };
        proof {
            assert(branches(ckt.elements@) =~= Seq::new(0, |i: int| i as usize));
            assert(table(ckt.nodes@) =~= seq![("gnd"@, 0usize)]);
        }
        ckt
    }

    /// Adds an instantiation.
    pub fn add_instance(&mut self, inst: Instance)
        ensures
            *final(self) == (Circuit { instances: final(self).instances, ..*old(self) }),
            final(self).instances@ == old(self).instances@.push(inst),
    {
        self.instances.push(inst);
    }

    /// Finds the value of a parameter: that of the first parameter of that
    /// name, if it is resolved.
    pub fn get_param_value(&self, name: &str) -> (value: Option<Scalar>)
        ensures
            value == value_from(self.params@, 0, name@),
    {
        find_value(&self.params, name)
    }

    /// Looks up the node that a name stands for.
    pub fn get_node_id(&self, name: &str) -> (id: Option<NodeId>)
        ensures
            id == node_of(table(self.nodes@), name@),
    {
        let n = name.unicode_len();
        let mut start: usize = n;
        while start > 0 && name.get_char(start - 1) != '.'
            invariant
                start <= n,
                n == name@.len(),
                forall|j: int| start <= j < n ==> name@[j] != '.',
            decreases start,
        {
            start = start - 1;
        }
        proof {
            lemma_prefix_len(name@, start as int);
        }
        let ghost local = local_name(name@);
        let len = n - start;
        let ground = if len == 3 {
            let c0 = name.get_char(start);
            let c1 = name.get_char(start + 1);
            let c2 = name.get_char(start + 2);
            proof {
                assert(local[0] == c0 && local[1] == c1 && local[2] == c2);
                if (c0 == 'g' && c1 == 'n' && c2 == 'd') {
                    assert(local =~= seq!['g', 'n', 'd']);
                }
                if (c0 == 'G' && c1 == 'N' && c2 == 'D') {
                    assert(local =~= seq!['G', 'N', 'D']);
                }
                if is_ground_name(local) {
                    assert(seq!['g', 'n', 'd'][0] == 'g' && seq!['g', 'n', 'd'][1] == 'n'
                        && seq!['g', 'n', 'd'][2] == 'd');
                    assert(seq!['G', 'N', 'D'][0] == 'G' && seq!['G', 'N', 'D'][1] == 'N'
                        && seq!['G', 'N', 'D'][2] == 'D');
                    assert(seq!['0'].len() == 1);
                }
            }
            (c0 == 'g' && c1 == 'n' && c2 == 'd') || (c0 == 'G' && c1 == 'N' && c2 == 'D')
        } else if len == 1 {
            let c0 = name.get_char(start);
            proof {
                assert(local[0] == c0);
                if c0 == '0' {
                    assert(local =~= seq!['0']);
                }
                if is_ground_name(local) {
                    assert(seq!['0'][0] == '0');
                    assert(seq!['g', 'n', 'd'].len() == 3);
                    assert(seq!['G', 'N', 'D'].len() == 3);
                }
            }
            c0 == '0'
        } else {
            proof {
                assert(seq!['0'].len() == 1);
                assert(seq!['g', 'n', 'd'].len() == 3);
                assert(seq!['G', 'N', 'D'].len() == 3);
            }
            false
        };
        assert(ground == is_ground_name(local));
        if ground {
            return Some(0);
        }
        let wanted = name.to_owned();
        let mut i: usize = self.nodes.len();
        let ghost entries = table(self.nodes@);
        proof {
            assert(entries.take(i as int) =~= entries);
        }
        while i > 0
            invariant
                i <= self.nodes@.len(),
                entries == table(self.nodes@),
                wanted@ == name@,
                !is_ground_name(local_name(name@)),
                named(entries, name@) == named(entries.take(i as int), name@),
            decreases i,
        {
            proof {
                assert(entries.take(i as int).drop_last() =~= entries.take(i - 1));
                assert(entries.take(i as int).last() == entries[i - 1]);
                assert(entries[i - 1] == (self.nodes@[i - 1].0@, self.nodes@[i - 1].1));
            }
            if self.nodes[i - 1].0 == wanted {
                return Some(self.nodes[i - 1].1);
            }
            i = i - 1;
        }
        proof {
            assert(entries.take(0) =~= Seq::empty());
        }
        None
    }

    /// Enters a node under `name`, unless the name already stands for a
    /// node, and returns the node that the name stands for. A new node gets
    /// the next free index.
    pub fn add_node(&mut self, name: &str) -> (id: NodeId)
        requires
            old(self).nid_next < usize::MAX,
        ensures
            final(self).keeps_elements(*old(self)),
            match node_of(table(old(self).nodes@), name@) {
                Some(known) => id == known && final(self).nodes == old(self).nodes
                    && final(self).nid_next == old(self).nid_next,
                None => id == old(self).nid_next && final(self).nid_next == old(self).nid_next + 1
                    && table(final(self).nodes@) == table(old(self).nodes@).push((name@, id)),
            },
            node_of(table(final(self).nodes@), name@) == Some(id),
    {
        match self.get_node_id(name) {
            Some(known) => known,
            None => {
                let id = self.nid_next;
                let entry = (name.to_owned(), id);
                proof {
                    lemma_table_push(self.nodes@, entry);
                    assert(table(self.nodes@).push((name@, id)).drop_last() =~= table(self.nodes@));
                }
                self.nodes.push(entry);
                self.nid_next = self.nid_next + 1;
                id
            },
        }
    }

    /// Enters `name` as another name of node `nid`. A name that already
    /// stands for another node cannot become an alias.
    pub fn add_node_alias(&mut self, name: &str, nid: NodeId)
        requires
            node_of(table(old(self).nodes@), name@) matches Some(known) ==> known == nid,
        ensures
            final(self).keeps_elements(*old(self)),
            final(self).nid_next == old(self).nid_next,
            table(final(self).nodes@) == table(old(self).nodes@).push((name@, nid)),
            named(table(final(self).nodes@), name@) == Some(nid),
    {
        let entry = (name.to_owned(), nid);
        proof {
            lemma_table_push(self.nodes@, entry);
            assert(table(self.nodes@).push((name@, nid)).drop_last() =~= table(self.nodes@));
        }
        self.nodes.push(entry);
    }

    /// Tells whether `name` may become an alias of `nid`: it stands for no
    /// node yet, or for `nid` already.
    pub fn can_alias(&self, name: &str, nid: NodeId) -> (ok: bool)
        ensures
            ok == (node_of(table(self.nodes@), name@) matches Some(known) ==> known == nid),
    {
        match self.get_node_id(name) {
            Some(known) => known == nid,
            None => true,
        }
    }

    /// Builds the lookup from nodes to names. To be called once all nodes
    /// are entered. Every node of the table of names gets the name of its
    /// latest entry; what the lookup held for other nodes stays.
    pub fn build_node_id_lut(&mut self)
        ensures
            final(self).keeps_elements(Circuit { node_id_lut: final(self).node_id_lut, ..*old(self) }),
            final(self).nodes == old(self).nodes,
            final(self).nid_next == old(self).nid_next,
            listed(old(self).node_id_lut@, table(old(self).nodes@), final(self).node_id_lut@),
    {
        broadcast use group_hash_axioms;

        let ghost before = self.node_id_lut@;
        let ghost entries = table(self.nodes@);
        let mut i: usize = 0;
        proof {
            assert(entries.take(0) =~= Seq::empty());
        }
        while i < self.nodes.len()
            invariant
                i <= self.nodes@.len(),
                entries == table(self.nodes@),
                self.nodes == old(self).nodes,
                self.keeps_elements(Circuit { node_id_lut: self.node_id_lut, ..*old(self) }),
                self.nid_next == old(self).nid_next,
                listed(before, entries.take(i as int), self.node_id_lut@),
            decreases self.nodes@.len() - i,
        {
            let id = self.nodes[i].1;
            let name = self.nodes[i].0.clone();
            proof {
                assert(entries.take(i + 1).drop_last() =~= entries.take(i as int));
                assert(entries.take(i + 1).last() == (name@, id));
            }
            let ghost held = self.node_id_lut@;
            let _ = self.node_id_lut.insert(id, name);
            proof {
                assert forall|other: NodeId| #[trigger] listed_at(
                    before,
                    entries.take(i + 1),
                    self.node_id_lut@,
                    other,
                ) by {
                    assert(listed_at(before, entries.take(i as int), held, other));
                }
            }
            i = i + 1;
        }
        proof {
            assert(entries.take(i as int) =~= entries);
        }
    }

    /// The name under which node `id` is listed in the lookup.
    pub fn node_name(&self, id: NodeId) -> (name: Option<String>)
        ensures
            name == if self.node_id_lut@.contains_key(id) {
                Some(self.node_id_lut@[id])
            } else {
                None::<String>
            },
    {
        broadcast use group_hash_axioms;

        match self.node_id_lut.get(&id) {
            Some(name) => Some(name.clone()),
            None => None,
        }
    }

    /// Adds an element that owns no branch current.
    fn push_plain(&mut self, e: Element)
        requires
            e.branch() is None,
        ensures
            final(self).elements@ == old(self).elements@.push(e),
            final(self).v_idx_next == old(self).v_idx_next,
            final(self).keeps_names(*old(self)),
            old(self).wf() ==> final(self).wf(),
    {
        proof {
            lemma_branches_push(self.elements@, e);
        }
        self.elements.push(e);
    }

    /// Adds an element that owns the branch current `v_idx_next`.
    fn push_branch(&mut self, e: Element)
        requires
            e.branch() == Some(old(self).v_idx_next),
            old(self).v_idx_next < usize::MAX,
        ensures
            final(self).elements@ == old(self).elements@.push(e),
            final(self).v_idx_next == old(self).v_idx_next + 1,
            final(self).keeps_names(*old(self)),
            old(self).wf() ==> final(self).wf(),
    {
        proof {
            lemma_branches_push(self.elements@, e);
            if self.wf() {
                assert(branches(self.elements@.push(e)) =~= Seq::new(
                    (self.v_idx_next + 1) as nat,
                    |i: int| i as usize,
                ));
            }
        }
        self.elements.push(e);
        self.v_idx_next = self.v_idx_next + 1;
    }

    /// Adds a DC current source.
    pub fn add_i(&mut self, p: NodeId, n: NodeId, value: Scalar)
        ensures
            final(self).elements@ == old(self).elements@.push(
                Element::I(CurrentSource { p, n, value }),
            ),
            final(self).v_idx_next == old(self).v_idx_next,
            final(self).keeps_names(*old(self)),
            old(self).wf() ==> final(self).wf(),
    {
        self.push_plain(Element::I(CurrentSource { p, n, value }));
    }

    /// Adds a sinusoidal current source.
    pub fn add_i_sin(&mut self, i_sin: CurrentSourceSine)
        ensures
            final(self).elements@ == old(self).elements@.push(Element::Isin(i_sin)),
            final(self).v_idx_next == old(self).v_idx_next,
            final(self).keeps_names(*old(self)),
            old(self).wf() ==> final(self).wf(),
    {
        self.push_plain(Element::Isin(i_sin));
    }

    /// Adds a sinusoidal voltage source and gives it the next branch index.
    pub fn add_v_sin(&mut self, v_sin: VoltageSourceSine)
        requires
            old(self).v_idx_next < usize::MAX,
        ensures
            final(self).elements@ == old(self).elements@.push(
                Element::Vsin(VoltageSourceSine { idx: old(self).v_idx_next, ..v_sin }),
            ),
            final(self).v_idx_next == old(self).v_idx_next + 1,
            final(self).keeps_names(*old(self)),
            old(self).wf() ==> final(self).wf(),
    {
        let idx = self.v_idx_next;
        self.push_branch(Element::Vsin(VoltageSourceSine { idx, ..v_sin }));
    }

    /// Adds a piecewise-linear voltage source and gives it the next branch
    /// index.
    pub fn add_v_pwl(&mut self, v_pwl: VoltageSourcePwl)
        requires
            old(self).v_idx_next < usize::MAX,
        ensures
            final(self).elements@ == old(self).elements@.push(
                Element::Vpwl(VoltageSourcePwl { idx: old(self).v_idx_next, ..v_pwl }),
            ),
            final(self).v_idx_next == old(self).v_idx_next + 1,
            final(self).keeps_names(*old(self)),
            old(self).wf() ==> final(self).wf(),
    {
        let idx = self.v_idx_next;
        self.push_branch(Element::Vpwl(VoltageSourcePwl { idx, ..v_pwl }));
    }

    /// Adds a DC voltage source and gives it the next branch index.
    pub fn add_v(&mut self, p: NodeId, n: NodeId, value: Scalar)
        requires
            old(self).v_idx_next < usize::MAX,
        ensures
            final(self).elements@ == old(self).elements@.push(
                Element::V(VoltageSource { p, n, value, idx: old(self).v_idx_next }),
            ),
            final(self).v_idx_next == old(self).v_idx_next + 1,
            final(self).keeps_names(*old(self)),
            old(self).wf() ==> final(self).wf(),
    {
        let idx = self.v_idx_next;
        self.push_branch(Element::V(VoltageSource { p, n, value, idx }));
    }

    /// Adds a resistor.
    pub fn add_r(&mut self, ident: String, a: NodeId, b: NodeId, value: Scalar)
        ensures
            final(self).elements@ == old(self).elements@.push(
                Element::R(Resistor { ident, a, b, value }),
            ),
            final(self).v_idx_next == old(self).v_idx_next,
            final(self).keeps_names(*old(self)),
            old(self).wf() ==> final(self).wf(),
    {
        self.push_plain(Element::R(Resistor { ident, a, b, value }));
    }

    /// Adds a capacitor.
    pub fn add_c(&mut self, ident: String, a: NodeId, b: NodeId, value: Scalar)
        ensures
            final(self).elements@ == old(self).elements@.push(
                Element::C(Capacitor { ident, a, b, value }),
            ),
            final(self).v_idx_next == old(self).v_idx_next,
            final(self).keeps_names(*old(self)),
            old(self).wf() ==> final(self).wf(),
    {
        self.push_plain(Element::C(Capacitor { ident, a, b, value }));
    }

    /// Adds a diode.
    pub fn add_d(&mut self, d: Diode)
        ensures
            final(self).elements@ == old(self).elements@.push(Element::D(d)),
            final(self).v_idx_next == old(self).v_idx_next,
            final(self).keeps_names(*old(self)),
            old(self).wf() ==> final(self).wf(),
    {
        self.push_plain(Element::D(d));
    }

    /// Adds a voltage-controlled voltage source and gives it the next branch
    /// index.
    pub fn add_vcvs(&mut self, vcvs: Vcvs)
        requires
            old(self).v_idx_next < usize::MAX,
        ensures
            final(self).elements@ == old(self).elements@.push(
                Element::Vcvs(Vcvs { idx: old(self).v_idx_next, ..vcvs }),
            ),
            final(self).v_idx_next == old(self).v_idx_next + 1,
            final(self).keeps_names(*old(self)),
            old(self).wf() ==> final(self).wf(),
    {
        let idx = self.v_idx_next;
        self.push_branch(Element::Vcvs(Vcvs { idx, ..vcvs }));
    }

    /// Adds a voltage-controlled current source.
    pub fn add_vccs(&mut self, vccs: Vccs)
        ensures
            final(self).elements@ == old(self).elements@.push(Element::Vccs(vccs)),
            final(self).v_idx_next == old(self).v_idx_next,
            final(self).keeps_names(*old(self)),
            old(self).wf() ==> final(self).wf(),
    {
        self.push_plain(Element::Vccs(vccs));
    }

    /// Counts the voltage-defining elements: DC, sinusoidal and
    /// piecewise-linear voltage sources, and voltage-controlled voltage
    /// sources.
    pub fn count_voltage_sources(&self) -> (c: usize)
        ensures
            c == branches(self.elements@).len(),
            self.wf() ==> c == self.v_idx_next,
    {
        let mut c: usize = 0;
        let mut i: usize = 0;
        proof {
            assert(self.elements@.take(0) =~= Seq::empty());
        }
        while i < self.elements.len()
            invariant
                i <= self.elements@.len(),
                c == branches(self.elements@.take(i as int)).len(),
                c <= i,
            decreases self.elements@.len() - i,
        {
            proof {
                lemma_branches_push(self.elements@.take(i as int), self.elements@[i as int]);
                assert(self.elements@.take(i as int).push(self.elements@[i as int])
                    =~= self.elements@.take(i + 1));
            }
            if self.elements[i].branch_index().is_some() {
                c = c + 1;
            }
            i = i + 1;
        }
        proof {
            assert(self.elements@.take(i as int) =~= self.elements@);
        }
        c
    }

    /// Counts the nodes of the circuit: ground, which is always there, and
    /// every distinct node that an element connects to.
    pub fn count_nodes(&self) -> (c: usize)
        ensures
            c == node_set(self.elements@).len(),
            node_set(self.elements@).finite(),
            c >= 1,
    {
        let mut all: Vec<NodeId> = Vec::new();
        all.push(0);
        let mut i: usize = 0;
        proof {
            assert forall|n: NodeId| all@.contains(n) <==> is_node(
                self.elements@.take(0),
                n,
            ) by {
                assert(all@[0] == 0);
            }
        }
        while i < self.elements.len()
            invariant
                i <= self.elements@.len(),
                all@.len() >= 1,
                all@[0] == 0,
                forall|n: NodeId| all@.contains(n) <==> is_node(self.elements@.take(i as int), n),
            decreases self.elements@.len() - i,
        {
            let terminals = self.elements[i].nodes();
            let ghost before = all@;
            let ghost head = self.elements@.take(i as int);
            let ghost e = self.elements@[i as int];
            let mut k: usize = 0;
            while k < terminals.len()
                invariant
                    k <= terminals@.len(),
                    all@ == before + terminals@.take(k as int),
                decreases terminals@.len() - k,
            {
                all.push(terminals[k]);
                proof {
                    assert(terminals@.take(k as int).push(terminals@[k as int])
                        =~= terminals@.take(k + 1));
                    assert(all@ =~= before + terminals@.take(k + 1));
                }
                k = k + 1;
            }
            proof {
                let tail = self.elements@.take(i + 1);
                assert(terminals@.take(k as int) =~= e.terminals());
                assert(tail.last() == e);
                assert forall|n: NodeId| all@.contains(n) <==> is_node(tail, n) by {
                    if all@.contains(n) {
                        let idx = choose|idx: int| 0 <= idx < all@.len() && all@[idx] == n;
                        if idx < before.len() {
                            assert(before[idx] == n);
                            assert(before.contains(n));
                            assert(is_node(head, n));
                            if n != 0 {
                                let (ei, ek) = choose|ei: int, ek: int|
                                    0 <= ei < head.len() && 0 <= ek < head[ei].terminals().len()
                                        && #[trigger] head[ei].terminals()[ek] == n;
                                assert(tail[ei].terminals()[ek] == n);
                            }
                        } else {
                            assert(tail[i as int].terminals()[idx - before.len()] == n);
                        }
                    }
                    if is_node(tail, n) {
                        if n == 0 {
                            assert(all@[0] == 0);
                        } else {
                            let (ei, ek) = choose|ei: int, ek: int|
                                0 <= ei < tail.len() && 0 <= ek < tail[ei].terminals().len()
                                    && #[trigger] tail[ei].terminals()[ek] == n;
                            if ei < i {
                                assert(head[ei].terminals()[ek] == n);
                                assert(is_node(head, n));
                                assert(before.contains(n));
                                let idx = choose|idx: int|
                                    0 <= idx < before.len() && before[idx] == n;
                                assert(all@[idx] == n);
                            } else {
                                assert(all@[before.len() + ek] == n);
                            }
                        }
                    }
                }
            }
            i = i + 1;
        }
        proof {
            assert(self.elements@.take(i as int) =~= self.elements@);
        }
        let c = count_distinct(&all);
        proof {
            assert(all@.to_set() =~= node_set(self.elements@));
            assert(all@.to_set().contains(0)) by {
                assert(all@[0] == 0);
            }
        }
        c
    }
}

/// Counts the distinct values in `v`.
fn count_distinct(v: &Vec<NodeId>) -> (c: usize)
    ensures
        c == v@.to_set().len(),
        v@.to_set().finite(),
{
    let mut c: usize = 0;
    let mut i: usize = 0;
    proof {
        assert(v@.take(0).to_set() =~= Set::<NodeId>::empty());
    }
    while i < v.len()
        invariant
            i <= v@.len(),
            v@.take(i as int).to_set().finite(),
            c == v@.take(i as int).to_set().len(),
            c <= i,
        decreases v@.len() - i,
    {
        let x = v[i];
        let mut found = false;
        let mut j: usize = 0;
        while j < i
            invariant
                j <= i,
                i < v@.len(),
                x == v@[i as int],
                found <==> exists|m: int| 0 <= m < j && v@[m] == x,
            decreases i - j,
        {
            if v[j] == x {
                found = true;
            }
            j = j + 1;
        }
        proof {
            let head = v@.take(i as int);
            assert(head.push(x) =~= v@.take(i + 1));
            head.lemma_push_to_set_commute(x);
            if found {
                let m = choose|m: int| 0 <= m < i && v@[m] == x;
                assert(head[m] == x);
                assert(head.to_set().contains(x));
            } else {
                if head.contains(x) {
                    let m = choose|m: int| 0 <= m < head.len() && head[m] == x;
                    assert(v@[m] == x);
                }
                assert(!head.to_set().contains(x));
            }
        }
        if !found {
            c = c + 1;
        }
        i = i + 1;
    }
    proof {
        assert(v@.take(i as int) =~= v@);
    }
    c
}

/// A circuit built by the `add_` functions has as many voltage-defining
/// elements as branch indices handed out, and no two of them share an index.
pub proof fn lemma_branches_distinct(ckt: Circuit)
    requires
        ckt.wf(),
    ensures
        branches(ckt.elements@).len() == ckt.v_idx_next,
        forall|i: int, j: int|
            0 <= i < j < branches(ckt.elements@).len() ==> branches(ckt.elements@)[i] != branches(
                ckt.elements@,
            )[j],
{
}

} // verus!
