//! The address space of a server: nodes, and the typed references
//! between them.

use vstd::prelude::*;
use crate::encoding::seq_view;
use crate::node::NodeType;
use crate::node_id::{null_id, numeric_id, NodeId, NodeIdView};
use crate::qualified_name::QualifiedNameView;
use crate::service_types::{RelativePath, RelativePathElement, RelativePathElementView};
use crate::status_codes::{
    StatusCode, BAD_NODE_ID_EXISTS, BAD_NODE_ID_INVALID, BAD_NODE_ID_UNKNOWN, BAD_NOTHING_TO_DO,
    BAD_NO_MATCH,
};

verus! {

/// The directions in which references are followed.
#[derive(Debug, Clone, Copy, PartialEq, Eq, Structural, Hash)]
pub enum BrowseDirection {
    Forward,
    Inverse,
    Both,
}

/// The numeric identifier of the reference type `Organizes`.
pub const ORGANIZES: u32 = 35;

/// The numeric identifier of the reference type `HasTypeDefinition`.
pub const HAS_TYPE_DEFINITION: u32 = 40;

/// The numeric identifier of the reference type `HasSubtype`.
pub const HAS_SUBTYPE: u32 = 45;

/// A reference seen from one of its ends: its type, and the node at the
/// other end.
#[derive(Debug, Clone, PartialEq)]
pub struct Reference {
    pub reference_type_id: NodeId,
    pub node_id: NodeId,
}

/// What a `Reference` stands for.
pub struct ReferenceView {
    pub reference_type_id: NodeIdView,
    pub node_id: NodeIdView,
}

impl View for Reference {
    type V = ReferenceView;

    open spec fn view(&self) -> ReferenceView {
        ReferenceView { reference_type_id: self.reference_type_id@, node_id: self.node_id@ }
    }
}

/// A typed, directed edge from one node to another.
#[derive(Debug, Clone, PartialEq)]
pub struct Edge {
    pub source: NodeId,
    pub reference_type_id: NodeId,
    pub target: NodeId,
}

/// What an `Edge` stands for.
pub struct EdgeView {
    pub source: NodeIdView,
    pub reference_type_id: NodeIdView,
    pub target: NodeIdView,
}

impl View for Edge {
    type V = EdgeView;

    open spec fn view(&self) -> EdgeView {
        EdgeView {
            source: self.source@,
            reference_type_id: self.reference_type_id@,
            target: self.target@,
        }
    }
}

/// The nodes of a server and the references between them. Nodes and
/// references are kept in the order in which they came, and a lookup walks
/// them: what is proved of a lookup is proved of this walk.
pub struct AddressSpace {
    nodes: Vec<NodeType>,
    references: Vec<Edge>,
}

/// True when one of `nodes` has the node id `id`.
pub open spec fn has_id(nodes: Seq<NodeType>, id: NodeIdView) -> bool {
    exists|i: int| 0 <= i < nodes.len() && #[trigger] nodes[i].id() == id
}

/// True when no two of `nodes` have the same node id.
pub open spec fn ids_unique(nodes: Seq<NodeType>) -> bool {
    forall|i: int, j: int|
        0 <= i < j < nodes.len() ==> #[trigger] nodes[i].id() != #[trigger] nodes[j].id()
}

/// True when both ends of every edge are among `nodes`.
pub open spec fn ends_exist(nodes: Seq<NodeType>, edges: Seq<EdgeView>) -> bool {
    forall|k: int|
        0 <= k < edges.len() ==> has_id(nodes, (#[trigger] edges[k]).source) && has_id(
            nodes,
            edges[k].target,
        )
}

/// The node with the id `id` among `nodes`, if there is one.
pub open spec fn node_with_id(nodes: Seq<NodeType>, id: NodeIdView) -> Option<NodeType> {
    if has_id(nodes, id) {
        Some(nodes[choose|i: int| 0 <= i < nodes.len() && #[trigger] nodes[i].id() == id])
    } else {
        None
    }
}

/// In a sequence of nodes with unique ids, the node with a given id is
/// the one at any index where that id stands.
pub proof fn lemma_node_with_id(nodes: Seq<NodeType>, i: int)
    requires
        ids_unique(nodes),
        0 <= i < nodes.len(),
    ensures
        node_with_id(nodes, nodes[i].id()) == Some(nodes[i]),
{
    let id = nodes[i].id();
    let j = choose|j: int| 0 <= j < nodes.len() && #[trigger] nodes[j].id() == id;
    if j < i {
        assert(nodes[j].id() != nodes[i].id());
    } else if i < j {
        assert(nodes[i].id() != nodes[j].id());
    }
}

/// After a node has been put into an address space that did not hold its
/// id, the node is found under its id, and every node that was there is
/// found as before.
pub proof fn lemma_inserted_node_is_found(nodes: Seq<NodeType>, node: NodeType)
    requires
        ids_unique(nodes),
        !has_id(nodes, node.id()),
    ensures
        ids_unique(nodes.push(node)),
        has_id(nodes.push(node), node.id()),
        node_with_id(nodes.push(node), node.id()) == Some(node),
        forall|id: NodeIdView|
            has_id(nodes, id) ==> #[trigger] node_with_id(nodes.push(node), id) == node_with_id(
                nodes,
                id,
            ),
{
    let after = nodes.push(node);
    assert forall|i: int, j: int| 0 <= i < j < after.len() implies #[trigger] after[i].id()
        != #[trigger] after[j].id() by {
        if j == nodes.len() {
            assert(nodes[i].id() != node.id());
        } else {
            assert(nodes[i].id() != nodes[j].id());
        }
    }
    assert(after[nodes.len() as int].id() == node.id());
    lemma_node_with_id(after, nodes.len() as int);
    assert forall|id: NodeIdView| has_id(nodes, id) implies #[trigger] node_with_id(after, id)
        == node_with_id(nodes, id) by {
        let i = choose|i: int| 0 <= i < nodes.len() && #[trigger] nodes[i].id() == id;
        assert(after[i] == nodes[i]);
        lemma_node_with_id(after, i);
        lemma_node_with_id(nodes, i);
    }
}

/// What a filter on the type of references stands for.
pub open spec fn filter_view(filter: Option<(NodeId, bool)>) -> Option<(NodeIdView, bool)> {
    match filter {
        Some((type_id, include_subtypes)) => Some((type_id@, include_subtypes)),
        None => None,
    }
}

/// The node id of the reference type `HasSubtype`.
pub open spec fn has_subtype_id() -> NodeIdView {
    numeric_id(0, HAS_SUBTYPE)
}

/// True when a `HasSubtype` reference leads from `a` to `b`.
pub open spec fn subtype_edge(edges: Seq<EdgeView>, a: NodeIdView, b: NodeIdView) -> bool {
    exists|k: int|
        0 <= k < edges.len() && (#[trigger] edges[k]).source == a && edges[k].reference_type_id
            == has_subtype_id() && edges[k].target == b
}

/// True when every step of `path` follows a `HasSubtype` reference.
pub open spec fn is_subtype_path(edges: Seq<EdgeView>, path: Seq<NodeIdView>) -> bool {
    path.len() >= 1 && forall|i: int|
        0 <= i < path.len() - 1 ==> subtype_edge(edges, #[trigger] path[i], path[i + 1])
}

/// True when `t` is `ancestor` or a descendant of it by `HasSubtype`
/// references.
pub open spec fn is_subtype_of(edges: Seq<EdgeView>, ancestor: NodeIdView, t: NodeIdView) -> bool {
    exists|path: Seq<NodeIdView>| #[trigger]
        is_subtype_path(edges, path) && path[0] == ancestor && path.last() == t
}

/// True when a reference of the type `t` passes `filter`: no filter lets
/// every type pass, a filter lets its own type pass and, if it says so,
/// the subtypes of that type.
pub open spec fn type_matches(
    edges: Seq<EdgeView>,
    filter: Option<(NodeIdView, bool)>,
    t: NodeIdView,
) -> bool {
    match filter {
        None => true,
        Some((type_id, include_subtypes)) => if include_subtypes {
            is_subtype_of(edges, type_id, t)
        } else {
            t == type_id
        },
    }
}

/// True when the edge `e` is a reference of `x` in the direction given
/// by `inverse` that passes `filter`.
pub open spec fn is_reference_of(
    edges: Seq<EdgeView>,
    x: NodeIdView,
    inverse: bool,
    filter: Option<(NodeIdView, bool)>,
    e: EdgeView,
) -> bool {
    (if inverse {
        e.target
    } else {
        e.source
    }) == x && type_matches(edges, filter, e.reference_type_id)
}

/// The edge `e` as seen from one end: from its source, or from its
/// target when `inverse`.
pub open spec fn seen_from(e: EdgeView, inverse: bool) -> ReferenceView {
    ReferenceView {
        reference_type_id: e.reference_type_id,
        node_id: if inverse {
            e.source
        } else {
            e.target
        },
    }
}

/// The references of `x` among the first `n` edges, in one direction and
/// in the order of the edges.
pub open spec fn references_of(
    edges: Seq<EdgeView>,
    x: NodeIdView,
    inverse: bool,
    filter: Option<(NodeIdView, bool)>,
    n: int,
) -> Seq<ReferenceView>
    decreases n,
{
    if n <= 0 {
        Seq::empty()
    } else {
        let rest = references_of(edges, x, inverse, filter, n - 1);
        if is_reference_of(edges, x, inverse, filter, edges[n - 1]) {
            rest.push(seen_from(edges[n - 1], inverse))
        } else {
            rest
        }
    }
}

/// The references of `x` in the direction `direction` that pass `filter`,
/// forward ones first, and the index at which the inverse ones start.
pub open spec fn references_by_direction(
    edges: Seq<EdgeView>,
    x: NodeIdView,
    direction: BrowseDirection,
    filter: Option<(NodeIdView, bool)>,
) -> (Seq<ReferenceView>, int) {
    let forward = references_of(edges, x, false, filter, edges.len() as int);
    let inverse = references_of(edges, x, true, filter, edges.len() as int);
    match direction {
        BrowseDirection::Forward => (forward, forward.len() as int),
        BrowseDirection::Inverse => (inverse, 0),
        BrowseDirection::Both => (forward + inverse, forward.len() as int),
    }
}

/// The references of `x` in one direction are exactly the edges of `x` in
/// that direction that pass the filter: every one of them stands for such
/// an edge, and every such edge is among them.
pub proof fn lemma_references_exact(
    edges: Seq<EdgeView>,
    x: NodeIdView,
    inverse: bool,
    filter: Option<(NodeIdView, bool)>,
    n: int,
)
    requires
        0 <= n <= edges.len(),
    ensures
        references_of(edges, x, inverse, filter, n).len() <= n,
        forall|p: int|
            0 <= p < references_of(edges, x, inverse, filter, n).len() ==> exists|k: int|
                0 <= k < n && is_reference_of(edges, x, inverse, filter, edges[k])
                    && #[trigger] references_of(edges, x, inverse, filter, n)[p] == seen_from(
                    #[trigger] edges[k],
                    inverse,
                ),
        forall|k: int|
            0 <= k < n && is_reference_of(edges, x, inverse, filter, #[trigger] edges[k])
                ==> references_of(edges, x, inverse, filter, n).contains(
                seen_from(edges[k], inverse),
            ),
    decreases n,
{
    if n > 0 {
        lemma_references_exact(edges, x, inverse, filter, n - 1);
        let rest = references_of(edges, x, inverse, filter, n - 1);
        let all = references_of(edges, x, inverse, filter, n);
        let last = edges[n - 1];
        assert forall|p: int| 0 <= p < all.len() implies exists|k: int|
            0 <= k < n && is_reference_of(edges, x, inverse, filter, edges[k]) && #[trigger] all[p]
                == seen_from(#[trigger] edges[k], inverse) by {
            if p < rest.len() {
                let k = choose|k: int|
                    0 <= k < n - 1 && is_reference_of(edges, x, inverse, filter, edges[k])
                        && rest[p] == seen_from(#[trigger] edges[k], inverse);
                assert(all[p] == seen_from(edges[k], inverse));
            } else {
                assert(all[p] == seen_from(edges[n - 1], inverse));
            }
        }
        assert forall|k: int|
            0 <= k < n && is_reference_of(
                edges,
                x,
                inverse,
                filter,
                #[trigger] edges[k],
            ) implies all.contains(seen_from(edges[k], inverse)) by {
            if k < n - 1 {
                assert(rest.contains(seen_from(edges[k], inverse)));
                let p = choose|p: int| 0 <= p < rest.len() && rest[p] == seen_from(edges[k], inverse);
                assert(all[p] == seen_from(edges[k], inverse));
            } else {
                assert(all[all.len() - 1] == seen_from(edges[k], inverse));
            }
        }
    }
}

/// Browsing both directions without a filter yields exactly the
/// references that start or end at `x`: below the split index stand the
/// edges that start at `x`, seen from their source, and from the split
/// index on the edges that end at `x`, seen from their target.
pub proof fn lemma_both_directions(edges: Seq<EdgeView>, x: NodeIdView)
    ensures
        ({
            let (all, split) = references_by_direction(edges, x, BrowseDirection::Both, None);
            &&& 0 <= split <= all.len()
            &&& forall|p: int|
                0 <= p < split ==> exists|k: int|
                    0 <= k < edges.len() && (#[trigger] edges[k]).source == x && #[trigger] all[p]
                        == seen_from(edges[k], false)
            &&& forall|p: int|
                split <= p < all.len() ==> exists|k: int|
                    0 <= k < edges.len() && (#[trigger] edges[k]).target == x && #[trigger] all[p]
                        == seen_from(edges[k], true)
            &&& forall|k: int|
                0 <= k < edges.len() && (#[trigger] edges[k]).source == x ==> exists|p: int|
                    0 <= p < split && #[trigger] all[p] == seen_from(edges[k], false)
            &&& forall|k: int|
                0 <= k < edges.len() && (#[trigger] edges[k]).target == x ==> exists|p: int|
                    split <= p < all.len() && #[trigger] all[p] == seen_from(edges[k], true)
        }),
{
    let n = edges.len() as int;
    let forward = references_of(edges, x, false, None, n);
    let inverse = references_of(edges, x, true, None, n);
    let all = forward + inverse;
    let split = forward.len() as int;
    lemma_references_exact(edges, x, false, None, n);
    lemma_references_exact(edges, x, true, None, n);
    assert forall|p: int| 0 <= p < split implies exists|k: int|
        0 <= k < edges.len() && (#[trigger] edges[k]).source == x && #[trigger] all[p]
            == seen_from(edges[k], false) by {
        let k = choose|k: int|
            0 <= k < n && is_reference_of(edges, x, false, None, edges[k]) && forward[p]
                == seen_from(#[trigger] edges[k], false);
        assert(all[p] == forward[p]);
        assert(edges[k].source == x);
    }
    assert forall|p: int| split <= p < all.len() implies exists|k: int|
        0 <= k < edges.len() && (#[trigger] edges[k]).target == x && #[trigger] all[p]
            == seen_from(edges[k], true) by {
        let k = choose|k: int|
            0 <= k < n && is_reference_of(edges, x, true, None, edges[k]) && inverse[p - split]
                == seen_from(#[trigger] edges[k], true);
        assert(all[p] == inverse[p - split]);
        assert(edges[k].target == x);
    }
    assert forall|k: int|
        0 <= k < edges.len() && (#[trigger] edges[k]).source == x implies exists|p: int|
        0 <= p < split && #[trigger] all[p] == seen_from(edges[k], false) by {
        assert(is_reference_of(edges, x, false, None, edges[k]));
        assert(forward.contains(seen_from(edges[k], false)));
        let p = choose|p: int| 0 <= p < forward.len() && forward[p] == seen_from(edges[k], false);
        assert(all[p] == forward[p]);
    }
    assert forall|k: int|
        0 <= k < edges.len() && (#[trigger] edges[k]).target == x implies exists|p: int|
        split <= p < all.len() && #[trigger] all[p] == seen_from(edges[k], true) by {
        assert(is_reference_of(edges, x, true, None, edges[k]));
        assert(inverse.contains(seen_from(edges[k], true)));
        let p = choose|p: int| 0 <= p < inverse.len() && inverse[p] == seen_from(edges[k], true);
        assert(all[p + split] == inverse[p]);
    }
}

/// A filter that includes subtypes lets through every reference whose
/// type descends from the type of the filter by `HasSubtype` references.
pub proof fn lemma_subtypes_included(
    edges: Seq<EdgeView>,
    x: NodeIdView,
    type_id: NodeIdView,
    k: int,
)
    requires
        0 <= k < edges.len(),
        edges[k].source == x,
        is_subtype_of(edges, type_id, edges[k].reference_type_id),
    ensures
        references_by_direction(
            edges,
            x,
            BrowseDirection::Forward,
            Some((type_id, true)),
        ).0.contains(seen_from(edges[k], false)),
{
    lemma_references_exact(edges, x, false, Some((type_id, true)), edges.len() as int);
    assert(is_reference_of(edges, x, false, Some((type_id, true)), edges[k]));
}

/// The number of the first `n` edges whose target is not in `found`.
pub open spec fn missing_targets(edges: Seq<EdgeView>, found: Seq<NodeIdView>, n: int) -> nat
    decreases n,
{
    if n <= 0 {
        0
    } else {
        missing_targets(edges, found, n - 1) + (if found.contains(edges[n - 1].target) {
            0nat
        } else {
            1nat
        })
    }
}

/// Finding one more node does not raise the number of missing targets,
/// and lowers it when the node is the target of an edge and was missing.
proof fn lemma_missing_targets(edges: Seq<EdgeView>, found: Seq<NodeIdView>, t: NodeIdView, n: int)
    requires
        0 <= n <= edges.len(),
    ensures
        missing_targets(edges, found.push(t), n) <= missing_targets(edges, found, n),
        !found.contains(t) && (exists|j: int| 0 <= j < n && (#[trigger] edges[j]).target == t)
            ==> missing_targets(edges, found.push(t), n) < missing_targets(edges, found, n),
    decreases n,
{
    if n > 0 {
        lemma_missing_targets(edges, found, t, n - 1);
        let e = edges[n - 1];
        if found.contains(e.target) {
            let k = choose|k: int| 0 <= k < found.len() && found[k] == e.target;
            assert(found.push(t)[k] == e.target);
        }
        if e.target == t {
            assert(found.push(t)[found.len() as int] == t);
        }
        if !found.contains(t) && (exists|j: int| 0 <= j < n && (#[trigger] edges[j]).target == t) {
            let j = choose|j: int| 0 <= j < n && (#[trigger] edges[j]).target == t;
            if j < n - 1 {
                assert(edges[j].target == t);
            }
        }
    }
}

/// A set of nodes that holds `ancestor` and, with every node, the targets
/// of its `HasSubtype` references holds every subtype of `ancestor`.
proof fn lemma_closed_holds_subtypes(
    edges: Seq<EdgeView>,
    found: Seq<NodeIdView>,
    path: Seq<NodeIdView>,
    i: int,
)
    requires
        is_subtype_path(edges, path),
        found.contains(path[0]),
        forall|a: NodeIdView, b: NodeIdView|
            found.contains(a) && #[trigger] subtype_edge(edges, a, b) ==> found.contains(b),
        0 <= i < path.len(),
    ensures
        found.contains(path[i]),
    decreases i,
{
    if i > 0 {
        lemma_closed_holds_subtypes(edges, found, path, i - 1);
        assert(subtype_edge(edges, path[i - 1], path[i - 1 + 1]));
    }
}

/// A subtype of a subtype is a subtype.
proof fn lemma_subtype_step(edges: Seq<EdgeView>, ancestor: NodeIdView, a: NodeIdView, b: NodeIdView)
    requires
        is_subtype_of(edges, ancestor, a),
        subtype_edge(edges, a, b),
    ensures
        is_subtype_of(edges, ancestor, b),
{
    let path = choose|path: Seq<NodeIdView>| #[trigger]
        is_subtype_path(edges, path) && path[0] == ancestor && path.last() == a;
    let longer = path.push(b);
    assert forall|i: int| 0 <= i < longer.len() - 1 implies subtype_edge(
        edges,
        #[trigger] longer[i],
        longer[i + 1],
    ) by {
        if i < path.len() - 1 {
            assert(subtype_edge(edges, path[i], path[i + 1]));
        }
    }
    assert(is_subtype_path(edges, longer) && longer[0] == ancestor && longer.last() == b);
}

/// Every type is a subtype of itself.
proof fn lemma_subtype_self(edges: Seq<EdgeView>, t: NodeIdView)
    ensures
        is_subtype_of(edges, t, t),
{
    let path = seq![t];
    assert(is_subtype_path(edges, path) && path[0] == t && path.last() == t);
}

/// True when the node with the id `id` has the browse name `name`.
pub open spec fn node_named(nodes: Seq<NodeType>, id: NodeIdView, name: QualifiedNameView) -> bool {
    node_with_id(nodes, id) matches Some(node) && node.base().browse_name@ == name
}

/// The filter on reference types that a step of a path asks for: none
/// where its reference type is null.
pub open spec fn element_filter(element: RelativePathElementView) -> Option<(NodeIdView, bool)> {
    if element.reference_type_id == null_id() {
        None
    } else {
        Some((element.reference_type_id, element.include_subtypes))
    }
}

/// The nodes with the browse name `name` at the far end of the first `n`
/// of `references`, in their order.
pub open spec fn targets_named(
    nodes: Seq<NodeType>,
    references: Seq<ReferenceView>,
    name: QualifiedNameView,
    n: int,
) -> Seq<NodeIdView>
    decreases n,
{
    if n <= 0 {
        Seq::empty()
    } else {
        let rest = targets_named(nodes, references, name, n - 1);
        if node_named(nodes, references[n - 1].node_id, name) {
            rest.push(references[n - 1].node_id)
        } else {
            rest
        }
    }
}

/// The nodes to which one step of a path leads from the node `x`.
pub open spec fn follow(
    nodes: Seq<NodeType>,
    edges: Seq<EdgeView>,
    x: NodeIdView,
    element: RelativePathElementView,
) -> Seq<NodeIdView> {
    let references = references_of(
        edges,
        x,
        element.is_inverse,
        element_filter(element),
        edges.len() as int,
    );
    targets_named(nodes, references, element.target_name, references.len() as int)
}

/// The nodes to which one step of a path leads from the first `n` of
/// `current`: every branch is followed, in the order of `current`.
pub open spec fn follow_all(
    nodes: Seq<NodeType>,
    edges: Seq<EdgeView>,
    current: Seq<NodeIdView>,
    element: RelativePathElementView,
    n: int,
) -> Seq<NodeIdView>
    decreases n,
{
    if n <= 0 {
        Seq::empty()
    } else {
        follow_all(nodes, edges, current, element, n - 1) + follow(
            nodes,
            edges,
            current[n - 1],
            element,
        )
    }
}

/// The nodes to which the first `n` steps of a path lead from `start`.
pub open spec fn resolve(
    nodes: Seq<NodeType>,
    edges: Seq<EdgeView>,
    start: NodeIdView,
    elements: Seq<RelativePathElementView>,
    n: int,
) -> Seq<NodeIdView>
    decreases n,
{
    if n <= 0 {
        seq![start]
    } else {
        let current = resolve(nodes, edges, start, elements, n - 1);
        follow_all(nodes, edges, current, elements[n - 1], current.len() as int)
    }
}

/// What the resolution of a path from `start` gives: the nodes at its
/// end, or why there are none.
pub open spec fn resolution(
    nodes: Seq<NodeType>,
    edges: Seq<EdgeView>,
    start: NodeIdView,
    elements: Option<Seq<RelativePathElementView>>,
) -> Result<Seq<NodeIdView>, StatusCode> {
    if !has_id(nodes, start) {
        Err(BAD_NODE_ID_UNKNOWN)
    } else {
        match elements {
            Some(steps) => if steps.len() == 0 {
                Err(BAD_NOTHING_TO_DO)
            } else {
                let targets = resolve(nodes, edges, start, steps, steps.len() as int);
                if targets.len() == 0 {
                    Err(BAD_NO_MATCH)
                } else {
                    Ok(targets)
                }
            },
            None => Err(BAD_NOTHING_TO_DO),
        }
    }
}

/// Tells whether `id` is one of `list`.
fn id_in(list: &Vec<NodeId>, id: &NodeId) -> (r: bool)
    ensures
        r == seq_view(list@).contains(id@),
{
    let mut i: usize = 0;
    while i < list.len()
        invariant
            0 <= i <= list@.len(),
            forall|k: int| 0 <= k < i ==> (#[trigger] seq_view(list@)[k]) != id@,
        decreases list@.len() - i,
    {
        if list[i] == *id {
            assert(seq_view(list@)[i as int] == id@);
            return true;
        }
        i += 1;
    }
    false
}

impl AddressSpace {
    /// The nodes, in the order in which they came.
    pub closed spec fn nodes(&self) -> Seq<NodeType> {
        self.nodes@
    }

    /// The references, in the order in which they came.
    pub closed spec fn edges(&self) -> Seq<EdgeView> {
        seq_view(self.references@)
    }

    /// What holds of every address space: node ids are unique, no node
    /// has the null id, which stands for no node, and both ends of every
    /// reference are nodes of the address space.
    pub open spec fn wf(&self) -> bool {
        &&& ids_unique(self.nodes())
        &&& !has_id(self.nodes(), null_id())
        &&& ends_exist(self.nodes(), self.edges())
    }

    /// An address space without nodes.
    pub fn new() -> (r: AddressSpace)
        ensures
            r.wf(),
            r.nodes() == Seq::<NodeType>::empty(),
            r.edges() == Seq::<EdgeView>::empty(),
    {
        let r = AddressSpace { nodes: Vec::new(), references: Vec::new() };
        assert(r.edges() =~= Seq::<EdgeView>::empty());
        r
    }

    /// The index of the node with the id `node_id`, if there is one.
    fn index_of(&self, node_id: &NodeId) -> (r: Option<usize>)
        ensures
            match r {
                Some(i) => i < self.nodes().len() && self.nodes()[i as int].id() == node_id@,
                None => !has_id(self.nodes(), node_id@),
            },
    {
        let mut i: usize = 0;
        while i < self.nodes.len()
            invariant
                0 <= i <= self.nodes@.len(),
                forall|k: int| 0 <= k < i ==> (#[trigger] self.nodes@[k]).id() != node_id@,
            decreases self.nodes@.len() - i,
        {
            if self.nodes[i].as_node().node_id == *node_id {
                return Some(i);
            }
            i += 1;
        }
        None
    }

    /// Puts a node into the address space. Fails where the node has the
    /// null id, which is the id of no node, and where a node with the
    /// same id is there already.
    pub fn insert(&mut self, node: NodeType) -> (r: Result<(), StatusCode>)
        requires
            old(self).wf(),
        ensures
            final(self).wf(),
            final(self).edges() == old(self).edges(),
            node.id() == null_id() ==> r == Err::<(), StatusCode>(BAD_NODE_ID_INVALID)
                && final(self).nodes() == old(self).nodes(),
            has_id(old(self).nodes(), node.id()) ==> r == Err::<(), StatusCode>(BAD_NODE_ID_EXISTS)
                && final(self).nodes() == old(self).nodes(),
            node.id() != null_id() && !has_id(old(self).nodes(), node.id()) ==> r == Ok::<
                (),
                StatusCode,
            >(()) && final(self).nodes() == old(self).nodes().push(node),
    {
        let ghost id = node.id();
        let node_id = node.node_id();
        if node_id.is_null() {
            return Err(BAD_NODE_ID_INVALID);
        }
        if self.index_of(&node_id).is_some() {
            return Err(BAD_NODE_ID_EXISTS);
        }
        proof {
            lemma_inserted_node_is_found(self.nodes(), node);
            assert(!has_id(self.nodes().push(node), null_id())) by {
                if has_id(self.nodes().push(node), null_id()) {
                    let i = choose|i: int|
                        0 <= i < self.nodes().push(node).len() && #[trigger] self.nodes().push(
                            node,
                        )[i].id() == null_id();
                    if i < self.nodes().len() {
                        assert(self.nodes()[i].id() == null_id());
                    }
                }
            }
            assert forall|k: int| 0 <= k < self.edges().len() implies has_id(
                self.nodes().push(node),
                (#[trigger] self.edges()[k]).source,
            ) && has_id(self.nodes().push(node), self.edges()[k].target) by {
                let e = self.edges()[k];
                let i = choose|i: int|
                    0 <= i < self.nodes().len() && #[trigger] self.nodes()[i].id() == e.source;
                assert(self.nodes().push(node)[i].id() == e.source);
                let j = choose|j: int|
                    0 <= j < self.nodes().len() && #[trigger] self.nodes()[j].id() == e.target;
                assert(self.nodes().push(node)[j].id() == e.target);
            }
        }
        self.nodes.push(node);
        Ok(())
    }

    /// The node with the id `node_id`, if there is one.
    pub fn find_node(&self, node_id: &NodeId) -> (r: Option<&NodeType>)
        requires
            self.wf(),
        ensures
            match r {
                Some(node) => node_with_id(self.nodes(), node_id@) == Some(*node),
                None => node_with_id(self.nodes(), node_id@) is None,
            },
    {
        match self.index_of(node_id) {
            Some(i) => {
                proof {
                    lemma_node_with_id(self.nodes(), i as int);
                }
                Some(&self.nodes[i])
            },
            None => None,
        }
    }

    /// Tells whether there is a node with the id `node_id`.
    pub fn node_exists(&self, node_id: &NodeId) -> (r: bool)
        ensures
            r == has_id(self.nodes(), node_id@),
    {
        self.index_of(node_id).is_some()
    }

    /// Puts a reference of the type `reference_type_id` from `source` to
    /// `target` into the address space. Fails where one of the two is not
    /// a node of the address space.
    pub fn insert_reference(
        &mut self,
        source: &NodeId,
        target: &NodeId,
        reference_type_id: &NodeId,
    ) -> (r: Result<(), StatusCode>)
        requires
            old(self).wf(),
        ensures
            final(self).wf(),
            final(self).nodes() == old(self).nodes(),
            has_id(old(self).nodes(), source@) && has_id(old(self).nodes(), target@) ==> r == Ok::<
                (),
                StatusCode,
            >(()) && final(self).edges() == old(self).edges().push(
                EdgeView {
                    source: source@,
                    reference_type_id: reference_type_id@,
                    target: target@,
                },
            ),
            !(has_id(old(self).nodes(), source@) && has_id(old(self).nodes(), target@)) ==> r
                == Err::<(), StatusCode>(BAD_NODE_ID_UNKNOWN) && final(self).edges() == old(
                self,
            ).edges(),
    {
        if !self.node_exists(source) || !self.node_exists(target) {
            return Err(BAD_NODE_ID_UNKNOWN);
        }
        let edge = Edge {
            source: source.clone(),
            reference_type_id: reference_type_id.clone(),
            target: target.clone(),
        };
        self.references.push(edge);
        assert(self.edges() =~= old(self).edges().push(edge@));
        Ok(())
    }
    /// The reference type `type_id` and all its subtypes by `HasSubtype`
    /// references.
    pub fn subtypes_of(&self, type_id: &NodeId) -> (r: Vec<NodeId>)
        ensures
            forall|t: NodeIdView|
                #[trigger] seq_view(r@).contains(t) <==> is_subtype_of(self.edges(), type_id@, t),
    {
        let has_subtype = NodeId::new_numeric(0, HAS_SUBTYPE);
        let mut found: Vec<NodeId> = Vec::new();
        found.push(type_id.clone());
        let ghost edges = self.edges();
        let n = self.references.len();
        proof {
            lemma_subtype_self(edges, type_id@);
            assert(seq_view(found@)[0] == type_id@);
        }
        let mut i: usize = 0;
        while i < found.len()
            invariant
                edges == self.edges(),
                n == self.references@.len(),
                n == edges.len(),
                has_subtype@ == has_subtype_id(),
                0 <= i <= found@.len(),
                found@.len() >= 1,
                seq_view(found@)[0] == type_id@,
                forall|k: int|
                    0 <= k < found@.len() ==> is_subtype_of(
                        edges,
                        type_id@,
                        #[trigger] seq_view(found@)[k],
                    ),
                forall|k: int, b: NodeIdView|
                    0 <= k < i && #[trigger] subtype_edge(edges, seq_view(found@)[k], b)
                        ==> seq_view(found@).contains(b),
            decreases missing_targets(edges, seq_view(found@), n as int) + found@.len() - i,
        {
            let mut j: usize = 0;
            let ghost current = seq_view(found@)[i as int];
            let ghost budget = missing_targets(edges, seq_view(found@), n as int) + found@.len();
            while j < n
                invariant
                    edges == self.edges(),
                    n == self.references@.len(),
                    n == edges.len(),
                    has_subtype@ == has_subtype_id(),
                    0 <= j <= n,
                    0 <= i < found@.len(),
                    current == seq_view(found@)[i as int],
                    seq_view(found@)[0] == type_id@,
                    forall|k: int|
                        0 <= k < found@.len() ==> is_subtype_of(
                            edges,
                            type_id@,
                            #[trigger] seq_view(found@)[k],
                        ),
                    forall|k: int, b: NodeIdView|
                        0 <= k < i && #[trigger] subtype_edge(edges, seq_view(found@)[k], b)
                            ==> seq_view(found@).contains(b),
                    forall|m: int|
                        0 <= m < j && (#[trigger] edges[m]).source == current
                            && edges[m].reference_type_id == has_subtype_id() ==> seq_view(
                            found@,
                        ).contains(edges[m].target),
                    missing_targets(edges, seq_view(found@), n as int) + found@.len() <= budget,
                decreases n - j,
            {
                let edge = &self.references[j];
                assert(edges[j as int] == edge@);
                if edge.reference_type_id == has_subtype && edge.source == found[i] && !id_in(
                    &found,
                    &edge.target,
                ) {
                    let ghost before = seq_view(found@);
                    proof {
                        assert(subtype_edge(edges, current, edge@.target));
                        lemma_subtype_step(edges, type_id@, current, edge@.target);
                        lemma_missing_targets(edges, before, edge@.target, n as int);
                    }
                    found.push(edge.target.clone());
                    proof {
                        let after = seq_view(found@);
                        assert(after =~= before.push(edge@.target));
                        assert forall|b: NodeIdView| before.contains(b) implies after.contains(
                            b,
                        ) by {
                            let k = choose|k: int| 0 <= k < before.len() && before[k] == b;
                            assert(after[k] == b);
                        }
                        assert(after[before.len() as int] == edge@.target);
                    }
                }
                j += 1;
            }
            proof {
                assert forall|b: NodeIdView| #[trigger]
                    subtype_edge(edges, current, b) implies seq_view(found@).contains(b) by {
                    let m = choose|m: int|
                        0 <= m < edges.len() && (#[trigger] edges[m]).source == current
                            && edges[m].reference_type_id == has_subtype_id() && edges[m].target
                            == b;
                    assert(seq_view(found@).contains(edges[m].target));
                }
            }
            i += 1;
        }
        proof {
            let ids = seq_view(found@);
            assert forall|a: NodeIdView, b: NodeIdView|
                ids.contains(a) && #[trigger] subtype_edge(edges, a, b) implies ids.contains(b) by {
                let k = choose|k: int| 0 <= k < ids.len() && ids[k] == a;
                assert(subtype_edge(edges, ids[k], b));
            }
            assert forall|t: NodeIdView| #[trigger]
                ids.contains(t) <==> is_subtype_of(edges, type_id@, t) by {
                if ids.contains(t) {
                    let k = choose|k: int| 0 <= k < ids.len() && ids[k] == t;
                    assert(is_subtype_of(edges, type_id@, ids[k]));
                }
                if is_subtype_of(edges, type_id@, t) {
                    let path = choose|path: Seq<NodeIdView>| #[trigger]
                        is_subtype_path(edges, path) && path[0] == type_id@ && path.last() == t;
                    assert(ids.contains(ids[0]));
                    lemma_closed_holds_subtypes(edges, ids, path, path.len() - 1);
                }
            }
        }
        found
    }

    /// Appends to `result` the references of `node_id` in one direction
    /// that pass the filter: `types` is `None` for no filter, else the
    /// reference types that pass.
    fn collect_references(
        &self,
        node_id: &NodeId,
        inverse: bool,
        types: &Option<Vec<NodeId>>,
        result: &mut Vec<Reference>,
        Ghost(filter): Ghost<Option<(NodeIdView, bool)>>,
    )
        requires
            match types {
                Some(list) => filter is Some && forall|t: NodeIdView|
                    #[trigger] seq_view(list@).contains(t) <==> type_matches(
                        self.edges(),
                        filter,
                        t,
                    ),
                None => filter is None,
            },
        ensures
            seq_view(final(result)@) == seq_view(old(result)@) + references_of(
                self.edges(),
                node_id@,
                inverse,
                filter,
                self.edges().len() as int,
            ),
    {
        let ghost edges = self.edges();
        let ghost front = seq_view(result@);
        let n = self.references.len();
        let mut j: usize = 0;
        assert(seq_view(result@) =~= front + references_of(edges, node_id@, inverse, filter, 0));
        while j < n
            invariant
                edges == self.edges(),
                n == self.references@.len(),
                n == edges.len(),
                0 <= j <= n,
                match types {
                    Some(list) => filter is Some && forall|t: NodeIdView|
                        #[trigger] seq_view(list@).contains(t) <==> type_matches(edges, filter, t),
                    None => filter is None,
                },
                seq_view(result@) == front + references_of(
                    edges,
                    node_id@,
                    inverse,
                    filter,
                    j as int,
                ),
            decreases n - j,
        {
            let edge = &self.references[j];
            assert(edges[j as int] == edge@);
            let at_this_end = if inverse {
                edge.target == *node_id
            } else {
                edge.source == *node_id
            };
            let passes = match types {
                Some(list) => id_in(list, &edge.reference_type_id),
                None => true,
            };
            if at_this_end && passes {
                let ghost before = seq_view(result@);
                let reference = Reference {
                    reference_type_id: edge.reference_type_id.clone(),
                    node_id: if inverse {
                        edge.source.clone()
                    } else {
                        edge.target.clone()
                    },
                };
                result.push(reference);
                assert(seq_view(result@) =~= before.push(seen_from(edge@, inverse)));
                assert(seq_view(result@) =~= front + references_of(
                    edges,
                    node_id@,
                    inverse,
                    filter,
                    j + 1,
                ));
            }
            j += 1;
        }
    }

    /// The references of `node_id` in the direction `direction` that
    /// pass the filter `reference_filter`: a reference type and whether
    /// its subtypes pass too. Forward references come first; the number
    /// returned is the index at which the inverse references start.
    pub fn find_references_by_direction(
        &self,
        node_id: &NodeId,
        direction: BrowseDirection,
        reference_filter: Option<(NodeId, bool)>,
    ) -> (r: (Vec<Reference>, usize))
        ensures
            (seq_view(r.0@), r.1 as int) == references_by_direction(
                self.edges(),
                node_id@,
                direction,
                filter_view(reference_filter),
            ),
    {
        let ghost filter = filter_view(reference_filter);
        let types: Option<Vec<NodeId>> = match &reference_filter {
            Some((type_id, include_subtypes)) => {
                if *include_subtypes {
                    Some(self.subtypes_of(type_id))
                } else {
                    let mut only: Vec<NodeId> = Vec::new();
                    only.push(type_id.clone());
                    proof {
                        let ids = seq_view(only@);
                        assert(ids[0] == type_id@);
                        assert forall|t: NodeIdView| #[trigger]
                            ids.contains(t) <==> t == type_id@ by {
                            if ids.contains(t) {
                                let k = choose|k: int| 0 <= k < ids.len() && ids[k] == t;
                            }
                        }
                    }
                    Some(only)
                }
            },
            None => None,
        };
        let mut references: Vec<Reference> = Vec::new();
        assert(seq_view(references@) =~= Seq::<ReferenceView>::empty());
        match direction {
            BrowseDirection::Forward | BrowseDirection::Both => {
                self.collect_references(node_id, false, &types, &mut references, Ghost(filter));
            },
            BrowseDirection::Inverse => {},
        }
        let inverse_ref_idx = match direction {
            BrowseDirection::Inverse => 0,
            _ => references.len(),
        };
        let ghost forward = seq_view(references@);
        match direction {
            BrowseDirection::Inverse | BrowseDirection::Both => {
                self.collect_references(node_id, true, &types, &mut references, Ghost(filter));
            },
            BrowseDirection::Forward => {},
        }
        proof {
            let fwd = references_of(
                self.edges(),
                node_id@,
                false,
                filter,
                self.edges().len() as int,
            );
            let inv = references_of(self.edges(), node_id@, true, filter, self.edges().len() as int);
            assert(Seq::<ReferenceView>::empty() + fwd =~= fwd);
            assert(Seq::<ReferenceView>::empty() + inv =~= inv);
        }
        (references, inverse_ref_idx)
    }

    /// The forward references of `node_id` that pass the filter, or
    /// nothing where there is none.
    pub fn find_references_from(
        &self,
        node_id: &NodeId,
        reference_filter: Option<(NodeId, bool)>,
    ) -> (r: Option<Vec<Reference>>)
        ensures
            ({
                let forward = references_by_direction(
                    self.edges(),
                    node_id@,
                    BrowseDirection::Forward,
                    filter_view(reference_filter),
                ).0;
                match r {
                    Some(references) => seq_view(references@) == forward && forward.len() > 0,
                    None => forward.len() == 0,
                }
            }),
    {
        let (references, _) = self.find_references_by_direction(
            node_id,
            BrowseDirection::Forward,
            reference_filter,
        );
        if references.len() == 0 {
            None
        } else {
            Some(references)
        }
    }
    /// The nodes to which one step of a path leads from `node_id`: the
    /// far ends of its references, of the type and in the direction that
    /// the step names, that have the browse name that the step names.
    pub fn follow_relative_path(&self, node_id: &NodeId, element: &RelativePathElement) -> (r:
        Vec<NodeId>)
        requires
            self.wf(),
        ensures
            seq_view(r@) == follow(self.nodes(), self.edges(), node_id@, element@),
    {
        let reference_filter = if element.reference_type_id.is_null() {
            None
        } else {
            Some((element.reference_type_id.clone(), element.include_subtypes))
        };
        let direction = if element.is_inverse {
            BrowseDirection::Inverse
        } else {
            BrowseDirection::Forward
        };
        let (references, _) = self.find_references_by_direction(node_id, direction, reference_filter);
        let ghost all = seq_view(references@);
        let mut result: Vec<NodeId> = Vec::new();
        let mut i: usize = 0;
        assert(seq_view(result@) =~= targets_named(self.nodes(), all, element@.target_name, 0));
        while i < references.len()
            invariant
                self.wf(),
                all == seq_view(references@),
                0 <= i <= references@.len(),
                seq_view(result@) == targets_named(
                    self.nodes(),
                    all,
                    element@.target_name,
                    i as int,
                ),
            decreases references@.len() - i,
        {
            let reference = &references[i];
            assert(all[i as int] == reference@);
            let named = match self.find_node(&reference.node_id) {
                Some(node) => node.as_node().browse_name == element.target_name,
                None => false,
            };
            if named {
                let ghost before = seq_view(result@);
                result.push(reference.node_id.clone());
                assert(seq_view(result@) =~= before.push(reference@.node_id));
            }
            i += 1;
        }
        result
    }

    /// The nodes at the end of the path `relative_path` from `node_id`.
    /// Where several nodes match a step, every branch is followed.
    pub fn find_nodes_relative_path(&self, node_id: &NodeId, relative_path: &RelativePath) -> (r:
        Result<Vec<NodeId>, StatusCode>)
        requires
            self.wf(),
        ensures
            match resolution(self.nodes(), self.edges(), node_id@, relative_path@.elements) {
                Ok(targets) => r matches Ok(found) && seq_view(found@) == targets,
                Err(e) => r matches Err(f) && f == e,
            },
    {
        if !self.node_exists(node_id) {
            return Err(BAD_NODE_ID_UNKNOWN);
        }
        let elements = match &relative_path.elements {
            Some(elements) => elements,
            None => {
                return Err(BAD_NOTHING_TO_DO);
            },
        };
        if elements.len() == 0 {
            return Err(BAD_NOTHING_TO_DO);
        }
        let ghost steps = seq_view(elements@);
        let ghost nodes = self.nodes();
        let ghost edges = self.edges();
        let mut matching_nodes: Vec<NodeId> = Vec::new();
        matching_nodes.push(node_id.clone());
        assert(seq_view(matching_nodes@) =~= resolve(nodes, edges, node_id@, steps, 0));
        let mut i: usize = 0;
        while i < elements.len()
            invariant
                self.wf(),
                nodes == self.nodes(),
                edges == self.edges(),
                steps == seq_view(elements@),
                0 <= i <= elements@.len(),
                seq_view(matching_nodes@) == resolve(nodes, edges, node_id@, steps, i as int),
            decreases elements@.len() - i,
        {
            let element = &elements[i];
            assert(steps[i as int] == element@);
            let ghost current = seq_view(matching_nodes@);
            let mut next_matching_nodes: Vec<NodeId> = Vec::new();
            let mut k: usize = 0;
            assert(seq_view(next_matching_nodes@) =~= follow_all(
                nodes,
                edges,
                current,
                element@,
                0,
            ));
            while k < matching_nodes.len()
                invariant
                    self.wf(),
                    nodes == self.nodes(),
                    edges == self.edges(),
                    current == seq_view(matching_nodes@),
                    0 <= k <= matching_nodes@.len(),
                    seq_view(next_matching_nodes@) == follow_all(
                        nodes,
                        edges,
                        current,
                        element@,
                        k as int,
                    ),
                decreases matching_nodes@.len() - k,
            {
                assert(current[k as int] == matching_nodes@[k as int]@);
                let mut result = self.follow_relative_path(&matching_nodes[k], element);
                let ghost before = seq_view(next_matching_nodes@);
                let ghost added = seq_view(result@);
                next_matching_nodes.append(&mut result);
                assert(seq_view(next_matching_nodes@) =~= before + added);
                k += 1;
            }
            matching_nodes = next_matching_nodes;
            i += 1;
        }
        if matching_nodes.len() == 0 {
            Err(BAD_NO_MATCH)
        } else {
            Ok(matching_nodes)
        }
    }
}

} // verus!
