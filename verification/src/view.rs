//! The view services: browsing the references of nodes, and translating
//! browse paths into node ids.

use vstd::prelude::*;
use crate::address_space::{
    ends_exist, has_id, is_reference_of, lemma_both_directions, lemma_references_exact,
    node_with_id,
    references_by_direction, references_of, resolution, seen_from, type_matches, AddressSpace,
    BrowseDirection, EdgeView, ReferenceView, HAS_TYPE_DEFINITION,
};
use crate::byte_string::ByteString;
use crate::encoding::seq_view;
use crate::localized_text::{null_text, LocalizedText};
use crate::node::{class_bit, Node, NodeClass, NodeType};
use crate::node_id::{expanded, null_id, numeric_id, ExpandedNodeId, ExpandedNodeIdView, NodeId, NodeIdView};
use crate::qualified_name::{null_name, QualifiedName};
use crate::service_messages::{
    is_fault, BrowseDescription, BrowseNextRequest, BrowsePathResult, BrowsePathTarget,
    BrowseRequest, BrowseResponse, BrowseResult, ReferenceDescription, ReferenceDescriptionView,
    RequestHeader, ResponseHeader, ServiceFault, SupportedMessage,
    TranslateBrowsePathsToNodeIdsRequest, TranslateBrowsePathsToNodeIdsResponse,
};
use crate::service_types::BrowsePath;
use crate::status_codes::{
    StatusCode, BAD_NODE_ID_UNKNOWN, BAD_NOTHING_TO_DO, BAD_VIEW_ID_UNKNOWN, GOOD,
};

verus! {

/// Asks for the type of the reference.
pub const RESULT_MASK_REFERENCE_TYPE: u32 = 1;

/// Asks for the direction of the reference.
pub const RESULT_MASK_IS_FORWARD: u32 = 2;

/// Asks for the class of the target.
pub const RESULT_MASK_NODE_CLASS: u32 = 4;

/// Asks for the browse name of the target.
pub const RESULT_MASK_BROWSE_NAME: u32 = 8;

/// Asks for the display name of the target.
pub const RESULT_MASK_DISPLAY_NAME: u32 = 16;

/// Asks for the type definition of the target.
pub const RESULT_MASK_TYPE_DEFINITION: u32 = 32;

/// The view service.
pub struct ViewService {}

/// True when the bit `bit`, a power of two, is set in `mask`.
pub open spec fn mask_has(mask: u32, bit: u32) -> bool {
    (mask as int / bit as int) % 2 == 1
}

/// Tells whether the bit `bit` is set in `mask`.
pub fn mask_bit_set(mask: u32, bit: u32) -> (r: bool)
    requires
        bit > 0,
    ensures
        r == mask_has(mask, bit),
{
    (mask / bit) % 2 == 1
}

/// True when a target of the class `class` passes the mask of node
/// classes `mask`: the mask 0 lets every class pass.
pub open spec fn class_passes(mask: u32, class: NodeClass) -> bool {
    mask == 0 || (class_bit(class) != 0 && mask_has(mask, class_bit(class)))
}

/// The type definition of the node `x`: the target of its first forward
/// reference of the type `HasTypeDefinition`, or null.
pub open spec fn type_definition_of(edges: Seq<EdgeView>, x: NodeIdView) -> ExpandedNodeIdView {
    let definitions = references_of(
        edges,
        x,
        false,
        Some((numeric_id(0, HAS_TYPE_DEFINITION), false)),
        edges.len() as int,
    );
    if definitions.len() > 0 {
        expanded(definitions[0].node_id)
    } else {
        expanded(null_id())
    }
}

/// True when the reference `reference` is described: its target is a
/// node of the address space whose class passes the mask.
pub open spec fn is_described(
    nodes: Seq<NodeType>,
    reference: ReferenceView,
    node_class_mask: u32,
) -> bool {
    node_with_id(nodes, reference.node_id) matches Some(target) && class_passes(
        node_class_mask,
        target.base().node_class,
    )
}

/// The description of a reference to the node `target`, with the fields
/// that `result_mask` asks for; the others are null.
pub open spec fn describe(
    edges: Seq<EdgeView>,
    reference: ReferenceView,
    is_forward: bool,
    result_mask: u32,
    target: NodeType,
) -> ReferenceDescriptionView {
    let class = target.base().node_class;
    ReferenceDescriptionView {
        node_id: expanded(reference.node_id),
        reference_type_id: if mask_has(result_mask, RESULT_MASK_REFERENCE_TYPE) {
            reference.reference_type_id
        } else {
            null_id()
        },
        is_forward: if mask_has(result_mask, RESULT_MASK_IS_FORWARD) {
            is_forward
        } else {
            true
        },
        node_class: if mask_has(result_mask, RESULT_MASK_NODE_CLASS) {
            class
        } else {
            NodeClass::Unspecified
        },
        browse_name: if mask_has(result_mask, RESULT_MASK_BROWSE_NAME) {
            target.base().browse_name@
        } else {
            null_name()
        },
        display_name: if mask_has(result_mask, RESULT_MASK_DISPLAY_NAME) {
            target.base().display_name@
        } else {
            null_text()
        },
        type_definition: if mask_has(result_mask, RESULT_MASK_TYPE_DEFINITION) && (class
            is Object || class is Variable) {
            type_definition_of(edges, reference.node_id)
        } else {
            expanded(null_id())
        },
    }
}

/// The descriptions of those of the first `n` of `references` that are
/// described. A reference is forward when its index is below `split`.
pub open spec fn descriptions(
    nodes: Seq<NodeType>,
    edges: Seq<EdgeView>,
    references: Seq<ReferenceView>,
    split: int,
    node_class_mask: u32,
    result_mask: u32,
    n: int,
) -> Seq<ReferenceDescriptionView>
    decreases n,
{
    if n <= 0 {
        Seq::empty()
    } else {
        let rest = descriptions(
            nodes,
            edges,
            references,
            split,
            node_class_mask,
            result_mask,
            n - 1,
        );
        if is_described(nodes, references[n - 1], node_class_mask) {
            rest.push(
                describe(
                    edges,
                    references[n - 1],
                    n - 1 < split,
                    result_mask,
                    node_with_id(nodes, references[n - 1].node_id)->0,
                ),
            )
        } else {
            rest
        }
    }
}

/// The first `max` of `items`, or all of them where there are fewer.
pub open spec fn at_most<T>(items: Seq<T>, max: int) -> Seq<T> {
    if 0 <= max < items.len() {
        items.take(max)
    } else {
        items
    }
}

/// The filter on reference types that a browse description asks for:
/// none where its reference type is null.
pub open spec fn description_filter(description: BrowseDescription) -> Option<(NodeIdView, bool)> {
    if description.reference_type_id@ == null_id() {
        None
    } else {
        Some((description.reference_type_id@, description.include_subtypes))
    }
}

/// What browsing the node of `description` gives: the descriptions of at
/// most `max` of its references, or the status that says why none.
pub open spec fn browse_outcome(
    nodes: Seq<NodeType>,
    edges: Seq<EdgeView>,
    description: BrowseDescription,
    max: u32,
) -> Result<Seq<ReferenceDescriptionView>, StatusCode> {
    if !has_id(nodes, description.node_id@) {
        Err(BAD_NODE_ID_UNKNOWN)
    } else {
        let (references, split) = references_by_direction(
            edges,
            description.node_id@,
            description.browse_direction,
            description_filter(description),
        );
        Ok(
            at_most(
                descriptions(
                    nodes,
                    edges,
                    references,
                    split,
                    description.node_class_mask,
                    description.result_mask,
                    references.len() as int,
                ),
                max as int,
            ),
        )
    }
}

/// True when `result` reports the outcome `outcome` of browsing a node.
pub open spec fn reports_browse(
    result: BrowseResult,
    outcome: Result<Seq<ReferenceDescriptionView>, StatusCode>,
) -> bool {
    result.continuation_point@ is None && match outcome {
        Ok(described) => result.status_code == GOOD && (result.references matches Some(references)
            && seq_view(references@) == described),
        Err(e) => result.status_code == e && result.references is None,
    }
}

/// The targets at which a translated path ends: every node with the
/// largest number for the remaining path, which says that the whole path
/// was followed.
pub open spec fn targets_of(targets: Seq<BrowsePathTarget>, found: Seq<NodeIdView>) -> bool {
    targets.len() == found.len() && forall|i: int|
        0 <= i < targets.len() ==> (#[trigger] targets[i]).target_id@ == expanded(found[i])
            && targets[i].remaining_path_index == u32::MAX
}

/// True when `result` reports the outcome of translating `path`.
pub open spec fn reports_path(
    result: BrowsePathResult,
    nodes: Seq<NodeType>,
    edges: Seq<EdgeView>,
    path: BrowsePath,
) -> bool {
    if path.relative_path@.elements is None {
        result.status_code == BAD_NOTHING_TO_DO && result.targets is None
    } else {
        match resolution(nodes, edges, path.starting_node@, path.relative_path@.elements) {
            Ok(found) => result.status_code == GOOD && (result.targets matches Some(targets)
                && targets_of(targets@, found)),
            Err(e) => result.status_code == e && result.targets is None,
        }
    }
}

/// True when `message` is the answer to the request `request` to
/// browse: a fault for a request without nodes or within a view, else one
/// result for each node.
pub open spec fn answers_browse(
    message: SupportedMessage,
    nodes: Seq<NodeType>,
    edges: Seq<EdgeView>,
    request: BrowseRequest,
) -> bool {
    match request.nodes_to_browse {
        None => is_fault(message, &request.request_header, BAD_NOTHING_TO_DO),
        Some(nodes_to_browse) => if request.view.view_id@ != null_id() {
            is_fault(message, &request.request_header, BAD_VIEW_ID_UNKNOWN)
        } else {
            &&& message matches SupportedMessage::BrowseResponse(response)
            &&& response.response_header.answers(&request.request_header, GOOD)
            &&& response.diagnostic_infos is None
            &&& response.results matches Some(results)
            &&& results@.len() == nodes_to_browse@.len()
            &&& forall|i: int|
                0 <= i < results@.len() ==> reports_browse(
                    #[trigger] results@[i],
                    browse_outcome(
                        nodes,
                        edges,
                        nodes_to_browse@[i],
                        request.requested_max_references_per_node,
                    ),
                )
        },
    }
}

/// True when `message` is the answer to the request `request` to
/// translate browse paths: a fault for a request without paths, else one
/// result for each path.
pub open spec fn answers_translation(
    message: SupportedMessage,
    nodes: Seq<NodeType>,
    edges: Seq<EdgeView>,
    request: TranslateBrowsePathsToNodeIdsRequest,
) -> bool {
    match request.browse_paths {
        None => is_fault(message, &request.request_header, BAD_NOTHING_TO_DO),
        Some(browse_paths) => if browse_paths@.len() == 0 {
            is_fault(message, &request.request_header, BAD_NOTHING_TO_DO)
        } else {
            &&& message matches SupportedMessage::TranslateBrowsePathsToNodeIdsResponse(response)
            &&& response.response_header.answers(&request.request_header, GOOD)
            &&& response.diagnostic_infos is None
            &&& response.results matches Some(results)
            &&& results@.len() == browse_paths@.len()
            &&& forall|i: int|
                0 <= i < results@.len() ==> reports_path(
                    #[trigger] results@[i],
                    nodes,
                    edges,
                    browse_paths@[i],
                )
        },
    }
}

/// The descriptions of fewer references are the start of the
/// descriptions of more.
proof fn lemma_descriptions_prefix(
    nodes: Seq<NodeType>,
    edges: Seq<EdgeView>,
    references: Seq<ReferenceView>,
    split: int,
    node_class_mask: u32,
    result_mask: u32,
    i: int,
    n: int,
)
    requires
        0 <= i <= n,
    ensures
        ({
            let short = descriptions(
                nodes,
                edges,
                references,
                split,
                node_class_mask,
                result_mask,
                i,
            );
            let long = descriptions(nodes, edges, references, split, node_class_mask, result_mask, n);
            short.len() <= long.len() && long.take(short.len() as int) == short
        }),
    decreases n - i,
{
    let short = descriptions(nodes, edges, references, split, node_class_mask, result_mask, i);
    let long = descriptions(nodes, edges, references, split, node_class_mask, result_mask, n);
    if i == n {
        assert(long.take(short.len() as int) =~= short);
    } else {
        lemma_descriptions_prefix(
            nodes,
            edges,
            references,
            split,
            node_class_mask,
            result_mask,
            i,
            n - 1,
        );
        assert(long.take(short.len() as int) =~= short);
    }
}

/// Every reference of a node leads to a node of the address space.
proof fn lemma_references_have_nodes(
    nodes: Seq<NodeType>,
    edges: Seq<EdgeView>,
    x: NodeIdView,
    direction: BrowseDirection,
    filter: Option<(NodeIdView, bool)>,
)
    requires
        ends_exist(nodes, edges),
    ensures
        forall|p: int|
            0 <= p < references_by_direction(edges, x, direction, filter).0.len() ==> has_id(
                nodes,
                (#[trigger] references_by_direction(edges, x, direction, filter).0[p]).node_id,
            ),
{
    let n = edges.len() as int;
    let forward = references_of(edges, x, false, filter, n);
    let inverse = references_of(edges, x, true, filter, n);
    let all = references_by_direction(edges, x, direction, filter).0;
    lemma_references_exact(edges, x, false, filter, n);
    lemma_references_exact(edges, x, true, filter, n);
    assert forall|p: int| 0 <= p < forward.len() implies has_id(
        nodes,
        (#[trigger] forward[p]).node_id,
    ) by {
        let k = choose|k: int|
            0 <= k < n && is_reference_of(edges, x, false, filter, edges[k]) && forward[p]
                == seen_from(#[trigger] edges[k], false);
        assert(has_id(nodes, edges[k].target));
    }
    assert forall|p: int| 0 <= p < inverse.len() implies has_id(
        nodes,
        (#[trigger] inverse[p]).node_id,
    ) by {
        let k = choose|k: int|
            0 <= k < n && is_reference_of(edges, x, true, filter, edges[k]) && inverse[p]
                == seen_from(#[trigger] edges[k], true);
        assert(has_id(nodes, edges[k].source));
    }
    assert forall|p: int| 0 <= p < all.len() implies has_id(nodes, (#[trigger] all[p]).node_id) by {
        match direction {
            BrowseDirection::Forward => {
                assert(all[p] == forward[p]);
            },
            BrowseDirection::Inverse => {
                assert(all[p] == inverse[p]);
            },
            BrowseDirection::Both => {
                if p < forward.len() {
                    assert(all[p] == forward[p]);
                } else {
                    assert(all[p] == inverse[p - forward.len()]);
                }
            },
        }
    }
}

/// Without a mask of node classes, every reference that leads to a node
/// is described, in the order of the references.
proof fn lemma_descriptions_of_all(
    nodes: Seq<NodeType>,
    edges: Seq<EdgeView>,
    references: Seq<ReferenceView>,
    split: int,
    result_mask: u32,
    n: int,
)
    requires
        0 <= n <= references.len(),
        forall|p: int| 0 <= p < n ==> has_id(nodes, (#[trigger] references[p]).node_id),
    ensures
        descriptions(nodes, edges, references, split, 0, result_mask, n).len() == n,
        forall|p: int|
            0 <= p < n ==> #[trigger] descriptions(
                nodes,
                edges,
                references,
                split,
                0,
                result_mask,
                n,
            )[p] == describe(
                edges,
                references[p],
                p < split,
                result_mask,
                node_with_id(nodes, references[p].node_id)->0,
            ),
    decreases n,
{
    if n > 0 {
        lemma_descriptions_of_all(nodes, edges, references, split, result_mask, n - 1);
        assert(has_id(nodes, references[n - 1].node_id));
        assert(is_described(nodes, references[n - 1], 0));
    }
}

/// Browsing a node without a mask of node classes describes every one of
/// its references, forward ones first and in their order, when there are
/// no more of them than the request allows: the description of a
/// reference carries what the result mask asks for of the node at its
/// other end.
pub proof fn lemma_browse_describes_every_reference(
    nodes: Seq<NodeType>,
    edges: Seq<EdgeView>,
    description: BrowseDescription,
    max: u32,
)
    requires
        ends_exist(nodes, edges),
        has_id(nodes, description.node_id@),
        description.node_class_mask == 0,
        references_by_direction(
            edges,
            description.node_id@,
            description.browse_direction,
            description_filter(description),
        ).0.len() <= max,
    ensures
        ({
            let (references, split) = references_by_direction(
                edges,
                description.node_id@,
                description.browse_direction,
                description_filter(description),
            );
            &&& browse_outcome(nodes, edges, description, max) matches Ok(described)
            &&& described.len() == references.len()
            &&& forall|p: int|
                0 <= p < described.len() ==> node_with_id(nodes, references[p].node_id) is Some
                    && #[trigger] described[p] == describe(
                    edges,
                    references[p],
                    p < split,
                    description.result_mask,
                    node_with_id(nodes, references[p].node_id)->0,
                )
        }),
{
    let (references, split) = references_by_direction(
        edges,
        description.node_id@,
        description.browse_direction,
        description_filter(description),
    );
    lemma_references_have_nodes(
        nodes,
        edges,
        description.node_id@,
        description.browse_direction,
        description_filter(description),
    );
    lemma_descriptions_of_all(
        nodes,
        edges,
        references,
        split,
        description.result_mask,
        references.len() as int,
    );
}

/// Browsing forward, or in both directions, describes every reference
/// that starts at the browsed node and passes the filter on reference
/// types, as a forward reference to the node at its target. A filter that
/// includes subtypes lets pass the references whose type descends from
/// its type by `HasSubtype` references.
pub proof fn lemma_passing_reference_is_described(
    nodes: Seq<NodeType>,
    edges: Seq<EdgeView>,
    description: BrowseDescription,
    max: u32,
    k: int,
)
    requires
        ends_exist(nodes, edges),
        has_id(nodes, description.node_id@),
        description.node_class_mask == 0,
        description.browse_direction is Forward || description.browse_direction is Both,
        references_by_direction(
            edges,
            description.node_id@,
            description.browse_direction,
            description_filter(description),
        ).0.len() <= max,
        0 <= k < edges.len(),
        edges[k].source == description.node_id@,
        type_matches(edges, description_filter(description), edges[k].reference_type_id),
    ensures
        node_with_id(nodes, edges[k].target) is Some,
        browse_outcome(nodes, edges, description, max) matches Ok(described) && exists|p: int|
            0 <= p < described.len() && #[trigger] described[p] == describe(
                edges,
                seen_from(edges[k], false),
                true,
                description.result_mask,
                node_with_id(nodes, edges[k].target)->0,
            ),
{
    let x = description.node_id@;
    let filter = description_filter(description);
    let n = edges.len() as int;
    let (references, split) = references_by_direction(
        edges,
        x,
        description.browse_direction,
        filter,
    );
    let forward = references_of(edges, x, false, filter, n);
    lemma_browse_describes_every_reference(nodes, edges, description, max);
    lemma_references_exact(edges, x, false, filter, n);
    assert(is_reference_of(edges, x, false, filter, edges[k]));
    assert(forward.contains(seen_from(edges[k], false)));
    let p = choose|p: int| 0 <= p < forward.len() && forward[p] == seen_from(edges[k], false);
    assert(references[p] == forward[p]);
    assert(p < split);
    let described = browse_outcome(nodes, edges, description, max)->Ok_0;
    assert(described[p] == describe(
        edges,
        seen_from(edges[k], false),
        true,
        description.result_mask,
        node_with_id(nodes, edges[k].target)->0,
    ));
    assert(has_id(nodes, edges[k].target));
}

/// Browsing a node in both directions, without a filter on reference
/// types or node classes and without truncation, describes exactly the
/// references that start or end at the node: below the split index of
/// the references stand the targets of those that start at it, from the
/// split index on the sources of those that end at it.
pub proof fn lemma_browse_both_directions(
    nodes: Seq<NodeType>,
    edges: Seq<EdgeView>,
    description: BrowseDescription,
    max: u32,
)
    requires
        ends_exist(nodes, edges),
        has_id(nodes, description.node_id@),
        description.node_class_mask == 0,
        description.browse_direction is Both,
        description.reference_type_id@ == null_id(),
        references_by_direction(edges, description.node_id@, BrowseDirection::Both, None).0.len()
            <= max,
    ensures
        ({
            let x = description.node_id@;
            let (references, split) = references_by_direction(
                edges,
                x,
                BrowseDirection::Both,
                None,
            );
            &&& browse_outcome(nodes, edges, description, max) matches Ok(described)
            &&& described.len() == references.len()
            &&& 0 <= split <= described.len()
            &&& forall|p: int|
                0 <= p < split ==> exists|k: int|
                    0 <= k < edges.len() && (#[trigger] edges[k]).source == x && (
                    #[trigger] described[p]).node_id == expanded(edges[k].target)
            &&& forall|p: int|
                split <= p < described.len() ==> exists|k: int|
                    0 <= k < edges.len() && (#[trigger] edges[k]).target == x && (
                    #[trigger] described[p]).node_id == expanded(edges[k].source)
            &&& forall|k: int|
                0 <= k < edges.len() && (#[trigger] edges[k]).source == x ==> exists|p: int|
                    0 <= p < split && (#[trigger] described[p]).node_id == expanded(edges[k].target)
            &&& forall|k: int|
                0 <= k < edges.len() && (#[trigger] edges[k]).target == x ==> exists|p: int|
                    split <= p < described.len() && (#[trigger] described[p]).node_id == expanded(
                        edges[k].source,
                    )
        }),
{
    let x = description.node_id@;
    let (references, split) = references_by_direction(edges, x, BrowseDirection::Both, None);
    lemma_browse_describes_every_reference(nodes, edges, description, max);
    lemma_both_directions(edges, x);
    let described = browse_outcome(nodes, edges, description, max)->Ok_0;
    assert forall|p: int| 0 <= p < described.len() implies (#[trigger] described[p]).node_id
        == expanded(references[p].node_id) by {}
    assert forall|p: int| 0 <= p < split implies exists|k: int|
        0 <= k < edges.len() && (#[trigger] edges[k]).source == x && (
        #[trigger] described[p]).node_id == expanded(edges[k].target) by {
        let k = choose|k: int|
            0 <= k < edges.len() && (#[trigger] edges[k]).source == x && references[p]
                == seen_from(edges[k], false);
        assert(described[p].node_id == expanded(edges[k].target));
    }
    assert forall|p: int| split <= p < described.len() implies exists|k: int|
        0 <= k < edges.len() && (#[trigger] edges[k]).target == x && (
        #[trigger] described[p]).node_id == expanded(edges[k].source) by {
        let k = choose|k: int|
            0 <= k < edges.len() && (#[trigger] edges[k]).target == x && references[p]
                == seen_from(edges[k], true);
        assert(described[p].node_id == expanded(edges[k].source));
    }
    assert forall|k: int|
        0 <= k < edges.len() && (#[trigger] edges[k]).source == x implies exists|p: int|
        0 <= p < split && (#[trigger] described[p]).node_id == expanded(edges[k].target) by {
        let p = choose|p: int| 0 <= p < split && #[trigger] references[p] == seen_from(
            edges[k],
            false,
        );
        assert(described[p].node_id == expanded(edges[k].target));
    }
    assert forall|k: int|
        0 <= k < edges.len() && (#[trigger] edges[k]).target == x implies exists|p: int|
        split <= p < described.len() && (#[trigger] described[p]).node_id == expanded(
            edges[k].source,
        ) by {
        let p = choose|p: int|
            split <= p < references.len() && #[trigger] references[p] == seen_from(edges[k], true);
        assert(described[p].node_id == expanded(edges[k].source));
    }
}

/// The fault that answers a request with the status `service_result`.
pub fn service_fault(request_header: &RequestHeader, service_result: StatusCode) -> (r:
    SupportedMessage)
    ensures
        is_fault(r, request_header, service_result),
{
    ServiceFault::new_supported_message(request_header, service_result)
}

impl ViewService {
    pub fn new() -> (r: ViewService) {
        ViewService {  }
    }

    /// Browses the nodes that the request names: one result for each, with
    /// the descriptions of its references or the status that says why
    /// there are none. A request without nodes, or within a view, fails
    /// as a whole.
    pub fn browse(&self, address_space: &AddressSpace, request: BrowseRequest) -> (r: Result<
        SupportedMessage,
        StatusCode,
    >)
        requires
            address_space.wf(),
        ensures
            r matches Ok(message) && answers_browse(
                message,
                address_space.nodes(),
                address_space.edges(),
                request,
            ),
    {
        let nodes_to_browse = match &request.nodes_to_browse {
            Some(nodes_to_browse) => nodes_to_browse,
            None => {
                return Ok(service_fault(&request.request_header, BAD_NOTHING_TO_DO));
            },
        };
        if !request.view.view_id.is_null() {
            return Ok(service_fault(&request.request_header, BAD_VIEW_ID_UNKNOWN));
        }
        let mut browse_results: Vec<BrowseResult> = Vec::new();
        let mut i: usize = 0;
        while i < nodes_to_browse.len()
            invariant
                address_space.wf(),
                0 <= i <= nodes_to_browse@.len(),
                browse_results@.len() == i,
                forall|k: int|
                    0 <= k < i ==> reports_browse(
                        #[trigger] browse_results@[k],
                        browse_outcome(
                            address_space.nodes(),
                            address_space.edges(),
                            nodes_to_browse@[k],
                            request.requested_max_references_per_node,
                        ),
                    ),
            decreases nodes_to_browse@.len() - i,
        {
            let references = ViewService::reference_descriptions(
                address_space,
                &nodes_to_browse[i],
                request.requested_max_references_per_node,
            );
            let browse_result = match references {
                Ok(references) => BrowseResult {
                    status_code: GOOD,
                    continuation_point: ByteString::null(),
                    references: Some(references),
                },
                Err(status_code) => BrowseResult {
                    status_code,
                    continuation_point: ByteString::null(),
                    references: None,
                },
            };
            browse_results.push(browse_result);
            i += 1;
        }
        let response = BrowseResponse {
            response_header: ResponseHeader::new_good(&request.request_header),
            results: Some(browse_results),
            diagnostic_infos: None,
        };
        Ok(SupportedMessage::BrowseResponse(response))
    }

    /// Goes on browsing from continuation points. Browsing hands out no
    /// continuation points, so there is never anything to do.
    pub fn browse_next(&self, request: BrowseNextRequest) -> (r: Result<
        SupportedMessage,
        StatusCode,
    >)
        ensures
            r matches Ok(message) && is_fault(message, &request.request_header, BAD_NOTHING_TO_DO),
    {
        Ok(service_fault(&request.request_header, BAD_NOTHING_TO_DO))
    }

    /// Translates the browse paths that the request names: one result for
    /// each, with the nodes at the end of the path or the status that says
    /// why there are none. A request without paths fails as a whole.
    pub fn translate_browse_paths_to_node_ids(
        &self,
        address_space: &AddressSpace,
        request: TranslateBrowsePathsToNodeIdsRequest,
    ) -> (r: Result<SupportedMessage, StatusCode>)
        requires
            address_space.wf(),
        ensures
            r matches Ok(message) && answers_translation(
                message,
                address_space.nodes(),
                address_space.edges(),
                request,
            ),
    {
        let browse_paths = match &request.browse_paths {
            Some(browse_paths) => browse_paths,
            None => {
                return Ok(service_fault(&request.request_header, BAD_NOTHING_TO_DO));
            },
        };
        if browse_paths.len() == 0 {
            return Ok(service_fault(&request.request_header, BAD_NOTHING_TO_DO));
        }
        let mut results: Vec<BrowsePathResult> = Vec::new();
        let mut i: usize = 0;
        while i < browse_paths.len()
            invariant
                address_space.wf(),
                0 <= i <= browse_paths@.len(),
                results@.len() == i,
                forall|k: int|
                    0 <= k < i ==> reports_path(
                        #[trigger] results@[k],
                        address_space.nodes(),
                        address_space.edges(),
                        browse_paths@[k],
                    ),
            decreases browse_paths@.len() - i,
        {
            let browse_path = &browse_paths[i];
            let browse_result = if browse_path.relative_path.elements.is_none() {
                BrowsePathResult { status_code: BAD_NOTHING_TO_DO, targets: None }
            } else {
                match address_space.find_nodes_relative_path(
                    &browse_path.starting_node,
                    &browse_path.relative_path,
                ) {
                    Ok(found) => {
                        let mut targets: Vec<BrowsePathTarget> = Vec::new();
                        let mut k: usize = 0;
                        while k < found.len()
                            invariant
                                0 <= k <= found@.len(),
                                targets_of(targets@, seq_view(found@).take(k as int)),
                            decreases found@.len() - k,
                        {
                            targets.push(
                                BrowsePathTarget {
                                    target_id: ExpandedNodeId::new(&found[k]),
                                    remaining_path_index: u32::MAX,
                                },
                            );
                            k += 1;
                        }
                        assert(seq_view(found@).take(found@.len() as int) =~= seq_view(found@));
                        BrowsePathResult { status_code: GOOD, targets: Some(targets) }
                    },
                    Err(status_code) => BrowsePathResult { status_code, targets: None },
                }
            };
            results.push(browse_result);
            i += 1;
        }
        let response = TranslateBrowsePathsToNodeIdsResponse {
            response_header: ResponseHeader::new_good(&request.request_header),
            results: Some(results),
            diagnostic_infos: None,
        };
        Ok(SupportedMessage::TranslateBrowsePathsToNodeIdsResponse(response))
    }

    /// The descriptions of the references of the node that
    /// `node_to_browse` names, at most `max_references_per_node` of them.
    pub fn reference_descriptions(
        address_space: &AddressSpace,
        node_to_browse: &BrowseDescription,
        max_references_per_node: u32,
    ) -> (r: Result<Vec<ReferenceDescription>, StatusCode>)
        requires
            address_space.wf(),
        ensures
            match browse_outcome(
                address_space.nodes(),
                address_space.edges(),
                *node_to_browse,
                max_references_per_node,
            ) {
                Ok(described) => r matches Ok(references) && seq_view(references@) == described,
                Err(e) => r matches Err(f) && f == e,
            },
    {
        // The node must exist or there will be no references.
        if !address_space.node_exists(&node_to_browse.node_id) {
            return Err(BAD_NODE_ID_UNKNOWN);
        }
        // The request may wish to filter by a kind of reference.
        let reference_type_id = if node_to_browse.reference_type_id.is_null() {
            None
        } else {
            Some((node_to_browse.reference_type_id.clone(), node_to_browse.include_subtypes))
        };
        let (references, inverse_ref_idx) = address_space.find_references_by_direction(
            &node_to_browse.node_id,
            node_to_browse.browse_direction,
            reference_type_id,
        );
        let result_mask = node_to_browse.result_mask;
        let node_class_mask = node_to_browse.node_class_mask;
        let ghost nodes = address_space.nodes();
        let ghost edges = address_space.edges();
        let ghost all = seq_view(references@);
        let ghost split = inverse_ref_idx as int;
        let limit = max_references_per_node as usize;
        let mut reference_descriptions: Vec<ReferenceDescription> = Vec::new();
        let mut idx: usize = 0;
        assert(seq_view(reference_descriptions@) =~= descriptions(
            nodes,
            edges,
            all,
            split,
            node_class_mask,
            result_mask,
            0,
        ));
        while idx < references.len() && reference_descriptions.len() < limit
            invariant
                address_space.wf(),
                nodes == address_space.nodes(),
                edges == address_space.edges(),
                all == seq_view(references@),
                split == inverse_ref_idx as int,
                limit == max_references_per_node,
                0 <= idx <= references@.len(),
                reference_descriptions@.len() <= limit,
                seq_view(reference_descriptions@) == descriptions(
                    nodes,
                    edges,
                    all,
                    split,
                    node_class_mask,
                    result_mask,
                    idx as int,
                ),
            decreases references@.len() - idx,
        {
            let reference = &references[idx];
            assert(all[idx as int] == reference@);
            let target = address_space.find_node(&reference.node_id);
            if let Some(target_node) = target {
                let target_node = target_node.as_node();
                let target_node_class = target_node.node_class;
                // Targets that the mask of node classes does not name are left out.
                let class_bit = target_node_class.bit();
                let passes = node_class_mask == 0 || (class_bit != 0 && mask_bit_set(
                    node_class_mask,
                    class_bit,
                ));
                if passes {
                    let description = ViewService::describe_reference(
                        address_space,
                        reference,
                        idx < inverse_ref_idx,
                        result_mask,
                        target_node,
                    );
                    let ghost before = seq_view(reference_descriptions@);
                    reference_descriptions.push(description);
                    assert(seq_view(reference_descriptions@) =~= before.push(description@));
                }
            }
            idx += 1;
        }
        proof {
            let n = all.len() as int;
            let described = descriptions(
                nodes,
                edges,
                all,
                split,
                node_class_mask,
                result_mask,
                n,
            );
            lemma_descriptions_prefix(
                nodes,
                edges,
                all,
                split,
                node_class_mask,
                result_mask,
                idx as int,
                n,
            );
            assert(seq_view(reference_descriptions@) =~= at_most(
                described,
                max_references_per_node as int,
            ));
        }
        Ok(reference_descriptions)
    }

    /// The description of `reference`, whose target is the node with the
    /// attributes `target_node`, with the fields that `result_mask` asks
    /// for.
    fn describe_reference(
        address_space: &AddressSpace,
        reference: &crate::address_space::Reference,
        is_forward: bool,
        result_mask: u32,
        target_node: &crate::node::Base,
    ) -> (r: ReferenceDescription)
        requires
            address_space.wf(),
            node_with_id(address_space.nodes(), reference@.node_id) matches Some(target)
                && target.base() == *target_node,
        ensures
            r@ == describe(
                address_space.edges(),
                reference@,
                is_forward,
                result_mask,
                node_with_id(address_space.nodes(), reference@.node_id)->0,
            ),
    {
        let target_node_class = target_node.node_class;
        let reference_type_id = if mask_bit_set(result_mask, RESULT_MASK_REFERENCE_TYPE) {
            reference.reference_type_id.clone()
        } else {
            NodeId::null()
        };
        let is_forward = if mask_bit_set(result_mask, RESULT_MASK_IS_FORWARD) {
            is_forward
        } else {
            true
        };
        let node_class = if mask_bit_set(result_mask, RESULT_MASK_NODE_CLASS) {
            target_node_class
        } else {
            NodeClass::Unspecified
        };
        let browse_name = if mask_bit_set(result_mask, RESULT_MASK_BROWSE_NAME) {
            target_node.browse_name()
        } else {
            QualifiedName::null()
        };
        let display_name = if mask_bit_set(result_mask, RESULT_MASK_DISPLAY_NAME) {
            target_node.display_name()
        } else {
            LocalizedText::null()
        };
        let type_definition = if mask_bit_set(result_mask, RESULT_MASK_TYPE_DEFINITION) {
            // Only objects and variables have a type definition.
            match target_node_class {
                NodeClass::Object | NodeClass::Variable => {
                    let type_defs = address_space.find_references_from(
                        &reference.node_id,
                        Some((NodeId::new_numeric(0, HAS_TYPE_DEFINITION), false)),
                    );
                    match type_defs {
                        Some(type_defs) => {
                            assert(seq_view(type_defs@)[0] == type_defs@[0]@);
                            ExpandedNodeId::new(&type_defs[0].node_id)
                        },
                        None => ExpandedNodeId::null(),
                    }
                },
                _ => ExpandedNodeId::null(),
            }
        } else {
            ExpandedNodeId::null()
        };
        ReferenceDescription {
            node_id: ExpandedNodeId::new(&reference.node_id),
            reference_type_id,
            is_forward,
            node_class,
            browse_name,
            display_name,
            type_definition,
        }
    }
}

} // verus!
