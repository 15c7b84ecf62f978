//! The semantic half of the perception view: for each scene node handed in,
//! the node's name and the name of its anchor.

use crate::scene_node::{anchor_label, SceneGraph};
use vstd::prelude::*;

verus! {

/// What the perception view reports of one scene node.
pub struct SemanticObject {
    pub name: String,
    pub anchor: String,
}

/// Builds the perception view handed to the agent.
pub struct PerceptionSystem;

impl PerceptionSystem {
    /// One entry per index in `nodes`, in the same order: the node's name and
    /// its anchor's name.
    pub fn semantic_objects(graph: &SceneGraph, nodes: &Vec<usize>) -> (objects: Vec<SemanticObject>)
        requires
            forall|k: int| 0 <= k < nodes@.len() ==> #[trigger] nodes@[k] < graph@.len(),
        ensures
            objects@.len() == nodes@.len(),
            forall|k: int|
                0 <= k < nodes@.len() ==> {
                    &&& (#[trigger] objects@[k]).name@ == graph@[nodes@[k] as int].name@
                    &&& objects@[k].anchor@ == anchor_label(graph@[nodes@[k] as int].anchor)
                },
    {
        let mut objects: Vec<SemanticObject> = Vec::new();
        let mut k: usize = 0;
        while k < nodes.len()
            invariant
                k <= nodes@.len(),
                objects@.len() == k,
                forall|m: int| 0 <= m < nodes@.len() ==> #[trigger] nodes@[m] < graph@.len(),
                forall|m: int|
                    0 <= m < k ==> {
                        &&& (#[trigger] objects@[m]).name@ == graph@[nodes@[m] as int].name@
                        &&& objects@[m].anchor@ == anchor_label(graph@[nodes@[m] as int].anchor)
                    },
            decreases nodes@.len() - k,
        {
            let node = graph.node(nodes[k]);
            objects.push(SemanticObject { name: node.name.clone(), anchor: node.anchor.label() });
            k = k + 1;
        }
        objects
    }
}

} // verus!
