//! Placement: which node owns a location, and which peer holds which fragment.

use vstd::prelude::*;
use vstd::std_specs::iter::IteratorSpec;

verus! {

/// Number of nodes in the cluster.
pub const CLUSTER_SIZE: u32 = 7;

/// Number of registries among which a node spreads its locations.
pub const ROOT_ACTOR_POOL_SIZE: u32 = 7;

/// Distance from a node's client port to the port of its peer calls.
pub const RPC_PORT_OFFSET: u16 = 80;

/// The owner index after one more character `c` has been read on top of `acc`.
pub open spec fn owner_step(acc: int, c: char) -> int {
    ((acc * 10) % 7 + (c as u32 as int) % 7) % 7
}

/// The index of the node that owns a location: a left fold of [`owner_step`]
/// over the characters of its id, starting from 0.
pub open spec fn owner_of(location_id: Seq<char>) -> int
    decreases location_id.len(),
{
    if location_id.len() == 0 {
        0
    } else {
        owner_step(owner_of(location_id.drop_last()), location_id.last())
    }
}

/// The owner index always names a node of the cluster.
pub proof fn lemma_owner_in_cluster(location_id: Seq<char>)
    ensures
        0 <= owner_of(location_id) < 7,
    decreases location_id.len(),
{
    if location_id.len() > 0 {
        lemma_owner_in_cluster(location_id.drop_last());
    }
}

/// Computes the index of the node that owns `location_id`.
pub fn get_owner_node_id(location_id: String) -> (owner: u32)
    ensures
        owner as int == owner_of(location_id@),
        owner < CLUSTER_SIZE,
{
    let mut owner_id: u32 = 0;
    proof {
        broadcast use vstd::string::axiom_spec_iter;
    }
    for c in it: location_id.as_str().chars()
        invariant
            it.seq() == location_id@,
            owner_id as int == owner_of(location_id@.take(it.index() as int)),
            owner_id < 7,
    {
        proof {
            let n = it.index() as int;
            assert(location_id@.take(n + 1).drop_last() =~= location_id@.take(n));
        }
        owner_id = ((owner_id * 10) % 7 + (c as u32) % 7) % 7;
    }
    assert(location_id@.take(location_id@.len() as int) =~= location_id@);
    proof {
        lemma_owner_in_cluster(location_id@);
    }
    owner_id
}

/// The node that holds fragment `index` of a record owned by `owner`: the
/// fragments go to the other nodes in order, passing over the owner.
pub open spec fn fragment_holder(index: int, owner: int) -> int {
    if index < owner {
        index
    } else {
        index + 1
    }
}

/// The fragment that `node` holds of a record owned by `owner`, for a node
/// other than the owner.
pub open spec fn held_fragment(node: int, owner: int) -> int {
    if node < owner {
        node
    } else {
        node - 1
    }
}

/// The six fragments of a record go to six different nodes of the cluster,
/// none of them the owner, and every other node holds one.
pub proof fn lemma_holders_are_the_peers(owner: int)
    requires
        0 <= owner < 7,
    ensures
        forall|i: int| 0 <= i < 6 ==> 0 <= #[trigger] fragment_holder(i, owner) < 7,
        forall|i: int| 0 <= i < 6 ==> #[trigger] fragment_holder(i, owner) != owner,
        forall|i: int|
            0 <= i < 6 ==> held_fragment(#[trigger] fragment_holder(i, owner), owner) == i,
        forall|node: int|
            0 <= node < 7 && node != owner ==> 0 <= #[trigger] held_fragment(node, owner) < 6
                && fragment_holder(held_fragment(node, owner), owner) == node,
{
}

/// Computes the node that holds fragment `index` of a record owned by
/// `owner`.
pub fn fragment_target(index: usize, owner: u32) -> (node_id: u32)
    requires
        index < 6,
    ensures
        node_id as int == fragment_holder(index as int, owner as int),
{
    let position: u32 = index as u32;
    if position >= owner {
        position + 1
    } else {
        position
    }
}

/// The registry that keeps the cell of `location_id` on this node: the owner
/// index of the location, folded into the number of registries.
pub fn registry_index(location_id: String) -> (index: usize)
    ensures
        index as int == owner_of(location_id@) % (ROOT_ACTOR_POOL_SIZE as int),
        index < ROOT_ACTOR_POOL_SIZE,
{
    let owner = get_owner_node_id(location_id);
    (owner % ROOT_ACTOR_POOL_SIZE) as usize
}

/// The port of a node's peer calls, 80 above its client port, or `None`
/// where that is no port number.
pub fn rpc_port(port: u16) -> (rpc: Option<u16>)
    ensures
        match rpc {
            Some(p) => p == port + 80,
            None => port + 80 > u16::MAX,
        },
{
    port.checked_add(RPC_PORT_OFFSET)
}

} // verus!
