//! What the kernel's tables say, as messages.
pub mod firewall;
pub mod link_laws;
pub mod links;
pub mod neigh;
pub mod proc_laws;
pub mod procnet;
pub mod route_laws;
pub mod routes;
pub mod sockdiag;
pub mod socket_laws;
pub mod sockets;

use std::collections::HashMap;

use vstd::prelude::*;

use crate::proto::Interface;

verus! {

/// The names of interfaces by their index; where two have the same index, the
/// later one counts.
pub open spec fn names_of(interfaces: Seq<Interface>) -> Map<u32, String>
    decreases interfaces.len(),
{
    if interfaces.len() == 0 {
        Map::empty()
    } else {
        names_of(interfaces.drop_last()).insert(interfaces.last().index, interfaces.last().name)
    }
}

/// The name of the interface with an index, or nothing where none has it.
pub open spec fn name_in(names: Map<u32, String>, index: u32) -> Seq<char> {
    if names.contains_key(index) {
        names[index]@
    } else {
        Seq::empty()
    }
}

/// The names of interfaces by their index.
pub fn interface_names(interfaces: &Vec<Interface>) -> (r: HashMap<u32, String>)
    ensures
        r@ == names_of(interfaces@),
{
    broadcast use vstd::std_specs::hash::group_hash_axioms;

    let mut r: HashMap<u32, String> = HashMap::new();
    let mut i: usize = 0;
    assert(interfaces@.take(0) =~= Seq::empty());
    assert(r@ =~= names_of(interfaces@.take(0)));
    while i < interfaces.len()
        invariant
            i <= interfaces.len(),
            r@ == names_of(interfaces@.take(i as int)),
        decreases interfaces.len() - i,
    {
        broadcast use vstd::std_specs::hash::group_hash_axioms;

        assert(interfaces@.take(i + 1).drop_last() =~= interfaces@.take(i as int));
        r.insert(interfaces[i].index, interfaces[i].name.clone());
        i += 1;
    }
    assert(interfaces@.take(interfaces@.len() as int) =~= interfaces@);
    r
}

/// The name of the interface with an index, or nothing where none has it.
pub(crate) fn name_or_empty(names: &HashMap<u32, String>, index: u32) -> (r: String)
    ensures
        r@ == name_in(names@, index),
{
    broadcast use vstd::std_specs::hash::group_hash_axioms;

    match names.get(&index) {
        Some(name) => name.clone(),
        None => String::new(),
    }
}

} // verus!
