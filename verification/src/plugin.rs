//! The plugin descriptor: the immutable identity record for a plugin,
//! carrying its unique name and the URL path prefix it owns.

use vstd::prelude::*;

verus! {

/// A plugin descriptor. `name` is the primary key of the registry; `prefix`
/// is the routing key. Both are byte strings, as they travel on the wire.
#[derive(Debug)]
pub struct Plugin {
    pub name: Vec<u8>,
    pub prefix: Vec<u8>,
}

/// The mathematical value of a descriptor: its two fields as byte sequences.
pub struct PluginView {
    pub name: Seq<u8>,
    pub prefix: Seq<u8>,
}

impl View for Plugin {
    type V = PluginView;

    open spec fn view(&self) -> PluginView {
        PluginView { name: self.name@, prefix: self.prefix@ }
    }
}

/// Copies a byte string.
pub fn clone_bytes(v: &Vec<u8>) -> (r: Vec<u8>)
    ensures
        r@ == v@,
{
    let r = v.clone();
    proof {
        assert(r@ =~= v@);
    }
    r
}

impl Plugin {
    pub fn new(name: Vec<u8>, prefix: Vec<u8>) -> (r: Self)
        ensures
            r@ == (PluginView { name: name@, prefix: prefix@ }),
    {
        Plugin { name, prefix }
    }
}

impl Clone for Plugin {
    fn clone(&self) -> (r: Self)
        ensures
            r@ == self@,
    {
        Plugin { name: clone_bytes(&self.name), prefix: clone_bytes(&self.prefix) }
    }
}

} // verus!
