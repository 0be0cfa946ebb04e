//! A single stored message: the name of the virtual host it passed through
//! and its opaque content bytes. Immutable once created.

use vstd::prelude::*;

verus! {

/// The mathematical value of a stored message.
#[verifier::ext_equal]
pub struct QueueObjectModel {
    pub virtual_host: Seq<char>,
    pub content: Seq<u8>,
}

/// One stored message: provenance tag plus opaque content.
pub struct QueueObject {
    pub virtual_host: String,
    pub content: Vec<u8>,
}

impl View for QueueObject {
    type V = QueueObjectModel;

    open spec fn view(&self) -> QueueObjectModel {
        QueueObjectModel { virtual_host: self.virtual_host@, content: self.content@ }
    }
}

fn clone_bytes(v: &Vec<u8>) -> (r: Vec<u8>)
    ensures
        r@ == v@,
{
    let mut r: Vec<u8> = Vec::new();
    let mut i: usize = 0;
    while i < v.len()
        invariant
            i <= v@.len(),
            r@ =~= v@.subrange(0, i as int),
        decreases v@.len() - i,
    {
        r.push(v[i]);
        i += 1;
    }
    proof {
        assert(v@.subrange(0, v@.len() as int) =~= v@);
    }
    r
}

impl QueueObject {
    pub fn new(virtual_host: &String, content: Vec<u8>) -> (r: QueueObject)
        ensures
            r@ == (QueueObjectModel { virtual_host: virtual_host@, content: content@ }),
    {
        QueueObject { virtual_host: virtual_host.clone(), content }
    }
}

impl Clone for QueueObject {
    fn clone(&self) -> (r: Self)
        ensures
            r@ == self@,
    {
        QueueObject { virtual_host: self.virtual_host.clone(), content: clone_bytes(&self.content) }
    }
}

} // verus!
