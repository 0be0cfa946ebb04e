//! The startup parameters the broker core is handed: where to listen and
//! which virtual hosts to provision besides the default one.

use vstd::prelude::*;

verus! {

/// Bind address, port, and the configured virtual-host names.
pub struct RuntimeContext {
    pub local_host: String,
    pub local_port: u16,
    pub hosts: Vec<String>,
}

impl RuntimeContext {
    pub fn new(local_host: String, local_port: u16) -> (r: RuntimeContext)
        ensures
            r.local_host@ == local_host@,
            r.local_port == local_port,
            r.hosts@.len() == 0,
    {
        RuntimeContext { local_host, local_port, hosts: Vec::new() }
    }
}

} // verus!
