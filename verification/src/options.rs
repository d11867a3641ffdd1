//! The configuration the protocol core reads: the local node's identity
//! and bind address, the overall probe deadline, and the indirect-probe
//! fan-out width.

use vstd::prelude::*;

verus! {

/// The option record itself; `Options` hands out read access to it.
pub struct Inner {
    node_id: String,
    bind_address: String,
    probe_timeout_nanos: u64,
    indirect_check_num: u32,
}

impl Inner {
    pub closed spec fn node_id_spec(&self) -> Seq<char> {
        self.node_id@
    }

    pub closed spec fn bind_address_spec(&self) -> Seq<char> {
        self.bind_address@
    }

    pub closed spec fn probe_timeout_spec(&self) -> u64 {
        self.probe_timeout_nanos
    }

    pub closed spec fn indirect_check_num_spec(&self) -> u32 {
        self.indirect_check_num
    }

    pub fn new(
        node_id: String,
        bind_address: String,
        probe_timeout_nanos: u64,
        indirect_check_num: u32,
    ) -> (r: Self)
        ensures
            r.node_id_spec() == node_id@,
            r.bind_address_spec() == bind_address@,
            r.probe_timeout_spec() == probe_timeout_nanos,
            r.indirect_check_num_spec() == indirect_check_num,
    {
        Self { node_id, bind_address, probe_timeout_nanos, indirect_check_num }
    }
}

/// Read-only configuration handed to the probe engine and the
/// transports.
pub struct Options {
    inner: Inner,
}

impl Options {
    pub closed spec fn node_id_spec(&self) -> Seq<char> {
        self.inner.node_id_spec()
    }

    pub closed spec fn bind_address_spec(&self) -> Seq<char> {
        self.inner.bind_address_spec()
    }

    pub closed spec fn probe_timeout_spec(&self) -> u64 {
        self.inner.probe_timeout_spec()
    }

    pub closed spec fn indirect_check_num_spec(&self) -> u32 {
        self.inner.indirect_check_num_spec()
    }

    pub fn new(
        node_id: String,
        bind_address: String,
        probe_timeout_nanos: u64,
        indirect_check_num: u32,
    ) -> (r: Self)
        ensures
            r.node_id_spec() == node_id@,
            r.bind_address_spec() == bind_address@,
            r.probe_timeout_spec() == probe_timeout_nanos,
            r.indirect_check_num_spec() == indirect_check_num,
    {
        Self { inner: Inner::new(node_id, bind_address, probe_timeout_nanos, indirect_check_num) }
    }

    /// The overall per-probe deadline, in nanoseconds.
    pub fn probe_timeout(&self) -> (r: u64)
        ensures
            r == self.probe_timeout_spec(),
    {
        self.inner.probe_timeout_nanos
    }

    /// The address this node's transports bind and answer on.
    pub fn bind_address(&self) -> (r: &String)
        ensures
            r@ == self.bind_address_spec(),
    {
        &self.inner.bind_address
    }

    /// The local node's identity.
    pub fn node_id(&self) -> (r: &String)
        ensures
            r@ == self.node_id_spec(),
    {
        &self.inner.node_id
    }

    /// The fan-out width of indirect probes.
    pub fn indirect_check_num(&self) -> (r: u32)
        ensures
            r == self.indirect_check_num_spec(),
    {
        self.inner.indirect_check_num
    }
}

} // verus!
