use vstd::prelude::*;

verus! {

#[verifier::external_type_specification]
#[verifier::external_body]
pub struct ExAnyhowError(anyhow::Error);

/// A task that waits until the services listening on a set of local ports
/// have stopped. The waiting itself is done by the caller; this value holds
/// the ports to watch.
pub struct EnsureStopService {
    ports: Vec<u16>,
}

impl EnsureStopService {
    pub fn new(ports: Vec<u16>) -> (r: Result<Self, anyhow::Error>)
        ensures
            r matches Ok(s) && s.ports_view() == ports@,
    {
        Ok(EnsureStopService { ports })
    }

    pub closed spec fn ports_view(&self) -> Seq<u16> {
        self.ports@
    }

    /// The ports to wait on, in the order they were given.
    pub fn ports(&self) -> (r: &Vec<u16>)
        ensures
            r@ == self.ports_view(),
    {
        &self.ports
    }

    /// The name under which this step reports its progress.
    pub fn id(&self) -> (r: String)
        ensures
            r@ == "prepare"@,
    {
        proof {
            reveal_strlit("prepare");
        }
        String::from_str("prepare")
    }
}

} // verus!
