use vstd::prelude::*;

verus! {

/// The class of poolable connections: a host, a port and a login name.
/// Credentials are not part of it; they are only needed while opening.
pub struct EndpointKey {
    pub host: String,
    pub port: u16,
    pub username: String,
}

impl View for EndpointKey {
    type V = (Seq<char>, u16, Seq<char>);

    open spec fn view(&self) -> (Seq<char>, u16, Seq<char>) {
        (self.host@, self.port, self.username@)
    }
}

impl EndpointKey {
    pub fn new(host: String, port: u16, username: String) -> (r: EndpointKey)
        ensures
            r.host == host,
            r.port == port,
            r.username == username,
    {
        EndpointKey { host, port, username }
    }

    /// An independent copy of the key.
    pub fn duplicate(&self) -> (r: EndpointKey)
        ensures
            r == *self,
    {
        EndpointKey { host: self.host.clone(), port: self.port, username: self.username.clone() }
    }

    /// Whether two keys name the same endpoint.
    pub fn same_endpoint(&self, other: &EndpointKey) -> (r: bool)
        ensures
            r <==> self@ == other@,
    {
        self.port == other.port && self.host == other.host && self.username == other.username
    }
}

} // verus!
