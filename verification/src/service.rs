//! The service data model: the declarative configuration of a service and
//! the provisioned network and service values the engine tracks.

use vstd::prelude::*;

verus! {

/// Declarative description of one service inside an application topology:
/// a name, a container image reference, environment variables, and an
/// optional health-check target. Consumed only at provisioning time.
#[derive(Debug)]
pub struct ServiceConfig {
    pub name: String,
    pub image: String,
    pub env: Vec<(String, String)>,
    /// URI and port to health-check the service, if any.
    pub health: Option<(String, u16)>,
}

impl ServiceConfig {
    pub fn new(name: &str, image: &str) -> (c: Self)
        ensures
            c.name@ == name@,
            c.image@ == image@,
            c.env@ == Seq::<(String, String)>::empty(),
            c.health is None,
    {
        ServiceConfig {
            name: String::from_str(name),
            image: String::from_str(image),
            env: Vec::new(),
            health: None,
        }
    }

    /// Add environment variables to the service, keeping the ones already set.
    pub fn env(self, vars: Vec<(String, String)>) -> (c: Self)
        ensures
            c.name == self.name,
            c.image == self.image,
            c.health == self.health,
            c.env@ == self.env@ + vars@,
    {
        let mut c = self;
        let mut vars = vars;
        c.env.append(&mut vars);
        c
    }

    /// Set the URI and port to be polled for health before tests begin,
    /// replacing any target set earlier.
    pub fn health(self, uri: &str, port: u16) -> (c: Self)
        ensures
            c.name == self.name,
            c.image == self.image,
            c.env == self.env,
            c.health matches Some(h) && h.0@ == uri@ && h.1 == port,
    {
        let mut c = self;
        c.health = Some((String::from_str(uri), port));
        c
    }
}

/// An isolated virtual network that provisioned services attach to.
#[derive(Debug)]
pub struct Network {
    pub name: String,
}

impl Network {
    pub fn name(&self) -> (n: &str)
        ensures
            n@ == self.name@,
    {
        self.name.as_str()
    }
}

/// One provisioned, container-backed service: its configured name, the
/// network it is attached to under that name as an alias, and the
/// backend-assigned container identifier.
#[derive(Debug)]
pub struct Service {
    pub name: String,
    pub net: Network,
    pub id: String,
}

} // verus!
