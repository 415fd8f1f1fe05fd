//! Data model of the host's service registry scope: named services, each
//! with its list of instance names. The handles of the native registry stay
//! outside this crate; callers fill these values from it and read them back
//! through the accessors.

use vstd::prelude::*;

verus! {

/// One named service and the names of its instances.
pub struct Service {
    pub name: String,
    pub instance_names: Vec<String>,
}

impl Service {
    pub fn new(name: String) -> (s: Service)
        ensures
            s.name == name,
            s.instance_names@.len() == 0,
    {
        Service { name, instance_names: Vec::new() }
    }

    /// The service's name.
    pub fn name(&self) -> (r: String)
        ensures
            r@ == self.name@,
    {
        self.name.clone()
    }

    /// Record one instance of this service.
    pub fn add_instance(&mut self, instance: String)
        ensures
            final(self).name == old(self).name,
            final(self).instance_names@ == old(self).instance_names@.push(instance),
    {
        self.instance_names.push(instance);
    }

    /// The names of this service's instances, in recorded order.
    pub fn instances(&self) -> (r: Vec<String>)
        ensures
            r@.len() == self.instance_names@.len(),
            forall|i: int|
                0 <= i < r@.len() ==> (#[trigger] r@[i])@ == self.instance_names@[i]@,
    {
        let n = self.instance_names.len();
        let mut r: Vec<String> = Vec::new();
        let mut i: usize = 0;
        while i < n
            invariant
                n == self.instance_names@.len(),
                0 <= i <= n,
                r@.len() == i,
                forall|k: int| 0 <= k < i ==> (#[trigger] r@[k])@ == self.instance_names@[k]@,
            decreases n - i,
        {
            r.push(self.instance_names[i].clone());
            i = i + 1;
        }
        r
    }
}

/// The services of one scope, in the order the registry listed them.
pub struct Services {
    pub list: Vec<Service>,
}

impl Services {
    pub fn new() -> (s: Services)
        ensures
            s.list@.len() == 0,
    {
        Services { list: Vec::new() }
    }

    /// Record one more service.
    pub fn push(&mut self, service: Service)
        ensures
            final(self).list@ == old(self).list@.push(service),
    {
        self.list.push(service);
    }

    /// Number of services recorded.
    pub fn len(&self) -> (r: usize)
        ensures
            r == self.list@.len(),
    {
        self.list.len()
    }

    /// The service at position `i`, or `None` past the end, mirroring an
    /// iterator that has run out.
    pub fn get(&self, i: usize) -> (r: Option<&Service>)
        ensures
            match r {
                Some(s) => i < self.list@.len() && *s == self.list@[i as int],
                None => i >= self.list@.len(),
            },
    {
        if i < self.list.len() {
            Some(&self.list[i])
        } else {
            None
        }
    }
}

} // verus!
