use vstd::prelude::*;

verus! {

/// A named collection of requests.
#[derive(Debug, PartialEq)]
pub struct Project {
    pub name: String,
}

impl Clone for Project {
    fn clone(&self) -> (r: Project)
        ensures
            r == *self,
    {
        Project { name: self.name.clone() }
    }
}

impl Project {
    pub fn new(name: &str) -> (r: Project)
        ensures
            r.name@ == name@,
    {
        Project { name: name.to_string() }
    }
}

} // verus!
