//! Inputs of a project's configuration.

use vstd::prelude::*;

verus! {

/// An input to be added to the configuration.
#[derive(Debug)]
pub struct InputRequest {
    pub name: String,
    pub url: String,
    /// Inputs of it that follow inputs of the project.
    pub follows: Vec<String>,
    /// Whether it is a flake.
    pub flake: bool,
}

/// The input to add for a name, a url and what it follows. It is a flake
/// unless `no_flake` says that it is not.
pub fn add(name: &str, url: &str, follows: &[String], no_flake: bool) -> (request: InputRequest)
    ensures
        request.name@ == name@,
        request.url@ == url@,
        request.follows@ == follows@,
        request.flake == !no_flake,
{
    let mut kept: Vec<String> = Vec::new();
    let mut i: usize = 0;
    while i < follows.len()
        invariant
            i <= follows.len(),
            kept@ == follows@.take(i as int),
        decreases follows.len() - i,
    {
        kept.push(follows[i].clone());
        i = i + 1;
        assert(kept@ =~= follows@.take(i as int));
    }
    assert(kept@ =~= follows@);
    InputRequest { name: name.to_owned(), url: url.to_owned(), follows: kept, flake: !no_flake }
}

} // verus!
