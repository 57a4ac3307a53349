//! The record a server keeps of each route it offers.
use vstd::prelude::*;

verus! {

/// One route: what it is called, what kind of body it answers with, the
/// request method it takes and the path it is reached at.
#[derive(Debug, Clone)]
pub struct Route {
    pub name: String,
    pub response_type: String,
    pub method: String,
    pub path: String,
}

impl Route {
    /// A route with the four given texts.
    pub fn new(name: &str, resp_type: &str, method: &str, path: &str) -> (route: Route)
        ensures
            route.name@ == name@,
            route.response_type@ == resp_type@,
            route.method@ == method@,
            route.path@ == path@,
    {
        Route {
            name: name.to_owned(),
            response_type: resp_type.to_owned(),
            method: method.to_owned(),
            path: path.to_owned(),
        }
    }

    /// A copy of the route, text for text.
    pub fn duplicate(&self) -> (copy: Route)
        ensures
            copy == *self,
    {
        Route {
            name: self.name.clone(),
            response_type: self.response_type.clone(),
            method: self.method.clone(),
            path: self.path.clone(),
        }
    }
}

/// A route that goes by its path: the name given is also where it is reached.
pub fn def_route(name: String, resp_type: String, method: String) -> (route: Route)
    ensures
        route.name@ == name@,
        route.response_type@ == resp_type@,
        route.method@ == method@,
        route.path@ == name@,
{
    let path = name.clone();
    Route { name, response_type: resp_type, method, path }
}

} // verus!
