//! What a probe plans to do: requests to make, subscriptions to take out.

use vstd::prelude::*;

verus! {

/// A named parameter of a request. Every parameter of the requests made
/// here is a text.
#[derive(Clone, Debug, PartialEq, Eq)]
pub struct Param {
    pub name: String,
    pub value: String,
}

/// Mathematical view of a [`Param`]: the name and the value.
impl View for Param {
    type V = (Seq<char>, Seq<char>);

    open spec fn view(&self) -> (Seq<char>, Seq<char>) {
        (self.name@, self.value@)
    }
}

/// A request to make: a method and its parameters, in order.
#[derive(Clone, Debug, PartialEq, Eq)]
pub struct Request {
    pub method: String,
    pub params: Vec<Param>,
}

/// Mathematical view of a [`Request`].
pub struct RequestView {
    pub method: Seq<char>,
    pub params: Seq<(Seq<char>, Seq<char>)>,
}

impl View for Request {
    type V = RequestView;

    open spec fn view(&self) -> RequestView {
        RequestView {
            method: self.method@,
            params: Seq::new(self.params@.len(), |i: int| self.params@[i]@),
        }
    }
}

impl Request {
    /// A request of `method` without parameters.
    pub fn new(method: &str) -> (request: Request)
        ensures
            request@ == (RequestView { method: method@, params: Seq::empty() }),
    {
        let request = Request { method: String::from_str(method), params: Vec::new() };
        assert(request@.params =~= Seq::empty());
        request
    }

    /// The request with one more parameter.
    pub fn with(self, name: &str, value: String) -> (request: Request)
        ensures
            request@ == (RequestView {
                method: self@.method,
                params: self@.params.push((name@, value@)),
            }),
    {
        let mut request = self;
        request.params.push(Param { name: String::from_str(name), value });
        assert(request@.params =~= self@.params.push((name@, value@)));
        request
    }
}

/// A subscription to take out: the query that selects the events.
#[derive(Clone, Debug, PartialEq, Eq)]
pub struct PlannedSubscription {
    pub query: String,
}

impl PlannedSubscription {
    /// A subscription to the events that `query` selects.
    pub fn new(query: &str) -> (subscription: Self)
        ensures
            subscription.query@ == query@,
    {
        PlannedSubscription { query: String::from_str(query) }
    }
}

/// One step of a plan.
#[derive(Clone, Debug, PartialEq, Eq)]
pub enum PlannedInteraction {
    Request(Request),
    Subscription(PlannedSubscription),
}

} // verus!
