use vstd::prelude::*;

verus! {

/// The user agent that outgoing requests carry.
pub const DEFAULT_USER_AGENT: &'static str = "lucy/1.0";

/// A request to a bridge: an action name and its payload.
#[derive(Debug)]
pub struct Request<T> {
    pub action: String,
    pub data: T,
}

/// A request to a bridge, as the bridges receive it.
#[derive(Debug)]
pub struct BridgeRequest<T> {
    pub action: String,
    pub data: T,
}

/// The outcome of a process that the process bridge ran.
#[derive(Debug)]
pub struct Output {
    pub stdout: String,
    pub stderr: String,
    pub status: Option<i32>,
}

} // verus!
