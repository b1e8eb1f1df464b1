//! The command line: what to do when the database is held by a running service, and how to
//! ask that service.

use vstd::prelude::*;

use crate::auth::bearer;
use crate::config::Config;
use crate::error::DatabaseFault;
use crate::text::join;

verus! {

/// What the program is asked to do.
#[derive(Debug)]
pub enum Subcmd {
    /// Run the service.
    Serve,
    /// Write an entry.
    Push { content: String },
    /// Remove the newest entry.
    Pop,
    /// Remove an entry.
    Remove { index: u64 },
}

/// How a request is made.
#[derive(Debug, Clone, Copy, PartialEq, Eq, Structural)]
pub enum Method {
    Get,
    Post,
}

/// What the service offers.
#[derive(Debug, Clone, Copy, PartialEq, Eq, Structural)]
pub enum Endpoint {
    Home,
    Push,
    Content,
    Remove,
    Newest,
    Pop,
}

/// What a request carries.
#[derive(Debug)]
pub enum Body {
    Empty,
    Content(String),
    Index(u64),
}

/// A request to a running service.
#[derive(Debug)]
pub struct RemoteCall {
    pub method: Method,
    pub url: String,
    /// The value of the `authorization` field.
    pub authorization: String,
    pub body: Body,
}

/// What to do when the database could not be opened.
#[derive(Debug)]
pub enum Fallback {
    /// Ask the service that holds it.
    Remote(RemoteCall),
    /// Give up with the error.
    Fail,
    /// Do nothing.
    Ignore,
}

impl Endpoint {
    pub open spec fn method_spec(self) -> Method {
        match self {
            Endpoint::Push | Endpoint::Remove => Method::Post,
            _ => Method::Get,
        }
    }

    pub open spec fn path_spec(self) -> Seq<char> {
        match self {
            Endpoint::Home | Endpoint::Push => "/"@,
            Endpoint::Content => "/{id}"@,
            Endpoint::Remove => "/remove"@,
            Endpoint::Newest => "/newset"@,
            Endpoint::Pop => "/pop"@,
        }
    }

    /// How the service expects to be asked.
    pub fn method(&self) -> (method: Method)
        ensures
            method == self.method_spec(),
    {
        match self {
            Endpoint::Push | Endpoint::Remove => Method::Post,
            _ => Method::Get,
        }
    }

    /// Under which path the service expects to be asked.
    pub fn path(&self) -> (path: &'static str)
        ensures
            path@ == self.path_spec(),
    {
        match self {
            Endpoint::Home | Endpoint::Push => "/",
            Endpoint::Content => "/{id}",
            Endpoint::Remove => "/remove",
            Endpoint::Newest => "/newset",
            Endpoint::Pop => "/pop",
        }
    }
}

/// The call reaches this endpoint of the service at `config.url` with its password. The root
/// path may be left out of an address.
pub open spec fn reaches(call: RemoteCall, endpoint: Endpoint, config: Config) -> bool {
    let host = "http://"@ + config.url@;
    &&& call.method == endpoint.method_spec()
    &&& call.url@ == if endpoint.path_spec() == "/"@ {
        host
    } else {
        host + endpoint.path_spec()
    }
    &&& call.authorization@ == "Bearer "@ + config.push_password@
}

/// The call that writes an entry.
pub fn push_call(config: &Config, content: String) -> (call: RemoteCall)
    ensures
        reaches(call, Endpoint::Push, *config),
        call.body == Body::Content(content),
{
    RemoteCall {
        method: Endpoint::Push.method(),
        url: join("http://", config.url.as_str()),
        authorization: bearer(config.push_password.as_str()),
        body: Body::Content(content),
    }
}

/// The call that removes the newest entry.
pub fn pop_call(config: &Config) -> (call: RemoteCall)
    ensures
        reaches(call, Endpoint::Pop, *config),
        call.body == Body::Empty,
{
    proof {
        reveal_strlit("/");
        reveal_strlit("/pop");
    }
    RemoteCall {
        method: Endpoint::Pop.method(),
        url: join(join("http://", config.url.as_str()).as_str(), Endpoint::Pop.path()),
        authorization: bearer(config.push_password.as_str()),
        body: Body::Empty,
    }
}

/// The call that removes an entry.
pub fn remove_call(config: &Config, index: u64) -> (call: RemoteCall)
    ensures
        reaches(call, Endpoint::Remove, *config),
        call.body == Body::Index(index),
{
    proof {
        reveal_strlit("/");
        reveal_strlit("/remove");
    }
    RemoteCall {
        method: Endpoint::Remove.method(),
        url: join(join("http://", config.url.as_str()).as_str(), Endpoint::Remove.path()),
        authorization: bearer(config.push_password.as_str()),
        body: Body::Index(index),
    }
}

/// What to do when the database could not be opened for a command. If another process holds
/// it, that process is the running service, and it is asked instead. Otherwise the command
/// fails, except that a removal ends quietly.
pub fn after_open_failure(command: Subcmd, fault: &DatabaseFault, config: &Config) -> (fallback:
    Fallback)
    ensures
        match command {
            Subcmd::Serve => fallback is Fail,
            Subcmd::Push { content } => if fault is AlreadyOpen {
                fallback matches Fallback::Remote(call) && reaches(call, Endpoint::Push, *config)
                    && call.body == Body::Content(content)
            } else {
                fallback is Fail
            },
            Subcmd::Pop => if fault is AlreadyOpen {
                fallback matches Fallback::Remote(call) && reaches(call, Endpoint::Pop, *config)
                    && call.body is Empty
            } else {
                fallback is Fail
            },
            Subcmd::Remove { index } => if fault is AlreadyOpen {
                fallback matches Fallback::Remote(call) && reaches(call, Endpoint::Remove, *config)
                    && call.body == Body::Index(index)
            } else {
                fallback is Ignore
            },
        },
{
    match (command, fault) {
        (Subcmd::Push { content }, DatabaseFault::AlreadyOpen) => {
            Fallback::Remote(push_call(config, content))
        },
        (Subcmd::Pop, DatabaseFault::AlreadyOpen) => Fallback::Remote(pop_call(config)),
        (Subcmd::Remove { index }, DatabaseFault::AlreadyOpen) => {
            Fallback::Remote(remove_call(config, index))
        },
        (Subcmd::Remove { .. }, _) => Fallback::Ignore,
        _ => Fallback::Fail,
    }
}

} // verus!
