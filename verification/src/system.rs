//! The system actor: a singleton with no behaviour of its own, whose
//! construction only the system address may request.

use vstd::prelude::*;

use crate::vm::{ActorError, METHOD_CONSTRUCTOR, SYSTEM_ACTOR_ADDR};

verus! {

/// The system actor's methods.
#[derive(Clone, Copy, Debug, PartialEq, Eq, Structural)]
pub enum Method {
    Constructor,
}

impl Method {
    /// Encodes to the wire method number.
    pub fn method_num(self) -> (r: u64)
        ensures
            r == METHOD_CONSTRUCTOR,
    {
        match self {
            Method::Constructor => 1,
        }
    }

    /// Decodes a wire method number.
    pub fn from_num(n: u64) -> (r: Option<Method>)
        ensures
            r == if n == METHOD_CONSTRUCTOR {
                Some(Method::Constructor)
            } else {
                None::<Method>
            },
    {
        if n == 1 {
            Some(Method::Constructor)
        } else {
            None
        }
    }
}

/// The system actor's state: empty.
#[derive(Clone, Copy, Debug, PartialEq, Eq, Structural)]
pub struct State {
}

impl Default for State {
    fn default() -> (r: Self)
        ensures
            r == (State {  }),
    {
        State {  }
    }
}

/// The system actor.
pub struct Actor;

impl Actor {
    /// Initializes the empty state. Only the system actor address may
    /// call.
    pub fn constructor(caller_addr: u64) -> (r: Result<State, ActorError>)
        ensures
            r is Ok <==> caller_addr == SYSTEM_ACTOR_ADDR,
            r is Err ==> r == Err::<State, ActorError>(ActorError::Forbidden),
            r matches Ok(st) ==> st == (State {  }),
    {
        if caller_addr != SYSTEM_ACTOR_ADDR {
            return Err(ActorError::Forbidden);
        }
        Ok(State {  })
    }
}

} // verus!
