//! The execution context and its permission gate.

use crate::err::Error;
use vstd::prelude::*;

verus! {

/// The action a statement asks to perform on a resource. Removal asks to
/// edit.
#[derive(Clone, Copy, Debug, PartialEq, Eq, Structural)]
pub enum Action {
    Edit,
}

/// The kind of resource a statement acts on. Removal acts on a scope.
#[derive(Clone, Copy, Debug, PartialEq, Eq, Structural)]
pub enum ResourceKind {
    Scope,
}

/// The scope of effect an action is authorized against. Scopes live at
/// database level.
#[derive(Clone, Copy, Debug, PartialEq, Eq, Structural)]
pub enum Base {
    Db,
}

/// The execution context of one statement: the acting namespace and
/// database, and the permission policy's verdict for the one question this
/// pathway asks — may the caller edit scopes at database level?
///
/// The policy evaluator itself is an outside collaborator; its answer
/// enters this crate as the `allowed` field.
pub struct Options {
    pub ns: String,
    pub db: String,
    pub allowed: bool,
}

impl Options {
    /// The permission gate: answers whether `action` on `res` at the scope
    /// of effect `base` is allowed in this context. Denial surfaces as an
    /// authorization error. No side effects either way.
    #[allow(unused_variables)]
    pub fn is_allowed(&self, action: Action, res: ResourceKind, base: &Base) -> (r: Result<
        (),
        Error,
    >)
        ensures
            r is Ok <==> self.allowed,
            r is Err ==> r->Err_0 == Error::Authorization,
    {
        if self.allowed {
            Ok(())
        } else {
            Err(Error::Authorization)
        }
    }
}

} // verus!
