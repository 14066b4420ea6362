//! The verbs of the scenario clients, and which of them degrade.

use vstd::prelude::*;
use vstd::string::*;

verus! {

/// A verb of the scenario clients.
#[derive(Debug, Clone, Copy, PartialEq, Eq, Structural)]
pub enum Verb {
    /// `get`
    Get,
    /// `get_touch`
    GetTouch,
    /// `get_and_touch`
    GetAndTouch,
    /// `get_many`
    GetMany,
    /// `inspect`
    Inspect,
    /// `fetch`
    Fetch,
    /// `set`
    Store,
    /// `set_many`
    StoreMany,
    /// `delete`
    Delete,
    /// `delete_many`
    DeleteMany,
    /// `invalidate`
    Invalidate,
    /// `touch`
    Touch,
    /// `append`
    Append,
    /// `prepend`
    Prepend,
    /// `add`
    Add,
    /// `replace`
    Replace,
    /// `update`
    Update,
    /// `take`
    Take,
    /// `incr`
    Incr,
    /// `decr`
    Decr,
}

impl Verb {
    /// Whether the verb reads what is cached.
    pub open spec fn is_read(self) -> bool {
        ||| self is Get
        ||| self is GetTouch
        ||| self is GetAndTouch
        ||| self is GetMany
        ||| self is Inspect
    }

    /// Whether the verb writes or removes without an answer that a caller acts
    /// on.
    pub open spec fn is_blind_write(self) -> bool {
        ||| self is Store
        ||| self is StoreMany
        ||| self is Delete
        ||| self is DeleteMany
        ||| self is Invalidate
        ||| self is Touch
        ||| self is Append
        ||| self is Prepend
    }

    /// Whether the verb's answer feeds a business decision.
    pub open spec fn is_decision(self) -> bool {
        ||| self is Add
        ||| self is Replace
        ||| self is Update
        ||| self is Take
        ||| self is Incr
        ||| self is Decr
    }

    /// Whether the verb gets by without the cache where the policy allows it.
    pub open spec fn degrades_spec(self) -> bool {
        self.is_read() || self.is_blind_write() || self is Fetch
    }

    pub fn degrades(self) -> (r: bool)
        ensures
            r == self.degrades_spec(),
            r == !self.is_decision(),
    {
        match self {
            Verb::Get => true,
            Verb::GetTouch => true,
            Verb::GetAndTouch => true,
            Verb::GetMany => true,
            Verb::Inspect => true,
            Verb::Fetch => true,
            Verb::Store => true,
            Verb::StoreMany => true,
            Verb::Delete => true,
            Verb::DeleteMany => true,
            Verb::Invalidate => true,
            Verb::Touch => true,
            Verb::Append => true,
            Verb::Prepend => true,
            Verb::Add => false,
            Verb::Replace => false,
            Verb::Update => false,
            Verb::Take => false,
            Verb::Incr => false,
            Verb::Decr => false,
        }
    }

    pub open spec fn name_spec(self) -> Seq<char> {
        match self {
            Verb::Get => "get"@,
            Verb::GetTouch => "get_touch"@,
            Verb::GetAndTouch => "get_and_touch"@,
            Verb::GetMany => "get_many"@,
            Verb::Inspect => "inspect"@,
            Verb::Fetch => "fetch"@,
            Verb::Store => "set"@,
            Verb::StoreMany => "set_many"@,
            Verb::Delete => "delete"@,
            Verb::DeleteMany => "delete_many"@,
            Verb::Invalidate => "invalidate"@,
            Verb::Touch => "touch"@,
            Verb::Append => "append"@,
            Verb::Prepend => "prepend"@,
            Verb::Add => "add"@,
            Verb::Replace => "replace"@,
            Verb::Update => "update"@,
            Verb::Take => "take"@,
            Verb::Incr => "incr"@,
            Verb::Decr => "decr"@,
        }
    }

    /// The name under which the verb's failures are reported.
    pub fn name(self) -> (r: &'static str)
        ensures
            r@ == self.name_spec(),
    {
        match self {
            Verb::Get => "get",
            Verb::GetTouch => "get_touch",
            Verb::GetAndTouch => "get_and_touch",
            Verb::GetMany => "get_many",
            Verb::Inspect => "inspect",
            Verb::Fetch => "fetch",
            Verb::Store => "set",
            Verb::StoreMany => "set_many",
            Verb::Delete => "delete",
            Verb::DeleteMany => "delete_many",
            Verb::Invalidate => "invalidate",
            Verb::Touch => "touch",
            Verb::Append => "append",
            Verb::Prepend => "prepend",
            Verb::Add => "add",
            Verb::Replace => "replace",
            Verb::Update => "update",
            Verb::Take => "take",
            Verb::Incr => "incr",
            Verb::Decr => "decr",
        }
    }
}

/// Every verb is a read, a blind write, `fetch` or a decision, and no two of
/// these. The decisions are the verbs that never degrade.
pub proof fn lemma_verbs_are_told_apart(verb: Verb)
    ensures
        verb.is_read() || verb.is_blind_write() || verb is Fetch || verb.is_decision(),
        !(verb.is_read() && verb.is_blind_write()),
        verb.is_decision() <==> !verb.degrades_spec(),
        verb is Fetch ==> !verb.is_read() && !verb.is_blind_write(),
{
}

} // verus!
