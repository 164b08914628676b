//! The registry of policy-as-data builtins the engine provides. Invoking a
//! builtin runs black-box interpreter code on opaque documents; the registry
//! decides, by name, whether a builtin exists at all.

use vstd::prelude::*;
use crate::text::str_eq;

verus! {

/// Why a builtin call failed before it ran.
#[derive(Clone, Debug, PartialEq)]
pub enum BuiltinError {
    /// The guest asked for a builtin the engine does not implement.
    BuiltinNotImplementedError(String),
}

/// The names of the builtins the engine provides, fixed at construction.
#[derive(Clone, Debug)]
pub struct BuiltinsHelper {
    pub names: Vec<String>,
}

/// The position of a builtin in the registry, if it is provided.
pub open spec fn find_builtin(names: Seq<String>, name: Seq<char>) -> Option<int>
    decreases names.len(),
{
    if names.len() == 0 {
        None
    } else if names[0]@ == name {
        Some(0)
    } else {
        match find_builtin(names.drop_first(), name) {
            Some(i) => Some(i + 1),
            None => None,
        }
    }
}

proof fn lemma_find_builtin_at(names: Seq<String>, name: Seq<char>, i: int)
    requires
        0 <= i < names.len(),
        names[i]@ == name,
        forall|k: int| 0 <= k < i ==> (#[trigger] names[k])@ != name,
    ensures
        find_builtin(names, name) == Some(i),
    decreases i,
{
    if i > 0 {
        assert(forall|k: int| 0 <= k < i - 1 ==> (#[trigger] names.drop_first()[k])@ != name);
        lemma_find_builtin_at(names.drop_first(), name, i - 1);
    }
}

proof fn lemma_find_builtin_none(names: Seq<String>, name: Seq<char>)
    requires
        forall|k: int| 0 <= k < names.len() ==> (#[trigger] names[k])@ != name,
    ensures
        find_builtin(names, name) is None,
    decreases names.len(),
{
    if names.len() > 0 {
        assert(forall|k: int|
            0 <= k < names.len() - 1 ==> (#[trigger] names.drop_first()[k])@ != name);
        lemma_find_builtin_none(names.drop_first(), name);
    }
}

impl BuiltinsHelper {
    /// A registry over the given names.
    pub fn new(names: Vec<String>) -> (r: BuiltinsHelper)
        ensures
            r.names == names,
    {
        BuiltinsHelper { names }
    }

    /// Resolve a builtin by name: its position in the registry, or the error
    /// naming what the guest asked for.
    pub fn resolve(&self, builtin_name: &str) -> (r: Result<usize, BuiltinError>)
        ensures
            match r {
                Ok(i) => find_builtin(self.names@, builtin_name@) == Some(i as int),
                Err(e) => find_builtin(self.names@, builtin_name@) is None && (e matches
                    BuiltinError::BuiltinNotImplementedError(n) && n@ == builtin_name@),
            },
    {
        let n = self.names.len();
        let mut i: usize = 0;
        while i < n
            invariant
                i <= n,
                n == self.names@.len(),
                forall|k: int| 0 <= k < i ==> (#[trigger] self.names@[k])@ != builtin_name@,
            decreases n - i,
        {
            if str_eq(self.names[i].as_str(), builtin_name) {
                proof {
                    lemma_find_builtin_at(self.names@, builtin_name@, i as int);
                }
                return Ok(i);
            }
            i += 1;
        }
        proof {
            lemma_find_builtin_none(self.names@, builtin_name@);
        }
        Err(BuiltinError::BuiltinNotImplementedError(builtin_name.to_owned()))
    }

    /// Whether a builtin is provided at all.
    pub fn has_builtin(&self, builtin_name: &str) -> (r: bool)
        ensures
            r == (find_builtin(self.names@, builtin_name@) is Some),
    {
        match self.resolve(builtin_name) {
            Ok(_) => true,
            Err(_) => false,
        }
    }
}

} // verus!
