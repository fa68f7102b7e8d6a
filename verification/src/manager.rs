//! Environment managers (conda, pyenv) and what identifies them.
use vstd::prelude::*;

verus! {

/// The tools that manage environments. Declared in name order, so the derived
/// order is the order of the names.
#[derive(Debug, Clone, Copy, PartialEq, Eq, Structural, PartialOrd, Ord, Hash)]
pub enum EnvManagerType {
    Conda,
    Poetry,
    Pyenv,
}

/// A manager of environments: its executable, version and kind.
#[derive(Debug, Clone, PartialEq, Eq, PartialOrd, Ord)]
pub struct EnvManager {
    pub executable: String,
    pub version: Option<String>,
    pub tool: EnvManagerType,
}

impl EnvManager {
    pub fn new(executable_path: String, tool: EnvManagerType, version: Option<String>) -> (r: Self)
        ensures
            r.executable == executable_path,
            r.tool == tool,
            r.version == version,
    {
        EnvManager { executable: executable_path, version, tool }
    }

    /// A copy of the manager.
    pub fn duplicate(&self) -> (r: Self)
        ensures
            r == *self,
    {
        EnvManager {
            executable: self.executable.clone(),
            version: match &self.version {
                Some(v) => Some(v.clone()),
                None => None,
            },
            tool: self.tool,
        }
    }
}

/// A copy of `v`.
pub fn copy_managers(v: &Vec<EnvManager>) -> (r: Vec<EnvManager>)
    ensures
        r@ == v@,
{
    let mut out: Vec<EnvManager> = Vec::new();
    let mut i: usize = 0;
    while i < v.len()
        invariant
            0 <= i <= v@.len(),
            out@ == v@.subrange(0, i as int),
        decreases v.len() - i,
    {
        out.push(v[i].duplicate());
        assert(out@ =~= v@.subrange(0, i + 1));
        i = i + 1;
    }
    assert(v@.subrange(0, v@.len() as int) =~= v@);
    out
}

/// A copy of an optional manager.
pub fn duplicate_manager(m: &Option<EnvManager>) -> (r: Option<EnvManager>)
    ensures
        r == *m,
{
    match m {
        Some(x) => Some(x.duplicate()),
        None => None,
    }
}

} // verus!
