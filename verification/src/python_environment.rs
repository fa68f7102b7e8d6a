//! The model of a discovered Python environment and the builder that assembles it.
use vstd::prelude::*;
use crate::manager::EnvManager;
use crate::paths::{holds_path, sort_dedup_paths, strictly_sorted, string_views};

verus! {

/// Architecture of a Python interpreter.
#[derive(Debug, Clone, Copy, PartialEq, Eq, Structural, PartialOrd, Ord, Hash)]
pub enum Architecture {
    X64,
    X86,
}

impl Architecture {
    /// The lower-case name of the architecture (`x64` or `x86`).
    pub fn to_string(&self) -> (r: String)
        ensures
            r@ == (if *self == Architecture::X64 {
                seq!['x', '6', '4']
            } else {
                seq!['x', '8', '6']
            }),
    {
        match self {
            Architecture::X64 => {
                proof {
                    reveal_strlit("x64");
                }
                "x64".to_owned()
            },
            Architecture::X86 => {
                proof {
                    reveal_strlit("x86");
                }
                "x86".to_owned()
            },
        }
    }
}

/// The kind of a Python environment. Variants are declared in the order of their
/// names, so the derived order is the order of the names.
#[derive(Debug, Clone, Copy, PartialEq, Eq, Structural, PartialOrd, Ord, Hash)]
pub enum PythonEnvironmentCategory {
    Conda,
    Hatch,
    Homebrew,
    LinuxGlobal,
    MacCommandLineTools,
    MacPythonOrg,
    MacXCode,
    Pipenv,
    Pixi,
    Poetry,
    /// Python installations in pyenv that are from python.org.
    Pyenv,
    /// Other pyenv installations, such as pyston, stackless, nogil.
    PyenvOther,
    /// Pyenv virtual environments.
    PyenvVirtualEnv,
    System,
    Unknown,
    Venv,
    VenvUv,
    VirtualEnv,
    VirtualEnvWrapper,
    WindowsRegistry,
    WindowsStore,
}

/// The name the locators use for [`PythonEnvironmentCategory`].
pub type PythonEnvironmentKind = PythonEnvironmentCategory;

/// A discovered Python environment; paths are kept as text.
#[derive(Debug, Clone, PartialEq, Eq)]
pub struct PythonEnvironment {
    /// Display name as provided by the tool.
    pub display_name: Option<String>,
    /// The name of the environment (mostly for conda environments).
    pub name: Option<String>,
    /// The Python executable; conda environments may have none.
    pub executable: Option<String>,
    pub category: PythonEnvironmentCategory,
    pub version: Option<String>,
    /// The `sys.prefix` of the environment.
    pub prefix: Option<String>,
    pub manager: Option<EnvManager>,
    /// The project folder the environment belongs to (Pipenv, Hatch and the like).
    pub project: Option<String>,
    pub arch: Option<Architecture>,
    /// Known symlinks of the executable, the executable among them.
    pub symlinks: Option<Vec<String>>,
}

impl PythonEnvironment {
    /// An environment with the given executable, category, prefix, manager and
    /// version, and nothing else known.
    pub fn new(
        executable: Option<String>,
        category: PythonEnvironmentCategory,
        prefix: Option<String>,
        manager: Option<EnvManager>,
        version: Option<String>,
    ) -> (r: Self)
        ensures
            r.executable == executable,
            r.category == category,
            r.prefix == prefix,
            r.manager == manager,
            r.version == version,
            r.display_name is None,
            r.name is None,
            r.project is None,
            r.arch is None,
            r.symlinks is None,
    {
        PythonEnvironment {
            display_name: None,
            name: None,
            executable,
            category,
            version,
            prefix,
            manager,
            project: None,
            arch: None,
            symlinks: None,
        }
    }
}

impl Default for PythonEnvironment {
    fn default() -> (r: Self)
        ensures
            r.category == PythonEnvironmentCategory::Unknown,
            r.executable is None,
            r.prefix is None,
            r.symlinks is None,
    {
        PythonEnvironment::new(None, PythonEnvironmentCategory::Unknown, None, None, None)
    }
}

/// The paths that a symlink list is built from: the executable first, if any,
/// then the given symlinks.
pub open spec fn symlink_inputs(executable: Option<String>, symlinks: Option<Vec<String>>) -> Seq<
    Seq<char>,
> {
    (match executable {
        Some(e) => seq![e@],
        None => seq![],
    }) + match symlinks {
        Some(v) => string_views(v@),
        None => seq![],
    }
}

/// `out` is the normalized symlink list of `inputs`: none when there is no input,
/// otherwise the inputs in strictly increasing path order with repeated paths
/// dropped.
pub open spec fn normalized_symlinks(inputs: Seq<Seq<char>>, out: Option<Vec<String>>) -> bool {
    match out {
        None => inputs.len() == 0,
        Some(v) => {
            &&& v@.len() > 0
            &&& strictly_sorted(string_views(v@))
            &&& forall|k: int| 0 <= k < inputs.len() ==> holds_path(string_views(v@), #[trigger] inputs[k])
            &&& forall|k: int| 0 <= k < v@.len() ==> inputs.contains((#[trigger] v@[k])@)
        },
    }
}

/// A copy of an optional text.
pub fn copy_opt_string(v: &Option<String>) -> (r: Option<String>)
    ensures
        r == *v,
{
    match v {
        Some(s) => Some(s.clone()),
        None => None,
    }
}

/// Both are absent, or both hold the same paths.
pub open spec fn same_opt_paths(a: Option<Vec<String>>, b: Option<Vec<String>>) -> bool {
    match (a, b) {
        (Some(x), Some(y)) => x@ == y@,
        (None, None) => true,
        _ => false,
    }
}

impl PythonEnvironment {
    /// A copy of the environment.
    pub fn duplicate(&self) -> (r: Self)
        ensures
            r.display_name == self.display_name,
            r.name == self.name,
            r.executable == self.executable,
            r.category == self.category,
            r.version == self.version,
            r.prefix == self.prefix,
            r.manager == self.manager,
            r.project == self.project,
            r.arch == self.arch,
            same_opt_paths(r.symlinks, self.symlinks),
    {
        PythonEnvironment {
            display_name: copy_opt_string(&self.display_name),
            name: copy_opt_string(&self.name),
            executable: copy_opt_string(&self.executable),
            category: self.category,
            version: copy_opt_string(&self.version),
            prefix: copy_opt_string(&self.prefix),
            manager: crate::manager::duplicate_manager(&self.manager),
            project: copy_opt_string(&self.project),
            arch: self.arch,
            symlinks: match &self.symlinks {
                Some(v) => Some(copy_strings(v)),
                None => None,
            },
        }
    }
}

/// A copy of `v`, environment by environment.
pub fn copy_environments(v: &Vec<PythonEnvironment>) -> (r: Vec<PythonEnvironment>)
    ensures
        r@.len() == v@.len(),
        forall|k: int| 0 <= k < v@.len() ==> (#[trigger] r@[k]).category == v@[k].category,
{
    let mut out: Vec<PythonEnvironment> = Vec::new();
    let mut i: usize = 0;
    while i < v.len()
        invariant
            0 <= i <= v@.len(),
            out@.len() == i,
            forall|k: int| 0 <= k < i ==> (#[trigger] out@[k]).category == v@[k].category,
        decreases v.len() - i,
    {
        out.push(v[i].duplicate());
        i = i + 1;
    }
    out
}

/// A copy of `v`.
pub fn copy_strings(v: &Vec<String>) -> (r: Vec<String>)
    ensures
        r@ == v@,
{
    let mut out: Vec<String> = Vec::new();
    let mut i: usize = 0;
    while i < v.len()
        invariant
            0 <= i <= v@.len(),
            out@ == v@.subrange(0, i as int),
        decreases v.len() - i,
    {
        out.push(v[i].clone());
        i = i + 1;
    }
    out
}

/// Assembles a [`PythonEnvironment`] step by step.
#[derive(Debug)]
pub struct PythonEnvironmentBuilder {
    pub(crate) display_name: Option<String>,
    pub(crate) name: Option<String>,
    pub(crate) executable: Option<String>,
    pub(crate) category: PythonEnvironmentCategory,
    pub(crate) version: Option<String>,
    pub(crate) prefix: Option<String>,
    pub(crate) manager: Option<EnvManager>,
    pub(crate) project: Option<String>,
    pub(crate) arch: Option<Architecture>,
    pub(crate) symlinks: Option<Vec<String>>,
}

/// The executable, when known, is among the symlinks.
pub open spec fn executable_among_symlinks(executable: Option<String>, symlinks: Option<Vec<String>>) -> bool {
    executable matches Some(e) ==> (symlinks matches Some(l) && holds_path(string_views(l@), e@))
}

impl View for PythonEnvironmentBuilder {
    type V = PythonEnvironment;

    /// The environment that the builder would build now.
    closed spec fn view(&self) -> PythonEnvironment {
        PythonEnvironment {
            display_name: self.display_name,
            name: self.name,
            executable: self.executable,
            category: self.category,
            version: self.version,
            prefix: self.prefix,
            manager: self.manager,
            project: self.project,
            arch: self.arch,
            symlinks: self.symlinks,
        }
    }
}

impl PythonEnvironmentBuilder {
    /// A builder always holds its executable among its symlinks.
    #[verifier::type_invariant]
    spec fn builder_inv(self) -> bool {
        executable_among_symlinks(self.executable, self.symlinks)
    }

    /// A builder for an environment of `category` with nothing else known.
    pub fn new(category: PythonEnvironmentCategory) -> (r: Self)
        ensures
            r@.category == category,
            r@.display_name is None,
            r@.name is None,
            r@.executable is None,
            r@.version is None,
            r@.prefix is None,
            r@.manager is None,
            r@.project is None,
            r@.arch is None,
            r@.symlinks is None,
    {
        PythonEnvironmentBuilder {
            display_name: None,
            name: None,
            executable: None,
            category,
            version: None,
            prefix: None,
            manager: None,
            project: None,
            arch: None,
            symlinks: None,
        }
    }

    pub fn display_name(self, display_name: Option<String>) -> (r: Self)
        ensures
            r@ == (PythonEnvironment { display_name, ..self@ }),
    {
        proof {
            use_type_invariant(&self);
        }
        PythonEnvironmentBuilder { display_name, ..self }
    }

    pub fn name(self, name: Option<String>) -> (r: Self)
        ensures
            r@ == (PythonEnvironment { name, ..self@ }),
    {
        proof {
            use_type_invariant(&self);
        }
        PythonEnvironmentBuilder { name, ..self }
    }

    /// Sets the executable and folds it into the symlinks.
    pub fn executable(self, executable: Option<String>) -> (r: Self)
        ensures
            r@.executable == executable,
            normalized_symlinks(symlink_inputs(executable, self@.symlinks), r@.symlinks),
            r@ == (PythonEnvironment { executable, symlinks: r@.symlinks, ..self@ }),
    {
        let current = match &self.symlinks {
            Some(v) => Some(copy_strings(v)),
            None => None,
        };
        let symlinks = normalize_symlinks(&executable, current);
        PythonEnvironmentBuilder { executable, symlinks, ..self }
    }

    pub fn version(self, version: Option<String>) -> (r: Self)
        ensures
            r@ == (PythonEnvironment { version, ..self@ }),
    {
        proof {
            use_type_invariant(&self);
        }
        PythonEnvironmentBuilder { version, ..self }
    }

    pub fn prefix(self, prefix: Option<String>) -> (r: Self)
        ensures
            r@ == (PythonEnvironment { prefix, ..self@ }),
    {
        proof {
            use_type_invariant(&self);
        }
        PythonEnvironmentBuilder { prefix, ..self }
    }

    pub fn manager(self, manager: Option<EnvManager>) -> (r: Self)
        ensures
            r@ == (PythonEnvironment { manager, ..self@ }),
    {
        proof {
            use_type_invariant(&self);
        }
        PythonEnvironmentBuilder { manager, ..self }
    }

    pub fn project(self, project: Option<String>) -> (r: Self)
        ensures
            r@ == (PythonEnvironment { project, ..self@ }),
    {
        proof {
            use_type_invariant(&self);
        }
        PythonEnvironmentBuilder { project, ..self }
    }

    pub fn arch(self, arch: Option<Architecture>) -> (r: Self)
        ensures
            r@ == (PythonEnvironment { arch, ..self@ }),
    {
        proof {
            use_type_invariant(&self);
        }
        PythonEnvironmentBuilder { arch, ..self }
    }

    /// Replaces the symlinks by `symlinks` together with the executable, sorted in
    /// path order without repeats.
    pub fn symlinks(self, symlinks: Option<Vec<String>>) -> (r: Self)
        ensures
            normalized_symlinks(symlink_inputs(self@.executable, symlinks), r@.symlinks),
            r@ == (PythonEnvironment { symlinks: r@.symlinks, ..self@ }),
    {
        let normalized = normalize_symlinks(&self.executable, symlinks);
        PythonEnvironmentBuilder { symlinks: normalized, ..self }
    }
}

/// The symlinks `symlinks` together with the executable, sorted in path order
/// without repeats (none when there are none).
pub fn normalize_symlinks(executable: &Option<String>, symlinks: Option<Vec<String>>) -> (r: Option<Vec<String>>)
    ensures
        normalized_symlinks(symlink_inputs(*executable, symlinks), r),
        executable_among_symlinks(*executable, r),
{
    {
        let mut all: Vec<String> = Vec::new();
        match executable {
            Some(exe) => {
                all.push(exe.clone());
            },
            None => {},
        }
        let ghost head = string_views(all@);
        match symlinks {
            Some(links) => {
                let mut i: usize = 0;
                while i < links.len()
                    invariant
                        0 <= i <= links@.len(),
                        string_views(all@) == head + string_views(links@).subrange(0, i as int),
                    decreases links.len() - i,
                {
                    let ghost before = string_views(all@);
                    all.push(links[i].clone());
                    assert(string_views(all@) =~= before.push(links@[i as int]@));
                    assert(string_views(links@).subrange(0, i + 1) =~= string_views(links@).subrange(
                        0,
                        i as int,
                    ).push(links@[i as int]@));
                    i = i + 1;
                }
                assert(string_views(links@).subrange(0, links@.len() as int) =~= string_views(
                    links@,
                ));
            },
            None => {},
        }
        let ghost inputs = string_views(all@);
        assert(inputs =~= symlink_inputs(*executable, symlinks));
        let sorted = sort_dedup_paths(all);
        if sorted.len() == 0 {
            proof {
                if inputs.len() > 0 {
                    assert(holds_path(string_views(sorted@), inputs[0]));
                }
            }
            None
        } else {
            assert forall|k: int| 0 <= k < sorted@.len() implies inputs.contains(
                (#[trigger] sorted@[k])@,
            ) by {
                assert(string_views(all@).contains(sorted@[k]@));
            }
            proof {
                if executable is Some {
                    assert(inputs[0] == executable->0@);
                    assert(holds_path(string_views(sorted@), inputs[0]));
                }
            }
            Some(sorted)
        }
    }
}

impl PythonEnvironmentBuilder {

    /// The environment assembled so far.
    pub fn build(self) -> (r: PythonEnvironment)
        ensures
            r == self@,
            executable_among_symlinks(r.executable, r.symlinks),
    {
        proof {
            use_type_invariant(&self);
        }
        PythonEnvironment {
            display_name: self.display_name,
            name: self.name,
            executable: self.executable,
            category: self.category,
            version: self.version,
            prefix: self.prefix,
            manager: self.manager,
            project: self.project,
            arch: self.arch,
            symlinks: self.symlinks,
        }
    }
}

} // verus!
