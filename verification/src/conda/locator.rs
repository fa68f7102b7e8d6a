//! The conda locator's state and what it reports for telemetry.
use vstd::prelude::*;
use crate::cache::LocatorCache;
use crate::conda::env_variables::EnvVariables;
use crate::conda::environment_locations::{get_conda_environment_paths, get_environments};
use crate::conda::environments::{get_conda_environment_info, CondaEnvironment};
use crate::conda::manager::CondaManager;
use crate::conda::utils::{is_conda_env, is_conda_install};
use crate::locator::{Configuration, Locator, LocatorKind, LocatorResult, PythonEnv, Reporter};
use crate::manager::EnvManager;
use crate::os_environment::{Environment, FileSystem, Platform, PythonProbe};
use crate::paths::{ends_with_component, last_component_is, parent_of, parent_path, string_views};
use crate::python_environment::{PythonEnvironment, PythonEnvironmentKind};
use crate::text::opt_view;
use crate::picking::{flagged, keep_flagged};

verus! {

/// What the conda locator found out, for telemetry.
#[derive(Debug, Clone, PartialEq, Eq)]
pub struct CondaTelemetryInfo {
    pub can_spawn_conda: bool,
    pub conda_rcs: Vec<String>,
    pub env_dirs: Vec<String>,
    pub environments_txt: Option<String>,
    pub environments_txt_exists: Option<bool>,
    pub user_provided_env_found: Option<bool>,
    pub environments_from_txt: Vec<String>,
}

/// The conda locator: the environments and managers found so far, the
/// environment variables it reads, and the conda executable it was given.
pub struct Conda {
    pub environments: LocatorCache<String, PythonEnvironment>,
    pub managers: LocatorCache<String, CondaManager>,
    pub env_vars: EnvVariables,
    pub conda_executable: Option<String>,
}

impl Conda {
    pub fn from(env: &Environment) -> (r: Conda)
        ensures
            r.environments.wf() && r.environments.view() == Map::<Seq<char>, PythonEnvironment>::empty(),
            r.managers.wf() && r.managers.view() == Map::<Seq<char>, CondaManager>::empty(),
            r.conda_executable is None,
            r.env_vars.home == env.home,
    {
        Conda {
            environments: LocatorCache::new(),
            managers: LocatorCache::new(),
            env_vars: EnvVariables::from(env),
            conda_executable: None,
        }
    }

    /// Both caches are well formed.
    pub open spec fn wf(&self) -> bool {
        self.environments.wf() && self.managers.wf()
    }

    /// The manager of the installation at `conda_dir`: the one found before, or
    /// else the one found now, which is then remembered.
    pub fn get_manager<F: FileSystem>(&mut self, fs: &F, platform: Platform, conda_dir: &str) -> (r:
        Option<CondaManager>)
        requires
            old(self).wf(),
        ensures
            final(self).wf(),
            final(self).environments == old(self).environments,
            final(self).env_vars == old(self).env_vars,
            final(self).conda_executable == old(self).conda_executable,
            old(self).managers.view().contains_key(conda_dir@) ==> r is Some
                && final(self).managers.view() == old(self).managers.view(),
            !old(self).managers.view().contains_key(conda_dir@) ==> match r {
                Some(m) => final(self).managers.view() == old(self).managers.view().insert(
                    conda_dir@,
                    m,
                ),
                None => final(self).managers.view() == old(self).managers.view(),
            },
    {
        let key = conda_dir.to_owned();
        match self.managers.get(&key) {
            Some(m) => {
                return Some(m);
            },
            None => {},
        }
        match CondaManager::from(fs, platform, conda_dir) {
            Some(m) => {
                let kept = m.duplicate();
                self.managers.insert(key, m);
                Some(kept)
            },
            None => None,
        }
    }

    /// Forgets the environments and managers found so far.
    pub fn clear(&mut self)
        ensures
            final(self).environments.wf() && final(self).environments.view() == Map::<
                Seq<char>,
                PythonEnvironment,
            >::empty(),
            final(self).managers.wf() && final(self).managers.view() == Map::<
                Seq<char>,
                CondaManager,
            >::empty(),
            final(self).conda_executable == old(self).conda_executable,
            final(self).env_vars == old(self).env_vars,
    {
        self.environments.clear();
        self.managers.clear();
    }
}

/// A folder the conda environment of the executable `exe` may live in, when no
/// prefix is known: the executable's folder, or the folder above it when that is
/// a `bin` or `Scripts` folder.
pub open spec fn conda_prefix_candidate(exe: Seq<char>, p: Seq<char>) -> bool {
    match parent_of(exe) {
        Some(parent) => p == parent || ((last_component_is(parent, "bin"@) || last_component_is(
            parent,
            "Scripts"@,
        )) && parent_of(parent) == Some(p)),
        None => false,
    }
}

/// The prefix a search starts from: the one given, else a candidate folder.
pub open spec fn conda_prefix_for(env: PythonEnv, p: Seq<char>) -> bool {
    match env.prefix {
        Some(q) => q@ == p,
        None => conda_prefix_candidate(env.executable@, p),
    }
}

impl Conda {
    fn prefix_of<F: FileSystem>(fs: &F, env: &PythonEnv) -> (r: Option<String>)
        ensures
            r matches Some(p) ==> conda_prefix_for(*env, p@),
            env.prefix matches Some(p) ==> r matches Some(q) && q@ == p@,
            parent_of(env.executable@) is None ==> r is Some == env.prefix is Some,
    {
        match &env.prefix {
            Some(p) => Some(p.clone()),
            None => {
                let parent = match parent_path(env.executable.as_str()) {
                    Some(parent) => parent,
                    None => {
                        return None;
                    },
                };
                if is_conda_env(fs, parent.as_str()) {
                    return Some(parent);
                }
                if ends_with_component(parent.as_str(), "bin") || ends_with_component(
                    parent.as_str(),
                    "Scripts",
                ) {
                    match parent_path(parent.as_str()) {
                        Some(gp) => {
                            if is_conda_env(fs, gp.as_str()) {
                                return Some(gp);
                            }
                        },
                        None => {},
                    }
                }
                None
            },
        }
    }

    /// The conda environment `env` belongs to, when its prefix (given, or found
    /// from the executable's folder) is a conda environment. A result is
    /// remembered by prefix; one remembered before is handed out again.
    pub fn try_from<F: FileSystem, X: PythonProbe>(
        &mut self,
        fs: &F,
        probe: &X,
        platform: Platform,
        env: &PythonEnv,
    ) -> (r: Option<PythonEnvironment>)
        requires
            old(self).wf(),
        ensures
            final(self).wf(),
            final(self).env_vars == old(self).env_vars,
            final(self).conda_executable == old(self).conda_executable,
            r is None ==> final(self).environments.view() == old(self).environments.view(),
            env.prefix is None && parent_of(env.executable@) is None ==> r is None,
            r matches Some(e) ==> exists|p: Seq<char>|
                #[trigger] conda_prefix_for(*env, p) && final(self).environments.view().contains_key(p)
                    && (old(self).environments.view().contains_key(p) || (e.category
                    == PythonEnvironmentKind::Conda && opt_view(e.prefix) == Some(p)
                    && final(self).environments.view() == old(self).environments.view().insert(
                    p,
                    final(self).environments.view()[p],
                ))),
    {
        let path = match Conda::prefix_of(fs, env) {
            Some(p) => p,
            None => {
                return None;
            },
        };
        if !is_conda_env(fs, path.as_str()) {
            return None;
        }
        match self.environments.get(&path) {
            Some(e) => {
                assert(conda_prefix_for(*env, path@));
                return Some(e);
            },
            None => {},
        }
        let info = match get_conda_environment_info(fs, probe, path.as_str(), &None) {
            Some(i) => i,
            None => {
                return None;
            },
        };
        let manager = match &info.conda_dir {
            Some(dir) => match self.get_manager(fs, platform, dir.as_str()) {
                Some(m) => Some(m.to_manager()),
                None => None,
            },
            None => None,
        };
        let found = info.to_python_environment(fs, probe, info.conda_dir.clone(), manager);
        let kept = found.clone();
        self.environments.insert(path.clone(), kept);
        assert(conda_prefix_for(*env, path@));
        Some(found)
    }
}

/// The conda environments among `paths`, in order, each described with the
/// installation of `manager` when one is given.
pub fn get_conda_environments<F: FileSystem, X: PythonProbe>(
    fs: &F,
    probe: &X,
    paths: &Vec<String>,
    manager: &Option<CondaManager>,
) -> (r: Vec<CondaEnvironment>)
    ensures
        r@.len() <= paths@.len(),
        forall|k: int| 0 <= k < r@.len() ==> string_views(paths@).contains(#[trigger] r@[k].prefix@),
{
    let mut envs: Vec<CondaEnvironment> = Vec::new();
    let mut i: usize = 0;
    while i < paths.len()
        invariant
            0 <= i <= paths@.len(),
            envs@.len() <= i,
            forall|k: int| 0 <= k < envs@.len() ==> string_views(paths@).contains(#[trigger] envs@[k].prefix@),
        decreases paths.len() - i,
    {
        match get_conda_environment_info(fs, probe, paths[i].as_str(), manager) {
            Some(env) => {
                assert(string_views(paths@)[i as int] == paths@[i as int]@);
                envs.push(env);
            },
            None => {},
        }
        i = i + 1;
    }
    envs
}

impl Conda {
    /// Describes and reports the conda environment at `path`, unless one was
    /// reported for it already: with the manager of its installation when that is
    /// known and found (the manager is reported first), otherwise without one.
    /// What is reported is remembered under the prefix.
    pub fn report_environment_at<F: FileSystem, X: PythonProbe, R: Reporter>(
        &mut self,
        fs: &F,
        probe: &X,
        platform: Platform,
        path: &str,
        reporter: &R,
    )
        requires
            old(self).wf(),
        ensures
            final(self).wf(),
            final(self).env_vars == old(self).env_vars,
            final(self).conda_executable == old(self).conda_executable,
            forall|k: Seq<char>| #[trigger] old(self).environments.view().contains_key(k)
                ==> final(self).environments.view().contains_key(k),
            forall|k: Seq<char>| #[trigger] final(self).environments.view().contains_key(k)
                ==> old(self).environments.view().contains_key(k) || k == path@,
    {
        let env = match get_conda_environment_info(fs, probe, path, &None) {
            Some(e) => e,
            None => {
                return;
            },
        };
        let prefix = env.prefix.clone();
        let conda_dir = match &env.conda_dir {
            Some(d) => d.clone(),
            None => {
                let found = env.to_python_environment(fs, probe, None, None);
                reporter.report_environment(&found);
                self.environments.insert(prefix, found);
                return;
            },
        };
        if self.environments.contains_key(&prefix) {
            return;
        }
        match self.get_manager(fs, platform, conda_dir.as_str()) {
            Some(manager) => {
                let found = env.to_python_environment(
                    fs,
                    probe,
                    Some(conda_dir.clone()),
                    Some(manager.to_manager()),
                );
                reporter.report_manager(&manager.to_manager());
                reporter.report_environment(&found);
                self.environments.insert(prefix, found);
            },
            None => {
                let found = env.to_python_environment(fs, probe, Some(conda_dir.clone()), None);
                reporter.report_environment(&found);
                self.environments.insert(prefix, found);
            },
        }
    }

    /// The environments of the conda installation at `conda_dir` not found
    /// before, each with its manager, and the installation's own manager, when
    /// it is an installation with a manager: each environment is described with
    /// the installation that made it, when that has a manager of its own, else
    /// with this one; what is found is remembered by prefix.
    fn install_environments<F: FileSystem, X: PythonProbe>(
        &mut self,
        fs: &F,
        probe: &X,
        platform: Platform,
        conda_dir: &str,
    ) -> (r: Option<(EnvManager, Vec<(EnvManager, PythonEnvironment)>)>)
        requires
            old(self).wf(),
        ensures
            final(self).wf(),
            final(self).env_vars == old(self).env_vars,
            final(self).conda_executable == old(self).conda_executable,
            r matches Some((m, found)) ==> forall|k: int|
                0 <= k < found@.len() ==> (#[trigger] found@[k]).1.category == PythonEnvironmentKind::Conda
                    && found@[k].1.manager == Some(found@[k].0),
    {
        if !is_conda_install(fs, conda_dir) {
            return None;
        }
        let manager = match CondaManager::from(fs, platform, conda_dir) {
            Some(m) => m,
            None => {
                return None;
            },
        };
        let manager_dir = match &manager.conda_dir {
            Some(d) => d.clone(),
            None => {
                return None;
            },
        };
        self.managers.insert(manager_dir.clone(), manager.duplicate());
        let envs = get_conda_environments(
            fs,
            probe,
            &get_environments(fs, manager_dir.as_str()),
            &Some(manager.duplicate()),
        );
        let mut found: Vec<(EnvManager, PythonEnvironment)> = Vec::new();
        let mut i: usize = 0;
        while i < envs.len()
            invariant
                0 <= i <= envs@.len(),
                self.wf(),
                self.env_vars == old(self).env_vars,
                self.conda_executable == old(self).conda_executable,
                forall|k: int|
                    0 <= k < found@.len() ==> (#[trigger] found@[k]).1.category
                        == PythonEnvironmentKind::Conda && found@[k].1.manager == Some(found@[k].0),
            decreases envs.len() - i,
        {
            let env = &envs[i];
            if !self.environments.contains_key(&env.prefix) {
                let own = match &env.conda_dir {
                    Some(d) => CondaManager::from(fs, platform, d.as_str()),
                    None => None,
                };
                let chosen = match own {
                    Some(m) => m,
                    None => manager.duplicate(),
                };
                let reported = chosen.to_manager();
                let described = env.to_python_environment(
                    fs,
                    probe,
                    chosen.conda_dir.clone(),
                    Some(reported.duplicate()),
                );
                self.environments.insert(env.prefix.clone(), described.clone());
                found.push((reported, described));
            }
            i = i + 1;
        }
        Some((manager.to_manager(), found))
    }

    /// The environments and manager of the conda installation at `conda_dir`
    /// (see [`Conda::install_environments`]).
    pub fn find_in<F: FileSystem, X: PythonProbe>(
        &mut self,
        fs: &F,
        probe: &X,
        platform: Platform,
        conda_dir: &str,
    ) -> (r: Option<LocatorResult>)
        requires
            old(self).wf(),
        ensures
            final(self).wf(),
            final(self).env_vars == old(self).env_vars,
            final(self).conda_executable == old(self).conda_executable,
            r matches Some(res) ==> res.managers@.len() == 1 && forall|k: int|
                0 <= k < res.environments@.len() ==> (#[trigger] res.environments@[k]).category
                    == PythonEnvironmentKind::Conda,
    {
        let (manager, found) = match self.install_environments(fs, probe, platform, conda_dir) {
            Some(x) => x,
            None => {
                return None;
            },
        };
        let mut environments: Vec<PythonEnvironment> = Vec::new();
        let mut rest = found;
        while rest.len() > 0
            invariant
                forall|k: int|
                    0 <= k < rest@.len() ==> (#[trigger] rest@[k]).1.category
                        == PythonEnvironmentKind::Conda,
                forall|k: int|
                    0 <= k < environments@.len() ==> (#[trigger] environments@[k]).category
                        == PythonEnvironmentKind::Conda,
            decreases rest.len(),
        {
            let ghost before = rest@;
            let (_, env) = rest.remove(0);
            assert(before[0].1.category == PythonEnvironmentKind::Conda);
            assert forall|k: int| 0 <= k < rest@.len() implies (#[trigger] rest@[k]).1.category
                == PythonEnvironmentKind::Conda by {
                assert(rest@[k] == before[k + 1]);
            }
            environments.push(env);
        }
        let mut managers: Vec<EnvManager> = Vec::new();
        managers.push(manager);
        Some(LocatorResult { managers, environments })
    }

    /// Reports the environments of the conda installation at `conda_dir` not
    /// reported before, each after its manager (see
    /// [`Conda::install_environments`]).
    pub fn find_and_report<F: FileSystem, X: PythonProbe, R: Reporter>(
        &mut self,
        fs: &F,
        probe: &X,
        platform: Platform,
        reporter: &R,
        conda_dir: &str,
    )
        requires
            old(self).wf(),
        ensures
            final(self).wf(),
            final(self).env_vars == old(self).env_vars,
            final(self).conda_executable == old(self).conda_executable,
    {
        match self.install_environments(fs, probe, platform, conda_dir) {
            Some((_, found)) => {
                let mut i: usize = 0;
                while i < found.len()
                    decreases found.len() - i,
                {
                    reporter.report_manager(&found[i].0);
                    reporter.report_environment(&found[i].1);
                    i = i + 1;
                }
            },
            None => {},
        }
    }

    /// Forgets what was found before, then reports every conda environment at
    /// the known environment paths, in path order.
    pub fn find<F: FileSystem, X: PythonProbe, R: Reporter>(
        &mut self,
        fs: &F,
        probe: &X,
        platform: Platform,
        reporter: &R,
    )
        requires
            old(self).wf(),
        ensures
            final(self).wf(),
            final(self).env_vars == old(self).env_vars,
            final(self).conda_executable == old(self).conda_executable,
    {
        self.clear();
        let paths = get_conda_environment_paths(fs, &self.env_vars, &self.conda_executable, platform);
        let mut i: usize = 0;
        while i < paths.len()
            invariant
                0 <= i <= paths@.len(),
                self.wf(),
                self.env_vars == old(self).env_vars,
                self.conda_executable == old(self).conda_executable,
            decreases paths.len() - i,
        {
            self.report_environment_at(fs, probe, platform, paths[i].as_str(), reporter);
            i = i + 1;
        }
    }
}

impl Conda {
    /// The environments among `listed` (what `conda info` lists) that the
    /// locator has not found, in order.
    pub fn missing_envs(&self, listed: &Vec<String>) -> (r: Vec<String>)
        requires
            self.wf(),
        ensures
            string_views(r@) == flagged(
                string_views(listed@),
                Seq::new(listed@.len(), |i: int| !self.environments.view().contains_key(listed@[i]@)),
            ),
    {
        let mut flags: Vec<bool> = Vec::new();
        let mut i: usize = 0;
        while i < listed.len()
            invariant
                0 <= i <= listed@.len(),
                self.wf(),
                flags@ == Seq::new(i as nat, |k: int| !self.environments.view().contains_key(listed@[k]@)),
            decreases listed.len() - i,
        {
            let found = self.environments.contains_key(&listed[i]);
            flags.push(!found);
            assert(flags@ =~= Seq::new((i + 1) as nat, |k: int| !self.environments.view().contains_key(listed@[k]@)));
            i = i + 1;
        }
        keep_flagged(listed, &flags)
    }
}

/// What other locators ask of the conda locator: the environments of a conda
/// installation they come across.
pub trait CondaLocator {
    /// The locator's state is well formed.
    spec fn locator_wf(&self) -> bool;

    /// Reports the environments of the conda installation at `conda_dir`.
    fn find_and_report<F: FileSystem, X: PythonProbe, R: Reporter>(
        &mut self,
        fs: &F,
        probe: &X,
        platform: Platform,
        reporter: &R,
        conda_dir: &str,
    )
        requires
            old(self).locator_wf(),
        ensures
            final(self).locator_wf(),
    ;
}

impl CondaLocator for Conda {
    open spec fn locator_wf(&self) -> bool {
        self.wf()
    }

    fn find_and_report<F: FileSystem, X: PythonProbe, R: Reporter>(
        &mut self,
        fs: &F,
        probe: &X,
        platform: Platform,
        reporter: &R,
        conda_dir: &str,
    ) {
        Conda::find_and_report(self, fs, probe, platform, reporter, conda_dir)
    }
}

impl Locator for Conda {
    fn get_kind(&self) -> (r: LocatorKind)
        ensures
            r == LocatorKind::Conda,
    {
        LocatorKind::Conda
    }

    /// Takes the conda executable from the configuration, when it gives one.
    fn configure(&mut self, config: &Configuration)
        ensures
            final(self).conda_executable == (match config.conda_executable {
                Some(e) => Some(e),
                None => old(self).conda_executable,
            }),
    {
        match &config.conda_executable {
            Some(e) => {
                self.conda_executable = Some(e.clone());
            },
            None => {},
        }
    }

    fn supported_categories(&self) -> (r: Vec<PythonEnvironmentKind>)
        ensures
            r@ == seq![PythonEnvironmentKind::Conda],
    {
        let mut v: Vec<PythonEnvironmentKind> = Vec::new();
        v.push(PythonEnvironmentKind::Conda);
        v
    }
}

} // verus!
