//! Toolchain variants and the shared capability contract: every variant
//! reports its name, its built-in default version string, whether it keeps an
//! installable environment, and whether extra runtime dependencies are
//! meaningful for it.

pub mod docker_image;

use vstd::prelude::*;
use vstd::string::StringExecFns;
use crate::hook::{Error, ErrorModel, Hook, ResolvedHook};
use crate::config::view_opt_str;

verus! {

/// A toolchain a hook can run under. One arm per supported toolchain:
/// interpreted-language runtimes that manage an installable environment
/// (`Python`, `Node`), the pass-through host runner (`System`), and the
/// containerized image runner (`DockerImage`).
#[derive(Clone, Copy, Debug, PartialEq, Eq, Hash, Structural)]
pub enum Language {
    Python,
    Node,
    System,
    DockerImage,
}

/// What `Language::name` returns, as a sequence of characters.
pub open spec fn name_spec(lang: Language) -> Seq<char> {
    match lang {
        Language::Python => "python"@,
        Language::Node => "node"@,
        Language::System => "system"@,
        Language::DockerImage => "docker_image"@,
    }
}

/// The sentinel version string used when a hook pins no language version.
pub open spec fn default_version_spec(lang: Language) -> Seq<char> {
    "default"@
}

/// The per-toolchain environment directory, or `None` for toolchains with no
/// installable state.
pub open spec fn environment_dir_spec(lang: Language) -> Option<Seq<char>> {
    match lang {
        Language::Python => Some("py_env"@),
        Language::Node => Some("node_env"@),
        Language::System => None,
        Language::DockerImage => None,
    }
}

/// Whether `additional_dependencies` is meaningful for this toolchain.
pub open spec fn supports_dependency_spec(lang: Language) -> bool {
    match lang {
        Language::Python => true,
        Language::Node => true,
        Language::System => false,
        Language::DockerImage => false,
    }
}

impl Language {
    /// The toolchain's display name.
    pub fn name(self) -> (r: String)
        ensures
            r@ == name_spec(self),
    {
        match self {
            Language::Python => String::from_str("python"),
            Language::Node => String::from_str("node"),
            Language::System => String::from_str("system"),
            Language::DockerImage => String::from_str("docker_image"),
        }
    }

    /// The built-in default version string for this toolchain.
    pub fn default_version(&self) -> (r: String)
        ensures
            r@ == default_version_spec(*self),
    {
        String::from_str("default")
    }

    /// The directory name the toolchain's environments live under, or `None`
    /// for a toolchain with no installable state.
    pub fn environment_dir(&self) -> (r: Option<String>)
        ensures
            r is Some <==> environment_dir_spec(*self) is Some,
            r matches Some(d) ==> environment_dir_spec(*self) == Some(d@),
    {
        match self {
            Language::Python => Some(String::from_str("py_env")),
            Language::Node => Some(String::from_str("node_env")),
            Language::System => None,
            Language::DockerImage => None,
        }
    }

    /// Whether hooks under this toolchain may declare extra runtime
    /// dependencies.
    pub fn supports_dependency(&self) -> (r: bool)
        ensures
            r == supports_dependency_spec(*self),
    {
        match self {
            Language::Python => true,
            Language::Node => true,
            Language::System => false,
            Language::DockerImage => false,
        }
    }

    /// Decides whether the hook needs an environment. A hook that declares
    /// extra dependencies under a toolchain for which they are not
    /// meaningful is a configuration error, surfaced here, never silently
    /// dropped. A toolchain with no installable state needs no environment;
    /// one with installable state resolves to the environment path the
    /// store provisioned (`env_path`, keyed outside this function by
    /// language, version and dependency set).
    pub fn resolve(&self, hook: &Hook, env_path: Option<String>) -> (r: Result<
        ResolvedHook,
        Error,
    >)
        requires
            environment_dir_spec(*self) is Some ==> env_path is Some,
        ensures
            r is Err <==> (hook@.additional_dependencies is Some && !supports_dependency_spec(
                *self,
            )),
            r matches Err(e) ==> e@ == (ErrorModel::UnsupportedDependencies {
                hook: hook@.id,
                language: *self,
            }),
            r matches Ok(res) ==> match environment_dir_spec(*self) {
                None => res matches ResolvedHook::NoNeedInstall(h) && h@ == hook@,
                Some(_) => res matches ResolvedHook::Installed { hook: h, env_path: p }
                    && h@ == hook@ && Some(p@) == view_opt_str(env_path),
            },
    {
        if hook.0.additional_dependencies.is_some() && !self.supports_dependency() {
            return Err(Error::UnsupportedDependencies {
                hook: hook.0.id.clone(),
                language: *self,
            });
        }
        match self.environment_dir() {
            None => Ok(ResolvedHook::NoNeedInstall(hook.clone())),
            Some(_dir) => Ok(ResolvedHook::Installed {
                hook: hook.clone(),
                env_path: env_path.unwrap(),
            }),
        }
    }
}

} // verus!
