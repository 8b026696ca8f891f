//! The containerized-image toolchain: hooks run inside an existing container
//! image, so there is never an environment to install. The hook's entry
//! string is shell-tokenized before the container-invocation command is
//! prefixed to it; tokenization failure is a configuration error.

use vstd::prelude::*;
use crate::config::{HookModel, clone_strings};
use crate::hook::{Error, ErrorModel, Hook, ResolvedHook};

verus! {

/// What `shlex::split` yields on a string: `None` where the string cannot be
/// tokenized under POSIX shell quoting rules, otherwise the word list. Both
/// depend on the string alone.
pub uninterp spec fn shell_split(s: Seq<char>) -> Option<Seq<Seq<char>>>;

/// Relies on `shlex::split`: shell-tokenizes the whole string at once,
/// `None` on erroneous input.
#[verifier::external_body]
fn split_entry(s: &str) -> (r: Option<Vec<String>>)
    ensures
        r is Some <==> shell_split(s@) is Some,
        r matches Some(v) ==> shell_split(s@) matches Some(ws) && v.deep_view() == ws,
{
    shlex::split(s)
}

/// The per-batch command prefix of an image hook: the tokenized entry
/// followed by the hook's configured extra arguments; `None` where the entry
/// cannot be tokenized.
pub open spec fn image_command(h: HookModel) -> Option<Seq<Seq<char>>> {
    match shell_split(h.entry) {
        None => None,
        Some(words) => Some(
            words + (if h.args is Some {
                h.args.unwrap()
            } else {
                Seq::<Seq<char>>::empty()
            }),
        ),
    }
}

/// The containerized-image toolchain variant.
pub struct DockerImage;

impl DockerImage {
    /// Extra runtime dependencies are not meaningful inside a fixed image.
    pub fn supports_dependency(&self) -> (r: bool)
        ensures
            r == false,
    {
        false
    }

    /// The image carries its own runtime, so resolution never needs an
    /// environment.
    pub fn resolve(&self, hook: &Hook) -> (r: Result<ResolvedHook, Error>)
        ensures
            r matches Ok(ResolvedHook::NoNeedInstall(h)) && h@ == hook@,
    {
        Ok(ResolvedHook::NoNeedInstall(hook.clone()))
    }

    /// Installation is a no-op for an environment-free toolchain.
    pub fn install(&self, resolved: &ResolvedHook) -> (r: Result<(), Error>)
        ensures
            r is Ok,
    {
        Ok(())
    }

    /// Nothing is installed, so there is nothing whose health could have
    /// degraded.
    pub fn check_health(&self) -> (r: Result<(), Error>)
        ensures
            r is Ok,
    {
        Ok(())
    }

    /// Tokenizes the hook's entry and appends the hook's configured extra
    /// arguments: the command every batch invocation starts from (after the
    /// container-invocation prefix). Fails exactly when the entry cannot be
    /// tokenized.
    pub fn run_command(&self, hook: &Hook) -> (r: Result<Vec<String>, Error>)
        ensures
            r is Ok <==> image_command(hook@) is Some,
            r matches Ok(cmd) ==> image_command(hook@) == Some(cmd.deep_view()),
            r matches Err(e) ==> e@ == (ErrorModel::InvalidEntry { entry: hook@.entry }),
    {
        match split_entry(hook.0.entry.as_str()) {
            None => Err(Error::InvalidEntry { entry: hook.0.entry.clone() }),
            Some(mut cmd) => {
                let ghost words = cmd.deep_view();
                match &hook.0.args {
                    Some(args) => {
                        let mut extra = clone_strings(args);
                        let ghost extra_view = extra.deep_view();
                        cmd.append(&mut extra);
                        proof {
                            assert(cmd.deep_view() =~= words + extra_view);
                            assert(extra_view =~= hook@.args.unwrap());
                        }
                    },
                    None => {
                        proof {
                            assert(cmd.deep_view() =~= words + Seq::<Seq<char>>::empty());
                        }
                    },
                }
                Ok(cmd)
            },
        }
    }
}

} // verus!
