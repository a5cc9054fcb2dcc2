//! The optional configuration: which interpreter runs the scripts of
//! which file extension.

use crate::string_map::StringMap;
use crate::text::{lowercase, strip_leading_dots, to_lowercase, without_leading_dots};
use vstd::prelude::*;
use vstd::string::StringExecFns;

verus! {

/// The configuration of one invocation.
#[derive(Debug)]
pub struct FastsaveConfig {
    interpreters: StringMap,
}

impl View for FastsaveConfig {
    type V = Map<Seq<char>, Seq<char>>;

    /// The interpreter of each extension; extensions are in lower case and
    /// have no leading dot.
    closed spec fn view(&self) -> Map<Seq<char>, Seq<char>> {
        self.interpreters@
    }
}

/// The key under which an extension is looked up: lower case, no leading dot.
pub open spec fn extension_key(extension: Seq<char>) -> Seq<char> {
    lowercase(strip_leading_dots(extension))
}

/// The first configuration in a list of attempts to load one.
pub open spec fn first_loaded(attempts: Seq<Option<FastsaveConfig>>) -> Option<FastsaveConfig>
    decreases attempts.len(),
{
    if attempts.len() == 0 {
        None
    } else {
        match attempts[0] {
            Some(config) => Some(config),
            None => first_loaded(attempts.skip(1)),
        }
    }
}

/// The configuration that is used: the one loaded from the path that the
/// caller named, else the first that a fixed location gave.
pub open spec fn chosen_config(
    custom: Option<FastsaveConfig>,
    fallbacks: Seq<Option<FastsaveConfig>>,
) -> Option<FastsaveConfig> {
    match custom {
        Some(config) => Some(config),
        None => first_loaded(fallbacks),
    }
}

/// The file in the working directory that may hold the configuration.
pub open spec fn local_config_path() -> Seq<char> {
    "fastsave.yaml"@
}

/// The file in the user's configuration directory that may hold it.
pub open spec fn user_config_path() -> Seq<char> {
    "~/.config/fastsave/config.yaml"@
}

/// The places where a configuration is looked for, in order, before any
/// tilde is expanded: the path that the caller named, if any, then the two
/// fixed locations.
pub open spec fn search_paths(config_path: Option<Seq<char>>) -> Seq<Seq<char>> {
    let fixed = seq![local_config_path(), user_config_path()];
    match config_path {
        Some(path) => seq![path] + fixed,
        None => fixed,
    }
}

/// `expanded` may be what tilde expansion makes of `path`: `path` itself,
/// or, where `path` begins with a tilde, some home directory in place of
/// that tilde.
pub open spec fn is_tilde_expansion(path: Seq<char>, expanded: Seq<char>) -> bool {
    expanded == path || (path.len() > 0 && path[0] == '~' && path.skip(1).is_suffix_of(expanded))
}

/// Calls `shellexpand::tilde`, which puts the user's home directory in
/// place of a leading tilde that stands alone or before a separator. The
/// home directory depends on the user and the machine, so the contract says only
/// what holds of every outcome: a path that does not begin with a tilde
/// comes back unchanged, and an expanded one still ends with what followed
/// the tilde.
#[verifier::external_body]
fn expand_tilde(path: &str) -> (out: String)
    ensures
        is_tilde_expansion(path@, out@),
{
    shellexpand::tilde(path).to_string()
}

/// The paths at which a configuration is looked for, in order, with a
/// leading tilde expanded.
pub fn candidate_paths(config_path: Option<&str>) -> (out: Vec<String>)
    ensures
        out@.len() == search_paths(
            match config_path {
                Some(path) => Some(path@),
                None => None,
            },
        ).len(),
        forall|i: int|
            0 <= i < out@.len() ==> is_tilde_expansion(
                search_paths(
                    match config_path {
                        Some(path) => Some(path@),
                        None => None,
                    },
                )[i],
                (#[trigger] out@[i])@,
            ),
{
    let mut out: Vec<String> = Vec::new();
    match config_path {
        Some(path) => {
            out.push(expand_tilde(path));
        },
        None => {},
    }
    out.push(expand_tilde("fastsave.yaml"));
    out.push(expand_tilde("~/.config/fastsave/config.yaml"));
    out
}

impl Default for FastsaveConfig {
    /// The configuration that maps no extension.
    fn default() -> (out: FastsaveConfig)
        ensures
            out@ == Map::<Seq<char>, Seq<char>>::empty(),
    {
        FastsaveConfig { interpreters: StringMap::new() }
    }
}

impl FastsaveConfig {
    /// The configuration with the given mapping from extension to interpreter.
    pub fn new(interpreters: StringMap) -> (out: FastsaveConfig)
        ensures
            out@ == interpreters@,
    {
        FastsaveConfig { interpreters }
    }

    /// The mapping from extension to interpreter.
    pub fn interpreters(&self) -> (out: &StringMap)
        ensures
            out@ == self@,
    {
        &self.interpreters
    }

    /// The configuration of this invocation. `custom` is what the file at
    /// the path named by the caller gave, and `fallbacks` what the files at
    /// the fixed locations gave, in order; each is `None` where there was
    /// no path, no file, or no configuration in it. The first one loaded
    /// wins, and where none was loaded the configuration maps no extension.
    pub fn load_with_config_path(
        custom: Option<FastsaveConfig>,
        fallbacks: Vec<Option<FastsaveConfig>>,
    ) -> (out: FastsaveConfig)
        ensures
            match chosen_config(custom, fallbacks@) {
                Some(config) => out == config,
                None => out@ == Map::<Seq<char>, Seq<char>>::empty(),
            },
    {
        match custom {
            Some(config) => {
                return config;
            },
            None => {},
        }
        let mut rest = fallbacks;
        let mut found: Option<FastsaveConfig> = None;
        assert(fallbacks@.skip(fallbacks@.len() as int) =~= Seq::<Option<FastsaveConfig>>::empty());
        while rest.len() > 0
            invariant
                rest@ == fallbacks@.take(rest@.len() as int),
                rest@.len() <= fallbacks@.len(),
                found == first_loaded(fallbacks@.skip(rest@.len() as int)),
            decreases rest.len(),
        {
            let ghost n = rest@.len() as int;
            let last = rest.pop();
            assert(fallbacks@.skip(n - 1).skip(1) =~= fallbacks@.skip(n));
            assert(fallbacks@.skip(n - 1)[0] == fallbacks@[n - 1]);
            assert(rest@ =~= fallbacks@.take(n - 1));
            match last {
                Some(Some(config)) => {
                    found = Some(config);
                },
                _ => {},
            }
        }
        assert(fallbacks@.skip(0) =~= fallbacks@);
        match found {
            Some(config) => config,
            None => FastsaveConfig::default(),
        }
    }

    /// The configuration of an invocation that names no configuration
    /// file: the first that a fixed location gave, else the empty one.
    pub fn load(fallbacks: Vec<Option<FastsaveConfig>>) -> (out: FastsaveConfig)
        ensures
            match first_loaded(fallbacks@) {
                Some(config) => out == config,
                None => out@ == Map::<Seq<char>, Seq<char>>::empty(),
            },
    {
        FastsaveConfig::load_with_config_path(None, fallbacks)
    }

    /// The interpreter stored under `key`, which is taken as it stands.
    pub fn lookup(&self, key: &str) -> (out: Option<&String>)
        ensures
            match out {
                Some(interpreter) => self@.dom().contains(key@) && interpreter@ == self@[key@],
                None => !self@.dom().contains(key@),
            },
    {
        self.interpreters.get(key)
    }

    /// The interpreter configured for a file extension, which may be given
    /// with leading dots and in any case.
    pub fn get_interpreter(&self, extension: &str) -> (out: Option<&String>)
        ensures
            match out {
                Some(interpreter) => self@.dom().contains(extension_key(extension@)) && interpreter@
                    == self@[extension_key(extension@)],
                None => !self@.dom().contains(extension_key(extension@)),
            },
    {
        let bare = without_leading_dots(extension);
        let key = to_lowercase(bare.as_str());
        self.lookup(key.as_str())
    }
}

} // verus!
