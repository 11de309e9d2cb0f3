use vstd::prelude::*;

use crate::target::address_text;
use crate::text::{concat, first_where, slice_string};

verus! {

/// The values of the host environment that target descriptions read.
pub struct HostEnv {
    /// `GOCACHE`, when it is set.
    pub gocache: Option<String>,
    /// `HOME`, when it is set.
    pub home: Option<String>,
}

/// `rel` joined under `base`, with a '/' between them unless `base` is empty
/// or already ends with one.
pub open spec fn join_path(base: Seq<char>, rel: Seq<char>) -> Seq<char> {
    if base.len() == 0 || base.last() == '/' {
        base + rel
    } else {
        base + seq!['/'] + rel
    }
}

/// Holds of the positions of `s` where "./" starts.
pub open spec fn is_dot_slash(s: Seq<char>) -> spec_fn(int) -> bool {
    |j: int| j + 1 < s.len() && s[j] == '.' && s[j + 1] == '/'
}

/// `s` without its first "./".
pub open spec fn strip_first_dot_slash(s: Seq<char>) -> Seq<char> {
    let k = first_where(0, s.len() as int, is_dot_slash(s));
    if k < s.len() {
        s.take(k) + s.skip(k + 2)
    } else {
        s
    }
}

/// The package of a target found in the directory `path`.
pub open spec fn package_of(path: Seq<char>) -> Seq<char> {
    strip_first_dot_slash(path)
}

/// Where the Go build cache lives: `GOCACHE`, or `.cache/go-build` under
/// `HOME`, or under the root when `HOME` is not set either.
pub open spec fn go_cache_dir(gocache: Option<Seq<char>>, home: Option<Seq<char>>) -> Seq<char> {
    match gocache {
        Some(g) => g,
        None => join_path(
            match home {
                Some(h) => h,
                None => seq!['/'],
            },
            ".cache/go-build"@,
        ),
    }
}

pub open spec fn opt_text(o: Option<String>) -> Option<Seq<char>> {
    match o {
        Some(s) => Some(s@),
        None => None,
    }
}

/// `rel` joined under `base`.
pub fn join(base: &str, rel: &str) -> (r: String)
    ensures
        r@ == join_path(base@, rel@),
{
    let n = base.unicode_len();
    if n == 0 || base.get_char(n - 1) == '/' {
        concat(base, rel)
    } else {
        let mut r = concat(base, "/");
        r.append(rel);
        proof {
            reveal_strlit("/");
        }
        assert(r@ =~= base@ + seq!['/'] + rel@);
        r
    }
}

/// The package of a target found in the directory `path`: the path without
/// its first "./".
pub fn package_name(path: &str) -> (r: String)
    ensures
        r@ == package_of(path@),
{
    let n = path.unicode_len();
    let mut i: usize = 0;
    while i < n
        invariant
            i <= n,
            n == path@.len(),
            first_where(i as int, n as int, is_dot_slash(path@)) == first_where(
                0,
                n as int,
                is_dot_slash(path@),
            ),
        decreases n - i,
    {
        if i + 1 < n && path.get_char(i) == '.' && path.get_char(i + 1) == '/' {
            let mut r = slice_string(path, 0, i);
            r.append(path.substring_char(i + 2, n));
            return r;
        }
        i += 1;
    }
    String::from_str(path)
}

/// The display form `//<package>:<identifier>` of a target in `path`.
fn address_in(path: &str, identifier: &str) -> (r: String)
    ensures
        r@ == address_text(package_of(path@), identifier@),
{
    let mut r = concat("//", package_name(path).as_str());
    r.append(":");
    r.append(identifier);
    proof {
        reveal_strlit("//");
        reveal_strlit(":");
    }
    assert(r@ =~= address_text(package_of(path@), identifier@));
    r
}

/// A program to run, with its arguments, working directory and extra
/// environment variables.
pub struct TestCommand {
    pub program: String,
    pub args: Vec<String>,
    pub dir: String,
    pub env: Vec<(String, String)>,
}

/// A Go module: a directory that holds `go.mod`.
pub struct GoModTarget {
    pub path: String,
}

impl GoModTarget {
    pub fn new(path: &str) -> (r: GoModTarget)
        ensures
            r.path@ == path@,
    {
        GoModTarget { path: String::from_str(path) }
    }

    /// Where `go` keeps its build cache.
    pub fn cache_dir(&self, env: &HostEnv) -> (r: String)
        ensures
            r@ == go_cache_dir(opt_text(env.gocache), opt_text(env.home)),
    {
        match &env.gocache {
            Some(g) => g.clone(),
            None => match &env.home {
                Some(h) => join(h.as_str(), ".cache/go-build"),
                None => {
                    proof {
                        reveal_strlit("/");
                    }
                    assert("/"@ =~= seq!['/']);
                    join("/", ".cache/go-build")
                },
            },
        }
    }

    /// The display form `//<package>:go_mod`.
    pub fn address(&self) -> (r: String)
        ensures
            r@ == address_text(package_of(self.path@), "go_mod"@),
    {
        address_in(self.path.as_str(), "go_mod")
    }

    /// The paths whose content outlives a run: the Go build cache.
    pub fn cache_paths(&self, env: &HostEnv) -> (r: Vec<String>)
        ensures
            r@.len() == 1,
            r@[0]@ == go_cache_dir(opt_text(env.gocache), opt_text(env.home)),
    {
        let mut r: Vec<String> = Vec::new();
        r.push(self.cache_dir(env));
        r
    }

    /// `go test` in the module's directory, with the build cache set.
    pub fn test_command(&self, env: &HostEnv) -> (r: TestCommand)
        ensures
            r.program@ == "go"@,
            r.args@.len() == 1,
            r.args@[0]@ == "test"@,
            r.dir@ == self.path@,
            r.env@.len() == 1,
            r.env@[0].0@ == "GOCACHE"@,
            r.env@[0].1@ == go_cache_dir(opt_text(env.gocache), opt_text(env.home)),
    {
        let mut args: Vec<String> = Vec::new();
        args.push(String::from_str("test"));
        let mut vars: Vec<(String, String)> = Vec::new();
        vars.push((String::from_str("GOCACHE"), self.cache_dir(env)));
        TestCommand {
            program: String::from_str("go"),
            args,
            dir: self.path.clone(),
            env: vars,
        }
    }
}

impl GoModTarget {
    /// What a failed `go test` reports: its standard error.
    pub fn failure_message(&self, stdout: &str, stderr: &str) -> (r: String)
        ensures
            r@ == stderr@,
    {
        String::from_str(stderr)
    }
}

/// A Cargo crate: a directory that holds `Cargo.toml`.
pub struct RustCargoTarget {
    pub path: String,
}

impl RustCargoTarget {
    pub fn new(path: &str) -> (r: RustCargoTarget)
        ensures
            r.path@ == path@,
    {
        RustCargoTarget { path: String::from_str(path) }
    }

    /// The display form `//<package>:rust_crate`.
    pub fn address(&self) -> (r: String)
        ensures
            r@ == address_text(package_of(self.path@), "rust_crate"@),
    {
        address_in(self.path.as_str(), "rust_crate")
    }

    /// The paths whose content outlives a run: the crate's `target` directory.
    pub fn cache_paths(&self) -> (r: Vec<String>)
        ensures
            r@.len() == 1,
            r@[0]@ == join_path(self.path@, "target"@),
    {
        let mut r: Vec<String> = Vec::new();
        r.push(join(self.path.as_str(), "target"));
        r
    }

    /// `cargo test` on the crate's manifest, one job at a time, in colour.
    pub fn test_command(&self) -> (r: TestCommand)
        ensures
            r.program@ == "cargo"@,
            r.args@.len() == 5,
            r.args@[0]@ == "test"@,
            r.args@[1]@ == "--manifest-path"@,
            r.args@[2]@ == join_path(self.path@, "Cargo.toml"@),
            r.args@[3]@ == "--jobs=1"@,
            r.args@[4]@ == "--color=always"@,
            r.dir@ == "."@,
            r.env@.len() == 0,
    {
        let mut args: Vec<String> = Vec::new();
        args.push(String::from_str("test"));
        args.push(String::from_str("--manifest-path"));
        args.push(join(self.path.as_str(), "Cargo.toml"));
        args.push(String::from_str("--jobs=1"));
        args.push(String::from_str("--color=always"));
        TestCommand {
            program: String::from_str("cargo"),
            args,
            dir: String::from_str("."),
            env: Vec::new(),
        }
    }
}

impl RustCargoTarget {
    /// What a failed `cargo test` reports: its standard error, a line break,
    /// and its standard output.
    pub fn failure_message(&self, stdout: &str, stderr: &str) -> (r: String)
        ensures
            r@ == stderr@ + seq!['\n'] + stdout@,
    {
        let mut r = concat(stderr, "\n");
        r.append(stdout);
        proof {
            reveal_strlit("\n");
        }
        assert(r@ =~= stderr@ + seq!['\n'] + stdout@);
        r
    }
}

/// A unit that can be built and tested, found in a directory of the tree.
pub trait Target {
    /// The display form `//<package>:<identifier>`, which names the target's tasks.
    fn address(&self) -> String;

    /// The paths whose content should outlive a run.
    fn cache_paths(&self, env: &HostEnv) -> Vec<String>;

    /// The command that tests the target.
    fn test_command(&self, env: &HostEnv) -> TestCommand;

    /// What a failed test command reports, from its output.
    fn failure_message(&self, stdout: &str, stderr: &str) -> String;
}

impl Target for GoModTarget {
    fn address(&self) -> String {
        GoModTarget::address(self)
    }

    fn cache_paths(&self, env: &HostEnv) -> Vec<String> {
        GoModTarget::cache_paths(self, env)
    }

    fn test_command(&self, env: &HostEnv) -> TestCommand {
        GoModTarget::test_command(self, env)
    }

    fn failure_message(&self, stdout: &str, stderr: &str) -> String {
        GoModTarget::failure_message(self, stdout, stderr)
    }
}

impl Target for RustCargoTarget {
    fn address(&self) -> String {
        RustCargoTarget::address(self)
    }

    fn cache_paths(&self, env: &HostEnv) -> Vec<String> {
        RustCargoTarget::cache_paths(self)
    }

    fn test_command(&self, env: &HostEnv) -> TestCommand {
        RustCargoTarget::test_command(self)
    }

    fn failure_message(&self, stdout: &str, stderr: &str) -> String {
        RustCargoTarget::failure_message(self, stdout, stderr)
    }
}

/// A target of either kind.
pub enum AnyTarget {
    GoMod(GoModTarget),
    RustCargo(RustCargoTarget),
}

impl Target for AnyTarget {
    fn address(&self) -> String {
        match self {
            AnyTarget::GoMod(t) => GoModTarget::address(t),
            AnyTarget::RustCargo(t) => RustCargoTarget::address(t),
        }
    }

    fn cache_paths(&self, env: &HostEnv) -> Vec<String> {
        match self {
            AnyTarget::GoMod(t) => GoModTarget::cache_paths(t, env),
            AnyTarget::RustCargo(t) => RustCargoTarget::cache_paths(t),
        }
    }

    fn test_command(&self, env: &HostEnv) -> TestCommand {
        match self {
            AnyTarget::GoMod(t) => GoModTarget::test_command(t, env),
            AnyTarget::RustCargo(t) => RustCargoTarget::test_command(t),
        }
    }

    fn failure_message(&self, stdout: &str, stderr: &str) -> String {
        match self {
            AnyTarget::GoMod(t) => GoModTarget::failure_message(t, stdout, stderr),
            AnyTarget::RustCargo(t) => RustCargoTarget::failure_message(t, stdout, stderr),
        }
    }
}

/// The file whose presence in a directory marks a Go module.
pub fn go_marker() -> (r: &'static str)
    ensures
        r@ == "go.mod"@,
{
    "go.mod"
}

/// The file whose presence in a directory marks a Cargo crate.
pub fn cargo_marker() -> (r: &'static str)
    ensures
        r@ == "Cargo.toml"@,
{
    "Cargo.toml"
}

/// The targets in the directory `path`, given which marker files it holds:
/// a Go module first, then a Cargo crate.
pub fn discover(path: &str, has_go_mod: bool, has_cargo_toml: bool) -> (r: Vec<AnyTarget>)
    ensures
        r@.len() == (if has_go_mod { 1int } else { 0 }) + (if has_cargo_toml { 1int } else { 0 }),
        has_go_mod ==> (r@[0] matches AnyTarget::GoMod(t) && t.path@ == path@),
        has_cargo_toml ==> (r@[r@.len() - 1] matches AnyTarget::RustCargo(t) && t.path@ == path@),
{
    let mut r: Vec<AnyTarget> = Vec::new();
    if has_go_mod {
        r.push(AnyTarget::GoMod(GoModTarget::new(path)));
    }
    if has_cargo_toml {
        r.push(AnyTarget::RustCargo(RustCargoTarget::new(path)));
    }
    r
}

/// What can be done to every target.
#[derive(Debug, PartialEq, Eq, Clone, Copy, Structural)]
pub enum Action {
    Test,
}

impl Action {
    /// The action's name.
    pub fn to_string(&self) -> (r: String)
        ensures
            r@ == "test"@,
    {
        match self {
            Action::Test => String::from_str("test"),
        }
    }
}

/// The name of the task that performs `action` on the target at `address`:
/// the action's name, a space, and the address.
pub fn task_name(action: Action, address: &str) -> (r: String)
    ensures
        r@ == "test"@ + seq![' '] + address@,
{
    let mut r = action.to_string();
    r.append(" ");
    r.append(address);
    proof {
        reveal_strlit(" ");
    }
    assert(r@ =~= "test"@ + seq![' '] + address@);
    r
}

/// Whether `name` is among the names to skip.
pub fn is_skipped(skip: &Vec<String>, name: &str) -> (r: bool)
    ensures
        r == exists|i: int| 0 <= i < skip@.len() && (#[trigger] skip@[i])@ == name@,
{
    let owned = String::from_str(name);
    let mut i: usize = 0;
    while i < skip.len()
        invariant
            i <= skip@.len(),
            owned@ == name@,
            forall|j: int| 0 <= j < i ==> (#[trigger] skip@[j])@ != name@,
        decreases skip@.len() - i,
    {
        if skip[i] == owned {
            return true;
        }
        i += 1;
    }
    false
}

} // verus!
