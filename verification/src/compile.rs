//! Invoking the compiler on a generated program.
//!
//! A generated program needs two support libraries. Where they lie depends on
//! how this tool was built, so a list of candidate directories is drawn up
//! from the tool's surroundings and the first one that holds both libraries is
//! taken. With no such directory the compiler is run without them, and says
//! itself what is missing. This module decides which directories are looked
//! at, in which order, what is handed to the compiler, and what a finished
//! compilation means; looking at the disk and running the compiler is the
//! caller's part.

use vstd::prelude::*;
use vstd::string::StringExecFns;
use crate::cache::{
    binary_path_text,
    lemma_keys_have_their_own_paths,
    sha256_hex,
    source_path_text,
    Cache,
};
use crate::diagnostic::report_spans;
use crate::error::LobError;
use crate::paint::is_rendering;
use crate::path::{join, join_path};
use crate::suggestion::expr_text;
use crate::text::{begins_at, chars_of, matches_at};

verus! {

/// What the caller knows of the tool's surroundings.
#[derive(Debug)]
pub struct Surroundings {
    /// The directory of the tool's manifest and its ancestors, nearest first.
    /// Empty where no manifest directory is known.
    pub manifest_ancestors: Vec<String>,
    /// The directory of the running executable, where it is known.
    pub exe_dir: Option<String>,
    /// The parent of that directory, where it has one.
    pub exe_dir_parent: Option<String>,
    /// Whether the executable lies in a directory named `deps`, as a test
    /// binary does.
    pub exe_in_deps: bool,
    /// The current working directory and its ancestors, nearest first. Empty
    /// where the working directory is not known.
    pub cwd_ancestors: Vec<String>,
}

/// The two build directories below the first `n` of `dirs`: for each
/// directory its `target/debug`, then its `target/release`.
pub open spec fn build_dirs(dirs: Seq<Seq<char>>, n: int) -> Seq<Seq<char>>
    decreases n,
{
    if n <= 0 {
        Seq::empty()
    } else {
        build_dirs(dirs, n - 1) + seq![
            join(dirs[n - 1], "target/debug"@),
            join(dirs[n - 1], "target/release"@),
        ]
    }
}

/// The candidates that the executable's place gives: for a test binary the
/// directory above it; then the `debug` and `release` directories beside its
/// own; then its own.
pub open spec fn exe_roots(
    exe_dir: Option<Seq<char>>,
    parent: Option<Seq<char>>,
    in_deps: bool,
) -> Seq<Seq<char>> {
    match exe_dir {
        None => Seq::empty(),
        Some(dir) => (match parent {
            Some(p) => (if in_deps {
                seq![p]
            } else {
                Seq::empty()
            }) + seq![join(p, "debug"@), join(p, "release"@)],
            None => Seq::empty(),
        }) + seq![dir],
    }
}

/// A text that may be missing, as plain text.
pub open spec fn opt_text(s: Option<String>) -> Option<Seq<char>> {
    match s {
        Some(t) => Some(t@),
        None => None,
    }
}

/// The candidate directories, in the order in which they are tried: below
/// the manifest directory and its ancestors; around the executable; below the
/// working directory; below the working directory and its ancestors.
pub open spec fn candidate_roots_of(s: Surroundings) -> Seq<Seq<char>> {
    let manifest = s.manifest_ancestors.deep_view();
    let cwd = s.cwd_ancestors.deep_view();
    build_dirs(manifest, manifest.len() as int) + exe_roots(
        opt_text(s.exe_dir),
        opt_text(s.exe_dir_parent),
        s.exe_in_deps,
    ) + build_dirs(cwd, if cwd.len() > 0 {
        1
    } else {
        0
    }) + build_dirs(cwd, cwd.len() as int)
}

/// What the caller found at one candidate directory.
#[derive(Debug)]
pub struct Candidate {
    /// The directory.
    pub root: String,
    /// Whether it holds the prelude library under its plain name.
    pub has_prelude: bool,
    /// Whether it holds the core library under its plain name.
    pub has_core: bool,
    /// The names of the files in its `deps` directory.
    pub deps: Vec<String>,
}

/// What a `Candidate` holds, as plain text.
pub struct CandidateText {
    pub root: Seq<char>,
    pub has_prelude: bool,
    pub has_core: bool,
    pub deps: Seq<Seq<char>>,
}

impl DeepView for Candidate {
    type V = CandidateText;

    open spec fn deep_view(&self) -> CandidateText {
        CandidateText {
            root: self.root@,
            has_prelude: self.has_prelude,
            has_core: self.has_core,
            deps: self.deps.deep_view(),
        }
    }
}

/// Where the support libraries lie.
#[derive(Debug)]
pub struct Artifacts {
    /// The prelude library.
    pub prelude: String,
    /// The core library.
    pub core: String,
    /// The directory in which the compiler looks for what they depend on.
    pub deps_dir: String,
}

/// What `Artifacts` holds, as plain text.
pub struct ArtifactsText {
    pub prelude: Seq<char>,
    pub core: Seq<char>,
    pub deps_dir: Seq<char>,
}

impl View for Artifacts {
    type V = ArtifactsText;

    open spec fn view(&self) -> ArtifactsText {
        ArtifactsText { prelude: self.prelude@, core: self.core@, deps_dir: self.deps_dir@ }
    }
}

/// `name` ends with `suffix`.
pub open spec fn ends_with(name: Seq<char>, suffix: Seq<char>) -> bool {
    matches_at(name, suffix, name.len() - suffix.len())
}

/// `name` is a library file that a test build wrote: `prefix`, which ends in
/// a hyphen, then a hash, then the extension.
pub open spec fn is_hashed(name: Seq<char>, prefix: Seq<char>) -> bool {
    &&& matches_at(name, prefix, 0)
    &&& ends_with(name, ".rlib"@)
    &&& name.len() > prefix.len() + ".rlib"@.len()
}

/// The index of the first of the first `n` names that is a hashed library
/// file for `prefix`, or `n`.
pub open spec fn first_hashed(names: Seq<Seq<char>>, prefix: Seq<char>, n: int) -> int
    decreases n,
{
    if n <= 0 {
        0
    } else if first_hashed(names, prefix, n - 1) < n - 1 {
        first_hashed(names, prefix, n - 1)
    } else if is_hashed(names[n - 1], prefix) {
        n - 1
    } else {
        n
    }
}

/// Where a library lies at a candidate: under its plain name if that is
/// there, else under the first hashed name in `deps`, else nowhere.
pub open spec fn library_at(
    c: CandidateText,
    direct: bool,
    plain_name: Seq<char>,
    prefix: Seq<char>,
) -> Option<Seq<char>> {
    if direct {
        Some(join(c.root, plain_name))
    } else {
        let k = first_hashed(c.deps, prefix, c.deps.len() as int);
        if k < c.deps.len() {
            Some(join(join(c.root, "deps"@), c.deps[k]))
        } else {
            None
        }
    }
}

/// Where the prelude library lies at a candidate.
pub open spec fn prelude_at(c: CandidateText) -> Option<Seq<char>> {
    library_at(c, c.has_prelude, "liblob_prelude.rlib"@, "liblob_prelude-"@)
}

/// Where the core library lies at a candidate.
pub open spec fn core_at(c: CandidateText) -> Option<Seq<char>> {
    library_at(c, c.has_core, "liblob_core.rlib"@, "liblob_core-"@)
}

/// The libraries at a candidate, if it holds both.
pub open spec fn artifacts_at(c: CandidateText) -> Option<ArtifactsText> {
    match (prelude_at(c), core_at(c)) {
        (Some(prelude), Some(core)) => Some(
            ArtifactsText { prelude, core, deps_dir: join(c.root, "deps"@) },
        ),
        _ => None,
    }
}

/// The index of the first of the first `n` candidates that holds both
/// libraries, or `n`.
pub open spec fn first_satisfied(candidates: Seq<CandidateText>, n: int) -> int
    decreases n,
{
    if n <= 0 {
        0
    } else if first_satisfied(candidates, n - 1) < n - 1 {
        first_satisfied(candidates, n - 1)
    } else if artifacts_at(candidates[n - 1]) is Some {
        n - 1
    } else {
        n
    }
}

/// The libraries of the first candidate that holds both.
pub open spec fn resolved_artifacts(candidates: Seq<CandidateText>) -> Option<ArtifactsText> {
    let k = first_satisfied(candidates, candidates.len() as int);
    if k < candidates.len() {
        artifacts_at(candidates[k])
    } else {
        None
    }
}

/// `first_satisfied` is the least index of a candidate that holds both
/// libraries: the candidates before it hold at most one.
pub proof fn lemma_first_satisfied(candidates: Seq<CandidateText>, n: int)
    requires
        0 <= n,
    ensures
        0 <= first_satisfied(candidates, n) <= n,
        forall|i: int|
            0 <= i < first_satisfied(candidates, n) ==> artifacts_at(#[trigger] candidates[i])
                is None,
        first_satisfied(candidates, n) < n ==> artifacts_at(
            candidates[first_satisfied(candidates, n)],
        ) is Some,
    decreases n,
{
    if n > 0 {
        lemma_first_satisfied(candidates, n - 1);
    }
}

/// A search that finds nothing means that no candidate holds both libraries.
pub proof fn lemma_unresolved_means_none_satisfied(candidates: Seq<CandidateText>)
    requires
        resolved_artifacts(candidates) is None,
    ensures
        forall|i: int|
            0 <= i < candidates.len() ==> artifacts_at(#[trigger] candidates[i]) is None,
{
    lemma_first_satisfied(candidates, candidates.len() as int);
}

fn push_build_dirs(out: &mut Vec<String>, dirs: &Vec<String>, n: usize)
    requires
        n <= dirs.len(),
    ensures
        final(out).deep_view() == old(out).deep_view() + build_dirs(dirs.deep_view(), n as int),
{
    let ghost before = out.deep_view();
    assert(before + Seq::<Seq<char>>::empty() =~= before);
    let mut i: usize = 0;
    while i < n
        invariant
            0 <= i <= n <= dirs.len(),
            out.deep_view() == before + build_dirs(dirs.deep_view(), i as int),
        decreases n - i,
    {
        let ghost so_far = out.deep_view();
        let debug = join_path(dirs[i].as_str(), "target/debug");
        let release = join_path(dirs[i].as_str(), "target/release");
        out.push(debug);
        out.push(release);
        assert(out.deep_view() =~= so_far + seq![
            join(dirs.deep_view()[i as int], "target/debug"@),
            join(dirs.deep_view()[i as int], "target/release"@),
        ]);
        assert(out.deep_view() =~= before + build_dirs(dirs.deep_view(), i + 1));
        i += 1;
    }
}

/// Draws up the candidate directories, in the order in which they are tried.
pub fn candidate_roots(s: &Surroundings) -> (roots: Vec<String>)
    ensures
        roots.deep_view() == candidate_roots_of(*s),
{
    let mut roots: Vec<String> = Vec::new();
    assert(roots.deep_view() =~= Seq::<Seq<char>>::empty());
    push_build_dirs(&mut roots, &s.manifest_ancestors, s.manifest_ancestors.len());
    let ghost first = roots.deep_view();
    if let Some(dir) = &s.exe_dir {
        if let Some(parent) = &s.exe_dir_parent {
            if s.exe_in_deps {
                roots.push(parent.clone());
            }
            roots.push(join_path(parent.as_str(), "debug"));
            roots.push(join_path(parent.as_str(), "release"));
        }
        roots.push(dir.clone());
    }
    assert(roots.deep_view() =~= first + exe_roots(
        opt_text(s.exe_dir),
        opt_text(s.exe_dir_parent),
        s.exe_in_deps,
    ));
    let near: usize = if s.cwd_ancestors.len() > 0 {
        1
    } else {
        0
    };
    push_build_dirs(&mut roots, &s.cwd_ancestors, near);
    push_build_dirs(&mut roots, &s.cwd_ancestors, s.cwd_ancestors.len());
    roots
}

fn name_is_hashed(name: &str, prefix: &str) -> (b: bool)
    ensures
        b == is_hashed(name@, prefix@),
{
    let cs = chars_of(name);
    let p = chars_of(prefix);
    let ext = chars_of(".rlib");
    if !begins_at(&cs, 0, prefix) {
        return false;
    }
    if cs.len() < ext.len() || cs.len() - ext.len() <= p.len() {
        proof {
            if cs.len() < ext.len() {
                assert(!ends_with(name@, ".rlib"@));
            }
        }
        return false;
    }
    begins_at(&cs, cs.len() - ext.len(), ".rlib")
}

fn find_hashed(names: &Vec<String>, prefix: &str) -> (k: usize)
    ensures
        k == first_hashed(names.deep_view(), prefix@, names.len() as int),
        k <= names.len(),
{
    let mut i: usize = 0;
    while i < names.len()
        invariant
            0 <= i <= names.len(),
            first_hashed(names.deep_view(), prefix@, i as int) == i,
        decreases names.len() - i,
    {
        if name_is_hashed(names[i].as_str(), prefix) {
            proof {
                lemma_first_hashed_stays(names.deep_view(), prefix@, i as int, names.len() as int);
            }
            return i;
        }
        i += 1;
    }
    i
}

proof fn lemma_first_hashed_stays(names: Seq<Seq<char>>, prefix: Seq<char>, k: int, n: int)
    requires
        0 <= k < n,
        first_hashed(names, prefix, k) == k,
        is_hashed(names[k], prefix),
    ensures
        first_hashed(names, prefix, n) == k,
    decreases n,
{
    if n > k + 1 {
        lemma_first_hashed_stays(names, prefix, k, n - 1);
    }
}

proof fn lemma_first_satisfied_stays(candidates: Seq<CandidateText>, k: int, n: int)
    requires
        0 <= k < n,
        first_satisfied(candidates, k) == k,
        artifacts_at(candidates[k]) is Some,
    ensures
        first_satisfied(candidates, n) == k,
    decreases n,
{
    if n > k + 1 {
        lemma_first_satisfied_stays(candidates, k, n - 1);
    }
}

fn find_library(c: &Candidate, direct: bool, plain_name: &str, prefix: &str) -> (r: Option<String>)
    ensures
        opt_text(r) == library_at(c.deep_view(), direct, plain_name@, prefix@),
{
    if direct {
        Some(join_path(c.root.as_str(), plain_name))
    } else {
        let k = find_hashed(&c.deps, prefix);
        if k < c.deps.len() {
            Some(join_path(join_path(c.root.as_str(), "deps").as_str(), c.deps[k].as_str()))
        } else {
            None
        }
    }
}

/// The support libraries at one candidate directory, if it holds both.
pub fn artifacts_in(c: &Candidate) -> (r: Option<Artifacts>)
    ensures
        r is Some <==> artifacts_at(c.deep_view()) is Some,
        r matches Some(a) ==> Some(a@) == artifacts_at(c.deep_view()),
{
    let prelude = find_library(c, c.has_prelude, "liblob_prelude.rlib", "liblob_prelude-");
    let core = find_library(c, c.has_core, "liblob_core.rlib", "liblob_core-");
    match (prelude, core) {
        (Some(prelude), Some(core)) => Some(
            Artifacts { prelude, core, deps_dir: join_path(c.root.as_str(), "deps") },
        ),
        _ => None,
    }
}

/// Picks the support libraries: those of the first candidate that holds
/// both. Nothing is picked where no candidate does.
pub fn resolve_artifacts(candidates: &Vec<Candidate>) -> (r: Option<Artifacts>)
    ensures
        r is Some <==> resolved_artifacts(candidates.deep_view()) is Some,
        r matches Some(a) ==> Some(a@) == resolved_artifacts(candidates.deep_view()),
{
    let mut i: usize = 0;
    while i < candidates.len()
        invariant
            0 <= i <= candidates.len(),
            first_satisfied(candidates.deep_view(), i as int) == i,
        decreases candidates.len() - i,
    {
        let found = artifacts_in(&candidates[i]);
        if found.is_some() {
            proof {
                lemma_first_satisfied_stays(
                    candidates.deep_view(),
                    i as int,
                    candidates.len() as int,
                );
            }
            return found;
        }
        i += 1;
    }
    None
}

/// The outcome of asking the system's compiler for its version.
#[derive(Clone, Copy, Debug, PartialEq, Eq, Structural)]
pub enum Probe {
    /// It could not be started.
    NotFound,
    /// It ran and reported failure.
    Failed,
    /// It ran and reported success.
    Works,
}

/// A compiled program: where its binary lies, and whether it was found in
/// the cache.
#[derive(Debug)]
pub struct CompileResult {
    pub binary_path: String,
    pub cache_hit: bool,
}

/// What is to be compiled on a cache miss.
#[derive(Debug)]
pub struct Build {
    /// The key of the source.
    pub key: String,
    /// Where the source is to be written.
    pub source_path: String,
    /// Where the compiler is to write the binary.
    pub binary_path: String,
}

/// What is to be done about a generated program.
#[derive(Debug)]
pub enum CachePlan {
    /// Its binary is in the cache: run it.
    Hit(CompileResult),
    /// It is not: compile it.
    Miss(Build),
}

/// The binary that a plan is about.
pub open spec fn planned_binary(plan: CachePlan) -> Seq<char> {
    match plan {
        CachePlan::Hit(result) => result.binary_path@,
        CachePlan::Miss(build) => build.binary_path@,
    }
}

/// `plan` is the plan for the program `source` in the cache at `root`, where
/// `binary_exists` says whether the binary for the source's key is there. A
/// binary that is there is the result, and counts as a cache hit. One that is
/// not is to be built: the source goes to the source path of its key and the
/// binary to the binary path.
pub open spec fn is_plan_for(
    plan: CachePlan,
    root: Seq<char>,
    source: Seq<char>,
    binary_exists: bool,
) -> bool {
    let key = sha256_hex(source);
    match plan {
        CachePlan::Hit(result) => {
            &&& binary_exists
            &&& result.cache_hit
            &&& result.binary_path@ == binary_path_text(root, key)
        },
        CachePlan::Miss(build) => {
            &&& !binary_exists
            &&& build.key@ == key
            &&& build.source_path@ == source_path_text(root, key)
            &&& build.binary_path@ == binary_path_text(root, key)
        },
    }
}

/// Decides what is to be done about the program `source`, before any
/// compiler is looked for: a binary that is in the cache needs none.
/// `binary_exists` answers for the binary path of the source's key.
pub fn plan_for(source: &str, cache: &Cache, binary_exists: bool) -> (plan: CachePlan)
    ensures
        is_plan_for(plan, cache.root(), source@, binary_exists),
{
    let key = cache.hash_source(source);
    match cache.get_binary(key.as_str(), binary_exists) {
        Some(binary_path) => CachePlan::Hit(CompileResult { binary_path, cache_hit: true }),
        None => {
            let source_path = cache.source_path(key.as_str());
            let binary_path = cache.binary_path(key.as_str());
            CachePlan::Miss(Build { key, source_path, binary_path })
        },
    }
}

/// A compiler: its executable and, where it does not find its own, the root
/// of its standard library.
#[derive(Debug)]
pub struct Compiler {
    rustc_path: String,
    sysroot: Option<String>,
}

/// The arguments that every compilation gets.
pub open spec fn fixed_arguments(source_path: Seq<char>, output_path: Seq<char>) -> Seq<
    Seq<char>,
> {
    seq![
        "--edition=2021"@,
        "-C"@,
        "opt-level=3"@,
        "--crate-type"@,
        "bin"@,
        "-o"@,
        output_path,
        source_path,
    ]
}

/// The arguments that link the support libraries, where they were found.
pub open spec fn link_arguments(artifacts: Option<ArtifactsText>) -> Seq<Seq<char>> {
    match artifacts {
        Some(a) => seq![
            "--extern"@,
            "lob_prelude="@ + a.prelude,
            "--extern"@,
            "lob_core="@ + a.core,
            "-L"@,
            "dependency="@ + a.deps_dir,
        ],
        None => Seq::empty(),
    }
}

/// The arguments that point the compiler at its standard library, where that
/// is needed.
pub open spec fn sysroot_arguments(sysroot: Option<Seq<char>>) -> Seq<Seq<char>> {
    match sysroot {
        Some(root) => seq!["--sysroot"@, root],
        None => Seq::empty(),
    }
}

/// What `Option<Artifacts>` holds, as plain text.
pub open spec fn artifacts_text(artifacts: Option<Artifacts>) -> Option<ArtifactsText> {
    match artifacts {
        Some(a) => Some(a@),
        None => None,
    }
}

impl Compiler {
    /// The compiler's executable.
    pub closed spec fn program(&self) -> Seq<char> {
        self.rustc_path@
    }

    /// The root of the compiler's standard library, where it is set.
    pub closed spec fn library_root(&self) -> Option<Seq<char>> {
        opt_text(self.sysroot)
    }

    /// The system's compiler, if the probe found it working.
    pub fn system(probe: Probe) -> (r: Result<Self, LobError>)
        ensures
            match probe {
                Probe::Works => r matches Ok(c) && c.program() == "rustc"@ && c.library_root()
                    is None,
                Probe::Failed => r matches Err(e) && e matches LobError::Toolchain(m) && m@
                    == "rustc not working properly"@,
                Probe::NotFound => r matches Err(e) && e matches LobError::Toolchain(m) && m@
                    == "rustc not found. Please install Rust from https://rustup.rs/"@,
            },
    {
        match probe {
            Probe::Works => Ok(Compiler { rustc_path: String::from_str("rustc"), sysroot: None }),
            Probe::Failed => Err(
                LobError::Toolchain(String::from_str("rustc not working properly")),
            ),
            Probe::NotFound => Err(
                LobError::Toolchain(
                    String::from_str(
                        "rustc not found. Please install Rust from https://rustup.rs/",
                    ),
                ),
            ),
        }
    }

    /// A compiler at `rustc_path`, with the root of its standard library.
    pub fn custom(rustc_path: String, sysroot: Option<String>) -> (c: Self)
        ensures
            c.program() == rustc_path@,
            c.library_root() == opt_text(sysroot),
    {
        Compiler { rustc_path, sysroot }
    }

    /// The compiler's executable.
    pub fn rustc_path(&self) -> (path: &String)
        ensures
            path@ == self.program(),
    {
        &self.rustc_path
    }

    /// The root of the compiler's standard library, where it is set.
    pub fn sysroot(&self) -> (root: &Option<String>)
        ensures
            opt_text(*root) == self.library_root(),
    {
        &self.sysroot
    }

    /// The arguments with which the compiler is run: the fixed ones, then
    /// the support libraries where they were found, then the root of the
    /// standard library where it is set.
    pub fn arguments(
        &self,
        source_path: &str,
        output_path: &str,
        artifacts: &Option<Artifacts>,
    ) -> (args: Vec<String>)
        ensures
            args.deep_view() == fixed_arguments(source_path@, output_path@) + link_arguments(
                artifacts_text(*artifacts),
            ) + sysroot_arguments(self.library_root()),
    {
        let mut args: Vec<String> = Vec::new();
        args.push(String::from_str("--edition=2021"));
        args.push(String::from_str("-C"));
        args.push(String::from_str("opt-level=3"));
        args.push(String::from_str("--crate-type"));
        args.push(String::from_str("bin"));
        args.push(String::from_str("-o"));
        args.push(String::from_str(output_path));
        args.push(String::from_str(source_path));
        assert(args.deep_view() =~= fixed_arguments(source_path@, output_path@));
        let ghost fixed = args.deep_view();
        if let Some(a) = artifacts {
            args.push(String::from_str("--extern"));
            args.push(String::from_str("lob_prelude=").concat(a.prelude.as_str()));
            args.push(String::from_str("--extern"));
            args.push(String::from_str("lob_core=").concat(a.core.as_str()));
            args.push(String::from_str("-L"));
            args.push(String::from_str("dependency=").concat(a.deps_dir.as_str()));
        }
        assert(args.deep_view() =~= fixed + link_arguments(artifacts_text(*artifacts)));
        let ghost linked = args.deep_view();
        if let Some(root) = &self.sysroot {
            args.push(String::from_str("--sysroot"));
            args.push(root.clone());
        }
        assert(args.deep_view() =~= linked + sysroot_arguments(self.library_root()));
        args
    }

    /// What a finished compilation means. Success is success; on failure the
    /// error carries the report on the compiler's diagnostic text `stderr`,
    /// rendered for the terminal, and never the text itself.
    pub fn compile(success: bool, stderr: &str, user_expr: Option<&str>) -> (r: Result<
        (),
        LobError,
    >)
        ensures
            r is Ok <==> success,
            r matches Err(e) ==> e matches LobError::Compilation(message) && is_rendering(
                report_spans(stderr@, expr_text(user_expr)),
                message@,
            ),
    {
        if success {
            Ok(())
        } else {
            Err(LobError::Compilation(LobError::format_compilation_error(stderr, user_expr)))
        }
    }

    /// Decides what is to be done about the program `source`: with its
    /// binary in the cache, that binary is the result; without, the source
    /// is to be stored and compiled. `binary_exists` answers for the binary
    /// path of the source's key.
    pub fn compile_and_cache(&self, source: &str, cache: &Cache, binary_exists: bool) -> (plan:
        CachePlan)
        ensures
            is_plan_for(plan, cache.root(), source@, binary_exists),
    {
        plan_for(source, cache, binary_exists)
    }

    /// The result of a build whose compilation has finished: its binary,
    /// freshly compiled, or the compilation's error.
    pub fn finish(build: Build, compiled: Result<(), LobError>) -> (r: Result<
        CompileResult,
        LobError,
    >)
        ensures
            match compiled {
                Ok(_) => r matches Ok(result) && !result.cache_hit && result.binary_path
                    == build.binary_path,
                Err(e) => r == Err::<CompileResult, LobError>(e),
            },
    {
        match compiled {
            Ok(_) => Ok(CompileResult { binary_path: build.binary_path, cache_hit: false }),
            Err(e) => Err(e),
        }
    }
}

/// Compiling the same source twice gives the same binary path both times,
/// and the second time, with the binary in place, reports a cache hit.
pub proof fn lemma_second_compile_hits(
    first: CachePlan,
    second: CachePlan,
    root: Seq<char>,
    source: Seq<char>,
    found_first: bool,
)
    requires
        is_plan_for(first, root, source, found_first),
        is_plan_for(second, root, source, true),
    ensures
        planned_binary(first) == planned_binary(second),
        second matches CachePlan::Hit(result) && result.cache_hit,
{
}

/// Programs with different keys are kept apart: their plans name different
/// binaries, and building one writes neither the source nor the binary of
/// the other. That two given programs have different keys is for the digest
/// to say.
pub proof fn lemma_plans_keep_programs_apart(
    one: CachePlan,
    other: CachePlan,
    root: Seq<char>,
    source_one: Seq<char>,
    source_other: Seq<char>,
    found_one: bool,
    found_other: bool,
)
    requires
        is_plan_for(one, root, source_one, found_one),
        is_plan_for(other, root, source_other, found_other),
        sha256_hex(source_one) != sha256_hex(source_other),
    ensures
        planned_binary(one) != planned_binary(other),
        other matches CachePlan::Miss(build) ==> build.binary_path@ != binary_path_text(
            root,
            sha256_hex(source_one),
        ) && build.source_path@ != source_path_text(root, sha256_hex(source_one)),
{
    lemma_keys_have_their_own_paths(root, sha256_hex(source_one), sha256_hex(source_other));
}

/// A binary that is in the cache is never compiled again.
pub proof fn lemma_hit_compiles_nothing(plan: CachePlan, root: Seq<char>, source: Seq<char>)
    requires
        is_plan_for(plan, root, source, true),
    ensures
        !(plan is Miss),
{
}

} // verus!
