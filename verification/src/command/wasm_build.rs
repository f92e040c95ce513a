//! The `build` command: its options, its modes, and the plan of steps that a
//! build runs.
use vstd::prelude::*;
use crate::command::utils::{pkg_name, spec_is_pkg_directory, PathStatus};
use crate::error::Error;
use crate::path::{
    join, last_component_at, spec_join, ends_with_component,
    lemma_join_keeps_last_component, prefix_len, prefix_verbatim, PathStyle,
};

verus! {

/// The `BuildMode` determines which mode of initialization we are running, and
/// what build and install steps we perform.
#[derive(Clone, Copy, Debug, PartialEq, Eq, Structural)]
pub enum BuildMode {
    /// Perform all the build and install steps.
    Normal,
    /// Don't install tools like `wasm-bindgen`, just use the global
    /// environment's existing versions to do builds.
    Noinstall,
    /// Skip the rustc version check
    Force,
}

/// The mode that a build runs in unless told otherwise.
pub open spec fn default_build_mode() -> BuildMode {
    BuildMode::Normal
}

impl Default for BuildMode {
    fn default() -> (mode: BuildMode)
        ensures
            mode == default_build_mode(),
    {
        BuildMode::Normal
    }
}

/// The mode that the text `s` names, if it names one.
pub open spec fn parsed_build_mode(s: Seq<char>) -> Option<BuildMode> {
    if s == "no-install"@ {
        Some(BuildMode::Noinstall)
    } else if s == "normal"@ {
        Some(BuildMode::Normal)
    } else if s == "force"@ {
        Some(BuildMode::Force)
    } else {
        None
    }
}

/// The message given for text that names no mode.
pub open spec fn unknown_mode_message(s: Seq<char>) -> Seq<char> {
    "Unknown build mode: "@ + s
}

impl BuildMode {
    /// Reads a build mode from its name: `no-install`, `normal` or `force`.
    /// Any other text is a crate configuration error.
    pub fn parse(s: &str) -> (mode: Result<BuildMode, Error>)
        ensures
            match parsed_build_mode(s@) {
                Some(m) => mode == Ok::<BuildMode, Error>(m),
                None => mode matches Err(Error::CrateConfig { message }) && message@
                    == unknown_mode_message(s@),
            },
    {
        if crate::path::str_equal(s, "no-install") {
            Ok(BuildMode::Noinstall)
        } else if crate::path::str_equal(s, "normal") {
            Ok(BuildMode::Normal)
        } else if crate::path::str_equal(s, "force") {
            Ok(BuildMode::Force)
        } else {
            let message = String::from_str("Unknown build mode: ").concat(s);
            Err(Error::CrateConfig { message })
        }
    }
}

impl std::str::FromStr for BuildMode {
    type Err = Error;

    fn from_str(s: &str) -> (mode: Result<BuildMode, Error>)
        ensures
            match parsed_build_mode(s@) {
                Some(m) => mode == Ok::<BuildMode, Error>(m),
                None => mode matches Err(Error::CrateConfig { message }) && message@
                    == unknown_mode_message(s@),
            },
    {
        BuildMode::parse(s)
    }
}

/// Whether a build in `mode` may install `wasm-bindgen-cli` itself.
pub open spec fn spec_install_permitted(mode: BuildMode) -> bool {
    mode != BuildMode::Noinstall
}

/// Whether a build in `mode` may install `wasm-bindgen-cli` itself.
pub fn install_permitted(mode: BuildMode) -> (permitted: bool)
    ensures
        permitted == spec_install_permitted(mode),
{
    match mode {
        BuildMode::Normal => true,
        BuildMode::Force => true,
        BuildMode::Noinstall => false,
    }
}

/// Everything required to configure and run the `wasm-pack build` command.
#[derive(Debug)]
pub struct BuildOptions {
    /// The path to the Rust crate.
    pub path: Option<String>,
    /// The npm scope to use in package.json, if any.
    pub scope: Option<String>,
    /// Sets steps to be run. [possible values: no-install, normal]
    pub mode: BuildMode,
    /// By default a *.d.ts file is generated for the generated JS file, but
    /// this flag will disable generating this TypeScript file.
    pub disable_dts: bool,
    /// Sets the target environment. [possible values: browser, nodejs]
    pub target: String,
    /// Build without --release.
    pub debug: bool,
    /// Sets the output directory with a relative path.
    pub out_dir: String,
}

/// Everything required to configure and run the `wasm-pack build` command,
/// once the crate's path and name are known.
#[derive(Debug)]
pub struct Build {
    /// The canonical path of the crate.
    pub crate_path: String,
    /// The npm scope to use in package.json, if any.
    pub scope: Option<String>,
    /// No TypeScript declarations are generated.
    pub disable_dts: bool,
    /// The target environment.
    pub target: String,
    /// Build without --release.
    pub debug: bool,
    /// The steps that are run.
    pub mode: BuildMode,
    /// The crate's name, from its manifest.
    pub crate_name: String,
    /// Where the package is written.
    pub out_dir: String,
}

impl Build {
    /// Constructs a build command from the given options, the crate's
    /// canonical path and the crate's name: the output directory is the
    /// requested one joined onto the crate path.
    pub fn from_opts(
        style: PathStyle,
        build_opts: BuildOptions,
        crate_path: String,
        crate_name: String,
    ) -> (build: Build)
        ensures
            build.crate_path@ == crate_path@,
            build.scope == build_opts.scope,
            build.disable_dts == build_opts.disable_dts,
            build.target == build_opts.target,
            build.debug == build_opts.debug,
            build.mode == build_opts.mode,
            build.crate_name@ == crate_name@,
            build.out_dir@ == spec_join(style, crate_path@, build_opts.out_dir@),
    {
        let out_dir = join(style, crate_path.as_str(), build_opts.out_dir.as_str());
        Build {
            crate_path,
            scope: build_opts.scope,
            disable_dts: build_opts.disable_dts,
            target: build_opts.target,
            debug: build_opts.debug,
            mode: build_opts.mode,
            crate_name,
            out_dir,
        }
    }
}

/// One step of a build.
#[derive(Clone, Copy, Debug, PartialEq, Eq, Structural)]
pub enum BuildStep {
    /// Check that rustc is recent enough.
    CheckRustcVersion,
    /// Check the crate's configuration.
    CheckCrateConfig,
    /// Add the wasm32 target with rustup.
    AddWasmTarget,
    /// Build the crate for wasm.
    BuildWasm,
    /// Create the package directory.
    CreateDir,
    /// Write the package.json.
    CreateJson,
    /// Copy the crate's readme.
    CopyReadme,
    /// Install wasm-bindgen-cli.
    InstallWasmBindgen,
    /// Run wasm-bindgen.
    RunWasmBindgen,
}

/// The steps that a build in `mode` runs, in order.
pub open spec fn spec_process_steps(mode: BuildMode) -> Seq<BuildStep> {
    match mode {
        BuildMode::Normal => seq![
            BuildStep::CheckRustcVersion,
            BuildStep::CheckCrateConfig,
            BuildStep::AddWasmTarget,
            BuildStep::BuildWasm,
            BuildStep::CreateDir,
            BuildStep::CreateJson,
            BuildStep::CopyReadme,
            BuildStep::InstallWasmBindgen,
            BuildStep::RunWasmBindgen,
        ],
        BuildMode::Noinstall => seq![
            BuildStep::CheckRustcVersion,
            BuildStep::CheckCrateConfig,
            BuildStep::BuildWasm,
            BuildStep::CreateDir,
            BuildStep::CreateJson,
            BuildStep::CopyReadme,
            BuildStep::RunWasmBindgen,
        ],
        BuildMode::Force => seq![
            BuildStep::BuildWasm,
            BuildStep::CreateDir,
            BuildStep::CreateJson,
            BuildStep::CopyReadme,
            BuildStep::RunWasmBindgen,
        ],
    }
}

/// The steps that a build in `mode` runs, in order.
pub fn get_process_steps(mode: BuildMode) -> (steps: Vec<BuildStep>)
    ensures
        steps@ == spec_process_steps(mode),
{
    let mut steps: Vec<BuildStep> = Vec::new();
    match mode {
        BuildMode::Normal => {
            steps.push(BuildStep::CheckRustcVersion);
            steps.push(BuildStep::CheckCrateConfig);
            steps.push(BuildStep::AddWasmTarget);
            steps.push(BuildStep::BuildWasm);
            steps.push(BuildStep::CreateDir);
            steps.push(BuildStep::CreateJson);
            steps.push(BuildStep::CopyReadme);
            steps.push(BuildStep::InstallWasmBindgen);
            steps.push(BuildStep::RunWasmBindgen);
        },
        BuildMode::Noinstall => {
            steps.push(BuildStep::CheckRustcVersion);
            steps.push(BuildStep::CheckCrateConfig);
            steps.push(BuildStep::BuildWasm);
            steps.push(BuildStep::CreateDir);
            steps.push(BuildStep::CreateJson);
            steps.push(BuildStep::CopyReadme);
            steps.push(BuildStep::RunWasmBindgen);
        },
        BuildMode::Force => {
            steps.push(BuildStep::BuildWasm);
            steps.push(BuildStep::CreateDir);
            steps.push(BuildStep::CreateJson);
            steps.push(BuildStep::CopyReadme);
            steps.push(BuildStep::RunWasmBindgen);
        },
    }
    assert(steps@ =~= spec_process_steps(mode));
    steps
}

/// The progress of a build through its plan: the steps still to run come
/// in order, and a build that stops at a failing step never runs a later one.
pub struct BuildRun {
    steps: Vec<BuildStep>,
    done: usize,
}

impl BuildRun {
    #[verifier::type_invariant]
    spec fn well_formed(self) -> bool {
        self.done <= self.steps@.len()
    }

    /// The steps of the plan, in order.
    pub closed spec fn plan(self) -> Seq<BuildStep> {
        self.steps@
    }

    /// How many steps of the plan have completed.
    pub closed spec fn completed(self) -> nat {
        self.done as nat
    }

    /// A run of a build in `mode` that has completed no step yet.
    pub fn new(mode: BuildMode) -> (run: BuildRun)
        ensures
            run.plan() == spec_process_steps(mode),
            run.completed() == 0,
    {
        BuildRun { steps: get_process_steps(mode), done: 0 }
    }

    /// The number of steps in the plan.
    pub fn total_steps(&self) -> (total: usize)
        ensures
            total == self.plan().len(),
    {
        self.steps.len()
    }

    /// The number of steps that have completed.
    pub fn completed_steps(&self) -> (n: usize)
        ensures
            n == self.completed(),
            n <= self.plan().len(),
    {
        proof {
            use_type_invariant(self);
        }
        self.done
    }

    /// The step to run next, or `None` once every step has completed.
    pub fn next_step(&self) -> (step: Option<BuildStep>)
        ensures
            self.completed() < self.plan().len() ==> step == Some(self.plan()[self.completed() as int]),
            self.completed() >= self.plan().len() ==> step is None,
    {
        proof {
            use_type_invariant(self);
        }
        if self.done < self.steps.len() {
            Some(self.steps[self.done])
        } else {
            None
        }
    }

    /// Records that the step returned by `next_step` completed.
    pub fn complete_step(&mut self)
        requires
            old(self).completed() < old(self).plan().len(),
        ensures
            final(self).plan() == old(self).plan(),
            final(self).completed() == old(self).completed() + 1,
    {
        proof {
            use_type_invariant(&*self);
            assert(self.done < self.steps.len());
        }
        self.done = self.done + 1;
    }
}

/// A build in mode `Normal` performs all the build and install steps.
pub proof fn law_normal_performs_every_step(step: BuildStep)
    ensures
        spec_process_steps(BuildMode::Normal).contains(step),
{
    let plan = spec_process_steps(BuildMode::Normal);
    let i: int = match step {
        BuildStep::CheckRustcVersion => 0,
        BuildStep::CheckCrateConfig => 1,
        BuildStep::AddWasmTarget => 2,
        BuildStep::BuildWasm => 3,
        BuildStep::CreateDir => 4,
        BuildStep::CreateJson => 5,
        BuildStep::CopyReadme => 6,
        BuildStep::InstallWasmBindgen => 7,
        BuildStep::RunWasmBindgen => 8,
    };
    assert(plan[i] == step);
}

/// A build in mode `Noinstall` installs no tool: it neither adds the wasm
/// target nor installs wasm-bindgen, and it is not permitted to install.
pub proof fn law_noinstall_installs_nothing()
    ensures
        !spec_process_steps(BuildMode::Noinstall).contains(BuildStep::AddWasmTarget),
        !spec_process_steps(BuildMode::Noinstall).contains(BuildStep::InstallWasmBindgen),
        !spec_install_permitted(BuildMode::Noinstall),
{
}

/// A build in mode `Force` skips the rustc version check.
pub proof fn law_force_skips_rustc_check()
    ensures
        !spec_process_steps(BuildMode::Force).contains(BuildStep::CheckRustcVersion),
{
}

/// Whenever a build's plan installs wasm-bindgen, its mode permits installing.
pub proof fn law_install_step_only_when_permitted(mode: BuildMode)
    ensures
        spec_process_steps(mode).contains(BuildStep::InstallWasmBindgen) ==> spec_install_permitted(
            mode,
        ),
{
}

/// Every build ends by running wasm-bindgen, and builds the wasm before it
/// creates the package directory.
pub proof fn law_every_plan_builds_then_binds(mode: BuildMode)
    ensures
        spec_process_steps(mode).last() == BuildStep::RunWasmBindgen,
        exists|i: int, j: int|
            0 <= i < j < spec_process_steps(mode).len() && spec_process_steps(mode)[i]
                == BuildStep::BuildWasm && spec_process_steps(mode)[j] == BuildStep::CreateDir,
{
    let plan = spec_process_steps(mode);
    match mode {
        BuildMode::Normal => assert(plan[3] == BuildStep::BuildWasm && plan[4] == BuildStep::CreateDir),
        BuildMode::Noinstall => assert(plan[2] == BuildStep::BuildWasm && plan[3] == BuildStep::CreateDir),
        BuildMode::Force => assert(plan[0] == BuildStep::BuildWasm && plan[1] == BuildStep::CreateDir),
    }
}

/// The mode that the option's default text `normal` names is the default mode.
pub proof fn law_default_mode_text_names_default_mode()
    ensures
        parsed_build_mode("normal"@) == Some(default_build_mode()),
{
    reveal_strlit("normal");
    reveal_strlit("no-install");
    assert("normal"@.len() == 6);
    assert("no-install"@.len() == 10);
    assert("normal"@ != "no-install"@);
}

/// The output directory that a build writes under the default `pkg` name,
/// once it exists as a directory, is a package directory, unless on Windows
/// the crate path is verbatim, or the join folds `pkg` into the crate path's
/// prefix (as onto `\\server`) or makes a verbatim path.
pub proof fn law_default_out_dir_is_pkg_directory(
    style: PathStyle,
    crate_path: Seq<char>,
    status: PathStatus,
)
    requires
        status.path@ == spec_join(style, crate_path, pkg_name()),
        !prefix_verbatim(style, crate_path),
        prefix_len(style, status.path@) <= status.path@.len() - 3,
        !prefix_verbatim(style, status.path@),
        status.exists,
        status.is_dir,
    ensures
        spec_is_pkg_directory(style, status),
{
    assert(pkg_name().subrange(0, 3) =~= pkg_name());
    assert(prefix_len(style, pkg_name()) == 0);
    assert(last_component_at(style, pkg_name(), pkg_name(), 0));
    assert(ends_with_component(style, pkg_name(), pkg_name()));
    lemma_join_keeps_last_component(style, crate_path, pkg_name(), pkg_name());
}

} // verus!
