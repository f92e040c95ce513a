use wasm_pack::command::utils::{is_pkg_directory, PathStatus};
use wasm_pack::command::wasm_build::{
    get_process_steps, install_permitted, Build, BuildMode, BuildOptions, BuildRun, BuildStep,
};
use wasm_pack::error::Error;
use wasm_pack::path::PathStyle;
use wasm_pack::{Cli, Command};

fn options(out_dir: &str, mode: BuildMode) -> BuildOptions {
    BuildOptions {
        path: None,
        scope: Some("myscope".to_string()),
        mode,
        disable_dts: true,
        target: "nodejs".to_string(),
        debug: true,
        out_dir: out_dir.to_string(),
    }
}

#[test]
fn build_modes_are_read_from_their_names() {
    assert_eq!(BuildMode::parse("no-install"), Ok(BuildMode::Noinstall));
    assert_eq!(BuildMode::parse("normal"), Ok(BuildMode::Normal));
    assert_eq!(BuildMode::parse("force"), Ok(BuildMode::Force));
}

#[test]
fn unknown_build_mode_is_a_crate_config_error() {
    match BuildMode::parse("fast") {
        Err(e) => {
            assert_eq!(e, Error::CrateConfig { message: "Unknown build mode: fast".to_string() });
            assert_eq!(e.message(), "Unknown build mode: fast");
        }
        Ok(m) => panic!("unexpected mode {:?}", m),
    }
    assert!(BuildMode::parse("Normal").is_err());
    assert!(BuildMode::parse("").is_err());
}

#[test]
fn from_str_reads_build_modes() {
    let m: BuildMode = "no-install".parse().unwrap();
    assert_eq!(m, BuildMode::Noinstall);
    assert!("noinstall".parse::<BuildMode>().is_err());
}

#[test]
fn default_mode_is_normal_and_is_named_by_the_default_text() {
    assert_eq!(BuildMode::default(), BuildMode::Normal);
    assert_eq!(BuildMode::parse("normal"), Ok(BuildMode::default()));
}

#[test]
fn only_noinstall_forbids_installing() {
    assert!(install_permitted(BuildMode::Normal));
    assert!(install_permitted(BuildMode::Force));
    assert!(!install_permitted(BuildMode::Noinstall));
}

#[test]
fn normal_mode_runs_every_step() {
    assert_eq!(
        get_process_steps(BuildMode::Normal),
        vec![
            BuildStep::CheckRustcVersion,
            BuildStep::CheckCrateConfig,
            BuildStep::AddWasmTarget,
            BuildStep::BuildWasm,
            BuildStep::CreateDir,
            BuildStep::CreateJson,
            BuildStep::CopyReadme,
            BuildStep::InstallWasmBindgen,
            BuildStep::RunWasmBindgen,
        ]
    );
}

#[test]
fn noinstall_mode_installs_nothing() {
    assert_eq!(
        get_process_steps(BuildMode::Noinstall),
        vec![
            BuildStep::CheckRustcVersion,
            BuildStep::CheckCrateConfig,
            BuildStep::BuildWasm,
            BuildStep::CreateDir,
            BuildStep::CreateJson,
            BuildStep::CopyReadme,
            BuildStep::RunWasmBindgen,
        ]
    );
}

#[test]
fn force_mode_skips_the_checks() {
    assert_eq!(
        get_process_steps(BuildMode::Force),
        vec![
            BuildStep::BuildWasm,
            BuildStep::CreateDir,
            BuildStep::CreateJson,
            BuildStep::CopyReadme,
            BuildStep::RunWasmBindgen,
        ]
    );
}

#[test]
fn install_step_only_in_modes_that_permit_it() {
    for mode in [BuildMode::Normal, BuildMode::Noinstall, BuildMode::Force] {
        if get_process_steps(mode).contains(&BuildStep::InstallWasmBindgen) {
            assert!(install_permitted(mode));
        }
    }
}

#[test]
fn build_run_walks_the_plan_in_order() {
    let mut run = BuildRun::new(BuildMode::Force);
    assert_eq!(run.total_steps(), 5);
    let mut seen = Vec::new();
    while let Some(step) = run.next_step() {
        seen.push(step);
        run.complete_step();
    }
    assert_eq!(seen, get_process_steps(BuildMode::Force));
    assert_eq!(run.completed_steps(), 5);
    assert_eq!(run.next_step(), None);
}

#[test]
fn build_run_stopped_at_a_failure_runs_no_later_step() {
    let mut run = BuildRun::new(BuildMode::Normal);
    assert_eq!(run.next_step(), Some(BuildStep::CheckRustcVersion));
    run.complete_step();
    assert_eq!(run.next_step(), Some(BuildStep::CheckCrateConfig));
    // the crate config check fails: the step is not completed
    assert_eq!(run.completed_steps(), 1);
    assert_eq!(run.next_step(), Some(BuildStep::CheckCrateConfig));
}

#[test]
fn build_joins_the_out_dir_onto_the_crate_path() {
    let b = Build::from_opts(PathStyle::Unix, options("pkg", BuildMode::Force), "/home/me/crate".to_string(), "crate".to_string());
    assert_eq!(b.out_dir, "/home/me/crate/pkg");
    assert_eq!(b.crate_path, "/home/me/crate");
    assert_eq!(b.crate_name, "crate");
    assert_eq!(b.scope, Some("myscope".to_string()));
    assert_eq!(b.target, "nodejs");
    assert!(b.debug);
    assert!(b.disable_dts);
    assert_eq!(b.mode, BuildMode::Force);
    let abs = Build::from_opts(PathStyle::Unix, options("/tmp/out", BuildMode::Normal), "/home/me/crate".to_string(), "crate".to_string());
    assert_eq!(abs.out_dir, "/tmp/out");
}

#[test]
fn default_out_dir_is_found_as_the_pkg_directory() {
    let b = Build::from_opts(PathStyle::Unix, options("pkg", BuildMode::Normal), "/home/me/crate".to_string(), "crate".to_string());
    let status = PathStatus { path: b.out_dir.clone(), exists: true, is_dir: true };
    assert!(is_pkg_directory(PathStyle::Unix, &status));
}

#[test]
fn cli_holds_the_build_command_and_verbosity() {
    let cli = Cli { cmd: Command::Build(options("pkg", BuildMode::Normal)), verbosity: 2 };
    assert_eq!(cli.verbosity, 2);
    match cli.cmd {
        Command::Build(opts) => assert_eq!(opts.out_dir, "pkg"),
    }
}

#[test]
fn windows_build_joins_with_a_backslash() {
    let b = Build::from_opts(PathStyle::Windows, options("pkg", BuildMode::Normal), "C:\\crate".to_string(), "crate".to_string());
    assert_eq!(b.out_dir, "C:\\crate\\pkg");
    let status = PathStatus { path: b.out_dir.clone(), exists: true, is_dir: true };
    assert!(is_pkg_directory(PathStyle::Windows, &status));
}
