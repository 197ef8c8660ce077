use easywind::init::{plan, InitArgs};
use easywind::server::error::Error;
use easywind::server::ServerArgs;
use easywind::start::{StartArgs, Supervisor, SupervisorAction, TaskKind};
use easywind::tailwind::cli::{
    base_args, build, choose_program, watch, TailwindProgram,
};
use easywind::tailwind::installer::{
    arch_name, check_npx_tailwind_works, check_or_install, download_url, InstallAction,
    LATEST_TAILWIND_VERSION,
};
use easywind::tailwind::{start, TailwindArgs};
use easywind::template::TemplateName;
use easywind::validate::{check_exists, check_node_deps, suggest_help};

fn args(watch: bool) -> TailwindArgs {
    TailwindArgs {
        root_dir: "proj".to_string(),
        input: "src/app.css".to_string(),
        output: "dist/app.css".to_string(),
        watch,
    }
}

#[test]
fn start_rejects_same_input_and_output() {
    let mut a = args(false);
    a.output = a.input.clone();
    assert!(matches!(start(&a, true, true), Err(Error::SameInputOutput)));
}

#[test]
fn start_rejects_missing_input() {
    match start(&args(false), false, true) {
        Err(Error::InputFileMissing(p)) => assert_eq!(p, "src/app.css"),
        _ => panic!("a missing input file is reported"),
    }
}

#[test]
fn start_rejects_missing_config() {
    match start(&args(false), true, false) {
        Err(Error::ConfigMissing(d)) => assert_eq!(d, "proj"),
        _ => panic!("a missing tailwind.config.js is reported"),
    }
}

#[test]
fn start_builds_watch_arguments() {
    let v = start(&args(true), true, true).unwrap();
    assert_eq!(v, vec!["--input", "src/app.css", "--output", "dist/app.css", "--watch"]);
    let v = start(&args(false), true, true).unwrap();
    assert_eq!(v, vec!["--input", "src/app.css", "--output", "dist/app.css"]);
}

#[test]
fn cli_argument_builders() {
    let v = base_args(&args(false), true).unwrap();
    assert_eq!(v, vec!["--input", "src/app.css", "--output", "dist/app.css"]);
    let v = build(&args(false), true).unwrap();
    assert_eq!(v.len(), 4);
    let v = watch(&args(true), true).unwrap();
    assert_eq!(v.last().map(|s| s.as_str()), Some("--watch"));
    assert!(matches!(base_args(&args(false), false), Err(Error::ConfigMissing(_))));
}

#[test]
fn program_choice_follows_node() {
    assert_eq!(choose_program(true), TailwindProgram::Npx);
    assert_eq!(choose_program(false), TailwindProgram::StandaloneCli);
}

#[test]
fn install_decision() {
    assert_eq!(check_or_install(true, false), InstallAction::UseNpm);
    assert_eq!(check_or_install(true, true), InstallAction::UseNpm);
    assert_eq!(check_or_install(false, true), InstallAction::UseStandaloneCli);
    assert_eq!(check_or_install(false, false), InstallAction::DownloadCli);
}

#[test]
fn npx_retry_download_decision() {
    assert!(check_npx_tailwind_works(true, false, false));
    assert!(!check_npx_tailwind_works(true, true, false));
    assert!(!check_npx_tailwind_works(true, false, true));
    assert!(!check_npx_tailwind_works(false, false, false));
}

#[test]
fn arch_names() {
    assert_eq!(arch_name("x86_64").unwrap(), "x64");
    assert_eq!(arch_name("aarch64").unwrap(), "arm64");
    assert_eq!(arch_name("arm").unwrap(), "armv7");
    match arch_name("riscv64") {
        Err(Error::UnsupportedArch(a)) => assert_eq!(a, "riscv64"),
        _ => panic!("unknown architectures are refused"),
    }
}

#[test]
fn download_url_exact() {
    let url = download_url(LATEST_TAILWIND_VERSION, "linux", "x64");
    assert_eq!(
        url,
        "https://github.com/tailwindlabs/tailwindcss/releases/download/v3.3.3/tailwindcss-linux-x64"
    );
}

#[test]
fn node_dependency_checks() {
    assert!(check_node_deps(true, true, true).is_ok());
    match check_node_deps(false, true, true) {
        Err(Error::MissingDependency(n)) => assert_eq!(n, "node"),
        _ => panic!("node missing is reported first"),
    }
    match check_node_deps(true, false, true) {
        Err(Error::MissingDependency(n)) => assert_eq!(n, "npm"),
        _ => panic!("npm missing is reported"),
    }
    match check_node_deps(true, true, false) {
        Err(Error::MissingDependency(n)) => assert_eq!(n, "npx"),
        _ => panic!("npx missing is reported"),
    }
    assert!(check_exists(&"node".to_string(), true).is_ok());
    assert_eq!(
        check_exists(&"deno".to_string(), false).unwrap_err().message(),
        "deno not found in PATH"
    );
}

#[test]
fn help_suggestions() {
    assert_eq!(
        suggest_help("node"),
        "Please install node from nodejs and try again. Go to: https://nodejs.org/en/download"
    );
    assert_eq!(suggest_help("cargo"), "Please install cargo and try again");
}

#[test]
fn init_plan_contents() {
    let p = plan(&InitArgs { project_name: "portfolio".to_string() }, false).unwrap();
    assert_eq!(p.dirs, vec!["portfolio", "portfolio/src", "portfolio/dist"]);
    let paths: Vec<String> = p.files.iter().map(|f| f.path.clone()).collect();
    assert_eq!(
        paths,
        vec![
            "portfolio/tailwind.config.js",
            "portfolio/index.html",
            "portfolio/src/app.css",
            "portfolio/dist/app.css",
        ]
    );
    assert_eq!(p.files[0].template, Some(TemplateName::TailwindConfig));
    assert_eq!(p.files[1].template, Some(TemplateName::ProjectIndex));
    assert_eq!(p.files[2].template, Some(TemplateName::ProjectCss));
    assert_eq!(p.files[3].template, None);
}

#[test]
fn init_refuses_existing_directory() {
    match plan(&InitArgs { project_name: "taken".to_string() }, true) {
        Err(Error::ProjectDirExists(n)) => assert_eq!(n, "taken"),
        _ => panic!("an existing project directory is refused"),
    }
}

#[test]
fn template_file_names() {
    assert_eq!(TemplateName::Index.file_name(), "index.html");
    assert_eq!(TemplateName::ProjectIndex.file_name(), "project_index.html");
    assert_eq!(TemplateName::ProjectCss.file_name(), "project_app_css.css");
    assert_eq!(TemplateName::TailwindConfig.file_name(), "tailwind.config.js");
}

#[test]
fn start_args_defaults() {
    let s = StartArgs {
        root_dir: "proj".to_string(),
        port: 3500,
        open: false,
        input: None,
        output: None,
    };
    let t = TailwindArgs::from_start(&s);
    assert_eq!(t.input, "proj/src/app.css");
    assert_eq!(t.output, "proj/dist/app.css");
    assert!(t.watch);
    let sv: ServerArgs = ServerArgs::from_start(&s);
    assert_eq!(sv.root_dir, "proj");
    assert_eq!(sv.port, 3500);
}

#[test]
fn fail_fast_supervision() {
    // The compiler exits non-zero while the server still runs: the first
    // completion decides the run, promptly, with that error.
    let mut sup = Supervisor::new();
    let action = sup.on_task_finished(
        TaskKind::Tailwind,
        Some(Error::ChildProcessError("exit status 1".to_string())),
    );
    assert!(matches!(action, SupervisorAction::StopAll));
    // The server's later completion changes nothing.
    let late = sup.on_task_finished(TaskKind::Server, None);
    assert!(matches!(late, SupervisorAction::AlreadyStopped));
    match sup.into_result() {
        Err(e) => assert_eq!(e.message(), "failed to run tailwind: exit status 1"),
        Ok(()) => panic!("the first failure is the run's result"),
    }
}

#[test]
fn clean_first_completion_ends_run() {
    let mut sup = Supervisor::new();
    assert!(matches!(
        sup.on_task_finished(TaskKind::Tailwind, None),
        SupervisorAction::StopAll
    ));
    assert!(sup.into_result().is_ok());
}
