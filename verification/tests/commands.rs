use nie::aliases::{load_aliases, parse_alias_file, Aliases};
use nie::commands::aliases::AliasesCommand;
use nie::commands::auto_shell::AutoShellCommand;
use nie::commands::building::BuildCommand;
use nie::commands::check::{select_checks, CheckCommand, CheckOutcome, CheckRun};
use nie::commands::develop::DevelopCommand;
use nie::commands::init::InitCommand;
use nie::commands::initialize::InitializeCommand;
use nie::commands::man::ManCommand;
use nie::commands::run::RunCommand;
use nie::commands::show::ShowCommand;
use nie::error::NieError;
use nie::eval_args::EvalArgs;
use nie::location::{AttributePath, NixReference};
use nie::registry::Registry;

fn strings(v: &[&str]) -> Vec<String> {
    v.iter().map(|s| s.to_string()).collect()
}

fn reference(s: &str) -> NixReference {
    NixReference::parse(s, &Aliases::new(), false).unwrap()
}

fn develop(shell_nix: bool, editor: bool, no_pinned: bool) -> DevelopCommand {
    DevelopCommand {
        reference: reference("git://./."),
        command: Some("make".to_string()),
        editor,
        shell_nix,
        pin: false,
        update_pin: false,
        no_pinned,
        unpin: false,
        eval_args: EvalArgs::default(),
        extra_args: vec![],
    }
}

#[test]
fn registry_gives_back_what_was_stored() {
    let mut reg: Registry<AttributePath, bool> = Registry::new();
    let a = AttributePath::from("a");
    let b = AttributePath::from("b");
    assert_eq!(reg.lookup(&a), None);
    reg.store(a.clone(), true);
    reg.store(b.clone(), false);
    reg.store(a.clone(), false);
    assert_eq!(reg.lookup(&a), Some(false));
    assert_eq!(reg.lookup(&b), Some(false));
    assert_eq!(reg.duplicate().lookup(&a), Some(false));
}

#[test]
fn alias_files_skip_comments_and_blank_lines() {
    let text = "# comment\n\n// another\nnixpkgs github://nixos/nixpkgs/nixos-unstable\nnospace\nmine codeberg://me/mine#hello\n";
    let pairs = parse_alias_file(text).unwrap();
    let names: Vec<&str> = pairs.iter().map(|(k, _)| k.as_str()).collect();
    assert_eq!(names, vec!["nixpkgs", "mine"]);
    assert_eq!(pairs[1].1.to_string(), "codeberg://me/mine#hello");
    let mut aliases = Aliases::new();
    aliases.extend(pairs);
    assert_eq!(aliases.get("nixpkgs").unwrap().to_string(), "github://nixos/nixpkgs/nixos-unstable");
    assert_eq!(
        AliasesCommand::listing(&aliases),
        strings(&["nixpkgs github://nixos/nixpkgs/nixos-unstable", "mine codeberg://me/mine#hello"])
    );
}

#[test]
fn alias_file_with_bad_identifier_is_an_error() {
    match parse_alias_file("bad github://only\n") {
        Err(NieError::InvalidLocationSpec(s)) => assert_eq!(s, "github://only"),
        other => panic!("unexpected {:?}", other),
    }
}

#[test]
fn later_aliases_win() {
    let mut aliases = Aliases::new();
    aliases.extend(parse_alias_file("a git://one\na git://two\n").unwrap());
    assert_eq!(aliases.len(), 1);
    assert_eq!(aliases.get("a").unwrap().to_string(), "git://two");
}

#[test]
fn alias_files_load_once_in_order() {
    let mut cache = None;
    let texts = vec!["a git://one\nb git://bee\n".to_string(), "# system\na git://two\n".to_string()];
    load_aliases(&mut cache, &texts).unwrap();
    let loaded = cache.as_ref().expect("the aliases are loaded");
    assert_eq!(loaded.len(), 2);
    assert_eq!(loaded.get("a").unwrap().to_string(), "git://two");
    assert_eq!(loaded.get("b").unwrap().to_string(), "git://bee");
    let other = vec!["c git://sea\n".to_string()];
    load_aliases(&mut cache, &other).unwrap();
    let again = cache.as_ref().unwrap();
    assert_eq!(again.len(), 2);
    assert!(again.get("c").is_none());
}

#[test]
fn alias_loading_failure_loads_nothing() {
    let mut cache = None;
    let texts = vec!["a git://one\n".to_string(), "bad github://only\n".to_string()];
    match load_aliases(&mut cache, &texts) {
        Err(NieError::InvalidLocationSpec(s)) => assert_eq!(s, "github://only"),
        other => panic!("unexpected {:?}", other),
    }
    assert!(cache.is_none());
}

#[test]
fn alias_query_and_line() {
    let aliases = Aliases::new();
    match AliasesCommand::query_alias(&aliases, "nope") {
        Err(NieError::AliasNotFound(n)) => assert_eq!(n, "nope"),
        other => panic!("unexpected {:?}", other),
    }
    assert_eq!(AliasesCommand::alias_line("np", &reference("github://nixos/nixpkgs")), "np github://nixos/nixpkgs");
}

#[test]
fn checks_are_the_leaves_below_the_parent() {
    let attrs: Vec<AttributePath> = [
        "packages",
        "checks",
        "checks.x86_64-linux",
        "checks.x86_64-linux.fmt",
        "checks.x86_64-linux.fmtAll",
        "checks.x86_64-linux.tests",
        "checks.x86_64-linux.tests.unit",
    ]
    .iter()
    .map(|s| AttributePath::from(s))
    .collect();
    let parent = CheckCommand::check_parent("x86_64-linux", true);
    assert_eq!(parent.to_string(), "checks.x86_64-linux");
    let checks: Vec<String> = select_checks(&attrs, &parent).iter().map(|a| a.to_string()).collect();
    assert_eq!(checks, strings(&["checks.x86_64-linux.fmtAll", "checks.x86_64-linux.tests.unit"]));
    assert_eq!(CheckCommand::check_parent("x86_64-linux", false).to_string(), "checks");
}

#[test]
fn check_run_stops_at_the_first_failure() {
    let mut run = CheckRun::new(3, false);
    assert_eq!(run.next(), Some(0));
    run.record(true);
    assert_eq!(run.next(), Some(1));
    run.record(false);
    assert_eq!(run.next(), None);
    assert!(run.any_failed());
    assert_eq!(run.outcomes(), vec![CheckOutcome::Succeeded, CheckOutcome::Failed, CheckOutcome::NotRun]);
}

#[test]
fn check_run_keeps_going() {
    let mut run = CheckRun::new(2, true);
    run.record(false);
    assert_eq!(run.next(), Some(1));
    run.record(true);
    assert_eq!(run.next(), None);
    assert_eq!(run.outcomes(), vec![CheckOutcome::Failed, CheckOutcome::Succeeded]);
}

#[test]
fn check_report_lines() {
    let a = AttributePath::from("checks.fmt");
    assert_eq!(CheckCommand::running_checks(2), "Running 2 checks:");
    assert_eq!(CheckCommand::running_check(&a), "Running check \"checks.fmt\"");
    assert_eq!(CheckCommand::list_line(&a), "  🔳 checks.fmt");
    assert_eq!(CheckCommand::outcome_line(CheckOutcome::Succeeded, &a), "  ✅ checks.fmt");
    assert_eq!(CheckCommand::outcome_line(CheckOutcome::Failed, &a), "  ❌ checks.fmt");
    assert_eq!(CheckCommand::outcome_line(CheckOutcome::NotRun, &a), "  ❔ checks.fmt");
    assert_eq!(CheckCommand::verdict(true), "FAILURE");
    assert_eq!(CheckCommand::verdict(false), "SUCCESS");
    let cmd = CheckCommand { reference: reference("git://x"), keep_going: false, eval_args: EvalArgs::default(), extra_args: vec![] };
    assert!(matches!(cmd.no_checks_error(), NieError::NoChecksFound(_)));
}

#[test]
fn show_lines_are_indented() {
    let a = AttributePath::from("packages.x86_64-linux.hello");
    assert_eq!(ShowCommand::show_line(&a, false, false), Some("      packages.x86_64-linux.hello".to_string()));
    assert_eq!(ShowCommand::show_line(&a, false, true), Some("      hello".to_string()));
    let o = AttributePath::from("outputs.packages");
    assert_eq!(ShowCommand::show_line(&o, true, false), None);
    assert_eq!(ShowCommand::show_line(&AttributePath::from("outputs"), true, false), Some("  outputs".to_string()));
    assert_eq!(ShowCommand::outputs_announcement(&reference("git://x")), "Outputs in \"git://x\":");
}

#[test]
fn develop_decisions() {
    let d = develop(true, true, false);
    let r = d.target_reference(&Aliases::new()).unwrap();
    assert_eq!(r.to_string(), "file://.#file=shell.nix#nocopy=true");
    assert_eq!(d.shell_command(), Some("$EDITOR".to_string()));
    assert!(!d.may_enter_pin(&r));
    let d = develop(false, false, false);
    assert_eq!(d.shell_command(), Some("make".to_string()));
    assert!(d.may_enter_pin(&reference("git://./.")));
    assert!(!d.may_enter_pin(&reference("git://./.#hello")));
    assert!(!develop(false, false, true).may_enter_pin(&reference("git://./.")));
}

#[test]
fn initialization_helpers() {
    assert_eq!(InitializeCommand::copy_mode(0o755), 0o700);
    assert_eq!(InitializeCommand::copy_mode(0o444), 0o600);
    assert_eq!(InitializeCommand::copy_mode(0o4777), 0o700);
    assert_eq!(InitializeCommand::shell_nix_path("/tmp/p"), "/tmp/p/shell.nix");
    assert_eq!(InitializeCommand::template_path_attr(&AttributePath::from("templates.rust")).to_string(), "templates.rust.path");
    let r = reference("git://x");
    assert_eq!(InitializeCommand::template_dir(&r, "/nix/store/t\nmore").unwrap(), "/nix/store/t");
    assert!(matches!(InitializeCommand::template_dir(&r, ""), Err(NieError::NoOutputPath(_))));
    assert_eq!(InitializeCommand::directory_target("/d", false, true, false).unwrap(), true);
    assert_eq!(InitializeCommand::directory_target("/d", true, true, true).unwrap(), false);
    match InitializeCommand::directory_target("/d", true, false, true) {
        Err(NieError::DirectoryAlreadyExists(d)) => assert_eq!(d, "/d"),
        other => panic!("unexpected {:?}", other),
    }
    assert!(InitializeCommand::directory_target("/d", true, true, false).is_err());
    assert_eq!(InitCommand::copying("/nix/store/t", "."), "Copying /nix/store/t to .");
}

#[test]
fn man_page_files() {
    let m = ManCommand { directory: "/tmp/man".to_string() };
    assert_eq!(m.page_file(None), "/tmp/man/nie.1");
    assert_eq!(m.page_file(Some("build")), "/tmp/man/nie-build.1");
    assert_eq!(ManCommand::written("/tmp/man/nie.1"), "Written /tmp/man/nie.1");
}

#[test]
fn run_errors_name_the_reference() {
    let r = RunCommand { reference: reference("git://x#hello"), man: true, eval_args: EvalArgs::default(), args: vec![] };
    match r.man_not_found() {
        NieError::ManNotFound(x) => assert_eq!(x.to_string(), "git://x#hello"),
        other => panic!("unexpected {:?}", other),
    }
    assert!(matches!(r.program_not_found(), NieError::ProgramNotFound(_)));
}

#[test]
fn build_flattens_paths() {
    let built = vec![strings(&["/a", "/b"]), vec![], strings(&["/c"])];
    assert_eq!(BuildCommand::all_paths(&built), strings(&["/a", "/b", "/c"]));
}

#[test]
fn auto_shell_leaves_the_project() {
    assert!(!AutoShellCommand::left_project("/home/me/p/src", "/home/me/p"));
    assert!(AutoShellCommand::left_project("/home/me/other", "/home/me/p"));
    assert!(AutoShellCommand::left_project("/home/me/project", "/home/me/p"));
    match AutoShellCommand::unsafe_pin_error("/p/.nie-dev-shell".to_string()) {
        NieError::PinnedShellNotSafe(d) => assert_eq!(d, "/p/.nie-dev-shell"),
        other => panic!("unexpected {:?}", other),
    }
}
