use nie::error::NieError;
use nie::eval_args::EvalArgs;
use nie::fetch::{fetch_all, location_to_fetcher_args};
use nie::json::{parse_json, JsonMember, JsonValue};
use nie::location::{AttributePath, FetchArgs, RepositoryLocation, RepositoryReference};
use nie::nix::{
    build, build_remote, canonicalize_url, command_failed, current_system, eval, fetch_local,
    built_paths_present, is_lambda_output, output_paths, parse_bool_output, shell, store_path_from_output,
    LocalFetch,
};

fn strings(v: &[&str]) -> Vec<String> {
    v.iter().map(|s| s.to_string()).collect()
}

fn pair(a: &str, b: &str) -> Vec<String> {
    strings(&[a, b])
}

#[test]
fn build_with_options_and_arguments() {
    let mut e = EvalArgs::default();
    e.nix_options = vec![pair("cores", "4"), strings(&["lonely"])];
    e.add_eval_args = vec![pair("pkgs", "import <nixpkgs> {}")];
    let inv = build("/src/default.nix", &AttributePath::from("hello"), false, &e, &strings(&["-j2"]), "COMPAT", true);
    assert_eq!(inv.program, "nom-build");
    assert_eq!(
        inv.args,
        strings(&[
            "--log-format", "bar", "/src/default.nix", "-A", "hello", "--no-out-link", "--option", "cores",
            "4", "--arg", "pkgs", "import <nixpkgs> {}", "-j2", "--log-format", "internal-json"
        ])
    );
}

#[test]
fn build_through_flake_compatibility() {
    let mut e = EvalArgs::default();
    e.flake_compat = true;
    let inv = build("/src", &AttributePath::toplevel(), true, &e, &[], "COMPAT", false);
    assert_eq!(inv.program, "nix-build");
    assert_eq!(inv.args, strings(&["--log-format", "bar", "--expr", "COMPAT", "--arg", "path", "/src"]));
}

#[test]
fn remote_build_quotes_the_expression() {
    let mut e = EvalArgs::default();
    e.flake_compat = true;
    let inv = build_remote("/src", &AttributePath::from("a.b"), "host", &e, &[], "say \"hi\"");
    assert_eq!(inv.program, "ssh");
    assert_eq!(
        inv.args,
        strings(&[
            "host", "nix-build", "--log-format", "bar", "--expr", "\"say \\\"hi\\\"\"", "--arg", "path", "/src",
            "-A", "a.b", "--no-out-link"
        ])
    );
}

#[test]
fn eval_and_shell_arguments() {
    let e = EvalArgs::default();
    let inv = eval("/src/default.nix", &AttributePath::from("x"), &e, &strings(&["--raw"]), "C");
    assert_eq!(inv.args, strings(&["--eval", "/src/default.nix", "-A", "x", "--raw"]));
    let sh = shell(&strings(&["/nix/store/a", "/nix/store/b"]), None, &e, &[], Some("/bin/zsh"));
    assert_eq!(sh.program, "nix-shell");
    assert_eq!(
        sh.args,
        strings(&["-p", "/nix/store/a", "-p", "/nix/store/b", "--command", "SHELL=/bin/zsh /bin/zsh"])
    );
    let sh = shell(&strings(&["/nix/store/a"]), Some("make".to_string()), &e, &[], Some("/bin/zsh"));
    assert_eq!(sh.args, strings(&["-p", "/nix/store/a", "--command", "make"]));
}

#[test]
fn expression_arguments_for_lambdas() {
    let mut e = EvalArgs::default();
    assert_eq!(e.expression_args_str(None), "");
    e.is_lambda = true;
    e.add_eval_args = vec![pair("a", "1"), pair("b", "2"), pair("a", "3")];
    e.system = Some(Some("riscv64-linux".to_string()));
    assert_eq!(e.expression_args_str(None), "{ a = 3; b = 2; system = \"riscv64-linux\"; } ");
    e.system = Some(None);
    assert!(e.needs_current_system());
    assert_eq!(e.expression_args_str(Some("x86_64-linux")), "{ a = 3; b = 2; system = \"x86_64-linux\"; } ");
}

#[test]
fn outputs_of_nix_are_read() {
    assert!(parse_bool_output(" true\n"));
    assert!(!parse_bool_output("false"));
    assert!(!parse_bool_output("yes"));
    assert!(is_lambda_output("lambda\n"));
    assert!(!is_lambda_output("set"));
    assert_eq!(output_paths("/nix/store/a\n/nix/store/b\n"), strings(&["/nix/store/a", "/nix/store/b"]));
    assert_eq!(store_path_from_output("/nix/store/q\nrest").unwrap(), "/nix/store/q");
    match store_path_from_output("") {
        Err(NieError::MissingNixData(m)) => assert_eq!(m, "fetchGit store path"),
        other => panic!("unexpected {:?}", other),
    }
    assert_eq!(current_system().args, strings(&["--eval", "--raw", "-E", "builtins.currentSystem"]));
}

#[test]
fn local_fetches() {
    let none = FetchArgs::new();
    match fetch_local("./x", "/nix/store/abc-x", &none) {
        LocalFetch::Ready(p) => assert_eq!(p, "/nix/store/abc-x"),
        _ => panic!("store paths are used as they are"),
    }
    let mut nocopy = FetchArgs::new();
    nocopy.insert("nocopy".to_string(), " true ".to_string());
    match fetch_local("./x", "/home/me/x", &nocopy) {
        LocalFetch::Ready(p) => assert_eq!(p, "./x"),
        _ => panic!("nocopy uses the path"),
    }
    match fetch_local("./x", "/home/me/x", &none) {
        LocalFetch::AddToStore(inv) => {
            assert_eq!(inv.program, "nix-store");
            assert_eq!(inv.args, strings(&["--add", "/home/me/x", "--log-format", "bar"]));
        },
        _ => panic!("other directories are added to the store"),
    }
}

#[test]
fn canonical_urls() {
    assert_eq!(canonicalize_url("./repo", Some("/home/me/repo")), "/home/me/repo");
    assert_eq!(canonicalize_url(".", Some("/home/me")), "/home/me");
    assert_eq!(canonicalize_url("./repo", None), "./repo");
    assert_eq!(canonicalize_url("https://x/y", Some("/ignored")), "https://x/y");
}

#[test]
fn fetcher_arguments_as_json() {
    let mut r = RepositoryReference::new(RepositoryLocation::Github(
        "nixos".to_string(),
        "nixpkgs".to_string(),
        Some("main".to_string()),
    ));
    r.fetch_args_mut().insert("shallow".to_string(), "true".to_string());
    r.fetch_args_mut().insert("extra".to_string(), " { \"a\" : [1, 2] } ".to_string());
    assert_eq!(
        location_to_fetcher_args(&r, None).unwrap(),
        "{\"branch\":\"main\",\"extra\":{\"a\":[1,2]},\"fetchType\":\"github\",\"owner\":\"nixos\",\"repo\":\"nixpkgs\",\"shallow\":true}"
    );
}

#[test]
fn fetcher_arguments_of_a_local_git_url() {
    let r = RepositoryReference::new(RepositoryLocation::Git("./repo".to_string()));
    assert_eq!(
        location_to_fetcher_args(&r, Some("/home/me/repo")).unwrap(),
        "{\"fetchType\":\"git\",\"url\":\"/home/me/repo\"}"
    );
    let t = RepositoryReference::new(RepositoryLocation::Tarball("https://x/a \"b\".tar".to_string()));
    assert_eq!(
        location_to_fetcher_args(&t, None).unwrap(),
        "{\"fetchType\":\"tarball\",\"url\":\"https://x/a \\\"b\\\".tar\"}"
    );
}

#[test]
fn fetch_argument_that_is_not_json_is_an_error() {
    let mut r = RepositoryReference::new(RepositoryLocation::Git("https://x".to_string()));
    r.fetch_args_mut().insert("rev".to_string(), "abc".to_string());
    assert!(matches!(location_to_fetcher_args(&r, None), Err(NieError::Json(_))));
}

#[test]
fn fetcher_arguments_escape_control_characters() {
    let t = RepositoryReference::new(RepositoryLocation::Git("a\u{1}b\tc\\".to_string()));
    assert_eq!(
        location_to_fetcher_args(&t, None).unwrap(),
        "{\"fetchType\":\"git\",\"url\":\"a\\u0001b\\tc\\\\\"}"
    );
}

#[test]
fn fetching_all_passes_an_array() {
    let a = RepositoryReference::new(RepositoryLocation::Codeberg("me".to_string(), "x".to_string(), None));
    let b = RepositoryReference::new(RepositoryLocation::Git("https://y".to_string()));
    let inv = fetch_all(&[a, b], &[None, None], "FETCH").unwrap();
    assert_eq!(inv.program, "nix-instantiate");
    assert_eq!(
        inv.args,
        strings(&[
            "--eval", "--raw", "--expr", "--log-format", "bar", "FETCH", "--argstr", "sourcesJSON",
            "[{\"domain\":\"codeberg.org\",\"fetchType\":\"forgejo\",\"owner\":\"me\",\"repo\":\"x\"},{\"fetchType\":\"git\",\"url\":\"https://y\"}]"
        ])
    );
}

#[test]
fn failed_commands() {
    match command_failed("nix-build", Some(3)) {
        NieError::ExternalCommand(p, c) => {
            assert_eq!(p, "nix-build");
            assert_eq!(c, 3);
        },
        other => panic!("unexpected {:?}", other),
    }
    assert!(matches!(command_failed("x", None), NieError::ExternalCommand(_, 1)));
}

#[test]
fn built_paths_must_exist() {
    let paths = strings(&["/nix/store/a", "/nix/store/b", "/nix/store/c"]);
    assert_eq!(built_paths_present(paths.clone(), &[true, true, true]).unwrap(), paths);
    match built_paths_present(paths.clone(), &[true, false, false]) {
        Err(NieError::BuiltPathMissing(p)) => assert_eq!(p, "/nix/store/b"),
        other => panic!("unexpected {:?}", other),
    }
    assert!(built_paths_present(vec![], &[]).unwrap().is_empty());
}

#[test]
fn json_text_is_parsed_into_values() {
    let v = parse_json("{\"b\": [1, 2.5, null], \"a\": \"x\\n\", \"c\": true}").unwrap();
    let expected = JsonValue::Object(vec![
        JsonMember { key: "a".to_string(), value: JsonValue::String("x\n".to_string()) },
        JsonMember {
            key: "b".to_string(),
            value: JsonValue::Array(vec![
                JsonValue::Number("1".to_string()),
                JsonValue::Number("2.5".to_string()),
                JsonValue::Null,
            ]),
        },
        JsonMember { key: "c".to_string(), value: JsonValue::Bool(true) },
    ]);
    assert_eq!(v, expected);
    assert!(parse_json("[1,").is_err());
}
