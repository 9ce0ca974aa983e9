use nie::error::NieError;
use nie::eval_args::EvalArgs;
use nie::json::{JsonMember, JsonValue};
use nie::location::{AttributePath, RepositoryLocation, RepositoryReference};
use nie::registry::Registry;
use nie::store::checkout::{assemble, finish_fetch, plan_fetch, remote_fetch_failure, remote_repositories, FetchSource};
use nie::store::file::{unfold_attributes, unfold_attributes_flake, AttributeIterator};
use nie::store::output::{
    build_extra_args, drv_name_from_file_name, main_program_path, man_path_for, output_link_name,
};
use nie::store::{Checkout, NixFile, NixOutput};

fn git(url: &str) -> RepositoryReference {
    RepositoryReference::new(RepositoryLocation::Git(url.to_string()))
}

fn local(path: &str) -> RepositoryReference {
    RepositoryReference::new(RepositoryLocation::LocalFile(path.to_string()))
}

fn text(s: &str) -> JsonValue {
    JsonValue::String(s.to_string())
}

fn object(members: Vec<(&str, JsonValue)>) -> JsonValue {
    JsonValue::Object(
        members.into_iter().map(|(k, v)| JsonMember { key: k.to_string(), value: v }).collect(),
    )
}

fn paths(v: &[AttributePath]) -> Vec<String> {
    v.iter().map(|p| p.to_string()).collect()
}

fn strings(v: &[&str]) -> Vec<String> {
    v.iter().map(|s| s.to_string()).collect()
}

fn sample_file(flake_compat: bool) -> NixFile {
    let checkout = Checkout::new(git("https://example.org/repo"), "/nix/store/abc-source".to_string());
    let mut eval_args = EvalArgs::default();
    eval_args.flake_compat = flake_compat;
    NixFile::open(checkout, Some("default.nix".to_string()), eval_args)
}

#[test]
fn fetch_plan_uses_known_checkouts() {
    let mut known: Registry<RepositoryReference, Checkout> = Registry::new();
    known.store(git("https://a"), Checkout::new(git("https://a"), "/nix/store/a".to_string()));
    let repos = vec![git("https://b"), local("/home/me/x"), git("https://a"), git("https://c")];
    let plan = plan_fetch(&repos, &known);
    assert!(matches!(plan[0], FetchSource::Remote));
    assert!(matches!(plan[1], FetchSource::Local));
    match &plan[2] {
        FetchSource::Known(c) => assert_eq!(c.path(), "/nix/store/a"),
        _ => panic!("expected a known checkout"),
    }
    assert!(matches!(plan[3], FetchSource::Remote));
    let remote = remote_repositories(&repos, &plan);
    assert_eq!(remote.len(), 2);
    assert!(remote[0].same_as(&git("https://b")));
    assert!(remote[1].same_as(&git("https://c")));
}

#[test]
fn fetched_checkouts_keep_the_order_of_the_list() {
    let mut known: Registry<RepositoryReference, Checkout> = Registry::new();
    known.store(git("https://a"), Checkout::new(git("https://a"), "/nix/store/a".to_string()));
    let repos = vec![git("https://b"), local("/home/me/x"), git("https://a"), git("https://c")];
    let plan = plan_fetch(&repos, &known);
    let out = assemble(
        &repos,
        &plan,
        &strings(&["/nix/store/x"]),
        &strings(&["/nix/store/b", "/nix/store/c"]),
        &mut known,
    );
    let got: Vec<&str> = out.iter().map(|c| c.path().as_str()).collect();
    assert_eq!(got, vec!["/nix/store/b", "/nix/store/x", "/nix/store/a", "/nix/store/c"]);
    for (c, r) in out.iter().zip(repos.iter()) {
        assert!(c.repository().same_as(r));
    }
    assert_eq!(known.lookup(&local("/home/me/x")).unwrap().path(), "/nix/store/x");
    assert_eq!(known.lookup(&git("https://c")).unwrap().path(), "/nix/store/c");
}

#[test]
fn second_fetch_fetches_nothing() {
    let mut known: Registry<RepositoryReference, Checkout> = Registry::new();
    known.store(git("https://a"), Checkout::new(git("https://a"), "/nix/store/a".to_string()));
    let repos = vec![git("https://b"), local("/home/me/x"), git("https://a"), git("https://c")];
    let plan = plan_fetch(&repos, &known);
    let first = assemble(
        &repos,
        &plan,
        &strings(&["/nix/store/x"]),
        &strings(&["/nix/store/b", "/nix/store/c"]),
        &mut known,
    );
    let again = plan_fetch(&repos, &known);
    assert!(again.iter().all(|s| matches!(s, FetchSource::Known(_))));
    assert!(remote_repositories(&repos, &again).is_empty());
    let second = assemble(&repos, &again, &[], &[], &mut known);
    let paths = |cs: &[Checkout]| cs.iter().map(|c| c.path().clone()).collect::<Vec<String>>();
    assert_eq!(paths(&second), paths(&first));
    assert_eq!(known.lookup(&git("https://c")).unwrap().path(), "/nix/store/c");
}

#[test]
fn second_fetch_of_repeated_repositories() {
    let mut known: Registry<RepositoryReference, Checkout> = Registry::new();
    let repos = vec![git("https://b"), git("https://b")];
    let plan = plan_fetch(&repos, &known);
    let first = assemble(&repos, &plan, &[], &strings(&["/nix/store/b", "/nix/store/b"]), &mut known);
    let again = plan_fetch(&repos, &known);
    assert!(again.iter().all(|s| matches!(s, FetchSource::Known(_))));
    let second = assemble(&repos, &again, &[], &[], &mut known);
    assert_eq!(second.len(), 2);
    for (a, b) in first.iter().zip(second.iter()) {
        assert_eq!(a.path(), b.path());
    }
}

#[test]
fn failed_fetch_stores_nothing() {
    let mut known: Registry<RepositoryReference, Checkout> = Registry::new();
    let repos = vec![local("/home/me/x"), git("https://b")];
    let plan = plan_fetch(&repos, &known);
    let failure = NieError::FetchFailure(git("https://b"));
    match finish_fetch(&repos, &plan, Ok(strings(&["/nix/store/x"])), Err(failure), &mut known) {
        Err(NieError::FetchFailure(r)) => assert!(r.same_as(&git("https://b"))),
        other => panic!("unexpected {:?}", other.map(|_| ())),
    }
    assert!(known.lookup(&local("/home/me/x")).is_none());
    match finish_fetch(&repos, &plan, Err(NieError::FetchFailure(local("/home/me/x"))), Ok(vec![]), &mut known) {
        Err(NieError::FetchFailure(r)) => assert!(r.same_as(&local("/home/me/x"))),
        other => panic!("unexpected {:?}", other.map(|_| ())),
    }
    assert!(known.lookup(&git("https://b")).is_none());
    let out = finish_fetch(&repos, &plan, Ok(strings(&["/nix/store/x"])), Ok(strings(&["/nix/store/b"])), &mut known)
        .unwrap();
    assert_eq!(out.len(), 2);
    assert_eq!(known.lookup(&git("https://b")).unwrap().path(), "/nix/store/b");
}

#[test]
fn remote_checkouts_without_paths_are_dropped() {
    let mut known: Registry<RepositoryReference, Checkout> = Registry::new();
    let repos = vec![git("https://b"), git("https://c")];
    let plan = plan_fetch(&repos, &known);
    let out = assemble(&repos, &plan, &[], &strings(&["/nix/store/b"]), &mut known);
    assert_eq!(out.len(), 1);
    assert_eq!(out[0].path(), "/nix/store/b");
    assert!(known.lookup(&git("https://c")).is_none());
}

#[test]
fn remote_fetch_failure_names_one_or_counts_many() {
    match remote_fetch_failure(&[git("https://b")]) {
        NieError::FetchFailure(r) => assert!(r.same_as(&git("https://b"))),
        other => panic!("unexpected {:?}", other),
    }
    match remote_fetch_failure(&[git("https://b"), git("https://c"), git("https://d")]) {
        NieError::FetchFailureMultiple(n) => assert_eq!(n, 3),
        other => panic!("unexpected {:?}", other),
    }
}

#[test]
fn unfold_lists_paths_depth_first() {
    let value = object(vec![
        ("hello", object(vec![])),
        ("tools", object(vec![("fmt", object(vec![])), ("lint", object(vec![]))])),
    ]);
    let r = unfold_attributes(vec![], AttributePath::toplevel(), &value, false).unwrap();
    assert_eq!(paths(&r), strings(&["hello", "tools", "tools.fmt", "tools.lint"]));
}

#[test]
fn unfold_skips_broken_unless_rejected() {
    let value = object(vec![("ok", object(vec![])), ("bad", text("<broken>"))]);
    let r = unfold_attributes(vec![], AttributePath::toplevel(), &value, false).unwrap();
    assert_eq!(paths(&r), strings(&["ok", "bad"]));
    match unfold_attributes(vec![], AttributePath::toplevel(), &value, true) {
        Err(NieError::BrokenAttribute(p)) => assert_eq!(p.to_string(), "bad"),
        other => panic!("unexpected {:?}", other),
    }
}

#[test]
fn unfold_other_text_is_broken_and_other_values_unexpected() {
    match unfold_attributes(vec![], AttributePath::from("a"), &text("oops"), false) {
        Err(NieError::BrokenAttribute(p)) => assert_eq!(p.to_string(), "a"),
        other => panic!("unexpected {:?}", other),
    }
    match unfold_attributes(vec![], AttributePath::toplevel(), &JsonValue::Number("1".to_string()), false) {
        Err(NieError::JsonUnfolding(v)) => assert_eq!(v, JsonValue::Number("1".to_string())),
        other => panic!("unexpected {:?}", other),
    }
}

#[test]
fn unfold_flake_reads_name_and_value() {
    let value = JsonValue::Array(vec![
        object(vec![("name", text("packages")), ("value", object(vec![("x86_64-linux", object(vec![]))]))]),
        object(vec![("value", object(vec![])), ("name", text("checks"))]),
    ]);
    let r = unfold_attributes_flake(vec![], &value, false).unwrap();
    assert_eq!(paths(&r), strings(&["packages", "packages.x86_64-linux", "checks"]));
}

#[test]
fn unfold_flake_reports_the_whole_value() {
    let value = JsonValue::Array(vec![object(vec![("name", JsonValue::Bool(true)), ("value", object(vec![]))])]);
    match unfold_attributes_flake(vec![], &value, false) {
        Err(NieError::JsonUnfolding(v)) => assert_eq!(v, value),
        other => panic!("unexpected {:?}", other),
    }
    match unfold_attributes_flake(vec![], &JsonValue::Null, false) {
        Err(NieError::JsonUnfolding(v)) => assert_eq!(v, JsonValue::Null),
        other => panic!("unexpected {:?}", other),
    }
}

#[test]
fn attribute_iterator_hands_out_in_order() {
    let mut it = AttributeIterator::new(vec![AttributePath::from("a"), AttributePath::from("b")]);
    assert_eq!(it.next().unwrap().to_string(), "a");
    assert_eq!(it.next().unwrap().to_string(), "b");
    assert!(it.next().is_none());
}

#[test]
fn nix_file_paths_and_flake_compat() {
    assert_eq!(NixFile::expected_file("/src", &None), "/src/default.nix");
    assert_eq!(NixFile::expected_file("/src", &Some("pkgs.nix".to_string())), "/src/pkgs.nix");
    assert_eq!(NixFile::flake_file("/src/"), "/src/flake.nix");
    let e = NixFile::settle_eval_args(EvalArgs::default(), true, false);
    assert!(e.flake_compat);
    let e = NixFile::settle_eval_args(EvalArgs::default(), true, true);
    assert!(!e.flake_compat);
    let f = sample_file(false);
    assert_eq!(f.path(), "/nix/store/abc-source/default.nix");
    assert_eq!(f.reference().to_string(), "git://https://example.org/repo#file=default.nix");
    match f.not_found_error() {
        NieError::NixFileNotFound(name, dir) => {
            assert_eq!(name, "default.nix");
            assert_eq!(dir, "/nix/store/abc-source");
        },
        other => panic!("unexpected {:?}", other),
    }
}

#[test]
fn nix_file_remembers_attributes() {
    let mut f = sample_file(false);
    let a = AttributePath::from("hello");
    assert_eq!(f.cached_attribute(&a), None);
    f.remember_attribute(a.clone(), true);
    assert_eq!(f.cached_attribute(&a), Some(true));
    f.remember_attribute(a.clone(), false);
    assert_eq!(f.cached_attribute(&a), Some(false));
}

#[test]
fn output_candidates_and_choice() {
    let common = AttributePath::common_package_locations(Some("x86_64-linux"));
    let top = NixFile::output_candidates(&AttributePath::toplevel(), None, &common);
    assert_eq!(
        paths(&top),
        strings(&[
            "packages.default",
            "legacyPackages.default",
            "packages.x86_64-linux.default",
            "legacyPackages.x86_64-linux.default",
            "default"
        ])
    );
    let hello = AttributePath::from("hello");
    let c = NixFile::output_candidates(&hello, Some(false), &common);
    assert_eq!(c[2].to_string(), "packages.x86_64-linux.hello");
    assert!(NixFile::output_candidates(&hello, Some(true), &common).is_empty());
    assert!(NixFile::output_candidates(&hello, None, &common).is_empty());
    let chosen = NixFile::choose_output(&hello, &c, &[false, false, true]);
    assert_eq!(chosen.to_string(), "packages.x86_64-linux.hello");
    let kept = NixFile::choose_output(&hello, &c, &[false, false]);
    assert_eq!(kept.to_string(), "hello");
}

#[test]
fn attributes_invocation_arguments() {
    let f = sample_file(false);
    let inv = f.attributes_invocation("EXPR", 5);
    assert_eq!(inv.program, "nix-instantiate");
    assert_eq!(
        inv.args,
        strings(&["--eval", "--raw", "-E", "EXPR", "--arg", "path", "/nix/store/abc-source/default.nix", "--arg", "maxdepth", "5"])
    );
}

#[test]
fn output_of_missing_attribute_is_an_error() {
    match NixOutput::new(&mut Registry::new(), sample_file(false), AttributePath::from("nope"), Ok(false)) {
        Err(NieError::AttributeNotFound(p, a)) => {
            assert_eq!(p, "/nix/store/abc-source/default.nix");
            assert_eq!(a.to_string(), "nope");
        },
        other => panic!("unexpected {:?}", other.map(|_| ())),
    }
    assert!(NixOutput::new(&mut Registry::new(), sample_file(false), AttributePath::toplevel(), Ok(false)).is_ok());
}

#[test]
fn created_outputs_are_registered_once() {
    let mut outputs = Registry::new();
    let file = sample_file(false);
    let hello = AttributePath::from("hello");
    assert!(NixOutput::cached(&outputs, &file, &hello).is_none());
    let o = NixOutput::new(&mut outputs, file.clone(), hello.clone(), Ok(true)).unwrap();
    let again = NixOutput::cached(&outputs, &file, &hello).expect("the output is registered");
    assert_eq!(again.reference().to_string(), o.reference().to_string());
    assert!(again.built_paths().is_none());
    assert!(NixOutput::cached(&outputs, &file, &AttributePath::from("other")).is_none());
}

#[test]
fn failed_attribute_question_is_passed_on() {
    let mut outputs = Registry::new();
    let file = sample_file(false);
    let err = NieError::NixFileNotFound("a.nix".to_string(), "/x".to_string());
    match NixOutput::new(&mut outputs, file.clone(), AttributePath::from("x"), Err(err)) {
        Err(NieError::NixFileNotFound(n, d)) => {
            assert_eq!(n, "a.nix");
            assert_eq!(d, "/x");
        },
        other => panic!("unexpected {:?}", other.map(|_| ())),
    }
    assert!(NixOutput::cached(&outputs, &file, &AttributePath::from("x")).is_none());
    let missing = NixOutput::new(&mut outputs, file.clone(), AttributePath::from("x"), Ok(false));
    assert!(missing.is_err());
    assert!(NixOutput::cached(&outputs, &file, &AttributePath::from("x")).is_none());
    assert!(NixOutput::new(&mut outputs, file.clone(), AttributePath::toplevel(), Err(NieError::NixFileNotFound(String::new(), String::new()))).is_ok());
}

#[test]
fn output_reference_and_build_invocation() {
    let o = NixOutput::new(&mut Registry::new(), sample_file(false), AttributePath::from("hello"), Ok(true)).unwrap();
    assert_eq!(o.reference().to_string(), "git://https://example.org/repo#hello#file=default.nix");
    let inv = o.build_invocation(Some("result-0"), true, &strings(&["--keep-going"]), "COMPAT", false);
    assert_eq!(inv.program, "nix-build");
    assert_eq!(
        inv.args,
        strings(&["--log-format", "bar", "/nix/store/abc-source/default.nix", "-A", "hello", "-o", "result-0", "--keep-going"])
    );
    match o.check_built(vec![]) {
        Err(NieError::NoOutputPath(r)) => assert_eq!(r.to_string(), o.reference().to_string()),
        other => panic!("unexpected {:?}", other),
    }
}

#[test]
fn drv_names_follow_parse_drv_name() {
    assert_eq!(drv_name_from_file_name("abc123-hello-2.12.1"), "hello");
    assert_eq!(drv_name_from_file_name("abc123-python3-requests-2.31"), "python3-requests");
    assert_eq!(drv_name_from_file_name("abc123"), "");
    assert_eq!(drv_name_from_file_name("abc123-gnu-hello-2.12.1"), "gnu-hello");
    let o = NixOutput::new(&mut Registry::new(), sample_file(false), AttributePath::from("hello"), Ok(true)).unwrap();
    assert_eq!(o.drv_name(&strings(&["/nix/store/abc123-hello-2.12.1/"])).unwrap(), "hello");
    assert!(o.drv_name(&[]).is_err());
}

#[test]
fn main_program_and_man_page() {
    assert_eq!(
        main_program_path("/nix/store/x-hello", Some("hi"), Some("hello")),
        Some("/nix/store/x-hello/bin/hi".to_string())
    );
    assert_eq!(
        main_program_path("/nix/store/x-hello", None, Some("hello")),
        Some("/nix/store/x-hello/bin/hello".to_string())
    );
    assert_eq!(main_program_path("/nix/store/x-hello", None, None), None);
    assert_eq!(
        man_path_for("/nix/store/x-hello", "/nix/store/x-hello/bin/hello"),
        Some("/nix/store/x-hello/share/man/man1/hello.1.gz".to_string())
    );
    assert_eq!(
        man_path_for("/nix/store/x-hello", "hello"),
        Some("/nix/store/x-hello/share/man/man1/hello.1.gz".to_string())
    );
    assert_eq!(man_path_for("/nix/store/x-hello", "/nix/store/x-hello/bin/.."), None);
}

#[test]
fn output_links_and_builder_arguments() {
    assert_eq!(output_link_name(0), "result-0");
    assert_eq!(output_link_name(1), "result");
    assert_eq!(output_link_name(7), "result");
    assert_eq!(build_extra_args(Some("out"), &strings(&["-j4"])), strings(&["-o", "out", "-j4"]));
    assert_eq!(build_extra_args(None, &strings(&["-j4"])), strings(&["-j4"]));
}

#[test]
fn drv_name_reads_only_the_last_component() {
    let o = NixOutput::new(&mut Registry::new(), sample_file(false), AttributePath::from("hello"), Ok(true)).unwrap();
    assert_eq!(o.drv_name(&strings(&["/nix/store-x/abc-hello"])).unwrap(), "hello");
    assert_eq!(o.drv_name(&strings(&["/nix/store/abc-hello/.."])).unwrap(), "");
}

#[test]
fn unfolded_paths_lie_below_their_parent() {
    let value = object(vec![("a", object(vec![("b", object(vec![]))]))]);
    let parent = AttributePath::from("legacyPackages.x86_64-linux");
    let r = unfold_attributes(vec![], parent.clone(), &value, false).unwrap();
    assert_eq!(
        paths(&r),
        strings(&["legacyPackages.x86_64-linux.a", "legacyPackages.x86_64-linux.a.b"])
    );
    assert!(r.iter().all(|p| p.is_indirect_child(&parent)));
}

#[test]
fn opened_files_are_registered_once() {
    let mut files = Registry::new();
    let checkout = Checkout::new(git("https://example.org/repo"), "/nix/store/abc-source".to_string());
    let name = Some("shell.nix".to_string());
    let args = EvalArgs::default();
    assert_eq!(NixFile::path_in(&checkout, &name), "/nix/store/abc-source/shell.nix");
    assert_eq!(NixFile::path_in(&checkout, &None), "/nix/store/abc-source");
    assert!(NixFile::cached(&files, &checkout, &name, &args).is_none());
    let f = NixFile::new(&mut files, checkout.clone(), name.clone(), args.clone(), true, false, false, true).unwrap();
    assert!(f.flake_compat());
    let again = NixFile::cached(&files, &checkout, &name, &args).expect("the file is registered");
    assert!(again.flake_compat());
    assert_eq!(again.path(), f.path());
}

#[test]
fn opened_file_without_flake_asks_for_a_lambda() {
    let mut files = Registry::new();
    let checkout = Checkout::new(git("https://example.org/repo"), "/nix/store/abc-source".to_string());
    let f = NixFile::new(&mut files, checkout.clone(), None, EvalArgs::default(), false, true, true, true).unwrap();
    assert!(!f.flake_compat());
    assert!(f.eval_args().is_lambda);
    let g = NixFile::new(&mut files, checkout.clone(), None, EvalArgs::default(), true, true, false, true).unwrap();
    assert!(!g.flake_compat());
    assert!(!g.eval_args().is_lambda);
}

#[test]
fn opening_a_missing_file_is_an_error() {
    let mut files = Registry::new();
    let checkout = Checkout::new(git("https://example.org/repo"), "/nix/store/abc-source".to_string());
    let name = Some("nope.nix".to_string());
    match NixFile::new(&mut files, checkout.clone(), name.clone(), EvalArgs::default(), false, true, false, false) {
        Err(NieError::NixFileNotFound(n, d)) => {
            assert_eq!(n, "nope.nix");
            assert_eq!(d, "/nix/store/abc-source");
        },
        other => panic!("unexpected {:?}", other.map(|_| ())),
    }
    assert!(NixFile::cached(&files, &checkout, &name, &EvalArgs::default()).is_none());
}

#[test]
fn builds_are_seen_by_every_handle() {
    let mut outputs = Registry::new();
    let file = sample_file(false);
    let hello = AttributePath::from("hello");
    let mut first = NixOutput::new(&mut outputs, file.clone(), hello.clone(), Ok(true)).unwrap();
    let second = NixOutput::cached(&outputs, &file, &hello).unwrap();
    assert!(NixOutput::known_build(&outputs, &second).is_none());
    NixOutput::record_build_in(&mut outputs, &mut first, strings(&["/nix/store/abc-hello"]));
    assert_eq!(first.built_paths(), Some(strings(&["/nix/store/abc-hello"])));
    assert_eq!(NixOutput::known_build(&outputs, &second), Some(strings(&["/nix/store/abc-hello"])));
    assert!(second.built_paths().is_none());
    let mut third = second;
    assert_eq!(NixOutput::reuse_build(&outputs, &mut third), Some(strings(&["/nix/store/abc-hello"])));
    assert_eq!(third.built_paths(), Some(strings(&["/nix/store/abc-hello"])));
    let mut fresh = NixOutput::new(&mut Registry::new(), file.clone(), hello.clone(), Ok(true)).unwrap();
    assert_eq!(NixOutput::reuse_build(&Registry::new(), &mut fresh), None);
    assert!(fresh.built_paths().is_none());
}

#[test]
fn program_file_names_skip_separators_and_dots() {
    assert_eq!(
        man_path_for("/nix/store/x", "/nix/store/x/bin//hello/./"),
        Some("/nix/store/x/share/man/man1/hello.1.gz".to_string())
    );
    assert_eq!(man_path_for("/nix/store/x", "/"), None);
    assert_eq!(man_path_for("/nix/store/x", "."), None);
    assert_eq!(
        man_path_for("/nix/store/x", "..."),
        Some("/nix/store/x/share/man/man1/....1.gz".to_string())
    );
}

#[test]
fn discovery_output_is_read_as_json() {
    let file = sample_file(false);
    let r = file.attributes_from_output("{\"a\": {\"b\": {}}}", false).unwrap();
    assert_eq!(paths(&r), strings(&["a", "a.b"]));
    match file.attributes_from_output("{\"a\": ", false) {
        Err(NieError::Json(_)) => {},
        other => panic!("unexpected {:?}", other.map(|_| ())),
    }
}

#[test]
fn attribute_answers_are_shared_by_copies() {
    let mut answers = Registry::new();
    let mut first = sample_file(false);
    let second = sample_file(false);
    let hello = AttributePath::from("hello");
    assert_eq!(NixFile::known_attribute(&answers, &second, &hello), None);
    NixFile::remember_shared(&mut answers, &mut first, hello.clone(), true);
    assert_eq!(first.cached_attribute(&hello), Some(true));
    assert_eq!(NixFile::known_attribute(&answers, &second, &hello), Some(true));
    assert_eq!(NixFile::known_attribute(&answers, &sample_file(true), &hello), None);
}
