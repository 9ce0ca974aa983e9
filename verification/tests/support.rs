use nie::interact::{
    inform_create_gc_root, inform_enter_dev_shell, inform_eval, inform_fetch, inform_init_from_template,
    inform_init_shell_nix, inform_open_man,
};
use nie::interact::{
    announcement, inform_build, inform_create_dev_shell_pinned, inform_enter_shell, inform_fetch_multiple,
    inform_run_binary, Segment, Style,
};
use nie::json::{JsonMember, JsonValue};
use nie::location::{AttributePath, RepositoryLocation, RepositoryReference};
use nie::pinning::{parse_u32, reverse_cd_script, PinnedShell};
use nie::store::{Checkout, NixFile};
use nie::eval_args::EvalArgs;
use nie::error::NieError;

fn texts(m: &[Segment]) -> Vec<(String, Style)> {
    m.iter().map(|s| (s.text.clone(), s.style)).collect()
}

fn git(url: &str) -> RepositoryReference {
    RepositoryReference::new(RepositoryLocation::Git(url.to_string()))
}

#[test]
fn fetch_messages_name_up_to_three() {
    assert_eq!(texts(&inform_fetch_multiple(&[])), vec![("Fetching ".to_string(), Style::Plain)]);
    let two = inform_fetch_multiple(&[git("a"), git("b")]);
    assert_eq!(
        texts(&two),
        vec![
            ("Fetching ".to_string(), Style::Plain),
            ("git://a".to_string(), Style::Underline),
            (" and ".to_string(), Style::Plain),
            ("git://b".to_string(), Style::Underline),
        ]
    );
    let five = inform_fetch_multiple(&[git("a"), git("b"), git("c"), git("d"), git("e")]);
    assert_eq!(five.len(), 5);
    assert_eq!(five[4].text, " and 3 more");
}

#[test]
fn build_message() {
    let checkout = Checkout::new(git("https://x"), "/nix/store/s".to_string());
    let file = NixFile::open(checkout, None, EvalArgs::default());
    let m = inform_build(&AttributePath::from("hello"), &file, true, Some("builder"));
    let joined: String = m.iter().map(|s| s.text.as_str()).collect();
    assert_eq!(joined, "Building hello from (git://https://x) with flake_compat on builder");
    assert_eq!(m[1].style, Style::Italic);
    assert_eq!(m[3].style, Style::Underline);
    let top = inform_build(&AttributePath::toplevel(), &file, false, None);
    assert_eq!(top[1].text, "<toplevel>");
}

#[test]
fn other_messages() {
    assert_eq!(inform_enter_shell(3)[0].text, "Entering shell with 3 added paths");
    assert_eq!(inform_create_dev_shell_pinned(3 * 86400 + 5)[0].text, "Entering dev shell from local pin (3 days old)");
    assert_eq!(inform_run_binary("/bin/x")[0].text, "Executing /bin/x");
    assert_eq!(announcement("Results"), "=> Results");
}

#[test]
fn process_ids_are_read_like_from_str() {
    assert_eq!(parse_u32("1234"), Some(1234));
    assert_eq!(parse_u32("+7"), Some(7));
    assert_eq!(parse_u32("4294967295"), Some(u32::MAX));
    assert_eq!(parse_u32("4294967296"), None);
    assert_eq!(parse_u32(""), None);
    assert_eq!(parse_u32("+"), None);
    assert_eq!(parse_u32("-1"), None);
    assert_eq!(parse_u32("12a"), None);
    for s in ["0", "42", "+42", "007", "99999999999", "", "x"] {
        assert_eq!(parse_u32(s), s.parse::<u32>().ok());
    }
}

#[test]
fn pinned_shell_paths() {
    let p = PinnedShell::new("/home/me/p".to_string(), true).unwrap();
    assert_eq!(p.pin_dir(), "/home/me/p/.nie-dev-shell");
    assert_eq!(p.drv_link(), "/home/me/p/.nie-dev-shell/drv");
    assert_eq!(p.gcroot_link(), "/home/me/p/.nie-dev-shell/path");
    assert_eq!(p.ref_file(), "/home/me/p/.nie-dev-shell/ref");
    assert_eq!(p.recd_link(42), "/home/me/p/.nie-dev-shell/tmp_recd_42");
    assert_eq!(PinnedShell::pin_dir_for("/q"), "/q/.nie-dev-shell");
    match PinnedShell::new("/nowhere".to_string(), false) {
        Err(NieError::PinnedShellNotFound(d)) => assert_eq!(d, "/nowhere"),
        other => panic!("unexpected {:?}", other),
    }
    let inv = p.git_registered_invocation();
    assert_eq!(inv.program, "git");
    assert_eq!(inv.args, vec!["ls-files", "--error-unmatch", "/home/me/p/.nie-dev-shell"]);
}

#[test]
fn pinned_shell_safety() {
    assert!(PinnedShell::is_safe("/nix/store/abc-shell", false));
    assert!(!PinnedShell::is_safe("/nix/store/abc-shell", true));
    assert!(!PinnedShell::is_safe("/home/me/shell", false));
    assert!(!PinnedShell::is_safe("/nix/storeX/abc", false));
}

#[test]
fn reverse_cd() {
    assert_eq!(
        reverse_cd_script("/p/.nie-dev-shell/tmp_recd_1", "/p/src"),
        "if [ -L \"/p/.nie-dev-shell/tmp_recd_1\" ]; then cd \"/p/src\"; unlink \"/p/.nie-dev-shell/tmp_recd_1\"; fi"
    );
}

#[test]
fn json_values_clone_exactly() {
    let v = JsonValue::Object(vec![
        JsonMember { key: "a".to_string(), value: JsonValue::Array(vec![JsonValue::Null, JsonValue::Bool(true)]) },
        JsonMember { key: "b".to_string(), value: JsonValue::Number("1.5".to_string()) },
    ]);
    assert_eq!(v.clone(), v);
}

#[test]
fn messages_about_files_and_paths() {
    let checkout = Checkout::new(git("https://x"), "/nix/store/s".to_string());
    let file = NixFile::open(checkout, Some("f.nix".to_string()), EvalArgs::default());
    let attr = AttributePath::from("devShells.default");
    let joined = |m: Vec<Segment>| -> String { m.iter().map(|s| s.text.as_str()).collect() };
    assert_eq!(
        joined(inform_create_gc_root("/p/drv", &attr, &file)),
        "Creating gc root /p/drv for derivation of devShells.default (git://https://x#file=f.nix)"
    );
    assert_eq!(
        joined(inform_enter_dev_shell(&attr, &file)),
        "Entering dev shell devShells.default from git://https://x#file=f.nix"
    );
    assert_eq!(joined(inform_eval(&attr, &file, false)), "Building devShells.default from (git://https://x#file=f.nix)");
    assert_eq!(joined(inform_fetch(&git("https://x"))), "Fetching git://https://x");
    assert_eq!(joined(inform_open_man("/m/x.1.gz")), "Opening man page /m/x.1.gz");
    assert_eq!(joined(inform_init_from_template(".", "/nix/store/t")), "Initializing . from /nix/store/t");
    assert_eq!(joined(inform_init_shell_nix("./shell.nix")), "Initializing ./shell.nix");
}
