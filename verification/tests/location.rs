use nie::aliases::Aliases;
use nie::error::NieError;
use nie::location::{AttributePath, FetchArgs, NixReference, RepositoryLocation, RepositoryReference};

fn strings(v: &[&str]) -> Vec<String> {
    v.iter().map(|s| s.to_string()).collect()
}

#[test]
fn attribute_path_from_text_and_back() {
    let p = AttributePath::from("packages.x86_64-linux.hello");
    assert_eq!(p.0, strings(&["packages", "x86_64-linux", "hello"]));
    assert_eq!(p.to_string(), "packages.x86_64-linux.hello");
    assert_eq!(p.depth(), 3);
    assert_eq!(p.name(), Some("hello"));
    assert_eq!(p.first(), Some("packages"));
}

#[test]
fn attribute_path_empty_text_is_toplevel() {
    let p = AttributePath::from("");
    assert!(p.is_toplevel());
    assert_eq!(p.to_string_user(), "<toplevel>");
    assert_eq!(p.name(), None);
    assert!(AttributePath::from_str("").unwrap().is_toplevel());
}

#[test]
fn attribute_path_child_then_parent_is_identity() {
    let p = AttributePath::from("checks.x86_64-linux");
    let c = p.child("fmt".to_string());
    assert_eq!(c.to_string(), "checks.x86_64-linux.fmt");
    assert!(c.is_child(&p));
    assert!(c.parent().unwrap().same_as(&p));
    assert!(AttributePath::toplevel().parent().is_none());
}

#[test]
fn attribute_path_indirect_children() {
    let a = AttributePath::from("checks");
    let b = AttributePath::from("checks.x86_64-linux");
    let c = AttributePath::from("checks.x86_64-linux.fmt");
    assert!(c.is_indirect_child(&a));
    assert!(c.is_indirect_child(&b));
    assert!(b.is_indirect_child(&a));
    assert!(!a.is_indirect_child(&a));
    assert!(!a.is_indirect_child(&c));
    assert!(!c.is_child(&a));
}

#[test]
fn attribute_path_join() {
    let a = AttributePath::from("legacyPackages.x86_64-linux");
    let b = AttributePath::from("hello");
    assert_eq!(a.join(&b).to_string(), "legacyPackages.x86_64-linux.hello");
}

#[test]
fn common_package_locations_with_and_without_system() {
    let with: Vec<String> = AttributePath::common_package_locations(Some("x86_64-linux"))
        .iter()
        .map(|p| p.to_string())
        .collect();
    assert_eq!(
        with,
        strings(&["packages", "legacyPackages", "packages.x86_64-linux", "legacyPackages.x86_64-linux", ""])
    );
    let without: Vec<String> =
        AttributePath::common_package_locations(None).iter().map(|p| p.to_string()).collect();
    assert_eq!(without, strings(&["packages", "legacyPackages", ""]));
}

#[test]
fn common_check_and_shell_locations() {
    let checks: Vec<String> = AttributePath::common_check_locations(Some("aarch64-darwin"))
        .iter()
        .map(|p| p.to_string())
        .collect();
    assert_eq!(checks, strings(&["checks", "checks.aarch64-darwin", ""]));
    let shells: Vec<String> =
        AttributePath::common_dev_shell_locations(None).iter().map(|p| p.to_string()).collect();
    assert_eq!(shells, strings(&["devShells", ""]));
    let templates: Vec<String> =
        AttributePath::common_template_locations(None).iter().map(|p| p.to_string()).collect();
    assert_eq!(templates, strings(&["templates", ""]));
}

#[test]
fn location_github_with_branch() {
    let l = RepositoryLocation::parse("github://nixos/nixpkgs/nixos-unstable", false).unwrap();
    assert_eq!(
        l,
        RepositoryLocation::Github("nixos".to_string(), "nixpkgs".to_string(), Some("nixos-unstable".to_string()))
    );
    assert_eq!(l.to_string(), "github://nixos/nixpkgs/nixos-unstable");
}

#[test]
fn location_codeberg_without_ref() {
    let l = RepositoryLocation::parse("codeberg://mergiraf/mergiraf", false).unwrap();
    assert_eq!(l, RepositoryLocation::Codeberg("mergiraf".to_string(), "mergiraf".to_string(), None));
    assert_eq!(l.to_string(), "codeberg://mergiraf/mergiraf");
}

#[test]
fn location_forgejo_ref_may_hold_slashes() {
    let l = RepositoryLocation::parse("forgejo://git.example.org/me/repo/feature/x", false).unwrap();
    assert_eq!(
        l,
        RepositoryLocation::Forgejo(
            "git.example.org".to_string(),
            "me".to_string(),
            "repo".to_string(),
            Some("feature/x".to_string())
        )
    );
}

#[test]
fn location_forge_without_repo_is_refused() {
    assert!(RepositoryLocation::parse("github://nixos", false).is_err());
    assert!(RepositoryLocation::parse("forgejo://example.org/me", false).is_err());
}

#[test]
fn location_tarball_local_and_git() {
    let t = RepositoryLocation::parse("https://example.org/src.tar.gz", false).unwrap();
    assert_eq!(t, RepositoryLocation::Tarball("https://example.org/src.tar.gz".to_string()));
    assert_eq!(t.to_string(), "tar://https://example.org/src.tar.gz");
    let f = RepositoryLocation::parse("file:///home/me/project", false).unwrap();
    assert_eq!(f, RepositoryLocation::LocalFile("/home/me/project".to_string()));
    let g = RepositoryLocation::parse("git@github.com:nixos/nixpkgs", false).unwrap();
    assert_eq!(g, RepositoryLocation::Git("git@github.com:nixos/nixpkgs".to_string()));
    assert_eq!(g.to_string(), "git://git@github.com:nixos/nixpkgs");
    let d = RepositoryLocation::parse("./project", true).unwrap();
    assert_eq!(d, RepositoryLocation::LocalFile("./project".to_string()));
}

#[test]
fn fetch_args_are_kept_sorted() {
    let mut a = FetchArgs::new();
    a.insert("rev".to_string(), "abc".to_string());
    a.insert("allRefs".to_string(), "true".to_string());
    a.insert("rev".to_string(), "def".to_string());
    let keys: Vec<&str> = a.entries().iter().map(|(k, _)| k.as_str()).collect();
    assert_eq!(keys, vec!["allRefs", "rev"]);
    assert_eq!(a.get("rev").map(|s| s.as_str()), Some("def"));
    assert_eq!(a.get("ref"), None);
    assert_eq!(a.len(), 2);
}

#[test]
fn reference_with_attribute_file_and_arguments() {
    let aliases = Aliases::new();
    let r = NixReference::parse("github://nixos/nixpkgs/nixos-unstable#hello#file=pkgs.nix#rev=abc", &aliases, false)
        .unwrap();
    assert_eq!(r.attribute().to_string(), "hello");
    assert_eq!(r.filename().map(|s| s.as_str()), Some("pkgs.nix"));
    assert_eq!(r.repository().fetch_args().get("rev").map(|s| s.as_str()), Some("abc"));
    assert_eq!(r.to_string(), "github://nixos/nixpkgs/nixos-unstable#hello#file=pkgs.nix#rev=abc");
}

#[test]
fn reference_short_file_key() {
    let aliases = Aliases::new();
    let r = NixReference::parse("git://./.#f=shell.nix", &aliases, false).unwrap();
    assert_eq!(r.filename().map(|s| s.as_str()), Some("shell.nix"));
    assert!(r.attribute().is_toplevel());
}

#[test]
fn reference_roundtrip_through_text() {
    let aliases = Aliases::new();
    let text = "codeberg://jzbor/nie#packages.x86_64-linux.default#file=default.nix#ref=main";
    let r = NixReference::parse(text, &aliases, false).unwrap();
    let again = NixReference::parse(&r.to_string(), &aliases, false).unwrap();
    assert!(again.same_as(&r));
}

#[test]
fn reference_through_alias() {
    let mut aliases = Aliases::new();
    let target = NixReference::parse("github://nixos/nixpkgs", &Aliases::new(), false).unwrap();
    aliases.insert("nixpkgs".to_string(), target);
    let r = NixReference::parse("nixpkgs#hello", &aliases, false).unwrap();
    assert_eq!(r.to_string(), "github://nixos/nixpkgs#hello");
}

#[test]
fn reference_invalid_location_is_an_error() {
    let aliases = Aliases::new();
    match NixReference::parse("github://nixos#hello", &aliases, false) {
        Err(NieError::InvalidLocationSpec(s)) => assert_eq!(s, "github://nixos#hello"),
        other => panic!("unexpected {:?}", other),
    }
}

#[test]
fn repository_reference_text_and_equality() {
    let mut r = RepositoryReference::new(RepositoryLocation::Git("https://example.org/x".to_string()));
    r.fetch_args_mut().insert("shallow".to_string(), "false".to_string());
    assert_eq!(r.to_string(), "git://https://example.org/x#shallow=false");
    let f = r.with_filename(Some("x.nix".to_string()));
    assert_eq!(f.to_string(), "git://https://example.org/x#file=x.nix#shallow=false");
    assert!(r.same_as(&r.clone()));
    let other = RepositoryReference::new(RepositoryLocation::Git("https://example.org/x".to_string()));
    assert!(!r.same_as(&other));
}

#[test]
fn locations_with_hash_read_back() {
    let locations = vec![
        RepositoryLocation::Git("https://example.org/r#frag".to_string()),
        RepositoryLocation::Github("me".to_string(), "x#y".to_string(), Some("b#1".to_string())),
        RepositoryLocation::Codeberg("o#".to_string(), "r".to_string(), None),
    ];
    for l in locations {
        assert_eq!(RepositoryLocation::from_str(&l.to_string()), Ok(l));
    }
}
