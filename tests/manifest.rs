use flex_update_tools::document::{take_entry, Node};
use flex_update_tools::error::UpdateError;
use flex_update_tools::lock::CargoLock;
use flex_update_tools::manifest::BotCargoToml;

fn text(s: &str) -> Node {
    Node::Text(s.to_string())
}

fn table(entries: Vec<(&str, Node)>) -> Node {
    Node::Table(entries.into_iter().map(|(k, v)| (k.to_string(), v)).collect())
}

fn entries(n: Node) -> Vec<(String, Node)> {
    match n {
        Node::Table(t) => t,
        _ => panic!("not a table"),
    }
}

fn git_dep(rev: &str) -> Node {
    table(vec![
        ("features", Node::List(vec![text("log")])),
        ("git", text("https://github.com/azalea-rs/azalea")),
        ("rev", text(rev)),
    ])
}

fn manifest_doc(rev: &str) -> Vec<(String, Node)> {
    entries(table(vec![
        ("package", table(vec![
            ("name", text("flex-update-mc-bot")),
            ("edition", text("2024")),
            ("metadata", table(vec![
                ("mc_version", text("1.21.6")),
                ("extra", table(vec![("deep", table(vec![("n", Node::Other(toml::Value::Integer(7)))]))])),
            ])),
        ])),
        ("dependencies", table(vec![
            ("anyhow", text("1.0.90")),
            ("azalea-protocol", git_dep(rev)),
            ("serde", table(vec![("version", text("1")), ("features", Node::List(vec![text("derive")]))])),
            ("azalea-client", git_dep(rev)),
            ("tokio", text("1.40.0")),
        ])),
        ("profile", table(vec![("release", table(vec![("lto", Node::Other(toml::Value::Boolean(true)))]))])),
    ]))
}

fn lock_doc() -> Vec<(String, Node)> {
    entries(table(vec![
        ("version", Node::Other(toml::Value::Integer(4))),
        ("package", Node::List(vec![
            table(vec![("name", text("anyhow")), ("version", text("1.0.98"))]),
            table(vec![("name", text("tokio")), ("version", text("1.45.1")), ("source", text("registry"))]),
        ])),
    ]))
}

fn text_of(n: &Node) -> &str {
    match n {
        Node::Text(s) => s.as_str(),
        _ => panic!("not a text"),
    }
}

fn find<'a>(t: &'a [(String, Node)], k: &str) -> &'a Node {
    &t.iter().find(|e| e.0 == k).expect("missing key").1
}

#[test]
fn reads_known_fields() {
    let m = BotCargoToml::from_document(manifest_doc("aaaa")).unwrap();
    assert_eq!(m.current_rev(), "aaaa");
    assert_eq!(m.dependencies.azalea_client.rev, "aaaa");
    assert_eq!(m.dependencies.anyhow, "1.0.90");
    assert_eq!(m.dependencies.tokio, "1.40.0");
    assert_eq!(m.package.metadata.mc_version, "1.21.6");
    assert_eq!(m.others.len(), 1);
    assert_eq!(m.dependencies.others.len(), 1);
    assert_eq!(m.package.others.len(), 2);
    assert_eq!(m.dependencies.azalea_protocol.others.len(), 1);
}

#[test]
fn round_trip_keeps_known_fields_and_remainder() {
    let m = BotCargoToml::from_document(manifest_doc("aaaa")).unwrap();
    let written = m.into_document();
    let again = BotCargoToml::from_document(written).unwrap();
    assert_eq!(again.current_rev(), "aaaa");
    assert_eq!(again.dependencies.azalea_protocol.git, "https://github.com/azalea-rs/azalea");
    assert_eq!(again.package.metadata.mc_version, "1.21.6");
    assert_eq!(again.others[0].0, "profile");
    assert_eq!(again.dependencies.others[0].0, "serde");
    assert_eq!(again.package.others[0].0, "name");
    assert_eq!(again.package.others[1].0, "edition");
    let (key, extra) = &again.package.metadata.others[0];
    assert_eq!(key, "extra");
    let extra = match extra {
        Node::Table(t) => t,
        _ => panic!("extra table lost"),
    };
    match find(extra, "deep") {
        Node::Table(t) => assert!(matches!(&t[0].1, Node::Other(toml::Value::Integer(7)))),
        _ => panic!("deep table lost"),
    }
}

#[test]
fn pin_and_version_change_nothing_else() {
    let mut m = BotCargoToml::from_document(manifest_doc("aaaa")).unwrap();
    m.pin_revision("bbbb");
    m.set_mc_version("1.21.7");
    assert_eq!(m.dependencies.azalea_protocol.rev, "bbbb");
    assert_eq!(m.dependencies.azalea_client.rev, "bbbb");
    assert_eq!(m.package.metadata.mc_version, "1.21.7");
    assert_eq!(m.dependencies.anyhow, "1.0.90");
    assert_eq!(m.dependencies.tokio, "1.40.0");
    assert_eq!(m.dependencies.azalea_client.git, "https://github.com/azalea-rs/azalea");
    let d = m.into_document();
    let deps = match find(&d, "dependencies") {
        Node::Table(t) => t,
        _ => panic!(),
    };
    let serde = match find(deps, "serde") {
        Node::Table(t) => t,
        _ => panic!(),
    };
    assert_eq!(text_of(find(serde, "version")), "1");
    let profile = match find(&d, "profile") {
        Node::Table(t) => t,
        _ => panic!(),
    };
    assert!(matches!(find(profile, "release"), Node::Table(_)));
}

#[test]
fn apply_update_copies_lock_pins() {
    let mut m = BotCargoToml::from_document(manifest_doc("aaaa")).unwrap();
    let lock = CargoLock::from_document(lock_doc()).unwrap();
    assert_eq!(m.apply_update("cccc", "1.21.7", &lock), Ok(()));
    assert_eq!(m.current_rev(), "cccc");
    assert_eq!(m.dependencies.azalea_client.rev, "cccc");
    assert_eq!(m.dependencies.anyhow, "1.0.98");
    assert_eq!(m.dependencies.tokio, "1.45.1");
    assert_eq!(m.package.metadata.mc_version, "1.21.7");
}

#[test]
fn missing_lock_entry_is_fatal_and_changes_nothing() {
    let mut m = BotCargoToml::from_document(manifest_doc("aaaa")).unwrap();
    let lock = CargoLock::from_document(entries(table(vec![(
        "package",
        Node::List(vec![table(vec![("name", text("anyhow")), ("version", text("1.0.98"))])]),
    )])))
    .unwrap();
    assert_eq!(m.apply_update("cccc", "1.21.7", &lock), Err(UpdateError::MissingLockEntryError));
    assert_eq!(m.current_rev(), "aaaa");
    assert_eq!(m.dependencies.anyhow, "1.0.90");
}

#[test]
fn missing_dependency_table_is_a_format_error() {
    let mut d = manifest_doc("aaaa");
    take_entry(&mut d, "dependencies");
    assert!(matches!(BotCargoToml::from_document(d), Err(UpdateError::ManifestFormatError)));
}

#[test]
fn wrongly_shaped_rev_is_a_format_error() {
    let mut d = manifest_doc("aaaa");
    let deps = match take_entry(&mut d, "dependencies") {
        Some(Node::Table(t)) => t,
        _ => panic!(),
    };
    let mut deps = deps;
    take_entry(&mut deps, "azalea-client");
    deps.push(("azalea-client".to_string(), table(vec![
        ("git", text("https://github.com/azalea-rs/azalea")),
        ("rev", Node::Other(toml::Value::Integer(5))),
    ])));
    d.push(("dependencies".to_string(), Node::Table(deps)));
    assert!(matches!(BotCargoToml::from_document(d), Err(UpdateError::ManifestFormatError)));
}

#[test]
fn lock_versions_are_looked_up_by_name() {
    let lock = CargoLock::from_document(lock_doc()).unwrap();
    assert_eq!(lock.version_of("tokio"), Ok("1.45.1".to_string()));
    assert_eq!(lock.version_of("serde"), Err(UpdateError::MissingLockEntryError));
}

#[test]
fn malformed_lock_is_a_format_error() {
    let doc = entries(table(vec![(
        "package",
        Node::List(vec![table(vec![("name", text("anyhow"))])]),
    )]));
    assert!(matches!(CargoLock::from_document(doc), Err(UpdateError::ManifestFormatError)));
}
