use updater::document::{find_field, read_package, read_registry, read_version, write_package, write_registry, write_version, Field, Json};
use updater::error::RegistryError;
use updater::install::record_install;
use updater::model::{Package, PackageVersion, Registry, VersionEntry};
use updater::remove::remove;
use updater::store::{load_packages, save_packages, Document};
use updater::switch::switch;

fn text(s: &str) -> Json {
    Json::Text(s.to_string())
}

fn field(key: &str, value: Json) -> Field {
    Field { key: key.to_string(), value }
}

fn stored_version(path: &str, date: &str, bins: Vec<&str>, installer: Json) -> Json {
    Json::Record(vec![
        field("install_path", text(path)),
        field("install_date", text(date)),
        field("bin_paths", Json::List(bins.into_iter().map(text).collect())),
        field("package_manager", installer),
    ])
}

fn a_version(path: &str, date: &str, bins: Vec<&str>, installer: Option<&str>) -> PackageVersion {
    PackageVersion {
        install_path: path.to_string(),
        install_date: date.to_string(),
        bin_paths: bins.into_iter().map(|b| b.to_string()).collect(),
        package_manager: installer.map(|s| s.to_string()),
    }
}

fn two_packages() -> Registry {
    let mut reg = Registry::new();
    record_install(&mut reg, "foo", "1.0".to_string(), false, a_version("/o/foo/1.0", "d1", vec!["/o/foo/1.0/bin/foo"], Some("apt")));
    record_install(&mut reg, "foo", "2.0".to_string(), false, a_version("/o/foo/2.0", "d2", vec![], None));
    record_install(&mut reg, "bar", "latest".to_string(), true, a_version("/u/bar/latest", "d3", vec!["a", "b"], Some("dnf")));
    reg
}

fn stored_two_packages() -> Json {
    Json::Record(vec![
        field(
            "foo",
            Json::Record(vec![
                field("name", text("foo")),
                field(
                    "versions",
                    Json::Record(vec![
                        field("1.0", stored_version("/o/foo/1.0", "d1", vec!["/o/foo/1.0/bin/foo"], text("apt"))),
                        field("2.0", stored_version("/o/foo/2.0", "d2", vec![], Json::Null)),
                    ]),
                ),
                field("active_version", text("1.0")),
                field("system", Json::Bool(true)),
            ]),
        ),
        field(
            "bar",
            Json::Record(vec![
                field("name", text("bar")),
                field(
                    "versions",
                    Json::Record(vec![field("latest", stored_version("/u/bar/latest", "d3", vec!["a", "b"], text("dnf")))]),
                ),
                field("active_version", text("latest")),
                field("system", Json::Bool(false)),
            ]),
        ),
    ])
}

#[test]
fn find_field_takes_the_last_of_a_key() {
    let fields = vec![field("a", text("1")), field("b", text("2")), field("a", text("3"))];
    assert_eq!(find_field(&fields, "a"), Some(&text("3")));
    assert_eq!(find_field(&fields, "b"), Some(&text("2")));
    assert_eq!(find_field(&fields, "c"), None);
    assert_eq!(find_field(&vec![], "a"), None);
}

#[test]
fn version_is_written_field_by_field() {
    let version = a_version("/o/foo/1.0", "2024-05-01T10:00:00+02:00", vec!["x", "y"], Some("apt"));
    assert_eq!(
        write_version(&version),
        stored_version("/o/foo/1.0", "2024-05-01T10:00:00+02:00", vec!["x", "y"], text("apt"))
    );
    let unknown = a_version("/p", "d", vec![], None);
    assert_eq!(write_version(&unknown), stored_version("/p", "d", vec![], Json::Null));
}

#[test]
fn version_is_read_back() {
    let version = a_version("/o/foo/1.0", "d", vec!["x", "y"], Some("apt"));
    assert_eq!(read_version(&write_version(&version)), Some(version));
    let unknown = a_version("/p", "d", vec![], None);
    assert_eq!(read_version(&write_version(&unknown)), Some(unknown));
}

#[test]
fn version_without_installer_field_has_no_installer() {
    let stored = Json::Record(vec![
        field("install_path", text("/p")),
        field("bin_paths", Json::List(vec![])),
        field("install_date", text("d")),
        field("comment", Json::Number("7".to_string())),
    ]);
    assert_eq!(read_version(&stored), Some(a_version("/p", "d", vec![], None)));
}

#[test]
fn version_of_another_shape_is_refused() {
    assert_eq!(read_version(&Json::Null), None);
    assert_eq!(read_version(&Json::List(vec![])), None);
    assert_eq!(read_version(&Json::Record(vec![])), None);
    let no_date = Json::Record(vec![
        field("install_path", text("/p")),
        field("bin_paths", Json::List(vec![])),
        field("package_manager", Json::Null),
    ]);
    assert_eq!(read_version(&no_date), None);
    assert_eq!(read_version(&stored_version("/p", "d", vec![], Json::Bool(true))), None);
    let bins_not_texts = Json::Record(vec![
        field("install_path", text("/p")),
        field("install_date", text("d")),
        field("bin_paths", Json::List(vec![text("a"), Json::Null])),
        field("package_manager", Json::Null),
    ]);
    assert_eq!(read_version(&bins_not_texts), None);
    let path_not_text = Json::Record(vec![
        field("install_path", Json::Number("1".to_string())),
        field("install_date", text("d")),
        field("bin_paths", Json::List(vec![])),
    ]);
    assert_eq!(read_version(&path_not_text), None);
}

#[test]
fn package_is_written_and_read_back() {
    let reg = two_packages();
    let stored = write_package(&reg.packages[0]);
    match &stored {
        Json::Record(fields) => {
            let keys: Vec<&str> = fields.iter().map(|f| f.key.as_str()).collect();
            assert_eq!(keys, vec!["name", "versions", "active_version", "system"]);
        }
        other => panic!("a package is stored as a record, not as {:?}", other),
    }
    assert_eq!(read_package(&"foo".to_string(), &stored), Some(reg.packages[0].clone()));
}

#[test]
fn package_goes_by_the_name_it_is_stored_under() {
    let reg = two_packages();
    let stored = write_package(&reg.packages[0]);
    let read = read_package(&"other".to_string(), &stored).unwrap();
    assert_eq!(read.name, "other");
    assert_eq!(read.versions, reg.packages[0].versions);
}

#[test]
fn package_of_another_shape_is_refused() {
    let name = "foo".to_string();
    assert_eq!(read_package(&name, &text("foo")), None);
    let no_system = Json::Record(vec![
        field("name", text("foo")),
        field("versions", Json::Record(vec![])),
        field("active_version", Json::Null),
    ]);
    assert_eq!(read_package(&name, &no_system), None);
    let no_name = Json::Record(vec![
        field("versions", Json::Record(vec![])),
        field("active_version", Json::Null),
        field("system", Json::Bool(true)),
    ]);
    assert_eq!(read_package(&name, &no_name), None);
    let versions_a_list = Json::Record(vec![
        field("name", text("foo")),
        field("versions", Json::List(vec![])),
        field("system", Json::Bool(true)),
    ]);
    assert_eq!(read_package(&name, &versions_a_list), None);
    let bad_version = Json::Record(vec![
        field("name", text("foo")),
        field("versions", Json::Record(vec![field("1.0", Json::Null)])),
        field("system", Json::Bool(true)),
    ]);
    assert_eq!(read_package(&name, &bad_version), None);
    let absent_active = Json::Record(vec![
        field("name", text("foo")),
        field("versions", Json::Record(vec![])),
        field("system", Json::Bool(false)),
    ]);
    assert_eq!(
        read_package(&name, &absent_active),
        Some(Package { name: "foo".to_string(), versions: vec![], active_version: None, system: false })
    );
}

#[test]
fn registry_is_written_package_by_package() {
    assert_eq!(write_registry(&two_packages()), stored_two_packages());
    assert_eq!(save_packages(&two_packages()), stored_two_packages());
    assert_eq!(save_packages(&Registry::new()), Json::Record(vec![]));
}

#[test]
fn registry_is_read_in_the_documents_order() {
    assert_eq!(read_registry(&stored_two_packages()), Some(two_packages()));
    assert_eq!(read_registry(&Json::Record(vec![])), Some(Registry::new()));
    assert_eq!(read_registry(&Json::List(vec![])), None);
    assert_eq!(read_registry(&Json::Record(vec![field("foo", Json::Null)])), None);
}

#[test]
fn load_gives_back_what_was_saved() {
    let reg = two_packages();
    assert_eq!(load_packages(Document::Parsed(save_packages(&reg))), Ok(reg));
    assert_eq!(load_packages(Document::Parsed(save_packages(&Registry::new()))), Ok(Registry::new()));
}

#[test]
fn save_gives_back_what_was_loaded() {
    let loaded = load_packages(Document::Parsed(stored_two_packages())).unwrap();
    assert_eq!(save_packages(&loaded), stored_two_packages());
}

#[test]
fn load_gives_back_what_was_saved_after_changes() {
    let mut reg = two_packages();
    switch(&mut reg, "foo", "2.0");
    remove(&mut reg, "bar", None);
    record_install(&mut reg, "baz", "0.1".to_string(), true, a_version("/u/baz/0.1", "d9", vec![], None));
    remove(&mut reg, "foo", Some("2.0".to_string()));
    assert_eq!(load_packages(Document::Parsed(save_packages(&reg))), Ok(reg));
}

#[test]
fn load_refuses_a_document_of_another_shape() {
    assert!(matches!(load_packages(Document::Parsed(Json::Null)), Err(RegistryError::CorruptRegistry(_))));
    assert!(matches!(
        load_packages(Document::Parsed(Json::List(vec![text("foo")]))),
        Err(RegistryError::CorruptRegistry(_))
    ));
    assert!(matches!(
        load_packages(Document::Parsed(Json::Record(vec![field("foo", Json::Record(vec![]))]))),
        Err(RegistryError::CorruptRegistry(_))
    ));
}

#[test]
fn load_refuses_repeated_names_and_labels() {
    let reg = two_packages();
    let twice = Json::Record(vec![
        field("foo", write_package(&reg.packages[0])),
        field("bar", write_package(&reg.packages[1])),
        field("foo", write_package(&reg.packages[0])),
    ]);
    assert!(matches!(load_packages(Document::Parsed(twice)), Err(RegistryError::CorruptRegistry(_))));
    let entry = VersionEntry { label: "1.0".to_string(), version: a_version("/p", "d", vec![], None) };
    let repeated = Package {
        name: "foo".to_string(),
        versions: vec![entry.clone(), entry],
        active_version: None,
        system: true,
    };
    let stored = Json::Record(vec![field("foo", write_package(&repeated))]);
    assert!(matches!(load_packages(Document::Parsed(stored)), Err(RegistryError::CorruptRegistry(_))));
}

#[test]
fn load_keeps_a_registry_that_is_not_consistent() {
    let stray = Package {
        name: "foo".to_string(),
        versions: vec![VersionEntry { label: "1.0".to_string(), version: a_version("/p", "d", vec![], None) }],
        active_version: Some("7.0".to_string()),
        system: true,
    };
    let reg = Registry { packages: vec![stray] };
    let loaded = load_packages(Document::Parsed(save_packages(&reg))).unwrap();
    assert_eq!(loaded, reg);
    assert!(loaded.is_well_formed());
    assert!(!loaded.is_consistent());
}
