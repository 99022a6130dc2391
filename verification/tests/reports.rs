use updater::error::RegistryError;
use updater::install::record_install;
use updater::list::{list, ListedPackage, ListedVersion, Listing, Scope};
use updater::model::{Package, PackageVersion, Registry, VersionEntry};
use updater::search::{search, Offer, SearchHit, SearchResponse};
use updater::store::{get_package_db_path, load_packages, Document};
use updater::switch::switch;
use updater::update::{conclude_update, update, UpdatePlan, UpdateRequest};

fn recorded(path: &str, date: &str, installer: Option<&str>) -> PackageVersion {
    PackageVersion {
        install_path: path.to_string(),
        install_date: date.to_string(),
        bin_paths: vec![],
        package_manager: installer.map(|s| s.to_string()),
    }
}

fn sample() -> Registry {
    let mut reg = Registry::new();
    record_install(&mut reg, "foo", "1.0".to_string(), false, recorded("/o/foo/1.0", "d1", Some("apt")));
    record_install(&mut reg, "foo", "2.0".to_string(), false, recorded("/o/foo/2.0", "d2", Some("dnf")));
    record_install(&mut reg, "bar", "0.3".to_string(), true, recorded("/u/bar/0.3", "d3", Some("pacman")));
    reg
}

fn offer(name: &str, description: &str) -> Offer {
    Offer { name: name.to_string(), description: description.to_string() }
}

fn hit(name: &str, description: &str, source: &str) -> SearchHit {
    SearchHit { name: name.to_string(), description: description.to_string(), source: source.to_string() }
}

#[test]
fn update_all_asks_for_every_active_version() {
    let reg = sample();
    let plan = update(&reg, None);
    assert_eq!(
        plan,
        UpdatePlan::Requests(vec![
            UpdateRequest {
                name: "foo".to_string(),
                version: "1.0".to_string(),
                install_path: "/o/foo/1.0".to_string(),
                user: false,
                installer: "apt".to_string(),
            },
            UpdateRequest {
                name: "bar".to_string(),
                version: "0.3".to_string(),
                install_path: "/u/bar/0.3".to_string(),
                user: true,
                installer: "pacman".to_string(),
            },
        ])
    );
}

#[test]
fn update_follows_the_active_version() {
    let mut reg = sample();
    switch(&mut reg, "foo", "2.0");
    let plan = update(&reg, Some("foo"));
    assert_eq!(
        plan,
        UpdatePlan::Requests(vec![UpdateRequest {
            name: "foo".to_string(),
            version: "2.0".to_string(),
            install_path: "/o/foo/2.0".to_string(),
            user: false,
            installer: "dnf".to_string(),
        }])
    );
}

#[test]
fn update_of_unknown_package_is_reported() {
    let reg = sample();
    assert_eq!(update(&reg, Some("nope")), UpdatePlan::PackageNotFound);
}

#[test]
fn update_all_of_empty_registry_asks_nothing() {
    assert_eq!(update(&Registry::new(), None), UpdatePlan::Requests(vec![]));
}

#[test]
fn update_passes_over_packages_without_installer_or_active_version() {
    let mut reg = sample();
    record_install(&mut reg, "raw", "1".to_string(), false, recorded("/o/raw/1", "d4", None));
    assert_eq!(update(&reg, Some("raw")), UpdatePlan::Requests(vec![]));
    let idle = Package {
        name: "idle".to_string(),
        versions: vec![VersionEntry { label: "1".to_string(), version: recorded("/o/idle/1", "d5", Some("apt")) }],
        active_version: None,
        system: true,
    };
    reg.packages.push(idle);
    assert_eq!(update(&reg, Some("idle")), UpdatePlan::Requests(vec![]));
    match update(&reg, None) {
        UpdatePlan::Requests(requests) => {
            let names: Vec<String> = requests.iter().map(|r| r.name.clone()).collect();
            assert_eq!(names, vec!["foo".to_string(), "bar".to_string()]);
        }
        UpdatePlan::PackageNotFound => panic!("an update of every package names none"),
    }
}

#[test]
fn update_all_isolates_failures() {
    let reg = sample();
    let before = reg.clone();
    let plan = update(&reg, None);
    let requests = match plan {
        UpdatePlan::Requests(requests) => requests,
        UpdatePlan::PackageNotFound => panic!("an update of every package names none"),
    };
    assert_eq!(requests.len(), 2);
    let outcomes = vec![Err("network down".to_string()), Ok(())];
    assert_eq!(conclude_update(true, &outcomes), Ok(()));
    assert_eq!(reg, before);
}

#[test]
fn update_of_one_package_fails_with_the_installer() {
    let outcomes = vec![Err("network down".to_string())];
    assert_eq!(
        conclude_update(false, &outcomes),
        Err(RegistryError::InstallerError("network down".to_string()))
    );
    assert_eq!(conclude_update(false, &vec![Ok(())]), Ok(()));
    assert_eq!(conclude_update(false, &vec![]), Ok(()));
    let several = vec![Ok(()), Err("first".to_string()), Err("second".to_string())];
    assert_eq!(conclude_update(false, &several), Err(RegistryError::InstallerError("first".to_string())));
    assert_eq!(conclude_update(true, &several), Ok(()));
}

#[test]
fn list_of_empty_registry() {
    let reg = Registry::new();
    assert_eq!(list(&reg, false, false), Listing::NoPackages);
    assert_eq!(list(&reg, true, false), Listing::NoPackages);
    assert_eq!(list(&reg, false, true), Listing::NoPackages);
    assert_eq!(list(&reg, true, true), Listing::NoPackages);
}

#[test]
fn list_shows_every_package_and_version() {
    let reg = sample();
    let expected = Listing::Packages(vec![
        ListedPackage {
            name: "foo".to_string(),
            scope: Scope::System,
            version_count: 2,
            versions: vec![
                ListedVersion { active: true, label: "1.0".to_string(), install_date: "d1".to_string() },
                ListedVersion { active: false, label: "2.0".to_string(), install_date: "d2".to_string() },
            ],
        },
        ListedPackage {
            name: "bar".to_string(),
            scope: Scope::User,
            version_count: 1,
            versions: vec![ListedVersion { active: true, label: "0.3".to_string(), install_date: "d3".to_string() }],
        },
    ]);
    assert_eq!(list(&reg, false, false), expected);
    assert_eq!(list(&reg, false, false), expected);
}

#[test]
fn list_filters_by_scope() {
    let reg = sample();
    match list(&reg, true, false) {
        Listing::Packages(rows) => {
            assert_eq!(rows.len(), 1);
            assert_eq!(rows[0].name, "foo");
            assert_eq!(rows[0].scope, Scope::System);
        }
        other => panic!("unexpected listing {:?}", other),
    }
    match list(&reg, false, true) {
        Listing::Packages(rows) => {
            assert_eq!(rows.len(), 1);
            assert_eq!(rows[0].name, "bar");
            assert_eq!(rows[0].scope, Scope::User);
        }
        other => panic!("unexpected listing {:?}", other),
    }
}

#[test]
fn list_tells_an_empty_filter_from_an_empty_registry() {
    let mut users = Registry::new();
    record_install(&mut users, "bar", "0.3".to_string(), true, recorded("/u/bar/0.3", "d3", None));
    assert_eq!(list(&users, true, false), Listing::NoSystemPackages);
    let mut systems = Registry::new();
    record_install(&mut systems, "foo", "1.0".to_string(), false, recorded("/o/foo/1.0", "d1", None));
    assert_eq!(list(&systems, false, true), Listing::NoUserPackages);
}

#[test]
fn list_with_both_filters_shows_nothing() {
    let reg = sample();
    assert_eq!(list(&reg, true, true), Listing::NoSystemPackages);
}

#[test]
fn list_marks_the_switched_version() {
    let mut reg = sample();
    switch(&mut reg, "foo", "2.0");
    match list(&reg, true, false) {
        Listing::Packages(rows) => {
            assert!(!rows[0].versions[0].active);
            assert!(rows[0].versions[1].active);
        }
        other => panic!("unexpected listing {:?}", other),
    }
}

#[test]
fn search_without_installer_fails() {
    assert_eq!(search(&vec![]), Err(RegistryError::NoInstallerAvailable));
}

#[test]
fn search_gathers_hits_by_installer() {
    let responses = vec![
        SearchResponse {
            installer: "apt".to_string(),
            found: Ok(vec![offer("ripgrep", "fast grep"), offer("rip", "a rm that keeps")]),
        },
        SearchResponse { installer: "dnf".to_string(), found: Ok(vec![]) },
        SearchResponse { installer: "pacman".to_string(), found: Ok(vec![offer("ripgrep", "fast grep")]) },
    ];
    assert_eq!(
        search(&responses),
        Ok(vec![
            hit("ripgrep", "fast grep", "apt"),
            hit("rip", "a rm that keeps", "apt"),
            hit("ripgrep", "fast grep", "pacman"),
        ])
    );
}

#[test]
fn search_without_matches_is_empty() {
    let responses = vec![
        SearchResponse { installer: "apt".to_string(), found: Ok(vec![]) },
        SearchResponse { installer: "dnf".to_string(), found: Ok(vec![]) },
    ];
    assert_eq!(search(&responses), Ok(vec![]));
}

#[test]
fn search_fails_with_the_first_failure() {
    let responses = vec![
        SearchResponse { installer: "apt".to_string(), found: Ok(vec![offer("ripgrep", "fast grep")]) },
        SearchResponse { installer: "dnf".to_string(), found: Err("no network".to_string()) },
        SearchResponse { installer: "pacman".to_string(), found: Err("locked".to_string()) },
    ];
    assert_eq!(search(&responses), Err(RegistryError::InstallerError("no network".to_string())));
}

#[test]
fn db_path_lies_below_the_data_directory() {
    assert_eq!(get_package_db_path("/home/ann/.local/share"), "/home/ann/.local/share/updater/packages.json");
}

#[test]
fn load_of_nothing_is_an_empty_registry() {
    assert_eq!(load_packages(Document::Missing), Ok(Registry::new()));
}

#[test]
fn load_refuses_what_it_cannot_read_or_parse() {
    assert_eq!(
        load_packages(Document::Unreadable("permission denied".to_string())),
        Err(RegistryError::PersistenceError("permission denied".to_string()))
    );
    assert_eq!(
        load_packages(Document::Malformed("expected value at line 1".to_string())),
        Err(RegistryError::CorruptRegistry("expected value at line 1".to_string()))
    );
}

