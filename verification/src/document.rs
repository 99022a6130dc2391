//! The stored form of the registry: a tree of records, lists and texts,
//! and the rules by which a registry is written into one and read back.

use vstd::prelude::*;
use crate::model::{Registry, RegistryView, Package, PackageView, PackageVersion, VersionView,
    VersionEntry, EntryView, text_of, texts_of, entries_of};

verus! {

/// A value of a stored document.
#[derive(Debug, PartialEq, Eq)]
pub enum Json {
    Null,
    Bool(bool),
    /// A number, by its digits. No part of a registry is a number.
    Number(String),
    Text(String),
    List(Vec<Json>),
    /// Named values, in the order in which the document gives them.
    Record(Vec<Field>),
}

/// One named value of a record.
#[derive(Debug, PartialEq, Eq)]
pub struct Field {
    pub key: String,
    pub value: Json,
}

/// The value that a record gives for a key: that of the last field of
/// that key, if there is one.
pub open spec fn lookup(fields: Seq<Field>, key: Seq<char>) -> Option<Json>
    decreases fields.len(),
{
    if fields.len() == 0 {
        None
    } else if fields.last().key@ == key {
        Some(fields.last().value)
    } else {
        lookup(fields.drop_last(), key)
    }
}

/// The text that a value is, if it is one.
pub open spec fn text_in(json: Json) -> Option<Seq<char>> {
    match json {
        Json::Text(s) => Some(s@),
        _ => None,
    }
}

/// The text that a record gives for a key.
pub open spec fn text_at(fields: Seq<Field>, key: Seq<char>) -> Option<Seq<char>> {
    match lookup(fields, key) {
        Some(json) => text_in(json),
        None => None,
    }
}

/// The text that a record may give for a key: none where the key is
/// absent or its value is null. The outer `None` says that the value is
/// something else.
pub open spec fn optional_text_at(fields: Seq<Field>, key: Seq<char>) -> Option<Option<Seq<char>>> {
    match lookup(fields, key) {
        None => Some(None),
        Some(Json::Null) => Some(None),
        Some(Json::Text(s)) => Some(Some(s@)),
        Some(_) => None,
    }
}

/// The truth value that a record gives for a key.
pub open spec fn bool_at(fields: Seq<Field>, key: Seq<char>) -> Option<bool> {
    match lookup(fields, key) {
        Some(Json::Bool(b)) => Some(b),
        _ => None,
    }
}

/// The texts that a value lists, if it is a list of texts.
pub open spec fn texts_in(json: Json) -> Option<Seq<Seq<char>>> {
    match json {
        Json::List(items) => if forall|i: int|
            0 <= i < items@.len() ==> text_in(#[trigger] items@[i]) is Some {
            Some(Seq::new(items@.len(), |i: int| text_in(items@[i]).unwrap()))
        } else {
            None
        },
        _ => None,
    }
}

/// The texts that a record lists under a key.
pub open spec fn texts_at(fields: Seq<Field>, key: Seq<char>) -> Option<Seq<Seq<char>>> {
    match lookup(fields, key) {
        Some(json) => texts_in(json),
        None => None,
    }
}

/// The version that a value describes, if it describes one: a record with
/// the texts `install_path` and `install_date`, the list of texts
/// `bin_paths` and, if known, the text `package_manager`.
pub open spec fn version_in(json: Json) -> Option<VersionView> {
    match json {
        Json::Record(fields) => {
            let install_path = text_at(fields@, "install_path"@);
            let install_date = text_at(fields@, "install_date"@);
            let bin_paths = texts_at(fields@, "bin_paths"@);
            let package_manager = optional_text_at(fields@, "package_manager"@);
            if install_path is Some && install_date is Some && bin_paths is Some
                && package_manager is Some {
                Some(
                    VersionView {
                        install_path: install_path.unwrap(),
                        install_date: install_date.unwrap(),
                        bin_paths: bin_paths.unwrap(),
                        package_manager: package_manager.unwrap(),
                    },
                )
            } else {
                None
            }
        },
        _ => None,
    }
}

/// The versions that a value describes, if it is a record of versions:
/// each field is a version under its label, in the record's order.
pub open spec fn versions_in(json: Json) -> Option<Seq<EntryView>> {
    match json {
        Json::Record(fields) => if forall|i: int|
            0 <= i < fields@.len() ==> version_in((#[trigger] fields@[i]).value) is Some {
            Some(
                Seq::new(
                    fields@.len(),
                    |i: int|
                        EntryView {
                            label: fields@[i].key@,
                            version: version_in(fields@[i].value).unwrap(),
                        },
                ),
            )
        } else {
            None
        },
        _ => None,
    }
}

/// The versions that a record holds under a key.
pub open spec fn versions_at(fields: Seq<Field>, key: Seq<char>) -> Option<Seq<EntryView>> {
    match lookup(fields, key) {
        Some(json) => versions_in(json),
        None => None,
    }
}

/// The package that a value describes under the name `name`, if it
/// describes one: a record with the text `name`, the record `versions`,
/// the truth value `system` and, if set, the text `active_version`. The
/// package goes by the name it is stored under.
pub open spec fn package_in(name: Seq<char>, json: Json) -> Option<PackageView> {
    match json {
        Json::Record(fields) => {
            let own_name = text_at(fields@, "name"@);
            let versions = versions_at(fields@, "versions"@);
            let active_version = optional_text_at(fields@, "active_version"@);
            let system = bool_at(fields@, "system"@);
            if own_name is Some && versions is Some && active_version is Some && system is Some {
                Some(
                    PackageView {
                        name,
                        versions: versions.unwrap(),
                        active_version: active_version.unwrap(),
                        system: system.unwrap(),
                    },
                )
            } else {
                None
            }
        },
        _ => None,
    }
}

/// The registry that a document describes, if it describes one: a record
/// of packages, each under its name, in the record's order.
pub open spec fn registry_in(json: Json) -> Option<RegistryView> {
    match json {
        Json::Record(fields) => if forall|i: int|
            0 <= i < fields@.len() ==> package_in(
                (#[trigger] fields@[i]).key@,
                fields@[i].value,
            ) is Some {
            Some(
                RegistryView {
                    packages: Seq::new(
                        fields@.len(),
                        |i: int| package_in(fields@[i].key@, fields@[i].value).unwrap(),
                    ),
                },
            )
        } else {
            None
        },
        _ => None,
    }
}

/// Whether a value is the stored form of an optional text: the text, or
/// null.
pub open spec fn stores_optional_text(json: Json, text: Option<Seq<char>>) -> bool {
    match text {
        Some(t) => text_in(json) == Some(t),
        None => json == Json::Null,
    }
}

/// Whether a value is the stored form of a version: a record of four
/// fields, in this order.
pub open spec fn stores_version(json: Json, version: VersionView) -> bool {
    &&& json matches Json::Record(fields)
    &&& fields@.len() == 4
    &&& fields@[0].key@ == "install_path"@
    &&& text_in(fields@[0].value) == Some(version.install_path)
    &&& fields@[1].key@ == "install_date"@
    &&& text_in(fields@[1].value) == Some(version.install_date)
    &&& fields@[2].key@ == "bin_paths"@
    &&& texts_in(fields@[2].value) == Some(version.bin_paths)
    &&& fields@[3].key@ == "package_manager"@
    &&& stores_optional_text(fields@[3].value, version.package_manager)
}

/// Whether a value is the stored form of the versions of a package: a
/// record with one field for each, under its label, in their order.
pub open spec fn stores_versions(json: Json, versions: Seq<EntryView>) -> bool {
    &&& json matches Json::Record(fields)
    &&& fields@.len() == versions.len()
    &&& forall|i: int|
        0 <= i < versions.len() ==> (#[trigger] fields@[i]).key@ == versions[i].label
            && stores_version(fields@[i].value, versions[i].version)
}

/// Whether a value is the stored form of a package: a record of four
/// fields, in this order.
pub open spec fn stores_package(json: Json, package: PackageView) -> bool {
    &&& json matches Json::Record(fields)
    &&& fields@.len() == 4
    &&& fields@[0].key@ == "name"@
    &&& text_in(fields@[0].value) == Some(package.name)
    &&& fields@[1].key@ == "versions"@
    &&& stores_versions(fields@[1].value, package.versions)
    &&& fields@[2].key@ == "active_version"@
    &&& stores_optional_text(fields@[2].value, package.active_version)
    &&& fields@[3].key@ == "system"@
    &&& fields@[3].value == Json::Bool(package.system)
}

/// Whether a value is the stored form of a registry: a record with one
/// field for each package, under its name, in the registry's order.
pub open spec fn stores_registry(json: Json, registry: RegistryView) -> bool {
    &&& json matches Json::Record(fields)
    &&& fields@.len() == registry.packages.len()
    &&& forall|i: int|
        0 <= i < registry.packages.len() ==> (#[trigger] fields@[i]).key@
            == registry.packages[i].name && stores_package(
            fields@[i].value,
            registry.packages[i],
        )
}

/// In a record of four fields with four different keys, each key gives
/// the value of its field.
pub proof fn lemma_lookup_of_four(fields: Seq<Field>)
    requires
        fields.len() == 4,
        forall|i: int, j: int| 0 <= i < j < 4 ==> fields[i].key@ != fields[j].key@,
    ensures
        forall|i: int| 0 <= i < 4 ==> lookup(fields, (#[trigger] fields[i]).key@) == Some(fields[i].value),
{
    let f = fields;
    assert(f.drop_last() =~= seq![f[0], f[1], f[2]]);
    assert(f.drop_last().drop_last() =~= seq![f[0], f[1]]);
    assert(f.drop_last().drop_last().drop_last() =~= seq![f[0]]);
    reveal_with_fuel(lookup, 5);
    assert(lookup(f, f[3].key@) == Some(f[3].value));
    assert(lookup(f, f[2].key@) == Some(f[2].value));
    assert(lookup(f, f[1].key@) == Some(f[1].value));
    assert(lookup(f, f[0].key@) == Some(f[0].value));
}

/// The stored form of a version describes that version.
pub proof fn lemma_stored_version_is_read(json: Json, version: VersionView)
    requires
        stores_version(json, version),
    ensures
        version_in(json) == Some(version),
{
    lemma_version_keys_differ();
    let fields = json->Record_0@;
    lemma_lookup_of_four(fields);
    assert(lookup(fields, "install_path"@) == Some(fields[0].value));
    assert(lookup(fields, "install_date"@) == Some(fields[1].value));
    assert(lookup(fields, "bin_paths"@) == Some(fields[2].value));
    assert(lookup(fields, "package_manager"@) == Some(fields[3].value));
}

/// The stored form of the versions of a package describes those versions.
pub proof fn lemma_stored_versions_are_read(json: Json, versions: Seq<EntryView>)
    requires
        stores_versions(json, versions),
    ensures
        versions_in(json) == Some(versions),
{
    let fields = json->Record_0@;
    assert forall|i: int| 0 <= i < fields.len() implies version_in((#[trigger] fields[i]).value)
        == Some(versions[i].version) by {
        lemma_stored_version_is_read(fields[i].value, versions[i].version);
    }
    assert(versions_in(json).unwrap() =~= versions);
}

/// The stored form of a package describes that package under its name.
pub proof fn lemma_stored_package_is_read(json: Json, package: PackageView)
    requires
        stores_package(json, package),
    ensures
        package_in(package.name, json) == Some(package),
{
    lemma_package_keys_differ();
    let fields = json->Record_0@;
    lemma_lookup_of_four(fields);
    assert(lookup(fields, "name"@) == Some(fields[0].value));
    assert(lookup(fields, "versions"@) == Some(fields[1].value));
    assert(lookup(fields, "active_version"@) == Some(fields[2].value));
    assert(lookup(fields, "system"@) == Some(fields[3].value));
    lemma_stored_versions_are_read(fields[1].value, package.versions);
}

/// The stored form of a registry describes that registry.
pub proof fn lemma_stored_registry_is_read(json: Json, registry: RegistryView)
    requires
        stores_registry(json, registry),
    ensures
        registry_in(json) == Some(registry),
{
    let fields = json->Record_0@;
    assert forall|i: int| 0 <= i < fields.len() implies package_in(
        (#[trigger] fields[i]).key@,
        fields[i].value,
    ) == Some(registry.packages[i]) by {
        lemma_stored_package_is_read(fields[i].value, registry.packages[i]);
    }
    assert(registry_in(json).unwrap().packages =~= registry.packages);
}

/// Looks a key up in a record.
pub fn find_field<'a>(fields: &'a Vec<Field>, key: &str) -> (found: Option<&'a Json>)
    ensures
        match found {
            Some(json) => lookup(fields@, key@) == Some(*json),
            None => lookup(fields@, key@) is None,
        },
{
    let wanted = key.to_owned();
    let mut i: usize = fields.len();
    assert(fields@.take(i as int) =~= fields@);
    while i > 0
        invariant
            i <= fields.len(),
            wanted@ == key@,
            lookup(fields@, key@) == lookup(fields@.take(i as int), key@),
        decreases i,
    {
        proof {
            let upto = fields@.take(i as int);
            assert(upto.drop_last() =~= fields@.take(i as int - 1));
            assert(upto.last() == fields@[i as int - 1]);
        }
        i -= 1;
        if fields[i].key == wanted {
            return Some(&fields[i].value);
        }
    }
    None
}

/// Reads the text that a record gives for a key.
pub fn read_text(fields: &Vec<Field>, key: &str) -> (text: Option<String>)
    ensures
        text_of(text) == text_at(fields@, key@),
{
    match find_field(fields, key) {
        Some(Json::Text(s)) => Some(s.clone()),
        _ => None,
    }
}

/// Reads the text that a record may give for a key.
pub fn read_optional_text(fields: &Vec<Field>, key: &str) -> (text: Option<Option<String>>)
    ensures
        match text {
            Some(t) => optional_text_at(fields@, key@) == Some(text_of(t)),
            None => optional_text_at(fields@, key@) is None,
        },
{
    match find_field(fields, key) {
        None => Some(None),
        Some(Json::Null) => Some(None),
        Some(Json::Text(s)) => Some(Some(s.clone())),
        Some(_) => None,
    }
}

/// Reads the truth value that a record gives for a key.
pub fn read_bool(fields: &Vec<Field>, key: &str) -> (value: Option<bool>)
    ensures
        value == bool_at(fields@, key@),
{
    match find_field(fields, key) {
        Some(Json::Bool(b)) => Some(*b),
        _ => None,
    }
}

/// Reads the texts that a record lists under a key.
pub fn read_texts(fields: &Vec<Field>, key: &str) -> (texts: Option<Vec<String>>)
    ensures
        match texts {
            Some(t) => texts_at(fields@, key@) == Some(texts_of(t@)),
            None => texts_at(fields@, key@) is None,
        },
{
    match find_field(fields, key) {
        Some(Json::List(items)) => {
            let mut texts: Vec<String> = Vec::new();
            let mut i: usize = 0;
            while i < items.len()
                invariant
                    i <= items.len(),
                    texts.len() == i,
                    lookup(fields@, key@) == Some(Json::List(*items)),
                    forall|j: int| 0 <= j < i ==> text_in(#[trigger] items@[j]) == Some(texts[j]@),
                decreases items.len() - i,
            {
                match &items[i] {
                    Json::Text(s) => {
                        texts.push(s.clone());
                    },
                    _ => {
                        assert(text_in(items@[i as int]) is None);
                        return None;
                    },
                }
                i += 1;
            }
            assert(texts_in(Json::List(*items)).unwrap() =~= texts_of(texts@));
            Some(texts)
        },
        _ => None,
    }
}

/// Reads the version that a value describes.
pub fn read_version(json: &Json) -> (version: Option<PackageVersion>)
    ensures
        match version {
            Some(v) => version_in(*json) == Some(v@),
            None => version_in(*json) is None,
        },
{
    match json {
        Json::Record(fields) => {
            let install_path = match read_text(fields, "install_path") {
                Some(t) => t,
                None => {
                    return None;
                },
            };
            let install_date = match read_text(fields, "install_date") {
                Some(t) => t,
                None => {
                    return None;
                },
            };
            let bin_paths = match read_texts(fields, "bin_paths") {
                Some(t) => t,
                None => {
                    return None;
                },
            };
            let package_manager = match read_optional_text(fields, "package_manager") {
                Some(t) => t,
                None => {
                    return None;
                },
            };
            Some(PackageVersion { install_path, install_date, bin_paths, package_manager })
        },
        _ => None,
    }
}

/// Reads the versions that a record holds under a key.
pub fn read_versions(fields: &Vec<Field>, key: &str) -> (versions: Option<Vec<VersionEntry>>)
    ensures
        match versions {
            Some(v) => versions_at(fields@, key@) == Some(entries_of(v@)),
            None => versions_at(fields@, key@) is None,
        },
{
    match find_field(fields, key) {
        Some(Json::Record(items)) => {
            let mut versions: Vec<VersionEntry> = Vec::new();
            let mut i: usize = 0;
            while i < items.len()
                invariant
                    i <= items.len(),
                    versions.len() == i,
                    lookup(fields@, key@) == Some(Json::Record(*items)),
                    forall|j: int|
                        0 <= j < i ==> version_in((#[trigger] items@[j]).value) == Some(
                            versions[j].version@,
                        ) && versions[j].label@ == items@[j].key@,
                decreases items.len() - i,
            {
                match read_version(&items[i].value) {
                    Some(version) => {
                        versions.push(VersionEntry { label: items[i].key.clone(), version });
                    },
                    None => {
                        assert(version_in(items@[i as int].value) is None);
                        return None;
                    },
                }
                i += 1;
            }
            assert(versions_in(Json::Record(*items)).unwrap() =~= entries_of(versions@));
            Some(versions)
        },
        _ => None,
    }
}

/// Reads the package that a value describes under the name `name`.
pub fn read_package(name: &String, json: &Json) -> (package: Option<Package>)
    ensures
        match package {
            Some(p) => package_in(name@, *json) == Some(p@),
            None => package_in(name@, *json) is None,
        },
{
    match json {
        Json::Record(fields) => {
            if read_text(fields, "name").is_none() {
                return None;
            }
            let versions = match read_versions(fields, "versions") {
                Some(v) => v,
                None => {
                    return None;
                },
            };
            let active_version = match read_optional_text(fields, "active_version") {
                Some(t) => t,
                None => {
                    return None;
                },
            };
            let system = match read_bool(fields, "system") {
                Some(b) => b,
                None => {
                    return None;
                },
            };
            Some(Package { name: name.clone(), versions, active_version, system })
        },
        _ => None,
    }
}

/// Reads the registry that a document describes. Whether names or labels
/// repeat in it is not looked at here.
pub fn read_registry(json: &Json) -> (registry: Option<Registry>)
    ensures
        match registry {
            Some(r) => registry_in(*json) == Some(r@),
            None => registry_in(*json) is None,
        },
{
    match json {
        Json::Record(fields) => {
            let mut packages: Vec<Package> = Vec::new();
            let mut i: usize = 0;
            while i < fields.len()
                invariant
                    i <= fields.len(),
                    packages.len() == i,
                    *json == Json::Record(*fields),
                    forall|j: int|
                        0 <= j < i ==> package_in(
                            (#[trigger] fields@[j]).key@,
                            fields@[j].value,
                        ) == Some(packages[j]@),
                decreases fields.len() - i,
            {
                match read_package(&fields[i].key, &fields[i].value) {
                    Some(package) => {
                        packages.push(package);
                    },
                    None => {
                        assert(package_in(fields@[i as int].key@, fields@[i as int].value) is None);
                        return None;
                    },
                }
                i += 1;
            }
            let registry = Registry { packages };
            assert(registry_in(*json).unwrap().packages =~= registry@.packages);
            Some(registry)
        },
        _ => None,
    }
}

/// The value that stores an optional text: the text, or null.
pub fn write_optional_text(text: &Option<String>) -> (json: Json)
    ensures
        stores_optional_text(json, text_of(*text)),
{
    match text {
        Some(t) => Json::Text(t.clone()),
        None => Json::Null,
    }
}

/// The value that stores a list of texts.
pub fn write_texts(texts: &Vec<String>) -> (json: Json)
    ensures
        texts_in(json) == Some(texts_of(texts@)),
{
    let mut items: Vec<Json> = Vec::new();
    let mut i: usize = 0;
    while i < texts.len()
        invariant
            i <= texts.len(),
            items.len() == i,
            forall|j: int| 0 <= j < i ==> text_in(#[trigger] items@[j]) == Some(texts[j]@),
        decreases texts.len() - i,
    {
        items.push(Json::Text(texts[i].clone()));
        i += 1;
    }
    let json = Json::List(items);
    assert(texts_in(json).unwrap() =~= texts_of(texts@));
    json
}

/// The record that stores a version.
pub fn write_version(version: &PackageVersion) -> (json: Json)
    ensures
        stores_version(json, version@),
        version_in(json) == Some(version@),
{
    let mut fields: Vec<Field> = Vec::new();
    fields.push(
        Field { key: "install_path".to_owned(), value: Json::Text(version.install_path.clone()) },
    );
    fields.push(
        Field { key: "install_date".to_owned(), value: Json::Text(version.install_date.clone()) },
    );
    fields.push(Field { key: "bin_paths".to_owned(), value: write_texts(&version.bin_paths) });
    fields.push(
        Field {
            key: "package_manager".to_owned(),
            value: write_optional_text(&version.package_manager),
        },
    );
    let json = Json::Record(fields);
    proof {
        lemma_stored_version_is_read(json, version@);
    }
    json
}

/// The keys of a stored version differ from each other.
pub proof fn lemma_version_keys_differ()
    ensures
        "install_path"@ != "install_date"@,
        "install_path"@ != "bin_paths"@,
        "install_path"@ != "package_manager"@,
        "install_date"@ != "bin_paths"@,
        "install_date"@ != "package_manager"@,
        "bin_paths"@ != "package_manager"@,
{
    reveal_strlit("install_path");
    reveal_strlit("install_date");
    reveal_strlit("bin_paths");
    reveal_strlit("package_manager");
    assert("install_path"@[8] == 'p');
    assert("install_date"@[8] == 'd');
    assert("install_path"@.len() == 12);
    assert("install_date"@.len() == 12);
    assert("bin_paths"@.len() == 9);
    assert("package_manager"@.len() == 15);
}

/// The keys of a stored package differ from each other.
pub proof fn lemma_package_keys_differ()
    ensures
        "name"@ != "versions"@,
        "name"@ != "active_version"@,
        "name"@ != "system"@,
        "versions"@ != "active_version"@,
        "versions"@ != "system"@,
        "active_version"@ != "system"@,
{
    reveal_strlit("name");
    reveal_strlit("versions");
    reveal_strlit("active_version");
    reveal_strlit("system");
    assert("name"@.len() == 4);
    assert("versions"@.len() == 8);
    assert("active_version"@.len() == 14);
    assert("system"@.len() == 6);
}

/// The record that stores the versions of a package, each under its
/// label.
pub fn write_versions(versions: &Vec<VersionEntry>) -> (json: Json)
    ensures
        stores_versions(json, entries_of(versions@)),
        versions_in(json) == Some(entries_of(versions@)),
{
    let mut fields: Vec<Field> = Vec::new();
    let mut i: usize = 0;
    while i < versions.len()
        invariant
            i <= versions.len(),
            fields.len() == i,
            forall|j: int|
                0 <= j < i ==> (#[trigger] fields@[j]).key@ == versions[j].label@
                    && stores_version(fields@[j].value, versions[j].version@),
        decreases versions.len() - i,
    {
        let value = write_version(&versions[i].version);
        fields.push(Field { key: versions[i].label.clone(), value });
        i += 1;
    }
    let json = Json::Record(fields);
    proof {
        lemma_stored_versions_are_read(json, entries_of(versions@));
    }
    json
}

/// The record that stores a package.
pub fn write_package(package: &Package) -> (json: Json)
    ensures
        stores_package(json, package@),
        package_in(package.name@, json) == Some(package@),
{
    let mut fields: Vec<Field> = Vec::new();
    fields.push(Field { key: "name".to_owned(), value: Json::Text(package.name.clone()) });
    fields.push(Field { key: "versions".to_owned(), value: write_versions(&package.versions) });
    fields.push(
        Field {
            key: "active_version".to_owned(),
            value: write_optional_text(&package.active_version),
        },
    );
    fields.push(Field { key: "system".to_owned(), value: Json::Bool(package.system) });
    let json = Json::Record(fields);
    proof {
        lemma_stored_package_is_read(json, package@);
    }
    json
}

/// The document that stores a registry: a record of its packages, each
/// under its name, in the registry's order. Reading it gives the registry
/// back.
pub fn write_registry(registry: &Registry) -> (json: Json)
    ensures
        stores_registry(json, registry@),
        registry_in(json) == Some(registry@),
{
    let mut fields: Vec<Field> = Vec::new();
    let mut i: usize = 0;
    while i < registry.packages.len()
        invariant
            i <= registry.packages.len(),
            fields.len() == i,
            forall|j: int|
                0 <= j < i ==> (#[trigger] fields@[j]).key@ == registry.packages[j].name@
                    && stores_package(fields@[j].value, registry.packages[j]@),
        decreases registry.packages.len() - i,
    {
        let value = write_package(&registry.packages[i]);
        fields.push(Field { key: registry.packages[i].name.clone(), value });
        i += 1;
    }
    let json = Json::Record(fields);
    proof {
        lemma_stored_registry_is_read(json, registry@);
    }
    json
}

} // verus!
