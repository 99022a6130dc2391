//! Removal of one version of a package, or of a whole package.

use vstd::prelude::*;
use crate::model::{Registry, RegistryView, PackageView, texts_of, text_of, entries_of,
    lemma_position_of_name, lemma_position_of_label};

verus! {

/// What a removal did, and which directories the caller now has to delete.
#[derive(Debug, Clone, PartialEq, Eq)]
pub enum Removal {
    /// No package of that name is registered; nothing changed.
    PackageNotFound,
    /// The package has no version of that label; nothing changed.
    VersionNotFound,
    /// One version left the registry. `promoted` names the version that
    /// became active in its place, where the removed one was active and
    /// another version remained.
    Version { install_path: String, promoted: Option<String> },
    /// The whole package left the registry.
    Package { install_paths: Vec<String> },
}

impl RegistryView {
    /// The registry after a removal. With a label, the version of that
    /// label leaves its package, and the package leaves with its last
    /// version; without one, the package leaves. An unknown name or label
    /// changes nothing.
    pub open spec fn removed(self, name: Seq<char>, version: Option<Seq<char>>) -> RegistryView {
        if !self.has_package(name) {
            self
        } else {
            let i = self.position(name);
            let pkg = self.packages[i];
            match version {
                None => RegistryView { packages: self.packages.remove(i) },
                Some(label) => if !pkg.has_version(label) {
                    self
                } else if pkg.versions.len() == 1 {
                    RegistryView { packages: self.packages.remove(i) }
                } else {
                    RegistryView { packages: self.packages.update(i, pkg.without_version(label)) }
                },
            }
        }
    }

    /// The version that a removal makes active in place of the removed one.
    pub open spec fn promoted_by_removal(self, name: Seq<char>, label: Seq<char>) -> Option<
        Seq<char>,
    > {
        let pkg = self.package(name);
        if pkg.active_version == Some(label) {
            pkg.successor(label)
        } else {
            None
        }
    }
}

/// Removes the version `version` of the package `name`, or the whole
/// package where no version is given, and says which directories held
/// what was removed. Where the active version is removed, the first of
/// the remaining versions becomes active.
pub fn remove(reg: &mut Registry, name: &str, version: Option<String>) -> (outcome: Removal)
    requires
        old(reg)@.well_formed(),
    ensures
        final(reg)@ == old(reg)@.removed(name@, text_of(version)),
        final(reg)@.well_formed(),
        old(reg)@.consistent() ==> final(reg)@.consistent(),
        match outcome {
            Removal::PackageNotFound => !old(reg)@.has_package(name@),
            Removal::VersionNotFound => {
                &&& old(reg)@.has_package(name@)
                &&& version is Some
                &&& !old(reg)@.package(name@).has_version(version.unwrap()@)
            },
            Removal::Version { install_path, promoted } => {
                &&& old(reg)@.has_package(name@)
                &&& version is Some
                &&& old(reg)@.package(name@).has_version(version.unwrap()@)
                &&& install_path@ == old(reg)@.package(name@).version(
                    version.unwrap()@,
                ).install_path
                &&& text_of(promoted) == old(reg)@.promoted_by_removal(name@, version.unwrap()@)
            },
            Removal::Package { install_paths } => {
                &&& old(reg)@.has_package(name@)
                &&& version is None
                &&& texts_of(install_paths@) == old(reg)@.package(name@).install_paths()
            },
        },
{
    let key = name.to_owned();
    let found = reg.find(&key);
    match found {
        None => Removal::PackageNotFound,
        Some(i) => {
            proof {
                lemma_position_of_name(reg@, i as int);
            }
            match version {
                None => {
                    let pkg = reg.packages.remove(i);
                    let mut install_paths: Vec<String> = Vec::new();
                    let mut k: usize = 0;
                    while k < pkg.versions.len()
                        invariant
                            k <= pkg.versions.len(),
                            install_paths.len() == k,
                            forall|j: int|
                                0 <= j < k ==> install_paths[j]@
                                    == pkg.versions[j].version.install_path@,
                        decreases pkg.versions.len() - k,
                    {
                        install_paths.push(pkg.versions[k].version.install_path.clone());
                        k += 1;
                    }
                    proof {
                        assert(texts_of(install_paths@) =~= pkg@.install_paths());
                        assert(reg@.packages =~= old(reg)@.packages.remove(i as int));
                        lemma_removed_package(old(reg)@, i as int);
                    }
                    Removal::Package { install_paths }
                },
                Some(label) => {
                    let at = reg.packages[i].find_version(&label);
                    match at {
                        None => Removal::VersionNotFound,
                        Some(j) => {
                            let ghost before = reg.packages[i as int]@;
                            proof {
                                lemma_position_of_label(before, j as int);
                            }
                            let was_active = match &reg.packages[i].active_version {
                                Some(active) => *active == label,
                                None => false,
                            };
                            let entry = reg.packages[i].versions.remove(j);
                            assert(entries_of(reg.packages[i as int].versions@)
                                =~= before.versions.remove(j as int));
                            if reg.packages[i].versions.len() == 0 {
                                reg.packages.remove(i);
                                proof {
                                    assert(reg@.packages =~= old(reg)@.packages.remove(i as int));
                                    lemma_removed_package(old(reg)@, i as int);
                                }
                                Removal::Version {
                                    install_path: entry.version.install_path,
                                    promoted: None,
                                }
                            } else {
                                let mut promoted: Option<String> = None;
                                if was_active {
                                    let next = reg.packages[i].versions[0].label.clone();
                                    reg.packages[i].active_version = Some(next.clone());
                                    promoted = Some(next);
                                }
                                proof {
                                    assert(reg.packages[i as int]@ == before.without_version(
                                        label@,
                                    ));
                                    assert(reg@.packages =~= old(reg)@.packages.update(
                                        i as int,
                                        before.without_version(label@),
                                    ));
                                    lemma_removed_version(old(reg)@, i as int, j as int);
                                }
                                Removal::Version {
                                    install_path: entry.version.install_path,
                                    promoted,
                                }
                            }
                        },
                    }
                },
            }
        },
    }
}

/// Taking the package at `i` out keeps a registry well formed, and
/// consistent where it was.
pub proof fn lemma_removed_package(reg: RegistryView, i: int)
    requires
        reg.well_formed(),
        0 <= i < reg.packages.len(),
    ensures
        (RegistryView { packages: reg.packages.remove(i) }).well_formed(),
        reg.consistent() ==> (RegistryView { packages: reg.packages.remove(i) }).consistent(),
{
    let after = RegistryView { packages: reg.packages.remove(i) };
    assert forall|a: int| 0 <= a < after.packages.len() implies after.packages[a]
        == reg.packages[if a < i { a } else { a + 1 }] by {}
    assert forall|a: int, b: int|
        0 <= a < after.names().len() && 0 <= b < after.names().len() && a != b implies after.names()[a]
        != after.names()[b] by {
        let a0 = if a < i { a } else { a + 1 };
        let b0 = if b < i { b } else { b + 1 };
        assert(after.names()[a] == reg.names()[a0]);
        assert(after.names()[b] == reg.names()[b0]);
    }
    assert forall|a: int| 0 <= a < after.packages.len() implies (#[trigger] after.packages[a]).well_formed() by {
        assert(reg.packages[if a < i { a } else { a + 1 }].well_formed());
    }
    if reg.consistent() {
        assert forall|a: int| 0 <= a < after.packages.len() implies (#[trigger] after.packages[a]).consistent() by {
            assert(reg.packages[if a < i { a } else { a + 1 }].consistent());
        }
    }
}

/// A package that loses one of several versions stays well formed, and
/// consistent where it was.
pub proof fn lemma_without_version(pkg: PackageView, j: int)
    requires
        pkg.well_formed(),
        0 <= j < pkg.versions.len(),
        pkg.versions.len() > 1,
    ensures
        pkg.without_version(pkg.versions[j].label).well_formed(),
        pkg.without_version(pkg.versions[j].label).name == pkg.name,
        pkg.consistent() ==> pkg.without_version(pkg.versions[j].label).consistent(),
        !pkg.without_version(pkg.versions[j].label).has_version(pkg.versions[j].label),
{
    let label = pkg.versions[j].label;
    lemma_position_of_label(pkg, j);
    let after = pkg.without_version(label);
    assert(after.versions == pkg.versions.remove(j));
    assert forall|a: int| 0 <= a < after.versions.len() implies after.labels()[a]
        == pkg.labels()[if a < j { a } else { a + 1 }] by {}
    assert forall|a: int, b: int|
        0 <= a < after.labels().len() && 0 <= b < after.labels().len() && a != b implies after.labels()[a]
        != after.labels()[b] by {
        let a0 = if a < j { a } else { a + 1 };
        let b0 = if b < j { b } else { b + 1 };
        assert(after.labels()[a] == pkg.labels()[a0]);
        assert(after.labels()[b] == pkg.labels()[b0]);
    }
    if after.has_version(label) {
        let a = after.labels().index_of(label);
        assert(after.labels()[a] == pkg.labels()[if a < j { a } else { a + 1 }]);
        assert(pkg.labels()[j] == label);
        assert(false);
    }
    if pkg.consistent() {
        match after.active_version {
            Some(active) => {
                if pkg.active_version == Some(label) {
                    assert(after.labels()[0] == active);
                } else {
                    let a0 = pkg.labels().index_of(active);
                    assert(pkg.labels()[a0] == active);
                    assert(a0 != j);
                    let a = if a0 < j { a0 } else { a0 - 1 };
                    assert(after.labels()[a] == active);
                }
            },
            None => {},
        }
    }
}

/// Replacing the package at `i` by what is left of it without its version
/// at `j` keeps a registry well formed, and consistent where it was.
pub proof fn lemma_removed_version(reg: RegistryView, i: int, j: int)
    requires
        reg.well_formed(),
        0 <= i < reg.packages.len(),
        0 <= j < reg.packages[i].versions.len(),
        reg.packages[i].versions.len() > 1,
    ensures
        (RegistryView {
            packages: reg.packages.update(
                i,
                reg.packages[i].without_version(reg.packages[i].versions[j].label),
            ),
        }).well_formed(),
        reg.consistent() ==> (RegistryView {
            packages: reg.packages.update(
                i,
                reg.packages[i].without_version(reg.packages[i].versions[j].label),
            ),
        }).consistent(),
{
    let pkg = reg.packages[i];
    let changed = pkg.without_version(pkg.versions[j].label);
    let after = RegistryView { packages: reg.packages.update(i, changed) };
    lemma_without_version(pkg, j);
    assert(after.names() =~= reg.names());
    assert forall|a: int| 0 <= a < after.packages.len() implies (#[trigger] after.packages[a]).well_formed() by {
        if a != i {
            assert(reg.packages[a].well_formed());
        }
    }
    if reg.consistent() {
        assert forall|a: int| 0 <= a < after.packages.len() implies (#[trigger] after.packages[a]).consistent() by {
            if a != i {
                assert(reg.packages[a].consistent());
            }
        }
    }
}

} // verus!
