//! Choosing which installed version of a package is the active one.

use vstd::prelude::*;
use crate::model::{Registry, RegistryView, lemma_position_of_name, lemma_position_of_label};

verus! {

/// What an attempt to switch versions did.
#[derive(Debug, Clone, Copy, PartialEq, Eq)]
pub enum SwitchOutcome {
    /// No package of that name is registered; nothing changed.
    PackageNotFound,
    /// The package has no version of that label; nothing changed.
    VersionNotFound,
    /// The version is now the active one.
    Switched,
}

impl RegistryView {
    /// The registry after a switch: the package `name` has `label` as its
    /// active version, if it has such a version; else nothing changes.
    pub open spec fn switched(self, name: Seq<char>, label: Seq<char>) -> RegistryView {
        if self.has_package(name) && self.package(name).has_version(label) {
            RegistryView {
                packages: self.packages.update(
                    self.position(name),
                    self.package(name).with_active(label),
                ),
            }
        } else {
            self
        }
    }
}

/// Makes `version` the active version of the package `name`. The versions
/// of the package stay as they are.
pub fn switch(reg: &mut Registry, name: &str, version: &str) -> (outcome: SwitchOutcome)
    requires
        old(reg)@.well_formed(),
    ensures
        final(reg)@ == old(reg)@.switched(name@, version@),
        final(reg)@.well_formed(),
        old(reg)@.consistent() ==> final(reg)@.consistent(),
        outcome == SwitchOutcome::PackageNotFound <==> !old(reg)@.has_package(name@),
        outcome == SwitchOutcome::VersionNotFound <==> old(reg)@.has_package(name@) && !old(
            reg,
        )@.package(name@).has_version(version@),
        outcome == SwitchOutcome::Switched <==> old(reg)@.has_package(name@) && old(
            reg,
        )@.package(name@).has_version(version@),
{
    let key = name.to_owned();
    let label = version.to_owned();
    match reg.find(&key) {
        None => SwitchOutcome::PackageNotFound,
        Some(i) => {
            proof {
                lemma_position_of_name(reg@, i as int);
            }
            match reg.packages[i].find_version(&label) {
                None => SwitchOutcome::VersionNotFound,
                Some(j) => {
                    reg.packages[i].active_version = Some(label);
                    proof {
                        let before = old(reg)@.packages[i as int];
                        assert(reg.packages[i as int]@ == before.with_active(version@));
                        assert(reg@.packages =~= old(reg)@.packages.update(
                            i as int,
                            before.with_active(version@),
                        ));
                        lemma_switched(old(reg)@, i as int, j as int);
                    }
                    SwitchOutcome::Switched
                },
            }
        },
    }
}

/// Making the version at `j` of the package at `i` the active one keeps a
/// registry well formed, and consistent where it was.
pub proof fn lemma_switched(reg: RegistryView, i: int, j: int)
    requires
        reg.well_formed(),
        0 <= i < reg.packages.len(),
        0 <= j < reg.packages[i].versions.len(),
    ensures
        (RegistryView {
            packages: reg.packages.update(
                i,
                reg.packages[i].with_active(reg.packages[i].versions[j].label),
            ),
        }).well_formed(),
        reg.consistent() ==> (RegistryView {
            packages: reg.packages.update(
                i,
                reg.packages[i].with_active(reg.packages[i].versions[j].label),
            ),
        }).consistent(),
{
    let pkg = reg.packages[i];
    let changed = pkg.with_active(pkg.versions[j].label);
    let after = RegistryView { packages: reg.packages.update(i, changed) };
    lemma_position_of_label(pkg, j);
    assert(changed.labels() =~= pkg.labels());
    assert(after.names() =~= reg.names());
    assert forall|a: int| 0 <= a < after.packages.len() implies (#[trigger] after.packages[a]).well_formed() by {
        if a != i {
            assert(reg.packages[a].well_formed());
        }
    }
    if reg.consistent() {
        assert forall|a: int| 0 <= a < after.packages.len() implies (#[trigger] after.packages[a]).consistent() by {
            if a != i {
                assert(reg.packages[a].consistent());
            } else {
                assert(pkg.consistent());
            }
        }
    }
}

} // verus!
