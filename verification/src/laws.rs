//! What holds of the registry whatever is done to it.

use vstd::prelude::*;
use crate::install::lemma_installed;
use crate::model::{RegistryView, VersionView, lemma_position_of_name, lemma_position_of_label};
use crate::remove::{lemma_removed_package, lemma_removed_version};
use crate::switch::lemma_switched;

verus! {

/// One change to the registry.
pub ghost enum Operation {
    Install { name: Seq<char>, label: Seq<char>, version: VersionView, user: bool },
    Remove { name: Seq<char>, only: Option<Seq<char>> },
    Switch { name: Seq<char>, label: Seq<char> },
}

/// The registry after one change.
pub open spec fn apply(reg: RegistryView, op: Operation) -> RegistryView {
    match op {
        Operation::Install { name, label, version, user } => reg.installed(
            name,
            label,
            version,
            user,
        ),
        Operation::Remove { name, only } => reg.removed(name, only),
        Operation::Switch { name, label } => reg.switched(name, label),
    }
}

/// The registry after a series of changes, made one after the other.
pub open spec fn run(reg: RegistryView, ops: Seq<Operation>) -> RegistryView
    decreases ops.len(),
{
    if ops.len() == 0 {
        reg
    } else {
        apply(run(reg, ops.drop_last()), ops.last())
    }
}

/// A removal keeps a registry well formed, and consistent where it was.
pub proof fn law_removal_keeps_invariants(
    reg: RegistryView,
    name: Seq<char>,
    version: Option<Seq<char>>,
)
    requires
        reg.well_formed(),
    ensures
        reg.removed(name, version).well_formed(),
        reg.consistent() ==> reg.removed(name, version).consistent(),
{
    if reg.has_package(name) {
        let i = reg.position(name);
        assert(0 <= i < reg.names().len() && reg.names()[i] == name);
        let pkg = reg.packages[i];
        assert(pkg.well_formed());
        match version {
            None => {
                lemma_removed_package(reg, i);
            },
            Some(label) => {
                if pkg.has_version(label) {
                    let j = pkg.position(label);
                    assert(0 <= j < pkg.labels().len() && pkg.labels()[j] == label);
                    if pkg.versions.len() == 1 {
                        lemma_removed_package(reg, i);
                    } else {
                        lemma_removed_version(reg, i, j);
                    }
                }
            },
        }
    }
}

/// A switch keeps a registry well formed, and consistent where it was.
pub proof fn law_switch_keeps_invariants(reg: RegistryView, name: Seq<char>, label: Seq<char>)
    requires
        reg.well_formed(),
    ensures
        reg.switched(name, label).well_formed(),
        reg.consistent() ==> reg.switched(name, label).consistent(),
{
    if reg.has_package(name) && reg.package(name).has_version(label) {
        let i = reg.position(name);
        assert(0 <= i < reg.names().len() && reg.names()[i] == name);
        let pkg = reg.packages[i];
        let j = pkg.position(label);
        assert(0 <= j < pkg.labels().len() && pkg.labels()[j] == label);
        lemma_switched(reg, i, j);
    }
}

/// Whatever the change, a registry in which no name and no label occurs
/// twice, every package has a version and every active version is
/// installed, is such a registry afterwards.
pub proof fn law_change_keeps_invariants(reg: RegistryView, op: Operation)
    requires
        reg.well_formed(),
        reg.consistent(),
    ensures
        apply(reg, op).well_formed(),
        apply(reg, op).consistent(),
{
    match op {
        Operation::Install { name, label, version, user } => {
            lemma_installed(reg, name, label, version, user);
        },
        Operation::Remove { name, only } => {
            law_removal_keeps_invariants(reg, name, only);
        },
        Operation::Switch { name, label } => {
            law_switch_keeps_invariants(reg, name, label);
        },
    }
}

/// After any series of installs, removals and switches that starts from
/// the empty registry, the active version of every package, where it has
/// one, is one of the package's versions.
pub proof fn law_active_version_is_installed(ops: Seq<Operation>, i: int)
    requires
        0 <= i < run(RegistryView::empty(), ops).packages.len(),
    ensures
        run(RegistryView::empty(), ops).packages[i].active_version matches Some(active) ==> run(
            RegistryView::empty(),
            ops,
        ).packages[i].has_version(active),
{
    lemma_invariants_after(ops);
    assert(run(RegistryView::empty(), ops).packages[i].consistent());
}

/// After any series of installs, removals and switches that starts from
/// the empty registry, every package has at least one version.
pub proof fn law_no_package_without_version(ops: Seq<Operation>, i: int)
    requires
        0 <= i < run(RegistryView::empty(), ops).packages.len(),
    ensures
        run(RegistryView::empty(), ops).packages[i].versions.len() > 0,
{
    lemma_invariants_after(ops);
    assert(run(RegistryView::empty(), ops).packages[i].consistent());
}

/// The invariants hold after any series of changes to the empty registry.
pub proof fn lemma_invariants_after(ops: Seq<Operation>)
    ensures
        run(RegistryView::empty(), ops).well_formed(),
        run(RegistryView::empty(), ops).consistent(),
    decreases ops.len(),
{
    if ops.len() == 0 {
        assert(RegistryView::empty().names() =~= Seq::empty());
    } else {
        lemma_invariants_after(ops.drop_last());
        law_change_keeps_invariants(run(RegistryView::empty(), ops.drop_last()), ops.last());
    }
}

/// Installing a version for a package that has an active version leaves
/// that version active, whichever label is installed.
pub proof fn law_install_keeps_active_version(
    reg: RegistryView,
    name: Seq<char>,
    label: Seq<char>,
    version: VersionView,
    user: bool,
)
    requires
        reg.well_formed(),
        reg.has_package(name),
        reg.package(name).active_version is Some,
    ensures
        reg.installed(name, label, version, user).package(name).active_version == reg.package(
            name,
        ).active_version,
        reg.installed(name, label, version, user).package(name).system == reg.package(
            name,
        ).system,
{
    let i = reg.position(name);
    assert(0 <= i < reg.names().len() && reg.names()[i] == name);
    let after = reg.installed(name, label, version, user);
    assert(after.names() =~= reg.names());
    lemma_position_of_name(after, i);
}

/// Installing one label of one package twice is installing it once, but
/// for what is recorded of the version: the second install replaces the
/// record of the first. The registry has the same packages in the same
/// order, the package has the same labels in the same order, so that the
/// label does not occur twice, and the same active version and scope; all
/// other packages are as they were.
pub proof fn law_reinstall_overwrites(
    reg: RegistryView,
    name: Seq<char>,
    label: Seq<char>,
    first: VersionView,
    first_user: bool,
    second: VersionView,
    second_user: bool,
)
    requires
        reg.well_formed(),
    ensures
        ({
            let once = reg.installed(name, label, first, first_user);
            let twice = once.installed(name, label, second, second_user);
            &&& twice.names() == once.names()
            &&& twice.package(name).labels() == once.package(name).labels()
            &&& twice.package(name).labels().no_duplicates()
            &&& twice.package(name).active_version == once.package(name).active_version
            &&& twice.package(name).system == once.package(name).system
            &&& twice.package(name).version(label) == second
            &&& forall|i: int|
                0 <= i < once.packages.len() && i != once.position(name) ==> twice.packages[i]
                    == once.packages[i]
            &&& twice == reg.installed(name, label, second, first_user)
        }),
{
    let once = reg.installed(name, label, first, first_user);
    let twice = once.installed(name, label, second, second_user);
    let direct = reg.installed(name, label, second, first_user);
    lemma_installed(reg, name, label, first, first_user);
    lemma_installed(reg, name, label, second, first_user);
    lemma_installed(once, name, label, second, second_user);
    let i = once.position(name);
    assert(0 <= i < once.names().len() && once.names()[i] == name);
    let pkg = once.packages[i];
    assert(pkg.well_formed());
    let j = pkg.position(label);
    assert(0 <= j < pkg.labels().len() && pkg.labels()[j] == label);
    let again = pkg.with_version(label, second);
    assert(again.labels() =~= pkg.labels());
    assert(twice.names() =~= once.names());
    lemma_position_of_name(twice, i);
    lemma_position_of_label(again, j);
    if reg.has_package(name) {
        let before = reg.package(name);
        assert(reg.position(name) == i) by {
            assert(once.names() =~= reg.names());
        }
        let k = if before.has_version(label) {
            before.position(label)
        } else {
            before.versions.len() as int
        };
        if before.has_version(label) {
            assert(0 <= k < before.labels().len() && before.labels()[k] == label);
        }
        assert(pkg == before.with_version(label, first));
        assert(before.with_version(label, first).labels()[k] == label);
        lemma_position_of_label(before.with_version(label, first), k);
        assert(again.versions =~= before.with_version(label, second).versions);
        assert(again == before.with_version(label, second));
        assert(twice.packages =~= direct.packages);
    } else {
        let before = crate::model::PackageView::fresh(name, !first_user);
        assert(before.labels() =~= Seq::empty());
        assert(!before.has_version(label));
        assert(i == reg.packages.len()) by {
            assert(once.names()[reg.packages.len() as int] == name);
            lemma_position_of_name(once, reg.packages.len() as int);
        }
        assert(pkg == before.with_version(label, first));
        assert(before.with_version(label, first).labels()[0] == label);
        lemma_position_of_label(before.with_version(label, first), 0);
        assert(again.versions =~= before.with_version(label, second).versions);
        assert(again == before.with_version(label, second));
        assert(twice.packages =~= direct.packages);
    }
}

/// A switch changes nothing but the active version of the one package.
pub proof fn law_switch_changes_active_version_only(
    reg: RegistryView,
    name: Seq<char>,
    label: Seq<char>,
)
    requires
        reg.well_formed(),
    ensures
        reg.switched(name, label).packages.len() == reg.packages.len(),
        forall|i: int|
            0 <= i < reg.packages.len() ==> {
                &&& (#[trigger] reg.switched(name, label).packages[i]).name == reg.packages[i].name
                &&& reg.switched(name, label).packages[i].versions == reg.packages[i].versions
                &&& reg.switched(name, label).packages[i].system == reg.packages[i].system
                &&& reg.packages[i].name != name ==> reg.switched(name, label).packages[i]
                    == reg.packages[i]
            },
        reg.has_package(name) && reg.package(name).has_version(label) ==> reg.switched(
            name,
            label,
        ).package(name).active_version == Some(label),
{
    if reg.has_package(name) && reg.package(name).has_version(label) {
        let i = reg.position(name);
        assert(0 <= i < reg.names().len() && reg.names()[i] == name);
        let after = reg.switched(name, label);
        assert(after.names() =~= reg.names());
        lemma_position_of_name(after, i);
    }
}

} // verus!
