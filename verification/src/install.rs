//! Registration of a newly installed version.

use vstd::prelude::*;
use vstd::string::*;
use crate::clock::local_time_text;
use crate::error::RegistryError;
use crate::model::{Registry, RegistryView, PackageView, VersionView, EntryView, Package,
    PackageVersion, VersionEntry, text_of, texts_of, lemma_position_of_name,
    lemma_position_of_label};

verus! {

/// The label of a version that was installed without naming one.
pub open spec fn default_label() -> Seq<char> {
    "latest"@
}

/// The label under which a requested version is recorded.
pub open spec fn label_of(version: Option<Seq<char>>) -> Seq<char> {
    match version {
        Some(label) => label,
        None => default_label(),
    }
}

/// The directory below which the packages of a scope are installed: a
/// fixed one for the machine, one below `home` for the user.
pub open spec fn root_of(user: bool, home: Seq<char>) -> Seq<char> {
    if user {
        home + "/.local/share/updater/packages"@
    } else {
        "/opt/updater/packages"@
    }
}

/// The directory of one version of one package below `root`.
pub open spec fn dir_of(root: Seq<char>, name: Seq<char>, label: Seq<char>) -> Seq<char> {
    root + "/"@ + name + "/"@ + label
}

/// What was decided before the installer is asked to work.
#[derive(Debug, Clone, PartialEq, Eq)]
pub struct InstallPlan {
    /// The label under which the version will be recorded.
    pub label: String,
    /// The directory the installer is to fill.
    pub install_dir: String,
    /// The name of the installer that does the work.
    pub installer: String,
}

impl RegistryView {
    /// The registry after `version` was installed under `label` for the
    /// package `name`. A package that is new takes its scope from `user`;
    /// one that exists keeps its scope.
    pub open spec fn installed(
        self,
        name: Seq<char>,
        label: Seq<char>,
        version: VersionView,
        user: bool,
    ) -> RegistryView {
        if self.has_package(name) {
            RegistryView {
                packages: self.packages.update(
                    self.position(name),
                    self.package(name).with_version(label, version),
                ),
            }
        } else {
            RegistryView {
                packages: self.packages.push(
                    PackageView::fresh(name, !user).with_version(label, version),
                ),
            }
        }
    }
}

/// The label under which a requested version is recorded: the requested
/// one, or `latest` where none was requested.
pub fn version_label(version: &Option<String>) -> (label: String)
    ensures
        label@ == label_of(text_of(*version)),
{
    match version {
        Some(requested) => requested.clone(),
        None => "latest".to_owned(),
    }
}

/// The directory below which the packages of a scope are installed.
/// `home` is the user's home directory; it is not read for the machine's
/// scope.
pub fn install_root(user: bool, home: &str) -> (root: String)
    ensures
        root@ == root_of(user, home@),
{
    if user {
        let mut root = home.to_owned();
        root.append("/.local/share/updater/packages");
        root
    } else {
        "/opt/updater/packages".to_owned()
    }
}

/// The directory of the version `label` of the package `name` below `root`.
pub fn install_dir(root: &str, name: &str, label: &str) -> (dir: String)
    ensures
        dir@ == dir_of(root@, name@, label@),
{
    let mut dir = root.to_owned();
    dir.append("/");
    dir.append(name);
    dir.append("/");
    dir.append(label);
    dir
}

/// Decides under which label and into which directory a version is
/// installed, and by which installer. Fails where the host has no
/// installer.
pub fn plan_install(
    name: &str,
    version: &Option<String>,
    user: bool,
    home: &str,
    installer: Option<String>,
) -> (plan: Result<InstallPlan, RegistryError>)
    ensures
        installer is None <==> plan == Err::<InstallPlan, RegistryError>(
            RegistryError::NoInstallerAvailable,
        ),
        installer is Some <==> plan is Ok,
        plan matches Ok(p) ==> {
            &&& p.label@ == label_of(text_of(*version))
            &&& p.install_dir@ == dir_of(root_of(user, home@), name@, p.label@)
            &&& p.installer@ == installer.unwrap()@
        },
{
    match installer {
        None => Err(RegistryError::NoInstallerAvailable),
        Some(installer) => {
            let label = version_label(version);
            let root = install_root(user, home);
            let install_dir = self::install_dir(root.as_str(), name, label.as_str());
            Ok(InstallPlan { label, install_dir, installer })
        },
    }
}

/// Records that `version` was installed under `label` for the package
/// `name`. A package that is new takes its scope from `user`, and the
/// version becomes its active one; a package that exists keeps its scope
/// and, if it has one, its active version.
pub fn record_install(
    reg: &mut Registry,
    name: &str,
    label: String,
    user: bool,
    version: PackageVersion,
)
    requires
        old(reg)@.well_formed(),
    ensures
        final(reg)@ == old(reg)@.installed(name@, label@, version@, user),
        final(reg)@.well_formed(),
        old(reg)@.consistent() ==> final(reg)@.consistent(),
{
    let key = name.to_owned();
    match reg.find(&key) {
        Some(i) => {
            let ghost before = reg.packages[i as int]@;
            proof {
                lemma_position_of_name(reg@, i as int);
            }
            match reg.packages[i].find_version(&label) {
                Some(j) => {
                    reg.packages[i].versions[j] = VersionEntry { label: label.clone(), version };
                    assert(crate::model::entries_of(reg.packages[i as int].versions@)
                        =~= before.versions.update(
                        j as int,
                        EntryView { label: label@, version: version@ },
                    ));
                },
                None => {
                    reg.packages[i].versions.push(VersionEntry { label: label.clone(), version });
                    assert(crate::model::entries_of(reg.packages[i as int].versions@)
                        =~= before.versions.push(EntryView { label: label@, version: version@ }));
                },
            }
            if reg.packages[i].active_version.is_none() {
                reg.packages[i].active_version = Some(label);
            }
            proof {
                assert(reg.packages[i as int]@ == before.with_version(label@, version@));
                assert(reg@.packages =~= old(reg)@.packages.update(
                    i as int,
                    before.with_version(label@, version@),
                ));
                lemma_installed(old(reg)@, name@, label@, version@, user);
            }
        },
        None => {
            let mut versions: Vec<VersionEntry> = Vec::new();
            versions.push(VersionEntry { label: label.clone(), version });
            let pkg = Package { name: key, versions, active_version: Some(label), system: !user };
            proof {
                let fresh = PackageView::fresh(name@, !user);
                assert(fresh.labels() =~= Seq::empty());
                assert(!fresh.has_version(label@));
                assert(pkg@.versions =~= fresh.with_version(label@, version@).versions);
                assert(pkg@ == fresh.with_version(label@, version@));
            }
            reg.packages.push(pkg);
            proof {
                assert(reg@.packages =~= old(reg)@.packages.push(
                    PackageView::fresh(name@, !user).with_version(label@, version@),
                ));
                lemma_installed(old(reg)@, name@, label@, version@, user);
            }
        },
    }
}

/// Ends an installation. Where the installer failed, its failure is
/// returned and the registry stays as it was. Where it succeeded, the
/// version is recorded as `record_install` does, with the directory and
/// the installer of `plan`, the executables that the installer reported,
/// and the time of this call as its date.
pub fn install(
    reg: &mut Registry,
    name: &str,
    plan: InstallPlan,
    user: bool,
    outcome: Result<Vec<String>, String>,
) -> (done: Result<(), RegistryError>)
    requires
        old(reg)@.well_formed(),
    ensures
        final(reg)@.well_formed(),
        old(reg)@.consistent() ==> final(reg)@.consistent(),
        match outcome {
            Err(failure) => {
                &&& done == Err::<(), RegistryError>(RegistryError::InstallerError(failure))
                &&& final(reg)@ == old(reg)@
            },
            Ok(bin_paths) => {
                &&& done is Ok
                &&& final(reg)@ == old(reg)@.installed(
                    name@,
                    plan.label@,
                    VersionView {
                        install_path: plan.install_dir@,
                        install_date: final(reg)@.package(name@).version(
                            plan.label@,
                        ).install_date,
                        bin_paths: texts_of(bin_paths@),
                        package_manager: Some(plan.installer@),
                    },
                    user,
                )
            },
        },
{
    match outcome {
        Err(failure) => Err(RegistryError::InstallerError(failure)),
        Ok(bin_paths) => {
            let now = local_time_text();
            let version = PackageVersion {
                install_path: plan.install_dir,
                install_date: now,
                bin_paths,
                package_manager: Some(plan.installer),
            };
            let ghost recorded = version@;
            record_install(reg, name, plan.label, user, version);
            proof {
                lemma_installed(old(reg)@, name@, plan.label@, recorded, user);
            }
            Ok(())
        },
    }
}

/// A package that gains a version stays well formed, has that version
/// under its label, and is consistent if it was, or if it had no active
/// version.
pub proof fn lemma_with_version(pkg: PackageView, label: Seq<char>, version: VersionView)
    requires
        pkg.well_formed(),
    ensures
        pkg.with_version(label, version).well_formed(),
        pkg.with_version(label, version).name == pkg.name,
        pkg.with_version(label, version).has_version(label),
        pkg.with_version(label, version).version(label) == version,
        pkg.consistent() || pkg.active_version is None ==> pkg.with_version(
            label,
            version,
        ).consistent(),
{
    let after = pkg.with_version(label, version);
    let at = if pkg.has_version(label) {
        pkg.position(label)
    } else {
        pkg.versions.len() as int
    };
    if pkg.has_version(label) {
        assert(0 <= at < pkg.labels().len() && pkg.labels()[at] == label);
        assert(after.labels() =~= pkg.labels());
    } else {
        assert(after.labels() =~= pkg.labels().push(label));
        assert forall|a: int, b: int|
            0 <= a < after.labels().len() && 0 <= b < after.labels().len() && a != b implies after.labels()[a]
            != after.labels()[b] by {
            if a < pkg.labels().len() {
                assert(pkg.labels().contains(pkg.labels()[a]));
            }
            if b < pkg.labels().len() {
                assert(pkg.labels().contains(pkg.labels()[b]));
            }
        }
    }
    assert(after.labels()[at] == label);
    lemma_position_of_label(after, at);
    if pkg.consistent() || pkg.active_version is None {
        match pkg.active_version {
            Some(active) => {
                let a = pkg.labels().index_of(active);
                assert(pkg.labels()[a] == active);
                assert(after.labels()[a] == active);
            },
            None => {},
        }
    }
}

/// Installing a version keeps a registry well formed, and consistent where
/// it was; afterwards the package is registered and has the version under
/// its label.
pub proof fn lemma_installed(
    reg: RegistryView,
    name: Seq<char>,
    label: Seq<char>,
    version: VersionView,
    user: bool,
)
    requires
        reg.well_formed(),
    ensures
        reg.installed(name, label, version, user).well_formed(),
        reg.consistent() ==> reg.installed(name, label, version, user).consistent(),
        reg.installed(name, label, version, user).has_package(name),
        reg.installed(name, label, version, user).package(name).has_version(label),
        reg.installed(name, label, version, user).package(name).version(label) == version,
{
    let after = reg.installed(name, label, version, user);
    let at = if reg.has_package(name) {
        reg.position(name)
    } else {
        reg.packages.len() as int
    };
    let pkg = if reg.has_package(name) {
        reg.package(name)
    } else {
        PackageView::fresh(name, !user)
    };
    if reg.has_package(name) {
        assert(0 <= at < reg.names().len() && reg.names()[at] == name);
        assert(pkg.well_formed());
        lemma_with_version(pkg, label, version);
        assert(after.names() =~= reg.names());
    } else {
        assert(pkg.labels() =~= Seq::empty());
        lemma_with_version(pkg, label, version);
        assert(after.names() =~= reg.names().push(name));
        assert forall|a: int, b: int|
            0 <= a < after.names().len() && 0 <= b < after.names().len() && a != b implies after.names()[a]
            != after.names()[b] by {
            if a < reg.names().len() {
                assert(reg.names().contains(reg.names()[a]));
            }
            if b < reg.names().len() {
                assert(reg.names().contains(reg.names()[b]));
            }
        }
    }
    assert(after.packages[at] == pkg.with_version(label, version));
    assert forall|a: int| 0 <= a < after.packages.len() implies (#[trigger] after.packages[a]).well_formed() by {
        if a != at {
            assert(reg.packages[a].well_formed());
        }
    }
    assert(after.names()[at] == name);
    lemma_position_of_name(after, at);
    if reg.consistent() {
        assert forall|a: int| 0 <= a < after.packages.len() implies (#[trigger] after.packages[a]).consistent() by {
            if a != at {
                assert(reg.packages[a].consistent());
            } else if reg.has_package(name) {
                assert(reg.packages[at].consistent());
            }
        }
    }
}

} // verus!
