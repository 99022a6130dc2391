//! The registry's data: packages, their installed versions, and the
//! mathematical values that the contracts of this crate speak of.

use vstd::prelude::*;

verus! {

/// What is recorded of one installed version of a package.
#[derive(Debug, Clone, PartialEq, Eq)]
pub struct PackageVersion {
    /// Directory that holds this version's files.
    pub install_path: String,
    /// When the version was installed, as text.
    pub install_date: String,
    /// The executables that the installer reported, in its order.
    pub bin_paths: Vec<String>,
    /// Name of the installer that produced this version, if known.
    pub package_manager: Option<String>,
}

/// One version of a package together with the label it is known by.
#[derive(Debug, Clone, PartialEq, Eq)]
pub struct VersionEntry {
    pub label: String,
    pub version: PackageVersion,
}

/// A named package with the versions installed of it. The versions are
/// kept in the order in which their labels were first installed.
#[derive(Debug, Clone, PartialEq, Eq)]
pub struct Package {
    pub name: String,
    pub versions: Vec<VersionEntry>,
    pub active_version: Option<String>,
    /// `true` for a machine-wide package, `false` for one of the current
    /// user. Set when the package is created and never changed afterwards.
    pub system: bool,
}

/// All packages, in the order in which their names were first installed.
#[derive(Debug, Clone, PartialEq, Eq)]
pub struct Registry {
    pub packages: Vec<Package>,
}

/// The value of a `PackageVersion`.
pub ghost struct VersionView {
    pub install_path: Seq<char>,
    pub install_date: Seq<char>,
    pub bin_paths: Seq<Seq<char>>,
    pub package_manager: Option<Seq<char>>,
}

/// The value of a `VersionEntry`.
pub ghost struct EntryView {
    pub label: Seq<char>,
    pub version: VersionView,
}

/// The value of a `Package`.
pub ghost struct PackageView {
    pub name: Seq<char>,
    pub versions: Seq<EntryView>,
    pub active_version: Option<Seq<char>>,
    pub system: bool,
}

/// The value of a `Registry`.
pub ghost struct RegistryView {
    pub packages: Seq<PackageView>,
}

/// The characters of an optional string.
pub open spec fn text_of(s: Option<String>) -> Option<Seq<char>> {
    match s {
        Some(t) => Some(t@),
        None => None,
    }
}

/// The characters of each string of a list.
pub open spec fn texts_of(v: Seq<String>) -> Seq<Seq<char>> {
    Seq::new(v.len(), |i: int| v[i]@)
}

impl View for PackageVersion {
    type V = VersionView;

    open spec fn view(&self) -> VersionView {
        VersionView {
            install_path: self.install_path@,
            install_date: self.install_date@,
            bin_paths: texts_of(self.bin_paths@),
            package_manager: text_of(self.package_manager),
        }
    }
}

impl View for VersionEntry {
    type V = EntryView;

    open spec fn view(&self) -> EntryView {
        EntryView { label: self.label@, version: self.version@ }
    }
}

/// The values of a list of version entries.
pub open spec fn entries_of(v: Seq<VersionEntry>) -> Seq<EntryView> {
    Seq::new(v.len(), |i: int| v[i]@)
}

impl View for Package {
    type V = PackageView;

    open spec fn view(&self) -> PackageView {
        PackageView {
            name: self.name@,
            versions: entries_of(self.versions@),
            active_version: text_of(self.active_version),
            system: self.system,
        }
    }
}

/// The values of a list of packages.
pub open spec fn packages_of(v: Seq<Package>) -> Seq<PackageView> {
    Seq::new(v.len(), |i: int| v[i]@)
}

impl View for Registry {
    type V = RegistryView;

    open spec fn view(&self) -> RegistryView {
        RegistryView { packages: packages_of(self.packages@) }
    }
}

impl PackageView {
    /// The labels of the versions, in order.
    pub open spec fn labels(self) -> Seq<Seq<char>> {
        Seq::new(self.versions.len(), |i: int| self.versions[i].label)
    }

    /// Whether a version with this label is installed.
    pub open spec fn has_version(self, label: Seq<char>) -> bool {
        self.labels().contains(label)
    }

    /// Where the version with this label stands, if there is one.
    pub open spec fn position(self, label: Seq<char>) -> int {
        self.labels().index_of(label)
    }

    /// The version recorded under this label, if there is one.
    pub open spec fn version(self, label: Seq<char>) -> VersionView {
        self.versions[self.position(label)].version
    }

    /// No label occurs twice.
    pub open spec fn well_formed(self) -> bool {
        self.labels().no_duplicates()
    }

    /// The package has a version, and its active version, if set, is one
    /// of its versions.
    pub open spec fn consistent(self) -> bool {
        &&& self.versions.len() > 0
        &&& self.active_version matches Some(a) ==> self.has_version(a)
    }

    /// A package that has no version yet.
    pub open spec fn fresh(name: Seq<char>, system: bool) -> PackageView {
        PackageView { name, versions: Seq::empty(), active_version: None, system }
    }

    /// The package after a version was installed under `label`: the entry
    /// replaces the one of that label, or is added at the end; the version
    /// becomes active only if none was.
    pub open spec fn with_version(self, label: Seq<char>, version: VersionView) -> PackageView {
        let entry = EntryView { label, version };
        PackageView {
            versions: if self.has_version(label) {
                self.versions.update(self.position(label), entry)
            } else {
                self.versions.push(entry)
            },
            active_version: if self.active_version is None {
                Some(label)
            } else {
                self.active_version
            },
            ..self
        }
    }

    /// The version that becomes active when the active version `label`
    /// leaves: the first of the others, if there is one.
    pub open spec fn successor(self, label: Seq<char>) -> Option<Seq<char>> {
        let rest = self.versions.remove(self.position(label));
        if rest.len() > 0 {
            Some(rest[0].label)
        } else {
            None
        }
    }

    /// The package after the version `label`, which it has, was removed.
    pub open spec fn without_version(self, label: Seq<char>) -> PackageView {
        PackageView {
            versions: self.versions.remove(self.position(label)),
            active_version: if self.active_version == Some(label) {
                self.successor(label)
            } else {
                self.active_version
            },
            ..self
        }
    }

    /// The package with `label` as its active version.
    pub open spec fn with_active(self, label: Seq<char>) -> PackageView {
        PackageView { active_version: Some(label), ..self }
    }

    /// The install directories of all versions, in order.
    pub open spec fn install_paths(self) -> Seq<Seq<char>> {
        Seq::new(self.versions.len(), |i: int| self.versions[i].version.install_path)
    }
}

impl RegistryView {
    /// The names of the packages, in order.
    pub open spec fn names(self) -> Seq<Seq<char>> {
        Seq::new(self.packages.len(), |i: int| self.packages[i].name)
    }

    /// Whether a package of this name is registered.
    pub open spec fn has_package(self, name: Seq<char>) -> bool {
        self.names().contains(name)
    }

    /// Where the package of this name stands, if there is one.
    pub open spec fn position(self, name: Seq<char>) -> int {
        self.names().index_of(name)
    }

    /// The package of this name, if there is one.
    pub open spec fn package(self, name: Seq<char>) -> PackageView {
        self.packages[self.position(name)]
    }

    /// No name occurs twice, and no label occurs twice within a package.
    pub open spec fn well_formed(self) -> bool {
        &&& self.names().no_duplicates()
        &&& forall|i: int| 0 <= i < self.packages.len() ==> (#[trigger] self.packages[i]).well_formed()
    }

    /// Every package has a version, and every active version is a version
    /// of its package.
    pub open spec fn consistent(self) -> bool {
        forall|i: int| 0 <= i < self.packages.len() ==> (#[trigger] self.packages[i]).consistent()
    }

    /// The registry without any package.
    pub open spec fn empty() -> RegistryView {
        RegistryView { packages: Seq::empty() }
    }
}

/// Names found at two different places of a well-formed registry differ,
/// so a name found at `i` stands at `i`.
pub proof fn lemma_position_of_name(reg: RegistryView, i: int)
    requires
        reg.names().no_duplicates(),
        0 <= i < reg.packages.len(),
    ensures
        reg.has_package(reg.packages[i].name),
        reg.position(reg.packages[i].name) == i,
        reg.package(reg.packages[i].name) == reg.packages[i],
{
    let names = reg.names();
    assert(names[i] == reg.packages[i].name);
    let j = names.index_of(names[i]);
    assert(0 <= j < names.len() && names[j] == names[i]);
}

/// A label found at `i` in a package without repeated labels stands at `i`.
pub proof fn lemma_position_of_label(pkg: PackageView, i: int)
    requires
        pkg.well_formed(),
        0 <= i < pkg.versions.len(),
    ensures
        pkg.has_version(pkg.versions[i].label),
        pkg.position(pkg.versions[i].label) == i,
        pkg.version(pkg.versions[i].label) == pkg.versions[i].version,
{
    let labels = pkg.labels();
    assert(labels[i] == pkg.versions[i].label);
    let j = labels.index_of(labels[i]);
    assert(0 <= j < labels.len() && labels[j] == labels[i]);
}

impl Package {
    /// Looks for the version with this label.
    pub fn find_version(&self, label: &String) -> (found: Option<usize>)
        ensures
            found.is_some() == self@.has_version(label@),
            found matches Some(i) ==> i < self.versions.len() && self.versions[i as int].label@
                == label@,
            found matches Some(i) ==> forall|j: int| 0 <= j < i ==> self@.labels()[j] != label@,
            found matches Some(i) ==> self@.well_formed() ==> self@.position(label@) == i,
    {
        let mut i: usize = 0;
        while i < self.versions.len()
            invariant
                i <= self.versions.len(),
                forall|j: int| 0 <= j < i ==> self@.labels()[j] != label@,
            decreases self.versions.len() - i,
        {
            if self.versions[i].label == *label {
                proof {
                    assert(self@.labels()[i as int] == label@);
                    if self@.well_formed() {
                        lemma_position_of_label(self@, i as int);
                    }
                }
                return Some(i);
            }
            i += 1;
        }
        None
    }

    /// Whether no label occurs twice among the versions.
    pub fn is_well_formed(&self) -> (ok: bool)
        ensures
            ok == self@.well_formed(),
    {
        let mut i: usize = 0;
        while i < self.versions.len()
            invariant
                i <= self.versions.len(),
                forall|a: int, b: int|
                    0 <= a < i && 0 <= b < self.versions.len() && a != b ==> self@.labels()[a]
                        != self@.labels()[b],
            decreases self.versions.len() - i,
        {
            let mut j: usize = i + 1;
            while j < self.versions.len()
                invariant
                    i < j <= self.versions.len(),
                    forall|b: int| i < b < j ==> self@.labels()[i as int] != self@.labels()[b],
                decreases self.versions.len() - j,
            {
                if self.versions[i].label == self.versions[j].label {
                    proof {
                        assert(self@.labels()[i as int] == self@.labels()[j as int]);
                    }
                    return false;
                }
                j += 1;
            }
            i += 1;
        }
        true
    }

    /// Whether the package has a version and its active version, if set,
    /// is one of its versions.
    pub fn is_consistent(&self) -> (ok: bool)
        ensures
            ok == self@.consistent(),
    {
        if self.versions.len() == 0 {
            return false;
        }
        match &self.active_version {
            Some(active) => self.find_version(active).is_some(),
            None => true,
        }
    }
}

impl Registry {
    /// A registry without packages.
    pub fn new() -> (reg: Registry)
        ensures
            reg@ == RegistryView::empty(),
            reg@.well_formed(),
            reg@.consistent(),
    {
        let reg = Registry { packages: Vec::new() };
        assert(reg@.packages =~= Seq::empty());
        reg
    }

    /// Looks for the package of this name.
    pub fn find(&self, name: &String) -> (found: Option<usize>)
        ensures
            found.is_some() == self@.has_package(name@),
            found matches Some(i) ==> i < self.packages.len() && self.packages[i as int].name@
                == name@,
            found matches Some(i) ==> forall|j: int| 0 <= j < i ==> self@.names()[j] != name@,
            found matches Some(i) ==> self@.names().no_duplicates() ==> self@.position(name@) == i,
    {
        let mut i: usize = 0;
        while i < self.packages.len()
            invariant
                i <= self.packages.len(),
                forall|j: int| 0 <= j < i ==> self@.names()[j] != name@,
            decreases self.packages.len() - i,
        {
            if self.packages[i].name == *name {
                proof {
                    assert(self@.names()[i as int] == name@);
                    if self@.names().no_duplicates() {
                        lemma_position_of_name(self@, i as int);
                    }
                }
                return Some(i);
            }
            i += 1;
        }
        None
    }

    /// Whether no name occurs twice, and no label twice within a package.
    pub fn is_well_formed(&self) -> (ok: bool)
        ensures
            ok == self@.well_formed(),
    {
        let mut i: usize = 0;
        while i < self.packages.len()
            invariant
                i <= self.packages.len(),
                forall|a: int, b: int|
                    0 <= a < i && 0 <= b < self.packages.len() && a != b ==> self@.names()[a]
                        != self@.names()[b],
                forall|a: int| 0 <= a < i ==> (#[trigger] self@.packages[a]).well_formed(),
            decreases self.packages.len() - i,
        {
            if !self.packages[i].is_well_formed() {
                proof {
                    assert(!self@.packages[i as int].well_formed());
                }
                return false;
            }
            let mut j: usize = i + 1;
            while j < self.packages.len()
                invariant
                    i < j <= self.packages.len(),
                    forall|b: int| i < b < j ==> self@.names()[i as int] != self@.names()[b],
                decreases self.packages.len() - j,
            {
                if self.packages[i].name == self.packages[j].name {
                    proof {
                        assert(self@.names()[i as int] == self@.names()[j as int]);
                    }
                    return false;
                }
                j += 1;
            }
            i += 1;
        }
        true
    }

    /// Whether every package has a version and every active version is a
    /// version of its package.
    pub fn is_consistent(&self) -> (ok: bool)
        ensures
            ok == self@.consistent(),
    {
        let mut i: usize = 0;
        while i < self.packages.len()
            invariant
                i <= self.packages.len(),
                forall|a: int| 0 <= a < i ==> (#[trigger] self@.packages[a]).consistent(),
            decreases self.packages.len() - i,
        {
            if !self.packages[i].is_consistent() {
                proof {
                    assert(!self@.packages[i as int].consistent());
                }
                return false;
            }
            i += 1;
        }
        true
    }
}

} // verus!
