//! The listing of the registered packages, with an optional filter by
//! scope.

use vstd::prelude::*;
use crate::model::{Registry, PackageView, Package};

verus! {

/// For whom a package is installed.
#[derive(Debug, Clone, Copy, PartialEq, Eq)]
pub enum Scope {
    /// For the whole machine.
    System,
    /// For the current user.
    User,
}

/// One line of a listing: a version of a package.
#[derive(Debug, Clone, PartialEq, Eq)]
pub struct ListedVersion {
    /// Whether this is the package's active version.
    pub active: bool,
    pub label: String,
    pub install_date: String,
}

/// One package of a listing, with all its versions in their order.
#[derive(Debug, Clone, PartialEq, Eq)]
pub struct ListedPackage {
    pub name: String,
    pub scope: Scope,
    pub version_count: usize,
    pub versions: Vec<ListedVersion>,
}

/// What there is to show.
#[derive(Debug, Clone, PartialEq, Eq)]
pub enum Listing {
    /// The registry holds no package at all.
    NoPackages,
    /// Only the machine's packages were asked for, and there is none.
    NoSystemPackages,
    /// Only the user's packages were asked for, and there is none.
    NoUserPackages,
    /// The packages that pass the filter, in the registry's order.
    Packages(Vec<ListedPackage>),
}

/// The value of a `ListedVersion`.
pub ghost struct ListedVersionView {
    pub active: bool,
    pub label: Seq<char>,
    pub install_date: Seq<char>,
}

/// The value of a `ListedPackage`.
pub ghost struct ListedPackageView {
    pub name: Seq<char>,
    pub scope: Scope,
    pub version_count: nat,
    pub versions: Seq<ListedVersionView>,
}

impl View for ListedVersion {
    type V = ListedVersionView;

    open spec fn view(&self) -> ListedVersionView {
        ListedVersionView {
            active: self.active,
            label: self.label@,
            install_date: self.install_date@,
        }
    }
}

/// The values of a list of listed versions.
pub open spec fn listed_versions_of(v: Seq<ListedVersion>) -> Seq<ListedVersionView> {
    Seq::new(v.len(), |i: int| v[i]@)
}

impl View for ListedPackage {
    type V = ListedPackageView;

    open spec fn view(&self) -> ListedPackageView {
        ListedPackageView {
            name: self.name@,
            scope: self.scope,
            version_count: self.version_count as nat,
            versions: listed_versions_of(self.versions@),
        }
    }
}

/// The values of a list of listed packages.
pub open spec fn listed_packages_of(v: Seq<ListedPackage>) -> Seq<ListedPackageView> {
    Seq::new(v.len(), |i: int| v[i]@)
}

impl PackageView {
    /// For whom the package is installed.
    pub open spec fn scope(self) -> Scope {
        if self.system {
            Scope::System
        } else {
            Scope::User
        }
    }

    /// Whether the package passes the filter. With both flags set nothing
    /// passes.
    pub open spec fn shown(self, system_only: bool, user_only: bool) -> bool {
        &&& system_only ==> self.system
        &&& user_only ==> !self.system
    }

    /// The package as a listing shows it: every version in order, the
    /// active one marked.
    pub open spec fn listed(self) -> ListedPackageView {
        ListedPackageView {
            name: self.name,
            scope: self.scope(),
            version_count: self.versions.len(),
            versions: Seq::new(
                self.versions.len(),
                |i: int|
                    ListedVersionView {
                        active: self.active_version == Some(self.versions[i].label),
                        label: self.versions[i].label,
                        install_date: self.versions[i].version.install_date,
                    },
            ),
        }
    }
}

/// Those of `packages` that pass the filter, in order, as a listing shows
/// them.
pub open spec fn listed_among(packages: Seq<PackageView>, system_only: bool, user_only: bool) -> Seq<
    ListedPackageView,
>
    decreases packages.len(),
{
    if packages.len() == 0 {
        Seq::empty()
    } else {
        let before = listed_among(packages.drop_last(), system_only, user_only);
        if packages.last().shown(system_only, user_only) {
            before.push(packages.last().listed())
        } else {
            before
        }
    }
}

impl Package {
    /// The package as a listing shows it.
    pub fn listed(&self) -> (row: ListedPackage)
        ensures
            row@ == self@.listed(),
    {
        let mut versions: Vec<ListedVersion> = Vec::new();
        let mut i: usize = 0;
        while i < self.versions.len()
            invariant
                i <= self.versions.len(),
                versions.len() == i,
                forall|j: int| 0 <= j < i ==> versions[j]@ == self@.listed().versions[j],
            decreases self.versions.len() - i,
        {
            let active = match &self.active_version {
                Some(a) => *a == self.versions[i].label,
                None => false,
            };
            versions.push(
                ListedVersion {
                    active,
                    label: self.versions[i].label.clone(),
                    install_date: self.versions[i].version.install_date.clone(),
                },
            );
            i += 1;
        }
        let row = ListedPackage {
            name: self.name.clone(),
            scope: if self.system {
                Scope::System
            } else {
                Scope::User
            },
            version_count: self.versions.len(),
            versions,
        };
        assert(row@.versions =~= self@.listed().versions);
        row
    }
}

/// Lists the packages: all of them, only the machine's (`system_only`) or
/// only the user's (`user_only`). The order is the registry's, so that two
/// listings of one registry agree. With both flags set no package passes,
/// and the answer is that of a machine without packages of its own.
pub fn list(reg: &Registry, system_only: bool, user_only: bool) -> (listing: Listing)
    ensures
        match listing {
            Listing::NoPackages => reg@.packages.len() == 0,
            Listing::NoSystemPackages => {
                &&& reg@.packages.len() > 0
                &&& system_only
                &&& listed_among(reg@.packages, system_only, user_only).len() == 0
            },
            Listing::NoUserPackages => {
                &&& reg@.packages.len() > 0
                &&& !system_only && user_only
                &&& listed_among(reg@.packages, system_only, user_only).len() == 0
            },
            Listing::Packages(rows) => {
                &&& listed_packages_of(rows@) == listed_among(
                    reg@.packages,
                    system_only,
                    user_only,
                )
                &&& rows.len() > 0
            },
        },
{
    if reg.packages.len() == 0 {
        return Listing::NoPackages;
    }
    let mut rows: Vec<ListedPackage> = Vec::new();
    let mut i: usize = 0;
    assert(reg@.packages.take(0) =~= Seq::empty());
    assert(listed_packages_of(rows@) =~= Seq::empty());
    while i < reg.packages.len()
        invariant
            i <= reg.packages.len(),
            listed_packages_of(rows@) == listed_among(
                reg@.packages.take(i as int),
                system_only,
                user_only,
            ),
            !system_only && !user_only ==> rows.len() == i,
        decreases reg.packages.len() - i,
    {
        let ghost before = listed_packages_of(rows@);
        proof {
            let upto = reg@.packages.take(i as int + 1);
            assert(upto.drop_last() =~= reg@.packages.take(i as int));
            assert(upto.last() == reg@.packages[i as int]);
        }
        let pkg = &reg.packages[i];
        if !((system_only && !pkg.system) || (user_only && pkg.system)) {
            let row = pkg.listed();
            rows.push(row);
            assert(listed_packages_of(rows@) =~= before.push(row@));
        }
        i += 1;
    }
    assert(reg@.packages.take(i as int) =~= reg@.packages);
    if rows.len() == 0 {
        if system_only {
            Listing::NoSystemPackages
        } else {
            Listing::NoUserPackages
        }
    } else {
        Listing::Packages(rows)
    }
}

} // verus!
