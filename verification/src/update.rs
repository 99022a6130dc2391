//! Which packages an update asks an installer about, and what the
//! installers' answers mean for the whole update.

use vstd::prelude::*;
use crate::error::RegistryError;
use crate::model::{Registry, RegistryView, PackageView, Package, lemma_position_of_name,
    lemma_position_of_label};

verus! {

/// One call that an update makes to an installer.
#[derive(Debug, Clone, PartialEq, Eq)]
pub struct UpdateRequest {
    /// The package to update.
    pub name: String,
    /// Its active version.
    pub version: String,
    /// The directory of that version.
    pub install_path: String,
    /// Whether the package belongs to the user, not to the machine.
    pub user: bool,
    /// The installer that produced the version.
    pub installer: String,
}

/// The value of an `UpdateRequest`.
pub ghost struct UpdateRequestView {
    pub name: Seq<char>,
    pub version: Seq<char>,
    pub install_path: Seq<char>,
    pub user: bool,
    pub installer: Seq<char>,
}

impl View for UpdateRequest {
    type V = UpdateRequestView;

    open spec fn view(&self) -> UpdateRequestView {
        UpdateRequestView {
            name: self.name@,
            version: self.version@,
            install_path: self.install_path@,
            user: self.user,
            installer: self.installer@,
        }
    }
}

/// The values of a list of requests.
pub open spec fn requests_of(v: Seq<UpdateRequest>) -> Seq<UpdateRequestView> {
    Seq::new(v.len(), |i: int| v[i]@)
}

/// What an update has to do.
#[derive(Debug, Clone, PartialEq, Eq)]
pub enum UpdatePlan {
    /// The package that was named is not registered.
    PackageNotFound,
    /// The calls to make, in the registry's order.
    Requests(Vec<UpdateRequest>),
}

impl PackageView {
    /// Whether an update has anything to ask for: the package has an
    /// active version, which is installed and whose installer is known.
    pub open spec fn updatable(self) -> bool {
        &&& self.active_version matches Some(active)
        &&& self.has_version(active)
        &&& self.version(active).package_manager is Some
    }

    /// The call that updates this package, which is updatable.
    pub open spec fn update_request(self) -> UpdateRequestView {
        let active = self.active_version.unwrap();
        UpdateRequestView {
            name: self.name,
            version: active,
            install_path: self.version(active).install_path,
            user: !self.system,
            installer: self.version(active).package_manager.unwrap(),
        }
    }
}

/// The calls that update the updatable ones among `packages`, in order.
pub open spec fn requests_for(packages: Seq<PackageView>) -> Seq<UpdateRequestView>
    decreases packages.len(),
{
    if packages.len() == 0 {
        Seq::empty()
    } else {
        let before = requests_for(packages.drop_last());
        if packages.last().updatable() {
            before.push(packages.last().update_request())
        } else {
            before
        }
    }
}

impl RegistryView {
    /// The calls that an update of the package `name` makes, or, without
    /// a name, an update of every package.
    pub open spec fn update_requests(self, name: Option<Seq<char>>) -> Seq<UpdateRequestView> {
        match name {
            None => requests_for(self.packages),
            Some(n) => if self.has_package(n) && self.package(n).updatable() {
                seq![self.package(n).update_request()]
            } else {
                Seq::empty()
            },
        }
    }
}

impl Package {
    /// The call that updates this package, if an update has anything to
    /// ask for.
    pub fn update_request(&self) -> (request: Option<UpdateRequest>)
        requires
            self@.well_formed(),
        ensures
            request is Some == self@.updatable(),
            request matches Some(r) ==> r@ == self@.update_request(),
    {
        match &self.active_version {
            None => None,
            Some(active) => match self.find_version(active) {
                None => None,
                Some(j) => {
                    proof {
                        lemma_position_of_label(self@, j as int);
                    }
                    match &self.versions[j].version.package_manager {
                        None => None,
                        Some(installer) => Some(
                            UpdateRequest {
                                name: self.name.clone(),
                                version: active.clone(),
                                install_path: self.versions[j].version.install_path.clone(),
                                user: !self.system,
                                installer: installer.clone(),
                            },
                        ),
                    }
                },
            },
        }
    }
}

/// Plans an update of the package `name`, or of every package where no
/// name is given. A package without an active version, or whose active
/// version has no installer on record, is passed over. The registry is
/// not changed by an update.
pub fn update(reg: &Registry, name: Option<&str>) -> (plan: UpdatePlan)
    requires
        reg@.well_formed(),
    ensures
        match plan {
            UpdatePlan::PackageNotFound => name matches Some(n) && !reg@.has_package(n@),
            UpdatePlan::Requests(requests) => {
                &&& name matches Some(n) ==> reg@.has_package(n@)
                &&& requests_of(requests@) == reg@.update_requests(
                    match name {
                        Some(n) => Some(n@),
                        None => None,
                    },
                )
            },
        },
{
    let mut requests: Vec<UpdateRequest> = Vec::new();
    match name {
        Some(n) => {
            let key = n.to_owned();
            match reg.find(&key) {
                None => {
                    return UpdatePlan::PackageNotFound;
                },
                Some(i) => {
                    proof {
                        lemma_position_of_name(reg@, i as int);
                    }
                    assert(reg@.packages[i as int].well_formed());
                    match reg.packages[i].update_request() {
                        Some(request) => {
                            requests.push(request);
                            assert(requests_of(requests@) =~= seq![
                                reg@.package(n@).update_request(),
                            ]);
                        },
                        None => {
                            assert(requests_of(requests@) =~= Seq::empty());
                        },
                    }
                },
            }
        },
        None => {
            let mut i: usize = 0;
            assert(reg@.packages.take(0) =~= Seq::empty());
            assert(requests_of(requests@) =~= Seq::empty());
            while i < reg.packages.len()
                invariant
                    i <= reg.packages.len(),
                    reg@.well_formed(),
                    requests_of(requests@) == requests_for(reg@.packages.take(i as int)),
                decreases reg.packages.len() - i,
            {
                let ghost before = requests_of(requests@);
                assert(reg@.packages[i as int].well_formed());
                proof {
                    let upto = reg@.packages.take(i as int + 1);
                    assert(upto.drop_last() =~= reg@.packages.take(i as int));
                    assert(upto.last() == reg@.packages[i as int]);
                }
                match reg.packages[i].update_request() {
                    Some(request) => {
                        requests.push(request);
                        assert(requests_of(requests@) =~= before.push(request@));
                    },
                    None => {},
                }
                i += 1;
            }
            assert(reg@.packages.take(i as int) =~= reg@.packages);
        },
    }
    UpdatePlan::Requests(requests)
}

/// Whether `outcomes` holds a failure at `k` and none before it.
pub open spec fn first_failure_at(outcomes: Seq<Result<(), String>>, k: int) -> bool {
    &&& 0 <= k < outcomes.len()
    &&& outcomes[k] is Err
    &&& forall|j: int| 0 <= j < k ==> (#[trigger] outcomes[j]) is Ok
}

/// Says how an update ends, given what the installers answered to its
/// requests, in order. An update of every package succeeds whatever they
/// answered: each failure concerns its own package only. An update of one
/// named package fails with the first failure among the answers.
pub fn conclude_update(all: bool, outcomes: &Vec<Result<(), String>>) -> (done: Result<
    (),
    RegistryError,
>)
    ensures
        done is Ok <==> (all || forall|j: int|
            0 <= j < outcomes.len() ==> (#[trigger] outcomes[j]) is Ok),
        done matches Err(e) ==> e matches RegistryError::InstallerError(words) && exists|k: int|
            first_failure_at(outcomes@, k) && #[trigger] outcomes[k].unwrap_err()@ == words@,
{
    if all {
        return Ok(());
    }
    let mut i: usize = 0;
    while i < outcomes.len()
        invariant
            !all,
            i <= outcomes.len(),
            forall|j: int| 0 <= j < i ==> (#[trigger] outcomes[j]) is Ok,
        decreases outcomes.len() - i,
    {
        match &outcomes[i] {
            Err(words) => {
                let e = RegistryError::InstallerError(words.clone());
                assert(outcomes[i as int] is Err);
                assert(first_failure_at(outcomes@, i as int));
                assert(outcomes[i as int].unwrap_err()@ == words@);
                return Err(e);
            },
            Ok(_) => {},
        }
        i += 1;
    }
    Ok(())
}

} // verus!
