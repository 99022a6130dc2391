//! Gathering what the installers of the host found for one query.

use vstd::prelude::*;
use crate::error::RegistryError;

verus! {

/// A package that an installer offers.
#[derive(Debug, Clone, PartialEq, Eq)]
pub struct Offer {
    pub name: String,
    pub description: String,
}

/// What one installer answered to the query.
#[derive(Debug, PartialEq, Eq)]
pub struct SearchResponse {
    /// The installer's name.
    pub installer: String,
    /// What it found, or the words of its failure.
    pub found: Result<Vec<Offer>, String>,
}

/// A package that was found, with the installer that offers it.
#[derive(Debug, Clone, PartialEq, Eq)]
pub struct SearchHit {
    pub name: String,
    pub description: String,
    pub source: String,
}

/// The value of a `SearchHit`.
pub ghost struct SearchHitView {
    pub name: Seq<char>,
    pub description: Seq<char>,
    pub source: Seq<char>,
}

impl View for SearchHit {
    type V = SearchHitView;

    open spec fn view(&self) -> SearchHitView {
        SearchHitView { name: self.name@, description: self.description@, source: self.source@ }
    }
}

/// The values of a list of hits.
pub open spec fn hits_of(v: Seq<SearchHit>) -> Seq<SearchHitView> {
    Seq::new(v.len(), |i: int| v[i]@)
}

/// The offers of one installer, each with the installer's name.
pub open spec fn tagged(installer: Seq<char>, offers: Seq<Offer>) -> Seq<SearchHitView> {
    Seq::new(
        offers.len(),
        |i: int|
            SearchHitView {
                name: offers[i].name@,
                description: offers[i].description@,
                source: installer,
            },
    )
}

/// The hits of one response: its tagged offers, or none where it failed.
pub open spec fn hits_in(response: SearchResponse) -> Seq<SearchHitView> {
    match response.found {
        Ok(offers) => tagged(response.installer@, offers@),
        Err(_) => Seq::empty(),
    }
}

/// All hits of the responses, installer after installer. What two
/// installers both offer occurs twice.
pub open spec fn gathered(responses: Seq<SearchResponse>) -> Seq<SearchHitView>
    decreases responses.len(),
{
    if responses.len() == 0 {
        Seq::empty()
    } else {
        gathered(responses.drop_last()) + hits_in(responses.last())
    }
}

/// Whether `responses` holds a failure at `k` and none before it.
pub open spec fn first_failed_at(responses: Seq<SearchResponse>, k: int) -> bool {
    &&& 0 <= k < responses.len()
    &&& responses[k].found is Err
    &&& forall|j: int| 0 <= j < k ==> (#[trigger] responses[j]).found is Ok
}

/// Whether no response failed.
pub open spec fn all_answered(responses: Seq<SearchResponse>) -> bool {
    forall|j: int| 0 <= j < responses.len() ==> (#[trigger] responses[j]).found is Ok
}

/// Nothing is gathered exactly where no response holds an offer.
pub proof fn lemma_gathered_nothing(responses: Seq<SearchResponse>)
    ensures
        gathered(responses).len() == 0 <==> forall|j: int|
            0 <= j < responses.len() ==> hits_in(#[trigger] responses[j]).len() == 0,
    decreases responses.len(),
{
    if responses.len() > 0 {
        let before = responses.drop_last();
        lemma_gathered_nothing(before);
        if gathered(responses).len() == 0 {
            assert forall|j: int| 0 <= j < responses.len() implies hits_in(
                #[trigger] responses[j],
            ).len() == 0 by {
                if j < before.len() {
                    assert(before[j] == responses[j]);
                }
            }
        } else {
            if gathered(before).len() != 0 {
                let j = choose|j: int|
                    0 <= j < before.len() && hits_in(#[trigger] before[j]).len() != 0;
                assert(before[j] == responses[j]);
            } else {
                assert(hits_in(responses[responses.len() - 1]).len() != 0);
            }
        }
    }
}

/// Puts together what the installers answered, in the order in which they
/// were asked. Without any installer the search fails; where one failed,
/// the search fails with the first failure. Else it gives every offer of
/// every installer under the installer's name, and nothing where none of
/// them offers anything.
pub fn search(responses: &Vec<SearchResponse>) -> (hits: Result<Vec<SearchHit>, RegistryError>)
    ensures
        hits is Ok <==> responses.len() > 0 && all_answered(responses@),
        hits matches Ok(found) ==> hits_of(found@) == gathered(responses@),
        hits matches Ok(found) ==> (found.len() == 0 <==> forall|j: int|
            0 <= j < responses.len() ==> hits_in(#[trigger] responses[j]).len() == 0),
        responses.len() == 0 ==> hits == Err::<Vec<SearchHit>, RegistryError>(
            RegistryError::NoInstallerAvailable,
        ),
        responses.len() > 0 ==> (hits matches Err(e) ==> e matches RegistryError::InstallerError(
            words,
        ) && exists|k: int|
            first_failed_at(responses@, k) && (#[trigger] responses[k]).found.unwrap_err()@
                == words@),
{
    if responses.len() == 0 {
        return Err(RegistryError::NoInstallerAvailable);
    }
    let mut found: Vec<SearchHit> = Vec::new();
    let mut i: usize = 0;
    assert(responses@.take(0) =~= Seq::empty());
    assert(hits_of(found@) =~= Seq::empty());
    while i < responses.len()
        invariant
            0 < responses.len(),
            i <= responses.len(),
            forall|j: int| 0 <= j < i ==> (#[trigger] responses[j]).found is Ok,
            hits_of(found@) == gathered(responses@.take(i as int)),
        decreases responses.len() - i,
    {
        proof {
            let upto = responses@.take(i as int + 1);
            assert(upto.drop_last() =~= responses@.take(i as int));
            assert(upto.last() == responses[i as int]);
        }
        match &responses[i].found {
            Err(words) => {
                let e = RegistryError::InstallerError(words.clone());
                assert(responses[i as int].found is Err);
                assert(first_failed_at(responses@, i as int));
                assert(responses[i as int].found.unwrap_err()@ == words@);
                return Err(e);
            },
            Ok(offers) => {
                let ghost before = hits_of(found@);
                let mut k: usize = 0;
                while k < offers.len()
                    invariant
                        k <= offers.len(),
                        i < responses.len(),
                        responses[i as int].found == Ok::<Vec<Offer>, String>(*offers),
                        hits_of(found@) == before + tagged(
                            responses[i as int].installer@,
                            offers@.take(k as int),
                        ),
                    decreases offers.len() - k,
                {
                    let ghost sofar = hits_of(found@);
                    let hit = SearchHit {
                        name: offers[k].name.clone(),
                        description: offers[k].description.clone(),
                        source: responses[i].installer.clone(),
                    };
                    found.push(hit);
                    assert(hits_of(found@) =~= sofar.push(hit@));
                    assert(hits_of(found@) =~= before + tagged(
                        responses[i as int].installer@,
                        offers@.take(k as int + 1),
                    ));
                    k += 1;
                }
                assert(offers@.take(k as int) =~= offers@);
            },
        }
        i += 1;
    }
    assert(responses@.take(i as int) =~= responses@);
    proof {
        lemma_gathered_nothing(responses@);
    }
    Ok(found)
}

} // verus!
