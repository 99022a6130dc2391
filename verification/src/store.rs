//! Where the registry is stored, and how it goes into the store and comes
//! back from it.

use vstd::prelude::*;
use vstd::string::*;
use crate::document::{Json, registry_in, stores_registry, read_registry, write_registry,
    lemma_stored_registry_is_read};
use crate::error::RegistryError;
use crate::model::{Registry, RegistryView};

verus! {

/// What was found where the registry is stored.
#[derive(Debug, PartialEq, Eq)]
pub enum Document {
    /// Nothing is stored yet.
    Missing,
    /// Something is stored but could not be read.
    Unreadable(String),
    /// What is stored could not be parsed.
    Malformed(String),
    /// What is stored, parsed.
    Parsed(Json),
}

/// The file that holds the registry, below the directory `data_dir` that
/// the host keeps for the user's data.
pub open spec fn db_path_of(data_dir: Seq<char>) -> Seq<char> {
    data_dir + "/updater/packages.json"@
}

/// What is said of a document that does not describe a registry.
pub open spec fn not_a_registry() -> Seq<char> {
    "the document does not describe a registry"@
}

/// What is said of a document in which a name or a label occurs twice.
pub open spec fn repeated_entry() -> Seq<char> {
    "a name or a label occurs twice"@
}

/// The registry that a parsed document is taken for: the one it
/// describes, unless a name or a label occurs twice in it.
pub open spec fn accepted(json: Json) -> Option<RegistryView> {
    match registry_in(json) {
        Some(reg) => if reg.well_formed() {
            Some(reg)
        } else {
            None
        },
        None => None,
    }
}

/// The file that holds the registry, below the directory `data_dir` that
/// the host keeps for the user's data.
pub fn get_package_db_path(data_dir: &str) -> (path: String)
    ensures
        path@ == db_path_of(data_dir@),
{
    let mut path = data_dir.to_owned();
    path.append("/updater/packages.json");
    path
}

/// Takes what was found in the store for a registry. Nothing stored is an
/// empty registry. What could not be read or parsed, does not describe a
/// registry, or names a package or a version twice, is refused: going on
/// without it would lose the record of what is installed.
pub fn load_packages(document: Document) -> (loaded: Result<Registry, RegistryError>)
    ensures
        match document {
            Document::Missing => loaded matches Ok(reg) && reg@ == RegistryView::empty(),
            Document::Unreadable(words) => loaded == Err::<Registry, RegistryError>(
                RegistryError::PersistenceError(words),
            ),
            Document::Malformed(words) => loaded == Err::<Registry, RegistryError>(
                RegistryError::CorruptRegistry(words),
            ),
            Document::Parsed(json) => match accepted(json) {
                Some(stored) => loaded matches Ok(reg) && reg@ == stored,
                None => loaded matches Err(RegistryError::CorruptRegistry(words)) && words@ == (
                if registry_in(json) is None {
                    not_a_registry()
                } else {
                    repeated_entry()
                }),
            },
        },
        loaded matches Ok(reg) ==> reg@.well_formed(),
{
    match document {
        Document::Missing => Ok(Registry::new()),
        Document::Unreadable(words) => Err(RegistryError::PersistenceError(words)),
        Document::Malformed(words) => Err(RegistryError::CorruptRegistry(words)),
        Document::Parsed(json) => match read_registry(&json) {
            None => Err(
                RegistryError::CorruptRegistry("the document does not describe a registry".to_owned()),
            ),
            Some(reg) => if reg.is_well_formed() {
                Ok(reg)
            } else {
                Err(RegistryError::CorruptRegistry("a name or a label occurs twice".to_owned()))
            },
        },
    }
}

/// The document to put into the store for a registry. It replaces what
/// was stored before as a whole.
pub fn save_packages(reg: &Registry) -> (json: Json)
    ensures
        stores_registry(json, reg@),
        registry_in(json) == Some(reg@),
        reg@.well_formed() ==> accepted(json) == Some(reg@),
{
    write_registry(reg)
}

/// What was stored for a registry in which no name and no label occurs
/// twice is taken for that registry again, and storing what was taken
/// from a document gives a document that is taken for the same registry.
pub proof fn law_stored_registry_comes_back(reg: RegistryView, json: Json)
    requires
        reg.well_formed(),
        stores_registry(json, reg),
    ensures
        accepted(json) == Some(reg),
{
    lemma_stored_registry_is_read(json, reg);
}

} // verus!
