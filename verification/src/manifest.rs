//! Manifests: named sections of dependency declarations.

use crate::declaration::{Declaration, DeclarationModel};
use crate::error::{ListError, ListFailure};
use crate::ordered_map::{lookup, OrderedMap};
use vstd::prelude::*;

verus! {

/// What a manifest holds under one name at its top level.
#[derive(Debug, PartialEq, Eq)]
pub enum Section {
    /// A table: the dependencies that the section declares, by name.
    Table(OrderedMap<Declaration>),
    /// Anything that is not a table.
    Other,
}

/// `Section` as plain text.
pub enum SectionModel {
    Table(Seq<(Seq<char>, DeclarationModel)>),
    Other,
}

impl View for Section {
    type V = SectionModel;

    open spec fn view(&self) -> SectionModel {
        match self {
            Section::Table(entries) => SectionModel::Table(entries@),
            Section::Other => SectionModel::Other,
        }
    }
}

/// A parsed manifest.
#[derive(Debug, PartialEq, Eq)]
pub struct Manifest {
    /// What stands at the top level, by name.
    pub data: OrderedMap<Section>,
}

impl View for Manifest {
    type V = Seq<(Seq<char>, SectionModel)>;

    open spec fn view(&self) -> Seq<(Seq<char>, SectionModel)> {
        self.data@
    }
}

/// The entries of the section `section` of `manifest`, where `manifest` has a
/// table under that name.
pub open spec fn section_entries(
    manifest: Seq<(Seq<char>, SectionModel)>,
    section: Seq<char>,
) -> Option<Seq<(Seq<char>, DeclarationModel)>> {
    match lookup(manifest, section) {
        Some(SectionModel::Table(entries)) => Some(entries),
        _ => None,
    }
}

impl Manifest {
    /// A manifest without sections.
    pub fn new() -> (manifest: Self)
        ensures
            manifest@ == Seq::<(Seq<char>, SectionModel)>::empty(),
    {
        Manifest { data: OrderedMap::new() }
    }

    /// The entries of the section `name`. A name that is missing, or that
    /// stands for something other than a table, is `SectionMissing`.
    pub fn section(&self, name: &str) -> (result: Result<&OrderedMap<Declaration>, ListError>)
        ensures
            match result {
                Ok(entries) => section_entries(self@, name@) == Some(entries@),
                Err(error) => section_entries(self@, name@) is None && error@
                    == ListFailure::SectionMissing(name@),
            },
    {
        match self.data.get(name) {
            Some(Section::Table(entries)) => Ok(entries),
            _ => Err(ListError::SectionMissing(name.to_owned())),
        }
    }
}

} // verus!
