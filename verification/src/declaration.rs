//! Dependency declarations and the version text that a listing shows for
//! each.

use crate::error::{ListError, ListFailure};
use crate::ordered_map::{lookup, OrderedMap};
use vstd::prelude::*;
use vstd::string::StringExecFns;

verus! {

/// A value inside a table-shaped declaration.
#[derive(Debug, PartialEq, Eq)]
pub enum Value {
    /// A string.
    Text(String),
    /// A boolean.
    Flag(bool),
    /// Anything else, held as the text that it is written as.
    Other(String),
}

/// `Value` as plain text.
pub enum ValueModel {
    Text(Seq<char>),
    Flag(bool),
    Other(Seq<char>),
}

impl View for Value {
    type V = ValueModel;

    open spec fn view(&self) -> ValueModel {
        match self {
            Value::Text(text) => ValueModel::Text(text@),
            Value::Flag(flag) => ValueModel::Flag(*flag),
            Value::Other(text) => ValueModel::Other(text@),
        }
    }
}

/// What a manifest says under the name of one dependency.
#[derive(Debug, PartialEq, Eq)]
pub enum Declaration {
    /// A bare version requirement.
    Plain(String),
    /// A table of attributes. Those that count here are `version`, `git`,
    /// `path` and `optional`.
    Table(OrderedMap<Value>),
    /// Neither a string nor a table.
    Other,
}

/// `Declaration` as plain text.
pub enum DeclarationModel {
    Plain(Seq<char>),
    Table(Seq<(Seq<char>, ValueModel)>),
    Other,
}

impl View for Declaration {
    type V = DeclarationModel;

    open spec fn view(&self) -> DeclarationModel {
        match self {
            Declaration::Plain(version) => DeclarationModel::Plain(version@),
            Declaration::Table(table) => DeclarationModel::Table(table@),
            Declaration::Other => DeclarationModel::Other,
        }
    }
}

/// The text that stands for `value` behind `git: ` or `path: `.
pub open spec fn shown(value: ValueModel) -> Seq<char> {
    match value {
        ValueModel::Text(text) => text,
        ValueModel::Flag(flag) => if flag {
            "true"@
        } else {
            "false"@
        },
        ValueModel::Other(text) => text,
    }
}

/// The version text of a table: its `version` where that is a string, else
/// its `git` behind `git: `, else its `path` behind `path: `.
pub open spec fn table_version(table: Seq<(Seq<char>, ValueModel)>) -> Option<Seq<char>> {
    match lookup(table, "version"@) {
        Some(ValueModel::Text(version)) => Some(version),
        _ => match lookup(table, "git"@) {
            Some(repository) => Some("git: "@ + shown(repository)),
            None => match lookup(table, "path"@) {
                Some(path) => Some("path: "@ + shown(path)),
                None => None,
            },
        },
    }
}

/// Whether a table marks its dependency as optional: its `optional` where
/// that is a boolean, else `false`.
pub open spec fn table_optional(table: Seq<(Seq<char>, ValueModel)>) -> bool {
    match lookup(table, "optional"@) {
        Some(ValueModel::Flag(flag)) => flag,
        _ => false,
    }
}

/// The version text and the optional flag of the dependency `name` of
/// `section`, or why it has none.
pub open spec fn normalized(
    name: Seq<char>,
    section: Seq<char>,
    declaration: DeclarationModel,
) -> Result<(Seq<char>, bool), ListFailure> {
    match declaration {
        DeclarationModel::Plain(version) => Ok((version, false)),
        DeclarationModel::Table(table) => match table_version(table) {
            Some(version) => Ok((version, table_optional(table))),
            None => Err(ListFailure::VersionMissing(name, section)),
        },
        DeclarationModel::Other => Ok((Seq::empty(), false)),
    }
}

/// The text of `value` as it stands behind `git: ` or `path: `.
fn show(value: &Value) -> (text: String)
    ensures
        text@ == shown(value@),
{
    match value {
        Value::Text(text) => text.clone(),
        Value::Flag(flag) => if *flag {
            String::from_str("true")
        } else {
            String::from_str("false")
        },
        Value::Other(text) => text.clone(),
    }
}

/// The version text of `table`, if it has one.
fn version_of(table: &OrderedMap<Value>) -> (version: Option<String>)
    ensures
        match version {
            Some(text) => table_version(table@) == Some(text@),
            None => table_version(table@) is None,
        },
{
    if let Some(Value::Text(version)) = table.get("version") {
        return Some(version.clone());
    }
    if let Some(repository) = table.get("git") {
        return Some(String::from_str("git: ").concat(show(repository).as_str()));
    }
    if let Some(path) = table.get("path") {
        return Some(String::from_str("path: ").concat(show(path).as_str()));
    }
    None
}

/// Whether `table` marks its dependency as optional.
fn optional_of(table: &OrderedMap<Value>) -> (optional: bool)
    ensures
        optional == table_optional(table@),
{
    match table.get("optional") {
        Some(Value::Flag(flag)) => *flag,
        _ => false,
    }
}

/// Works out what a listing shows for the dependency `name` of `section`:
/// its version text, and whether it is optional.
///
/// A bare version requirement is shown as it is. Of a table the `version` is
/// shown, else its `git`, else its `path`; a table with none of them is an
/// error. A declaration of any other shape is shown with an empty version.
pub fn normalize(name: &str, section: &str, declaration: &Declaration) -> (result: Result<
    (String, bool),
    ListError,
>)
    ensures
        match result {
            Ok((version, optional)) => normalized(name@, section@, declaration@) == Ok::<
                (Seq<char>, bool),
                ListFailure,
            >((version@, optional)),
            Err(error) => normalized(name@, section@, declaration@) == Err::<
                (Seq<char>, bool),
                ListFailure,
            >(error@),
        },
        declaration matches Declaration::Plain(requirement) ==> (result matches Ok(
            (version, optional),
        ) && version@ == requirement@ && !optional),
        declaration@ matches DeclarationModel::Table(table) ==> (lookup(table, "version"@)
            matches Some(ValueModel::Text(wanted)) ==> (result matches Ok((version, _))
            && version@ == wanted)),
        declaration@ matches DeclarationModel::Table(table) ==> (lookup(table, "version"@)
            is None && lookup(table, "git"@) is None && lookup(table, "path"@) is None ==> (
        result matches Err(ListError::VersionMissing(dependency, place)) && dependency@ == name@
            && place@ == section@)),
{
    match declaration {
        Declaration::Plain(version) => Ok((version.clone(), false)),
        Declaration::Table(table) => match version_of(table) {
            Some(version) => Ok((version, optional_of(table))),
            None => Err(ListError::VersionMissing(name.to_owned(), section.to_owned())),
        },
        Declaration::Other => Ok((String::new(), false)),
    }
}

} // verus!
