//! Listing one section of a manifest.

use crate::declaration::{normalize, normalized, DeclarationModel};
use crate::error::{FetchError, FetchFailure, ListError, ListFailure};
use crate::manifest::{section_entries, Manifest, SectionModel};
use crate::ordered_map::lookup;
use crate::render::{render_rows, rendered, Row, RowModel};
use vstd::prelude::*;

verus! {

/// What the registry answered, as plain text.
pub open spec fn answer_model(answer: Result<String, FetchError>) -> Result<
    Seq<char>,
    FetchFailure,
> {
    match answer {
        Ok(version) => Ok(version@),
        Err(cause) => Err(cause@),
    }
}

/// What a listing came to, as plain text.
pub open spec fn outcome(result: Result<String, ListError>) -> Result<Seq<char>, ListFailure> {
    match result {
        Ok(text) => Ok(text@),
        Err(error) => Err(error@),
    }
}

/// `lookup`, called with the name `name`, can answer `answer`.
pub open spec fn lookup_gave<F: Fn(&str) -> Result<String, FetchError>>(
    lookup: F,
    name: Seq<char>,
    answer: Result<Seq<char>, FetchFailure>,
) -> bool {
    exists|asked: &str, given: Result<String, FetchError>|
        asked@ == name && #[trigger] call_ensures(lookup, (asked,), given) && answer_model(given)
            == answer
}

/// The row of a dependency whose version text is known, given what the
/// registry answered for it (`None`: it was not asked).
pub open spec fn completed(
    name: Seq<char>,
    version: Seq<char>,
    optional: bool,
    answer: Option<Result<Seq<char>, FetchFailure>>,
) -> Result<RowModel, ListFailure> {
    match answer {
        None => Ok(RowModel { name, version, optional, latest: None }),
        Some(Ok(latest)) => Ok(RowModel { name, version, optional, latest: Some(latest) }),
        Some(Err(cause)) => Err(ListFailure::FetchVersionError { package: name, cause }),
    }
}

/// The rows of `entries`, in order, or the error of the first entry that has
/// none. With `show_latest`, the entry at position `i` is completed with
/// `answers[i]`; an entry behind the first error needs no answer.
pub open spec fn collected(
    entries: Seq<(Seq<char>, DeclarationModel)>,
    section: Seq<char>,
    show_latest: bool,
    answers: Seq<Result<Seq<char>, FetchFailure>>,
) -> Result<Seq<RowModel>, ListFailure>
    decreases entries.len(),
{
    if entries.len() == 0 {
        Ok(Seq::empty())
    } else {
        match collected(entries.drop_last(), section, show_latest, answers) {
            Err(error) => Err(error),
            Ok(rows) => {
                let (name, declaration) = entries.last();
                match normalized(name, section, declaration) {
                    Err(error) => Err(error),
                    Ok((version, optional)) => {
                        let answer = if show_latest {
                            Some(answers[entries.len() - 1])
                        } else {
                            None
                        };
                        match completed(name, version, optional, answer) {
                            Err(error) => Err(error),
                            Ok(row) => Ok(rows.push(row)),
                        }
                    },
                }
            },
        }
    }
}

/// Whether listing `entries` asks the registry about the entry at `position`:
/// it does where the latest versions are wanted, every entry before it has
/// its row, and this entry has a version text.
pub open spec fn asked(
    entries: Seq<(Seq<char>, DeclarationModel)>,
    section: Seq<char>,
    show_latest: bool,
    answers: Seq<Result<Seq<char>, FetchFailure>>,
    position: int,
) -> bool {
    &&& show_latest
    &&& 0 <= position < entries.len()
    &&& collected(entries.take(position), section, show_latest, answers) is Ok
    &&& normalized(entries[position].0, section, entries[position].1) is Ok
}

/// The listing of the section `section` of `manifest`, given the registry's
/// answers.
pub open spec fn listing(
    manifest: Seq<(Seq<char>, SectionModel)>,
    section: Seq<char>,
    show_latest: bool,
    answers: Seq<Result<Seq<char>, FetchFailure>>,
) -> Result<Seq<char>, ListFailure> {
    match section_entries(manifest, section) {
        None => Err(ListFailure::SectionMissing(section)),
        Some(entries) => match collected(entries, section, show_latest, answers) {
            Err(error) => Err(error),
            Ok(rows) => Ok(rendered(rows)),
        },
    }
}

/// `answers` holds, for each entry that listing the section asks the
/// registry about, an answer that `lookup` can give for that entry's name.
pub open spec fn answers_given<F: Fn(&str) -> Result<String, FetchError>>(
    lookup: F,
    manifest: Seq<(Seq<char>, SectionModel)>,
    section: Seq<char>,
    show_latest: bool,
    answers: Seq<Result<Seq<char>, FetchFailure>>,
) -> bool {
    match section_entries(manifest, section) {
        None => true,
        Some(entries) => forall|i: int| #[trigger]
            asked(entries, section, show_latest, answers, i) ==> i < answers.len() && lookup_gave(
                lookup,
                entries[i].0,
                answers[i],
            ),
    }
}

/// Answers behind the last entry do not matter.
proof fn lemma_later_answers_ignored(
    entries: Seq<(Seq<char>, DeclarationModel)>,
    section: Seq<char>,
    show_latest: bool,
    answers: Seq<Result<Seq<char>, FetchFailure>>,
    more: Seq<Result<Seq<char>, FetchFailure>>,
)
    requires
        forall|i: int| 0 <= i < entries.len() ==> answers[i] == more[i],
    ensures
        collected(entries, section, show_latest, answers) == collected(
            entries,
            section,
            show_latest,
            more,
        ),
    decreases entries.len(),
{
    if entries.len() > 0 {
        lemma_later_answers_ignored(entries.drop_last(), section, show_latest, answers, more);
    }
}

/// Once an entry has failed, the entries behind it change nothing.
proof fn lemma_failure_stays(
    entries: Seq<(Seq<char>, DeclarationModel)>,
    section: Seq<char>,
    show_latest: bool,
    answers: Seq<Result<Seq<char>, FetchFailure>>,
    count: int,
)
    requires
        0 <= count <= entries.len(),
        collected(entries.take(count), section, show_latest, answers) is Err,
    ensures
        collected(entries, section, show_latest, answers) == collected(
            entries.take(count),
            section,
            show_latest,
            answers,
        ),
    decreases entries.len(),
{
    if count == entries.len() {
        assert(entries.take(count) =~= entries);
    } else {
        assert(entries.drop_last().take(count) =~= entries.take(count));
        lemma_failure_stays(entries.drop_last(), section, show_latest, answers, count);
    }
}

/// Behind the entry that failed, the registry is not asked.
proof fn lemma_failure_ends_asking(
    entries: Seq<(Seq<char>, DeclarationModel)>,
    section: Seq<char>,
    show_latest: bool,
    answers: Seq<Result<Seq<char>, FetchFailure>>,
    count: int,
)
    requires
        0 <= count <= entries.len(),
        collected(entries.take(count), section, show_latest, answers) is Err,
    ensures
        forall|k: int| #[trigger] asked(entries, section, show_latest, answers, k) ==> k < count,
{
    assert forall|k: int| #[trigger] asked(entries, section, show_latest, answers, k) implies k
        < count by {
        if k >= count {
            assert(entries.take(k).take(count) =~= entries.take(count));
            lemma_failure_stays(entries.take(k), section, show_latest, answers, count);
        }
    }
}

/// While the registry answers, only a missing version can end a listing.
proof fn lemma_only_versions_fail(
    entries: Seq<(Seq<char>, DeclarationModel)>,
    section: Seq<char>,
    show_latest: bool,
    answers: Seq<Result<Seq<char>, FetchFailure>>,
)
    requires
        show_latest ==> forall|k: int| 0 <= k < entries.len() ==> (#[trigger] answers[k]) is Ok,
    ensures
        collected(entries, section, show_latest, answers) matches Err(error) ==> (error
            matches ListFailure::VersionMissing(_, place) && place == section),
    decreases entries.len(),
{
    if entries.len() > 0 {
        lemma_only_versions_fail(entries.drop_last(), section, show_latest, answers);
        if show_latest {
            assert(answers[entries.len() - 1] is Ok);
        }
    }
}

/// A section with an entry that is a table without `version`, `git` and
/// `path` is not listed: the listing fails with `VersionMissing` for that
/// section, as long as no registry lookup for an entry before it has failed.
pub proof fn lemma_missing_version_fails(
    manifest: Seq<(Seq<char>, SectionModel)>,
    section: Seq<char>,
    show_latest: bool,
    answers: Seq<Result<Seq<char>, FetchFailure>>,
    position: int,
)
    requires
        section_entries(manifest, section) matches Some(entries) && 0 <= position < entries.len()
            && (entries[position].1 matches DeclarationModel::Table(table) && lookup(
            table,
            "version"@,
        ) is None && lookup(table, "git"@) is None && lookup(table, "path"@) is None),
        show_latest ==> forall|k: int| 0 <= k < position ==> (#[trigger] answers[k]) is Ok,
    ensures
        listing(manifest, section, show_latest, answers) matches Err(
            ListFailure::VersionMissing(_, place),
        ) && place == section,
{
    let entries = section_entries(manifest, section)->0;
    let before = entries.take(position);
    let upto = entries.take(position + 1);
    lemma_only_versions_fail(before, section, show_latest, answers);
    assert(upto.drop_last() =~= before);
    assert(upto.last() == entries[position]);
    assert(collected(upto, section, show_latest, answers) is Err);
    lemma_failure_stays(entries, section, show_latest, answers, position + 1);
}

/// Completes the row of the dependency `name` with what the registry
/// answered for it. `None` says that the registry was not asked: the row
/// then has no latest version. An answer that is an error becomes the
/// `FetchVersionError` of the package.
pub fn complete_row(
    name: &str,
    version: String,
    optional: bool,
    answer: Option<Result<String, FetchError>>,
) -> (result: Result<Row, ListError>)
    ensures
        match result {
            Ok(row) => Ok::<RowModel, ListFailure>(row@),
            Err(error) => Err::<RowModel, ListFailure>(error@),
        } == completed(
            name@,
            version@,
            optional,
            match answer {
                Some(given) => Some(answer_model(given)),
                None => None,
            },
        ),
{
    match answer {
        None => Ok(Row { name: name.to_owned(), version, optional, latest: None }),
        Some(Ok(latest)) => Ok(
            Row { name: name.to_owned(), version, optional, latest: Some(latest) },
        ),
        Some(Err(cause)) => Err(
            ListError::FetchVersionError { package: name.to_owned(), cause },
        ),
    }
}

/// Lists the dependencies of the section `section` of `manifest`, one line
/// for each, in the order in which the section holds them.
///
/// A section that is missing, or is no table, is `SectionMissing`. The
/// entries are taken in order. The first one without a version text ends the
/// listing with its `VersionMissing`. With `show_latest`, `latest_version` is
/// called once for each entry that has a version text, with the entry's
/// name; the first failing call ends the listing with a `FetchVersionError`.
/// Without `show_latest` it is never called. The rows are rendered as
/// `render_rows` does.
pub fn list_section<F>(
    manifest: &Manifest,
    section: &str,
    show_latest: bool,
    latest_version: F,
) -> (result: Result<String, ListError>) where F: Fn(&str) -> Result<String, FetchError>
    requires
        show_latest ==> forall|name: &str| call_requires(latest_version, (name,)),
    ensures
        exists|answers: Seq<Result<Seq<char>, FetchFailure>>| #[trigger]
            answers_given(latest_version, manifest@, section@, show_latest, answers) && outcome(
                result,
            ) == listing(manifest@, section@, show_latest, answers),
        !show_latest ==> outcome(result) == listing(manifest@, section@, false, Seq::empty()),
        section_entries(manifest@, section@) matches Some(entries) ==> (entries.len() == 0 ==> (
        result matches Ok(text) && text@ == Seq::<char>::empty())),
{
    let entries = match manifest.section(section) {
        Ok(entries) => entries,
        Err(error) => {
            assert(answers_given(latest_version, manifest@, section@, show_latest, Seq::empty()));
            return Err(error);
        },
    };
    let mut rows: Vec<Row> = Vec::new();
    let ghost mut answers: Seq<Result<Seq<char>, FetchFailure>> = Seq::empty();
    let mut i: usize = 0;
    assert(rows.deep_view() =~= Seq::<RowModel>::empty());
    while i < entries.len()
        invariant
            i <= entries@.len(),
            section_entries(manifest@, section@) == Some(entries@),
            show_latest ==> forall|name: &str| call_requires(latest_version, (name,)),
            collected(entries@.take(i as int), section@, show_latest, answers) == Ok::<
                Seq<RowModel>,
                ListFailure,
            >(rows.deep_view()),
            show_latest ==> answers.len() == i,
            !show_latest ==> answers == Seq::<Result<Seq<char>, FetchFailure>>::empty(),
            forall|k: int|
                0 <= k < answers.len() ==> lookup_gave(
                    latest_version,
                    entries@[k].0,
                    #[trigger] answers[k],
                ),
        decreases entries@.len() - i,
    {
        let name = entries.name_at(i);
        let ghost model = entries@;
        let ghost earlier = answers;
        proof {
            assert(model.take(i + 1).drop_last() =~= model.take(i as int));
        }
        let (version, optional) = match normalize(name.as_str(), section, entries.value_at(i)) {
            Ok(shown) => shown,
            Err(error) => {
                proof {
                    lemma_failure_stays(model, section@, show_latest, answers, i + 1);
                    lemma_failure_ends_asking(model, section@, show_latest, answers, i + 1);
                    assert(answers_given(
                        latest_version,
                        manifest@,
                        section@,
                        show_latest,
                        answers,
                    ));
                }
                return Err(error);
            },
        };
        let answer = if show_latest {
            let given = latest_version(name.as_str());
            proof {
                answers = answers.push(answer_model(given));
                lemma_later_answers_ignored(
                    model.take(i as int),
                    section@,
                    show_latest,
                    earlier,
                    answers,
                );
            }
            Some(given)
        } else {
            None
        };
        match complete_row(name.as_str(), version, optional, answer) {
            Ok(row) => {
                let ghost before = rows.deep_view();
                let ghost added = row@;
                rows.push(row);
                assert(rows.deep_view() =~= before.push(added));
            },
            Err(error) => {
                proof {
                    lemma_failure_stays(model, section@, show_latest, answers, i + 1);
                    lemma_failure_ends_asking(model, section@, show_latest, answers, i + 1);
                    assert(answers_given(
                        latest_version,
                        manifest@,
                        section@,
                        show_latest,
                        answers,
                    ));
                }
                return Err(error);
            },
        }
        i += 1;
    }
    proof {
        assert(entries@.take(i as int) =~= entries@);
        assert(answers_given(latest_version, manifest@, section@, show_latest, answers));
    }
    Ok(render_rows(&rows))
}

} // verus!
