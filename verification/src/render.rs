//! Rows and the block of text that they are rendered to.

use crate::text::{
    byte_len, cell, display_width, lemma_byte_len_covers_chars, lemma_cell_shape, pad_to_width,
    spaces,
};
use vstd::prelude::*;
use vstd::string::StringExecFns;

verus! {

/// One dependency, ready to be rendered.
#[derive(Debug, Clone, PartialEq, Eq)]
pub struct Row {
    pub name: String,
    /// The version text that is shown.
    pub version: String,
    pub optional: bool,
    /// The latest version that the registry has, where it was asked.
    pub latest: Option<String>,
}

/// `Row` as plain text.
pub struct RowModel {
    pub name: Seq<char>,
    pub version: Seq<char>,
    pub optional: bool,
    pub latest: Option<Seq<char>>,
}

impl View for Row {
    type V = RowModel;

    open spec fn view(&self) -> RowModel {
        RowModel {
            name: self.name@,
            version: self.version@,
            optional: self.optional,
            latest: match self.latest {
                Some(version) => Some(version@),
                None => None,
            },
        }
    }
}

impl DeepView for Row {
    type V = RowModel;

    open spec fn deep_view(&self) -> RowModel {
        self@
    }
}

/// The greatest length in bytes among `texts`; 0 where there are none.
pub open spec fn widest(texts: Seq<Seq<char>>) -> nat
    decreases texts.len(),
{
    if texts.len() == 0 {
        0
    } else {
        let before = widest(texts.drop_last());
        let own = byte_len(texts.last());
        if own > before {
            own
        } else {
            before
        }
    }
}

/// The names of `rows`, in order.
pub open spec fn names(rows: Seq<RowModel>) -> Seq<Seq<char>> {
    Seq::new(rows.len(), |i: int| rows[i].name)
}

/// The version texts of `rows`, in order.
pub open spec fn versions(rows: Seq<RowModel>) -> Seq<Seq<char>> {
    Seq::new(rows.len(), |i: int| rows[i].version)
}

/// The width of the name column: the length of the longest name.
pub open spec fn name_width(rows: Seq<RowModel>) -> nat {
    widest(names(rows))
}

/// The width of the version column: the length of the longest version text.
pub open spec fn version_width(rows: Seq<RowModel>) -> nat {
    widest(versions(rows))
}

/// Whether any of `rows` is optional.
pub open spec fn has_optional(rows: Seq<RowModel>) -> bool {
    exists|i: int| 0 <= i < rows.len() && (#[trigger] rows[i]).optional
}

/// What follows the version column: the marker of an optional row, blanks
/// of the same length where only other rows are optional, else nothing.
pub open spec fn marker(optional: bool, any_optional: bool) -> Seq<char> {
    if optional {
        " (optional) "@
    } else if any_optional {
        "            "@
    } else {
        Seq::empty()
    }
}

/// The latest version as it is shown: nothing where there is none.
pub open spec fn latest_text(latest: Option<Seq<char>>) -> Seq<char> {
    match latest {
        Some(version) => version,
        None => Seq::empty(),
    }
}

/// The line of `row` in a listing with the given column widths.
pub open spec fn line(
    row: RowModel,
    name_width: nat,
    version_width: nat,
    any_optional: bool,
) -> Seq<char> {
    cell(row.name, name_width) + " "@ + cell(row.version, version_width) + marker(
        row.optional,
        any_optional,
    ) + latest_text(row.latest)
}

/// The lines of `rows`, each laid out with the widths that all of `rows`
/// call for.
pub open spec fn lines(rows: Seq<RowModel>) -> Seq<Seq<char>> {
    Seq::new(
        rows.len(),
        |i: int| line(rows[i], name_width(rows), version_width(rows), has_optional(rows)),
    )
}

/// `lines` with one line feed between each two; no line feed at the end.
pub open spec fn joined(lines: Seq<Seq<char>>) -> Seq<char>
    decreases lines.len(),
{
    if lines.len() == 0 {
        Seq::empty()
    } else {
        let above = lines.drop_last();
        if above.len() == 0 {
            lines.last()
        } else {
            joined(above) + "\n"@ + lines.last()
        }
    }
}

/// The listing of `rows`.
pub open spec fn rendered(rows: Seq<RowModel>) -> Seq<char> {
    joined(lines(rows))
}

/// `widest` is the length of one of the texts, and no text is longer.
pub proof fn lemma_widest(texts: Seq<Seq<char>>)
    ensures
        forall|i: int| 0 <= i < texts.len() ==> byte_len(#[trigger] texts[i]) <= widest(texts),
        texts.len() == 0 ==> widest(texts) == 0,
        texts.len() > 0 ==> exists|i: int|
            0 <= i < texts.len() && byte_len(#[trigger] texts[i]) == widest(texts),
    decreases texts.len(),
{
    if texts.len() > 0 {
        let above = texts.drop_last();
        lemma_widest(above);
        assert forall|i: int| 0 <= i < texts.len() implies byte_len(#[trigger] texts[i])
            <= widest(texts) by {
            if i < above.len() {
                assert(above[i] == texts[i]);
            }
        }
        if byte_len(texts.last()) > widest(above) || above.len() == 0 {
            assert(byte_len(texts[texts.len() - 1]) == widest(texts));
        } else {
            let i = choose|i: int|
                0 <= i < above.len() && byte_len(#[trigger] above[i]) == widest(above);
            assert(byte_len(texts[i]) == widest(texts));
        }
    }
}

/// The two columns of a listing are as wide as the longest name and the
/// longest version text of its rows, and every line is laid out in these
/// same two columns: the name in a cell of the one width, a space, the
/// version text in a cell of the other. A name or version text that takes
/// one column for each of its characters fills its cell exactly.
pub proof fn lemma_columns_aligned(rows: Seq<RowModel>, i: int)
    requires
        0 <= i < rows.len(),
    ensures
        forall|j: int| 0 <= j < rows.len() ==> byte_len((#[trigger] rows[j]).name) <= name_width(rows),
        forall|j: int|
            0 <= j < rows.len() ==> byte_len((#[trigger] rows[j]).version) <= version_width(rows),
        exists|j: int| 0 <= j < rows.len() && byte_len((#[trigger] rows[j]).name) == name_width(rows),
        exists|j: int|
            0 <= j < rows.len() && byte_len((#[trigger] rows[j]).version) == version_width(rows),
        lines(rows)[i] == cell(rows[i].name, name_width(rows)) + " "@ + cell(
            rows[i].version,
            version_width(rows),
        ) + marker(rows[i].optional, has_optional(rows)) + latest_text(rows[i].latest),
        display_width(rows[i].name) == rows[i].name.len() ==> cell(
            rows[i].name,
            name_width(rows),
        ).len() == name_width(rows),
        display_width(rows[i].version) == rows[i].version.len() ==> cell(
            rows[i].version,
            version_width(rows),
        ).len() == version_width(rows),
{
    lemma_widest(names(rows));
    lemma_widest(versions(rows));
    assert forall|j: int| 0 <= j < rows.len() implies byte_len((#[trigger] rows[j]).name)
        <= name_width(rows) by {
        assert(names(rows)[j] == rows[j].name);
    }
    assert forall|j: int| 0 <= j < rows.len() implies byte_len((#[trigger] rows[j]).version)
        <= version_width(rows) by {
        assert(versions(rows)[j] == rows[j].version);
    }
    let n = choose|j: int|
        0 <= j < names(rows).len() && byte_len(#[trigger] names(rows)[j]) == name_width(rows);
    assert(byte_len(rows[n].name) == name_width(rows));
    let v = choose|j: int|
        0 <= j < versions(rows).len() && byte_len(#[trigger] versions(rows)[j]) == version_width(
            rows,
        );
    assert(byte_len(rows[v].version) == version_width(rows));
    lemma_byte_len_covers_chars(rows[i].name);
    lemma_byte_len_covers_chars(rows[i].version);
    lemma_cell_shape(rows[i].name, name_width(rows));
    lemma_cell_shape(rows[i].version, version_width(rows));
}

/// Where any row is optional, what stands between the version column and
/// the latest version is twelve characters long in every line: the marker
/// in the lines of optional rows, twelve spaces in the others. Where no row
/// is optional, nothing stands there.
pub proof fn lemma_marker_keeps_alignment(rows: Seq<RowModel>, i: int)
    requires
        0 <= i < rows.len(),
    ensures
        has_optional(rows) ==> marker(rows[i].optional, has_optional(rows)).len() == 12,
        has_optional(rows) && !rows[i].optional ==> marker(rows[i].optional, has_optional(rows))
            == spaces(12),
        !has_optional(rows) ==> marker(rows[i].optional, has_optional(rows)).len() == 0,
{
    reveal_strlit(" (optional) ");
    reveal_strlit("            ");
    if has_optional(rows) && !rows[i].optional {
        assert(marker(rows[i].optional, has_optional(rows)) =~= spaces(12));
    }
}

/// The length of `text` in bytes.
fn byte_length(text: &String) -> (length: usize)
    ensures
        length == byte_len(text@),
{
    text.as_str().as_bytes().len()
}

/// The widths of the name column and of the version column.
fn column_widths(rows: &Vec<Row>) -> (widths: (usize, usize))
    ensures
        widths.0 == name_width(rows.deep_view()),
        widths.1 == version_width(rows.deep_view()),
{
    let ghost model = rows.deep_view();
    let mut name_max: usize = 0;
    let mut version_max: usize = 0;
    let mut i: usize = 0;
    while i < rows.len()
        invariant
            i <= rows.len(),
            model == rows.deep_view(),
            name_max == widest(names(model).take(i as int)),
            version_max == widest(versions(model).take(i as int)),
        decreases rows.len() - i,
    {
        let name_length = byte_length(&rows[i].name);
        let version_length = byte_length(&rows[i].version);
        proof {
            assert(names(model).take(i + 1).drop_last() =~= names(model).take(i as int));
            assert(versions(model).take(i + 1).drop_last() =~= versions(model).take(i as int));
        }
        if name_length > name_max {
            name_max = name_length;
        }
        if version_length > version_max {
            version_max = version_length;
        }
        i += 1;
    }
    proof {
        assert(names(model).take(i as int) =~= names(model));
        assert(versions(model).take(i as int) =~= versions(model));
    }
    (name_max, version_max)
}

/// Whether any of `rows` is optional.
fn any_optional(rows: &Vec<Row>) -> (found: bool)
    ensures
        found == has_optional(rows.deep_view()),
{
    let ghost model = rows.deep_view();
    let mut i: usize = 0;
    while i < rows.len()
        invariant
            i <= rows.len(),
            model == rows.deep_view(),
            forall|j: int| 0 <= j < i ==> !(#[trigger] model[j]).optional,
        decreases rows.len() - i,
    {
        if rows[i].optional {
            assert(model[i as int].optional);
            return true;
        }
        i += 1;
    }
    false
}

/// Renders one line.
fn render_line(row: &Row, name_width: usize, version_width: usize, any_optional: bool) -> (text:
    String)
    ensures
        text@ == line(row@, name_width as nat, version_width as nat, any_optional),
{
    let mut text = pad_to_width(row.name.as_str(), name_width);
    text.append(" ");
    text.append(pad_to_width(row.version.as_str(), version_width).as_str());
    if row.optional {
        text.append(" (optional) ");
    } else if any_optional {
        text.append("            ");
    }
    if let Some(latest) = &row.latest {
        text.append(latest.as_str());
    }
    assert(text@ =~= line(row@, name_width as nat, version_width as nat, any_optional));
    text
}

/// Renders `rows` as a block of text, one line for each row and a line feed
/// between each two lines.
///
/// Names and version texts stand in two columns, each as wide as its longest
/// entry and filled up with spaces, with one space between the columns. An
/// optional row is marked behind its version; where any row is optional, the
/// others get blanks of the marker's length. The latest version, where a row
/// has one, ends the line.
pub fn render_rows(rows: &Vec<Row>) -> (text: String)
    ensures
        text@ == rendered(rows.deep_view()),
{
    let ghost model = rows.deep_view();
    let (name_columns, version_columns) = column_widths(rows);
    let fill_marker = any_optional(rows);
    let mut output = String::new();
    let mut i: usize = 0;
    while i < rows.len()
        invariant
            i <= rows.len(),
            model == rows.deep_view(),
            name_columns == name_width(model),
            version_columns == version_width(model),
            fill_marker == has_optional(model),
            output@ == joined(lines(model).take(i as int)),
        decreases rows.len() - i,
    {
        let next = render_line(&rows[i], name_columns, version_columns, fill_marker);
        proof {
            assert(lines(model).take(i + 1).drop_last() =~= lines(model).take(i as int));
            assert(lines(model).take(i + 1).last() == next@);
        }
        if i > 0 {
            output.append("\n");
        }
        output.append(next.as_str());
        assert(output@ =~= joined(lines(model).take(i + 1)));
        i += 1;
    }
    proof {
        assert(lines(model).take(i as int) =~= lines(model));
    }
    output
}

} // verus!
