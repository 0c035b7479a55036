//! What is shown of query results, tables and saved queries: the texts of
//! the plain formats, and the rows and records that the other formats are
//! made of.

use vstd::prelude::*;

use crate::cache::{ColumnMetadata, ForeignKeyRelationship, TableMetadata};
use crate::config::SavedQuery;
use crate::name_map::NameMap;
use crate::text::{
    chars_equal, chars_of, decimal_text, first_line, first_line_of, insert_sorted, joined,
    lowercase_text, push_chars, push_decimal, push_joined, push_str_chars, string_from_chars,
    strictly_sorted, texts_of, to_lowercase,
};

verus! {

/// The formats in which results are shown.
#[derive(Clone, Copy, Debug, PartialEq, Eq, Structural)]
pub enum OutputFormat {
    Table,
    Json,
    JsonPretty,
    Csv,
}

/// A format name that stands for no format.
#[derive(Clone, Debug)]
pub struct UnknownFormat {
    pub name: String,
}

impl UnknownFormat {
    /// The error in words.
    pub open spec fn message_text(&self) -> Seq<char> {
        "Unknown format: "@ + self.name@ + ". Available: table, json, json-pretty, csv"@
    }

    /// The error in words.
    pub fn message(&self) -> (text: String)
        ensures
            text@ == self.message_text(),
    {
        let mut chars: Vec<char> = Vec::new();
        push_str_chars(&mut chars, "Unknown format: ");
        push_str_chars(&mut chars, self.name.as_str());
        push_str_chars(&mut chars, ". Available: table, json, json-pretty, csv");
        string_from_chars(&chars)
    }
}

impl OutputFormat {
    /// The format that a name stands for, letter case aside.
    pub open spec fn named(name: Seq<char>) -> Option<OutputFormat> {
        let lower = lowercase_text(name);
        if lower == "table"@ {
            Some(OutputFormat::Table)
        } else if lower == "json"@ {
            Some(OutputFormat::Json)
        } else if lower == "json-pretty"@ || lower == "pretty"@ {
            Some(OutputFormat::JsonPretty)
        } else if lower == "csv"@ {
            Some(OutputFormat::Csv)
        } else {
            None
        }
    }

    /// The format that `name` stands for.
    pub fn parse(name: &str) -> (format: Result<OutputFormat, UnknownFormat>)
        ensures
            match Self::named(name@) {
                Some(found) => format matches Ok(f) && f == found,
                None => format matches Err(error) && error.name@ == name@,
            },
    {
        let lower = chars_of(to_lowercase(name).as_str());
        if chars_equal(&lower, &chars_of("table")) {
            Ok(OutputFormat::Table)
        } else if chars_equal(&lower, &chars_of("json")) {
            Ok(OutputFormat::Json)
        } else if chars_equal(&lower, &chars_of("json-pretty")) || chars_equal(
            &lower,
            &chars_of("pretty"),
        ) {
            Ok(OutputFormat::JsonPretty)
        } else if chars_equal(&lower, &chars_of("csv")) {
            Ok(OutputFormat::Csv)
        } else {
            Err(UnknownFormat { name: name.to_owned() })
        }
    }
}

impl std::str::FromStr for OutputFormat {
    type Err = UnknownFormat;

    /// The format that `s` stands for, as `parse` gives it.
    fn from_str(s: &str) -> (format: Result<OutputFormat, UnknownFormat>)
        ensures
            match OutputFormat::named(s@) {
                Some(found) => format matches Ok(f) && f == found,
                None => format matches Err(error) && error.name@ == s@,
            },
    {
        OutputFormat::parse(s)
    }
}

/// The result of a query: its columns, its rows, and how many rows it
/// touched.
#[derive(Clone, Debug)]
pub struct QueryResult {
    pub columns: Vec<String>,
    pub rows: Vec<Vec<String>>,
    pub rows_affected: usize,
}

/// What is to be shown: a finished text, or a record to be written as JSON.
#[derive(Clone, Debug)]
pub enum Rendering {
    Text(String),
    Json { record: QueryResult, pretty: bool },
}

/// The texts of a list of strings.
pub open spec fn row_view(row: Vec<String>) -> Seq<Seq<char>> {
    row@.map_values(|cell: String| cell@)
}

/// The texts of a list of rows.
pub open spec fn rows_view(rows: Seq<Vec<String>>) -> Seq<Seq<Seq<char>>> {
    rows.map_values(|row: Vec<String>| row_view(row))
}

/// Twenty dashes for every column.
pub open spec fn rule_text(columns: nat) -> Seq<char>
    decreases columns,
{
    if columns == 0 {
        Seq::empty()
    } else {
        rule_text((columns - 1) as nat) + "--------------------"@
    }
}

/// Every row on a line of its own, its cells joined by `separator`.
pub open spec fn lines_text(rows: Seq<Seq<Seq<char>>>, separator: Seq<char>) -> Seq<char>
    decreases rows.len(),
{
    if rows.len() == 0 {
        Seq::empty()
    } else {
        lines_text(rows.drop_last(), separator) + joined(rows.last(), separator).push('\n')
    }
}

/// A result as a table: the column names, a rule, the rows, and the number
/// of rows.
pub open spec fn table_text(
    columns: Seq<Seq<char>>,
    rows: Seq<Seq<Seq<char>>>,
    rows_affected: nat,
) -> Seq<char> {
    joined(columns, " | "@).push('\n') + rule_text(columns.len()).push('\n') + lines_text(
        rows,
        " | "@,
    ) + "\n"@ + decimal_text(rows_affected) + " rows returned"@
}

/// `cell` with every double quote doubled.
pub open spec fn quotes_doubled(cell: Seq<char>) -> Seq<char>
    decreases cell.len(),
{
    if cell.len() == 0 {
        Seq::empty()
    } else if cell.last() == '"' {
        quotes_doubled(cell.drop_last()).push('"').push('"')
    } else {
        quotes_doubled(cell.drop_last()).push(cell.last())
    }
}

/// A cell as a CSV field: one that holds a comma or a double quote stands
/// in double quotes, with its own double quotes doubled.
pub open spec fn csv_field(cell: Seq<char>) -> Seq<char> {
    if cell.contains(',') || cell.contains('"') {
        seq!['"'] + quotes_doubled(cell) + seq!['"']
    } else {
        cell
    }
}

/// The rows as lines of CSV fields.
pub open spec fn csv_lines(rows: Seq<Seq<Seq<char>>>) -> Seq<char>
    decreases rows.len(),
{
    if rows.len() == 0 {
        Seq::empty()
    } else {
        csv_lines(rows.drop_last()) + joined(
            rows.last().map_values(|cell: Seq<char>| csv_field(cell)),
            ","@,
        ).push('\n')
    }
}

/// A result as CSV: the column names as they are, then the rows.
pub open spec fn csv_text(columns: Seq<Seq<char>>, rows: Seq<Seq<Seq<char>>>) -> Seq<char> {
    joined(columns, ","@).push('\n') + csv_lines(rows)
}

/// A result as a table.
pub fn format_query_table(
    columns: &Vec<String>,
    rows: &Vec<Vec<String>>,
    rows_affected: usize,
) -> (text: String)
    ensures
        text@ == table_text(row_view(*columns), rows_view(rows@), rows_affected as nat),
{
    let mut out: Vec<char> = Vec::new();
    push_joined(&mut out, columns, " | ");
    out.push('\n');
    let ghost head = out@;
    let mut c: usize = 0;
    assert(out@ =~= head + rule_text(0));
    while c < columns.len()
        invariant
            c <= columns.len(),
            out@ == head + rule_text(c as nat),
        decreases columns.len() - c,
    {
        push_str_chars(&mut out, "--------------------");
        c += 1;
        assert(out@ =~= head + rule_text(c as nat));
    }
    out.push('\n');
    let ghost ruled = out@;
    let mut r: usize = 0;
    assert(rows_view(rows@).take(0) =~= Seq::<Seq<Seq<char>>>::empty());
    assert(out@ =~= ruled + lines_text(rows_view(rows@).take(0), " | "@));
    while r < rows.len()
        invariant
            r <= rows.len(),
            out@ == ruled + lines_text(rows_view(rows@).take(r as int), " | "@),
        decreases rows.len() - r,
    {
        push_joined(&mut out, &rows[r], " | ");
        out.push('\n');
        r += 1;
        proof {
            let shown = rows_view(rows@).take(r as int);
            assert(shown.drop_last() =~= rows_view(rows@).take(r - 1));
            assert(shown.last() == row_view(rows@[r - 1]));
            assert(out@ =~= ruled + lines_text(shown, " | "@));
        }
    }
    assert(rows_view(rows@).take(r as int) =~= rows_view(rows@));
    push_str_chars(&mut out, "\n");
    push_decimal(&mut out, rows_affected as u64);
    push_str_chars(&mut out, " rows returned");
    let text = string_from_chars(&out);
    assert(text@ =~= table_text(row_view(*columns), rows_view(rows@), rows_affected as nat));
    text
}

/// Appends `cell` as a CSV field.
pub fn push_csv_field(out: &mut Vec<char>, cell: &str)
    ensures
        final(out)@ == old(out)@ + csv_field(cell@),
{
    let ghost before = out@;
    let chars = chars_of(cell);
    let mut quoted: bool = false;
    let mut i: usize = 0;
    while i < chars.len()
        invariant
            i <= chars.len(),
            quoted == (chars@.take(i as int).contains(',') || chars@.take(i as int).contains('"')),
        decreases chars.len() - i,
    {
        let ghost seen = chars@.take(i as int);
        if chars[i] == ',' || chars[i] == '"' {
            quoted = true;
        }
        i += 1;
        proof {
            let now = chars@.take(i as int);
            assert(now =~= seen.push(chars@[i - 1]));
            assert(now[i - 1] == chars@[i - 1]);
            assert forall|c: char| now.contains(c) <==> (seen.contains(c) || c == chars@[i
                - 1]) by {
                if now.contains(c) {
                    let k = choose|k: int| 0 <= k < now.len() && now[k] == c;
                    if k < i - 1 {
                        assert(seen[k] == c);
                    }
                }
                if seen.contains(c) {
                    let k = choose|k: int| 0 <= k < seen.len() && seen[k] == c;
                    assert(now[k] == c);
                }
            }
        }
    }
    assert(chars@.take(i as int) =~= chars@);
    if !quoted {
        push_chars(out, &chars);
        return ;
    }
    out.push('"');
    let ghost opened = out@;
    let mut j: usize = 0;
    assert(out@ =~= opened + quotes_doubled(chars@.take(0)));
    while j < chars.len()
        invariant
            j <= chars.len(),
            out@ == opened + quotes_doubled(chars@.take(j as int)),
        decreases chars.len() - j,
    {
        if chars[j] == '"' {
            out.push('"');
            out.push('"');
        } else {
            out.push(chars[j]);
        }
        j += 1;
        proof {
            assert(chars@.take(j as int).drop_last() =~= chars@.take(j - 1));
            assert(out@ =~= opened + quotes_doubled(chars@.take(j as int)));
        }
    }
    assert(chars@.take(j as int) =~= chars@);
    out.push('"');
    assert(out@ =~= before + csv_field(cell@));
}

/// A result as CSV.
pub fn format_query_csv(columns: &Vec<String>, rows: &Vec<Vec<String>>) -> (text: String)
    ensures
        text@ == csv_text(row_view(*columns), rows_view(rows@)),
{
    let mut out: Vec<char> = Vec::new();
    push_joined(&mut out, columns, ",");
    out.push('\n');
    let ghost head = out@;
    let mut r: usize = 0;
    assert(rows_view(rows@).take(0) =~= Seq::<Seq<Seq<char>>>::empty());
    assert(out@ =~= head + csv_lines(rows_view(rows@).take(0)));
    while r < rows.len()
        invariant
            r <= rows.len(),
            out@ == head + csv_lines(rows_view(rows@).take(r as int)),
        decreases rows.len() - r,
    {
        let row = &rows[r];
        let ghost cells = row_view(*row).map_values(|cell: Seq<char>| csv_field(cell));
        let ghost line_start = out@;
        let mut k: usize = 0;
        assert(out@ =~= line_start + joined(cells.take(0), ","@));
        while k < row.len()
            invariant
                k <= row.len(),
                cells == row_view(*row).map_values(|cell: Seq<char>| csv_field(cell)),
                out@ == line_start + joined(cells.take(k as int), ","@),
            decreases row.len() - k,
        {
            if k > 0 {
                out.push(',');
            }
            push_csv_field(&mut out, row[k].as_str());
            k += 1;
            proof {
                assert(cells.take(k as int).drop_last() =~= cells.take(k - 1));
                assert(cells.take(k as int).last() == csv_field(row@[k - 1]@));
                assert(","@ =~= seq![',']) by {
                    reveal_strlit(",");
                }
                assert(out@ =~= line_start + joined(cells.take(k as int), ","@));
            }
        }
        assert(cells.take(k as int) =~= cells);
        out.push('\n');
        r += 1;
        proof {
            let shown = rows_view(rows@).take(r as int);
            assert(shown.drop_last() =~= rows_view(rows@).take(r - 1));
            assert(shown.last() == row_view(rows@[r - 1]));
            assert(out@ =~= head + csv_lines(shown));
        }
    }
    assert(rows_view(rows@).take(r as int) =~= rows_view(rows@));
    string_from_chars(&out)
}

/// What is shown of a result in a format: the text of the table and CSV
/// formats, and for the JSON formats the record to write.
pub fn format_query_result(
    columns: &Vec<String>,
    rows: &Vec<Vec<String>>,
    rows_affected: usize,
    format: OutputFormat,
) -> (rendering: Rendering)
    ensures
        match format {
            OutputFormat::Table => rendering matches Rendering::Text(text) && text@ == table_text(
                row_view(*columns),
                rows_view(rows@),
                rows_affected as nat,
            ),
            OutputFormat::Csv => rendering matches Rendering::Text(text) && text@ == csv_text(
                row_view(*columns),
                rows_view(rows@),
            ),
            OutputFormat::Json => rendering matches Rendering::Json { record, pretty } && !pretty
                && is_record_of(record, *columns, *rows, rows_affected),
            OutputFormat::JsonPretty => rendering matches Rendering::Json { record, pretty }
                && pretty && is_record_of(record, *columns, *rows, rows_affected),
        },
{
    match format {
        OutputFormat::Table => Rendering::Text(format_query_table(columns, rows, rows_affected)),
        OutputFormat::Csv => Rendering::Text(format_query_csv(columns, rows)),
        OutputFormat::Json => Rendering::Json {
            record: query_record(columns, rows, rows_affected),
            pretty: false,
        },
        OutputFormat::JsonPretty => Rendering::Json {
            record: query_record(columns, rows, rows_affected),
            pretty: true,
        },
    }
}

/// `record` holds the columns, the rows and the count.
pub open spec fn is_record_of(
    record: QueryResult,
    columns: Vec<String>,
    rows: Vec<Vec<String>>,
    rows_affected: usize,
) -> bool {
    &&& row_view(record.columns) == row_view(columns)
    &&& rows_view(record.rows@) == rows_view(rows@)
    &&& record.rows_affected == rows_affected
}

/// A copy of a list of strings.
pub fn copy_strings(items: &Vec<String>) -> (copy: Vec<String>)
    ensures
        row_view(copy) == row_view(*items),
{
    let mut copy: Vec<String> = Vec::new();
    let mut i: usize = 0;
    while i < items.len()
        invariant
            i <= items.len(),
            copy@.len() == i,
            forall|j: int| 0 <= j < i ==> copy@[j]@ == items@[j]@,
        decreases items.len() - i,
    {
        copy.push(items[i].clone());
        i += 1;
    }
    assert(row_view(copy) =~= row_view(*items));
    copy
}

/// The record of a result.
pub fn query_record(
    columns: &Vec<String>,
    rows: &Vec<Vec<String>>,
    rows_affected: usize,
) -> (record: QueryResult)
    ensures
        is_record_of(record, *columns, *rows, rows_affected),
{
    let mut copied: Vec<Vec<String>> = Vec::new();
    let mut i: usize = 0;
    while i < rows.len()
        invariant
            i <= rows.len(),
            copied@.len() == i,
            forall|j: int| 0 <= j < i ==> row_view(copied@[j]) == row_view(rows@[j]),
        decreases rows.len() - i,
    {
        copied.push(copy_strings(&rows[i]));
        i += 1;
    }
    assert(rows_view(copied@) =~= rows_view(rows@));
    QueryResult { columns: copy_strings(columns), rows: copied, rows_affected }
}

/// A table as a row of the list of tables.
#[derive(Clone, Debug)]
pub struct TableRow {
    pub name: String,
    pub columns: usize,
    pub primary_key: String,
    pub foreign_keys: usize,
}

/// A column as a row of the list of columns.
#[derive(Clone, Debug)]
pub struct ColumnRow {
    pub name: String,
    pub data_type: String,
    pub nullable: String,
    pub default_value: String,
    pub is_primary_key: String,
    pub is_foreign_key: String,
}

/// A foreign key as a row of the list of relationships.
#[derive(Clone, Debug)]
pub struct RelationshipRow {
    pub constraint: String,
    pub from: String,
    pub to: String,
}

/// `row` shows `table`: its name, the number of its columns, its primary
/// key joined by commas, and the number of its foreign keys.
pub open spec fn is_table_row(row: TableRow, table: TableMetadata) -> bool {
    &&& row.name@ == table.name@
    &&& row.columns == table.columns@.len()
    &&& row.primary_key@ == joined(row_view(table.primary_key), ", "@)
    &&& row.foreign_keys == table.foreign_keys@.len()
}

/// The text that shows a truth value as a mark.
pub open spec fn mark_text(set: bool) -> Seq<char> {
    if set {
        "\u{2713}"@
    } else {
        ""@
    }
}

/// `row` shows `column`.
pub open spec fn is_column_row(row: ColumnRow, column: ColumnMetadata) -> bool {
    &&& row.name@ == column.name@
    &&& row.data_type@ == column.data_type@
    &&& row.nullable@ == if column.nullable {
        "YES"@
    } else {
        "NO"@
    }
    &&& row.default_value@ == match column.default_value {
        Some(value) => value@,
        None => Seq::empty(),
    }
    &&& row.is_primary_key@ == mark_text(column.is_primary_key)
    &&& row.is_foreign_key@ == mark_text(column.is_foreign_key)
}

/// A column of a table, as `table.column`.
pub open spec fn qualified(table: Seq<char>, column: Seq<char>) -> Seq<char> {
    table.push('.') + column
}

/// `row` shows `relationship`.
pub open spec fn is_relationship_row(
    row: RelationshipRow,
    relationship: ForeignKeyRelationship,
) -> bool {
    &&& row.constraint@ == relationship.constraint_name@
    &&& row.from@ == qualified(relationship.source_table@, relationship.source_column@)
    &&& row.to@ == qualified(relationship.target_table@, relationship.target_column@)
}

/// The row that shows a table.
pub fn table_row(table: &TableMetadata) -> (row: TableRow)
    ensures
        is_table_row(row, *table),
{
    let mut key: Vec<char> = Vec::new();
    push_joined(&mut key, &table.primary_key, ", ");
    TableRow {
        name: table.name.clone(),
        columns: table.columns.len(),
        primary_key: string_from_chars(&key),
        foreign_keys: table.foreign_keys.len(),
    }
}

/// The rows that show the tables, in order.
pub fn table_rows(tables: &Vec<&TableMetadata>) -> (rows: Vec<TableRow>)
    ensures
        rows@.len() == tables@.len(),
        forall|i: int| 0 <= i < rows@.len() ==> is_table_row(#[trigger] rows@[i], *tables@[i]),
{
    let mut rows: Vec<TableRow> = Vec::new();
    let mut i: usize = 0;
    while i < tables.len()
        invariant
            i <= tables.len(),
            rows@.len() == i,
            forall|j: int| 0 <= j < i ==> is_table_row(#[trigger] rows@[j], *tables@[j]),
        decreases tables.len() - i,
    {
        rows.push(table_row(tables[i]));
        i += 1;
    }
    rows
}

fn mark(set: bool) -> (text: String)
    ensures
        text@ == mark_text(set),
{
    if set {
        "\u{2713}".to_owned()
    } else {
        "".to_owned()
    }
}

/// The row that shows a column.
pub fn column_row(column: &ColumnMetadata) -> (row: ColumnRow)
    ensures
        is_column_row(row, *column),
{
    let default_value = match &column.default_value {
        Some(value) => value.clone(),
        None => String::new(),
    };
    ColumnRow {
        name: column.name.clone(),
        data_type: column.data_type.clone(),
        nullable: if column.nullable {
            "YES".to_owned()
        } else {
            "NO".to_owned()
        },
        default_value,
        is_primary_key: mark(column.is_primary_key),
        is_foreign_key: mark(column.is_foreign_key),
    }
}

/// The rows that show the columns, in order.
pub fn column_rows(columns: &Vec<ColumnMetadata>) -> (rows: Vec<ColumnRow>)
    ensures
        rows@.len() == columns@.len(),
        forall|i: int| 0 <= i < rows@.len() ==> is_column_row(#[trigger] rows@[i], columns@[i]),
{
    let mut rows: Vec<ColumnRow> = Vec::new();
    let mut i: usize = 0;
    while i < columns.len()
        invariant
            i <= columns.len(),
            rows@.len() == i,
            forall|j: int| 0 <= j < i ==> is_column_row(#[trigger] rows@[j], columns@[j]),
        decreases columns.len() - i,
    {
        rows.push(column_row(&columns[i]));
        i += 1;
    }
    rows
}

fn qualify(table: &str, column: &str) -> (text: String)
    ensures
        text@ == qualified(table@, column@),
{
    let mut chars = chars_of(table);
    chars.push('.');
    push_str_chars(&mut chars, column);
    string_from_chars(&chars)
}

/// The row that shows a foreign key.
pub fn relationship_row(relationship: &ForeignKeyRelationship) -> (row: RelationshipRow)
    ensures
        is_relationship_row(row, *relationship),
{
    RelationshipRow {
        constraint: relationship.constraint_name.clone(),
        from: qualify(relationship.source_table.as_str(), relationship.source_column.as_str()),
        to: qualify(relationship.target_table.as_str(), relationship.target_column.as_str()),
    }
}

/// The rows that show the foreign keys, in order.
pub fn relationship_rows(relationships: &Vec<ForeignKeyRelationship>) -> (rows: Vec<
    RelationshipRow,
>)
    ensures
        rows@.len() == relationships@.len(),
        forall|i: int|
            0 <= i < rows@.len() ==> is_relationship_row(#[trigger] rows@[i], relationships@[i]),
{
    let mut rows: Vec<RelationshipRow> = Vec::new();
    let mut i: usize = 0;
    while i < relationships.len()
        invariant
            i <= relationships.len(),
            rows@.len() == i,
            forall|j: int|
                0 <= j < i ==> is_relationship_row(#[trigger] rows@[j], relationships@[j]),
        decreases relationships.len() - i,
    {
        rows.push(relationship_row(&relationships[i]));
        i += 1;
    }
    rows
}

/// The list of tables as a JSON record.
#[derive(Clone, Debug)]
pub struct SchemaTablesJson {
    pub tables: Vec<TableJson>,
}

/// A table in the list of tables.
#[derive(Clone, Debug)]
pub struct TableJson {
    pub name: String,
    pub columns: usize,
    pub primary_key: Vec<String>,
    pub foreign_keys: usize,
}

/// A table with its columns as a JSON record.
#[derive(Clone, Debug)]
pub struct TableDetailsJson {
    pub name: String,
    pub columns: Vec<ColumnJson>,
}

/// A column of a table's details.
#[derive(Clone, Debug)]
pub struct ColumnJson {
    pub name: String,
    pub data_type: String,
    pub nullable: bool,
    pub default_value: Option<String>,
    pub is_primary_key: bool,
    pub is_foreign_key: bool,
}

/// The saved queries as a JSON record.
#[derive(Clone, Debug)]
pub struct SavedQueriesJson {
    pub queries: Vec<SavedQueryJson>,
}

/// A saved query in the list of saved queries. A field that is `None` is
/// left out of the JSON text.
#[derive(Clone, Debug)]
pub struct SavedQueryJson {
    pub name: String,
    pub description: Option<String>,
    pub params: Vec<String>,
    pub sql: Option<String>,
}

/// `record` shows `table`.
pub open spec fn is_table_json(record: TableJson, table: TableMetadata) -> bool {
    &&& record.name@ == table.name@
    &&& record.columns == table.columns@.len()
    &&& row_view(record.primary_key) == row_view(table.primary_key)
    &&& record.foreign_keys == table.foreign_keys@.len()
}

/// `record` shows `column`.
pub open spec fn is_column_json(record: ColumnJson, column: ColumnMetadata) -> bool {
    &&& record.name@ == column.name@
    &&& record.data_type@ == column.data_type@
    &&& record.nullable == column.nullable
    &&& crate::text::text_view(record.default_value) == crate::text::text_view(
        column.default_value,
    )
    &&& record.is_primary_key == column.is_primary_key
    &&& record.is_foreign_key == column.is_foreign_key
}

/// `record` shows the query `query` under `name`, with its SQL where
/// `verbose` asks for it.
pub open spec fn is_saved_query_json(
    record: SavedQueryJson,
    name: Seq<char>,
    query: SavedQuery,
    verbose: bool,
) -> bool {
    &&& record.name@ == name
    &&& crate::text::text_view(record.description) == crate::text::text_view(query.description)
    &&& row_view(record.params) == row_view(query.params)
    &&& crate::text::text_view(record.sql) == if verbose {
        Some(query.sql@)
    } else {
        None
    }
}

fn copy_text(text: &Option<String>) -> (copy: Option<String>)
    ensures
        crate::text::text_view(copy) == crate::text::text_view(*text),
{
    match text {
        Some(value) => Some(value.clone()),
        None => None,
    }
}

/// The record of the list of tables.
pub fn tables_json(tables: &Vec<&TableMetadata>) -> (record: SchemaTablesJson)
    ensures
        record.tables@.len() == tables@.len(),
        forall|i: int|
            0 <= i < tables@.len() ==> is_table_json(#[trigger] record.tables@[i], *tables@[i]),
{
    let mut records: Vec<TableJson> = Vec::new();
    let mut i: usize = 0;
    while i < tables.len()
        invariant
            i <= tables.len(),
            records@.len() == i,
            forall|j: int| 0 <= j < i ==> is_table_json(#[trigger] records@[j], *tables@[j]),
        decreases tables.len() - i,
    {
        let table = tables[i];
        records.push(
            TableJson {
                name: table.name.clone(),
                columns: table.columns.len(),
                primary_key: copy_strings(&table.primary_key),
                foreign_keys: table.foreign_keys.len(),
            },
        );
        i += 1;
    }
    SchemaTablesJson { tables: records }
}

/// The record of a table's details.
pub fn table_details_json(table: &TableMetadata) -> (record: TableDetailsJson)
    ensures
        record.name@ == table.name@,
        record.columns@.len() == table.columns@.len(),
        forall|i: int|
            0 <= i < table.columns@.len() ==> is_column_json(
                #[trigger] record.columns@[i],
                table.columns@[i],
            ),
{
    let mut records: Vec<ColumnJson> = Vec::new();
    let mut i: usize = 0;
    while i < table.columns.len()
        invariant
            i <= table.columns.len(),
            records@.len() == i,
            forall|j: int|
                0 <= j < i ==> is_column_json(#[trigger] records@[j], table.columns@[j]),
        decreases table.columns.len() - i,
    {
        let column = &table.columns[i];
        records.push(
            ColumnJson {
                name: column.name.clone(),
                data_type: column.data_type.clone(),
                nullable: column.nullable,
                default_value: copy_text(&column.default_value),
                is_primary_key: column.is_primary_key,
                is_foreign_key: column.is_foreign_key,
            },
        );
        i += 1;
    }
    TableDetailsJson { name: table.name.clone(), columns: records }
}

/// The names of the records.
pub open spec fn record_names(records: Seq<SavedQueryJson>) -> Seq<Seq<char>> {
    records.map_values(|record: SavedQueryJson| record.name@)
}

/// The record of the saved queries: one entry for every query, in the
/// order of their names.
pub fn saved_queries_json(queries: &NameMap<SavedQuery>, verbose: bool) -> (record:
    SavedQueriesJson)
    ensures
        record.queries@.len() == queries@.len(),
        strictly_sorted(record_names(record.queries@)),
        forall|i: int|
            0 <= i < record.queries@.len() ==> {
                &&& crate::name_map::value_of(queries@, (#[trigger] record.queries@[i]).name@)
                    matches Some(query)
                &&& is_saved_query_json(
                    record.queries@[i],
                    record.queries@[i].name@,
                    query,
                    verbose,
                )
            },
{
    let n: usize = queries.len();
    let mut names: Vec<Vec<char>> = Vec::new();
    let mut i: usize = 0;
    assert(texts_of(names@) =~= Seq::<Seq<char>>::empty());
    while i < n
        invariant
            i <= n,
            n == queries@.len(),
            crate::name_map::distinct_names(queries@),
            names@.len() == i,
            strictly_sorted(texts_of(names@)),
            forall|text: Seq<char>|
                texts_of(names@).contains(text) <==> exists|j: int|
                    0 <= j < i && (#[trigger] queries@[j]).0 == text,
        decreases n - i,
    {
        let ghost before = texts_of(names@);
        let name = chars_of(queries.name_at(i).as_str());
        proof {
            if before.contains(name@) {
                let j = choose|j: int| 0 <= j < i && (#[trigger] queries@[j]).0 == name@;
                assert(queries@[j].0 != queries@[i as int].0);
            }
        }
        insert_sorted(&mut names, name);
        i += 1;
        proof {
            assert forall|text: Seq<char>| texts_of(names@).contains(text) <==> exists|j: int|
                0 <= j < i && (#[trigger] queries@[j]).0 == text by {
                if texts_of(names@).contains(text) {
                    if before.contains(text) {
                        let j = choose|j: int| 0 <= j < i - 1 && (#[trigger] queries@[j]).0 == text;
                        assert(0 <= j < i && queries@[j].0 == text);
                    } else {
                        assert(queries@[i - 1].0 == text);
                    }
                }
                if exists|j: int| 0 <= j < i && (#[trigger] queries@[j]).0 == text {
                    let j = choose|j: int| 0 <= j < i && (#[trigger] queries@[j]).0 == text;
                    if j < i - 1 {
                        assert(before.contains(text));
                    }
                }
            }
        }
    }
    let mut records: Vec<SavedQueryJson> = Vec::new();
    let mut k: usize = 0;
    assert(record_names(records@) =~= texts_of(names@).take(0));
    while k < n
        invariant
            k <= n,
            n == queries@.len(),
            names@.len() == n,
            records@.len() == k,
            record_names(records@) == texts_of(names@).take(k as int),
            forall|text: Seq<char>|
                texts_of(names@).contains(text) <==> exists|j: int|
                    0 <= j < n && (#[trigger] queries@[j]).0 == text,
            forall|m: int|
                0 <= m < k ==> {
                    &&& crate::name_map::value_of(queries@, (#[trigger] records@[m]).name@)
                        matches Some(query)
                    &&& is_saved_query_json(records@[m], records@[m].name@, query, verbose)
                },
        decreases n - k,
    {
        let name = string_from_chars(&names[k]);
        let ghost earlier = records@;
        proof {
            assert(texts_of(names@)[k as int] == name@);
            assert(texts_of(names@).contains(name@));
            let j = choose|j: int| 0 <= j < n && (#[trigger] queries@[j]).0 == name@;
            crate::name_map::lemma_position_of(queries@, name@);
            if !crate::name_map::has_name(queries@, name@) {
                assert(queries@[j].0 != name@);
            }
        }
        match queries.get(name.as_str()) {
            Some(query) => {
                let sql = if verbose {
                    Some(query.sql.clone())
                } else {
                    None
                };
                records.push(
                    SavedQueryJson {
                        name,
                        description: copy_text(&query.description),
                        params: copy_strings(&query.params),
                        sql,
                    },
                );
            },
            None => {
                assert(false);
            },
        }
        k += 1;
        proof {
            assert forall|m: int| 0 <= m < k implies record_names(records@)[m] == texts_of(
                names@,
            ).take(k as int)[m] by {
                if m < k - 1 {
                    assert(records@[m] == earlier[m]);
                    assert(record_names(earlier)[m] == texts_of(names@).take(k - 1)[m]);
                }
            }
            assert(record_names(records@) =~= texts_of(names@).take(k as int));
        }
    }
    assert(texts_of(names@).take(n as int) =~= texts_of(names@));
    SavedQueriesJson { queries: records }
}

/// The line of a saved query's description, where it has one.
pub open spec fn description_line(query: SavedQuery) -> Seq<char> {
    match query.description {
        Some(description) => "    "@ + description@ + "\n"@,
        None => Seq::empty(),
    }
}

/// The line of a saved query's parameters, where it takes any.
pub open spec fn params_line(query: SavedQuery) -> Seq<char> {
    if query.params@.len() > 0 {
        "    Parameters: "@ + joined(row_view(query.params), ", "@) + "\n"@
    } else {
        Seq::empty()
    }
}

/// The line that shows the first line of a saved query's SQL, where it is
/// asked for.
pub open spec fn sql_line(query: SavedQuery, verbose: bool) -> Seq<char> {
    if verbose {
        "    SQL: "@ + first_line(query.sql@) + "...\n"@
    } else {
        Seq::empty()
    }
}

/// One saved query in the plain list: its name, then its description, its
/// parameters and the first line of its SQL as far as they are there and
/// asked for, then an empty line.
pub open spec fn saved_query_text(name: Seq<char>, query: SavedQuery, verbose: bool) -> Seq<char> {
    "  "@ + name + "\n"@ + description_line(query) + params_line(query) + sql_line(
        query,
        verbose,
    ) + "\n"@
}

/// The saved queries in the plain list, one after the other.
pub open spec fn saved_queries_lines(
    queries: Seq<(Seq<char>, SavedQuery)>,
    verbose: bool,
) -> Seq<char>
    decreases queries.len(),
{
    if queries.len() == 0 {
        Seq::empty()
    } else {
        saved_queries_lines(queries.drop_last(), verbose) + saved_query_text(
            queries.last().0,
            queries.last().1,
            verbose,
        )
    }
}

fn push_description_line(out: &mut Vec<char>, query: &SavedQuery)
    ensures
        final(out)@ == old(out)@ + description_line(*query),
{
    let ghost before = out@;
    match &query.description {
        Some(description) => {
            push_str_chars(out, "    ");
            push_str_chars(out, description.as_str());
            push_str_chars(out, "\n");
        },
        None => {},
    }
    assert(out@ =~= before + description_line(*query));
}

fn push_params_line(out: &mut Vec<char>, query: &SavedQuery)
    ensures
        final(out)@ == old(out)@ + params_line(*query),
{
    let ghost before = out@;
    if query.params.len() > 0 {
        push_str_chars(out, "    Parameters: ");
        push_joined(out, &query.params, ", ");
        push_str_chars(out, "\n");
    }
    assert(out@ =~= before + params_line(*query));
}

fn push_sql_line(out: &mut Vec<char>, query: &SavedQuery, verbose: bool)
    ensures
        final(out)@ == old(out)@ + sql_line(*query, verbose),
{
    let ghost before = out@;
    if verbose {
        push_str_chars(out, "    SQL: ");
        push_chars(out, &first_line_of(query.sql.as_str()));
        push_str_chars(out, "...\n");
    }
    assert(out@ =~= before + sql_line(*query, verbose));
}

fn push_saved_query(out: &mut Vec<char>, name: &str, query: &SavedQuery, verbose: bool)
    ensures
        final(out)@ == old(out)@ + saved_query_text(name@, *query, verbose),
{
    let ghost before = out@;
    push_str_chars(out, "  ");
    push_str_chars(out, name);
    push_str_chars(out, "\n");
    let ghost named = out@;
    assert(named =~= before + ("  "@ + name@ + "\n"@));
    push_description_line(out, query);
    push_params_line(out, query);
    push_sql_line(out, query, verbose);
    push_str_chars(out, "\n");
    assert(out@ =~= before + saved_query_text(name@, *query, verbose));
}

/// The saved queries as a plain list under its heading.
pub fn format_saved_queries(queries: &NameMap<SavedQuery>, verbose: bool) -> (text: String)
    ensures
        text@ == "Saved Queries:\n\n"@ + saved_queries_lines(queries@, verbose),
{
    let mut out: Vec<char> = Vec::new();
    push_str_chars(&mut out, "Saved Queries:\n\n");
    let ghost head = out@;
    let n: usize = queries.len();
    let mut i: usize = 0;
    assert(out@ =~= head + saved_queries_lines(queries@.take(0), verbose));
    while i < n
        invariant
            i <= n,
            n == queries@.len(),
            out@ == head + saved_queries_lines(queries@.take(i as int), verbose),
        decreases n - i,
    {
        let ghost before = out@;
        push_saved_query(&mut out, queries.name_at(i).as_str(), queries.value_at(i), verbose);
        i += 1;
        proof {
            assert(queries@.take(i as int).drop_last() =~= queries@.take(i - 1));
            assert(queries@.take(i as int).last() == queries@[i - 1]);
            assert(out@ =~= head + saved_queries_lines(queries@.take(i as int), verbose));
        }
    }
    assert(queries@.take(n as int) =~= queries@);
    string_from_chars(&out)
}

} // verus!
