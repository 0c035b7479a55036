//! How the schema of a database is put together from what its catalogue
//! says of columns and foreign keys.

use vstd::prelude::*;

use crate::cache::{
    ColumnMetadata, ColumnMetadataView, ForeignKeyRelationship, ForeignKeyView, SchemaCache,
    TableMetadata, TableMetadataView, Timestamp,
};
use crate::config::DatabaseProfile;
use crate::db::DatabaseKind;
use crate::name_map::{
    lemma_mapped_position, lemma_mapped_with_entry, lemma_position_of, mapped, value_of,
    with_entry, NameMap,
};
use crate::text::str_equal;

verus! {

/// What the catalogue says of one column.
#[derive(Clone, Debug)]
pub struct ColumnRecord {
    pub table_name: String,
    pub column_name: String,
    pub data_type: String,
    pub is_nullable: String,
    pub column_default: Option<String>,
    pub is_primary_key: bool,
}

/// A `ColumnRecord` with its texts as sequences of characters.
pub ghost struct ColumnRecordView {
    pub table_name: Seq<char>,
    pub column_name: Seq<char>,
    pub data_type: Seq<char>,
    pub is_nullable: Seq<char>,
    pub column_default: Option<Seq<char>>,
    pub is_primary_key: bool,
}

impl View for ColumnRecord {
    type V = ColumnRecordView;

    open spec fn view(&self) -> ColumnRecordView {
        ColumnRecordView {
            table_name: self.table_name@,
            column_name: self.column_name@,
            data_type: self.data_type@,
            is_nullable: self.is_nullable@,
            column_default: crate::text::text_view(self.column_default),
            is_primary_key: self.is_primary_key,
        }
    }
}

/// The tables of a schema by name.
pub type TablesView = Seq<(Seq<char>, TableMetadataView)>;

/// The column that a record describes. It is no foreign key until a
/// foreign key names it.
pub open spec fn column_of(record: ColumnRecordView) -> ColumnMetadataView {
    ColumnMetadataView {
        name: record.column_name,
        data_type: record.data_type,
        nullable: record.is_nullable == "YES"@,
        default_value: record.column_default,
        is_primary_key: record.is_primary_key,
        is_foreign_key: false,
    }
}

/// A table without columns.
pub open spec fn empty_table(name: Seq<char>) -> TableMetadataView {
    TableMetadataView {
        name,
        columns: Seq::empty(),
        primary_key: Seq::empty(),
        foreign_keys: Seq::empty(),
        referenced_by: Seq::empty(),
    }
}

/// `table` with the column of `record` at its end, and with the column in
/// its primary key where the record says so.
pub open spec fn table_with_column(
    table: TableMetadataView,
    record: ColumnRecordView,
) -> TableMetadataView {
    TableMetadataView {
        columns: table.columns.push(column_of(record)),
        primary_key: if record.is_primary_key {
            table.primary_key.push(record.column_name)
        } else {
            table.primary_key
        },
        ..table
    }
}

/// The tables with the column of `record` in its table, which is new where
/// no column of it came before.
pub open spec fn with_column(tables: TablesView, record: ColumnRecordView) -> TablesView {
    let table = match value_of(tables, record.table_name) {
        Some(table) => table,
        None => empty_table(record.table_name),
    };
    with_entry(tables, record.table_name, table_with_column(table, record))
}

/// The tables with the columns of `records`, in order.
pub open spec fn with_columns(tables: TablesView, records: Seq<ColumnRecordView>) -> TablesView
    decreases records.len(),
{
    if records.len() == 0 {
        tables
    } else {
        with_columns(with_column(tables, records[0]), records.drop_first())
    }
}

/// `column`, marked as a foreign key where `key` names it as its source.
pub open spec fn column_marked(
    column: ColumnMetadataView,
    key: ForeignKeyView,
) -> ColumnMetadataView {
    if column.name == key.source_column {
        ColumnMetadataView { is_foreign_key: true, ..column }
    } else {
        column
    }
}

/// `table` with `key` among its foreign keys and the source column marked.
pub open spec fn table_with_foreign_key(
    table: TableMetadataView,
    key: ForeignKeyView,
) -> TableMetadataView {
    TableMetadataView {
        foreign_keys: table.foreign_keys.push(key),
        columns: table.columns.map_values(|column: ColumnMetadataView| column_marked(column, key)),
        ..table
    }
}

/// The tables with `key` in its source table. A key whose source table is
/// not among the tables is left out.
pub open spec fn with_foreign_key(tables: TablesView, key: ForeignKeyView) -> TablesView {
    match value_of(tables, key.source_table) {
        Some(table) => with_entry(tables, key.source_table, table_with_foreign_key(table, key)),
        None => tables,
    }
}

/// The tables with the foreign keys of `keys`, in order.
pub open spec fn with_foreign_keys(tables: TablesView, keys: Seq<ForeignKeyView>) -> TablesView
    decreases keys.len(),
{
    if keys.len() == 0 {
        tables
    } else {
        with_foreign_keys(with_foreign_key(tables, keys[0]), keys.drop_first())
    }
}

/// The tables that the catalogue describes.
pub open spec fn assembled(
    columns: Seq<ColumnRecordView>,
    keys: Seq<ForeignKeyView>,
) -> TablesView {
    with_foreign_keys(with_columns(Seq::empty(), columns), keys)
}

/// The tables of a map with their texts as sequences of characters.
pub open spec fn tables_model(tables: Seq<(Seq<char>, TableMetadata)>) -> TablesView {
    mapped(tables, |table: TableMetadata| table@)
}

/// The records with their texts as sequences of characters.
pub open spec fn records_view(records: Seq<ColumnRecord>) -> Seq<ColumnRecordView> {
    records.map_values(|record: ColumnRecord| record@)
}

/// The foreign keys with their texts as sequences of characters.
pub open spec fn keys_view(keys: Seq<ForeignKeyRelationship>) -> Seq<ForeignKeyView> {
    keys.map_values(|key: ForeignKeyRelationship| key@)
}

fn blank_table() -> (table: TableMetadata)
    ensures
        table@ == empty_table(Seq::empty()),
{
    let table = TableMetadata {
        name: String::new(),
        columns: Vec::new(),
        primary_key: Vec::new(),
        foreign_keys: Vec::new(),
        referenced_by: Vec::new(),
    };
    assert(table@.columns =~= Seq::empty());
    assert(table@.primary_key =~= Seq::empty());
    assert(table@.foreign_keys =~= Seq::empty());
    assert(table@.referenced_by =~= Seq::empty());
    table
}

fn add_column_to(table: &mut TableMetadata, record: ColumnRecord)
    ensures
        final(table)@ == table_with_column(old(table)@, record@),
{
    let ghost before = table@;
    let nullable = str_equal(record.is_nullable.as_str(), "YES");
    if record.is_primary_key {
        table.primary_key.push(record.column_name.clone());
    }
    let column = ColumnMetadata {
        name: record.column_name,
        data_type: record.data_type,
        nullable,
        default_value: record.column_default,
        is_primary_key: record.is_primary_key,
        is_foreign_key: false,
    };
    assert(column@ == column_of(record@));
    table.columns.push(column);
    proof {
        let after = table@;
        let expected = table_with_column(before, record@);
        assert(after.columns =~= expected.columns);
        assert(after.primary_key =~= expected.primary_key);
        assert(after.foreign_keys =~= expected.foreign_keys);
        assert(after.referenced_by =~= expected.referenced_by);
    }
}

/// Puts the column of `record` into its table.
pub fn add_column(tables: &mut NameMap<TableMetadata>, record: ColumnRecord)
    ensures
        tables_model(final(tables)@) == with_column(tables_model(old(tables)@), record@),
{
    let ghost before = tables@;
    let ghost view = |table: TableMetadata| table@;
    proof {
        lemma_mapped_position(before, view, record.table_name@);
        lemma_position_of(before, record.table_name@);
    }
    let position = tables.position(record.table_name.as_str());
    if position < tables.len() {
        let mut table = tables.replace_at(position, blank_table());
        add_column_to(&mut table, record);
        let ghost placed = tables@;
        tables.replace_at(position, table);
        proof {
            let name = before[position as int].0;
            assert(tables@ =~= before.update(position as int, (name, table)));
            assert(tables@ =~= with_entry(before, name, table));
            lemma_mapped_with_entry(before, view, name, table);
        }
    } else {
        let name = record.table_name.clone();
        let mut table = blank_table();
        table.name = record.table_name.clone();
        assert(table@ =~= empty_table(name@)) by {
            assert(table@.columns =~= Seq::empty());
            assert(table@.primary_key =~= Seq::empty());
            assert(table@.foreign_keys =~= Seq::empty());
            assert(table@.referenced_by =~= Seq::empty());
        }
        add_column_to(&mut table, record);
        proof {
            lemma_mapped_with_entry(before, view, name@, table);
        }
        tables.insert(name, table);
    }
}

fn copy_key(key: &ForeignKeyRelationship) -> (copy: ForeignKeyRelationship)
    ensures
        copy@ == key@,
{
    ForeignKeyRelationship {
        constraint_name: key.constraint_name.clone(),
        source_table: key.source_table.clone(),
        source_column: key.source_column.clone(),
        target_table: key.target_table.clone(),
        target_column: key.target_column.clone(),
    }
}

fn add_foreign_key_to(table: &mut TableMetadata, key: &ForeignKeyRelationship)
    ensures
        final(table)@ == table_with_foreign_key(old(table)@, key@),
{
    let ghost before = table@;
    table.foreign_keys.push(copy_key(key));
    let mut columns: Vec<ColumnMetadata> = Vec::new();
    core::mem::swap(&mut table.columns, &mut columns);
    let ghost unmarked = columns@.map_values(|column: ColumnMetadata| column@);
    assert(unmarked == before.columns);
    assert(table.columns@.map_values(|column: ColumnMetadata| column@) =~= unmarked.take(
        0,
    ).map_values(|column: ColumnMetadataView| column_marked(column, key@)));
    for column in it: columns
        invariant
            it.seq() == columns@,
            unmarked == columns@.map_values(|column: ColumnMetadata| column@),
            table.columns@.map_values(|column: ColumnMetadata| column@) == unmarked.take(
                it.index() as int,
            ).map_values(|column: ColumnMetadataView| column_marked(column, key@)),
            table.name == old(table).name,
            table.primary_key == old(table).primary_key,
            table.referenced_by == old(table).referenced_by,
            table.foreign_keys@.map_values(|key: ForeignKeyRelationship| key@)
                == before.foreign_keys.push(key@),
    {
        let ghost done = table.columns@.map_values(|column: ColumnMetadata| column@);
        let mut marked = column;
        if str_equal(marked.name.as_str(), key.source_column.as_str()) {
            marked.is_foreign_key = true;
        }
        assert(marked@ == column_marked(column@, key@));
        table.columns.push(marked);
        proof {
            let k = it.index() as int;
            assert(unmarked[k] == column@);
            let now = table.columns@.map_values(|column: ColumnMetadata| column@);
            let goal = unmarked.take(k + 1).map_values(
                |column: ColumnMetadataView| column_marked(column, key@),
            );
            assert(now =~= done.push(marked@));
            assert(now.len() == goal.len());
            assert forall|j: int| 0 <= j < now.len() implies now[j] == goal[j] by {
                if j < k {
                    assert(now[j] == done[j]);
                    assert(unmarked.take(k)[j] == unmarked.take(k + 1)[j]);
                }
            }
            assert(now =~= goal);
        }
    }
    proof {
        assert(unmarked.take(unmarked.len() as int) =~= unmarked);
        let after = table@;
        let expected = table_with_foreign_key(before, key@);
        assert(after.columns =~= expected.columns);
        assert(after.foreign_keys =~= expected.foreign_keys);
    }
}

/// Puts a foreign key into its source table, where that table is known.
pub fn add_foreign_key(tables: &mut NameMap<TableMetadata>, key: &ForeignKeyRelationship)
    ensures
        tables_model(final(tables)@) == with_foreign_key(tables_model(old(tables)@), key@),
{
    let ghost before = tables@;
    let ghost view = |table: TableMetadata| table@;
    proof {
        lemma_mapped_position(before, view, key.source_table@);
        lemma_position_of(before, key.source_table@);
    }
    let position = tables.position(key.source_table.as_str());
    if position < tables.len() {
        let mut table = tables.replace_at(position, blank_table());
        add_foreign_key_to(&mut table, key);
        tables.replace_at(position, table);
        proof {
            let name = before[position as int].0;
            assert(tables@ =~= before.update(position as int, (name, table)));
            assert(tables@ =~= with_entry(before, name, table));
            lemma_mapped_with_entry(before, view, name, table);
        }
    }
}

/// The tables that the catalogue describes: every column in its table, in
/// the order of the records, and every foreign key in its source table.
pub fn assemble_tables(
    columns: Vec<ColumnRecord>,
    foreign_keys: &Vec<ForeignKeyRelationship>,
) -> (tables: NameMap<TableMetadata>)
    ensures
        tables_model(tables@) == assembled(records_view(columns@), keys_view(foreign_keys@)),
{
    let ghost records = records_view(columns@);
    let ghost keys = keys_view(foreign_keys@);
    let mut tables: NameMap<TableMetadata> = NameMap::new();
    assert(tables_model(tables@) =~= Seq::<(Seq<char>, TableMetadataView)>::empty());
    assert(records.skip(0) =~= records);
    for record in it: columns
        invariant
            it.seq() == columns@,
            records == records_view(columns@),
            with_columns(Seq::empty(), records) == with_columns(
                tables_model(tables@),
                records.skip(it.index() as int),
            ),
    {
        proof {
            let k = it.index() as int;
            assert(records.skip(k)[0] == record@);
            assert(records.skip(k).drop_first() =~= records.skip(k + 1));
        }
        add_column(&mut tables, record);
    }
    assert(records.skip(records.len() as int).len() == 0);
    let mut i: usize = 0;
    assert(keys.skip(0) =~= keys);
    while i < foreign_keys.len()
        invariant
            i <= foreign_keys.len(),
            keys == keys_view(foreign_keys@),
            assembled(records, keys) == with_foreign_keys(
                tables_model(tables@),
                keys.skip(i as int),
            ),
        decreases foreign_keys.len() - i,
    {
        proof {
            assert(keys.skip(i as int)[0] == foreign_keys@[i as int]@);
            assert(keys.skip(i as int).drop_first() =~= keys.skip(i + 1));
        }
        add_foreign_key(&mut tables, &foreign_keys[i]);
        i += 1;
    }
    tables
}

/// The cache of a schema read at `cached_at`: it goes by the name of the
/// profile's database and the type of the kind.
pub fn build_schema_cache(
    kind: DatabaseKind,
    profile: &DatabaseProfile,
    cached_at: Timestamp,
    columns: Vec<ColumnRecord>,
    foreign_keys: &Vec<ForeignKeyRelationship>,
) -> (cache: SchemaCache)
    ensures
        cache.cached_at == cached_at,
        cache.profile_name@ == profile.database@,
        cache.database_type@ == kind.type_text(),
        tables_model(cache.tables@) == assembled(
            records_view(columns@),
            keys_view(foreign_keys@),
        ),
{
    SchemaCache {
        cached_at,
        profile_name: profile.database.clone(),
        database_type: kind.db_type().to_owned(),
        tables: assemble_tables(columns, foreign_keys),
    }
}

} // verus!
