//! The cached schema of a database: its tables by name, and how tables are
//! found and suggested.

use vstd::prelude::*;

use crate::config::{join_path, joined_path};
use crate::name_map::{value_of, NameMap};
use crate::text::{chars_of, contains_text, lowercase_text, text_contains, to_lowercase};

verus! {

/// One column of a table.
#[derive(Clone, Debug)]
pub struct ColumnMetadata {
    pub name: String,
    pub data_type: String,
    pub nullable: bool,
    pub default_value: Option<String>,
    pub is_primary_key: bool,
    pub is_foreign_key: bool,
}

/// A foreign key: the column that refers, and the column referred to.
#[derive(Clone, Debug)]
pub struct ForeignKeyRelationship {
    pub constraint_name: String,
    pub source_table: String,
    pub source_column: String,
    pub target_table: String,
    pub target_column: String,
}

/// One table with its columns and keys.
#[derive(Clone, Debug)]
pub struct TableMetadata {
    pub name: String,
    pub columns: Vec<ColumnMetadata>,
    pub primary_key: Vec<String>,
    pub foreign_keys: Vec<ForeignKeyRelationship>,
    pub referenced_by: Vec<ForeignKeyRelationship>,
}

/// A `ColumnMetadata` with its texts as sequences of characters.
pub ghost struct ColumnMetadataView {
    pub name: Seq<char>,
    pub data_type: Seq<char>,
    pub nullable: bool,
    pub default_value: Option<Seq<char>>,
    pub is_primary_key: bool,
    pub is_foreign_key: bool,
}

impl View for ColumnMetadata {
    type V = ColumnMetadataView;

    open spec fn view(&self) -> ColumnMetadataView {
        ColumnMetadataView {
            name: self.name@,
            data_type: self.data_type@,
            nullable: self.nullable,
            default_value: crate::text::text_view(self.default_value),
            is_primary_key: self.is_primary_key,
            is_foreign_key: self.is_foreign_key,
        }
    }
}

/// A `ForeignKeyRelationship` with its texts as sequences of characters.
pub ghost struct ForeignKeyView {
    pub constraint_name: Seq<char>,
    pub source_table: Seq<char>,
    pub source_column: Seq<char>,
    pub target_table: Seq<char>,
    pub target_column: Seq<char>,
}

impl View for ForeignKeyRelationship {
    type V = ForeignKeyView;

    open spec fn view(&self) -> ForeignKeyView {
        ForeignKeyView {
            constraint_name: self.constraint_name@,
            source_table: self.source_table@,
            source_column: self.source_column@,
            target_table: self.target_table@,
            target_column: self.target_column@,
        }
    }
}

/// A `TableMetadata` with its texts as sequences of characters.
pub ghost struct TableMetadataView {
    pub name: Seq<char>,
    pub columns: Seq<ColumnMetadataView>,
    pub primary_key: Seq<Seq<char>>,
    pub foreign_keys: Seq<ForeignKeyView>,
    pub referenced_by: Seq<ForeignKeyView>,
}

impl View for TableMetadata {
    type V = TableMetadataView;

    open spec fn view(&self) -> TableMetadataView {
        TableMetadataView {
            name: self.name@,
            columns: self.columns@.map_values(|column: ColumnMetadata| column@),
            primary_key: self.primary_key@.map_values(|column: String| column@),
            foreign_keys: self.foreign_keys@.map_values(|key: ForeignKeyRelationship| key@),
            referenced_by: self.referenced_by@.map_values(|key: ForeignKeyRelationship| key@),
        }
    }
}

/// A point in time: seconds since the start of 1970 in UTC, and the
/// nanoseconds into that second.
#[derive(Clone, Copy, Debug, PartialEq, Eq, Structural)]
pub struct Timestamp {
    pub seconds: i64,
    pub nanoseconds: u32,
}

/// The schema of one database as it was when it was read.
pub struct SchemaCache {
    pub cached_at: Timestamp,
    pub profile_name: String,
    pub database_type: String,
    pub tables: NameMap<TableMetadata>,
}

/// The greatest distance at which a table is suggested.
pub const MAX_SUGGESTION_DISTANCE: usize = 3;

/// The greatest number of tables that are suggested.
pub const MAX_SUGGESTIONS: usize = 3;

/// The least of three numbers.
pub open spec fn least(x: nat, y: nat, z: nat) -> nat {
    if x <= y && x <= z {
        x
    } else if y <= z {
        y
    } else {
        z
    }
}

/// The Levenshtein distance of two texts: the least number of characters
/// to insert, delete or replace so that one text becomes the other.
pub open spec fn levenshtein_distance(a: Seq<char>, b: Seq<char>) -> nat
    decreases a.len() + b.len(),
{
    if a.len() == 0 {
        b.len()
    } else if b.len() == 0 {
        a.len()
    } else if a.last() == b.last() {
        levenshtein_distance(a.drop_last(), b.drop_last())
    } else {
        1 + least(
            levenshtein_distance(a.drop_last(), b),
            levenshtein_distance(a, b.drop_last()),
            levenshtein_distance(a.drop_last(), b.drop_last()),
        )
    }
}

/// A text is at distance zero from itself.
pub proof fn lemma_distance_to_itself(a: Seq<char>)
    ensures
        levenshtein_distance(a, a) == 0,
    decreases a.len(),
{
    if a.len() > 0 {
        lemma_distance_to_itself(a.drop_last());
    }
}

/// `strsim::levenshtein`: the least number of characters to insert, delete
/// or replace so that one text becomes the other, counted over the
/// characters of the two texts.
#[verifier::external_body]
fn levenshtein(a: &str, b: &str) -> (distance: usize)
    ensures
        distance == levenshtein_distance(a@, b@),
{
    strsim::levenshtein(a, b)
}

/// Whether a table's name holds `pattern`, letter case aside.
pub open spec fn name_matches(table: TableMetadata, pattern: Seq<char>) -> bool {
    contains_text(lowercase_text(table.name@), lowercase_text(pattern))
}

/// The tables of `tables` whose names hold `pattern`, in order.
pub open spec fn matching_tables(
    tables: Seq<(Seq<char>, TableMetadata)>,
    pattern: Seq<char>,
) -> Seq<TableMetadata>
    decreases tables.len(),
{
    if tables.len() == 0 {
        Seq::empty()
    } else if name_matches(tables.last().1, pattern) {
        matching_tables(tables.drop_last(), pattern).push(tables.last().1)
    } else {
        matching_tables(tables.drop_last(), pattern)
    }
}

/// The tables that references stand for.
pub open spec fn tables_view(tables: Seq<&TableMetadata>) -> Seq<TableMetadata> {
    tables.map_values(|table: &TableMetadata| *table)
}

/// The names of `tables` at distance `distance` from `name`, in order, each
/// with that distance.
pub open spec fn at_distance(
    tables: Seq<(Seq<char>, TableMetadata)>,
    name: Seq<char>,
    distance: nat,
) -> Seq<(Seq<char>, nat)>
    decreases tables.len(),
{
    if tables.len() == 0 {
        Seq::empty()
    } else if levenshtein_distance(name, tables.last().0) == distance {
        at_distance(tables.drop_last(), name, distance).push((tables.last().0, distance))
    } else {
        at_distance(tables.drop_last(), name, distance)
    }
}

/// The names of `tables` at a distance of at most `distance` from `name`,
/// the nearer before the farther, and in the order of the tables at one
/// distance.
pub open spec fn within_distance(
    tables: Seq<(Seq<char>, TableMetadata)>,
    name: Seq<char>,
    distance: nat,
) -> Seq<(Seq<char>, nat)>
    decreases distance,
{
    if distance == 0 {
        at_distance(tables, name, 0)
    } else {
        within_distance(tables, name, (distance - 1) as nat) + at_distance(tables, name, distance)
    }
}

/// The first `count` of `items`, or all of them where they are fewer.
pub open spec fn first_of<T>(items: Seq<T>, count: nat) -> Seq<T> {
    if items.len() <= count {
        items
    } else {
        items.take(count as int)
    }
}

/// The names that are suggested for `name`: the three nearest ones among
/// those at a distance of at most three.
pub open spec fn suggestions(
    tables: Seq<(Seq<char>, TableMetadata)>,
    name: Seq<char>,
) -> Seq<(Seq<char>, nat)> {
    first_of(
        within_distance(tables, name, MAX_SUGGESTION_DISTANCE as nat),
        MAX_SUGGESTIONS as nat,
    )
}

/// The names and distances of a list of suggestions.
pub open spec fn suggestions_view(found: Seq<(String, usize)>) -> Seq<(Seq<char>, nat)> {
    found.map_values(|entry: (String, usize)| (entry.0@, entry.1 as nat))
}

/// Every suggestion is at a distance of at most `distance`, and no farther
/// one stands before a nearer one.
pub proof fn lemma_within_distance_sorted(
    tables: Seq<(Seq<char>, TableMetadata)>,
    name: Seq<char>,
    distance: nat,
)
    ensures
        forall|i: int|
            0 <= i < within_distance(tables, name, distance).len() ==> (
            #[trigger] within_distance(tables, name, distance)[i]).1 <= distance,
        forall|i: int, j: int|
            0 <= i < j < within_distance(tables, name, distance).len() ==> within_distance(
                tables,
                name,
                distance,
            )[i].1 <= within_distance(tables, name, distance)[j].1,
    decreases distance,
{
    lemma_at_distance(tables, name, distance);
    let all = within_distance(tables, name, distance);
    let last = at_distance(tables, name, distance);
    if distance > 0 {
        let nearer = within_distance(tables, name, (distance - 1) as nat);
        lemma_within_distance_sorted(tables, name, (distance - 1) as nat);
        assert forall|i: int| 0 <= i < all.len() implies (#[trigger] all[i]).1 <= distance by {
            if i < nearer.len() {
                assert(all[i] == nearer[i]);
            } else {
                assert(all[i] == last[i - nearer.len()]);
            }
        }
        assert forall|i: int, j: int| 0 <= i < j < all.len() implies all[i].1 <= all[j].1 by {
            if j < nearer.len() {
                assert(all[i] == nearer[i] && all[j] == nearer[j]);
            } else {
                assert(all[j] == last[j - nearer.len()]);
                if i < nearer.len() {
                    assert(all[i] == nearer[i]);
                } else {
                    assert(all[i] == last[i - nearer.len()]);
                }
            }
        }
    }
}

proof fn lemma_at_distance(tables: Seq<(Seq<char>, TableMetadata)>, name: Seq<char>, distance: nat)
    ensures
        forall|i: int|
            0 <= i < at_distance(tables, name, distance).len() ==> (#[trigger] at_distance(
                tables,
                name,
                distance,
            )[i]).1 == distance,
    decreases tables.len(),
{
    if tables.len() > 0 {
        lemma_at_distance(tables.drop_last(), name, distance);
        let all = at_distance(tables, name, distance);
        let earlier = at_distance(tables.drop_last(), name, distance);
        assert forall|i: int| 0 <= i < all.len() implies (#[trigger] all[i]).1 == distance by {
            if i < earlier.len() {
                assert(all[i] == earlier[i]);
            }
        }
    }
}

/// Why a table was not found, with the tables that may have been meant.
#[derive(Clone, Debug)]
pub struct TableNotFound {
    pub name: String,
    pub suggestions: Vec<(String, usize)>,
}

/// Why the cache has no place.
#[derive(Clone, Copy, Debug, PartialEq, Eq, Structural)]
pub enum CacheError {
    /// The configuration directory is not known.
    NoConfigDirectory,
}

impl SchemaCache {
    /// The directory of a profile's cache below the configuration
    /// directory.
    pub open spec fn cache_dir_text(config_dir: Seq<char>, profile: Seq<char>) -> Seq<char> {
        joined_path(joined_path(joined_path(config_dir, "rds-cli"@), "cache"@), profile)
    }

    /// The directory of a profile's cache, which has to exist before the
    /// cache is written.
    pub fn cache_dir(config_dir: Option<&str>, profile: &str) -> (dir: Result<String, CacheError>)
        ensures
            match config_dir {
                Some(base) => dir matches Ok(d) && d@ == Self::cache_dir_text(base@, profile@),
                None => dir matches Err(error) && error == CacheError::NoConfigDirectory,
            },
    {
        match config_dir {
            Some(base) => {
                let program = join_path(base, "rds-cli");
                let cache = join_path(program.as_str(), "cache");
                Ok(join_path(cache.as_str(), profile))
            },
            None => Err(CacheError::NoConfigDirectory),
        }
    }

    /// The file of a profile's cache.
    pub fn cache_path(config_dir: Option<&str>, profile: &str) -> (path: Result<
        String,
        CacheError,
    >)
        ensures
            match config_dir {
                Some(base) => path matches Ok(p) && p@ == joined_path(
                    Self::cache_dir_text(base@, profile@),
                    "schema.json"@,
                ),
                None => path matches Err(error) && error == CacheError::NoConfigDirectory,
            },
    {
        match Self::cache_dir(config_dir, profile) {
            Ok(dir) => Ok(join_path(dir.as_str(), "schema.json")),
            Err(error) => Err(error),
        }
    }

    /// The tables whose names hold `pattern`, letter case aside.
    pub fn find_tables(&self, pattern: &str) -> (found: Vec<&TableMetadata>)
        ensures
            tables_view(found@) == matching_tables(self.tables@, pattern@),
    {
        let needle = chars_of(to_lowercase(pattern).as_str());
        let mut found: Vec<&TableMetadata> = Vec::new();
        let n: usize = self.tables.len();
        let mut i: usize = 0;
        assert(tables_view(found@) =~= matching_tables(self.tables@.take(0), pattern@));
        while i < n
            invariant
                i <= n,
                n == self.tables@.len(),
                needle@ == lowercase_text(pattern@),
                tables_view(found@) == matching_tables(self.tables@.take(i as int), pattern@),
            decreases n - i,
        {
            let table = self.tables.value_at(i);
            let name = chars_of(to_lowercase(table.name.as_str()).as_str());
            let ghost earlier = tables_view(found@);
            if text_contains(&name, &needle) {
                found.push(table);
                assert(tables_view(found@) =~= earlier.push(*table));
            }
            i += 1;
            proof {
                assert(self.tables@.take(i as int).drop_last() =~= self.tables@.take(i - 1));
                assert(self.tables@.take(i as int).last() == self.tables@[i - 1]);
            }
        }
        assert(self.tables@.take(n as int) =~= self.tables@);
        found
    }

    /// The table under `name`.
    pub fn get_table(&self, name: &str) -> (table: Option<&TableMetadata>)
        ensures
            table matches Some(t) ==> value_of(self.tables@, name@) == Some(*t),
            table is None ==> value_of(self.tables@, name@) is None,
    {
        self.tables.get(name)
    }

    /// The tables that may have been meant by `name`: the three nearest
    /// names at a distance of at most three, each with its distance, the
    /// nearer first.
    pub fn suggest_tables(&self, name: &str) -> (found: Vec<(String, usize)>)
        ensures
            suggestions_view(found@) == suggestions(self.tables@, name@),
    {
        let n: usize = self.tables.len();
        let mut distances: Vec<usize> = Vec::new();
        let mut i: usize = 0;
        while i < n
            invariant
                i <= n,
                n == self.tables@.len(),
                distances@.len() == i,
                forall|j: int|
                    0 <= j < i ==> distances@[j] == levenshtein_distance(
                        name@,
                        (#[trigger] self.tables@[j]).0,
                    ),
            decreases n - i,
        {
            distances.push(levenshtein(name, self.tables.name_at(i).as_str()));
            i += 1;
        }
        let mut found: Vec<(String, usize)> = Vec::new();
        let mut distance: usize = 0;
        while distance <= MAX_SUGGESTION_DISTANCE
            invariant
                distance <= MAX_SUGGESTION_DISTANCE + 1,
                n == self.tables@.len(),
                distances@.len() == n,
                forall|j: int|
                    0 <= j < n ==> distances@[j] == levenshtein_distance(
                        name@,
                        (#[trigger] self.tables@[j]).0,
                    ),
                distance == 0 ==> suggestions_view(found@) == Seq::<(Seq<char>, nat)>::empty(),
                distance > 0 ==> suggestions_view(found@) == within_distance(
                    self.tables@,
                    name@,
                    (distance - 1) as nat,
                ),
            decreases MAX_SUGGESTION_DISTANCE + 1 - distance,
        {
            let ghost nearer = suggestions_view(found@);
            let mut k: usize = 0;
            assert(suggestions_view(found@) =~= nearer + at_distance(
                self.tables@.take(0),
                name@,
                distance as nat,
            ));
            while k < n
                invariant
                    k <= n,
                    n == self.tables@.len(),
                    distances@.len() == n,
                    forall|j: int|
                        0 <= j < n ==> distances@[j] == levenshtein_distance(
                            name@,
                            (#[trigger] self.tables@[j]).0,
                        ),
                    suggestions_view(found@) == nearer + at_distance(
                        self.tables@.take(k as int),
                        name@,
                        distance as nat,
                    ),
                decreases n - k,
            {
                let ghost earlier = suggestions_view(found@);
                assert(self.tables@.take(k + 1).drop_last() =~= self.tables@.take(k as int));
                assert(self.tables@.take(k + 1).last() == self.tables@[k as int]);
                if distances[k] == distance {
                    let candidate = self.tables.name_at(k).clone();
                    found.push((candidate, distance));
                    assert(suggestions_view(found@) =~= earlier.push(
                        (self.tables@[k as int].0, distance as nat),
                    ));
                    assert(suggestions_view(found@) =~= nearer + at_distance(
                        self.tables@.take(k + 1),
                        name@,
                        distance as nat,
                    ));
                }
                k += 1;
            }
            assert(self.tables@.take(n as int) =~= self.tables@);
            distance += 1;
        }
        found.truncate(MAX_SUGGESTIONS);
        proof {
            let all = within_distance(self.tables@, name@, MAX_SUGGESTION_DISTANCE as nat);
            if all.len() > MAX_SUGGESTIONS {
                assert(suggestions_view(found@) =~= all.take(MAX_SUGGESTIONS as int));
            }
        }
        found
    }

    /// The table under `name`, or the tables that may have been meant.
    pub fn get_table_or_error(&self, name: &str) -> (table: Result<&TableMetadata, TableNotFound>)
        ensures
            match value_of(self.tables@, name@) {
                Some(found) => table matches Ok(t) && *t == found,
                None => table matches Err(error) && error.name@ == name@ && suggestions_view(
                    error.suggestions@,
                ) == suggestions(self.tables@, name@),
            },
    {
        match self.get_table(name) {
            Some(table) => Ok(table),
            None => Err(
                TableNotFound { name: name.to_owned(), suggestions: self.suggest_tables(name) },
            ),
        }
    }
}

} // verus!
