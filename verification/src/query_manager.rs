//! Saved queries: the parameters that a query names, and where the queries
//! of a project are kept.

use regex::Regex;
use vstd::prelude::*;

use crate::config::{joined_path, ApplicationConfig, SavedQuery};
use crate::name_map::{
    has_name, lemma_mapped_position, lemma_mapped_with_entry, mapped, with_entry, NameMap,
};
use crate::text::{
    chars_of, first_index_of, index_of_char, insert_sorted, push_range, replace_all, replaced,
    string_from_chars, strictly_sorted, texts_of,
};

verus! {

/// The pattern of a parameter in a saved query: a colon and the word that
/// follows it.
pub open spec fn param_pattern() -> Seq<char> {
    ":(\\w+)"@
}

/// What the `regex` crate finds of a pattern in a text: for every match,
/// in order, what the group captured there; nothing where the pattern does
/// not compile.
pub uninterp spec fn regex_captures(pattern: Seq<char>, group: nat, text: Seq<char>) -> Option<
    Seq<Option<Seq<char>>>,
>;

/// The texts of what a search returned.
pub open spec fn captures_view(found: Option<Vec<Option<String>>>) -> Option<
    Seq<Option<Seq<char>>>,
> {
    match found {
        Some(groups) => Some(
            groups@.map_values(|group: Option<String>| crate::text::text_view(group)),
        ),
        None => None,
    }
}

/// `Regex::new` and `Regex::captures_iter` of the `regex` crate, with
/// `Captures::get` for one group of every match. The result depends on the
/// pattern, the group and the text alone.
#[verifier::external_body]
fn regex_search(pattern: &str, group: usize, text: &str) -> (found: Option<Vec<Option<String>>>)
    ensures
        captures_view(found) == regex_captures(pattern@, group as nat, text@),
{
    let regex = Regex::new(pattern).ok()?;
    Some(
        regex.captures_iter(text).map(
            |captures| captures.get(group).map(|part| part.as_str().to_string()),
        ).collect(),
    )
}

/// The texts that were captured.
pub open spec fn captured(groups: Seq<Option<Seq<char>>>) -> Seq<Seq<char>> {
    groups.filter(|group: Option<Seq<char>>| group is Some).map_values(
        |group: Option<Seq<char>>| group->0,
    )
}

/// `names` holds the texts of `found` in the order of strings, each once.
pub open spec fn is_sorted_set_of(names: Seq<Seq<char>>, found: Seq<Option<Seq<char>>>) -> bool {
    &&& strictly_sorted(names)
    &&& forall|text: Seq<char>| names.contains(text) <==> found.contains(Some(text))
}

/// The texts of a list of strings.
pub open spec fn strings_view(items: Seq<String>) -> Seq<Seq<char>> {
    items.map_values(|item: String| item@)
}

/// What a search gave, as far as it gave anything.
pub open spec fn found_or_nothing(found: Option<Seq<Option<Seq<char>>>>) -> Seq<
    Option<Seq<char>>,
> {
    match found {
        Some(groups) => groups,
        None => Seq::empty(),
    }
}

/// The details of one saved query.
#[derive(Clone, Debug)]
pub struct QueryDetails {
    pub name: String,
    pub sql: String,
    pub description: Option<String>,
    pub params: Vec<String>,
}

/// Why the saved queries of a project cannot be managed.
#[derive(Clone, Copy, Debug, PartialEq, Eq, Structural)]
pub enum QueryManagerError {
    /// The current directory is not known.
    NotInProject,
}

impl QueryManagerError {
    /// The error in words.
    pub fn message(&self) -> (text: &'static str)
        ensures
            text@ == "Not in a project directory"@,
    {
        "Not in a project directory"
    }
}

/// The keeper of a project's saved queries.
#[derive(Clone, Debug)]
pub struct QueryManager {
    pub config_path: String,
}

impl QueryManager {
    /// A manager for the project in the current directory.
    pub fn new(current_dir: Option<&str>) -> (manager: Result<Self, QueryManagerError>)
        ensures
            match current_dir {
                Some(dir) => manager matches Ok(m) && m.config_path@ == joined_path(
                    dir@,
                    ".rds-cli.toml"@,
                ),
                None => manager matches Err(error) && error == QueryManagerError::NotInProject,
            },
    {
        match ApplicationConfig::project_config_path(current_dir) {
            Some(config_path) => Ok(QueryManager { config_path }),
            None => Err(QueryManagerError::NotInProject),
        }
    }

    /// The captured texts in the order of strings, each once.
    pub fn sorted_params(found: &Vec<Option<String>>) -> (params: Vec<String>)
        ensures
            is_sorted_set_of(
                strings_view(params@),
                found@.map_values(|group: Option<String>| crate::text::text_view(group)),
            ),
    {
        let ghost groups = found@.map_values(|group: Option<String>| crate::text::text_view(group));
        let mut sorted: Vec<Vec<char>> = Vec::new();
        let mut i: usize = 0;
        while i < found.len()
            invariant
                i <= found.len(),
                groups == found@.map_values(|group: Option<String>| crate::text::text_view(group)),
                strictly_sorted(texts_of(sorted@)),
                forall|text: Seq<char>|
                    texts_of(sorted@).contains(text) <==> groups.take(i as int).contains(
                        Some(text),
                    ),
            decreases found.len() - i,
        {
            let ghost before = texts_of(sorted@);
            match &found[i] {
                Some(name) => {
                    insert_sorted(&mut sorted, chars_of(name.as_str()));
                },
                None => {},
            }
            i += 1;
            proof {
                let now = groups.take(i as int);
                let earlier = groups.take(i - 1);
                assert(earlier =~= now.drop_last());
                assert forall|text: Seq<char>| texts_of(sorted@).contains(text)
                    <==> now.contains(Some(text)) by {
                    if now.contains(Some(text)) {
                        let k = choose|k: int| 0 <= k < now.len() && now[k] == Some(text);
                        if k < i - 1 {
                            assert(earlier[k] == Some(text));
                        }
                    }
                    if earlier.contains(Some(text)) {
                        let k = choose|k: int| 0 <= k < earlier.len() && earlier[k] == Some(text);
                        assert(now[k] == Some(text));
                    }
                    if groups[i - 1] == Some(text) {
                        assert(now[i - 1] == Some(text));
                    }
                }
            }
        }
        assert(groups.take(i as int) =~= groups);
        let mut params: Vec<String> = Vec::new();
        let mut j: usize = 0;
        while j < sorted.len()
            invariant
                j <= sorted.len(),
                params@.len() == j,
                strings_view(params@) == texts_of(sorted@).take(j as int),
            decreases sorted.len() - j,
        {
            let ghost earlier = strings_view(params@);
            let ghost pushed = params@;
            params.push(string_from_chars(&sorted[j]));
            j += 1;
            assert(strings_view(params@).len() == j);
            assert(earlier.len() == j - 1);
            assert forall|k: int| 0 <= k < j implies strings_view(params@)[k] == texts_of(
                sorted@,
            ).take(j as int)[k] by {
                if k < j - 1 {
                    assert(params@[k] == pushed[k]);
                    assert(strings_view(params@)[k] == earlier[k]);
                    assert(earlier[k] == texts_of(sorted@).take(j - 1)[k]);
                }
            }
            assert(strings_view(params@) =~= texts_of(sorted@).take(j as int));
        }
        assert(texts_of(sorted@).take(j as int) =~= texts_of(sorted@));
        params
    }

    /// The details under which a query is saved: its name, its SQL, its
    /// description, and the parameters that the SQL names.
    pub fn query_details(name: &str, sql: &str, description: Option<&str>) -> (details:
        QueryDetails)
        ensures
            details.name@ == name@,
            details.sql@ == sql@,
            crate::text::text_view(details.description) == crate::config::str_view(description),
            is_sorted_set_of(
                strings_view(details.params@),
                found_or_nothing(regex_captures(param_pattern(), 1, sql@)),
            ),
    {
        QueryDetails {
            name: name.to_owned(),
            sql: sql.to_owned(),
            description: match description {
                Some(text) => Some(text.to_owned()),
                None => None,
            },
            params: Self::extract_params(sql),
        }
    }

    /// The parameters that a query names, in the order of strings, each
    /// once.
    pub fn extract_params(sql: &str) -> (params: Vec<String>)
        ensures
            is_sorted_set_of(
                strings_view(params@),
                found_or_nothing(regex_captures(param_pattern(), 1, sql@)),
            ),
    {
        match regex_search(":(\\w+)", 1, sql) {
            Some(found) => Self::sorted_params(&found),
            None => {
                let params: Vec<String> = Vec::new();
                assert(strings_view(params@) =~= Seq::<Seq<char>>::empty());
                params
            },
        }
    }
}

/// Why a saved query cannot be run with the arguments given.
#[derive(Clone, Debug)]
pub enum BindError {
    /// An argument is not of the form `key=value`.
    InvalidParameter(String),
    /// The query takes a parameter that no argument gives.
    MissingParameter(String),
}

/// A `BindError` with its text as a sequence of characters.
pub ghost enum BindErrorView {
    InvalidParameter(Seq<char>),
    MissingParameter(Seq<char>),
}

impl View for BindError {
    type V = BindErrorView;

    open spec fn view(&self) -> BindErrorView {
        match *self {
            BindError::InvalidParameter(argument) => BindErrorView::InvalidParameter(argument@),
            BindError::MissingParameter(name) => BindErrorView::MissingParameter(name@),
        }
    }
}

impl BindErrorView {
    /// The error in words.
    pub open spec fn message_text(self) -> Seq<char> {
        match self {
            BindErrorView::InvalidParameter(argument) => "Invalid parameter format: '"@ + argument
                + "'. Use key=value"@,
            BindErrorView::MissingParameter(name) => "Missing required parameter: "@ + name,
        }
    }
}

impl BindError {
    /// The error in words.
    pub fn message(&self) -> (text: String)
        ensures
            text@ == self@.message_text(),
    {
        let mut chars: Vec<char> = Vec::new();
        match self {
            BindError::InvalidParameter(argument) => {
                crate::text::push_str_chars(&mut chars, "Invalid parameter format: '");
                crate::text::push_str_chars(&mut chars, argument.as_str());
                crate::text::push_str_chars(&mut chars, "'. Use key=value");
            },
            BindError::MissingParameter(name) => {
                crate::text::push_str_chars(&mut chars, "Missing required parameter: ");
                crate::text::push_str_chars(&mut chars, name.as_str());
            },
        }
        string_from_chars(&chars)
    }
}

/// The values by the names of their parameters, or why there are none.
pub type BoundOutcome = Result<Seq<(Seq<char>, Seq<char>)>, BindErrorView>;

/// The bindings that the arguments give on top of `bound`: each argument
/// is split at its first equals sign, and a later value for a key takes
/// the place of an earlier one. The first argument without an equals sign
/// is an error.
pub open spec fn bound_arguments(
    bound: Seq<(Seq<char>, Seq<char>)>,
    arguments: Seq<Seq<char>>,
) -> BoundOutcome
    decreases arguments.len(),
{
    if arguments.len() == 0 {
        Ok(bound)
    } else {
        let argument = arguments[0];
        let at = first_index_of(argument, '=');
        if at >= argument.len() {
            Err(BindErrorView::InvalidParameter(argument))
        } else {
            bound_arguments(
                with_entry(bound, argument.take(at), argument.skip(at + 1)),
                arguments.drop_first(),
            )
        }
    }
}

/// The first of `required` that `bound` gives no value for.
pub open spec fn first_missing(
    bound: Seq<(Seq<char>, Seq<char>)>,
    required: Seq<Seq<char>>,
) -> Option<Seq<char>>
    decreases required.len(),
{
    if required.len() == 0 {
        None
    } else if !has_name(bound, required[0]) {
        Some(required[0])
    } else {
        first_missing(bound, required.drop_first())
    }
}

/// `sql` with the parameters replaced by their values, one binding after
/// the other: every `:key` gives way to the value of `key`.
pub open spec fn substituted(sql: Seq<char>, bound: Seq<(Seq<char>, Seq<char>)>) -> Seq<char>
    decreases bound.len(),
{
    if bound.len() == 0 {
        sql
    } else {
        substituted(replaced(sql, seq![':'] + bound[0].0, bound[0].1), bound.drop_first())
    }
}

/// The SQL of a saved query for the arguments given, or why there is none.
pub open spec fn bound_sql(
    sql: Seq<char>,
    required: Seq<Seq<char>>,
    arguments: Seq<Seq<char>>,
) -> Result<Seq<char>, BindErrorView> {
    match bound_arguments(Seq::empty(), arguments) {
        Err(error) => Err(error),
        Ok(bound) => match first_missing(bound, required) {
            Some(name) => Err(BindErrorView::MissingParameter(name)),
            None => Ok(substituted(sql, bound)),
        },
    }
}

/// The texts of a map of strings.
pub open spec fn bindings_view(bound: Seq<(Seq<char>, String)>) -> Seq<(Seq<char>, Seq<char>)> {
    mapped(bound, |value: String| value@)
}

/// What a binding returns, with its texts as sequences of characters.
pub open spec fn bind_view(outcome: Result<String, BindError>) -> Result<Seq<char>, BindErrorView> {
    match outcome {
        Ok(sql) => Ok(sql@),
        Err(error) => Err(error@),
    }
}

/// Reads the arguments of a run: `key=value`, one for each parameter.
pub fn parse_arguments(arguments: &Vec<String>) -> (outcome: Result<NameMap<String>, BindError>)
    ensures
        match bound_arguments(
            Seq::empty(),
            arguments@.map_values(|argument: String| argument@),
        ) {
            Ok(bound) => outcome matches Ok(map) && bindings_view(map@) == bound,
            Err(error) => outcome matches Err(e) && e@ == error,
        },
{
    let ghost texts = arguments@.map_values(|argument: String| argument@);
    let mut map: NameMap<String> = NameMap::new();
    let mut i: usize = 0;
    assert(texts.skip(0) =~= texts);
    assert(bindings_view(map@) =~= Seq::<(Seq<char>, Seq<char>)>::empty());
    while i < arguments.len()
        invariant
            i <= arguments.len(),
            texts == arguments@.map_values(|argument: String| argument@),
            bound_arguments(Seq::empty(), texts) == bound_arguments(
                bindings_view(map@),
                texts.skip(i as int),
            ),
        decreases arguments.len() - i,
    {
        let argument = chars_of(arguments[i].as_str());
        let at = index_of_char(&argument, '=');
        proof {
            assert(texts.skip(i as int)[0] == argument@);
            assert(texts.skip(i as int).drop_first() =~= texts.skip(i + 1));
        }
        if at >= argument.len() {
            return Err(BindError::InvalidParameter(arguments[i].clone()));
        }
        let mut key: Vec<char> = Vec::new();
        push_range(&mut key, &argument, 0, at);
        let mut value: Vec<char> = Vec::new();
        push_range(&mut value, &argument, at + 1, argument.len());
        let key_text = string_from_chars(&key);
        let value_text = string_from_chars(&value);
        proof {
            assert(key@ =~= argument@.take(at as int));
            assert(value@ =~= argument@.skip(at + 1));
            lemma_mapped_with_entry(map@, |value: String| value@, key_text@, value_text);
        }
        map.insert(key_text, value_text);
        i += 1;
    }
    Ok(map)
}

impl QueryManager {
    /// The SQL of a saved query for the arguments of a run: every
    /// parameter that the query takes has to be given, and every `:key`
    /// gives way to the value of `key`.
    pub fn bind_params(query: &SavedQuery, arguments: &Vec<String>) -> (outcome: Result<
        String,
        BindError,
    >)
        ensures
            bind_view(outcome) == bound_sql(
                query.sql@,
                strings_view(query.params@),
                arguments@.map_values(|argument: String| argument@),
            ),
    {
        let bound = match parse_arguments(arguments) {
            Ok(bound) => bound,
            Err(error) => {
                return Err(error);
            },
        };
        let ghost bound_texts = bindings_view(bound@);
        let ghost required = strings_view(query.params@);
        let mut i: usize = 0;
        assert(required.skip(0) =~= required);
        while i < query.params.len()
            invariant
                i <= query.params.len(),
                required == strings_view(query.params@),
                bound_texts == bindings_view(bound@),
                bound_arguments(
                    Seq::empty(),
                    arguments@.map_values(|argument: String| argument@),
                ) == BoundOutcome::Ok(bound_texts),
                first_missing(bound_texts, required) == first_missing(
                    bound_texts,
                    required.skip(i as int),
                ),
            decreases query.params.len() - i,
        {
            proof {
                assert(required.skip(i as int)[0] == query.params@[i as int]@);
                assert(required.skip(i as int).drop_first() =~= required.skip(i + 1));
                lemma_mapped_position(bound@, |value: String| value@, query.params@[i as int]@);
            }
            if !bound.contains_key(query.params[i].as_str()) {
                return Err(BindError::MissingParameter(query.params[i].clone()));
            }
            i += 1;
        }
        let mut sql = chars_of(query.sql.as_str());
        let n: usize = bound.len();
        let mut k: usize = 0;
        assert(bound_texts.skip(0) =~= bound_texts);
        while k < n
            invariant
                k <= n,
                n == bound@.len(),
                bound_texts == bindings_view(bound@),
                bound_texts.len() == n,
                substituted(query.sql@, bound_texts) == substituted(
                    sql@,
                    bound_texts.skip(k as int),
                ),
            decreases n - k,
        {
            let mut pattern: Vec<char> = Vec::new();
            pattern.push(':');
            crate::text::push_str_chars(&mut pattern, bound.name_at(k).as_str());
            let value = chars_of(bound.value_at(k).as_str());
            proof {
                assert(bound_texts.skip(k as int)[0] == bound_texts[k as int]);
                assert(bound_texts.skip(k as int).drop_first() =~= bound_texts.skip(k + 1));
                assert(pattern@ =~= seq![':'] + bound_texts[k as int].0);
            }
            sql = replace_all(&sql, &pattern, &value);
            k += 1;
        }
        Ok(string_from_chars(&sql))
    }
}

} // verus!
