//! The query validator: classifies the statements of a SQL text and holds
//! them to a safety policy, adding a row limit where the text has none.

use sqlparser::ast::{Expr, LimitClause, Statement, Value, ValueWithSpan};
use sqlparser::dialect::{MySqlDialect, PostgreSqlDialect};
use sqlparser::parser::Parser;
use vstd::prelude::*;

use crate::config::SafetyPolicy;
use crate::text::{
    chars_of, debug_list, debug_text, decimal_text, equal_ignoring_ascii_case,
    len_without_trailing, parse_u64, parsed_u64, push_decimal, push_str_chars,
    same_ignoring_ascii_case, str_equal, string_from_chars, without_trailing,
};

verus! {

/// The SQL grammars that the validator can parse with.
#[derive(Clone, Copy, Debug, PartialEq, Eq, Structural)]
pub enum SqlDialect {
    PostgreSql,
    MySql,
}

impl SqlDialect {
    /// The dialect for a profile's database type; PostgreSQL where the type
    /// is not known.
    pub open spec fn for_database(db_type: Seq<char>) -> SqlDialect {
        if db_type == "mysql"@ {
            SqlDialect::MySql
        } else {
            SqlDialect::PostgreSql
        }
    }

    /// The dialect for a profile's database type.
    pub fn from_database_type(db_type: &str) -> (dialect: SqlDialect)
        ensures
            dialect == Self::for_database(db_type@),
    {
        if str_equal(db_type, "mysql") {
            SqlDialect::MySql
        } else {
            SqlDialect::PostgreSql
        }
    }
}

/// The top-level form of a parsed statement, as far as the validator tells
/// forms apart.
#[derive(Clone, Copy, Debug, PartialEq, Eq, Structural)]
pub enum StatementShape {
    Query,
    Explain,
    ShowTables,
    ShowColumns,
    Insert,
    Update,
    Delete,
    CreateTable,
    Drop,
    AlterTable,
    Truncate,
    Other,
}

/// The operation that a statement performs, as the allow-list names it.
#[derive(Clone, Copy, Debug, PartialEq, Eq, Structural)]
pub enum StatementClass {
    Select,
    Explain,
    Show,
    Insert,
    Update,
    Delete,
    Create,
    Drop,
    Alter,
    Truncate,
    Unsupported,
}

impl StatementClass {
    /// The class of a statement of the given shape.
    pub open spec fn of_shape(shape: StatementShape) -> StatementClass {
        match shape {
            StatementShape::Query => StatementClass::Select,
            StatementShape::Explain => StatementClass::Explain,
            StatementShape::ShowTables => StatementClass::Show,
            StatementShape::ShowColumns => StatementClass::Show,
            StatementShape::Insert => StatementClass::Insert,
            StatementShape::Update => StatementClass::Update,
            StatementShape::Delete => StatementClass::Delete,
            StatementShape::CreateTable => StatementClass::Create,
            StatementShape::Drop => StatementClass::Drop,
            StatementShape::AlterTable => StatementClass::Alter,
            StatementShape::Truncate => StatementClass::Truncate,
            StatementShape::Other => StatementClass::Unsupported,
        }
    }

    /// Classifies a statement by its shape.
    pub fn from_shape(shape: StatementShape) -> (class: StatementClass)
        ensures
            class == Self::of_shape(shape),
    {
        match shape {
            StatementShape::Query => StatementClass::Select,
            StatementShape::Explain => StatementClass::Explain,
            StatementShape::ShowTables | StatementShape::ShowColumns => StatementClass::Show,
            StatementShape::Insert => StatementClass::Insert,
            StatementShape::Update => StatementClass::Update,
            StatementShape::Delete => StatementClass::Delete,
            StatementShape::CreateTable => StatementClass::Create,
            StatementShape::Drop => StatementClass::Drop,
            StatementShape::AlterTable => StatementClass::Alter,
            StatementShape::Truncate => StatementClass::Truncate,
            StatementShape::Other => StatementClass::Unsupported,
        }
    }

    /// The name under which an allow-list grants the class.
    pub open spec fn name_text(self) -> Seq<char> {
        match self {
            StatementClass::Select => "SELECT"@,
            StatementClass::Explain => "EXPLAIN"@,
            StatementClass::Show => "SHOW"@,
            StatementClass::Insert => "INSERT"@,
            StatementClass::Update => "UPDATE"@,
            StatementClass::Delete => "DELETE"@,
            StatementClass::Create => "CREATE"@,
            StatementClass::Drop => "DROP"@,
            StatementClass::Alter => "ALTER"@,
            StatementClass::Truncate => "TRUNCATE"@,
            StatementClass::Unsupported => "UNSUPPORTED"@,
        }
    }

    /// The name under which an allow-list grants the class.
    pub fn name(&self) -> (name: &'static str)
        ensures
            name@ == self.name_text(),
    {
        match self {
            StatementClass::Select => "SELECT",
            StatementClass::Explain => "EXPLAIN",
            StatementClass::Show => "SHOW",
            StatementClass::Insert => "INSERT",
            StatementClass::Update => "UPDATE",
            StatementClass::Delete => "DELETE",
            StatementClass::Create => "CREATE",
            StatementClass::Drop => "DROP",
            StatementClass::Alter => "ALTER",
            StatementClass::Truncate => "TRUNCATE",
            StatementClass::Unsupported => "UNSUPPORTED",
        }
    }
}

/// The forms of a query's `LIMIT` clause.
#[derive(Clone, Copy, Debug, PartialEq, Eq, Structural)]
pub enum LimitForm {
    /// The statement is no query, or the query has no such clause.
    NoClause,
    /// `LIMIT n`, with or without an `OFFSET m` before or after it.
    LimitOffset,
    /// `LIMIT m, n`, the offset before the limit.
    OffsetCommaLimit,
}

/// What stands as the limit in a `LIMIT` clause.
#[derive(Clone, Debug)]
pub enum LimitExpression {
    /// Nothing: the clause gives an offset alone, or there is no clause.
    Nothing,
    /// A numeric literal, with its text.
    Number(String),
    /// A literal that is no number.
    OtherLiteral,
    /// An expression that is no literal.
    Expression,
}

/// A `LimitExpression` with its text as a sequence of characters.
pub ghost enum LimitExpressionView {
    Nothing,
    Number(Seq<char>),
    OtherLiteral,
    Expression,
}

impl View for LimitExpression {
    type V = LimitExpressionView;

    open spec fn view(&self) -> LimitExpressionView {
        match *self {
            LimitExpression::Nothing => LimitExpressionView::Nothing,
            LimitExpression::Number(text) => LimitExpressionView::Number(text@),
            LimitExpression::OtherLiteral => LimitExpressionView::OtherLiteral,
            LimitExpression::Expression => LimitExpressionView::Expression,
        }
    }
}

/// The `LIMIT` clause of a statement as the parser gives it: its form, and
/// what stands as the limit.
#[derive(Clone, Debug)]
pub struct LimitReading {
    pub form: LimitForm,
    pub limit: LimitExpression,
}

/// A `LimitReading` with its text as a sequence of characters.
pub ghost struct LimitReadingView {
    pub form: LimitForm,
    pub limit: LimitExpressionView,
}

impl View for LimitReading {
    type V = LimitReadingView;

    open spec fn view(&self) -> LimitReadingView {
        LimitReadingView { form: self.form, limit: self.limit@ }
    }
}

/// The number of a limit expression: that of a numeric literal that fits
/// 64 bits. Any other expression counts as no limit.
pub open spec fn number_of(limit: LimitExpressionView) -> Option<u64> {
    match limit {
        LimitExpressionView::Number(text) => parsed_u64(text),
        _ => None,
    }
}

/// The literal limit of a `LIMIT` clause, in either form of the clause.
pub open spec fn literal_limit(reading: LimitReadingView) -> Option<u64> {
    match reading.form {
        LimitForm::NoClause => None,
        LimitForm::LimitOffset => number_of(reading.limit),
        LimitForm::OffsetCommaLimit => number_of(reading.limit),
    }
}

/// The number of a limit expression.
pub fn extract_number_from_expr(limit: &LimitExpression) -> (number: Option<u64>)
    ensures
        number == number_of(limit@),
{
    match limit {
        LimitExpression::Number(text) => parse_u64(text.as_str()),
        _ => None,
    }
}

/// The literal limit of a `LIMIT` clause.
pub fn extract_limit_from_query(reading: &LimitReading) -> (limit: Option<u64>)
    ensures
        limit == literal_limit(reading@),
{
    match reading.form {
        LimitForm::NoClause => None,
        LimitForm::LimitOffset => extract_number_from_expr(&reading.limit),
        LimitForm::OffsetCommaLimit => extract_number_from_expr(&reading.limit),
    }
}

/// What the validator reads of one parsed statement: its class, and the
/// number of its `LIMIT` clause where that clause holds a numeric literal
/// that fits 64 bits. Only a query has such a clause.
#[derive(Clone, Copy, Debug)]
pub struct ParsedStatement {
    pub class: StatementClass,
    pub limit: Option<u64>,
}

/// Whether an allow-list grants a class: some entry is the class's name, up
/// to the case of ASCII letters.
pub open spec fn permits(allowed: Seq<Seq<char>>, class: StatementClass) -> bool {
    exists|i: int|
        0 <= i < allowed.len() && same_ignoring_ascii_case(
            #[trigger] allowed[i],
            class.name_text(),
        )
}

impl SafetyPolicy {
    /// Whether the allow-list grants `class`.
    pub fn permits_class(&self, class: StatementClass) -> (granted: bool)
        ensures
            granted == permits(self.allowed(), class),
    {
        let name = class.name();
        let mut i: usize = 0;
        while i < self.allowed_operations.len()
            invariant
                i <= self.allowed_operations.len(),
                name@ == class.name_text(),
                forall|j: int|
                    0 <= j < i ==> !same_ignoring_ascii_case(
                        #[trigger] self.allowed()[j],
                        class.name_text(),
                    ),
            decreases self.allowed_operations.len() - i,
        {
            if equal_ignoring_ascii_case(self.allowed_operations[i].as_str(), name) {
                assert(self.allowed()[i as int] == self.allowed_operations[i as int]@);
                return true;
            }
            assert(self.allowed()[i as int] == self.allowed_operations[i as int]@);
            i += 1;
        }
        false
    }
}

/// Why a SQL text was turned away.
#[derive(Clone, Debug)]
pub enum ValidationError {
    /// The text does not parse; the parser's diagnostic.
    SyntaxError(String),
    /// The text holds no statement.
    EmptyQuery,
    /// A statement is of a kind that no policy can grant.
    UnsupportedStatement,
    /// A statement's class is missing from the allow-list.
    OperationNotAllowed { operation: StatementClass, permitted: Vec<String> },
    /// The text asks for more rows than the policy's ceiling.
    LimitExceeded { requested: u64, max: u32 },
}

/// A `ValidationError` with its texts as sequences of characters.
pub ghost enum ValidationErrorView {
    SyntaxError(Seq<char>),
    EmptyQuery,
    UnsupportedStatement,
    OperationNotAllowed { operation: StatementClass, permitted: Seq<Seq<char>> },
    LimitExceeded { requested: u64, max: u32 },
}

impl View for ValidationError {
    type V = ValidationErrorView;

    open spec fn view(&self) -> ValidationErrorView {
        match *self {
            ValidationError::SyntaxError(diagnostic) => ValidationErrorView::SyntaxError(
                diagnostic@,
            ),
            ValidationError::EmptyQuery => ValidationErrorView::EmptyQuery,
            ValidationError::UnsupportedStatement => ValidationErrorView::UnsupportedStatement,
            ValidationError::OperationNotAllowed { operation, permitted } => {
                ValidationErrorView::OperationNotAllowed {
                    operation,
                    permitted: permitted@.map_values(|op: String| op@),
                }
            },
            ValidationError::LimitExceeded { requested, max } => {
                ValidationErrorView::LimitExceeded { requested, max }
            },
        }
    }
}

impl ValidationErrorView {
    /// The error in words.
    pub open spec fn message_text(self) -> Seq<char> {
        match self {
            ValidationErrorView::SyntaxError(diagnostic) => diagnostic,
            ValidationErrorView::EmptyQuery => "No SQL statement provided"@,
            ValidationErrorView::UnsupportedStatement => "Unsupported statement type"@,
            ValidationErrorView::OperationNotAllowed { operation, permitted } => "Operation '"@
                + operation.name_text() + "' not allowed. Permitted: "@ + debug_text(permitted),
            ValidationErrorView::LimitExceeded { requested, max } => "LIMIT "@ + decimal_text(
                requested as nat,
            ) + " exceeds maximum allowed ("@ + decimal_text(max as nat) + ")"@,
        }
    }
}

impl ValidationError {
    /// The error in words: the rejected class with the permitted set, the
    /// requested limit with the ceiling, or the parser's diagnostic.
    pub fn message(&self) -> (text: String)
        ensures
            text@ == self@.message_text(),
    {
        match self {
            ValidationError::SyntaxError(diagnostic) => diagnostic.clone(),
            ValidationError::EmptyQuery => "No SQL statement provided".to_owned(),
            ValidationError::UnsupportedStatement => "Unsupported statement type".to_owned(),
            ValidationError::OperationNotAllowed { operation, permitted } => {
                let mut chars: Vec<char> = Vec::new();
                push_str_chars(&mut chars, "Operation '");
                push_str_chars(&mut chars, operation.name());
                push_str_chars(&mut chars, "' not allowed. Permitted: ");
                push_str_chars(&mut chars, debug_list(permitted).as_str());
                string_from_chars(&chars)
            },
            ValidationError::LimitExceeded { requested, max } => {
                let mut chars: Vec<char> = Vec::new();
                push_str_chars(&mut chars, "LIMIT ");
                push_decimal(&mut chars, *requested);
                push_str_chars(&mut chars, " exceeds maximum allowed (");
                push_decimal(&mut chars, *max as u64);
                push_str_chars(&mut chars, ")");
                string_from_chars(&chars)
            },
        }
    }
}

/// What a validation returns: the text to run, or why it must not run.
pub type ValidationOutcome = Result<String, ValidationError>;

/// A `ValidationOutcome` with its texts as sequences of characters.
pub type ValidationOutcomeView = Result<Seq<char>, ValidationErrorView>;

/// What a validation returns, with its texts as sequences of characters.
pub open spec fn outcome_view(outcome: ValidationOutcome) -> ValidationOutcomeView {
    match outcome {
        Ok(sql) => Ok(sql@),
        Err(error) => Err(error@),
    }
}

/// The error that a statement of this class meets at the allow-list, if
/// any: no policy grants a statement that the validator cannot classify.
pub open spec fn class_rejection(
    allowed: Seq<Seq<char>>,
    class: StatementClass,
) -> Option<ValidationErrorView> {
    if class == StatementClass::Unsupported {
        Some(ValidationErrorView::UnsupportedStatement)
    } else if !permits(allowed, class) {
        Some(ValidationErrorView::OperationNotAllowed { operation: class, permitted: allowed })
    } else {
        None
    }
}

/// The error of the first statement that the allow-list turns away, if
/// there is one.
pub open spec fn rejection(
    allowed: Seq<Seq<char>>,
    statements: Seq<ParsedStatement>,
) -> Option<ValidationErrorView>
    decreases statements.len(),
{
    if statements.len() == 0 {
        None
    } else {
        match class_rejection(allowed, statements[0].class) {
            Some(error) => Some(error),
            None => rejection(allowed, statements.drop_first()),
        }
    }
}

/// Every statement is a query.
pub open spec fn all_select(statements: Seq<ParsedStatement>) -> bool {
    forall|i: int|
        0 <= i < statements.len() ==> (#[trigger] statements[i]).class == StatementClass::Select
}

/// The first literal limit of a batch.
pub open spec fn first_limit(statements: Seq<ParsedStatement>) -> Option<u64>
    decreases statements.len(),
{
    if statements.len() == 0 {
        None
    } else if statements[0].limit is Some {
        statements[0].limit
    } else {
        first_limit(statements.drop_first())
    }
}

/// Whether a statement names a literal limit above the ceiling.
pub open spec fn exceeds(limit: Option<u64>, max_limit: u32) -> bool {
    match limit {
        Some(requested) => requested > max_limit,
        None => false,
    }
}

/// The first literal limit of a batch that is above the ceiling.
pub open spec fn first_excess(statements: Seq<ParsedStatement>, max_limit: u32) -> Option<u64>
    decreases statements.len(),
{
    if statements.len() == 0 {
        None
    } else if exceeds(statements[0].limit, max_limit) {
        statements[0].limit
    } else {
        first_excess(statements.drop_first(), max_limit)
    }
}

/// The limit that decides on a batch: the first literal limit above the
/// ceiling or, where every literal limit is within the ceiling, the first
/// of them. There is none where no statement names a literal limit.
pub open spec fn requested_limit(statements: Seq<ParsedStatement>, max_limit: u32) -> Option<
    u64,
> {
    match first_excess(statements, max_limit) {
        Some(limit) => Some(limit),
        None => first_limit(statements),
    }
}

/// `sql` without its trailing semicolons, followed by a `LIMIT` clause.
pub open spec fn with_limit(sql: Seq<char>, limit: u32) -> Seq<char> {
    without_trailing(sql, ';') + " LIMIT "@ + decimal_text(limit as nat)
}

/// What the limit policy makes of a batch that passed the allow-list. A
/// batch that is not of queries alone is left as it is. In a batch of
/// queries every literal limit is held to the ceiling: the first one above
/// it is an error. The default limit is added only where no query names a
/// literal limit.
pub open spec fn limit_outcome(
    policy: SafetyPolicy,
    sql: Seq<char>,
    statements: Seq<ParsedStatement>,
) -> ValidationOutcomeView {
    if !all_select(statements) {
        Ok(sql)
    } else {
        match requested_limit(statements, policy.max_limit) {
            Some(requested) => if requested > policy.max_limit {
                Err(ValidationErrorView::LimitExceeded { requested, max: policy.max_limit })
            } else {
                Ok(sql)
            },
            None => Ok(with_limit(sql, policy.default_limit)),
        }
    }
}

/// What the validator makes of a text that parsed into `statements`.
pub open spec fn statements_outcome(
    policy: SafetyPolicy,
    sql: Seq<char>,
    statements: Seq<ParsedStatement>,
) -> ValidationOutcomeView {
    if statements.len() == 0 {
        Err(ValidationErrorView::EmptyQuery)
    } else {
        match rejection(policy.allowed(), statements) {
            Some(error) => Err(error),
            None => limit_outcome(policy, sql, statements),
        }
    }
}

/// `sqlparser::ast::Statement`: a parsed statement, which the validator
/// hands on without looking into it.
#[verifier::external_type_specification]
#[verifier::external_body]
pub struct ExStatement(Statement);

/// What `sqlparser` makes of a SQL text under a dialect: its statements, or
/// the text of its diagnostic.
pub uninterp spec fn sql_statements(dialect: SqlDialect, sql: Seq<char>) -> Result<
    Seq<Statement>,
    Seq<char>,
>;

/// The shape of a `sqlparser` statement.
pub uninterp spec fn statement_shape_of(statement: Statement) -> StatementShape;

/// The `LIMIT` clause of a `sqlparser` statement.
pub uninterp spec fn limit_reading_of(statement: Statement) -> LimitReadingView;

/// The statements or the diagnostic that a parse returned.
pub open spec fn parse_view(parsed: Result<Vec<Statement>, String>) -> Result<
    Seq<Statement>,
    Seq<char>,
> {
    match parsed {
        Ok(statements) => Ok(statements@),
        Err(diagnostic) => Err(diagnostic@),
    }
}

/// `sqlparser::parser::Parser::parse_sql` with the grammar of `dialect`.
/// The result is taken to depend on the dialect and the text alone; a
/// failure is handed back as the text of the parser's error.
#[verifier::external_body]
fn parse_sql(dialect: SqlDialect, sql: &str) -> (parsed: Result<Vec<Statement>, String>)
    ensures
        parse_view(parsed) == sql_statements(dialect, sql@),
{
    let parsed = match dialect {
        SqlDialect::PostgreSql => Parser::parse_sql(&PostgreSqlDialect {}, sql),
        SqlDialect::MySql => Parser::parse_sql(&MySqlDialect {}, sql),
    };
    parsed.map_err(|error| error.to_string())
}

/// Tells the variants of `sqlparser::ast::Statement` apart, one shape for
/// each variant that the validator knows and `Other` for the rest.
#[verifier::external_body]
fn statement_shape(statement: &Statement) -> (shape: StatementShape)
    ensures
        shape == statement_shape_of(*statement),
{
    match statement {
        Statement::Query(_) => StatementShape::Query,
        Statement::Explain { .. } => StatementShape::Explain,
        Statement::ShowTables { .. } => StatementShape::ShowTables,
        Statement::ShowColumns { .. } => StatementShape::ShowColumns,
        Statement::Insert(_) => StatementShape::Insert,
        Statement::Update(_) => StatementShape::Update,
        Statement::Delete(_) => StatementShape::Delete,
        Statement::CreateTable(_) => StatementShape::CreateTable,
        Statement::Drop { .. } => StatementShape::Drop,
        Statement::AlterTable(_) => StatementShape::AlterTable,
        Statement::Truncate(_) => StatementShape::Truncate,
        _ => StatementShape::Other,
    }
}

/// Reads the `limit_clause` of a `sqlparser::ast::Statement::Query`: which
/// variant of `LimitClause` it is, and whether its limit is absent, a
/// `Value::Number` with its text, another `Expr::Value`, or another `Expr`.
/// Any other statement has no clause.
#[verifier::external_body]
fn limit_reading(statement: &Statement) -> (reading: LimitReading)
    ensures
        reading@ == limit_reading_of(*statement),
{
    let none = LimitReading { form: LimitForm::NoClause, limit: LimitExpression::Nothing };
    let Statement::Query(query) = statement else { return none };
    let (form, limit) = match &query.limit_clause {
        Some(LimitClause::LimitOffset { limit, .. }) => (LimitForm::LimitOffset, limit.as_ref()),
        Some(LimitClause::OffsetCommaLimit { limit, .. }) => (LimitForm::OffsetCommaLimit, Some(limit)),
        None => return none,
    };
    let limit = match limit {
        Some(Expr::Value(ValueWithSpan { value: Value::Number(text, _), .. })) => LimitExpression::Number(text.clone()),
        Some(Expr::Value(_)) => LimitExpression::OtherLiteral,
        Some(_) => LimitExpression::Expression,
        None => LimitExpression::Nothing,
    };
    LimitReading { form, limit }
}

/// What the validator reads of one `sqlparser` statement.
pub open spec fn statement_model(statement: Statement) -> ParsedStatement {
    ParsedStatement {
        class: StatementClass::of_shape(statement_shape_of(statement)),
        limit: literal_limit(limit_reading_of(statement)),
    }
}

/// What the validator reads of a SQL text under a dialect: its statements
/// in order, or the parser's diagnostic.
pub open spec fn parsed_batch(dialect: SqlDialect, sql: Seq<char>) -> Result<
    Seq<ParsedStatement>,
    Seq<char>,
> {
    match sql_statements(dialect, sql) {
        Ok(statements) => Ok(statements.map_values(|s: Statement| statement_model(s))),
        Err(diagnostic) => Err(diagnostic),
    }
}

/// The statements or the diagnostic that `parse` returned.
pub open spec fn batch_view(parsed: Result<Vec<ParsedStatement>, String>) -> Result<
    Seq<ParsedStatement>,
    Seq<char>,
> {
    match parsed {
        Ok(statements) => Ok(statements@),
        Err(diagnostic) => Err(diagnostic@),
    }
}

/// What the validator makes of a SQL text.
pub open spec fn validation_outcome(
    policy: SafetyPolicy,
    dialect: SqlDialect,
    sql: Seq<char>,
) -> ValidationOutcomeView {
    match parsed_batch(dialect, sql) {
        Ok(statements) => statements_outcome(policy, sql, statements),
        Err(diagnostic) => Err(ValidationErrorView::SyntaxError(diagnostic)),
    }
}

fn read_statement(statement: &Statement) -> (node: ParsedStatement)
    ensures
        node == statement_model(*statement),
{
    let class = StatementClass::from_shape(statement_shape(statement));
    let limit = extract_limit_from_query(&limit_reading(statement));
    ParsedStatement { class, limit }
}

/// Parses a SQL text and reads of each statement what the validator needs.
pub fn parse(dialect: SqlDialect, sql: &str) -> (parsed: Result<Vec<ParsedStatement>, String>)
    ensures
        batch_view(parsed) == parsed_batch(dialect, sql@),
{
    match parse_sql(dialect, sql) {
        Ok(statements) => {
            let mut nodes: Vec<ParsedStatement> = Vec::new();
            let mut i: usize = 0;
            while i < statements.len()
                invariant
                    i <= statements.len(),
                    nodes@ == statements@.take(i as int).map_values(
                        |s: Statement| statement_model(s),
                    ),
                decreases statements.len() - i,
            {
                nodes.push(read_statement(&statements[i]));
                i += 1;
                assert(nodes@ =~= statements@.take(i as int).map_values(
                    |s: Statement| statement_model(s),
                ));
            }
            assert(statements@.take(i as int) =~= statements@);
            Ok(nodes)
        },
        Err(diagnostic) => Err(diagnostic),
    }
}

/// Validates SQL texts against one policy, parsing them with one dialect.
pub struct QueryValidator {
    policy: SafetyPolicy,
    dialect: SqlDialect,
}

impl QueryValidator {
    /// The policy that the validator enforces.
    pub closed spec fn policy(&self) -> SafetyPolicy {
        self.policy
    }

    /// The dialect that the validator parses with.
    pub closed spec fn dialect(&self) -> SqlDialect {
        self.dialect
    }

    /// A validator for a profile's policy and database type.
    pub fn new(policy: SafetyPolicy, db_type: &str) -> (validator: Self)
        ensures
            validator.policy() == policy,
            validator.dialect() == SqlDialect::for_database(db_type@),
    {
        QueryValidator { policy, dialect: SqlDialect::from_database_type(db_type) }
    }

    /// Parses `sql` and holds it to the policy: the text to run, with the
    /// default limit added where a batch of queries names none, or the
    /// reason why the text must not run.
    pub fn validate(&self, sql: &str) -> (outcome: ValidationOutcome)
        ensures
            outcome_view(outcome) == validation_outcome(self.policy(), self.dialect(), sql@),
    {
        match parse(self.dialect, sql) {
            Ok(statements) => self.validate_statements(sql, &statements),
            Err(diagnostic) => Err(ValidationError::SyntaxError(diagnostic)),
        }
    }

    /// Holds a text that parsed into `statements` to the policy.
    pub fn validate_statements(&self, sql: &str, statements: &Vec<ParsedStatement>) -> (outcome:
        ValidationOutcome)
        ensures
            outcome_view(outcome) == statements_outcome(self.policy(), sql@, statements@),
    {
        if statements.len() == 0 {
            return Err(ValidationError::EmptyQuery);
        }
        let mut i: usize = 0;
        assert(statements@.skip(0) =~= statements@);
        while i < statements.len()
            invariant
                i <= statements.len(),
                rejection(self.policy.allowed(), statements@) == rejection(
                    self.policy.allowed(),
                    statements@.skip(i as int),
                ),
            decreases statements.len() - i,
        {
            assert(statements@.skip(i as int).drop_first() =~= statements@.skip(i + 1));
            match self.validate_statement_type(&statements[i]) {
                Ok(()) => {},
                Err(error) => {
                    return Err(error);
                },
            }
            i += 1;
        }
        self.apply_limit_policy(sql, statements)
    }

    /// Holds one statement to the allow-list.
    fn validate_statement_type(&self, statement: &ParsedStatement) -> (outcome: Result<
        (),
        ValidationError,
    >)
        ensures
            outcome is Ok ==> class_rejection(self.policy.allowed(), statement.class) is None,
            outcome matches Err(error) ==> class_rejection(
                self.policy.allowed(),
                statement.class,
            ) == Some(error@),
    {
        if statement.class == StatementClass::Unsupported {
            return Err(ValidationError::UnsupportedStatement);
        }
        if !self.policy.permits_class(statement.class) {
            let permitted = self.policy.allowed_operations.clone();
            assert(permitted@ =~= self.policy.allowed_operations@);
            return Err(
                ValidationError::OperationNotAllowed { operation: statement.class, permitted },
            );
        }
        Ok(())
    }

    /// Applies the row limits to a batch that passed the allow-list.
    fn apply_limit_policy(&self, sql: &str, statements: &Vec<ParsedStatement>) -> (outcome:
        ValidationOutcome)
        ensures
            outcome_view(outcome) == limit_outcome(self.policy, sql@, statements@),
    {
        let mut i: usize = 0;
        while i < statements.len()
            invariant
                i <= statements.len(),
                forall|j: int|
                    0 <= j < i ==> (#[trigger] statements@[j]).class == StatementClass::Select,
            decreases statements.len() - i,
        {
            if statements[i].class != StatementClass::Select {
                return Ok(sql.to_owned());
            }
            i += 1;
        }
        match self.extract_limit(statements) {
            Some(requested) => {
                if requested > self.policy.max_limit as u64 {
                    Err(ValidationError::LimitExceeded { requested, max: self.policy.max_limit })
                } else {
                    Ok(sql.to_owned())
                }
            },
            None => {
                let mut chars = chars_of(sql);
                let kept = len_without_trailing(&chars, ';');
                chars.truncate(kept);
                push_str_chars(&mut chars, " LIMIT ");
                push_decimal(&mut chars, self.policy.default_limit as u64);
                Ok(string_from_chars(&chars))
            },
        }
    }

    /// The limit that decides on a batch: the first literal limit above
    /// the ceiling, else the first literal limit.
    fn extract_limit(&self, statements: &Vec<ParsedStatement>) -> (limit: Option<u64>)
        ensures
            limit == requested_limit(statements@, self.policy.max_limit),
    {
        let mut first: Option<u64> = None;
        let mut i: usize = 0;
        assert(statements@.skip(0) =~= statements@);
        while i < statements.len()
            invariant
                i <= statements.len(),
                first_excess(statements@, self.policy.max_limit) == first_excess(
                    statements@.skip(i as int),
                    self.policy.max_limit,
                ),
                first_limit(statements@) == match first {
                    Some(limit) => Some(limit),
                    None => first_limit(statements@.skip(i as int)),
                },
            decreases statements.len() - i,
        {
            assert(statements@.skip(i as int).drop_first() =~= statements@.skip(i + 1));
            assert(statements@.skip(i as int)[0] == statements@[i as int]);
            match statements[i].limit {
                Some(limit) => {
                    if limit > self.policy.max_limit as u64 {
                        return Some(limit);
                    }
                    if first.is_none() {
                        first = Some(limit);
                    }
                },
                None => {},
            }
            i += 1;
        }
        first
    }
}

/// Classes are told apart by their names, letter case aside.
pub proof fn lemma_names_tell_classes_apart(first: StatementClass, second: StatementClass)
    requires
        first != second,
    ensures
        !same_ignoring_ascii_case(first.name_text(), second.name_text()),
{
    reveal_strlit("SELECT");
    reveal_strlit("EXPLAIN");
    reveal_strlit("SHOW");
    reveal_strlit("INSERT");
    reveal_strlit("UPDATE");
    reveal_strlit("DELETE");
    reveal_strlit("CREATE");
    reveal_strlit("DROP");
    reveal_strlit("ALTER");
    reveal_strlit("TRUNCATE");
    reveal_strlit("UNSUPPORTED");
    let a = first.name_text();
    let b = second.name_text();
    if a.len() == b.len() {
        assert(crate::text::ascii_folded(a[0]) != crate::text::ascii_folded(b[0]));
    }
}

/// No grant is implied: an allow-list whose entries all name one class
/// grants no other class.
pub proof fn lemma_no_implicit_grant(
    allowed: Seq<Seq<char>>,
    granted: StatementClass,
    other: StatementClass,
)
    requires
        forall|i: int|
            0 <= i < allowed.len() ==> same_ignoring_ascii_case(
                #[trigger] allowed[i],
                granted.name_text(),
            ),
        other != granted,
    ensures
        !permits(allowed, other),
{
    lemma_names_tell_classes_apart(granted, other);
    if permits(allowed, other) {
        let i = choose|i: int|
            0 <= i < allowed.len() && same_ignoring_ascii_case(
                #[trigger] allowed[i],
                other.name_text(),
            );
        let entry = allowed[i];
        let a = granted.name_text();
        let b = other.name_text();
        assert(same_ignoring_ascii_case(entry, a));
        assert forall|k: int| 0 <= k < a.len() implies crate::text::ascii_folded(
            #[trigger] a[k],
        ) == crate::text::ascii_folded(b[k]) by {
            assert(crate::text::ascii_folded(entry[k]) == crate::text::ascii_folded(a[k]));
            assert(crate::text::ascii_folded(entry[k]) == crate::text::ascii_folded(b[k]));
        }
        assert(same_ignoring_ascii_case(a, b));
    }
}

/// No statement of the batch names a literal limit.
pub open spec fn no_limit(statements: Seq<ParsedStatement>) -> bool {
    forall|i: int| 0 <= i < statements.len() ==> (#[trigger] statements[i]).limit is None
}

/// Every literal limit of the batch is within the ceiling.
pub open spec fn limits_within(statements: Seq<ParsedStatement>, max_limit: u32) -> bool {
    forall|i: int|
        0 <= i < statements.len() ==> !exceeds((#[trigger] statements[i]).limit, max_limit)
}

/// A batch of queries that the policy grants and of which none names a
/// literal limit comes back as the text without its trailing semicolons,
/// followed by one `LIMIT` clause with the policy's default. What is dropped
/// from the text consists of semicolons alone.
pub proof fn lemma_default_limit_appended(
    policy: SafetyPolicy,
    sql: Seq<char>,
    statements: Seq<ParsedStatement>,
)
    requires
        statements.len() > 0,
        all_select(statements),
        permits(policy.allowed(), StatementClass::Select),
        no_limit(statements),
    ensures
        statements_outcome(policy, sql, statements) == ValidationOutcomeView::Ok(
            without_trailing(sql, ';') + " LIMIT "@ + decimal_text(policy.default_limit as nat),
        ),
        without_trailing(sql, ';') == sql.take(without_trailing(sql, ';').len() as int),
        forall|i: int| without_trailing(sql, ';').len() <= i < sql.len() ==> sql[i] == ';',
{
    lemma_queries_pass(policy.allowed(), statements);
    lemma_limits(statements, policy.max_limit);
    crate::text::lemma_without_trailing_is_prefix(sql, ';');
}

/// A batch of queries that the policy grants, that names a literal limit
/// and whose literal limits are all within the ceiling comes back
/// unchanged.
pub proof fn lemma_literal_limit_checked(
    policy: SafetyPolicy,
    sql: Seq<char>,
    statements: Seq<ParsedStatement>,
)
    requires
        all_select(statements),
        permits(policy.allowed(), StatementClass::Select),
        !no_limit(statements),
        limits_within(statements, policy.max_limit),
    ensures
        statements_outcome(policy, sql, statements) == ValidationOutcomeView::Ok(sql),
{
    lemma_queries_pass(policy.allowed(), statements);
    lemma_limits(statements, policy.max_limit);
}

/// A batch of queries that the policy grants fails where any of its
/// queries names a literal limit above the ceiling, whichever query that
/// is: the error carries the first such limit, and the ceiling.
pub proof fn lemma_limit_above_ceiling_fails(
    policy: SafetyPolicy,
    sql: Seq<char>,
    statements: Seq<ParsedStatement>,
    i: int,
    requested: u64,
)
    requires
        all_select(statements),
        permits(policy.allowed(), StatementClass::Select),
        0 <= i < statements.len(),
        statements[i].limit == Some(requested),
        requested > policy.max_limit,
        limits_within(statements.take(i), policy.max_limit),
    ensures
        statements_outcome(policy, sql, statements) == ValidationOutcomeView::Err(
            (ValidationErrorView::LimitExceeded { requested, max: policy.max_limit }),
        ),
{
    lemma_queries_pass(policy.allowed(), statements);
    lemma_first_excess_at(statements, policy.max_limit, i);
}

/// A batch of queries is accepted only with every literal limit within the
/// ceiling. It then comes back unchanged where it names a literal limit,
/// and with the default limit where it names none; under a well-formed
/// policy that default is within the ceiling too.
pub proof fn lemma_accepted_limit_within_ceiling(
    policy: SafetyPolicy,
    sql: Seq<char>,
    statements: Seq<ParsedStatement>,
)
    requires
        all_select(statements),
        statements_outcome(policy, sql, statements) is Ok,
    ensures
        limits_within(statements, policy.max_limit),
        !no_limit(statements) ==> statements_outcome(policy, sql, statements)
            == ValidationOutcomeView::Ok(sql),
        no_limit(statements) ==> statements_outcome(policy, sql, statements)
            == ValidationOutcomeView::Ok(with_limit(sql, policy.default_limit)) && (
        policy.well_formed() ==> policy.default_limit <= policy.max_limit),
{
    lemma_limits(statements, policy.max_limit);
}

/// A batch that holds a statement whose class the allow-list does not name
/// never comes back as SQL: it fails at the first statement that the
/// allow-list turns away.
pub proof fn lemma_absent_class_fails(
    policy: SafetyPolicy,
    sql: Seq<char>,
    statements: Seq<ParsedStatement>,
    i: int,
)
    requires
        0 <= i < statements.len(),
        !permits(policy.allowed(), statements[i].class),
    ensures
        statements_outcome(policy, sql, statements) is Err,
        rejection(policy.allowed(), statements) is Some,
        statements_outcome(policy, sql, statements) == ValidationOutcomeView::Err(
            rejection(policy.allowed(), statements)->0,
        ),
{
    lemma_rejection_found(policy.allowed(), statements, i);
}

/// Where the first statement that the allow-list turns away is of a class
/// that the validator knows, the failure names that class and the whole
/// allow-list.
pub proof fn lemma_absent_class_named(
    policy: SafetyPolicy,
    sql: Seq<char>,
    statements: Seq<ParsedStatement>,
    i: int,
)
    requires
        0 <= i < statements.len(),
        forall|j: int|
            0 <= j < i ==> class_rejection(policy.allowed(), (#[trigger] statements[j]).class)
                is None,
        !permits(policy.allowed(), statements[i].class),
        statements[i].class != StatementClass::Unsupported,
    ensures
        statements_outcome(policy, sql, statements) == ValidationOutcomeView::Err(
            (ValidationErrorView::OperationNotAllowed {
                operation: statements[i].class,
                permitted: policy.allowed(),
            }),
        ),
{
    lemma_rejection_at(policy.allowed(), statements, i);
}

proof fn lemma_queries_pass(allowed: Seq<Seq<char>>, statements: Seq<ParsedStatement>)
    requires
        all_select(statements),
        permits(allowed, StatementClass::Select),
    ensures
        rejection(allowed, statements) is None,
    decreases statements.len(),
{
    if statements.len() > 0 {
        assert(statements[0].class == StatementClass::Select);
        assert forall|i: int| 0 <= i < statements.drop_first().len() implies (
        #[trigger] statements.drop_first()[i]).class == StatementClass::Select by {
            assert(statements.drop_first()[i] == statements[i + 1]);
        }
        lemma_queries_pass(allowed, statements.drop_first());
    }
}

proof fn lemma_rejection_found(
    allowed: Seq<Seq<char>>,
    statements: Seq<ParsedStatement>,
    i: int,
)
    requires
        0 <= i < statements.len(),
        class_rejection(allowed, statements[i].class) is Some,
    ensures
        rejection(allowed, statements) is Some,
    decreases i,
{
    if i > 0 && class_rejection(allowed, statements[0].class) is None {
        assert(statements.drop_first()[i - 1] == statements[i]);
        lemma_rejection_found(allowed, statements.drop_first(), i - 1);
    }
}

proof fn lemma_rejection_at(allowed: Seq<Seq<char>>, statements: Seq<ParsedStatement>, i: int)
    requires
        0 <= i < statements.len(),
        forall|j: int|
            0 <= j < i ==> class_rejection(allowed, (#[trigger] statements[j]).class) is None,
        class_rejection(allowed, statements[i].class) is Some,
    ensures
        rejection(allowed, statements) == class_rejection(allowed, statements[i].class),
    decreases i,
{
    if i > 0 {
        assert(class_rejection(allowed, statements[0].class) is None);
        assert(statements.drop_first()[i - 1] == statements[i]);
        assert forall|j: int| 0 <= j < i - 1 implies class_rejection(
            allowed,
            (#[trigger] statements.drop_first()[j]).class,
        ) is None by {
            assert(statements.drop_first()[j] == statements[j + 1]);
        }
        lemma_rejection_at(allowed, statements.drop_first(), i - 1);
    }
}

proof fn lemma_limits(statements: Seq<ParsedStatement>, max_limit: u32)
    ensures
        first_limit(statements) is None <==> no_limit(statements),
        first_excess(statements, max_limit) is None <==> limits_within(statements, max_limit),
        exceeds(first_excess(statements, max_limit), max_limit) || first_excess(
            statements,
            max_limit,
        ) is None,
        first_excess(statements, max_limit) is None ==> !exceeds(
            first_limit(statements),
            max_limit,
        ),
    decreases statements.len(),
{
    if statements.len() > 0 {
        let rest = statements.drop_first();
        lemma_limits(rest, max_limit);
        assert forall|i: int| 0 <= i < rest.len() implies #[trigger] rest[i] == statements[i
            + 1] by {}
        if no_limit(rest) && statements[0].limit is None {
            assert forall|i: int| 0 <= i < statements.len() implies (
            #[trigger] statements[i]).limit is None by {
                if i > 0 {
                    assert(rest[i - 1] == statements[i]);
                }
            }
        }
        if no_limit(statements) {
            assert(statements[0].limit is None);
            assert forall|i: int| 0 <= i < rest.len() implies (#[trigger] rest[i]).limit
                is None by {
                assert(rest[i] == statements[i + 1]);
            }
        }
        if limits_within(rest, max_limit) && !exceeds(statements[0].limit, max_limit) {
            assert forall|i: int| 0 <= i < statements.len() implies !exceeds(
                (#[trigger] statements[i]).limit,
                max_limit,
            ) by {
                if i > 0 {
                    assert(rest[i - 1] == statements[i]);
                }
            }
        }
        if limits_within(statements, max_limit) {
            assert(!exceeds(statements[0].limit, max_limit));
            assert forall|i: int| 0 <= i < rest.len() implies !exceeds(
                (#[trigger] rest[i]).limit,
                max_limit,
            ) by {
                assert(rest[i] == statements[i + 1]);
            }
        }
    }
}

proof fn lemma_first_excess_at(statements: Seq<ParsedStatement>, max_limit: u32, i: int)
    requires
        0 <= i < statements.len(),
        exceeds(statements[i].limit, max_limit),
        limits_within(statements.take(i), max_limit),
    ensures
        first_excess(statements, max_limit) == statements[i].limit,
    decreases i,
{
    if i > 0 {
        let rest = statements.drop_first();
        assert(statements.take(i)[0] == statements[0]);
        assert(rest[i - 1] == statements[i]);
        assert forall|j: int| 0 <= j < i - 1 implies !exceeds(
            (#[trigger] rest.take(i - 1)[j]).limit,
            max_limit,
        ) by {
            assert(rest.take(i - 1)[j] == statements.take(i)[j + 1]);
        }
        lemma_first_excess_at(rest, max_limit, i - 1);
    }
}

} // verus!
