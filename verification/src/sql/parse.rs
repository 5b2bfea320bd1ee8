//! Parsing, classification and the search for table names.

use crate::response::http_error::{bad_request, unprocessable_entity, Exception};
use crate::sql::ast::{
    all_queries, ctes_tables, expr_tables, from_tables, joins_tables, query_tables,
    selection_tables, statements_tables, table_factor_tables, table_with_joins_tables,
    ColumnDefinition, CommonTable, Condition, FromItem, JoinedRelation, QueryBody, Relation,
    SelectBody, SqlQuery, SqlStatement, TableDefinition,
};
use crate::sql::schema::SQLType;
use crate::sql::sql_error::{syntax_error_text, SQLError};
use crate::text::texts;
use vstd::prelude::*;
use vstd::string::*;

verus! {

/// `sqlparser::ast::Statement`, a statement as the parser hands it out.
/// Nothing is known of what it holds.
#[verifier::external_type_specification]
#[verifier::external_body]
pub struct ExParsedStatement(sqlparser::ast::Statement);

/// `sqlparser::ast::Query`. Nothing is known of what it holds.
#[verifier::external_type_specification]
#[verifier::external_body]
pub struct ExParsedQuery(sqlparser::ast::Query);

/// `sqlparser::ast::SetExpr`, the body of a query. Nothing is known of
/// what it holds.
#[verifier::external_type_specification]
#[verifier::external_body]
pub struct ExParsedSetExpr(sqlparser::ast::SetExpr);

/// `sqlparser::ast::TableWithJoins`, an item of a `FROM` clause. Nothing
/// is known of what it holds.
#[verifier::external_type_specification]
#[verifier::external_body]
pub struct ExParsedTableWithJoins(sqlparser::ast::TableWithJoins);

/// `sqlparser::ast::TableFactor`, a relation of a `FROM` clause. Nothing
/// is known of what it holds.
#[verifier::external_type_specification]
#[verifier::external_body]
pub struct ExParsedTableFactor(sqlparser::ast::TableFactor);

/// `sqlparser::ast::Expr`, an expression. Nothing is known of what it
/// holds.
#[verifier::external_type_specification]
#[verifier::external_body]
pub struct ExParsedExpr(sqlparser::ast::Expr);

/// `sqlparser::ast::CreateTable`, a table definition. Nothing is known of
/// what it holds.
#[verifier::external_type_specification]
#[verifier::external_body]
pub struct ExParsedCreateTable(sqlparser::ast::CreateTable);

/// What `sqlparser::parser::Parser::parse_sql` makes of a text under the
/// ANSI dialect: the statements, cut down to the tree of this library, or
/// the parser's message.
pub uninterp spec fn parsed_sql(sql: Seq<char>) -> Result<Seq<SqlStatement>, Seq<char>>;

/// Runs `sqlparser::parser::Parser::parse_sql` with
/// `sqlparser::dialect::AnsiDialect` and hands back its statements, each cut
/// down to the tree of this library, or the text of its error. The contract
/// claims that the outcome depends on the text alone.
#[verifier::external_body]
pub(crate) fn parse_statements(sql: &str) -> (r: Result<Vec<SqlStatement>, String>)
    ensures
        match r {
            Ok(list) => parsed_sql(sql@) == Ok::<Seq<SqlStatement>, Seq<char>>(list@),
            Err(message) => parsed_sql(sql@) == Err::<Seq<SqlStatement>, Seq<char>>(message@),
        },
{
    match sqlparser::parser::Parser::parse_sql(&sqlparser::dialect::AnsiDialect {}, sql) {
        Ok(list) => Ok(list.iter().map(statement_of).collect()),
        Err(error) => Err(error.to_string()),
    }
}

/// Tells the variants of `sqlparser::ast::Statement` apart: a query, a
/// table definition, anything else.
#[verifier::external_body]
fn statement_of(statement: &sqlparser::ast::Statement) -> SqlStatement {
    match statement {
        sqlparser::ast::Statement::Query(query) => SqlStatement::Query(query_of(query)),
        sqlparser::ast::Statement::CreateTable(table) => SqlStatement::CreateTable(
            create_table_of(table),
        ),
        _ => SqlStatement::Other,
    }
}

/// Keeps of a `sqlparser::ast::Query` its common table expressions and its
/// body.
#[verifier::external_body]
fn query_of(query: &sqlparser::ast::Query) -> SqlQuery {
    let with = match &query.with {
        Some(with) => with.cte_tables.iter().map(|cte| CommonTable { query: query_of(&cte.query) }).collect(),
        None => Vec::new(),
    };
    SqlQuery { with, body: set_expr_of(&query.body) }
}

/// Tells the variants of `sqlparser::ast::SetExpr` apart: a `SELECT`, of
/// which the `FROM` and `WHERE` clauses are kept, a parenthesised query,
/// anything else.
#[verifier::external_body]
fn set_expr_of(body: &sqlparser::ast::SetExpr) -> QueryBody {
    match body {
        sqlparser::ast::SetExpr::Select(select) => QueryBody::Select(
            SelectBody {
                from: select.from.iter().map(table_with_joins_of).collect(),
                selection: select.selection.as_ref().map(expr_of),
            },
        ),
        sqlparser::ast::SetExpr::Query(query) => QueryBody::Query(Box::new(query_of(query))),
        _ => QueryBody::Other,
    }
}

/// Keeps of a `sqlparser::ast::TableWithJoins` its relation and the
/// relations of its joins.
#[verifier::external_body]
fn table_with_joins_of(item: &sqlparser::ast::TableWithJoins) -> FromItem {
    FromItem {
        relation: table_factor_of(&item.relation),
        joins: item.joins.iter().map(|join| JoinedRelation { relation: table_factor_of(&join.relation) }).collect(),
    }
}

/// Tells the variants of `sqlparser::ast::TableFactor` apart: a named
/// table, with the name as `sqlparser::ast::ObjectName` displays it, a
/// derived table, anything else.
#[verifier::external_body]
fn table_factor_of(factor: &sqlparser::ast::TableFactor) -> Relation {
    match factor {
        sqlparser::ast::TableFactor::Table { name, .. } => Relation::Table {
            name: name.to_string(),
        },
        sqlparser::ast::TableFactor::Derived { subquery, .. } => Relation::Derived {
            subquery: Box::new(query_of(subquery)),
        },
        _ => Relation::Other,
    }
}

/// Tells the variants of `sqlparser::ast::Expr` apart: the three that hold
/// a subquery, a binary operation, anything else.
#[verifier::external_body]
fn expr_of(expr: &sqlparser::ast::Expr) -> Condition {
    match expr {
        sqlparser::ast::Expr::Subquery(query) => Condition::Subquery(Box::new(query_of(query))),
        sqlparser::ast::Expr::BinaryOp { left, right, .. } => Condition::BinaryOp {
            left: Box::new(expr_of(left)),
            right: Box::new(expr_of(right)),
        },
        sqlparser::ast::Expr::Exists { subquery, .. } => Condition::Exists {
            subquery: Box::new(query_of(subquery)),
        },
        sqlparser::ast::Expr::InSubquery { subquery, .. } => Condition::InSubquery {
            subquery: Box::new(query_of(subquery)),
        },
        _ => Condition::Other,
    }
}

/// Keeps of a `sqlparser::ast::CreateTable` the name, the columns with
/// their types, the location, the comment that follows the columns and
/// the plain options, each as `sqlparser` displays it.
#[verifier::external_body]
fn create_table_of(table: &sqlparser::ast::CreateTable) -> TableDefinition {
    TableDefinition {
        name: table.name.to_string(),
        columns: table.columns.iter().map(|column| ColumnDefinition {
            name: column.name.to_string(),
            data_type: column.data_type.to_string(),
        }).collect(),
        location: table.hive_formats.as_ref().and_then(|formats| formats.location.clone()),
        comment: table.comment.as_ref().map(|comment| comment.to_string()),
        plain_options: plain_options_of(table),
    }
}

/// Hands out the plain options of a `sqlparser::ast::CreateTable`, one
/// for one: of a `sqlparser::ast::SqlOption::Comment` the comment as
/// `sqlparser` displays it, of any other option nothing. Options of
/// another kind than plain ones give an empty list.
#[verifier::external_body]
fn plain_options_of(table: &sqlparser::ast::CreateTable) -> Vec<Option<String>> {
    match &table.table_options {
        sqlparser::ast::CreateTableOptions::Plain(options) => options.iter().map(|option| match option {
            sqlparser::ast::SqlOption::Comment(comment) => Some(comment.to_string()),
            _ => None,
        }).collect(),
        _ => Vec::new(),
    }
}

/// Parses a text into statements. A text that is not SQL is a bad request
/// that carries the parser's message.
pub fn parse_sql(sql: &str) -> (r: Result<Vec<SqlStatement>, Exception>)
    ensures
        match parsed_sql(sql@) {
            Ok(statements) => r matches Ok(list) && list@ == statements,
            Err(message) => r matches Err(e) && e@ == bad_request(message),
        },
{
    match parse_statements(sql) {
        Ok(list) => Ok(list),
        Err(message) => Err(Exception::BadRequest { message }),
    }
}

/// What [`table_names_of`] returns for a statement list and its text.
pub open spec fn table_names_result(statements: Seq<SqlStatement>, sql: Seq<char>) -> Result<
    Seq<Seq<char>>,
    crate::response::http_error::ExceptionView,
> {
    if all_queries(statements) {
        Ok(statements_tables(statements))
    } else {
        Err(bad_request(syntax_error_text("Only supports Select syntax."@, sql)))
    }
}

/// The tables that a list of statements names, in order. Every statement
/// has to be a query; otherwise the text is reported as a bad request.
pub fn table_names_of(statements: &Vec<SqlStatement>, sql: &str) -> (r: Result<
    Vec<String>,
    Exception,
>)
    ensures
        match table_names_result(statements@, sql@) {
            Ok(names) => r matches Ok(list) && texts(list@) == names,
            Err(failure) => r matches Err(e) && e@ == failure,
        },
{
    let mut table_names: Vec<String> = Vec::new();
    let n = statements.len();
    let mut i: usize = 0;
    while i < n
        invariant
            i <= n,
            n == statements.len(),
            all_queries(statements@.subrange(0, i as int)),
            texts(table_names@) == statements_tables(statements@.subrange(0, i as int)),
        decreases n - i,
    {
        let ghost before = statements@.subrange(0, i as int);
        let ghost next = statements@.subrange(0, i + 1);
        proof {
            assert(next.drop_last() =~= before);
        }
        match &statements[i] {
            SqlStatement::Query(query) => {
                extract_table_names_from_query(query, &mut table_names);
                proof {
                    assert forall|j: int| 0 <= j < next.len() implies #[trigger] next[j]
                        is Query by {
                    }
                }
            },
            _ => {
                return Err(
                    Exception::from(SQLError::sql_syntax_error("Only supports Select syntax.", sql)),
                );
            },
        }
        i += 1;
    }
    proof {
        assert(statements@.subrange(0, n as int) =~= statements@);
    }
    Ok(table_names)
}

/// The tables that a text names, in order.
pub fn get_table_names(sql: &str) -> (r: Result<Vec<String>, Exception>)
    ensures
        match parsed_sql(sql@) {
            Ok(statements) => match table_names_result(statements, sql@) {
                Ok(names) => r matches Ok(list) && texts(list@) == names,
                Err(failure) => r matches Err(e) && e@ == failure,
            },
            Err(message) => r matches Err(e) && e@ == bad_request(message),
        },
{
    match parse_sql(sql) {
        Ok(statements) => table_names_of(&statements, sql),
        Err(e) => Err(e),
    }
}

/// Appends the tables that `query` names to `table_names`.
pub fn extract_table_names_from_query(query: &SqlQuery, table_names: &mut Vec<String>)
    ensures
        texts(final(table_names)@) == texts(old(table_names)@) + query_tables(*query),
    decreases query,
{
    let ghost start = texts(table_names@);
    match &query.body {
        QueryBody::Select(select) => {
            extract_table_names_from_ctes(&query.with, table_names);
            extract_table_names_from_from_clause(&select.from, table_names);
            match &select.selection {
                Some(selection) => {
                    extract_table_names_from_expr(selection, table_names);
                },
                None => {
                    assert(texts(table_names@) + Seq::<Seq<char>>::empty() =~= texts(
                        table_names@,
                    ));
                },
            }
            proof {
                let sel = selection_tables(select.selection);
                assert(start + ctes_tables(query.with@) + from_tables(select.from@) + sel
                    =~= start + (ctes_tables(query.with@) + from_tables(select.from@) + sel));
            }
        },
        QueryBody::Query(inner) => {
            extract_table_names_from_ctes(&query.with, table_names);
            extract_table_names_from_query(inner, table_names);
            proof {
                assert(start + ctes_tables(query.with@) + query_tables(**inner) =~= start + (
                ctes_tables(query.with@) + query_tables(**inner)));
            }
        },
        QueryBody::Other => {
            extract_table_names_from_ctes(&query.with, table_names);
        },
    }
}

/// Appends the tables that the bodies of `ctes` name to `table_names`.
pub fn extract_table_names_from_ctes(ctes: &Vec<CommonTable>, table_names: &mut Vec<String>)
    ensures
        texts(final(table_names)@) == texts(old(table_names)@) + ctes_tables(ctes@),
    decreases ctes,
{
    let ghost start = texts(table_names@);
    let n = ctes.len();
    let mut i: usize = 0;
    while i < n
        invariant
            i <= n,
            n == ctes.len(),
            texts(table_names@) == start + ctes_tables(ctes@.subrange(0, i as int)),
        decreases n - i,
    {
        let ghost before = ctes@.subrange(0, i as int);
        let ghost next = ctes@.subrange(0, i + 1);
        extract_table_names_from_query(&ctes[i].query, table_names);
        proof {
            assert(next.drop_last() =~= before);
        }
        i += 1;
    }
    proof {
        assert(ctes@.subrange(0, n as int) =~= ctes@);
    }
}

/// Appends the tables that the items of a `FROM` clause name to
/// `table_names`.
pub fn extract_table_names_from_from_clause(
    from: &Vec<FromItem>,
    table_names: &mut Vec<String>,
)
    ensures
        texts(final(table_names)@) == texts(old(table_names)@) + from_tables(from@),
    decreases from,
{
    let ghost start = texts(table_names@);
    let n = from.len();
    let mut i: usize = 0;
    while i < n
        invariant
            i <= n,
            n == from.len(),
            texts(table_names@) == start + from_tables(from@.subrange(0, i as int)),
        decreases n - i,
    {
        let ghost before = from@.subrange(0, i as int);
        let ghost next = from@.subrange(0, i + 1);
        extract_table_names_from_table_with_joins(&from[i], table_names);
        proof {
            assert(next.drop_last() =~= before);
        }
        i += 1;
    }
    proof {
        assert(from@.subrange(0, n as int) =~= from@);
    }
}

/// Appends the tables of one `FROM` item to `table_names`: those of its
/// first relation, then those of its joins.
pub fn extract_table_names_from_table_with_joins(
    table_with_joins: &FromItem,
    table_names: &mut Vec<String>,
)
    ensures
        texts(final(table_names)@) == texts(old(table_names)@) + table_with_joins_tables(
            *table_with_joins,
        ),
    decreases table_with_joins,
{
    extract_table_names_from_table_factor(&table_with_joins.relation, table_names);
    let ghost first = texts(table_names@);
    let joins = &table_with_joins.joins;
    let n = joins.len();
    let mut i: usize = 0;
    while i < n
        invariant
            i <= n,
            n == joins.len(),
            joins == &table_with_joins.joins,
            texts(table_names@) == first + joins_tables(joins@.subrange(0, i as int)),
        decreases n - i,
    {
        let ghost before = joins@.subrange(0, i as int);
        let ghost next = joins@.subrange(0, i + 1);
        extract_table_names_from_table_factor(&joins[i].relation, table_names);
        proof {
            assert(next.drop_last() =~= before);
        }
        i += 1;
    }
    proof {
        assert(joins@.subrange(0, n as int) =~= joins@);
    }
}

/// Appends the tables of one relation to `table_names`: its name, or the
/// tables of its subquery.
pub fn extract_table_names_from_table_factor(
    table_factor: &Relation,
    table_names: &mut Vec<String>,
)
    ensures
        texts(final(table_names)@) == texts(old(table_names)@) + table_factor_tables(
            *table_factor,
        ),
    decreases table_factor,
{
    match table_factor {
        Relation::Table { name } => {
            table_names.push(name.clone());
        },
        Relation::Derived { subquery } => {
            extract_table_names_from_query(subquery, table_names);
        },
        Relation::Other => {},
    }
}

/// Appends the tables of the subqueries of `expr` to `table_names`.
pub fn extract_table_names_from_expr(expr: &Condition, table_names: &mut Vec<String>)
    ensures
        texts(final(table_names)@) == texts(old(table_names)@) + expr_tables(*expr),
    decreases expr,
{
    match expr {
        Condition::Subquery(query) => {
            extract_table_names_from_query(query, table_names);
        },
        Condition::BinaryOp { left, right } => {
            extract_table_names_from_expr(left, table_names);
            extract_table_names_from_expr(right, table_names);
        },
        Condition::Exists { subquery } => {
            extract_table_names_from_query(subquery, table_names);
        },
        Condition::InSubquery { subquery } => {
            extract_table_names_from_query(subquery, table_names);
        },
        Condition::Other => {},
    }
}

/// What [`sql_type_of`] returns for a statement list and its text.
pub open spec fn sql_type_result(statements: Seq<SqlStatement>, sql: Seq<char>) -> Result<
    SQLType,
    crate::response::http_error::ExceptionView,
> {
    if statements.len() == 0 {
        Err(bad_request(syntax_error_text("SQL parsing error: statements are empty"@, sql)))
    } else {
        match statements[0] {
            SqlStatement::Query(_) => Ok(SQLType::DML),
            SqlStatement::CreateTable(_) => Ok(SQLType::DDL),
            SqlStatement::Other => Err(
                unprocessable_entity(
                    "Currently, only the Select and Create statements are supported."@,
                ),
            ),
        }
    }
}

/// The intent of a statement list, read off its first statement: a query
/// manipulates data, a table definition defines it. An empty list is a bad
/// request, any other first statement cannot be processed.
pub fn sql_type_of(statements: &Vec<SqlStatement>, sql: &str) -> (r: Result<SQLType, Exception>)
    ensures
        match sql_type_result(statements@, sql@) {
            Ok(kind) => r == Ok::<SQLType, Exception>(kind),
            Err(failure) => r matches Err(e) && e@ == failure,
        },
{
    if statements.len() == 0 {
        return Err(
            Exception::from(
                SQLError::sql_syntax_error("SQL parsing error: statements are empty", sql),
            ),
        );
    }
    match &statements[0] {
        SqlStatement::Query(_) => Ok(SQLType::DML),
        SqlStatement::CreateTable(_) => Ok(SQLType::DDL),
        SqlStatement::Other => Err(
            Exception::unprocessable_entity_error(
                "Currently, only the Select and Create statements are supported.",
            ),
        ),
    }
}

/// The statements of a text, with their intent.
pub fn get_sql_type(sql: &str) -> (r: Result<(Vec<SqlStatement>, SQLType), Exception>)
    ensures
        match parsed_sql(sql@) {
            Ok(statements) => match sql_type_result(statements, sql@) {
                Ok(kind) => r matches Ok(pair) && pair.0@ == statements && pair.1 == kind,
                Err(failure) => r matches Err(e) && e@ == failure,
            },
            Err(message) => r matches Err(e) && e@ == bad_request(message),
        },
{
    let statements = parse_sql(sql)?;
    match sql_type_of(&statements, sql) {
        Ok(kind) => Ok((statements, kind)),
        Err(e) => Err(e),
    }
}

} // verus!
