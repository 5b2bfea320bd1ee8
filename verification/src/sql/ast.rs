//! The statement tree, cut down to what table resolution reads.
//!
//! A statement is a query, a table definition or something else. Of a query
//! only the places where a table can be named are kept: the `FROM` clause
//! with its joins and derived tables, the `WHERE` clause as far as it holds
//! subqueries, the common table expressions, and a parenthesised query body.

use vstd::prelude::*;

verus! {

/// One statement of a text.
#[derive(Debug, PartialEq, Eq)]
pub enum SqlStatement {
    Query(SqlQuery),
    CreateTable(TableDefinition),
    /// Any other kind of statement.
    Other,
}

/// A query: a body, with the common table expressions in front of it.
#[derive(Debug, PartialEq, Eq)]
pub struct SqlQuery {
    /// The common table expressions of the `WITH` clause, in order.
    pub with: Vec<CommonTable>,
    pub body: QueryBody,
}

/// A common table expression, of which the query is kept.
#[derive(Debug, PartialEq, Eq)]
pub struct CommonTable {
    pub query: SqlQuery,
}

/// The body of a query.
#[derive(Debug, PartialEq, Eq)]
pub enum QueryBody {
    Select(SelectBody),
    /// A parenthesised query.
    Query(Box<SqlQuery>),
    /// A set operation, a value list or anything else.
    Other,
}

/// A `SELECT`, of which the `FROM` and the `WHERE` clause are kept.
#[derive(Debug, PartialEq, Eq)]
pub struct SelectBody {
    pub from: Vec<FromItem>,
    /// The `WHERE` clause.
    pub selection: Option<Condition>,
}

/// One item of a `FROM` clause: a relation and what is joined to it.
#[derive(Debug, PartialEq, Eq)]
pub struct FromItem {
    pub relation: Relation,
    pub joins: Vec<JoinedRelation>,
}

/// A join, of which the joined relation is kept.
#[derive(Debug, PartialEq, Eq)]
pub struct JoinedRelation {
    pub relation: Relation,
}

/// What a `FROM` clause selects from.
#[derive(Debug, PartialEq, Eq)]
pub enum Relation {
    /// A table named in the text, written as the text has it, quotes
    /// included.
    Table { name: String },
    Derived { subquery: Box<SqlQuery> },
    /// A table function or anything else.
    Other,
}

/// An expression of a `WHERE` clause, as far as it can hold subqueries.
#[derive(Debug, PartialEq, Eq)]
pub enum Condition {
    Subquery(Box<SqlQuery>),
    BinaryOp { left: Box<Condition>, right: Box<Condition> },
    Exists { subquery: Box<SqlQuery> },
    InSubquery { subquery: Box<SqlQuery> },
    /// An expression of a kind that is not searched for tables.
    Other,
}

/// A `CREATE TABLE` statement, as far as the catalog keeps it.
#[derive(Debug, PartialEq, Eq)]
pub struct TableDefinition {
    pub name: String,
    pub columns: Vec<ColumnDefinition>,
    /// The text of the `LOCATION` clause.
    pub location: Option<String>,
    /// The comment that follows the columns.
    pub comment: Option<String>,
    /// The options that follow the other clauses without a keyword in
    /// front of them, in order: of each its comment, if it is one.
    pub plain_options: Vec<Option<String>>,
}

/// The first comment among options.
pub open spec fn first_comment(options: Seq<Option<String>>) -> Option<Seq<char>>
    decreases options.len(),
{
    if options.len() == 0 {
        None
    } else {
        match options[0] {
            Some(comment) => Some(comment@),
            None => first_comment(options.drop_first()),
        }
    }
}

impl TableDefinition {
    /// The comment of the table: the one that follows the columns, or
    /// else the first among the options that follow the other clauses.
    pub open spec fn table_comment_text(self) -> Option<Seq<char>> {
        match self.comment {
            Some(comment) => Some(comment@),
            None => first_comment(self.plain_options@),
        }
    }

    /// The comment of the table, if it has one.
    pub fn table_comment(&self) -> (comment: Option<String>)
        ensures
            (match comment {
                Some(text) => Some(text@),
                None => None,
            }) == self.table_comment_text(),
    {
        match &self.comment {
            Some(comment) => {
                return Some(comment.clone());
            },
            None => {},
        }
        let n = self.plain_options.len();
        let mut i: usize = 0;
        proof {
            assert(self.plain_options@.subrange(0, n as int) =~= self.plain_options@);
        }
        while i < n
            invariant
                i <= n,
                n == self.plain_options.len(),
                self.comment is None,
                first_comment(self.plain_options@.subrange(i as int, n as int)) == first_comment(
                    self.plain_options@,
                ),
            decreases n - i,
        {
            let ghost rest = self.plain_options@.subrange(i as int, n as int);
            proof {
                assert(rest[0] == self.plain_options[i as int]);
                assert(rest.drop_first() =~= self.plain_options@.subrange(i + 1, n as int));
            }
            match &self.plain_options[i] {
                Some(comment) => {
                    return Some(comment.clone());
                },
                None => {},
            }
            i += 1;
        }
        None
    }
}

/// A column of a table definition: its name and its type, both as the
/// parser renders them.
#[derive(Debug, PartialEq, Eq)]
pub struct ColumnDefinition {
    pub name: String,
    pub data_type: String,
}

/// The tables that a query names, depth first and in the order in which
/// the text has them: those of its common table expressions, then those
/// of its `FROM` clause, then those of its `WHERE` clause, or those of a
/// parenthesised body. A table named twice is listed twice.
pub open spec fn query_tables(query: SqlQuery) -> Seq<Seq<char>>
    decreases query,
{
    match query.body {
        QueryBody::Select(select) => ctes_tables(query.with@) + from_tables(select.from@)
            + selection_tables(select.selection),
        QueryBody::Query(inner) => ctes_tables(query.with@) + query_tables(*inner),
        QueryBody::Other => ctes_tables(query.with@),
    }
}

/// The tables of the subqueries of a `WHERE` clause, where there is one.
pub open spec fn selection_tables(selection: Option<Condition>) -> Seq<Seq<char>>
    decreases selection,
{
    match selection {
        Some(condition) => expr_tables(condition),
        None => Seq::empty(),
    }
}

/// The tables that the bodies of common table expressions name, in order.
pub open spec fn ctes_tables(ctes: Seq<CommonTable>) -> Seq<Seq<char>>
    decreases ctes,
{
    if ctes.len() == 0 {
        Seq::empty()
    } else {
        ctes_tables(ctes.drop_last()) + query_tables(ctes.last().query)
    }
}

/// The tables that the items of a `FROM` clause name, in order.
pub open spec fn from_tables(from: Seq<FromItem>) -> Seq<Seq<char>>
    decreases from,
{
    if from.len() == 0 {
        Seq::empty()
    } else {
        from_tables(from.drop_last()) + table_with_joins_tables(from.last())
    }
}

/// The tables of one `FROM` item: its first relation, then its joins.
pub open spec fn table_with_joins_tables(item: FromItem) -> Seq<Seq<char>>
    decreases item,
{
    table_factor_tables(item.relation) + joins_tables(item.joins@)
}

/// The tables that joined relations name, in order.
pub open spec fn joins_tables(joins: Seq<JoinedRelation>) -> Seq<Seq<char>>
    decreases joins,
{
    if joins.len() == 0 {
        Seq::empty()
    } else {
        joins_tables(joins.drop_last()) + table_factor_tables(joins.last().relation)
    }
}

/// The tables of one relation: its name, or the tables of its subquery.
pub open spec fn table_factor_tables(factor: Relation) -> Seq<Seq<char>>
    decreases factor,
{
    match factor {
        Relation::Table { name } => seq![name@],
        Relation::Derived { subquery } => query_tables(*subquery),
        Relation::Other => Seq::empty(),
    }
}

/// The tables of the subqueries of an expression, left operand first.
pub open spec fn expr_tables(expr: Condition) -> Seq<Seq<char>>
    decreases expr,
{
    match expr {
        Condition::Subquery(query) => query_tables(*query),
        Condition::BinaryOp { left, right } => expr_tables(*left) + expr_tables(*right),
        Condition::Exists { subquery } => query_tables(*subquery),
        Condition::InSubquery { subquery } => query_tables(*subquery),
        Condition::Other => Seq::empty(),
    }
}

/// Every statement of the list is a query.
pub open spec fn all_queries(statements: Seq<SqlStatement>) -> bool {
    forall|i: int| 0 <= i < statements.len() ==> #[trigger] statements[i] is Query
}

/// The tables that the queries of a statement list name, in order.
pub open spec fn statements_tables(statements: Seq<SqlStatement>) -> Seq<Seq<char>>
    decreases statements.len(),
{
    if statements.len() == 0 {
        Seq::empty()
    } else {
        statements_tables(statements.drop_last()) + (match statements.last() {
            SqlStatement::Query(query) => query_tables(query),
            _ => Seq::empty(),
        })
    }
}

/// The tables of common table expressions are the tables of their
/// queries, one expression after the other.
pub proof fn lemma_ctes_tables_in_order(ctes: Seq<CommonTable>)
    ensures
        ctes_tables(ctes) == ctes.map_values(|cte: CommonTable| query_tables(cte.query)).flatten(),
    decreases ctes.len(),
{
    let each = ctes.map_values(|cte: CommonTable| query_tables(cte.query));
    if ctes.len() > 0 {
        lemma_ctes_tables_in_order(ctes.drop_last());
        let earlier = ctes.drop_last().map_values(|cte: CommonTable| query_tables(cte.query));
        assert(each =~= earlier.push(query_tables(ctes.last().query)));
        earlier.lemma_flatten_push(query_tables(ctes.last().query));
    }
}

/// The tables of a `FROM` clause are the tables of its items, one item
/// after the other.
pub proof fn lemma_from_tables_in_order(from: Seq<FromItem>)
    ensures
        from_tables(from) == from.map_values(
            |item: FromItem| table_with_joins_tables(item),
        ).flatten(),
    decreases from.len(),
{
    let each = from.map_values(|item: FromItem| table_with_joins_tables(item));
    if from.len() > 0 {
        lemma_from_tables_in_order(from.drop_last());
        let earlier = from.drop_last().map_values(|item: FromItem| table_with_joins_tables(item));
        assert(each =~= earlier.push(table_with_joins_tables(from.last())));
        earlier.lemma_flatten_push(table_with_joins_tables(from.last()));
    }
}

/// The tables of joins are the tables of the joined relations, one join
/// after the other.
pub proof fn lemma_joins_tables_in_order(joins: Seq<JoinedRelation>)
    ensures
        joins_tables(joins) == joins.map_values(
            |join: JoinedRelation| table_factor_tables(join.relation),
        ).flatten(),
    decreases joins.len(),
{
    let each = joins.map_values(|join: JoinedRelation| table_factor_tables(join.relation));
    if joins.len() > 0 {
        lemma_joins_tables_in_order(joins.drop_last());
        let earlier = joins.drop_last().map_values(
            |join: JoinedRelation| table_factor_tables(join.relation),
        );
        assert(each =~= earlier.push(table_factor_tables(joins.last().relation)));
        earlier.lemma_flatten_push(table_factor_tables(joins.last().relation));
    }
}

/// A `SELECT` names its tables in the order in which its text has them:
/// first those of each common table expression, then those of each item
/// of the `FROM` clause, joins and derived tables in their place, then
/// those of the subqueries of the `WHERE` clause. None is left out and
/// none is added.
pub proof fn lemma_select_tables_in_order(query: SqlQuery)
    requires
        query.body is Select,
    ensures
        query_tables(query) == query.with@.map_values(
            |cte: CommonTable| query_tables(cte.query),
        ).flatten() + query.body->Select_0.from@.map_values(
            |item: FromItem| table_with_joins_tables(item),
        ).flatten() + selection_tables(query.body->Select_0.selection),
{
    lemma_ctes_tables_in_order(query.with@);
    lemma_from_tables_in_order(query.body->Select_0.from@);
}

/// The relation is a table of the given name.
pub open spec fn is_table(relation: Relation, name: Seq<char>) -> bool {
    relation matches Relation::Table { name: found } && found@ == name
}

/// The items of a `FROM` clause are tables without joins, of the given
/// names.
pub open spec fn lists_tables(from: Seq<FromItem>, names: Seq<Seq<char>>) -> bool {
    &&& from.len() == names.len()
    &&& forall|i: int|
        0 <= i < from.len() ==> is_table((#[trigger] from[i]).relation, names[i])
            && from[i].joins@.len() == 0
}

/// The joined relations are tables of the given names.
pub open spec fn joins_tables_named(joins: Seq<JoinedRelation>, names: Seq<Seq<char>>) -> bool {
    &&& joins.len() == names.len()
    &&& forall|i: int| 0 <= i < joins.len() ==> is_table((#[trigger] joins[i]).relation, names[i])
}

/// A `FROM` clause that lists tables names exactly those tables, in the
/// order in which it lists them.
pub proof fn lemma_listed_tables(from: Seq<FromItem>, names: Seq<Seq<char>>)
    requires
        lists_tables(from, names),
    ensures
        from_tables(from) == names,
    decreases from.len(),
{
    if from.len() == 0 {
    } else {
        let item = from.last();
        assert forall|i: int| 0 <= i < from.drop_last().len() implies is_table(
            (#[trigger] from.drop_last()[i]).relation,
            names.drop_last()[i],
        ) && from.drop_last()[i].joins@.len() == 0 by {
        }
        lemma_listed_tables(from.drop_last(), names.drop_last());
        assert(table_with_joins_tables(item) =~= seq![names.last()]);
    }
}

/// Joins of tables name exactly those tables, in the order of the joins.
pub proof fn lemma_joined_tables(joins: Seq<JoinedRelation>, names: Seq<Seq<char>>)
    requires
        joins_tables_named(joins, names),
    ensures
        joins_tables(joins) == names,
    decreases joins.len(),
{
    if joins.len() == 0 {
    } else {
        assert forall|i: int| 0 <= i < joins.drop_last().len() implies is_table(
            (#[trigger] joins.drop_last()[i]).relation,
            names.drop_last()[i],
        ) by {
        }
        lemma_joined_tables(joins.drop_last(), names.drop_last());
        assert(table_factor_tables(joins.last().relation) =~= seq![names.last()]);
    }
}

/// A query that selects from a list of tables, without a `WHERE` clause
/// and without common table expressions, names exactly the tables of the
/// list, each as often and in the order as the list has it.
pub proof fn lemma_select_from_tables(query: SqlQuery, names: Seq<Seq<char>>)
    requires
        query.with@.len() == 0,
        query.body matches QueryBody::Select(select) && select.selection is None && lists_tables(
            select.from@,
            names,
        ),
    ensures
        query_tables(query) == names,
{
    match query.body {
        QueryBody::Select(select) => {
            lemma_listed_tables(select.from@, names);
            assert(selection_tables(select.selection) =~= Seq::<Seq<char>>::empty());
            assert(ctes_tables(query.with@) =~= Seq::<Seq<char>>::empty());
        },
        _ => {},
    }
}

/// A query that selects from one table joined with others, without a
/// `WHERE` clause and without common table expressions, names the first
/// table and then the joined ones, in the order of the joins.
pub proof fn lemma_select_from_joins(query: SqlQuery, first: Seq<char>, joined: Seq<Seq<char>>)
    requires
        query.with@.len() == 0,
        query.body matches QueryBody::Select(select) && select.selection is None
            && select.from@.len() == 1 && is_table(select.from@[0].relation, first)
            && joins_tables_named(select.from@[0].joins@, joined),
    ensures
        query_tables(query) == seq![first] + joined,
{
    match query.body {
        QueryBody::Select(select) => {
            let item = select.from@[0];
            lemma_joined_tables(item.joins@, joined);
            assert(table_with_joins_tables(item) =~= seq![first] + joined);
            assert(from_tables(select.from@.drop_last()) =~= Seq::<Seq<char>>::empty());
            assert(selection_tables(select.selection) =~= Seq::<Seq<char>>::empty());
            assert(ctes_tables(query.with@) =~= Seq::<Seq<char>>::empty());
            assert(from_tables(select.from@) =~= seq![first] + joined);
        },
        _ => {},
    }
}

} // verus!
