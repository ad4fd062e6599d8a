//! Queries: what a caller may ask of the data of a hive.
//!
//! This module defines the request and the means to build one. To run a
//! request against a grid is the work of a query executor that this library
//! does not contain.

use vstd::prelude::*;
use crate::error::HiveError;
use crate::float_bits::FloatBits;
use crate::text_map::TextMap;

verus! {

/// What a query does.
#[derive(Debug, Clone, Copy, PartialEq, Eq, Structural)]
pub enum QueryType {
    /// Find data.
    Find,
    /// Insert new data.
    Insert,
    /// Update data.
    Update,
    /// Delete data.
    Delete,
    /// Count the data that matches.
    Count,
    /// Aggregate data.
    Aggregate,
}

/// How a field is compared with a value.
#[derive(Debug, Clone, Copy, PartialEq, Eq, Structural)]
pub enum ComparisonOperator {
    /// Equal to.
    Eq,
    /// Not equal to.
    Ne,
    /// Greater than.
    Gt,
    /// Greater than or equal to.
    Gte,
    /// Less than.
    Lt,
    /// Less than or equal to.
    Lte,
}

/// A condition on where a field lies on the globe.
#[derive(Debug)]
pub enum GeoFilter {
    /// Within `radius` of `center`.
    Near { field: String, center: (FloatBits, FloatBits), radius: FloatBits },
    /// Within the box from `min` to `max`.
    Within { field: String, min: (FloatBits, FloatBits), max: (FloatBits, FloatBits) },
}

/// A condition that data has to meet.
#[derive(Debug)]
pub enum FilterExpression {
    /// A field compared with a value.
    Comparison(ComparisonOperator, String, serde_json::Value),
    /// All of the conditions.
    And(Vec<FilterExpression>),
    /// At least one of the conditions.
    Or(Vec<FilterExpression>),
    /// Not the condition.
    Not(Box<FilterExpression>),
    /// A field is there, or is not.
    Exists(String, bool),
    /// A field matches a pattern.
    Pattern(String, String),
    /// A field has one of the values.
    In(String, Vec<serde_json::Value>),
    /// A condition on where a field lies on the globe.
    Geo(GeoFilter),
}

/// In which order results are sorted.
#[derive(Debug, Clone, Copy, PartialEq, Eq, Structural)]
pub enum SortDirection {
    /// The least first.
    Ascending,
    /// The greatest first.
    Descending,
}

/// One criterion by which results are sorted.
#[derive(Debug)]
pub struct SortCriteria {
    /// The field to sort by.
    pub field: String,
    /// In which order to sort.
    pub direction: SortDirection,
}

/// A query.
#[derive(Debug)]
pub struct Query {
    /// What the query does.
    pub query_type: QueryType,
    /// The collection or pattern of cells that the query is about.
    pub target: String,
    /// The condition that data has to meet.
    pub filter: Option<FilterExpression>,
    /// The fields to return.
    pub projection: Option<Vec<String>>,
    /// How to sort the results.
    pub sort: Option<Vec<SortCriteria>>,
    /// How many results to return at most.
    pub limit: Option<usize>,
    /// How many results to skip.
    pub skip: Option<usize>,
    /// The data to insert or to update with.
    pub data: Option<serde_json::Value>,
    /// Further options.
    pub options: TextMap,
}

/// What a query returned.
#[derive(Debug)]
pub struct QueryResult {
    /// What the query did.
    pub query_type: QueryType,
    /// The results.
    pub results: Vec<serde_json::Value>,
    /// The number of results.
    pub count: usize,
    /// Whether there are more results than were returned.
    pub has_more: bool,
    /// How long the query ran, in milliseconds.
    pub execution_time_ms: u64,
}

impl Query {
    /// A query of the given kind about `target`, without condition,
    /// projection, order, bounds, data or options.
    pub fn new(query_type: QueryType, target: String) -> (query: Query)
        ensures
            query.query_type == query_type,
            query.target == target,
            query.filter is None,
            query.projection is None,
            query.sort is None,
            query.limit is None,
            query.skip is None,
            query.data is None,
            query.options@ == Map::<Seq<char>, Seq<char>>::empty(),
    {
        Query {
            query_type,
            target,
            filter: None,
            projection: None,
            sort: None,
            limit: None,
            skip: None,
            data: None,
            options: TextMap::new(),
        }
    }

    /// This query with `filter` as its condition.
    pub fn with_filter(self, filter: FilterExpression) -> (query: Query)
        ensures
            query == (Query { filter: Some(filter), ..self }),
    {
        let mut query = self;
        query.filter = Some(filter);
        query
    }

    /// This query with `fields` as the fields to return.
    pub fn with_projection(self, fields: Vec<String>) -> (query: Query)
        ensures
            query == (Query { projection: Some(fields), ..self }),
    {
        let mut query = self;
        query.projection = Some(fields);
        query
    }

    /// This query with `criteria` as its order.
    pub fn with_sort(self, criteria: Vec<SortCriteria>) -> (query: Query)
        ensures
            query == (Query { sort: Some(criteria), ..self }),
    {
        let mut query = self;
        query.sort = Some(criteria);
        query
    }

    /// This query with at most `limit` results.
    pub fn with_limit(self, limit: usize) -> (query: Query)
        ensures
            query == (Query { limit: Some(limit), ..self }),
    {
        let mut query = self;
        query.limit = Some(limit);
        query
    }

    /// This query with the first `skip` results left out.
    pub fn with_skip(self, skip: usize) -> (query: Query)
        ensures
            query == (Query { skip: Some(skip), ..self }),
    {
        let mut query = self;
        query.skip = Some(skip);
        query
    }

    /// This query with `data` to insert or to update with.
    pub fn with_data(self, data: serde_json::Value) -> (query: Query)
        ensures
            query == (Query { data: Some(data), ..self }),
    {
        let mut query = self;
        query.data = Some(data);
        query
    }

    /// This query with the option `key` set to `value`.
    pub fn with_option(self, key: String, value: String) -> (query: Query)
        ensures
            query.options@ == self.options@.insert(key@, value@),
            query.query_type == self.query_type,
            query.target == self.target,
            query.filter == self.filter,
            query.projection == self.projection,
            query.sort == self.sort,
            query.limit == self.limit,
            query.skip == self.skip,
            query.data == self.data,
    {
        let mut query = self;
        let _ = query.options.insert(key, value);
        query
    }

    /// Runs this query. No query executor is attached, so this fails with
    /// `NotImplemented`.
    pub fn execute(&self) -> (outcome: Result<QueryResult, HiveError>)
        ensures
            outcome matches Err(e) && e is NotImplemented,
    {
        Err(HiveError::NotImplemented)
    }
}

/// The parser of the query language.
#[derive(Debug)]
pub struct HqlParser;

impl HqlParser {
    /// Reads a query written in the query language. No parser is attached, so
    /// this fails with `NotImplemented`.
    pub fn parse(hql: &str) -> (outcome: Result<Query, HiveError>)
        ensures
            outcome matches Err(e) && e is NotImplemented,
    {
        Err(HiveError::NotImplemented)
    }
}

/// The executor of queries.
#[derive(Debug)]
pub struct QueryExecutor;

impl QueryExecutor {
    /// Runs `query`. No query executor is attached, so this fails with
    /// `NotImplemented`.
    pub fn execute(query: &Query) -> (outcome: Result<QueryResult, HiveError>)
        ensures
            outcome matches Err(e) && e is NotImplemented,
    {
        Err(HiveError::NotImplemented)
    }
}

/// The comparison of `field` with `value` by `operator`.
fn comparison(operator: ComparisonOperator, field: &str, value: serde_json::Value) -> (filter:
    FilterExpression)
    ensures
        filter matches FilterExpression::Comparison(op, name, operand) && op == operator && name@
            == field@ && operand == value,
{
    FilterExpression::Comparison(operator, field.to_owned(), value)
}

/// The condition that `field` equals `value`.
pub fn eq(field: &str, value: serde_json::Value) -> (filter: FilterExpression)
    ensures
        filter matches FilterExpression::Comparison(op, name, operand) && op
            == ComparisonOperator::Eq && name@ == field@ && operand == value,
{
    comparison(ComparisonOperator::Eq, field, value)
}

/// The condition that `field` does not equal `value`.
pub fn ne(field: &str, value: serde_json::Value) -> (filter: FilterExpression)
    ensures
        filter matches FilterExpression::Comparison(op, name, operand) && op
            == ComparisonOperator::Ne && name@ == field@ && operand == value,
{
    comparison(ComparisonOperator::Ne, field, value)
}

/// The condition that `field` is greater than `value`.
pub fn gt(field: &str, value: serde_json::Value) -> (filter: FilterExpression)
    ensures
        filter matches FilterExpression::Comparison(op, name, operand) && op
            == ComparisonOperator::Gt && name@ == field@ && operand == value,
{
    comparison(ComparisonOperator::Gt, field, value)
}

/// The condition that `field` is greater than or equal to `value`.
pub fn gte(field: &str, value: serde_json::Value) -> (filter: FilterExpression)
    ensures
        filter matches FilterExpression::Comparison(op, name, operand) && op
            == ComparisonOperator::Gte && name@ == field@ && operand == value,
{
    comparison(ComparisonOperator::Gte, field, value)
}

/// The condition that `field` is less than `value`.
pub fn lt(field: &str, value: serde_json::Value) -> (filter: FilterExpression)
    ensures
        filter matches FilterExpression::Comparison(op, name, operand) && op
            == ComparisonOperator::Lt && name@ == field@ && operand == value,
{
    comparison(ComparisonOperator::Lt, field, value)
}

/// The condition that `field` is less than or equal to `value`.
pub fn lte(field: &str, value: serde_json::Value) -> (filter: FilterExpression)
    ensures
        filter matches FilterExpression::Comparison(op, name, operand) && op
            == ComparisonOperator::Lte && name@ == field@ && operand == value,
{
    comparison(ComparisonOperator::Lte, field, value)
}

/// The condition that all of `expressions` hold.
pub fn and(expressions: Vec<FilterExpression>) -> (filter: FilterExpression)
    ensures
        filter == FilterExpression::And(expressions),
{
    FilterExpression::And(expressions)
}

/// The condition that at least one of `expressions` holds.
pub fn or(expressions: Vec<FilterExpression>) -> (filter: FilterExpression)
    ensures
        filter == FilterExpression::Or(expressions),
{
    FilterExpression::Or(expressions)
}

/// The condition that `expression` does not hold.
pub fn not(expression: FilterExpression) -> (filter: FilterExpression)
    ensures
        filter == FilterExpression::Not(Box::new(expression)),
{
    FilterExpression::Not(Box::new(expression))
}

} // verus!
