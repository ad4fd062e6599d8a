use hivedb::error::HiveError;
use hivedb::float_bits::FloatBits;
use hivedb::query::{
    and, eq, gt, gte, lt, lte, ne, not, or, ComparisonOperator, FilterExpression, GeoFilter,
    HqlParser, Query, QueryExecutor, QueryType, SortCriteria, SortDirection,
};
use serde_json::Value;

#[test]
fn test_query_builder() {
    let query = Query::new(QueryType::Find, "users".to_string())
        .with_filter(eq("age", Value::from(30)))
        .with_projection(vec!["name".to_string(), "email".to_string()])
        .with_sort(vec![SortCriteria {
            field: "name".to_string(),
            direction: SortDirection::Ascending,
        }])
        .with_limit(10)
        .with_skip(0);

    assert_eq!(query.query_type, QueryType::Find);
    assert_eq!(query.target, "users");

    if let Some(FilterExpression::Comparison(op, field, value)) = &query.filter {
        assert_eq!(*op, ComparisonOperator::Eq);
        assert_eq!(field, "age");
        assert_eq!(value, &Value::from(30));
    } else {
        panic!("Expected Comparison filter");
    }

    assert_eq!(query.projection, Some(vec!["name".to_string(), "email".to_string()]));
    assert_eq!(query.limit, Some(10));
    assert_eq!(query.skip, Some(0));
}

#[test]
fn test_complex_filter() {
    let filter = and(vec![
        eq("status", Value::from("active")),
        or(vec![gt("age", Value::from(18)), eq("verified", Value::from(true))]),
    ]);

    if let FilterExpression::And(conditions) = &filter {
        assert_eq!(conditions.len(), 2);

        if let FilterExpression::Comparison(op, field, value) = &conditions[0] {
            assert_eq!(*op, ComparisonOperator::Eq);
            assert_eq!(field, "status");
            assert_eq!(value, &Value::from("active"));
        } else {
            panic!("Expected Comparison filter");
        }

        if let FilterExpression::Or(or_conditions) = &conditions[1] {
            assert_eq!(or_conditions.len(), 2);

            if let FilterExpression::Comparison(op, field, value) = &or_conditions[0] {
                assert_eq!(*op, ComparisonOperator::Gt);
                assert_eq!(field, "age");
                assert_eq!(value, &Value::from(18));
            } else {
                panic!("Expected Comparison filter");
            }

            if let FilterExpression::Comparison(op, field, value) = &or_conditions[1] {
                assert_eq!(*op, ComparisonOperator::Eq);
                assert_eq!(field, "verified");
                assert_eq!(value, &Value::from(true));
            } else {
                panic!("Expected Comparison filter");
            }
        } else {
            panic!("Expected Or filter");
        }
    } else {
        panic!("Expected And filter");
    }
}

#[test]
fn new_query_is_bare() {
    let query = Query::new(QueryType::Count, "cells".to_string());
    assert_eq!(query.query_type, QueryType::Count);
    assert_eq!(query.target, "cells");
    assert!(query.filter.is_none());
    assert!(query.projection.is_none());
    assert!(query.sort.is_none());
    assert!(query.limit.is_none());
    assert!(query.skip.is_none());
    assert!(query.data.is_none());
    assert!(query.options.is_empty());
}

#[test]
fn builders_set_one_part_each() {
    let query = Query::new(QueryType::Insert, "t".to_string())
        .with_data(Value::from("payload"))
        .with_option("timeout".to_string(), "5".to_string())
        .with_option("mode".to_string(), "fast".to_string())
        .with_option("timeout".to_string(), "9".to_string())
        .with_skip(3)
        .with_limit(4);
    assert_eq!(query.data, Some(Value::from("payload")));
    assert_eq!(query.options.get("timeout"), Some(&"9".to_string()));
    assert_eq!(query.options.get("mode"), Some(&"fast".to_string()));
    assert_eq!(query.options.get("other"), None);
    assert_eq!(query.skip, Some(3));
    assert_eq!(query.limit, Some(4));
    assert_eq!(query.query_type, QueryType::Insert);
    assert_eq!(query.target, "t");
    assert!(query.filter.is_none());
    let sorted = query.with_sort(vec![SortCriteria {
        field: "f".to_string(),
        direction: SortDirection::Descending,
    }]);
    let criteria = sorted.sort.as_ref().unwrap();
    assert_eq!(criteria.len(), 1);
    assert_eq!(criteria[0].field, "f");
    assert_eq!(criteria[0].direction, SortDirection::Descending);
    assert_eq!(sorted.skip, Some(3));
}

#[test]
fn comparison_helpers_use_their_operator() {
    let cases = [
        (eq("f", Value::from(1)), ComparisonOperator::Eq),
        (ne("f", Value::from(1)), ComparisonOperator::Ne),
        (gt("f", Value::from(1)), ComparisonOperator::Gt),
        (gte("f", Value::from(1)), ComparisonOperator::Gte),
        (lt("f", Value::from(1)), ComparisonOperator::Lt),
        (lte("f", Value::from(1)), ComparisonOperator::Lte),
    ];
    for (filter, expected) in cases {
        match filter {
            FilterExpression::Comparison(op, field, value) => {
                assert_eq!(op, expected);
                assert_eq!(field, "f");
                assert_eq!(value, Value::from(1));
            }
            other => panic!("expected a comparison, got {:?}", other),
        }
    }
}

#[test]
fn not_wraps_its_expression() {
    match not(eq("f", Value::Null)) {
        FilterExpression::Not(inner) => match *inner {
            FilterExpression::Comparison(op, field, value) => {
                assert_eq!(op, ComparisonOperator::Eq);
                assert_eq!(field, "f");
                assert_eq!(value, Value::Null);
            }
            other => panic!("expected a comparison, got {:?}", other),
        },
        other => panic!("expected a negation, got {:?}", other),
    }
    match and(Vec::new()) {
        FilterExpression::And(parts) => assert!(parts.is_empty()),
        other => panic!("expected a conjunction, got {:?}", other),
    }
    match or(Vec::new()) {
        FilterExpression::Or(parts) => assert!(parts.is_empty()),
        other => panic!("expected a disjunction, got {:?}", other),
    }
}

#[test]
fn geo_filters_carry_their_numbers() {
    let near = GeoFilter::Near {
        field: "place".to_string(),
        center: (FloatBits::from_bits(48.5f64.to_bits()), FloatBits::from_bits((-2.25f64).to_bits())),
        radius: FloatBits::from_bits(10.0f64.to_bits()),
    };
    match FilterExpression::Geo(near) {
        FilterExpression::Geo(GeoFilter::Near { field, center, radius }) => {
            assert_eq!(field, "place");
            assert_eq!(f64::from_bits(center.0.to_bits()), 48.5);
            assert_eq!(f64::from_bits(center.1.to_bits()), -2.25);
            assert_eq!(f64::from_bits(radius.to_bits()), 10.0);
        }
        other => panic!("expected a geo filter, got {:?}", other),
    }
}

#[test]
fn nothing_executes_queries() {
    let query = Query::new(QueryType::Find, "cells".to_string());
    match query.execute() {
        Err(HiveError::NotImplemented) => {}
        other => panic!("expected not-implemented, got {:?}", other.map(|r| r.count)),
    }
    match QueryExecutor::execute(&query) {
        Err(HiveError::NotImplemented) => {}
        other => panic!("expected not-implemented, got {:?}", other.map(|r| r.count)),
    }
    match HqlParser::parse("FIND cells") {
        Err(HiveError::NotImplemented) => {}
        other => panic!("expected not-implemented, got {:?}", other.map(|q| q.target)),
    }
}
