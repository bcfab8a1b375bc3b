use sqlsurge::types::SqlType;
use sqlsurge::types::TypeCompatibility;

#[test]
fn test_type_compatibility() {
    assert_eq!(
        SqlType::SmallInt.is_compatible_with(&SqlType::Integer),
        TypeCompatibility::ImplicitCast
    );
    assert_eq!(
        SqlType::Integer.is_compatible_with(&SqlType::Integer),
        TypeCompatibility::Exact
    );
}

#[test]
fn compatibility_is_reflexive_on_sample_types() {
    let samples = vec![
        SqlType::TinyInt,
        SqlType::BigInt,
        SqlType::Decimal { precision: Some(10), scale: Some(2) },
        SqlType::Varchar { length: Some(100) },
        SqlType::Text,
        SqlType::Boolean,
        SqlType::Uuid,
        SqlType::Array(Box::new(SqlType::Integer)),
        SqlType::Custom("mpaa_rating".to_string()),
    ];
    for t in &samples {
        assert_eq!(t.is_compatible_with(t), TypeCompatibility::Exact);
    }
}

#[test]
fn widening_chain_is_implicit_in_order() {
    let chain = vec![
        SqlType::TinyInt,
        SqlType::SmallInt,
        SqlType::MediumInt,
        SqlType::Integer,
        SqlType::BigInt,
        SqlType::Real,
        SqlType::DoublePrecision,
    ];
    for i in 0..chain.len() {
        for j in (i + 1)..chain.len() {
            assert_eq!(
                chain[i].is_compatible_with(&chain[j]),
                TypeCompatibility::ImplicitCast,
                "expected implicit cast from {} to {}",
                chain[i].display_name(),
                chain[j].display_name()
            );
        }
    }
}

#[test]
fn unrelated_families_need_explicit_cast() {
    assert_eq!(
        SqlType::Integer.is_compatible_with(&SqlType::Text),
        TypeCompatibility::ExplicitCast
    );
    assert_eq!(
        SqlType::Text.is_compatible_with(&SqlType::Integer),
        TypeCompatibility::ExplicitCast
    );
    assert_eq!(
        SqlType::BigInt.is_compatible_with(&SqlType::Integer),
        TypeCompatibility::ExplicitCast
    );
    assert_eq!(
        SqlType::Json.is_compatible_with(&SqlType::Jsonb),
        TypeCompatibility::ImplicitCast
    );
    assert_eq!(
        SqlType::Jsonb.is_compatible_with(&SqlType::Json),
        TypeCompatibility::ExplicitCast
    );
    assert_eq!(
        SqlType::Char { length: Some(10) }.is_compatible_with(&SqlType::Text),
        TypeCompatibility::ImplicitCast
    );
    assert_eq!(
        SqlType::Varchar { length: Some(10) }.is_compatible_with(&SqlType::Text),
        TypeCompatibility::ImplicitCast
    );
}

#[test]
fn display_names_render_exactly() {
    assert_eq!(SqlType::Integer.display_name(), "integer");
    assert_eq!(
        SqlType::Decimal { precision: Some(10), scale: Some(2) }.display_name(),
        "numeric(10,2)"
    );
    assert_eq!(SqlType::Decimal { precision: Some(8), scale: None }.display_name(), "numeric(8)");
    assert_eq!(SqlType::Decimal { precision: None, scale: None }.display_name(), "numeric");
    assert_eq!(SqlType::Varchar { length: Some(255) }.display_name(), "varchar(255)");
    assert_eq!(SqlType::Char { length: None }.display_name(), "char");
    assert_eq!(
        SqlType::Timestamp { precision: None, with_timezone: true }.display_name(),
        "timestamp with time zone"
    );
    assert_eq!(
        SqlType::Array(Box::new(SqlType::Integer)).display_name(),
        "integer[]"
    );
    assert_eq!(SqlType::Custom("mood".to_string()).display_name(), "mood");
    assert_eq!(SqlType::DoublePrecision.display_name(), "double precision");
}

#[test]
fn structural_equality_looks_into_parameters() {
    assert_eq!(
        SqlType::Decimal { precision: Some(10), scale: Some(2) },
        SqlType::Decimal { precision: Some(10), scale: Some(2) }
    );
    assert_ne!(
        SqlType::Decimal { precision: Some(10), scale: Some(2) },
        SqlType::Decimal { precision: Some(10), scale: Some(3) }
    );
    assert_eq!(
        SqlType::Array(Box::new(SqlType::Text)),
        SqlType::Array(Box::new(SqlType::Text))
    );
    assert_ne!(
        SqlType::Array(Box::new(SqlType::Text)),
        SqlType::Array(Box::new(SqlType::Integer))
    );
    assert_eq!(SqlType::Custom("a".to_string()), SqlType::Custom("a".to_string()));
    assert_ne!(SqlType::Custom("a".to_string()), SqlType::Custom("b".to_string()));
}

#[test]
fn serial_aliases_resolve_to_integer_types() {
    assert_eq!(SqlType::from_custom_name("serial".to_string()), SqlType::Integer);
    assert_eq!(SqlType::from_custom_name("SERIAL".to_string()), SqlType::Integer);
    assert_eq!(SqlType::from_custom_name("serial4".to_string()), SqlType::Integer);
    assert_eq!(SqlType::from_custom_name("bigserial".to_string()), SqlType::BigInt);
    assert_eq!(SqlType::from_custom_name("serial8".to_string()), SqlType::BigInt);
    assert_eq!(SqlType::from_custom_name("smallserial".to_string()), SqlType::SmallInt);
    assert_eq!(SqlType::from_custom_name("serial2".to_string()), SqlType::SmallInt);
    assert_eq!(
        SqlType::from_custom_name("mpaa_rating".to_string()),
        SqlType::Custom("mpaa_rating".to_string())
    );
}
