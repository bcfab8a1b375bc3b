//! The SQL type system: a closed set of scalar/composite type tags and a
//! three-valued compatibility lattice.
//!
//! Two types compare as `Exact` when structurally identical, `ImplicitCast`
//! when a safe widening exists (smaller integer to larger integer to
//! floating point or decimal; narrower character type to wider character
//! type or text; json to jsonb), and `ExplicitCast` otherwise.

use vstd::prelude::*;

verus! {

use crate::strutil::eq_ignore_case;
use crate::strutil::spec_digits;
use crate::strutil::str_ieq;
use crate::strutil::u64_to_string;

/// Internal representation of SQL types.
#[derive(Debug)]
pub enum SqlType {
    TinyInt,
    SmallInt,
    MediumInt,
    Integer,
    BigInt,
    Decimal { precision: Option<u64>, scale: Option<u64> },
    Real,
    DoublePrecision,
    Char { length: Option<u64> },
    Varchar { length: Option<u64> },
    Text,
    Bytea,
    Date,
    Time { precision: Option<u64>, with_timezone: bool },
    Timestamp { precision: Option<u64>, with_timezone: bool },
    Interval,
    Boolean,
    Uuid,
    Json,
    Jsonb,
    Array(Box<SqlType>),
    Custom(String),
    Unknown,
}

/// Structural equality of two types, comparing custom type names by their
/// characters.
pub open spec fn type_eq(a: SqlType, b: SqlType) -> bool
    decreases a,
{
    match (a, b) {
        (SqlType::TinyInt, SqlType::TinyInt) => true,
        (SqlType::SmallInt, SqlType::SmallInt) => true,
        (SqlType::MediumInt, SqlType::MediumInt) => true,
        (SqlType::Integer, SqlType::Integer) => true,
        (SqlType::BigInt, SqlType::BigInt) => true,
        (
            SqlType::Decimal { precision: p1, scale: s1 },
            SqlType::Decimal { precision: p2, scale: s2 },
        ) => p1 == p2 && s1 == s2,
        (SqlType::Real, SqlType::Real) => true,
        (SqlType::DoublePrecision, SqlType::DoublePrecision) => true,
        (SqlType::Char { length: l1 }, SqlType::Char { length: l2 }) => l1 == l2,
        (SqlType::Varchar { length: l1 }, SqlType::Varchar { length: l2 }) => l1 == l2,
        (SqlType::Text, SqlType::Text) => true,
        (SqlType::Bytea, SqlType::Bytea) => true,
        (SqlType::Date, SqlType::Date) => true,
        (
            SqlType::Time { precision: p1, with_timezone: t1 },
            SqlType::Time { precision: p2, with_timezone: t2 },
        ) => p1 == p2 && t1 == t2,
        (
            SqlType::Timestamp { precision: p1, with_timezone: t1 },
            SqlType::Timestamp { precision: p2, with_timezone: t2 },
        ) => p1 == p2 && t1 == t2,
        (SqlType::Interval, SqlType::Interval) => true,
        (SqlType::Boolean, SqlType::Boolean) => true,
        (SqlType::Uuid, SqlType::Uuid) => true,
        (SqlType::Json, SqlType::Json) => true,
        (SqlType::Jsonb, SqlType::Jsonb) => true,
        (SqlType::Array(x), SqlType::Array(y)) => type_eq(*x, *y),
        (SqlType::Custom(n1), SqlType::Custom(n2)) => n1@ == n2@,
        (SqlType::Unknown, SqlType::Unknown) => true,
        _ => false,
    }
}

/// Whether a type belongs to the numeric family.
pub open spec fn spec_is_numeric(t: SqlType) -> bool {
    match t {
        SqlType::TinyInt
        | SqlType::SmallInt
        | SqlType::MediumInt
        | SqlType::Integer
        | SqlType::BigInt
        | SqlType::Real
        | SqlType::DoublePrecision
        | SqlType::Decimal { .. } => true,
        _ => false,
    }
}

/// Whether a type belongs to the integer family.
pub open spec fn spec_is_integer(t: SqlType) -> bool {
    match t {
        SqlType::TinyInt
        | SqlType::SmallInt
        | SqlType::MediumInt
        | SqlType::Integer
        | SqlType::BigInt => true,
        _ => false,
    }
}

/// The safe widening relation of the lattice, for non-identical types.
pub open spec fn spec_widens(a: SqlType, b: SqlType) -> bool {
    match (a, b) {
        (SqlType::TinyInt, SqlType::SmallInt) => true,
        (SqlType::TinyInt, SqlType::MediumInt) => true,
        (SqlType::TinyInt, SqlType::Integer) => true,
        (SqlType::TinyInt, SqlType::BigInt) => true,
        (SqlType::SmallInt, SqlType::MediumInt) => true,
        (SqlType::SmallInt, SqlType::Integer) => true,
        (SqlType::SmallInt, SqlType::BigInt) => true,
        (SqlType::MediumInt, SqlType::Integer) => true,
        (SqlType::MediumInt, SqlType::BigInt) => true,
        (SqlType::Integer, SqlType::BigInt) => true,
        (_, SqlType::Real) => spec_is_integer(a),
        (_, SqlType::DoublePrecision) => spec_is_integer(a) || a is Real,
        (_, SqlType::Decimal { .. }) => spec_is_integer(a),
        (SqlType::Char { .. }, SqlType::Varchar { .. }) => true,
        (SqlType::Char { .. }, SqlType::Text) => true,
        (SqlType::Varchar { .. }, SqlType::Text) => true,
        (SqlType::Json, SqlType::Jsonb) => true,
        _ => false,
    }
}

/// The outcome of the compatibility check between two types.
pub open spec fn spec_compat(a: SqlType, b: SqlType) -> TypeCompatibility {
    if type_eq(a, b) {
        TypeCompatibility::Exact
    } else if spec_widens(a, b) {
        TypeCompatibility::ImplicitCast
    } else {
        TypeCompatibility::ExplicitCast
    }
}

/// The human-readable name of a type.
pub open spec fn spec_display_name(t: SqlType) -> Seq<char>
    decreases t,
{
    match t {
        SqlType::TinyInt => "tinyint"@,
        SqlType::SmallInt => "smallint"@,
        SqlType::MediumInt => "mediumint"@,
        SqlType::Integer => "integer"@,
        SqlType::BigInt => "bigint"@,
        SqlType::Decimal { precision, scale } => match (precision, scale) {
            (Option::Some(p), Option::Some(s)) => "numeric("@ + spec_digits(p as nat) + ","@
                + spec_digits(s as nat) + ")"@,
            (Option::Some(p), Option::None) => "numeric("@ + spec_digits(p as nat) + ")"@,
            _ => "numeric"@,
        },
        SqlType::Real => "real"@,
        SqlType::DoublePrecision => "double precision"@,
        SqlType::Char { length } => match length {
            Option::Some(l) => "char("@ + spec_digits(l as nat) + ")"@,
            Option::None => "char"@,
        },
        SqlType::Varchar { length } => match length {
            Option::Some(l) => "varchar("@ + spec_digits(l as nat) + ")"@,
            Option::None => "varchar"@,
        },
        SqlType::Text => "text"@,
        SqlType::Bytea => "bytea"@,
        SqlType::Date => "date"@,
        SqlType::Time { with_timezone, .. } => if with_timezone {
            "time with time zone"@
        } else {
            "time"@
        },
        SqlType::Timestamp { with_timezone, .. } => if with_timezone {
            "timestamp with time zone"@
        } else {
            "timestamp"@
        },
        SqlType::Interval => "interval"@,
        SqlType::Boolean => "boolean"@,
        SqlType::Uuid => "uuid"@,
        SqlType::Json => "json"@,
        SqlType::Jsonb => "jsonb"@,
        SqlType::Array(inner) => spec_display_name(*inner) + "[]"@,
        SqlType::Custom(name) => name@,
        SqlType::Unknown => "unknown"@,
    }
}

fn opt_u64_eq(a: &Option<u64>, b: &Option<u64>) -> (r: bool)
    ensures
        r == (a == b),
{
    match (a, b) {
        (Some(x), Some(y)) => x == y,
        (None, None) => true,
        _ => false,
    }
}

/// Structural equality of two types.
pub fn types_equal(a: &SqlType, b: &SqlType) -> (r: bool)
    ensures
        r == type_eq(*a, *b),
    decreases *a,
{
    match (a, b) {
        (SqlType::TinyInt, SqlType::TinyInt) => true,
        (SqlType::SmallInt, SqlType::SmallInt) => true,
        (SqlType::MediumInt, SqlType::MediumInt) => true,
        (SqlType::Integer, SqlType::Integer) => true,
        (SqlType::BigInt, SqlType::BigInt) => true,
        (
            SqlType::Decimal { precision: p1, scale: s1 },
            SqlType::Decimal { precision: p2, scale: s2 },
        ) => opt_u64_eq(p1, p2) && opt_u64_eq(s1, s2),
        (SqlType::Real, SqlType::Real) => true,
        (SqlType::DoublePrecision, SqlType::DoublePrecision) => true,
        (SqlType::Char { length: l1 }, SqlType::Char { length: l2 }) => opt_u64_eq(l1, l2),
        (SqlType::Varchar { length: l1 }, SqlType::Varchar { length: l2 }) => opt_u64_eq(l1, l2),
        (SqlType::Text, SqlType::Text) => true,
        (SqlType::Bytea, SqlType::Bytea) => true,
        (SqlType::Date, SqlType::Date) => true,
        (
            SqlType::Time { precision: p1, with_timezone: t1 },
            SqlType::Time { precision: p2, with_timezone: t2 },
        ) => opt_u64_eq(p1, p2) && t1 == t2,
        (
            SqlType::Timestamp { precision: p1, with_timezone: t1 },
            SqlType::Timestamp { precision: p2, with_timezone: t2 },
        ) => opt_u64_eq(p1, p2) && t1 == t2,
        (SqlType::Interval, SqlType::Interval) => true,
        (SqlType::Boolean, SqlType::Boolean) => true,
        (SqlType::Uuid, SqlType::Uuid) => true,
        (SqlType::Json, SqlType::Json) => true,
        (SqlType::Jsonb, SqlType::Jsonb) => true,
        (SqlType::Array(x), SqlType::Array(y)) => types_equal(x, y),
        (SqlType::Custom(n1), SqlType::Custom(n2)) => crate::strutil::str_eq(
            n1.as_str(),
            n2.as_str(),
        ),
        (SqlType::Unknown, SqlType::Unknown) => true,
        _ => false,
    }
}

/// Result of a type compatibility check.
#[derive(Debug, Clone, Copy, PartialEq, Eq, Structural)]
pub enum TypeCompatibility {
    /// Types are exactly the same.
    Exact,
    /// An implicit cast is possible.
    ImplicitCast,
    /// An explicit cast is required.
    ExplicitCast,
}

impl SqlType {
    /// How this type relates to another in the compatibility lattice:
    /// `Exact` for identical types, `ImplicitCast` for a safe widening,
    /// `ExplicitCast` otherwise.
    pub fn is_compatible_with(&self, other: &SqlType) -> (r: TypeCompatibility)
        ensures
            r == spec_compat(*self, *other),
    {
        if types_equal(self, other) {
            return TypeCompatibility::Exact;
        }
        let widens = match (self, other) {
            (SqlType::TinyInt, SqlType::SmallInt) => true,
            (SqlType::TinyInt, SqlType::MediumInt) => true,
            (SqlType::TinyInt, SqlType::Integer) => true,
            (SqlType::TinyInt, SqlType::BigInt) => true,
            (SqlType::SmallInt, SqlType::MediumInt) => true,
            (SqlType::SmallInt, SqlType::Integer) => true,
            (SqlType::SmallInt, SqlType::BigInt) => true,
            (SqlType::MediumInt, SqlType::Integer) => true,
            (SqlType::MediumInt, SqlType::BigInt) => true,
            (SqlType::Integer, SqlType::BigInt) => true,
            (_, SqlType::Real) => self.is_integer_family(),
            (_, SqlType::DoublePrecision) => self.is_integer_family() || matches!(
                self,
                SqlType::Real,
            ),
            (_, SqlType::Decimal { .. }) => self.is_integer_family(),
            (SqlType::Char { .. }, SqlType::Varchar { .. }) => true,
            (SqlType::Char { .. }, SqlType::Text) => true,
            (SqlType::Varchar { .. }, SqlType::Text) => true,
            (SqlType::Json, SqlType::Jsonb) => true,
            _ => false,
        };
        if widens {
            TypeCompatibility::ImplicitCast
        } else {
            TypeCompatibility::ExplicitCast
        }
    }

    /// Whether this type belongs to the integer family.
    pub fn is_integer_family(&self) -> (r: bool)
        ensures
            r == spec_is_integer(*self),
    {
        match self {
            SqlType::TinyInt
            | SqlType::SmallInt
            | SqlType::MediumInt
            | SqlType::Integer
            | SqlType::BigInt => true,
            _ => false,
        }
    }

    /// Whether this type belongs to the numeric family.
    pub fn is_numeric_family(&self) -> (r: bool)
        ensures
            r == spec_is_numeric(*self),
    {
        match self {
            SqlType::TinyInt
            | SqlType::SmallInt
            | SqlType::MediumInt
            | SqlType::Integer
            | SqlType::BigInt
            | SqlType::Real
            | SqlType::DoublePrecision
            | SqlType::Decimal { .. } => true,
            _ => false,
        }
    }

    /// The human-readable name of this type.
    pub fn display_name(&self) -> (r: String)
        ensures
            r@ == spec_display_name(*self),
        decreases *self,
    {
        match self {
            SqlType::TinyInt => String::from_str("tinyint"),
            SqlType::SmallInt => String::from_str("smallint"),
            SqlType::MediumInt => String::from_str("mediumint"),
            SqlType::Integer => String::from_str("integer"),
            SqlType::BigInt => String::from_str("bigint"),
            SqlType::Decimal { precision, scale } => match (precision, scale) {
                (Some(p), Some(s)) => {
                    let mut r = String::from_str("numeric(");
                    let ps = u64_to_string(*p);
                    r.append(ps.as_str());
                    r.append(",");
                    let ss = u64_to_string(*s);
                    r.append(ss.as_str());
                    r.append(")");
                    proof {
                        assert(r@ =~= spec_display_name(*self));
                    }
                    r
                }
                (Some(p), None) => {
                    let mut r = String::from_str("numeric(");
                    let ps = u64_to_string(*p);
                    r.append(ps.as_str());
                    r.append(")");
                    proof {
                        assert(r@ =~= spec_display_name(*self));
                    }
                    r
                }
                _ => String::from_str("numeric"),
            },
            SqlType::Real => String::from_str("real"),
            SqlType::DoublePrecision => String::from_str("double precision"),
            SqlType::Char { length } => match length {
                Some(l) => {
                    let mut r = String::from_str("char(");
                    let ls = u64_to_string(*l);
                    r.append(ls.as_str());
                    r.append(")");
                    proof {
                        assert(r@ =~= spec_display_name(*self));
                    }
                    r
                }
                None => String::from_str("char"),
            },
            SqlType::Varchar { length } => match length {
                Some(l) => {
                    let mut r = String::from_str("varchar(");
                    let ls = u64_to_string(*l);
                    r.append(ls.as_str());
                    r.append(")");
                    proof {
                        assert(r@ =~= spec_display_name(*self));
                    }
                    r
                }
                None => String::from_str("varchar"),
            },
            SqlType::Text => String::from_str("text"),
            SqlType::Bytea => String::from_str("bytea"),
            SqlType::Date => String::from_str("date"),
            SqlType::Time { with_timezone, .. } => if *with_timezone {
                String::from_str("time with time zone")
            } else {
                String::from_str("time")
            },
            SqlType::Timestamp { with_timezone, .. } => if *with_timezone {
                String::from_str("timestamp with time zone")
            } else {
                String::from_str("timestamp")
            },
            SqlType::Interval => String::from_str("interval"),
            SqlType::Boolean => String::from_str("boolean"),
            SqlType::Uuid => String::from_str("uuid"),
            SqlType::Json => String::from_str("json"),
            SqlType::Jsonb => String::from_str("jsonb"),
            SqlType::Array(inner) => {
                let mut r = inner.display_name();
                r.append("[]");
                r
            }
            SqlType::Custom(name) => name.clone(),
            SqlType::Unknown => String::from_str("unknown"),
        }
    }
}

impl Clone for SqlType {
    fn clone(&self) -> (r: Self)
        ensures
            r == *self,
        decreases *self,
    {
        match self {
            SqlType::TinyInt => SqlType::TinyInt,
            SqlType::SmallInt => SqlType::SmallInt,
            SqlType::MediumInt => SqlType::MediumInt,
            SqlType::Integer => SqlType::Integer,
            SqlType::BigInt => SqlType::BigInt,
            SqlType::Decimal { precision, scale } => SqlType::Decimal {
                precision: *precision,
                scale: *scale,
            },
            SqlType::Real => SqlType::Real,
            SqlType::DoublePrecision => SqlType::DoublePrecision,
            SqlType::Char { length } => SqlType::Char { length: *length },
            SqlType::Varchar { length } => SqlType::Varchar { length: *length },
            SqlType::Text => SqlType::Text,
            SqlType::Bytea => SqlType::Bytea,
            SqlType::Date => SqlType::Date,
            SqlType::Time { precision, with_timezone } => SqlType::Time {
                precision: *precision,
                with_timezone: *with_timezone,
            },
            SqlType::Timestamp { precision, with_timezone } => SqlType::Timestamp {
                precision: *precision,
                with_timezone: *with_timezone,
            },
            SqlType::Interval => SqlType::Interval,
            SqlType::Boolean => SqlType::Boolean,
            SqlType::Uuid => SqlType::Uuid,
            SqlType::Json => SqlType::Json,
            SqlType::Jsonb => SqlType::Jsonb,
            SqlType::Array(inner) => SqlType::Array(Box::new((**inner).clone())),
            SqlType::Custom(name) => SqlType::Custom(name.clone()),
            SqlType::Unknown => SqlType::Unknown,
        }
    }
}

/// The type a custom (possibly dotted) type name denotes: the serial
/// aliases map to their integer types, compared case-insensitively; any
/// other name stays an opaque named type.
pub open spec fn spec_named_type(name: String) -> SqlType {
    if str_ieq(name@, "serial"@) || str_ieq(name@, "serial4"@) {
        SqlType::Integer
    } else if str_ieq(name@, "bigserial"@) || str_ieq(name@, "serial8"@) {
        SqlType::BigInt
    } else if str_ieq(name@, "smallserial"@) || str_ieq(name@, "serial2"@) {
        SqlType::SmallInt
    } else {
        SqlType::Custom(name)
    }
}

impl SqlType {
    /// The type a custom type name denotes, resolving the serial aliases.
    pub fn from_custom_name(name: String) -> (t: SqlType)
        ensures
            t == spec_named_type(name),
    {
        if eq_ignore_case(name.as_str(), "serial") || eq_ignore_case(name.as_str(), "serial4") {
            SqlType::Integer
        } else if eq_ignore_case(name.as_str(), "bigserial") || eq_ignore_case(
            name.as_str(),
            "serial8",
        ) {
            SqlType::BigInt
        } else if eq_ignore_case(name.as_str(), "smallserial") || eq_ignore_case(
            name.as_str(),
            "serial2",
        ) {
            SqlType::SmallInt
        } else {
            SqlType::Custom(name)
        }
    }
}

impl PartialEq for SqlType {
    fn eq(&self, other: &SqlType) -> (r: bool) {
        types_equal(self, other)
    }
}

impl vstd::std_specs::cmp::PartialEqSpecImpl for SqlType {
    open spec fn obeys_eq_spec() -> bool {
        true
    }

    open spec fn eq_spec(&self, other: &SqlType) -> bool {
        type_eq(*self, *other)
    }
}

impl Eq for SqlType {

}

/// Equality in the lattice is reflexive: `type_eq(t, t)` for every type.
pub proof fn lemma_type_eq_reflexive(t: SqlType)
    ensures
        type_eq(t, t),
    decreases t,
{
    match t {
        SqlType::Array(inner) => lemma_type_eq_reflexive(*inner),
        _ => {}
    }
}

/// Compatibility is reflexive: every type is `Exact`-compatible with itself.
pub proof fn lemma_compatibility_reflexive(t: SqlType)
    ensures
        spec_compat(t, t) == TypeCompatibility::Exact,
{
    lemma_type_eq_reflexive(t);
}

/// The position of a type in the declared numeric widening chain
/// TinyInt, SmallInt, MediumInt, Integer, BigInt, Real, DoublePrecision;
/// types outside the chain sit below it.
pub open spec fn widening_rank(t: SqlType) -> int {
    match t {
        SqlType::TinyInt => 0,
        SqlType::SmallInt => 1,
        SqlType::MediumInt => 2,
        SqlType::Integer => 3,
        SqlType::BigInt => 4,
        SqlType::Real => 5,
        SqlType::DoublePrecision => 6,
        _ => -1,
    }
}

/// Every adjacent and transitive pair of the numeric widening chain is an
/// implicit cast in the widening direction.
pub proof fn lemma_widening_chain(a: SqlType, b: SqlType)
    requires
        0 <= widening_rank(a),
        widening_rank(a) < widening_rank(b),
    ensures
        spec_compat(a, b) == TypeCompatibility::ImplicitCast,
{
}

} // verus!
