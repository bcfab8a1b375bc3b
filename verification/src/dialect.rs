//! SQL dialect selection: a named dialect chooses the parser front end
//! (outside this library) and the default schema name.

use vstd::prelude::*;

verus! {

use crate::strutil::eq_ignore_case;
use crate::strutil::str_ieq;

/// A supported SQL dialect.
#[derive(Debug, Clone, Copy, PartialEq, Eq, Structural)]
pub enum SqlDialect {
    PostgreSQL,
    MySQL,
}

/// The dialect a name selects, compared case-insensitively: `postgresql`,
/// `postgres` and `pg` select PostgreSQL; `mysql` and `mysql8` select
/// MySQL; `sqlite` is known but unsupported; anything else is unknown.
pub open spec fn spec_dialect_of(s: Seq<char>) -> Option<SqlDialect> {
    if str_ieq(s, "postgresql"@) || str_ieq(s, "postgres"@) || str_ieq(s, "pg"@) {
        Option::Some(SqlDialect::PostgreSQL)
    } else if str_ieq(s, "mysql"@) || str_ieq(s, "mysql8"@) {
        Option::Some(SqlDialect::MySQL)
    } else {
        Option::None
    }
}

impl SqlDialect {
    /// The default schema name of the dialect: `public` for PostgreSQL,
    /// empty for MySQL.
    pub fn default_schema(&self) -> (r: &'static str)
        ensures
            *self == SqlDialect::PostgreSQL ==> r@ == "public"@,
            *self == SqlDialect::MySQL ==> r@ == ""@,
    {
        match self {
            SqlDialect::PostgreSQL => "public",
            SqlDialect::MySQL => "",
        }
    }

    /// The canonical name of the dialect.
    pub fn as_str(&self) -> (r: &'static str)
        ensures
            *self == SqlDialect::PostgreSQL ==> r@ == "postgresql"@,
            *self == SqlDialect::MySQL ==> r@ == "mysql"@,
    {
        match self {
            SqlDialect::PostgreSQL => "postgresql",
            SqlDialect::MySQL => "mysql",
        }
    }

    /// Select a dialect by name, case-insensitively; an unrecognized or
    /// known-but-unsupported name yields a descriptive error message.
    pub fn from_name(s: &str) -> (r: Result<SqlDialect, String>)
        ensures
            match r {
                Result::Ok(d) => spec_dialect_of(s@) == Option::Some(d),
                Result::Err(_) => spec_dialect_of(s@) is None,
            },
    {
        if eq_ignore_case(s, "postgresql") || eq_ignore_case(s, "postgres") || eq_ignore_case(
            s,
            "pg",
        ) {
            Ok(SqlDialect::PostgreSQL)
        } else if eq_ignore_case(s, "mysql") || eq_ignore_case(s, "mysql8") {
            Ok(SqlDialect::MySQL)
        } else if eq_ignore_case(s, "sqlite") {
            Err(
                String::from_str(
                    "SQLite dialect is not yet supported. Supported dialects: postgresql, mysql.",
                ),
            )
        } else {
            let mut msg = String::from_str("Unknown dialect: '");
            msg.append(s);
            msg.append("'. Supported dialects: postgresql, mysql.");
            Err(msg)
        }
    }
}

} // verus!
