//! The statements that begin and end a transaction.

use vstd::prelude::*;
use crate::error::{prefixed, ErrorKind, MssqlError};
use crate::text::{push_text, str_eq};

verus! {

/// The statement that commits the active transaction.
pub const COMMIT_SQL: &'static str = "COMMIT TRANSACTION";

/// The statement that rolls the active transaction back.
pub const ROLLBACK_SQL: &'static str = "ROLLBACK TRANSACTION";

/// The words by which the server knows an isolation level, where the name
/// denotes one.
pub open spec fn isolation_words(name: Seq<char>) -> Option<Seq<char>> {
    if name == "READ_UNCOMMITTED"@ {
        Some("READ UNCOMMITTED"@)
    } else if name == "READ_COMMITTED"@ {
        Some("READ COMMITTED"@)
    } else if name == "REPEATABLE_READ"@ {
        Some("REPEATABLE READ"@)
    } else if name == "SNAPSHOT"@ {
        Some("SNAPSHOT"@)
    } else if name == "SERIALIZABLE"@ {
        Some("SERIALIZABLE"@)
    } else {
        None
    }
}

/// The statement that begins a transaction at the level that `words` names.
pub open spec fn begin_statement(words: Seq<char>) -> Seq<char> {
    "SET TRANSACTION ISOLATION LEVEL "@ + words + "; BEGIN TRANSACTION"@
}

/// The words by which the server knows an isolation level. An unknown name is
/// a transaction error that quotes it.
pub fn isolation_sql(name: &str) -> (r: Result<&'static str, MssqlError>)
    ensures
        match r {
            Ok(words) => isolation_words(name@) == Some(words@),
            Err(e) => isolation_words(name@) is None && e.is(
                ErrorKind::Transaction,
                "Unknown isolation level: "@ + name@,
            ),
        },
{
    if str_eq(name, "READ_UNCOMMITTED") {
        Ok("READ UNCOMMITTED")
    } else if str_eq(name, "READ_COMMITTED") {
        Ok("READ COMMITTED")
    } else if str_eq(name, "REPEATABLE_READ") {
        Ok("REPEATABLE READ")
    } else if str_eq(name, "SNAPSHOT") {
        Ok("SNAPSHOT")
    } else if str_eq(name, "SERIALIZABLE") {
        Ok("SERIALIZABLE")
    } else {
        Err(MssqlError::Transaction(prefixed("Unknown isolation level: ", name)))
    }
}

/// The statement that begins a transaction at the named isolation level.
pub fn begin_transaction_sql(isolation: &str) -> (r: Result<String, MssqlError>)
    ensures
        match r {
            Ok(sql) => isolation_words(isolation@) matches Some(words) && sql@ == begin_statement(
                words,
            ),
            Err(e) => isolation_words(isolation@) is None && e.is(
                ErrorKind::Transaction,
                "Unknown isolation level: "@ + isolation@,
            ),
        },
{
    let words = isolation_sql(isolation)?;
    let mut sql = String::from_str("SET TRANSACTION ISOLATION LEVEL ");
    push_text(&mut sql, words);
    push_text(&mut sql, "; BEGIN TRANSACTION");
    Ok(sql)
}

} // verus!
