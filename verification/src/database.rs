//! The decisions around the database: which statements prepare it after a
//! connection, and what to do when reading a conversation fails.
use vstd::prelude::*;

verus! {

/// The kind of database a connection reaches.
#[derive(Clone, Copy, Debug, PartialEq, Eq)]
pub enum DbBackend {
    MySql,
    Postgres,
    Sqlite,
}

/// What to do once connected: statements to run, in order, and then the
/// address to connect to anew, if any.
#[derive(Clone, Debug)]
pub struct SetupPlan {
    pub statements: Vec<String>,
    pub reconnect_url: Option<String>,
}

pub open spec fn mysql_create(db_name: Seq<char>) -> Seq<char> {
    "CREATE DATABASE IF NOT EXISTS `"@ + db_name + "`;"@
}

pub open spec fn postgres_drop(db_name: Seq<char>) -> Seq<char> {
    "DROP DATABASE IF EXISTS \""@ + db_name + "\";"@
}

pub open spec fn postgres_create(db_name: Seq<char>) -> Seq<char> {
    "CREATE DATABASE \""@ + db_name + "\";"@
}

pub open spec fn database_url_of(database_url: Seq<char>, db_name: Seq<char>) -> Seq<char> {
    database_url + "/"@ + db_name
}

/// MySQL: create the database if it is missing and reconnect to it.
/// PostgreSQL: drop the database, create it afresh and reconnect to it.
/// SQLite: nothing to run, keep the connection.
pub fn setup_plan(backend: DbBackend, database_url: &str, db_name: &str) -> (res: SetupPlan)
    ensures
        backend == DbBackend::MySql ==> res.statements.deep_view() == seq![mysql_create(db_name@)]
            && res.reconnect_url.deep_view() == Some(database_url_of(database_url@, db_name@)),
        backend == DbBackend::Postgres ==> res.statements.deep_view() == seq![
            postgres_drop(db_name@),
            postgres_create(db_name@),
        ] && res.reconnect_url.deep_view() == Some(database_url_of(database_url@, db_name@)),
        backend == DbBackend::Sqlite ==> res.statements@.len() == 0 && res.reconnect_url is None,
{
    match backend {
        DbBackend::Sqlite => SetupPlan { statements: Vec::new(), reconnect_url: None },
        DbBackend::MySql => {
            let mut create = String::from_str("CREATE DATABASE IF NOT EXISTS `");
            create.append(db_name);
            create.append("`;");
            let mut url = String::from_str(database_url);
            url.append("/");
            url.append(db_name);
            let mut statements: Vec<String> = Vec::new();
            statements.push(create);
            assert(statements.deep_view() =~= seq![mysql_create(db_name@)]);
            SetupPlan { statements, reconnect_url: Some(url) }
        },
        DbBackend::Postgres => {
            let mut drop = String::from_str("DROP DATABASE IF EXISTS \"");
            drop.append(db_name);
            drop.append("\";");
            let mut create = String::from_str("CREATE DATABASE \"");
            create.append(db_name);
            create.append("\";");
            let mut url = String::from_str(database_url);
            url.append("/");
            url.append(db_name);
            let mut statements: Vec<String> = Vec::new();
            statements.push(drop);
            statements.push(create);
            assert(statements.deep_view() =~= seq![
                postgres_drop(db_name@),
                postgres_create(db_name@),
            ]);
            SetupPlan { statements, reconnect_url: Some(url) }
        },
    }
}

/// Which query for a conversation's tweets is being answered.
#[derive(Clone, Copy, Debug, PartialEq, Eq)]
pub enum FetchAttempt {
    First,
    Retry,
}

/// What follows the answer to a query for a conversation's tweets.
#[derive(Clone, Copy, Debug, PartialEq, Eq)]
pub enum FetchStep {
    /// Use the tweets that came back.
    Deliver,
    /// Wait this many seconds, then ask once more.
    WaitThenRetry { wait_secs: u64 },
    /// Stop with the error that came back.
    GiveUp,
}

/// The seconds to wait before the second query.
pub open spec fn retry_wait_secs() -> u64 {
    120
}

pub open spec fn fetch_step_spec(attempt: FetchAttempt, succeeded: bool) -> FetchStep {
    if succeeded {
        FetchStep::Deliver
    } else {
        match attempt {
            FetchAttempt::First => FetchStep::WaitThenRetry { wait_secs: retry_wait_secs() },
            FetchAttempt::Retry => FetchStep::GiveUp,
        }
    }
}

/// An answer is used when the query succeeded; a first failure is retried
/// once after two minutes; a second failure ends the attempt.
pub fn next_fetch_step(attempt: FetchAttempt, succeeded: bool) -> (res: FetchStep)
    ensures
        res == fetch_step_spec(attempt, succeeded),
{
    if succeeded {
        FetchStep::Deliver
    } else {
        match attempt {
            FetchAttempt::First => FetchStep::WaitThenRetry { wait_secs: 120 },
            FetchAttempt::Retry => FetchStep::GiveUp,
        }
    }
}

/// The attempt that follows a step, if any.
pub open spec fn next_attempt(step: FetchStep) -> Option<FetchAttempt> {
    match step {
        FetchStep::WaitThenRetry { .. } => Some(FetchAttempt::Retry),
        _ => None,
    }
}

/// A conversation is queried at most twice: whatever the two answers, the
/// step after the second query asks for no further one.
pub proof fn lemma_at_most_two_queries(first_ok: bool, second_ok: bool)
    ensures
        match next_attempt(fetch_step_spec(FetchAttempt::First, first_ok)) {
            Some(a) => next_attempt(fetch_step_spec(a, second_ok)) is None,
            None => true,
        },
{
}

}
