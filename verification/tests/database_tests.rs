use tweet_vault::database::{next_fetch_step, setup_plan, DbBackend, FetchAttempt, FetchStep};

#[test]
fn setup_for_each_backend() {
    let mysql = setup_plan(DbBackend::MySql, "mysql://h", "tweets_db");
    assert_eq!(mysql.statements, vec!["CREATE DATABASE IF NOT EXISTS `tweets_db`;"]);
    assert_eq!(mysql.reconnect_url.as_deref(), Some("mysql://h/tweets_db"));
    let pg = setup_plan(DbBackend::Postgres, "postgres://h", "tweets_db");
    assert_eq!(
        pg.statements,
        vec!["DROP DATABASE IF EXISTS \"tweets_db\";", "CREATE DATABASE \"tweets_db\";"]
    );
    assert_eq!(pg.reconnect_url.as_deref(), Some("postgres://h/tweets_db"));
    let sqlite = setup_plan(DbBackend::Sqlite, "sqlite:./tweets.db", "tweets_db");
    assert!(sqlite.statements.is_empty());
    assert!(sqlite.reconnect_url.is_none());
}

#[test]
fn conversation_queries_are_retried_once() {
    assert_eq!(next_fetch_step(FetchAttempt::First, true), FetchStep::Deliver);
    assert_eq!(
        next_fetch_step(FetchAttempt::First, false),
        FetchStep::WaitThenRetry { wait_secs: 120 }
    );
    assert_eq!(next_fetch_step(FetchAttempt::Retry, true), FetchStep::Deliver);
    assert_eq!(next_fetch_step(FetchAttempt::Retry, false), FetchStep::GiveUp);
}
