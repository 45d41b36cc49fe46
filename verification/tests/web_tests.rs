use quote_server::error::{api_status_of, is_fatal, outcome_of, page_error_message, ErrorKind, Outcome};
use quote_server::import::import;
use quote_server::init::{choose_db_uri, db_dir_of_uri};
use quote_server::quote::JsonQuote;
use quote_server::store::Store;
use quote_server::templates::IndexTemplate;
use quote_server::web::{get_by_id, get_random, select_quote, GetQuoteParams};

fn record(id: i64, body: &str, author: &str) -> JsonQuote {
    JsonQuote { id, quote: body.to_string(), author: author.to_string() }
}

fn two_quote_store() -> Store {
    let mut store = Store::new();
    let batch = vec![record(1, "A", "Auth1"), record(2, "B", "Auth2")];
    import(&mut store, &batch);
    store
}

#[test]
fn concrete_scenario() {
    let mut store = two_quote_store();
    let one = get_by_id(&store, "1").unwrap();
    assert_eq!(one.id, 1);
    assert_eq!(one.quote, "A");
    assert_eq!(one.author, "Auth1");
    assert!(matches!(get_by_id(&store, "99"), Err(ErrorKind::NotFound)));
    for pick in 0..4 {
        let q = get_random(&store, pick).unwrap();
        assert!(q.id == 1 || q.id == 2);
    }
    // the same two-record import again: still exactly those two, nothing fatal
    let batch = vec![record(1, "A", "Auth1"), record(2, "B", "Auth2")];
    let out = import(&mut store, &batch);
    assert_eq!(out.failed, 0);
    assert_eq!(store.len(), 2);
    assert_eq!(get_by_id(&store, "1").unwrap().quote, "A");
    assert_eq!(get_by_id(&store, "2").unwrap().quote, "B");
}

#[test]
fn bad_id_text_is_not_found() {
    let store = two_quote_store();
    assert!(matches!(get_by_id(&store, "one"), Err(ErrorKind::NotFound)));
    assert!(matches!(get_by_id(&store, ""), Err(ErrorKind::NotFound)));
    assert!(matches!(get_by_id(&store, "1x"), Err(ErrorKind::NotFound)));
}

#[test]
fn random_on_empty_store_is_not_found() {
    let store = Store::new();
    assert!(matches!(get_random(&store, 0), Err(ErrorKind::NotFound)));
    assert!(matches!(get_random(&store, 17), Err(ErrorKind::NotFound)));
}

#[test]
fn select_quote_honours_the_params() {
    let store = two_quote_store();
    let with_id = GetQuoteParams { id: Some("2".to_string()) };
    let q = select_quote(&store, &with_id, 0).unwrap();
    assert_eq!(q.id, 2);
    let bad = GetQuoteParams { id: Some("nope".to_string()) };
    assert!(matches!(select_quote(&store, &bad, 0), Err(ErrorKind::NotFound)));
    let without = GetQuoteParams { id: None };
    let q = select_quote(&store, &without, 1).unwrap();
    assert!(q.id == 1 || q.id == 2);
}

#[test]
fn outcome_split_is_exactly_two_way() {
    assert_eq!(outcome_of(ErrorKind::NotFound), Outcome::NoSuchResource);
    assert_eq!(outcome_of(ErrorKind::StoreIoError), Outcome::InternalFailure);
    assert_eq!(outcome_of(ErrorKind::SourceReadError), Outcome::InternalFailure);
    assert_eq!(outcome_of(ErrorKind::StoreInitError), Outcome::InternalFailure);
}

#[test]
fn api_statuses() {
    assert_eq!(api_status_of(ErrorKind::NotFound), 404);
    assert_eq!(api_status_of(ErrorKind::StoreIoError), 500);
    assert_eq!(api_status_of(ErrorKind::SourceReadError), 500);
    assert_eq!(api_status_of(ErrorKind::StoreInitError), 500);
}

#[test]
fn page_messages_leak_nothing() {
    assert_eq!(
        page_error_message(ErrorKind::NotFound),
        "The quote you were looking for decided to take a day off. Try another!"
    );
    assert_eq!(
        page_error_message(ErrorKind::StoreIoError),
        "We hit a snag trying to fetch a quote. Please try again."
    );
    assert_eq!(
        page_error_message(ErrorKind::SourceReadError),
        "We hit a snag trying to fetch a quote. Please try again."
    );
}

#[test]
fn only_init_failures_are_fatal() {
    assert!(is_fatal(ErrorKind::StoreInitError));
    assert!(!is_fatal(ErrorKind::NotFound));
    assert!(!is_fatal(ErrorKind::StoreIoError));
    assert!(!is_fatal(ErrorKind::SourceReadError));
}

#[test]
fn db_uri_choice_order() {
    let arg = Some("sqlite:arg.db".to_string());
    let env = Some("sqlite:env.db".to_string());
    assert_eq!(choose_db_uri(arg.clone(), env.clone()), "sqlite:arg.db");
    assert_eq!(choose_db_uri(None, env), "sqlite:env.db");
    assert_eq!(choose_db_uri(None, None), "sqlite:db/quotes.db");
}

#[test]
fn db_dir_extraction() {
    assert_eq!(db_dir_of_uri("sqlite:db/quotes.db"), Some("db".to_string()));
    assert_eq!(db_dir_of_uri("sqlite:a/b/c.db"), Some("a/b".to_string()));
    assert_eq!(db_dir_of_uri("sqlite:quotes.db"), None);
    assert_eq!(db_dir_of_uri("quotes.db"), None);
    assert_eq!(db_dir_of_uri("sqlite:/quotes.db"), None);
    assert_eq!(db_dir_of_uri("sqlite::memory:"), None);
}

#[test]
fn index_template_holds_the_quote() {
    let q = get_by_id(&two_quote_store(), "1").unwrap();
    let t = IndexTemplate::new(q);
    assert_eq!(t.quote.id, 1);
    assert_eq!(t.quote.quote, "A");
    assert_eq!(t.stylesheet, "/style.css");
}
