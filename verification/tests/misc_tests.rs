use saba::error::{make_error, ErrorKind, Fail};
use saba::options::Options;
use saba::security::{check_query, check_query_param};

#[test]
fn query_params_without_semicolon_pass() {
    assert!(check_query("GET * OF t;").is_ok());
    assert!(check_query_param("abc").is_ok());
    assert_eq!(check_query_param("a;b").unwrap_err().kind(), ErrorKind::Security);
}

fn args(v: &[&str]) -> Vec<String> {
    v.iter().map(|s| s.to_string()).collect()
}

#[test]
fn options_from_arguments() {
    let mut o = Options::new();
    assert!(o.apply_args(&args(&["saba", "-q", "GET * OF t", "dbs"])));
    assert!(o.is_query);
    assert!(!o.is_usage);
    assert_eq!(o.query_string, "GET * OF t");
    assert_eq!(o.root_dir_path, "dbs");

    let mut h = Options::new();
    assert!(h.apply_args(&args(&["saba", "--help"])));
    assert!(h.is_usage);
    assert_eq!(h.root_dir_path, "saba");
}

#[test]
fn query_flag_needs_a_query() {
    let mut o = Options::new();
    assert!(!o.apply_args(&args(&["saba", "--query"])));
}

#[test]
fn error_messages() {
    assert_eq!(make_error(ErrorKind::Parse, "bad").to_message(), "failed to parse. bad");
    assert_eq!(make_error(ErrorKind::Runtime, "x").to_message(), "failed on runtime. x");
    assert_eq!(Fail::Exec("y".to_string()).to_message(), "failed to execute. y");
}

#[test]
fn test_use_db_2() {
    let q = "USE ..".to_string();
    let failed = match saba::tokenizer::try_tokenize(q.clone()) {
        None => true,
        Some(_) => match saba::utils::prepare_query(q) {
            Err(_) => true,
            Ok(p) => match p.plans.first().and_then(|pl| pl.use_db.as_ref()) {
                Some(u) => saba::rows::check_db_name(&u.db_name).is_err(),
                None => true,
            },
        },
    };
    assert!(failed);
}

#[test]
fn a_query_is_prepared_where_its_numbers_read() {
    assert!(saba::utils::try_prepare_query("GET 99999999999999999999 OF t".to_string()).is_none());
    let plans = saba::utils::try_prepare_query("GET * OF t".to_string()).unwrap().unwrap();
    assert_eq!(plans.plans.len(), 1);
    match saba::utils::try_prepare_query("GET * t".to_string()).unwrap() {
        Ok(_) => panic!("a query without OF was planned"),
        Err(e) => assert_eq!(e.kind(), saba::error::ErrorKind::Parse),
    }
}

#[test]
fn default_records_where_the_defaults_read() {
    let bad = vec!["a: INT DEFAULT 9999999999999999999999999999999999999999999".to_string()];
    assert!(saba::headers::try_gen_default_record(&bad).is_none());
    let good = vec!["a: INT".to_string(), "b: FLOAT DEFAULT 1.5".to_string()];
    let d = saba::headers::try_gen_default_record(&good).unwrap().unwrap();
    assert_eq!(d, vec!["0".to_string(), "1.5".to_string()]);
}

#[test]
fn file_names_of_a_database() {
    assert_eq!(saba::paths::table_file_name("MyTab"), "mytab.csv");
    assert_eq!(saba::paths::tmp_table_file_name("MyTab"), "mytab.tmp.csv");
    assert_eq!(saba::paths::id_file_name("users", "id"), "users__id.txt");
}

#[test]
fn paths_that_hold_two_dots_are_refused() {
    assert!(saba::paths::check_path_text("root/db/a/table/t.csv").is_ok());
    assert!(saba::paths::check_path_text("root/db/a.b/table/t.csv").is_ok());
    let e = saba::paths::check_path_text("root/db/../table/t.csv").unwrap_err();
    assert_eq!(e.kind(), saba::error::ErrorKind::Runtime);
}
