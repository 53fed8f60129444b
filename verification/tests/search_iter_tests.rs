use workpool::search_iter::{search, search_case_insensitive, Config};

#[test]
fn lib_case_sensitive() {
    let query = "duct";
    let contents = "Rust:\nsafe, fast, productive.\nPick three.\nDuct tape.";
    assert_eq!(vec!["safe, fast, productive."], search(query, contents));
}

#[test]
fn lib_case_insensitive() {
    let query = "rUsT";
    let contents = "Rust:\nsafe, fast, productive.\nPick three.\nTrust me.";
    assert_eq!(vec!["Rust:", "Trust me."], search_case_insensitive(query, contents));
}

#[test]
fn consuming_config_reports_each_missing_argument() {
    let r = Config::build(vec![String::from("prog")], false);
    assert_eq!(r.err(), Some("Didn't get a query string"));

    let r = Config::build(vec![String::from("prog"), String::from("q")], false);
    assert_eq!(r.err(), Some("Didn't get a file path"));
}

#[test]
fn consuming_config_takes_query_and_path() {
    let c = Config::build(
        vec![
            String::from("prog"),
            String::from("body"),
            String::from("poem.txt"),
        ],
        false,
    )
    .unwrap();
    assert_eq!(c.query, "body");
    assert_eq!(c.file_path, "poem.txt");
    assert!(!c.ignore_case);
}
