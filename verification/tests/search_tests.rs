use workpool::search::{search, search_case_insensitive, Config};

#[test]
fn case_sensitive() {
    let query = "duct";
    let contents = "Rust:\nsafe, fast, productive.\nPick three.\nDuct tape.";
    assert_eq!(vec!["safe, fast, productive."], search(query, contents));
}

#[test]
fn case_insensitive() {
    let query = "rUsT";
    let contents = "Rust:\nsafe, fast, productive.\nPick three.\nTrust me.";
    assert_eq!(vec!["Rust:", "Trust me."], search_case_insensitive(query, contents));
}

#[test]
fn search_finds_nothing_without_a_match() {
    let found: Vec<&str> = search("cc", "frog\nbody");
    assert!(found.is_empty());
}

#[test]
fn config_needs_three_arguments() {
    let args = vec![String::from("prog"), String::from("query")];
    let r = Config::build(&args, false);
    assert_eq!(r.err(), Some("not enough arguments"));
}

#[test]
fn config_takes_query_and_path() {
    let args = vec![
        String::from("prog"),
        String::from("to"),
        String::from("sample.txt"),
    ];
    let c = Config::build(&args, true).unwrap();
    assert_eq!(c.query, "to");
    assert_eq!(c.file_path, "sample.txt");
    assert!(c.ignore_case);
}
