use threadpools::grep::{search, search_case_insensitive, select_lines, Config};

#[test]
fn one_result() {
    let query = "duct";
    let contents = "\
Rust:
safe, fast, productive.
Pick three.
                        ";

    assert_eq!(vec!["safe, fast, productive."], search(query, contents));
}

#[test]
fn case_insensitive() {
    let query = "rUsT";
    let contents = "\
Rust:
safe, fast, productive.
Pick three.
Trust me.";

    assert_eq!(
        vec!["Rust:", "Trust me."],
        search_case_insensitive(query, contents)
    );
}

#[test]
fn search_is_case_sensitive() {
    let contents = "Rust:\nTrust me.\nrusty";
    assert_eq!(vec!["Trust me.", "rusty"], search("rust", contents));
}

#[test]
fn search_cuts_lines_at_line_endings() {
    let contents = "one\r\ntwo\n\nthree\n";
    assert_eq!(vec!["one", "two", "", "three"], search("", contents));
    assert_eq!(vec!["two"], search("two", contents));
    assert_eq!(Vec::<&str>::new(), search("one\r", contents));
    assert_eq!(Vec::<&str>::new(), search("x", ""));
    assert_eq!(Vec::<&str>::new(), search("", ""));
}

#[test]
fn search_keeps_the_order_of_the_text() {
    let contents = "b1\na\nb2\nb3";
    assert_eq!(vec!["b1", "b2", "b3"], search("b", contents));
}

#[test]
fn config_needs_a_query_and_a_path() {
    let args = vec!["grep".to_string(), "needle".to_string()];
    assert_eq!(
        Config::build(&args, false).err(),
        Some("Not enough argmuments")
    );
    assert!(Config::build(&[], true).is_err());
}

#[test]
fn config_takes_query_and_path_from_the_arguments() {
    let args = vec![
        "grep".to_string(),
        "needle".to_string(),
        "haystack.txt".to_string(),
        "ignored".to_string(),
    ];
    let config = Config::build(&args, true).unwrap();
    assert_eq!(config.query, "needle");
    assert_eq!(config.file_path, "haystack.txt");
    assert!(config.ignore_case);
    let config = Config::build(&args, false).unwrap();
    assert!(!config.ignore_case);
}

#[test]
fn lines_are_selected_by_their_keys() {
    let lines = vec!["Rust:", "safe, fast, productive.", "Trust me."];
    let keys = vec![
        "rust:".to_string(),
        "safe, fast, productive.".to_string(),
        "trust me.".to_string(),
    ];
    assert_eq!(select_lines("rust", &lines, &keys), vec!["Rust:", "Trust me."]);
    assert_eq!(select_lines("Rust", &lines, &keys), Vec::<&str>::new());
    assert_eq!(select_lines("", &lines, &keys), lines);
}

#[test]
fn a_line_without_a_key_is_left_out() {
    let lines = vec!["a1", "a2", "a3"];
    let keys = vec!["a".to_string(), "b".to_string()];
    assert_eq!(select_lines("a", &lines, &keys), vec!["a1"]);
    assert_eq!(select_lines("a", &lines, &Vec::new()), Vec::<&str>::new());
    assert_eq!(select_lines("a", &Vec::new(), &keys), Vec::<&str>::new());
}

#[test]
fn case_is_ignored_in_query_and_line() {
    let contents = "ÄPFEL\nÄpfel und Birnen\nbirnen";
    assert_eq!(
        search_case_insensitive("äPFEL", contents),
        vec!["ÄPFEL", "Äpfel und Birnen"]
    );
    assert_eq!(search_case_insensitive("BIRNEN", contents).len(), 2);
}
