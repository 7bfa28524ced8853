use process_monitor::minigrep::{
    parse_case_sensitivity_arg, run, search, search_case_insensitive, Config,
};

#[test]
fn one_result() {
    let query = "duct";
    let contents = "\
Rust:
safe, fast, productive.
Pick three.";

    assert_eq!(vec!["safe, fast, productive."], search(query, contents))
}

#[test]
fn case_sensitive() {
    let query = "duct";
    let contents = "\
Rust:
safe, fast, productive.
Pick three.
Duct Tape.";

    assert_eq!(vec!["safe, fast, productive."], search(query, contents))
}

#[test]
fn case_insensitive() {
    let query = "dUct";
    let contents = "\
Rust:
safe, fast, productive.
Pick three.
Trust and Duct me.";

    assert_eq!(
        vec!["safe, fast, productive.", "Trust and Duct me."],
        search_case_insensitive(query, contents)
    )
}

#[test]
fn parse_case_sens_arg() {
    let case_sens_arg = "sensitive";
    assert!(parse_case_sensitivity_arg(case_sens_arg))
}

#[test]
fn parse_case_insens_arg() {
    let case_sens_arg = "insensitive";
    assert!(!parse_case_sensitivity_arg(case_sens_arg))
}

#[test]
fn parse_case_sens_arg_any_casing() {
    assert!(parse_case_sensitivity_arg("SenSitive"));
    assert!(!parse_case_sensitivity_arg(""));
}

#[test]
fn search_keeps_empty_matches_and_line_ends() {
    let contents = "a\r\n\r\nb\n";
    assert_eq!(vec!["a", "", "b"], search("", contents));
    assert_eq!(Vec::<&str>::new(), search("a", ""));
    assert_eq!(vec!["tail\r"], search("tail", "head\ntail\r"));
}

#[test]
fn search_counts_characters_not_bytes() {
    let contents = "größe\nmaß\nüber maß";
    assert_eq!(vec!["maß", "über maß"], search("maß", contents));
    assert_eq!(vec!["größe"], search_case_insensitive("GRÖ", contents));
}

#[test]
fn config_new_reads_arguments() {
    let args = vec![
        String::from("minigrep"),
        String::from("needle"),
        String::from("hay.txt"),
    ];
    let config = Config::new(&args, false).unwrap();
    assert_eq!(config.query, "needle");
    assert_eq!(config.filename, "hay.txt");
    assert!(config.case_sensitive);
    let config = Config::new(&args, true).unwrap();
    assert!(!config.case_sensitive);
}

#[test]
fn config_new_argument_beats_environment() {
    let mut args = vec![
        String::from("minigrep"),
        String::from("needle"),
        String::from("hay.txt"),
        String::from("Sensitive"),
    ];
    assert!(Config::new(&args, true).unwrap().case_sensitive);
    args[3] = String::from("no");
    assert!(!Config::new(&args, false).unwrap().case_sensitive);
}

#[test]
fn config_new_missing_arguments() {
    let none: Vec<String> = Vec::new();
    assert_eq!(Config::new(&none, false).err(), Some("Didn't get a query"));
    let name = vec![String::from("minigrep")];
    assert_eq!(Config::new(&name, false).err(), Some("Didn't get a query"));
    let query = vec![String::from("minigrep"), String::from("needle")];
    assert_eq!(Config::new(&query, false).err(), Some("Didn't get a file name"));
}

#[test]
fn run_picks_the_search() {
    let contents = "Duct\nduct\n";
    let strict = Config {
        query: String::from("duct"),
        filename: String::new(),
        case_sensitive: true,
    };
    assert_eq!(vec!["duct"], run(&strict, contents));
    let loose = Config {
        query: String::from("duct"),
        filename: String::new(),
        case_sensitive: false,
    };
    assert_eq!(vec!["Duct", "duct"], run(&loose, contents));
}
