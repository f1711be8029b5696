use chai::cli::{resolve, Cli, Command};
use chai::export::{rows, solution_files, Entry};

fn bare(command: Command) -> Cli {
    Cli {
        command,
        config: None,
        elements: None,
        words: None,
        character_frequency: None,
        word_frequency: None,
        key_distribution: None,
        pair_equivalence: None,
    }
}

fn entry(item: &str, full: &str, short: Option<&str>) -> Entry {
    Entry { item: item.to_string(), full: full.to_string(), short: short.map(|s| s.to_string()) }
}

#[test]
fn unnamed_files_are_looked_for_in_their_usual_places() {
    let inputs = bare(Command::Optimize).inputs();
    assert_eq!(inputs.config, "config.yaml");
    assert_eq!(inputs.elements, "elements.txt");
    assert_eq!(inputs.character_frequency, "assets/character_frequency.txt");
    assert_eq!(inputs.word_frequency, "assets/word_frequency.txt");
    assert_eq!(inputs.key_distribution, "assets/key_distribution.txt");
    assert_eq!(inputs.pair_equivalence, "assets/pair_equivalence.txt");
    assert!(inputs.words_from_frequency);
}

#[test]
fn named_files_are_read_where_they_are() {
    let mut cli = bare(Command::Encode);
    cli.config = Some("my/scheme.yaml".to_string());
    cli.elements = Some("parts.txt".to_string());
    cli.words = Some("words.txt".to_string());
    cli.character_frequency = Some("cf.txt".to_string());
    cli.word_frequency = Some("wf.txt".to_string());
    cli.key_distribution = Some("kd.txt".to_string());
    cli.pair_equivalence = Some("pe.txt".to_string());
    let inputs = cli.inputs();
    assert_eq!(inputs.config, "my/scheme.yaml");
    assert_eq!(inputs.elements, "parts.txt");
    assert_eq!(inputs.character_frequency, "cf.txt");
    assert_eq!(inputs.word_frequency, "wf.txt");
    assert_eq!(inputs.key_distribution, "kd.txt");
    assert_eq!(inputs.pair_equivalence, "pe.txt");
    assert!(!inputs.words_from_frequency);
    assert_eq!(cli.command, Command::Encode);
}

#[test]
fn resolve_prefers_the_given_path() {
    assert_eq!(resolve(&Some("a b/ü.txt".to_string()), "usual.txt"), "a b/ü.txt");
    assert_eq!(resolve(&Some(String::new()), "usual.txt"), "");
    assert_eq!(resolve(&None, "usual.txt"), "usual.txt");
}

#[test]
fn row_holds_the_short_code_only_if_there_is_one() {
    assert_eq!(entry("的", "rqyy", Some("r")).row(), vec!["的", "rqyy", "r"]);
    assert_eq!(entry("的", "rqyy", None).row(), vec!["的", "rqyy"]);
    assert_eq!(entry("", "", Some("")).row(), vec!["", "", ""]);
}

#[test]
fn rows_keep_the_order_of_the_entries() {
    let table = rows(&vec![
        entry("一", "g", None),
        entry("地", "fbn", Some("f")),
        entry("在", "dhfd", Some("d")),
    ]);
    assert_eq!(table, vec![vec!["一", "g"], vec!["地", "fbn", "f"], vec!["在", "dhfd", "d"]]);
    assert!(rows(&vec![]).is_empty());
}

#[test]
fn solution_files_share_their_prefix() {
    let files = solution_files("10-28+22_04_31_007");
    assert_eq!(files.config, "output/10-28+22_04_31_007.yaml");
    assert_eq!(files.metric, "output/10-28+22_04_31_007.txt");
    let files = solution_files("");
    assert_eq!(files.config, "output/.yaml");
    assert_eq!(files.metric, "output/.txt");
}
