use cockatiel_client::env_file::{entries, entry, expand, load_env_file, split_line, write_env_file};

fn pairs(list: &[(&str, &str)]) -> Vec<(String, String)> {
    list.iter().map(|(k, v)| (k.to_string(), v.to_string())).collect()
}

fn load(content: &str) -> Vec<(String, String)> {
    load_env_file(content, &vec![])
}

#[test]
fn lines_without_an_entry_are_passed_over() {
    for line in ["", "   ", "# A=1", "  #A=1", "no equals sign", "=value", "  = value"] {
        assert_eq!(split_line(line), None, "{:?}", line);
        assert_eq!(entry(line), None, "{:?}", line);
    }
}

#[test]
fn white_space_and_quotes_around_a_value_do_not_count() {
    assert_eq!(split_line(" KEY = \"a b\" \r"), Some(("KEY".to_string(), "a b".to_string())));
    assert_eq!(split_line("K=\"\"x\"\""), Some(("K".to_string(), "x".to_string())));
    assert_eq!(split_line("K=a=b"), Some(("K".to_string(), "a=b".to_string())));
    assert_eq!(split_line("K="), Some(("K".to_string(), "".to_string())));
    assert_eq!(split_line("export K=1"), Some(("export K".to_string(), "1".to_string())));
}

#[test]
fn json_arrays_are_one_item_per_line() {
    assert_eq!(
        load("TOKENS=[\"a\", \"b\\tc\", \"\"]\n"),
        pairs(&[("TOKENS", "a\nb\tc\n")]),
    );
    assert_eq!(load("EMPTY=[]"), pairs(&[("EMPTY", "")]));
    assert_eq!(load("NUMBERS=[1, 2]\n"), pairs(&[("NUMBERS", "1\n2")]));
    assert_eq!(
        load("MIXED=[\"a b\", -3, 1.50, true, null, { \"k\": [1, \"x\"] }]"),
        pairs(&[("MIXED", "a b\n-3\n1.5\ntrue\nnull\n{\"k\":[1,\"x\"]}")]),
    );
    assert_eq!(load("OBJECT={\"k\": 1}"), pairs(&[("OBJECT", "{\"k\": 1}")]));
    assert_eq!(load("BROKEN=[\"a\""), pairs(&[("BROKEN", "[\"a")]));
}

#[test]
fn a_bare_value_is_expanded_by_its_items() {
    assert_eq!(expand("x".to_string(), None), "x");
    assert_eq!(expand("x".to_string(), Some(vec![serde_json::Value::from("a"), serde_json::Value::from(7)])), "a\n7");
    assert_eq!(expand("x".to_string(), Some(vec![])), "");
}

#[test]
fn real_environment_variables_win() {
    let taken = vec!["A".to_string(), "Z".to_string()];
    assert_eq!(load_env_file("A=1\nB=2\n", &taken), pairs(&[("B", "2")]));
}

#[test]
fn the_first_entry_for_a_key_counts() {
    assert_eq!(load("A=1\nB=2\nA=3\n"), pairs(&[("A", "1"), ("B", "2")]));
    assert_eq!(entries("A=1\nA=3\n"), pairs(&[("A", "1"), ("A", "3")]));
}

#[test]
fn what_is_not_set_is_filled_in_whichever_keys_are_the_same() {
    let content = "a=1\nHOME=x\nA=2\nB=3\n";
    let fill = |list: Vec<(String, String)>| {
        let mut variables = pairs(&[("Home", "/root")]);
        for (key, value) in list {
            if !variables.iter().any(|(k, _)| k.eq_ignore_ascii_case(&key)) {
                variables.push((key, value));
            }
        }
        variables
    };
    let loaded = fill(load_env_file(content, &vec!["HOME".to_string()]));
    assert_eq!(loaded, fill(entries(content)));
    assert_eq!(loaded, pairs(&[("Home", "/root"), ("a", "1"), ("B", "3")]));
}

#[test]
fn a_missing_file_is_created() {
    assert_eq!(write_env_file("", &[("A", "1"), ("B", "2")]), "A=1\nB=2\n");
    assert_eq!(write_env_file("", &[]), "\n");
}

#[test]
fn pairs_are_merged_into_a_file() {
    let existing = "# secrets\nA=old\n\nB=keep\n  C=old\n";
    assert_eq!(
        write_env_file(existing, &[("A", "new"), ("C", "new"), ("D", "x")]),
        "# secrets\nA=new\n\nB=keep\nC=new\nD=x\n",
    );
}

#[test]
fn only_the_first_line_of_a_key_is_replaced() {
    assert_eq!(write_env_file("A=1\nA=2\n", &[("A", "3")]), "A=3\nA=2\n");
    assert_eq!(write_env_file("AB=1\n", &[("A", "3")]), "AB=1\nA=3\n");
    assert_eq!(write_env_file("A = 1\n", &[("A", "3")]), "A = 1\nA=3\n");
}

#[test]
fn a_file_keeps_one_line_feed_at_its_end() {
    assert_eq!(write_env_file("A=1", &[]), "A=1\n");
    assert_eq!(write_env_file("A=1\n\n", &[]), "A=1\n");
    assert_eq!(write_env_file("A=1\r\nB=2\r\n", &[]), "A=1\nB=2\n");
}

#[test]
fn what_is_written_is_what_is_loaded() {
    let written = write_env_file("X=0\nA=old\n", &[("A", "s3cret"), ("B", "[\"p\",\"q\"]"), ("A", "later")]);
    assert_eq!(load(&written), pairs(&[("X", "0"), ("A", "later"), ("B", "p\nq")]));
}

#[test]
fn white_space_behind_a_value_does_not_get_in_the_way() {
    let written = write_env_file("B=1\nB = 2\n", &[("A", "s3cret\n \n"), ("B", "3")]);
    assert_eq!(written, "B=3\nB = 2\nA=s3cret\n \n");
    assert_eq!(load(&written), pairs(&[("B", "3"), ("A", "s3cret")]));
}

#[test]
fn merging_twice_is_merging_once() {
    let list = [("A", "1"), ("B", "2"), ("A", "3"), ("#C", "x"), ("", "y")];
    let once = write_env_file("B=0\n# c\n", &list);
    assert_eq!(once, "B=2\n# c\nA=3\n#C=x\n=y\n");
    assert_eq!(write_env_file(&once, &list), once);
}

#[test]
fn writing_in_turn_is_writing_at_once_on_a_file() {
    for existing in ["", "\n", "B=0", "# c\r\nA=0\n"] {
        let first = write_env_file(existing, &[("A", "1"), ("B", "2")]);
        let both = write_env_file(existing, &[("A", "1"), ("B", "2"), ("C", "3"), ("A", "4")]);
        assert_eq!(write_env_file(&first, &[("C", "3"), ("A", "4")]), both, "{:?}", existing);
    }
}
