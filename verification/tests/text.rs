use kdlize::text::{chars_of, matches_at, replace, unescape};

fn by_std(text: &str) -> String {
    let doc = text.to_string();
    let doc = doc.replace("\\r", "");
    let doc = doc.replace("\\n", "\n");
    let doc = doc.replace("\\t", "\t");
    doc.replace("    ", "\t")
}

#[test]
fn unescape_undoes_escapes_and_indents_by_tabs() {
    assert_eq!(unescape("a\\r\\nb\\tc"), "a\nb\tc");
    assert_eq!(unescape("node {\n    child \"x\\ny\"\n}\n"), "node {\n\tchild \"x\ny\"\n}\n");
    assert_eq!(unescape(""), "");
    assert_eq!(unescape("plain"), "plain");
}

#[test]
fn unescape_agrees_with_the_standard_replace() {
    let samples = [
        "",
        " ",
        "    ",
        "     ",
        "        x",
        "\\",
        "\\\\r",
        "\\\\\\n",
        "\\r\\r\\r",
        "a\\",
        "\\t\\t  \\t ",
        "   \\t",
        "é\\nü    ß\\r",
        "\\\\t    \\\\n",
        "  \\r  ",
        "\\ r\\ n",
    ];
    for s in samples.iter() {
        assert_eq!(unescape(s), by_std(s), "for {:?}", s);
    }
}

#[test]
fn replace_finds_matches_from_the_left_without_overlap() {
    let text: Vec<char> = "aaaa".chars().collect();
    let from: Vec<char> = "aa".chars().collect();
    let to: Vec<char> = "b".chars().collect();
    assert_eq!(replace(&text, &from, &to), vec!['b', 'b']);
    let text: Vec<char> = "aaa".chars().collect();
    assert_eq!(replace(&text, &from, &to), vec!['b', 'a']);
    let text: Vec<char> = "xaay".chars().collect();
    assert_eq!(replace(&text, &from, &Vec::new()), vec!['x', 'y']);
    assert!(matches_at(&text, 1, &from));
    assert!(!matches_at(&text, 2, &from));
    assert_eq!(chars_of("añb"), vec!['a', 'ñ', 'b']);
    assert_eq!(replace(&text, &Vec::new(), &to), text);
}
