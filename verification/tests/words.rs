use rustbuster::words::Wordlist;

fn base_words() -> Vec<String> {
    vec!["let".to_string(), "me".to_string(), "in".to_string()]
}

#[test]
fn wordlist_can_iterate() {
    let wordlist = Wordlist::new(base_words());

    assert_eq!(wordlist.len(), 3);

    let words = wordlist.iter();
    assert_eq!(words, vec!["let", "me", "in"]);

    // restartable: a second iteration yields the identical sequence
    assert_eq!(wordlist.iter(), words);
}

#[test]
fn mod_wordlist_expands_from_extensions() {
    let mut wordlist = Wordlist::new(base_words());
    wordlist.set_extensions(vec!["json".to_string(), "xml".to_string()]);

    assert_eq!(wordlist.len(), 6);

    let words = wordlist.iter();
    assert_eq!(
        words,
        vec![
            "let.json", "let.xml", "me.json", "me.xml", "in.json", "in.xml",
        ]
    );
}

#[test]
fn words_wordlist_expands_from_extensions() {
    let wordlist = Wordlist::new(base_words());
    let wordlist = wordlist.expand(vec![".json".to_string(), ".xml".to_string()]);

    assert_eq!(
        wordlist.words,
        vec![
            "let.json", "let.xml", "me.json", "me.xml", "in.json", "in.xml",
        ]
    );
    assert_eq!(wordlist.len(), 6);
}

#[test]
fn wordlist_empty_extension_list_yields_words_unchanged() {
    let mut wordlist = Wordlist::new(base_words());
    wordlist.set_extensions(Vec::new());

    assert_eq!(wordlist.len(), 3);
    assert_eq!(wordlist.iter(), vec!["let", "me", "in"]);

    let expanded = Wordlist::new(base_words()).expand(Vec::new());
    assert_eq!(expanded.words, vec!["let", "me", "in"]);
}

#[test]
fn wordlist_empty_extension_entry_means_no_suffix() {
    let mut wordlist = Wordlist::new(base_words());
    wordlist.set_extensions(vec!["".to_string()]);

    assert_eq!(wordlist.iter(), vec!["let", "me", "in"]);
}

#[test]
fn wordlist_preserves_blank_candidates() {
    let wordlist = Wordlist::new(vec!["a".to_string(), "".to_string(), "b".to_string()]);
    assert_eq!(wordlist.iter(), vec!["a", "", "b"]);
}

#[test]
fn wordlist_extension_major_order_within_each_word() {
    let mut wordlist = Wordlist::new(vec!["w1".to_string(), "w2".to_string()]);
    wordlist.set_extensions(vec!["a".to_string(), "b".to_string(), "c".to_string()]);
    assert_eq!(
        wordlist.iter(),
        vec!["w1.a", "w1.b", "w1.c", "w2.a", "w2.b", "w2.c"]
    );
}
