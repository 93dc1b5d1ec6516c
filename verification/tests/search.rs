use minigrep::{search, search_by_key, search_case_insensitive};

const POEM: &str = "I'm nobody! Who are you?\nAre you nobody, too?\nThen there's a pair of us - don't tell!\nThey'd banish us, you know.\n\nHow dreary to be somebody!\nHow public, like a frog\nTo tell your name the livelong day\nTo an admiring bog!\n";

#[test]
fn case_sensitive() {
    let query = "duct";
    let contents = "Rust:\nsafe, fast, productive.\nPick three.\nDuct tape.";
    assert_eq!(vec!["safe, fast, productive."], search(query, contents));
}

#[test]
fn case_insensitive() {
    let query = "rUsT";
    let contents = "Rust:\nsafe, fast, productive.\nPick three.\nRustles my jimmies!";
    assert_eq!(
        vec!["Rust:", "Rustles my jimmies!"],
        search_case_insensitive(query, contents)
    );
}

#[test]
fn matches_come_in_the_order_of_the_text() {
    assert_eq!(
        search("nobody", POEM),
        vec!["I'm nobody! Who are you?", "Are you nobody, too?"]
    );
    assert_eq!(
        search("ow", POEM),
        vec!["They'd banish us, you know.", "How dreary to be somebody!", "How public, like a frog"]
    );
}

#[test]
fn case_counts_in_search() {
    assert_eq!(search("to", POEM), vec!["Are you nobody, too?", "How dreary to be somebody!"]);
    assert_eq!(
        search_case_insensitive("to", POEM),
        vec![
            "Are you nobody, too?",
            "How dreary to be somebody!",
            "To tell your name the livelong day",
            "To an admiring bog!"
        ]
    );
}

#[test]
fn no_match_gives_no_lines() {
    assert_eq!(search("monomorphization", POEM), Vec::<&str>::new());
    assert_eq!(search_case_insensitive("monomorphization", POEM), Vec::<&str>::new());
}

#[test]
fn empty_query_matches_every_line() {
    let contents = "one\n\nthree\n";
    assert_eq!(search("", contents), vec!["one", "", "three"]);
    assert_eq!(search_case_insensitive("", contents), vec!["one", "", "three"]);
}

#[test]
fn empty_contents_have_no_lines() {
    assert_eq!(search("", ""), Vec::<&str>::new());
    assert_eq!(search("a", ""), Vec::<&str>::new());
    assert_eq!(search_case_insensitive("", ""), Vec::<&str>::new());
    assert_eq!(search_case_insensitive("a", ""), Vec::<&str>::new());
}

#[test]
fn final_line_feed_adds_no_line() {
    assert_eq!(search("", "a\nb"), vec!["a", "b"]);
    assert_eq!(search("", "a\nb\n"), vec!["a", "b"]);
    assert_eq!(search("", "a\nb\n\n"), vec!["a", "b", ""]);
    assert_eq!(search("", "\n"), vec![""]);
}

#[test]
fn carriage_return_before_line_feed_is_dropped() {
    assert_eq!(search("", "a\r\nb\r\n"), vec!["a", "b"]);
    assert_eq!(search("", "a\r\r\nb"), vec!["a\r", "b"]);
    assert_eq!(search("\r", "a\r\nb\r\n"), Vec::<&str>::new());
}

#[test]
fn lone_carriage_return_stays_in_the_line() {
    assert_eq!(search("", "a\rb\nc\r"), vec!["a\rb", "c\r"]);
    assert_eq!(search("\r", "a\rb\nc\nd\r"), vec!["a\rb", "d\r"]);
}

#[test]
fn query_is_matched_within_one_line_only() {
    assert_eq!(search("a\nb", "a\nb"), Vec::<&str>::new());
    assert_eq!(search("ab", "a\nb\nab"), vec!["ab"]);
}

#[test]
fn query_may_stand_anywhere_in_the_line() {
    let contents = "needle first\nlast needle\nin needle between\nneedl e\nneedle";
    assert_eq!(
        search("needle", contents),
        vec!["needle first", "last needle", "in needle between", "needle"]
    );
}

#[test]
fn equal_lines_are_each_returned() {
    let contents = "same\nother\nsame\n";
    let found = search("same", contents);
    assert_eq!(found, vec!["same", "same"]);
    assert_eq!(found[0].as_ptr(), contents.as_ptr());
    assert_eq!(found[1].as_ptr(), contents[11..].as_ptr());
}

#[test]
fn results_are_slices_of_the_contents() {
    let contents = String::from("alpha\nbeta\ngamma\n");
    let begin = contents.as_ptr() as usize;
    let end = begin + contents.len();
    for line in search_case_insensitive("A", &contents) {
        let at = line.as_ptr() as usize;
        assert!(begin <= at && at + line.len() <= end);
    }
}

#[test]
fn searching_twice_gives_the_same() {
    assert_eq!(search("you", POEM), search("you", POEM));
    assert_eq!(search_case_insensitive("YOU", POEM), search_case_insensitive("YOU", POEM));
}

#[test]
fn case_sensitive_matches_are_case_insensitive_matches() {
    for query in ["", "o", "To", "to", "How", "bog!", "us", "I'm"] {
        let loose = search_case_insensitive(query, POEM);
        for line in search(query, POEM) {
            assert!(loose.contains(&line), "{:?} missing for {:?}", line, query);
        }
    }
}

#[test]
fn lowercase_follows_unicode() {
    let contents = "\u{c4}PFEL\n\u{e4}pfel\nApfel\n";
    assert_eq!(
        search_case_insensitive("\u{e4}PFEL", contents),
        vec!["\u{c4}PFEL", "\u{e4}pfel"]
    );
    assert_eq!(search("\u{e4}PFEL", contents), Vec::<&str>::new());
}

#[test]
fn matches_keep_their_case() {
    assert_eq!(search_case_insensitive("shout", "SHOUT\nwhisper\nShOuT it"), vec!["SHOUT", "ShOuT it"]);
}

#[test]
fn final_sigma_can_lose_a_match() {
    let query = "\u{391}\u{3a3}";
    let contents = "\u{391}\u{3a3}\u{391}";
    assert_eq!(search(query, contents), vec![contents]);
    assert_eq!(search_case_insensitive(query, contents), Vec::<&str>::new());
    assert_eq!(search_case_insensitive(query, query), vec![query]);
}

#[test]
fn keys_decide_and_lines_come_back() {
    let keyed = vec![
        ("First", "alpha".to_string()),
        ("Second", "beta".to_string()),
        ("Third", "alphabet".to_string()),
    ];
    assert_eq!(search_by_key("alpha", &keyed), vec!["First", "Third"]);
    assert_eq!(search_by_key("First", &keyed), Vec::<&str>::new());
    assert_eq!(search_by_key("", &keyed), vec!["First", "Second", "Third"]);
    assert_eq!(search_by_key("a", &Vec::new()), Vec::<&str>::new());
}

#[test]
fn keys_are_compared_as_they_are() {
    let keyed = vec![("one", "Rust".to_string()), ("two", "rust".to_string())];
    assert_eq!(search_by_key("rust", &keyed), vec!["two"]);
    assert_eq!(search_by_key("Rust", &keyed), vec!["one"]);
}
