use aspirin::life::{find_differences, merge_names, split_string, Differences};

#[test]
fn test_split_string() {
    // First, make sure the lifetimes were correctly marked
    let matches;
    let string_to_split = String::from("Hello, World!");

    {
        let delimeter = String::from(", ");
        matches = split_string(&string_to_split, &delimeter);
    }
    println!("Matches can be printed! See: {:?}", matches);

    // Now the split logic
    assert_eq!(split_string(&"", &""), Vec::<&str>::new());
    assert_eq!(
        split_string(&"Hello, World!", &", "),
        vec!["Hello", "World!"]
    );
    assert_eq!(
        split_string(
            &"I this think this that this sentence this is this very this confusing this ",
            &" this "
        ),
        vec!["I", "think", "that", "sentence", "is", "very", "confusing"]
    );
    assert_eq!(
        split_string(
            &"apple\u{f8ff}\u{fc}\u{e7}\u{e9}banana\u{f8ff}\u{fc}\u{e7}\u{e9}orange",
            &"\u{f8ff}\u{fc}\u{e7}\u{e9}"
        ),
        vec!["apple", "banana", "orange"]
    );
    assert_eq!(
        split_string(
            &"Ayush;put|a,lot~of`random;delimeters|in|this,sentence",
            &";"
        ),
        vec![
            "Ayush",
            "put|a,lot~of`random",
            "delimeters|in|this,sentence"
        ]
    );
}

#[test]
fn test_find_differences() {
    assert_eq!(
        find_differences(&"", &""),
        Differences {
            only_in_first: Vec::new(),
            only_in_second: Vec::new()
        }
    );
    assert_eq!(
        find_differences(&"pineapple pen", &"apple"),
        Differences {
            only_in_first: vec!["pineapple", "pen"],
            only_in_second: Vec::new()
        }
    );
    assert_eq!(
        find_differences(
            &"Sally sold seashells at the seashore",
            &"Seashells seashells at the seashore"
        ),
        Differences {
            only_in_first: vec!["Sally", "sold"],
            only_in_second: vec!["Seashells"]
        }
    );
    assert_eq!(
        find_differences(
            "How much wood could a wood chuck chuck",
            "If a wood chuck could chuck wood"
        ),
        Differences {
            only_in_first: vec!["How", "much"],
            only_in_second: vec!["If"]
        }
    );
    assert_eq!(
        find_differences(
            &"How much ground would a groundhog hog",
            &"If a groundhog could hog ground"
        ),
        Differences {
            only_in_first: vec!["How", "much", "would"],
            only_in_second: vec!["If", "could"]
        }
    );
}

#[test]
fn test_merge_names() {
    assert_eq!(merge_names(&"alex", &"jake"), "aljexake");
    assert_eq!(merge_names(&"steven", &"stephen"), "ststevephenen");
    assert_eq!(merge_names(&"gym", &"rhythm"), "gymrhythm");
    assert_eq!(merge_names(&"walter", &"gibraltor"), "wgaltibreraltor");
    assert_eq!(merge_names(&"baker", &"quaker"), "bqakueraker");
    assert_eq!(merge_names(&"", &""), "");
    assert_eq!(merge_names(&"samesies", &"samesies"), "ssamamesesiieses");
    assert_eq!(merge_names(&"heather", &"meagan"), "hmeeathageran");
    assert_eq!(merge_names(&"panda", &"turtle"), "ptandurtlae");
    assert_eq!(merge_names(&"hot", &"sauce"), "hsotauce");
    assert_eq!(merge_names(&"", &"second"), "second");
    assert_eq!(merge_names(&"first", &""), "first");
}

#[test]
fn split_without_delimiter_gives_whole_string() {
    assert_eq!(split_string("no commas here", ","), vec!["no commas here"]);
}

#[test]
fn split_keeps_empty_pieces_between_delimiters() {
    assert_eq!(split_string(";a;;b;", ";"), vec!["", "a", "", "b"]);
}

#[test]
fn differences_ignore_repeated_whitespace() {
    let d = find_differences("  red\t\tgreen \n blue ", "green");
    assert_eq!(d.only_in_first, vec!["red", "blue"]);
    assert_eq!(d.only_in_second, Vec::<&str>::new());
}

#[test]
fn merge_names_with_capital_vowels() {
    assert_eq!(merge_names("Ada", "Bo"), "AdBao");
}
