use std::sync::Arc;
use wortgen::context::AppContext;
use wortgen::generator::{CompoundGenerator, Generator};

fn lines_of(text: &str) -> Vec<String> {
    text.lines().map(String::from).collect()
}

fn strings(words: &[&str]) -> Vec<String> {
    words.iter().map(|w| w.to_string()).collect()
}

#[test]
fn generate_some() {
    let dict = lines_of("#comment\nAlpha\n# comment\n   Bravo");
    let generator = CompoundGenerator::new(&dict, "-");

    assert_eq!(generator.generate("ab"), Some("Alpha-Bravo".to_string()));
}

#[test]
fn generate_none() {
    let generator = CompoundGenerator::new(&Vec::new(), "-");

    assert_eq!(generator.generate("ab"), None);
    assert_eq!(generator.generate(""), None);
}

#[test]
fn index_skips_comments_and_trims() {
    let dict = lines_of("#comment\nAlpha\n# comment\n   Bravo");
    let generator = CompoundGenerator::new(&dict, "-");

    assert_eq!(generator.candidates('A'), Some(&strings(&["Alpha"])));
    assert_eq!(generator.candidates('B'), Some(&strings(&["Bravo"])));
    assert_eq!(generator.candidates('#'), None);
    assert_eq!(generator.candidates('C'), None);
    assert_eq!(generator.candidates('a'), None);
}

#[test]
fn index_detects_comments_before_trimming() {
    let generator = CompoundGenerator::new(&lines_of("  #indented\n#plain"), "-");

    assert_eq!(generator.candidates('#'), Some(&strings(&["#indented"])));
}

#[test]
fn index_keeps_file_order_and_folds_case() {
    let dict = lines_of("apple\nBanana\nAvocado\n\n   \nalmond  \r\nbean");
    let generator = CompoundGenerator::new(&dict, "-");

    assert_eq!(
        generator.candidates('A'),
        Some(&strings(&["apple", "Avocado", "almond"]))
    );
    assert_eq!(generator.candidates('B'), Some(&strings(&["Banana", "bean"])));
    assert_eq!(generator.candidates(' '), None);
}

#[test]
fn index_folds_non_ascii_letters() {
    let generator = CompoundGenerator::new(&lines_of("élan\nÖl"), "-");

    assert_eq!(generator.candidates('É'), Some(&strings(&["élan"])));
    assert_eq!(generator.candidates('Ö'), Some(&strings(&["Öl"])));
}

#[test]
fn generate_is_case_insensitive() {
    let generator = CompoundGenerator::new(&strings(&["Alpha", "Bravo"]), "-");

    assert_eq!(generator.generate("ab"), Some("Alpha-Bravo".to_string()));
    assert_eq!(generator.generate("AB"), Some("Alpha-Bravo".to_string()));
    assert_eq!(generator.generate("aB"), Some("Alpha-Bravo".to_string()));
    assert_eq!(generator.generate("ba"), Some("Bravo-Alpha".to_string()));
}

#[test]
fn generate_single_letter_has_no_delimiter() {
    let generator = CompoundGenerator::new(&strings(&["Alpha"]), "-");

    assert_eq!(generator.generate("a"), Some("Alpha".to_string()));
    assert_eq!(generator.generate("aaa"), Some("Alpha-Alpha-Alpha".to_string()));
}

#[test]
fn generate_uses_the_delimiter() {
    let generator = CompoundGenerator::new(&strings(&["Mittag", "Pause"]), " + ");

    assert_eq!(generator.generate("mp"), Some("Mittag + Pause".to_string()));
}

#[test]
fn generate_fails_on_a_missing_letter() {
    let generator = CompoundGenerator::new(&strings(&["Alpha", "Bravo"]), "-");

    assert_eq!(generator.generate("abz"), None);
    assert_eq!(generator.generate("z"), None);
    assert_eq!(generator.generate("a b"), None);
}

#[test]
fn generate_empty_term_fails() {
    let generator = CompoundGenerator::new(&strings(&["Alpha", "Bravo"]), "-");

    assert_eq!(generator.generate(""), None);
}

#[test]
fn generate_on_empty_dictionary_fails() {
    let generator = CompoundGenerator::new(&Vec::new(), "-");

    assert_eq!(generator.generate("x"), None);
    assert_eq!(generator.generate("MP"), None);
    assert_eq!(generator.generate(""), None);
}

#[test]
fn generate_folds_the_whole_term() {
    let generator = CompoundGenerator::new(&strings(&["Sonne"]), "-");

    assert_eq!(generator.generate("ß"), Some("Sonne-Sonne".to_string()));
}

#[test]
fn generate_draws_only_candidates_and_reaches_each() {
    let words = strings(&["Anker", "Apfel", "Ast", "Bach"]);
    let generator = CompoundGenerator::new(&words, "-");
    let a_words = &words[..3];
    let mut seen = [false; 3];
    for _ in 0..1000 {
        let result = generator.generate("ab").unwrap();
        let parts: Vec<&str> = result.split('-').collect();
        assert_eq!(parts.len(), 2);
        let pos = a_words.iter().position(|w| w == parts[0]);
        assert!(pos.is_some(), "{} is no candidate of A", parts[0]);
        seen[pos.unwrap()] = true;
        assert_eq!(parts[1], "Bach");
    }
    assert!(seen.iter().all(|s| *s));
}

#[test]
fn generate_twice_gives_the_same_shape() {
    let words = strings(&["Anker", "Apfel", "Bach", "Berg", "Cello"]);
    let generator = CompoundGenerator::new(&words, "-");
    for _ in 0..100 {
        let first = generator.generate("abca").unwrap();
        let second = generator.generate("abca").unwrap();
        assert_eq!(first.split('-').count(), 4);
        assert_eq!(second.split('-').count(), 4);
        assert!(first.ends_with(|c: char| c.is_lowercase()));
    }
    assert_eq!(generator.generate("abx"), None);
    assert_eq!(generator.generate("abx"), None);
}

#[test]
fn expand_takes_the_picked_candidates() {
    let words = strings(&["Anker", "Apfel", "Bach", "Berg"]);
    let generator = CompoundGenerator::new(&words, "-");

    assert_eq!(
        generator.expand(&vec!['A', 'B'], &vec![1, 0]),
        Some("Apfel-Bach".to_string())
    );
    assert_eq!(
        generator.expand(&vec!['B', 'A', 'B'], &vec![1, 0, 0]),
        Some("Berg-Anker-Bach".to_string())
    );
}

#[test]
fn expand_rejects_what_it_cannot_pick() {
    let words = strings(&["Anker", "Apfel", "Bach"]);
    let generator = CompoundGenerator::new(&words, "-");

    assert_eq!(generator.expand(&vec!['A', 'B'], &vec![2, 0]), None);
    assert_eq!(generator.expand(&vec!['A', 'C'], &vec![0, 0]), None);
    assert_eq!(generator.expand(&vec!['A', 'B'], &vec![0]), None);
    assert_eq!(generator.expand(&vec![], &vec![]), None);
    assert_eq!(generator.expand(&vec!['a'], &vec![0]), None);
}

#[test]
fn context_shares_the_generator() {
    let generator = CompoundGenerator::new(&strings(&["Mittag", "Pause"]), "-");
    let context = AppContext {
        generator: Arc::new(generator),
        default_term: "MP".to_string(),
    };

    assert_eq!(
        context.generator.generate(&context.default_term),
        Some("Mittag-Pause".to_string())
    );
}

#[test]
fn from_entries_appends_in_order() {
    let entries = vec![
        ('B', "Berg".to_string()),
        ('A', "Anker".to_string()),
        ('B', "Bach".to_string()),
        ('x', "xylo".to_string()),
    ];
    let generator = CompoundGenerator::from_entries(&entries, "-");

    assert_eq!(generator.candidates('A'), Some(&strings(&["Anker"])));
    assert_eq!(generator.candidates('B'), Some(&strings(&["Berg", "Bach"])));
    assert_eq!(generator.candidates('x'), Some(&strings(&["xylo"])));
    assert_eq!(generator.candidates('X'), None);
    assert_eq!(
        generator.expand(&vec!['B', 'A', 'x'], &vec![1, 0, 0]),
        Some("Bach-Anker-xylo".to_string())
    );
}

#[test]
fn from_no_entries_is_empty() {
    let generator = CompoundGenerator::from_entries(&Vec::new(), "-");

    assert_eq!(generator.candidates('A'), None);
    assert_eq!(generator.generate("a"), None);
}
