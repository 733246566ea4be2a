use ductaper::llm_work::brevity::{abbreviate_words, brevify};

fn pairs(v: &[(&str, &str)]) -> Vec<(String, String)> {
    v.iter().map(|(a, b)| (a.to_string(), b.to_string())).collect()
}

#[test]
fn brevify_abbreviates_repeated_words() {
    let (dict, text) = brevify("The question is the question. The answer.");
    assert_eq!(text, "t1 q1 is t1 q1 t1 answer");
    assert_eq!(dict, pairs(&[("t1", "the"), ("q1", "question")]));
}

#[test]
fn brevify_numbers_per_letter_and_skips_digits() {
    let (dict, text) = brevify("apple avocado apple avocado 42 42");
    assert_eq!(text, "a1 a2 a1 a2 42 42");
    assert_eq!(dict, pairs(&[("a1", "apple"), ("a2", "avocado")]));
}

#[test]
fn brevify_empty_and_symbols() {
    assert_eq!(brevify(""), (Vec::new(), String::new()));
    assert_eq!(brevify("--- !!! ..."), (Vec::new(), String::new()));
}

#[test]
fn brevify_single_words_unchanged() {
    let (dict, text) = brevify("  Hello,   World!  ");
    assert!(dict.is_empty());
    assert_eq!(text, "hello world");
}

#[test]
fn brevify_round_trip() {
    let input = "red green red blue green red";
    let (dict, text) = brevify(input);
    let back: Vec<String> = text
        .split(' ')
        .map(|t| {
            dict.iter()
                .find(|(a, _)| a == t)
                .map(|(_, w)| w.clone())
                .unwrap_or_else(|| t.to_string())
        })
        .collect();
    assert_eq!(back.join(" "), input);
}

#[test]
fn abbreviate_given_words() {
    let words: Vec<Vec<char>> =
        ["Be", "be", "x", "7a", "7a"].iter().map(|w| w.chars().collect()).collect();
    let (dict, text) = abbreviate_words(&words);
    assert_eq!(text, "Be be x 7a 7a");
    assert!(dict.is_empty());
    let words: Vec<Vec<char>> = ["cat", "cow", "cat", "cow", "cat"].iter().map(|w| w.chars().collect()).collect();
    let (dict, text) = abbreviate_words(&words);
    assert_eq!(text, "c1 c2 c1 c2 c1");
    assert_eq!(dict, pairs(&[("c1", "cat"), ("c2", "cow")]));
}
