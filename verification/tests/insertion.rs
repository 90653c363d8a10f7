use create_broken_files::chance::Chance;
use create_broken_files::insertion::{add_random_words, embellish, insert_run, insert_words};
use create_broken_files::text::{chars_of, string_of};
use rand::rngs::StdRng;
use rand::SeedableRng;

fn text(chars: &[char]) -> String {
    chars.iter().collect()
}

/// The tokens that can be made of `word`.
fn tokens_of(word: &str) -> Vec<String> {
    let mut tokens = Vec::new();
    for flags in 0..16u8 {
        let token =
            embellish(word, flags & 1 != 0, flags & 2 != 0, flags & 4 != 0, flags & 8 != 0);
        tokens.push(text(&token));
    }
    tokens
}

/// Whether `after` is `before` with one token of `word` put in front of one
/// of its positions.
fn is_one_insertion(before: &str, after: &str, words: &[&str]) -> bool {
    let before: Vec<char> = before.chars().collect();
    for word in words {
        for token in tokens_of(word) {
            for at in 0..before.len() {
                let mut made: String = before[..at].iter().collect();
                made.push_str(&token);
                made.extend(before[at..].iter());
                if made == after {
                    return true;
                }
            }
        }
    }
    false
}

#[test]
fn test_add_random_words() {
    let mut rng = StdRng::from_entropy();
    for _ in 0..20 {
        let mut data = "SSSSS_____LLLLLKKKKK".chars().collect::<Vec<_>>();
        assert_eq!(data.len(), 20);
        add_random_words(&mut rng, Chance::new(1, 1).unwrap(), &mut data, &["CZCZEK".to_string()]);
    }
}

#[test]
fn words_added_for_certain_lengthen_the_text() {
    let mut rng = StdRng::seed_from_u64(29002);
    for _ in 0..200 {
        let mut data = "SSSSS_____LLLLLKKKKK".chars().collect::<Vec<_>>();
        add_random_words(&mut rng, Chance::new(1, 1).unwrap(), &mut data, &["CZCZEK".to_string()]);
        assert!(data.len() >= 26 && data.len() <= 20 + 4 * 10);
        let made = text(&data);
        let inserted = made.matches('E').count();
        assert!((1..=4).contains(&inserted));
        assert_eq!(made.matches('Z').count(), 2 * inserted);
        let blanks = made.chars().filter(|c| c.is_whitespace()).count();
        assert!(blanks <= 4 * inserted);
        assert_eq!(data.len(), 20 + 6 * inserted + blanks);
        let plain: String = made.chars().filter(|c| "S_L".contains(*c)).collect();
        assert_eq!(plain, "SSSSS_____LLLLL");
    }
}

#[test]
fn words_that_are_never_added_leave_the_text() {
    let mut rng = StdRng::seed_from_u64(29003);
    let mut data: Vec<char> = "some text".chars().collect();
    add_random_words(&mut rng, Chance::new(0, 1).unwrap(), &mut data, &["word".to_string()]);
    assert_eq!(text(&data), "some text");
}

#[test]
fn one_insertion_of_a_six_letter_word_adds_six_to_ten_characters() {
    let mut rng = StdRng::seed_from_u64(29004);
    let words = ["CZCZEK".to_string()];
    for _ in 0..500 {
        let mut data = "SSSSS_____LLLLLKKKKK".chars().collect::<Vec<_>>();
        insert_words(&mut rng, &mut data, &words, 1);
        assert!(data.len() >= 26);
        assert!(data.len() <= 30);
        assert!(is_one_insertion("SSSSS_____LLLLLKKKKK", &text(&data), &["CZCZEK"]));
    }
}

#[test]
fn an_insertion_never_goes_behind_the_last_character() {
    let mut rng = StdRng::seed_from_u64(29005);
    let words = ["+".to_string()];
    for _ in 0..300 {
        let mut data = vec!['a', 'b'];
        insert_words(&mut rng, &mut data, &words, 1);
        let made = text(&data);
        assert!(made.ends_with('b'));
        assert!(is_one_insertion("ab", &made, &["+"]));
    }
}

#[test]
fn no_insertion_changes_nothing() {
    let mut rng = StdRng::seed_from_u64(29006);
    let mut data: Vec<char> = "abc".chars().collect();
    insert_words(&mut rng, &mut data, &["x".to_string()], 0);
    assert_eq!(text(&data), "abc");
}

#[test]
fn several_insertions_pick_among_the_words() {
    let mut rng = StdRng::seed_from_u64(29007);
    let words = ["Aa".to_string(), "Bb".to_string(), "Cc".to_string()];
    let mut seen = [false; 3];
    for _ in 0..200 {
        let mut data: Vec<char> = "0123456789".chars().collect();
        insert_words(&mut rng, &mut data, &words, 3);
        let made = text(&data);
        let mut found = 0;
        for (i, capital) in ['A', 'B', 'C'].iter().enumerate() {
            let count = made.matches(*capital).count();
            assert_eq!(made.matches(capital.to_ascii_lowercase()).count(), count);
            found += count;
            seen[i] = seen[i] || count > 0;
        }
        assert_eq!(found, 3);
        assert!(data.len() >= 10 + 6 && data.len() <= 10 + 3 * 6);
        let plain: String = made.chars().filter(|c| c.is_ascii_digit()).collect();
        assert_eq!(plain, "0123456789");
    }
    assert_eq!(seen, [true, true, true]);
}

#[test]
fn a_token_is_the_word_with_the_chosen_whitespace() {
    assert_eq!(text(&embellish("CZCZEK", false, false, false, false)), "CZCZEK");
    assert_eq!(text(&embellish("CZCZEK", true, false, false, false)), " CZCZEK");
    assert_eq!(text(&embellish("CZCZEK", false, true, false, false)), "\tCZCZEK");
    assert_eq!(text(&embellish("CZCZEK", false, false, true, false)), "\nCZCZEK");
    assert_eq!(text(&embellish("CZCZEK", false, false, false, true)), "CZCZEK ");
    assert_eq!(text(&embellish("CZCZEK", true, true, false, false)), "\t CZCZEK");
    assert_eq!(text(&embellish("CZCZEK", true, true, true, true)), "\n\t CZCZEK ");
    assert_eq!(text(&embellish("", true, false, false, true)), "  ");
    assert_eq!(text(&embellish("żółć", false, false, true, true)), "\nżółć ");
}

#[test]
fn a_run_goes_in_front_of_the_position() {
    let mut data: Vec<char> = "abcd".chars().collect();
    insert_run(&mut data, 2, "XY".chars().collect());
    assert_eq!(text(&data), "abXYcd");
    insert_run(&mut data, 0, vec!['<']);
    assert_eq!(text(&data), "<abXYcd");
    insert_run(&mut data, 7, vec!['>']);
    assert_eq!(text(&data), "<abXYcd>");
    insert_run(&mut data, 3, Vec::new());
    assert_eq!(text(&data), "<abXYcd>");
    let mut empty: Vec<char> = Vec::new();
    insert_run(&mut empty, 0, vec!['q']);
    assert_eq!(text(&empty), "q");
    let mut bytes = vec![1u8, 4];
    insert_run(&mut bytes, 1, vec![2, 3]);
    assert_eq!(bytes, vec![1, 2, 3, 4]);
}

#[test]
fn text_and_characters_convert_both_ways() {
    assert_eq!(chars_of("a√b"), vec!['a', '√', 'b']);
    assert_eq!(chars_of(""), Vec::<char>::new());
    let chars = vec!['h', 'é', 'l', 'l', 'o'];
    assert_eq!(string_of(&chars, 0, 5), "héllo");
    assert_eq!(string_of(&chars, 1, 3), "él");
    assert_eq!(string_of(&chars, 2, 2), "");
    assert_eq!(string_of(&chars, 5, 5), "");
}

#[test]
fn without_words_nothing_is_inserted() {
    let mut rng = StdRng::seed_from_u64(77);
    for chance in [Chance::new(1, 1).unwrap(), Chance::percent(50), Chance::new(0, 1).unwrap()] {
        for _ in 0..50 {
            let mut data: Vec<char> = "left alone".chars().collect();
            add_random_words(&mut rng, chance, &mut data, &[]);
            assert_eq!(text(&data), "left alone");
        }
    }
}

#[test]
fn an_impossible_chance_leaves_the_text_whatever_the_words() {
    let mut rng = StdRng::seed_from_u64(78);
    let words = ["a".to_string(), "".to_string(), "long word".to_string()];
    for _ in 0..50 {
        let mut data: Vec<char> = vec!['x'];
        add_random_words(&mut rng, Chance::percent(0), &mut data, &words);
        assert_eq!(data, vec!['x']);
    }
}
