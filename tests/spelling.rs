use genedle::registry::{RegistryReply, SymbolSearch};
use genedle::spelling_gene::{
    check_guess, draw_letters, fits_letters, gather_pool, generate_game, get_letters, pool_letters,
    search, try_letters, GenerationFailed, SpellingGeneGame,
};

const ALPHABET: &str = "ABCDEFGHIJKLMNOPQRSTUVWXYZ-";

fn answered(symbols: Vec<String>) -> RegistryReply {
    RegistryReply::Answered(SymbolSearch { status: 0, num_found: symbols.len(), symbols })
}

/// Every "XXXX" and "XYXY" over the alphabet, and a few short symbols.
fn rich_replies() -> Vec<(RegistryReply, RegistryReply)> {
    let letters: Vec<char> = ALPHABET.chars().collect();
    let mut repeated = Vec::new();
    let mut paired = Vec::new();
    for &x in &letters {
        repeated.push([x, x, x, x].iter().collect::<String>());
        repeated.push([x, x].iter().collect::<String>());
        for &y in &letters {
            if x != y {
                paired.push([x, y, x, y].iter().collect::<String>());
            }
        }
    }
    vec![(answered(repeated), answered(paired))]
}

fn strings(v: &[&str]) -> Vec<String> {
    v.iter().map(|s| s.to_string()).collect()
}

fn assert_shape(game: &SpellingGeneGame, num_letters: usize, min_length: usize, min_words: usize) {
    let outer = &game.metadata.outer_letters;
    let center = game.metadata.center_letter;
    assert_eq!(outer.len(), num_letters - 1);
    assert!(!outer.contains(&center));
    let mut all = outer.clone();
    all.push(center);
    all.sort();
    all.dedup();
    assert_eq!(all.len(), num_letters);
    assert!(all.iter().all(|c| ALPHABET.contains(*c)));
    assert!(game.valid_symbols.len() >= min_words);
    for symbol in &game.valid_symbols {
        assert!(symbol.chars().count() >= min_length);
        assert!(symbol.contains(center));
        assert!(symbol.chars().all(|c| c == center || outer.contains(&c)));
    }
    let mut distinct = game.valid_symbols.clone();
    distinct.sort();
    distinct.dedup();
    assert_eq!(distinct.len(), game.valid_symbols.len());
}

#[test]
fn generated_puzzles_meet_their_parameters() {
    for num_letters in [6u8, 7] {
        for seed in [20277u64, 1, 99] {
            let (mut rng, pool_letters_drawn) = pool_letters(seed, num_letters);
            assert_eq!(pool_letters_drawn.len(), num_letters as usize + 5);
            let game = generate_game(&mut rng, &rich_replies(), 4, 10, num_letters).unwrap();
            assert_shape(&game, num_letters as usize, 4, 10);
        }
    }
}

#[test]
fn same_parameters_give_the_same_puzzle() {
    let (mut a, la) = pool_letters(20277, 7);
    let (mut b, lb) = pool_letters(20277, 7);
    assert_eq!(la, lb);
    let ga = generate_game(&mut a, &rich_replies(), 4, 10, 7);
    let gb = generate_game(&mut b, &rich_replies(), 4, 10, 7);
    assert_eq!(ga, gb);
}

#[test]
fn members_of_a_puzzle_are_accepted() {
    let (mut rng, _) = pool_letters(20277, 7);
    let game = generate_game(&mut rng, &rich_replies(), 4, 10, 7);
    let g = game.clone().unwrap();
    for symbol in &g.valid_symbols {
        assert!(check_guess(&game, symbol));
    }
    let center = g.metadata.center_letter;
    let outsider: String = ALPHABET.chars().filter(|c| *c != center && !g.metadata.outer_letters.contains(c)).take(4).collect();
    assert!(!check_guess(&game, &outsider));
    let short: String = [center, center].iter().collect();
    assert!(!check_guess(&game, &short));
}

#[test]
fn exhausted_retries_fail_and_accept_nothing() {
    let (mut rng, _) = pool_letters(5, 7);
    let replies = vec![(answered(strings(&["ABCD", "AAAA"])), answered(Vec::new()))];
    let game = generate_game(&mut rng, &replies, 4, 3, 7);
    assert_eq!(game, Err(GenerationFailed));
    assert!(!check_guess(&game, &"AAAA".to_string()));
    assert_eq!(get_letters(&game), None);
}

#[test]
fn no_word_target_always_succeeds() {
    let (mut rng, _) = pool_letters(3, 7);
    let game = generate_game(&mut rng, &Vec::new(), 4, 0, 7).unwrap();
    assert!(game.valid_symbols.is_empty());
    assert_eq!(game.metadata.outer_letters.len(), 6);
}

#[test]
fn puzzle_letters_are_reported() {
    let (mut rng, _) = pool_letters(20277, 7);
    let game = generate_game(&mut rng, &rich_replies(), 4, 10, 7);
    let g = game.clone().unwrap();
    let m = get_letters(&game).unwrap();
    assert_eq!(m, g.metadata);
}

#[test]
fn try_letters_lists_each_fitting_symbol_once() {
    let pool = strings(&["ABC", "CAB", "ABC", "XYZ", "AB", "CCCC"]);
    let letters = vec!['A', 'B', 'C'];
    let game = try_letters(&pool, &letters, 3).unwrap();
    assert_eq!(game.metadata.outer_letters, vec!['A', 'B']);
    assert_eq!(game.metadata.center_letter, 'C');
    assert_eq!(game.valid_symbols, strings(&["ABC", "CAB", "CCCC"]));
    assert!(try_letters(&pool, &letters, 4).is_none());
}

#[test]
fn fitting_needs_the_center_and_only_the_letters() {
    let letters = vec!['A', 'B', 'C'];
    assert!(fits_letters(&"CAB".to_string(), &letters));
    assert!(!fits_letters(&"AB".to_string(), &letters));
    assert!(!fits_letters(&"CAD".to_string(), &letters));
    assert!(!fits_letters(&String::new(), &letters));
}

#[test]
fn pool_skips_failed_letters_and_short_symbols() {
    let replies = vec![
        (answered(strings(&["ABCD", "AB"])), answered(strings(&["XYZW"]))),
        (RegistryReply::Failed("down".to_string()), answered(strings(&["QQQQ"]))),
        (
            RegistryReply::Answered(SymbolSearch { status: 2, num_found: 1, symbols: strings(&["RRRR"]) }),
            answered(strings(&["SSSS"])),
        ),
    ];
    let mut pool = gather_pool(&replies, 4);
    pool.sort();
    assert_eq!(pool, strings(&["ABCD", "SSSS", "XYZW"]));
}

#[test]
fn draw_letters_shuffles_the_alphabet() {
    let (mut rng, _) = pool_letters(42, 1);
    let all = draw_letters(&mut rng, 40);
    assert_eq!(all.len(), 27);
    let mut sorted = all.clone();
    sorted.sort();
    let mut expected: Vec<char> = ALPHABET.chars().collect();
    expected.sort();
    assert_eq!(sorted, expected);
    assert_ne!(all, ALPHABET.chars().collect::<Vec<char>>());
}

#[test]
fn search_gives_up_on_an_empty_pool() {
    let (mut rng, _) = pool_letters(9, 7);
    assert_eq!(search(&mut rng, &Vec::new(), 7, 1), Err(GenerationFailed));
}
