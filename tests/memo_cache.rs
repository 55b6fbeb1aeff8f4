use genedle::genedle::{GameMode, Guess};
use genedle::memo::{guess_key, puzzle_key, seed_key, Memo};

#[test]
fn first_stored_result_is_kept() {
    let mut m: Memo<String> = Memo::new();
    let k = seed_key(1234567890);
    assert!(m.lookup(&k).is_none());
    m.store(k.clone(), "MIB2".to_string());
    assert_eq!(m.lookup(&k), Some(&"MIB2".to_string()));
    m.store(k.clone(), "TLX3".to_string());
    assert_eq!(m.lookup(&k), Some(&"MIB2".to_string()));
    assert!(m.lookup(&seed_key(1234567891)).is_none());
}

#[test]
fn keys_tell_parameters_apart() {
    assert_eq!(puzzle_key(4, 10, 7, 20277), vec![4, 10, 7, 20277]);
    assert_ne!(puzzle_key(4, 10, 7, 20277), puzzle_key(4, 10, 6, 20277));
    let a = Guess { word: "MIB2".chars().collect(), session: 1, mode: GameMode::Normal };
    let b = Guess { word: "MIB2".chars().collect(), session: 1, mode: GameMode::Hard };
    let c = Guess { word: "MIB3".chars().collect(), session: 1, mode: GameMode::Normal };
    assert_eq!(guess_key(&a), vec![1, 0, 'M' as u64, 'I' as u64, 'B' as u64, '2' as u64]);
    assert_ne!(guess_key(&a), guess_key(&b));
    assert_ne!(guess_key(&a), guess_key(&c));
    assert_eq!(guess_key(&a), guess_key(&a.clone()));
}
