use embedded_course::guess::{Game, Verdict};

#[test]
fn guesses_are_judged_and_recorded() {
    let mut game = Game::with_secret(5);
    assert_eq!(game.attempts(), 0);
    assert!(game.history().is_empty());
    assert_eq!(game.guess(3), Verdict::TooSmall);
    assert_eq!(game.guess(7), Verdict::TooBig);
    assert_eq!(game.guess(5), Verdict::Win);
    assert_eq!(game.attempts(), 3);
    let h = game.history();
    assert_eq!(h.len(), 3);
    assert_eq!(h.get(&1), Some(&3));
    assert_eq!(h.get(&2), Some(&7));
    assert_eq!(h.get(&3), Some(&5));
}

#[test]
fn same_guess_twice_counts_twice() {
    let mut game = Game::with_secret(9);
    assert_eq!(game.guess(0), Verdict::TooSmall);
    assert_eq!(game.guess(0), Verdict::TooSmall);
    assert_eq!(game.guess(u32::MAX), Verdict::TooBig);
    assert_eq!(game.attempts(), 3);
    assert_eq!(game.history().len(), 3);
}

#[test]
fn random_secret_is_between_one_and_nine() {
    for _ in 0..50 {
        let mut game = Game::new();
        assert_eq!(game.guess(0), Verdict::TooSmall);
        assert_eq!(game.guess(10), Verdict::TooBig);
        let mut won = false;
        for g in 1..10 {
            if game.guess(g) == Verdict::Win {
                won = true;
                break;
            }
        }
        assert!(won);
    }
}

#[test]
fn random_secrets_vary() {
    let mut seen = [false; 10];
    for _ in 0..100 {
        let mut game = Game::new();
        for g in 1..10 {
            if game.guess(g) == Verdict::Win {
                seen[g as usize] = true;
                break;
            }
        }
    }
    let distinct = seen.iter().filter(|s| **s).count();
    assert!(distinct >= 2);
}
