use typing_core::stats::{calculate_accuracy, calculate_progress, calculate_wpm};

#[test]
fn progress_is_the_typed_share() {
    assert_eq!(calculate_progress(&vec!['a', 'b'], &vec!['c', 'd']), 50);
    assert_eq!(calculate_progress(&vec![], &vec![]), 0);
    assert_eq!(calculate_progress(&vec!['a'], &vec![]), 100);
    assert_eq!(calculate_progress(&vec![], &vec!['a', 'b']), 0);
    // Integer division truncates: 1 of 3 characters is 33%.
    assert_eq!(calculate_progress(&vec!['a'], &vec!['b', 'c']), 33);
}

#[test]
fn wpm_counts_five_character_words() {
    // 300 characters in 60 seconds: 60 words per minute.
    let correct: Vec<char> = std::iter::repeat('x').take(300).collect();
    assert_eq!(calculate_wpm(60, &correct), 60);
    // No elapsed time yields zero, not a division failure.
    assert_eq!(calculate_wpm(0, &correct), 0);
    // 5 characters in 7 seconds: 60/7 words per minute, rounded to 9.
    assert_eq!(calculate_wpm(7, &vec!['a', 'b', 'c', 'd', 'e']), 9);
    // 1 character in 60 seconds: exactly 0.2 words per minute, rounded to 0.
    assert_eq!(calculate_wpm(60, &vec!['a']), 0);
    // 5 characters in 8 seconds: exactly 7.5, rounded half up to 8.
    assert_eq!(calculate_wpm(8, &vec!['a', 'b', 'c', 'd', 'e']), 8);
}

#[test]
fn accuracy_is_rounded_to_the_nearest_percent() {
    let nine: Vec<char> = std::iter::repeat('x').take(9).collect();
    assert_eq!(calculate_accuracy(&nine, &vec![], 1), 90);
    assert_eq!(calculate_accuracy(&vec![], &vec![], 0), 0);
    assert_eq!(calculate_accuracy(&vec!['a', 'b'], &vec![], 0), 100);
    // 1 right, 2 wrong: 33.3% rounds down.
    assert_eq!(calculate_accuracy(&vec!['a'], &vec![], 2), 33);
    // 2 right, 1 wrong: 66.7% rounds up.
    assert_eq!(calculate_accuracy(&vec!['a', 'b'], &vec![], 1), 67);
    // 0 right but mistakes made: 0%.
    assert_eq!(calculate_accuracy(&vec![], &vec![], 3), 0);
}
