use wordle_entropy::{check, Hint, Hints, Word};
use wordle_entropy::Hint::{Exact, Exist, Missing};

fn w(s: &str) -> Word {
    Word::parse(s).unwrap()
}

#[test]
fn test_check() {
    assert_eq!(check(w("abced"), w("abced")), Hints([Exact; 5]));
    assert_eq!(check(w("abced"), w("edbca")), Hints([Exist; 5]));
    assert_eq!(check(w("abcde"), w("fghij")), Hints([Missing; 5]));
    assert_eq!(check(w("torus"), w("torus")), Hints([Exact; 5]));
    assert_eq!(
        check(w("surot"), w("torus")),
        Hints([Exist, Exist, Exact, Exist, Exist])
    );
    assert_eq!(
        check(w("acute"), w("torus")),
        Hints([Missing, Missing, Exist, Exist, Missing])
    );
    assert_eq!(
        check(w("maths"), w("torus")),
        Hints([Missing, Missing, Exist, Missing, Exact])
    );
    assert_eq!(
        check(w("speed"), w("abide")),
        Hints([Missing, Missing, Exist, Missing, Exist])
    );
    assert_eq!(
        check(w("speed"), w("erase")),
        Hints([Exist, Missing, Exist, Exist, Missing])
    );
}

#[test]
fn self_check_is_all_exact() {
    for s in ["crane", "speed", "aaaaa", "zzzzy"] {
        assert_eq!(check(w(s), w(s)), Hints([Hint::Exact; 5]));
    }
}

#[test]
fn disjoint_letters_are_all_missing() {
    assert_eq!(check(w("crane"), w("dusty")), Hints([Hint::Missing; 5]));
    assert_eq!(check(w("crane"), w("lofty")), Hints([Hint::Missing; 5]));
}

#[test]
fn anagram_has_no_missing() {
    for (g, t) in [("crane", "nacre"), ("speed", "deeps"), ("aabbc", "cbaba")] {
        let h = check(w(g), w(t));
        assert!(h.0.iter().all(|&x| x != Hint::Missing), "{} {}", g, t);
    }
}

#[test]
fn duplicate_guess_letter_single_in_truth() {
    assert_eq!(
        check(w("speed"), w("abide")),
        Hints([Missing, Missing, Exist, Missing, Exist])
    );
    assert_eq!(
        check(w("eexxx"), w("yyyye")),
        Hints([Exist, Missing, Missing, Missing, Missing])
    );
}

#[test]
fn exact_match_does_not_consume_occurrence() {
    // The existence pass searches the whole truth, exact positions included.
    assert_eq!(
        check(w("abcbb"), w("xbxxx")),
        Hints([Missing, Exact, Missing, Exist, Missing])
    );
}

#[test]
fn check_leaves_inputs_unchanged() {
    let g = w("speed");
    let t = w("erase");
    let _ = check(g, t);
    assert_eq!(g, w("speed"));
    assert_eq!(t, w("erase"));
}
