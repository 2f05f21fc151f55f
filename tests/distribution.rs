use wordle_entropy::{check, distribution, distributions, Hint, Hints, Word, PATTERN_COUNT};
use wordle_entropy::Hint::{Exact, Exist, Missing};

fn w(s: &str) -> Word {
    Word::parse(s).unwrap()
}

fn words(list: &[&str]) -> Vec<Word> {
    list.iter().map(|s| w(s)).collect()
}

fn entropy(counts: &[usize], n: usize) -> f64 {
    counts
        .iter()
        .filter(|&&c| c > 0)
        .map(|&c| {
            let p = c as f64 / n as f64;
            -p * p.log2()
        })
        .sum()
}

#[test]
fn code_is_base_three() {
    assert_eq!(Hints([Exact; 5]).code(), 0);
    assert_eq!(Hints([Missing; 5]).code(), PATTERN_COUNT - 1);
    assert_eq!(Hints([Exist, Exact, Exact, Exact, Exact]).code(), 1);
    assert_eq!(Hints([Exact, Missing, Exact, Exact, Exact]).code(), 6);
    assert_eq!(Hints([Exact, Exact, Exact, Exact, Exist]).code(), 81);
}

#[test]
fn render_uses_one_glyph_per_hint() {
    let h = Hints([Exact, Exist, Missing, Missing, Missing]);
    assert_eq!(h.render(), "🟩🟨⬜️⬜️⬜️");
    assert_eq!(Exact.glyph(), "🟩");
    assert_eq!(Exist.glyph(), "🟨");
    assert_eq!(Missing.glyph(), "⬜️");
}

#[test]
fn end_to_end_three_truths() {
    let truths = words(&["abcde", "edcba", "fghij"]);
    let guess = w("abcde");
    assert_eq!(check(guess, truths[0]), Hints([Exact; 5]));
    assert_eq!(
        check(guess, truths[1]),
        Hints([Exist, Exist, Exact, Exist, Exist])
    );
    assert_eq!(check(guess, truths[2]), Hints([Missing; 5]));
    let d = distribution(guess, &truths);
    assert_eq!(d.len(), PATTERN_COUNT);
    assert_eq!(d[Hints([Exact; 5]).code()], 1);
    assert_eq!(d[Hints([Exist, Exist, Exact, Exist, Exist]).code()], 1);
    assert_eq!(d[Hints([Missing; 5]).code()], 1);
    assert_eq!(d.iter().sum::<usize>(), 3);
    let e = entropy(&d, truths.len());
    assert!((e - 3f64.log2()).abs() < 1e-9);
    assert!((e - 1.58496).abs() < 1e-5);
}

#[test]
fn identical_patterns_give_zero_entropy() {
    let truths = words(&["fghij", "klmno", "pqrst", "uvwxy"]);
    let d = distribution(w("abcde"), &truths);
    assert_eq!(d[Hints([Hint::Missing; 5]).code()], 4);
    assert_eq!(d.iter().filter(|&&c| c > 0).count(), 1);
    assert_eq!(entropy(&d, truths.len()), 0.0);
}

#[test]
fn distinct_patterns_give_log_n_entropy() {
    let truths = words(&["abcde", "edcba", "fghij", "abcdz"]);
    let d = distribution(w("abcde"), &truths);
    assert!(d.iter().all(|&c| c <= 1));
    let e = entropy(&d, truths.len());
    assert!((e - 2.0).abs() < 1e-9);
}

#[test]
fn entropy_within_bounds() {
    let truths = words(&["crane", "slate", "trace", "crate", "react", "caret", "speed"]);
    let n = truths.len();
    for g in &truths {
        let e = entropy(&distribution(*g, &truths), n);
        assert!(e >= 0.0 && e <= (n as f64).log2() + 1e-9);
    }
}

#[test]
fn empty_truths_give_empty_distribution() {
    let d = distribution(w("crane"), &Vec::new());
    assert_eq!(d.len(), PATTERN_COUNT);
    assert!(d.iter().all(|&c| c == 0));
}

#[test]
fn distributions_follow_guess_order() {
    let list = words(&["crane", "slate", "speed"]);
    let all = distributions(&list, &list);
    assert_eq!(all.len(), 3);
    for (i, g) in list.iter().enumerate() {
        assert_eq!(all[i], distribution(*g, &list));
    }
    assert_eq!(distributions(&Vec::new(), &list).len(), 0);
}

#[test]
fn distributions_are_deterministic() {
    let list = words(&["crane", "slate", "speed", "erase", "abide"]);
    assert_eq!(distributions(&list, &list), distributions(&list, &list));
}
