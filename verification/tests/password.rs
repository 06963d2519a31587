use shuttlings_cch23::basic::{classify_basic, classify_glyphs, NiceInput};
use shuttlings_cch23::classes::{check_all_kinds, count_digits};
use shuttlings_cch23::digest::{digest_of, ends_in_a};
use shuttlings_cch23::digits::sum_of_numbers;
use shuttlings_cch23::game::{
    check, check_text, find_text_failure, judge, step, validate_game, GameVerdict, Rule, Stage,
};
use shuttlings_cch23::glyph::{classify_text, Glyph};
use shuttlings_cch23::joy::{check_joyful, collect_joy_letters};
use shuttlings_cch23::outcome::Outcome;
use shuttlings_cch23::patterns::{find_emoji, find_sandwich, find_symbol};

const NICE: &str = "2000.23.A joy aba \u{2981}\u{1F601} u";
const NO_BREWER: &str = "2000.23.A joy aba \u{2981}\u{1F601} z";

fn plain(ch: char) -> Glyph {
    Glyph {
        ch,
        alphabetic: ch.is_ascii_alphabetic(),
        uppercase: ch.is_ascii_uppercase(),
        lowercase: ch.is_ascii_lowercase(),
        numeric: ch.is_ascii_digit(),
    }
}

fn plain_text(text: &str) -> Vec<Glyph> {
    text.chars().map(plain).collect()
}

fn assert_verdict(verdict: &GameVerdict, outcome: Outcome, reason: &str, signal: u16) {
    assert_eq!(verdict.outcome, outcome);
    assert_eq!(verdict.reason, reason);
    assert_eq!(verdict.signal, signal);
}

#[test]
fn basic_rejects_forbidden_pair() {
    assert_eq!(classify_basic("xyz"), Outcome::Naughty);
    let input = NiceInput { input: "xyz".to_string() };
    assert_eq!(input.is_nice(), "naughty");
}

#[test]
fn basic_accepts_repeat_and_vowels() {
    assert_eq!(classify_basic("aaaaeiouy"), Outcome::Nice);
    let input = NiceInput { input: "aaaaeiouy".to_string() };
    assert_eq!(input.is_nice(), "nice");
}

#[test]
fn basic_needs_an_alphabetic_repeat() {
    assert_eq!(classify_basic("11aeiou"), Outcome::Naughty);
    assert_eq!(classify_basic("aeiouu"), Outcome::Nice);
    assert_eq!(classify_basic(""), Outcome::Naughty);
}

#[test]
fn basic_counts_lower_case_vowels_only() {
    assert_eq!(classify_basic("AEIOUzz"), Outcome::Naughty);
    assert_eq!(classify_basic("zzae"), Outcome::Naughty);
    assert_eq!(classify_basic("zzaey"), Outcome::Nice);
}

#[test]
fn basic_rejects_each_forbidden_pair() {
    assert_eq!(classify_basic("eeeab"), Outcome::Naughty);
    assert_eq!(classify_basic("eeecd"), Outcome::Naughty);
    assert_eq!(classify_basic("eeepq"), Outcome::Naughty);
    assert_eq!(classify_basic("eeexy"), Outcome::Naughty);
    assert_eq!(classify_basic("eeeba"), Outcome::Nice);
}

#[test]
fn basic_is_the_same_on_every_run() {
    for text in ["aaaaeiouy", "xyz", "", "hello there my friend"] {
        let first = classify_basic(text);
        for _ in 0..5 {
            assert_eq!(classify_basic(text), first);
        }
    }
}

#[test]
fn basic_on_given_glyphs() {
    assert_eq!(classify_glyphs(&plain_text("aaaaeiouy")), Outcome::Nice);
    let mut unlettered = plain_text("aaaaeiouy");
    for g in unlettered.iter_mut() {
        g.alphabetic = false;
    }
    assert_eq!(classify_glyphs(&unlettered), Outcome::Naughty);
}

#[test]
fn outcome_words_and_signals() {
    assert_eq!(Outcome::Nice.label(), "nice");
    assert_eq!(Outcome::Naughty.label(), "naughty");
    assert_eq!(Outcome::Nice.status(), 200);
    assert_eq!(Outcome::Naughty.status(), 400);
}

#[test]
fn game_rejects_empty_text() {
    assert_verdict(&validate_game(""), Outcome::Naughty, "8 chars", 400);
}

#[test]
fn game_counts_characters_not_bytes() {
    assert_verdict(&validate_game("\u{e9}\u{e9}\u{e9}\u{e9}\u{e9}"), Outcome::Naughty, "8 chars", 400);
    assert_verdict(&validate_game("1234567"), Outcome::Naughty, "8 chars", 400);
}

#[test]
fn game_wants_three_kinds() {
    assert_verdict(&validate_game("2883 anyone joy"), Outcome::Naughty, "more types of chars", 400);
    assert_verdict(&validate_game("ABCDEFGH1"), Outcome::Naughty, "more types of chars", 400);
    assert_verdict(&validate_game("ABCDEFGHa"), Outcome::Naughty, "more types of chars", 400);
}

#[test]
fn game_wants_five_digits_at_length_eight() {
    assert_verdict(&validate_game("Abcd1234"), Outcome::Naughty, "55555", 400);
}

#[test]
fn game_wants_the_sum() {
    assert_verdict(&validate_game("2883 Anyone joy 1"), Outcome::Naughty, "math is hard", 400);
    assert_verdict(&validate_game("Ab 2000 24"), Outcome::Naughty, "math is hard", 400);
}

#[test]
fn game_wants_joy() {
    assert_verdict(&validate_game("Ab 2000 23"), Outcome::Naughty, "not joyful enough", 406);
    assert_verdict(&validate_game("Ab 2000 23 joyjoy"), Outcome::Naughty, "not joyful enough", 406);
    assert_verdict(&validate_game("Ab 2000 23 yoj"), Outcome::Naughty, "not joyful enough", 406);
}

#[test]
fn game_wants_a_sandwich() {
    assert_verdict(&validate_game("Ab 2000 23 joy"), Outcome::Naughty, "illegal: no sandwich", 451);
    assert_verdict(&validate_game("A 2000 23 j-o-y 1b1"), Outcome::Naughty, "math is hard", 400);
    assert_verdict(&validate_game("A 2000 23 j-o-y a1a"), Outcome::Naughty, "math is hard", 400);
    assert_verdict(&validate_game("A 2000 23 j-o-y a.a"), Outcome::Naughty, "illegal: no sandwich", 451);
    assert_verdict(&validate_game("A 2000 23 j-o-y aaa"), Outcome::Naughty, "illegal: no sandwich", 451);
}

#[test]
fn game_wants_a_symbol_in_range() {
    assert_verdict(&validate_game("2000.23.A joy aba"), Outcome::Naughty, "outranged", 416);
    assert_verdict(&validate_game("2000.23.A joy aba \u{2980}"), Outcome::Naughty, "outranged", 416);
    assert_verdict(&validate_game("2000.23.A joy aba \u{2BFF}"), Outcome::Naughty, "outranged", 416);
}

#[test]
fn game_wants_an_emoji_in_range() {
    let reason = "\u{f0}\u{178}\u{2dc}\u{b3}";
    assert_verdict(&validate_game("2000.23.A joy aba \u{2981}"), Outcome::Naughty, reason, 426);
    assert_verdict(&validate_game("2000.23.A joy aba \u{2BFE}\u{1F600}"), Outcome::Naughty, reason, 426);
    assert_verdict(&validate_game("2000.23.A joy aba \u{2BFE}\u{1F64F}"), Outcome::Naughty, reason, 426);
    assert_verdict(&validate_game("2000.23.A joy aba \u{2BFE}\u{1F900}"), Outcome::Naughty, reason, 426);
    assert_verdict(&validate_game("2000.23.A joy aba \u{2BFE}\u{1F9FF}"), Outcome::Naughty, reason, 426);
}

#[test]
fn game_wants_a_coffee_brewer() {
    assert_verdict(&validate_game(NO_BREWER), Outcome::Naughty, "not a coffee brewer", 418);
}

#[test]
fn game_accepts_a_nice_password() {
    assert_verdict(&validate_game(NICE), Outcome::Nice, "that's a nice password", 200);
    let other = "2000.23.A joy aba \u{2BFE}\u{1F9FE} bc";
    assert_verdict(&validate_game(other), Outcome::Nice, "that's a nice password", 200);
}

#[test]
fn game_is_the_same_on_every_run() {
    for text in [NICE, NO_BREWER, "", "Abcd1234", "2883 anyone joy"] {
        let first = validate_game(text);
        for _ in 0..5 {
            let again = validate_game(text);
            assert_verdict(&again, first.outcome, &first.reason, first.signal);
        }
    }
}

#[test]
fn game_reports_the_first_failure_only() {
    // Fails the rules on length, kinds, digits, sum, joy, sandwich and both ranges at once.
    assert_verdict(&validate_game("abc"), Outcome::Naughty, "8 chars", 400);
    // Long enough, and still fails every later rule.
    assert_verdict(&validate_game("abcdefghi"), Outcome::Naughty, "more types of chars", 400);
    assert_verdict(&validate_game("Abcdefgh1"), Outcome::Naughty, "55555", 400);
    assert_verdict(&validate_game("Abcdefgh12345"), Outcome::Naughty, "math is hard", 400);
}

#[test]
fn naughty_exactly_when_signal_is_not_200() {
    let texts = [
        NICE,
        NO_BREWER,
        "",
        "abcdefghi",
        "Abcd1234",
        "Ab 2000 24",
        "Ab 2000 23",
        "Ab 2000 23 joy",
        "2000.23.A joy aba",
        "2000.23.A joy aba \u{2981}",
    ];
    for text in texts {
        let verdict = validate_game(text);
        assert_eq!(verdict.outcome == Outcome::Naughty, verdict.signal != 200);
    }
}

#[test]
fn judge_on_given_digest() {
    let glyphs = classify_text(NICE);
    assert_verdict(&judge(&glyphs, &vec![0x12, 0xfa]), Outcome::Nice, "that's a nice password", 200);
    assert_verdict(&judge(&glyphs, &vec![0x12, 0xaf]), Outcome::Naughty, "not a coffee brewer", 418);
    assert_verdict(&judge(&glyphs, &vec![]), Outcome::Naughty, "not a coffee brewer", 418);
    let short = classify_text("abc");
    assert_verdict(&judge(&short, &vec![0x0a]), Outcome::Naughty, "8 chars", 400);
}

#[test]
fn verdict_body() {
    assert_eq!(validate_game("").body(), "{\"result\":\"naughty\",\"reason\":\"8 chars\"}");
    assert_eq!(
        validate_game(NICE).body(),
        "{\"result\":\"nice\",\"reason\":\"that's a nice password\"}"
    );
}

#[test]
fn rules_in_order() {
    let rules = [
        (Rule::Length, "8 chars", 400),
        (Rule::Kinds, "more types of chars", 400),
        (Rule::Digits, "55555", 400),
        (Rule::Sum, "math is hard", 400),
        (Rule::Joy, "not joyful enough", 406),
        (Rule::Sandwich, "illegal: no sandwich", 451),
        (Rule::Symbol, "outranged", 416),
        (Rule::Emoji, "\u{f0}\u{178}\u{2dc}\u{b3}", 426),
        (Rule::Digest, "not a coffee brewer", 418),
    ];
    for (place, (rule, reason, signal)) in rules.iter().enumerate() {
        assert_eq!(rule.index() as usize, place + 1);
        assert_eq!(rule.reason(), *reason);
        assert_eq!(rule.signal(), *signal);
        let verdict = GameVerdict::from_failure(Some(*rule));
        assert_verdict(&verdict, Outcome::Naughty, reason, *signal);
    }
    assert_verdict(&GameVerdict::from_failure(None), Outcome::Nice, "that's a nice password", 200);
}

#[test]
fn digest_matches_known_values() {
    let empty = digest_of("");
    assert_eq!(empty.len(), 32);
    assert_eq!(&empty[..4], &[0xe3, 0xb0, 0xc4, 0x42]);
    assert_eq!(empty[31], 0x55);
    assert!(!ends_in_a(&empty));
    let nice = digest_of(NICE);
    assert_eq!(nice[31], 0xba);
    assert!(ends_in_a(&nice));
    assert!(!ends_in_a(&digest_of(NO_BREWER)));
}

#[test]
fn hex_ending() {
    assert!(ends_in_a(&vec![0x0a]));
    assert!(ends_in_a(&vec![0xff, 0x3a]));
    assert!(!ends_in_a(&vec![0xa0]));
    assert!(!ends_in_a(&vec![0x0a, 0x0b]));
    assert!(!ends_in_a(&vec![]));
}

#[test]
fn numbers_are_cut_at_other_characters() {
    assert_eq!(sum_of_numbers(&classify_text("2883 anyone joy")), 2883);
    assert_eq!(sum_of_numbers(&classify_text("2000.23.A")), 2023);
    assert_eq!(sum_of_numbers(&classify_text("1a2b3")), 6);
    assert_eq!(sum_of_numbers(&classify_text("007")), 7);
    assert_eq!(sum_of_numbers(&classify_text("")), 0);
    assert_eq!(sum_of_numbers(&classify_text("abc")), 0);
    assert_eq!(sum_of_numbers(&classify_text("-5+6")), 11);
}

#[test]
fn numbers_that_do_not_fit_are_skipped() {
    assert_eq!(sum_of_numbers(&classify_text("4294967295")), 4294967295);
    assert_eq!(sum_of_numbers(&classify_text("4294967296 5")), 5);
    assert_eq!(sum_of_numbers(&classify_text("99999999999999999999999 1 2")), 3);
    assert_eq!(sum_of_numbers(&classify_text("4294967295 4294967295")), 8589934590);
}

#[test]
fn runs_with_other_numerals_are_skipped() {
    // A superscript two is numeric but no decimal digit: the whole run fails to read.
    assert_eq!(sum_of_numbers(&classify_text("12\u{b2} 5")), 5);
    assert_eq!(sum_of_numbers(&classify_text("\u{b2}12 5")), 5);
    // Arabic-Indic digits are numeric too.
    assert_eq!(sum_of_numbers(&classify_text("\u{663}4 7")), 7);
}

#[test]
fn kinds_and_digit_count() {
    assert!(check_all_kinds(&classify_text("aB1")));
    assert!(!check_all_kinds(&classify_text("ab1")));
    assert!(!check_all_kinds(&classify_text("AB1")));
    assert!(!check_all_kinds(&classify_text("aBc")));
    assert!(!check_all_kinds(&classify_text("")));
    assert_eq!(count_digits(&classify_text("a1b22c333")), 6);
    assert_eq!(count_digits(&classify_text("\u{663}\u{b2}")), 0);
    assert_eq!(count_digits(&classify_text("")), 0);
}

#[test]
fn joy_letters_are_taken_in_order() {
    assert_eq!(collect_joy_letters(&classify_text("2883 anyone joy")), vec!['y', 'o', 'j', 'o', 'y']);
    assert_eq!(collect_joy_letters(&classify_text("just a toy")), vec!['j', 'o', 'y']);
    assert!(check_joyful(&classify_text("just a toy")));
    assert!(check_joyful(&classify_text("j-o-y")));
    assert!(!check_joyful(&classify_text("joyjoy")));
    assert!(!check_joyful(&classify_text("jo")));
    assert!(!check_joyful(&classify_text("JOY")));
    assert!(!check_joyful(&classify_text("")));
}

#[test]
fn sandwiches_and_ranges() {
    assert!(find_sandwich(&classify_text("xaba")));
    assert!(!find_sandwich(&classify_text("aaa")));
    assert!(!find_sandwich(&classify_text("a1a")));
    assert!(!find_sandwich(&classify_text("1a1")));
    assert!(!find_sandwich(&classify_text("ab")));
    assert!(find_symbol(&classify_text("x\u{2981}")));
    assert!(find_symbol(&classify_text("\u{2BFE}")));
    assert!(!find_symbol(&classify_text("\u{2980}\u{2BFF}")));
    assert!(find_emoji(&classify_text("\u{1F601}")));
    assert!(find_emoji(&classify_text("\u{1F64E}")));
    assert!(find_emoji(&classify_text("\u{1F901}")));
    assert!(find_emoji(&classify_text("\u{1F9FE}")));
    assert!(!find_emoji(&classify_text("\u{1F600}\u{1F64F}\u{1F900}\u{1F9FF}\u{1F650}")));
}

#[test]
fn glyphs_follow_unicode() {
    let glyphs = classify_text("aZ5\u{b2} ");
    assert_eq!(glyphs.len(), 5);
    assert_eq!(glyphs[0], Glyph { ch: 'a', alphabetic: true, uppercase: false, lowercase: true, numeric: false });
    assert_eq!(glyphs[1], Glyph { ch: 'Z', alphabetic: true, uppercase: true, lowercase: false, numeric: false });
    assert_eq!(glyphs[2], Glyph { ch: '5', alphabetic: false, uppercase: false, lowercase: false, numeric: true });
    assert_eq!(glyphs[3], Glyph { ch: '\u{b2}', alphabetic: false, uppercase: false, lowercase: false, numeric: true });
    assert_eq!(glyphs[4], Glyph { ch: ' ', alphabetic: false, uppercase: false, lowercase: false, numeric: false });
    assert_eq!(Glyph::of('\u{e9}'), Glyph { ch: '\u{e9}', alphabetic: true, uppercase: false, lowercase: true, numeric: false });
}

#[test]
fn input_wrapper_is_judged() {
    let input = NiceInput { input: NICE.to_string() };
    assert_verdict(&input.game(), Outcome::Nice, "that's a nice password", 200);
    let empty = NiceInput { input: String::new() };
    assert_verdict(&empty.game(), Outcome::Naughty, "8 chars", 400);
    assert_eq!(empty.is_nice(), "naughty");
}

#[test]
fn rules_follow_one_another() {
    let mut rule = Rule::Length;
    let mut seen = vec![rule];
    while let Some(next) = rule.next() {
        assert_eq!(next.index(), rule.index() + 1);
        seen.push(next);
        rule = next;
    }
    assert_eq!(
        seen,
        vec![
            Rule::Length,
            Rule::Kinds,
            Rule::Digits,
            Rule::Sum,
            Rule::Joy,
            Rule::Sandwich,
            Rule::Symbol,
            Rule::Emoji,
            Rule::Digest,
        ]
    );
}

#[test]
fn single_rules_are_tried() {
    let glyphs = classify_text("Ab 2000 23 joy");
    assert!(check_text(Rule::Length, &glyphs));
    assert!(check_text(Rule::Kinds, &glyphs));
    assert!(check_text(Rule::Digits, &glyphs));
    assert!(check_text(Rule::Sum, &glyphs));
    assert!(check_text(Rule::Joy, &glyphs));
    assert!(!check_text(Rule::Sandwich, &glyphs));
    assert!(!check_text(Rule::Symbol, &glyphs));
    assert!(!check_text(Rule::Emoji, &glyphs));
    assert!(check(Rule::Digest, &glyphs, &vec![0x1a]));
    assert!(!check(Rule::Digest, &glyphs, &vec![0x1b]));
    assert!(!check(Rule::Sandwich, &glyphs, &vec![0x1a]));
    assert!(check(Rule::Joy, &glyphs, &vec![]));
    assert_eq!(find_text_failure(&glyphs), Some(Rule::Sandwich));
    assert_eq!(find_text_failure(&classify_text(NICE)), None);
    assert_eq!(find_text_failure(&classify_text(NO_BREWER)), None);
    assert_eq!(find_text_failure(&classify_text("")), Some(Rule::Length));
}

#[test]
fn the_validator_steps_through_the_rules() {
    let glyphs = classify_text("Ab 2000 23 joy");
    let digest = vec![0x0a];
    let mut stage = Stage::Trying(Rule::Length);
    let mut stages = Vec::new();
    for _ in 0..9 {
        stage = step(stage, &glyphs, &digest);
        stages.push(stage);
    }
    assert_eq!(
        stages,
        vec![
            Stage::Trying(Rule::Kinds),
            Stage::Trying(Rule::Digits),
            Stage::Trying(Rule::Sum),
            Stage::Trying(Rule::Joy),
            Stage::Trying(Rule::Sandwich),
            Stage::Failed(Rule::Sandwich),
            Stage::Failed(Rule::Sandwich),
            Stage::Failed(Rule::Sandwich),
            Stage::Failed(Rule::Sandwich),
        ]
    );
    let nice = classify_text(NICE);
    assert_eq!(step(Stage::Trying(Rule::Emoji), &nice, &digest), Stage::Trying(Rule::Digest));
    assert_eq!(step(Stage::Trying(Rule::Digest), &nice, &digest), Stage::Success);
    assert_eq!(step(Stage::Trying(Rule::Digest), &nice, &vec![0x0b]), Stage::Failed(Rule::Digest));
    assert_eq!(step(Stage::Success, &glyphs, &digest), Stage::Success);
    assert_eq!(step(Stage::Trying(Rule::Length), &Vec::new(), &digest), Stage::Failed(Rule::Length));
}
