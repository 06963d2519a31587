//! The game validator: nine rules tried in a fixed order, the first failure
//! deciding the verdict.

use vstd::prelude::*;
use vstd::string::StringExecFns;
use vstd::utf8::encode_utf8;
use crate::basic::{basic_outcome, NiceInput};
use crate::classes::{check_all_kinds, count_digits, digit_count, has_all_kinds};
use crate::digest::{digest_of, ends_in_a, hex_ends_in_a, sha256};
use crate::digits::{number_sum, sum_of_numbers};
use crate::glyph::{classify_text, glyphs_of, Glyph};
use crate::joy::{check_joyful, is_joyful};
use crate::outcome::Outcome;
use crate::patterns::{find_emoji, find_sandwich, find_symbol, has_emoji, has_sandwich, has_symbol};

verus! {

/// The nine rules, in the order in which they are tried.
#[derive(Clone, Copy, Debug, PartialEq, Eq, Structural)]
pub enum Rule {
    Length,
    Kinds,
    Digits,
    Sum,
    Joy,
    Sandwich,
    Symbol,
    Emoji,
    Digest,
}

impl Rule {
    /// The place of the rule in the order, from 1 to 9.
    pub open spec fn spec_index(self) -> nat {
        match self {
            Rule::Length => 1,
            Rule::Kinds => 2,
            Rule::Digits => 3,
            Rule::Sum => 4,
            Rule::Joy => 5,
            Rule::Sandwich => 6,
            Rule::Symbol => 7,
            Rule::Emoji => 8,
            Rule::Digest => 9,
        }
    }

    /// The reason reported when the rule fails.
    pub open spec fn spec_reason(self) -> Seq<char> {
        match self {
            Rule::Length => "8 chars"@,
            Rule::Kinds => "more types of chars"@,
            Rule::Digits => "55555"@,
            Rule::Sum => "math is hard"@,
            Rule::Joy => "not joyful enough"@,
            Rule::Sandwich => "illegal: no sandwich"@,
            Rule::Symbol => "outranged"@,
            Rule::Emoji => "ðŸ˜³"@,
            Rule::Digest => "not a coffee brewer"@,
        }
    }

    /// The status signal reported when the rule fails.
    pub open spec fn spec_signal(self) -> u16 {
        match self {
            Rule::Length => 400,
            Rule::Kinds => 400,
            Rule::Digits => 400,
            Rule::Sum => 400,
            Rule::Joy => 406,
            Rule::Sandwich => 451,
            Rule::Symbol => 416,
            Rule::Emoji => 426,
            Rule::Digest => 418,
        }
    }

    /// Whether the rule holds of a classified text and the digest of its bytes.
    pub open spec fn holds(self, glyphs: Seq<Glyph>, digest: Seq<u8>) -> bool {
        match self {
            Rule::Length => glyphs.len() >= 8,
            Rule::Kinds => has_all_kinds(glyphs),
            Rule::Digits => digit_count(glyphs) >= 5,
            Rule::Sum => number_sum(glyphs) == 2023,
            Rule::Joy => is_joyful(glyphs),
            Rule::Sandwich => has_sandwich(glyphs),
            Rule::Symbol => has_symbol(glyphs),
            Rule::Emoji => has_emoji(glyphs),
            Rule::Digest => hex_ends_in_a(digest),
        }
    }

    /// The rule that is tried after this one, if this is not the last.
    pub open spec fn spec_next(self) -> Option<Rule> {
        match self {
            Rule::Length => Some(Rule::Kinds),
            Rule::Kinds => Some(Rule::Digits),
            Rule::Digits => Some(Rule::Sum),
            Rule::Sum => Some(Rule::Joy),
            Rule::Joy => Some(Rule::Sandwich),
            Rule::Sandwich => Some(Rule::Symbol),
            Rule::Symbol => Some(Rule::Emoji),
            Rule::Emoji => Some(Rule::Digest),
            Rule::Digest => None,
        }
    }

    /// Returns the rule that is tried after this one, if this is not the last.
    pub fn next(self) -> (rule: Option<Rule>)
        ensures
            rule == self.spec_next(),
            rule matches Some(later) ==> later.spec_index() == self.spec_index() + 1,
            rule is None <==> self == Rule::Digest,
    {
        match self {
            Rule::Length => Some(Rule::Kinds),
            Rule::Kinds => Some(Rule::Digits),
            Rule::Digits => Some(Rule::Sum),
            Rule::Sum => Some(Rule::Joy),
            Rule::Joy => Some(Rule::Sandwich),
            Rule::Sandwich => Some(Rule::Symbol),
            Rule::Symbol => Some(Rule::Emoji),
            Rule::Emoji => Some(Rule::Digest),
            Rule::Digest => None,
        }
    }

    /// Returns the place of the rule in the order.
    pub fn index(self) -> (i: u8)
        ensures
            i == self.spec_index(),
    {
        match self {
            Rule::Length => 1,
            Rule::Kinds => 2,
            Rule::Digits => 3,
            Rule::Sum => 4,
            Rule::Joy => 5,
            Rule::Sandwich => 6,
            Rule::Symbol => 7,
            Rule::Emoji => 8,
            Rule::Digest => 9,
        }
    }

    /// Returns the reason reported when the rule fails.
    pub fn reason(self) -> (text: String)
        ensures
            text@ == self.spec_reason(),
    {
        match self {
            Rule::Length => "8 chars".to_string(),
            Rule::Kinds => "more types of chars".to_string(),
            Rule::Digits => "55555".to_string(),
            Rule::Sum => "math is hard".to_string(),
            Rule::Joy => "not joyful enough".to_string(),
            Rule::Sandwich => "illegal: no sandwich".to_string(),
            Rule::Symbol => "outranged".to_string(),
            Rule::Emoji => "ðŸ˜³".to_string(),
            Rule::Digest => "not a coffee brewer".to_string(),
        }
    }

    /// Returns the status signal reported when the rule fails.
    pub fn signal(self) -> (code: u16)
        ensures
            code == self.spec_signal(),
    {
        match self {
            Rule::Length => 400,
            Rule::Kinds => 400,
            Rule::Digits => 400,
            Rule::Sum => 400,
            Rule::Joy => 406,
            Rule::Sandwich => 451,
            Rule::Symbol => 416,
            Rule::Emoji => 426,
            Rule::Digest => 418,
        }
    }
}

/// The first of the eight rules on the text itself that fails, if any does.
pub open spec fn first_text_failure(glyphs: Seq<Glyph>) -> Option<Rule> {
    if !(glyphs.len() >= 8) {
        Some(Rule::Length)
    } else if !has_all_kinds(glyphs) {
        Some(Rule::Kinds)
    } else if !(digit_count(glyphs) >= 5) {
        Some(Rule::Digits)
    } else if !(number_sum(glyphs) == 2023) {
        Some(Rule::Sum)
    } else if !is_joyful(glyphs) {
        Some(Rule::Joy)
    } else if !has_sandwich(glyphs) {
        Some(Rule::Sandwich)
    } else if !has_symbol(glyphs) {
        Some(Rule::Symbol)
    } else if !has_emoji(glyphs) {
        Some(Rule::Emoji)
    } else {
        None
    }
}

/// The first of the nine rules that fails, if any does.
pub open spec fn first_failure(glyphs: Seq<Glyph>, digest: Seq<u8>) -> Option<Rule> {
    match first_text_failure(glyphs) {
        Some(rule) => Some(rule),
        None => if hex_ends_in_a(digest) {
            None
        } else {
            Some(Rule::Digest)
        },
    }
}

/// Where the validator stands: about to try a rule, stopped at a failed rule, or
/// through with all of them. It starts about to try the first rule.
#[derive(Clone, Copy, Debug, PartialEq, Eq, Structural)]
pub enum Stage {
    Trying(Rule),
    Failed(Rule),
    Success,
}

/// The stage at which every run starts.
pub open spec fn start() -> Stage {
    Stage::Trying(Rule::Length)
}

/// One step of the validator: the rule at hand is tried; where it holds, the next
/// rule is at hand, or success is reached after the last; where it fails, the run
/// stops there. A run that has stopped stays where it is.
pub open spec fn advance(stage: Stage, glyphs: Seq<Glyph>, digest: Seq<u8>) -> Stage {
    match stage {
        Stage::Trying(rule) => if rule.holds(glyphs, digest) {
            match rule.spec_next() {
                Some(next) => Stage::Trying(next),
                None => Stage::Success,
            }
        } else {
            Stage::Failed(rule)
        },
        Stage::Failed(rule) => Stage::Failed(rule),
        Stage::Success => Stage::Success,
    }
}

/// The stage reached from `stage` in `steps` steps.
pub open spec fn advance_by(stage: Stage, steps: nat, glyphs: Seq<Glyph>, digest: Seq<u8>) -> Stage
    decreases steps,
{
    if steps == 0 {
        stage
    } else {
        advance(advance_by(stage, (steps - 1) as nat, glyphs, digest), glyphs, digest)
    }
}

/// The stage in which a run ends: that of the first failure, or success.
pub open spec fn stage_for(failure: Option<Rule>) -> Stage {
    match failure {
        Some(rule) => Stage::Failed(rule),
        None => Stage::Success,
    }
}

/// What a verdict says: the outcome, the reason and the status signal.
pub struct VerdictModel {
    pub outcome: Outcome,
    pub reason: Seq<char>,
    pub signal: u16,
}

/// The verdict of the game validator.
#[derive(Clone, Debug)]
pub struct GameVerdict {
    pub outcome: Outcome,
    pub reason: String,
    pub signal: u16,
}

impl View for GameVerdict {
    type V = VerdictModel;

    open spec fn view(&self) -> VerdictModel {
        VerdictModel { outcome: self.outcome, reason: self.reason@, signal: self.signal }
    }
}

/// The verdict that follows from the first failure: the failed rule's reason and
/// signal, or the success verdict where nothing failed.
pub open spec fn verdict_for(failure: Option<Rule>) -> VerdictModel {
    match failure {
        Some(rule) => VerdictModel {
            outcome: Outcome::Naughty,
            reason: rule.spec_reason(),
            signal: rule.spec_signal(),
        },
        None => VerdictModel {
            outcome: Outcome::Nice,
            reason: "that's a nice password"@,
            signal: 200,
        },
    }
}

/// The verdict on a classified text and the digest of its bytes.
pub open spec fn verdict_of(glyphs: Seq<Glyph>, digest: Seq<u8>) -> VerdictModel {
    verdict_for(first_failure(glyphs, digest))
}

/// The verdict on a text: its characters classified by Unicode, its digest the
/// SHA-256 of its UTF-8 bytes.
pub open spec fn game_verdict(text: Seq<char>) -> VerdictModel {
    verdict_of(glyphs_of(text), sha256(encode_utf8(text)))
}

impl VerdictModel {
    /// The verdict is one that the validator gives: that of a failed rule, or the
    /// success verdict.
    pub open spec fn wf(self) -> bool {
        exists|failure: Option<Rule>| self == #[trigger] verdict_for(failure)
    }

    /// The response body that reports the verdict.
    pub open spec fn body(self) -> Seq<char> {
        "{\"result\":\""@ + self.outcome.spec_label() + "\",\"reason\":\""@ + self.reason + "\"}"@
    }
}

/// The rules are tried in order: a rule is the first failure exactly when it fails
/// and every rule with a lower place holds, and there is no failure exactly when all
/// nine hold.
pub proof fn lemma_first_failure_is_lowest(glyphs: Seq<Glyph>, digest: Seq<u8>, rule: Rule)
    ensures
        first_failure(glyphs, digest) == Some(rule) <==> !rule.holds(glyphs, digest) && forall|
            earlier: Rule,
        |
            earlier.spec_index() < rule.spec_index() ==> #[trigger] earlier.holds(glyphs, digest),
        first_failure(glyphs, digest) is None <==> forall|any: Rule| #[trigger]
            any.holds(glyphs, digest),
{
    assert(Rule::Length.holds(glyphs, digest) == (glyphs.len() >= 8));
    assert(Rule::Kinds.holds(glyphs, digest) == has_all_kinds(glyphs));
    assert(Rule::Digits.holds(glyphs, digest) == (digit_count(glyphs) >= 5));
    assert(Rule::Sum.holds(glyphs, digest) == (number_sum(glyphs) == 2023));
    assert(Rule::Joy.holds(glyphs, digest) == is_joyful(glyphs));
    assert(Rule::Sandwich.holds(glyphs, digest) == has_sandwich(glyphs));
    assert(Rule::Symbol.holds(glyphs, digest) == has_symbol(glyphs));
    assert(Rule::Emoji.holds(glyphs, digest) == has_emoji(glyphs));
    assert(Rule::Digest.holds(glyphs, digest) == hex_ends_in_a(digest));
}

/// Nine steps from the start end the run, stopped at the first rule that fails or
/// through with all of them.
pub proof fn lemma_run_ends_at_first_failure(glyphs: Seq<Glyph>, digest: Seq<u8>)
    ensures
        advance_by(start(), 9, glyphs, digest) == stage_for(first_failure(glyphs, digest)),
{
    reveal_with_fuel(advance_by, 10);
}

/// Whatever rule is at hand after some steps, every rule before it holds: a rule
/// after a failed one is never tried.
pub proof fn lemma_trying_means_earlier_hold(steps: nat, glyphs: Seq<Glyph>, digest: Seq<u8>)
    ensures
        advance_by(start(), steps, glyphs, digest) matches Stage::Trying(rule) ==> forall|
            earlier: Rule,
        |
            earlier.spec_index() < rule.spec_index() ==> #[trigger] earlier.holds(glyphs, digest),
    decreases steps,
{
    if steps > 0 {
        lemma_trying_means_earlier_hold((steps - 1) as nat, glyphs, digest);
    }
}

/// No two failures share a verdict, and no failure shares one with success: the
/// verdict tells which rule failed first.
pub proof fn lemma_verdict_tells_the_failure(first: Option<Rule>, second: Option<Rule>)
    ensures
        verdict_for(first) == verdict_for(second) <==> first == second,
{
    reveal_strlit("8 chars");
    reveal_strlit("more types of chars");
    reveal_strlit("55555");
    reveal_strlit("math is hard");
    reveal_strlit("not joyful enough");
    reveal_strlit("illegal: no sandwich");
    reveal_strlit("outranged");
    reveal_strlit("ðŸ˜³");
    reveal_strlit("not a coffee brewer");
    reveal_strlit("that's a nice password");
    if verdict_for(first) == verdict_for(second) {
        assert(verdict_for(first).reason.len() == verdict_for(second).reason.len());
        assert(verdict_for(first).signal == verdict_for(second).signal);
    }
}

/// The reason and signal of a verdict are those of the first rule that fails, the
/// one with the lowest place among the failing rules.
pub proof fn lemma_verdict_is_of_lowest_failure(glyphs: Seq<Glyph>, digest: Seq<u8>, rule: Rule)
    ensures
        verdict_of(glyphs, digest) == verdict_for(Some(rule)) <==> !rule.holds(glyphs, digest)
            && forall|earlier: Rule|
            earlier.spec_index() < rule.spec_index() ==> #[trigger] earlier.holds(glyphs, digest),
{
    lemma_first_failure_is_lowest(glyphs, digest, rule);
    lemma_verdict_tells_the_failure(first_failure(glyphs, digest), Some(rule));
}

/// In every verdict that the validator gives the outcome is naughty exactly when
/// the signal is not 200, the signal is one of seven, and the reason is one of ten.
pub proof fn lemma_wf_verdict(verdict: VerdictModel)
    requires
        verdict.wf(),
    ensures
        verdict.outcome == Outcome::Naughty <==> verdict.signal != 200,
        verdict.signal == 200 || verdict.signal == 400 || verdict.signal == 406 || verdict.signal
            == 416 || verdict.signal == 418 || verdict.signal == 426 || verdict.signal == 451,
        verdict.reason == "that's a nice password"@ || exists|rule: Rule|
            verdict.reason == #[trigger] rule.spec_reason(),
{
    let failure = choose|failure: Option<Rule>| verdict == #[trigger] verdict_for(failure);
    match failure {
        Some(rule) => {
            assert(verdict.reason == rule.spec_reason());
        },
        None => {},
    }
}

/// A verdict is naughty exactly when its signal is not 200, and its signal is one
/// of the seven that the rules and success give.
pub proof fn lemma_naughty_iff_signal_not_200(glyphs: Seq<Glyph>, digest: Seq<u8>)
    ensures
        verdict_of(glyphs, digest).outcome == Outcome::Naughty <==> verdict_of(
            glyphs,
            digest,
        ).signal != 200,
        verdict_of(glyphs, digest).outcome == Outcome::Nice <==> first_failure(glyphs, digest)
            is None,
        ({
            let signal = verdict_of(glyphs, digest).signal;
            signal == 200 || signal == 400 || signal == 406 || signal == 416 || signal == 418
                || signal == 426 || signal == 451
        }),
{
}

/// Where the eight rules on the text hold and the digest does not end as asked,
/// the verdict is that of the ninth rule.
pub proof fn lemma_only_digest_fails(glyphs: Seq<Glyph>, digest: Seq<u8>)
    requires
        first_text_failure(glyphs) is None,
        !hex_ends_in_a(digest),
    ensures
        verdict_of(glyphs, digest) == (VerdictModel {
            outcome: Outcome::Naughty,
            reason: "not a coffee brewer"@,
            signal: 418,
        }),
{
}

/// Both checks are functions of the text: equal texts get equal answers.
pub proof fn lemma_equal_texts_equal_verdicts(first: Seq<char>, second: Seq<char>)
    requires
        first =~= second,
    ensures
        basic_outcome(glyphs_of(first)) == basic_outcome(glyphs_of(second)),
        game_verdict(first) == game_verdict(second),
{
}

/// Running either check again changes nothing: whatever two runs on one text
/// return, they return the same.
pub proof fn lemma_runs_agree(
    text: Seq<char>,
    first_basic: Outcome,
    second_basic: Outcome,
    first_game: GameVerdict,
    second_game: GameVerdict,
)
    requires
        first_basic == basic_outcome(glyphs_of(text)),
        second_basic == basic_outcome(glyphs_of(text)),
        first_game@ == game_verdict(text),
        second_game@ == game_verdict(text),
    ensures
        first_basic == second_basic,
        first_game@ == second_game@,
{
}

impl GameVerdict {
    /// Builds the verdict that follows from the first failure.
    pub fn from_failure(failure: Option<Rule>) -> (verdict: GameVerdict)
        ensures
            verdict@ == verdict_for(failure),
            verdict@.wf(),
    {
        match failure {
            Some(rule) => GameVerdict {
                outcome: Outcome::Naughty,
                reason: rule.reason(),
                signal: rule.signal(),
            },
            None => GameVerdict {
                outcome: Outcome::Nice,
                reason: "that's a nice password".to_string(),
                signal: 200,
            },
        }
    }

    /// Renders the response body that reports the verdict.
    pub fn body(&self) -> (text: String)
        ensures
            text@ == self@.body(),
    {
        let mut text = "{\"result\":\"".to_string();
        let label = self.outcome.label();
        text.append(label.as_str());
        text.append("\",\"reason\":\"");
        text.append(self.reason.as_str());
        text.append("\"}");
        text
    }
}

/// Tries one of the eight rules on the text itself.
pub fn check_text(rule: Rule, glyphs: &Vec<Glyph>) -> (ok: bool)
    requires
        rule != Rule::Digest,
    ensures
        forall|digest: Seq<u8>| ok == #[trigger] rule.holds(glyphs@, digest),
{
    match rule {
        Rule::Length => glyphs.len() >= 8,
        Rule::Kinds => check_all_kinds(glyphs),
        Rule::Digits => count_digits(glyphs) >= 5,
        Rule::Sum => sum_of_numbers(glyphs) == 2023,
        Rule::Joy => check_joyful(glyphs),
        Rule::Sandwich => find_sandwich(glyphs),
        Rule::Symbol => find_symbol(glyphs),
        _ => find_emoji(glyphs),
    }
}

/// Tries one rule.
pub fn check(rule: Rule, glyphs: &Vec<Glyph>, digest: &Vec<u8>) -> (ok: bool)
    ensures
        ok == rule.holds(glyphs@, digest@),
{
    match rule {
        Rule::Digest => ends_in_a(digest),
        _ => check_text(rule, glyphs),
    }
}

/// Takes one step of the validator.
pub fn step(stage: Stage, glyphs: &Vec<Glyph>, digest: &Vec<u8>) -> (after: Stage)
    ensures
        after == advance(stage, glyphs@, digest@),
{
    match stage {
        Stage::Trying(rule) => if check(rule, glyphs, digest) {
            match rule.next() {
                Some(next) => Stage::Trying(next),
                None => Stage::Success,
            }
        } else {
            Stage::Failed(rule)
        },
        Stage::Failed(rule) => Stage::Failed(rule),
        Stage::Success => Stage::Success,
    }
}

/// Finds the first of the eight rules on the text itself that fails. The rules
/// are gone through in order, and a rule is tried only when all rules before it
/// hold.
pub fn find_text_failure(glyphs: &Vec<Glyph>) -> (failure: Option<Rule>)
    ensures
        failure == first_text_failure(glyphs@),
{
    let ghost digest = Seq::<u8>::empty();
    let mut rule = Rule::Length;
    loop
        invariant
            forall|earlier: Rule|
                earlier.spec_index() < rule.spec_index() ==> #[trigger] earlier.holds(
                    glyphs@,
                    digest,
                ),
        decreases 9 - rule.spec_index(),
    {
        proof {
            lemma_first_failure_is_lowest(glyphs@, digest, rule);
        }
        if rule.index() == 9 {
            assert(first_text_failure(glyphs@) is None);
            return None;
        }
        if !check_text(rule, glyphs) {
            assert(!rule.holds(glyphs@, digest));
            assert(first_failure(glyphs@, digest) == Some(rule));
            return Some(rule);
        }
        assert(rule.holds(glyphs@, digest));
        rule = rule.next().unwrap();
    }
}

/// Judges a classified text, given the digest of its bytes: the validator is run
/// from its start until it stops.
pub fn judge(glyphs: &Vec<Glyph>, digest: &Vec<u8>) -> (verdict: GameVerdict)
    ensures
        verdict@ == verdict_of(glyphs@, digest@),
        verdict@.wf(),
{
    let mut stage = Stage::Trying(Rule::Length);
    let mut steps: u8 = 0;
    while steps < 9
        invariant
            steps <= 9,
            stage == advance_by(start(), steps as nat, glyphs@, digest@),
        decreases 9 - steps,
    {
        stage = step(stage, glyphs, digest);
        steps += 1;
    }
    proof {
        lemma_run_ends_at_first_failure(glyphs@, digest@);
    }
    match stage {
        Stage::Failed(rule) => GameVerdict::from_failure(Some(rule)),
        _ => GameVerdict::from_failure(None),
    }
}

/// Judges a text. The digest is computed only when the eight rules on the text
/// itself hold.
pub fn validate_game(input: &str) -> (verdict: GameVerdict)
    ensures
        verdict@ == game_verdict(input@),
        verdict@.wf(),
{
    let glyphs = classify_text(input);
    match find_text_failure(&glyphs) {
        Some(rule) => GameVerdict::from_failure(Some(rule)),
        None => {
            let digest = digest_of(input);
            if ends_in_a(&digest) {
                GameVerdict::from_failure(None)
            } else {
                GameVerdict::from_failure(Some(Rule::Digest))
            }
        },
    }
}

impl NiceInput {
    /// Judges the held text.
    pub fn game(&self) -> (verdict: GameVerdict)
        ensures
            verdict@ == game_verdict(self.input@),
            verdict@.wf(),
    {
        validate_game(self.input.as_str())
    }
}

} // verus!
