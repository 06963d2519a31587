//! Reindeer: their combined strength, and the winners of a contest.

use vstd::prelude::*;
use vstd::string::StringExecFns;
use crate::decimal::{append_signed_decimal, signed_decimal};

verus! {

/// A reindeer and its strength.
#[derive(Debug)]
pub struct Reindeer {
    pub name: String,
    pub strength: i32,
}

/// A reindeer in the contest. Its speed is not kept here: whoever calls judges
/// the race.
#[derive(Debug)]
pub struct Contestant {
    pub name: String,
    pub strength: i32,
    pub height: i32,
    pub antler_width: i32,
    pub snow_magic_power: i32,
    pub favorite_food: String,
    pub candies_eaten_yesterday: i32,
}

/// The discipline in which a winner is sought.
#[derive(Clone, Copy, Debug, PartialEq, Eq, Structural)]
pub enum Discipline {
    Height,
    SnowMagic,
    Candies,
}

/// The sum of the strengths.
pub open spec fn strength_sum(herd: Seq<Reindeer>) -> int
    decreases herd.len(),
{
    if herd.len() == 0 {
        0
    } else {
        strength_sum(herd.drop_last()) + herd.last().strength
    }
}

/// Adding up the strengths one after the other never leaves the 32-bit range.
pub open spec fn sums_fit(herd: Seq<Reindeer>) -> bool {
    forall|k: int| 0 <= k <= herd.len() ==> i32::MIN <= #[trigger] strength_sum(herd.take(k)) <= i32::MAX
}

/// Adds up the strengths of the herd; there is no answer where a sum on the way
/// leaves the 32-bit range.
pub fn calc_strength(herd: &Vec<Reindeer>) -> (total: Option<i32>)
    ensures
        total == if sums_fit(herd@) {
            Some(strength_sum(herd@) as i32)
        } else {
            None
        },
{
    let n = herd.len();
    let mut sum: i32 = 0;
    let mut i: usize = 0;
    while i < n
        invariant
            n == herd.len(),
            i <= n,
            sum == strength_sum(herd@.take(i as int)),
            forall|k: int| 0 <= k <= i ==> i32::MIN <= #[trigger] strength_sum(herd@.take(k)) <= i32::MAX,
        decreases n - i,
    {
        assert(herd@.take(i + 1).drop_last() == herd@.take(i as int));
        match sum.checked_add(herd[i].strength) {
            Some(next) => {
                sum = next;
            },
            None => {
                assert(!(i32::MIN <= strength_sum(herd@.take(i + 1)) <= i32::MAX));
                return None;
            },
        }
        i += 1;
    }
    assert(herd@.take(n as int) == herd@);
    Some(sum)
}

/// What a contestant scores in a discipline.
pub open spec fn score(c: Contestant, discipline: Discipline) -> i32 {
    match discipline {
        Discipline::Height => c.height,
        Discipline::SnowMagic => c.snow_magic_power,
        Discipline::Candies => c.candies_eaten_yesterday,
    }
}

/// The contestant at `i` wins the discipline: nobody scores more, and nobody
/// after it scores as much.
pub open spec fn wins(field: Seq<Contestant>, discipline: Discipline, i: int) -> bool {
    &&& 0 <= i < field.len()
    &&& forall|j: int| 0 <= j < field.len() ==> score(#[trigger] field[j], discipline) <= score(field[i], discipline)
    &&& forall|j: int| i < j < field.len() ==> score(#[trigger] field[j], discipline) < score(field[i], discipline)
}

/// Returns what the contestant scores in the discipline.
pub fn score_of(c: &Contestant, discipline: Discipline) -> (points: i32)
    ensures
        points == score(*c, discipline),
{
    match discipline {
        Discipline::Height => c.height,
        Discipline::SnowMagic => c.snow_magic_power,
        Discipline::Candies => c.candies_eaten_yesterday,
    }
}

/// Finds the winner of a discipline: the last of those with the highest score.
/// An empty field has no winner.
pub fn winner(field: &Vec<Contestant>, discipline: Discipline) -> (place: Option<usize>)
    ensures
        match place {
            Some(i) => wins(field@, discipline, i as int),
            None => field@.len() == 0,
        },
{
    let n = field.len();
    if n == 0 {
        return None;
    }
    let mut best: usize = 0;
    let mut i: usize = 1;
    while i < n
        invariant
            n == field.len(),
            1 <= i <= n,
            best < i,
            forall|j: int| 0 <= j < i ==> score(#[trigger] field@[j], discipline) <= score(field@[best as int], discipline),
            forall|j: int| best < j < i ==> score(#[trigger] field@[j], discipline) < score(field@[best as int], discipline),
        decreases n - i,
    {
        if score_of(&field[i], discipline) >= score_of(&field[best], discipline) {
            best = i;
        }
        i += 1;
    }
    Some(best)
}

/// The four lines that name the winners.
#[derive(Debug)]
pub struct Winners {
    pub fastest: String,
    pub tallest: String,
    pub magician: String,
    pub consumer: String,
}

/// The line on the fastest contestant.
pub open spec fn fastest_line(c: Contestant) -> Seq<char> {
    "Speeding past the finish line with a strength of "@ + signed_decimal(c.strength as int)
        + " is "@ + c.name@
}

/// The line on the tallest contestant.
pub open spec fn tallest_line(c: Contestant) -> Seq<char> {
    c.name@ + " is standing tall with his "@ + signed_decimal(c.antler_width as int)
        + " cm wide antlers"@
}

/// The line on the contestant with the most snow magic.
pub open spec fn magician_line(c: Contestant) -> Seq<char> {
    c.name@ + " could blast you away with a snow magic power of "@ + signed_decimal(
        c.snow_magic_power as int,
    )
}

/// The line on the contestant who ate the most candies.
pub open spec fn consumer_line(c: Contestant) -> Seq<char> {
    c.name@ + " ate lots of candies, but also some "@ + c.favorite_food@
}

/// Writes the line on the fastest contestant.
pub fn write_fastest(c: &Contestant) -> (line: String)
    ensures
        line@ == fastest_line(*c),
{
    let mut line = "Speeding past the finish line with a strength of ".to_string();
    append_signed_decimal(&mut line, c.strength as i64);
    line.append(" is ");
    line.append(c.name.as_str());
    line
}

/// Writes the line on the tallest contestant.
pub fn write_tallest(c: &Contestant) -> (line: String)
    ensures
        line@ == tallest_line(*c),
{
    let mut line = c.name.clone();
    line.append(" is standing tall with his ");
    append_signed_decimal(&mut line, c.antler_width as i64);
    line.append(" cm wide antlers");
    line
}

/// Writes the line on the contestant with the most snow magic.
pub fn write_magician(c: &Contestant) -> (line: String)
    ensures
        line@ == magician_line(*c),
{
    let mut line = c.name.clone();
    line.append(" could blast you away with a snow magic power of ");
    append_signed_decimal(&mut line, c.snow_magic_power as i64);
    line
}

/// Writes the line on the contestant who ate the most candies.
pub fn write_consumer(c: &Contestant) -> (line: String)
    ensures
        line@ == consumer_line(*c),
{
    let mut line = c.name.clone();
    line.append(" ate lots of candies, but also some ");
    line.append(c.favorite_food.as_str());
    line
}

/// Names the winners of the contest. The race is judged by whoever calls:
/// `fastest` is the place of its winner in the field. There are no winners where
/// the field is empty or `fastest` is no place in it.
pub fn contest_winners(field: &Vec<Contestant>, fastest: usize) -> (winners: Option<Winners>)
    ensures
        winners is Some <==> fastest < field@.len(),
        winners matches Some(lines) ==> {
            &&& lines.fastest@ == fastest_line(field@[fastest as int])
            &&& exists|i: int| #[trigger]
                wins(field@, Discipline::Height, i) && lines.tallest@ == tallest_line(field@[i])
            &&& exists|i: int| #[trigger]
                wins(field@, Discipline::SnowMagic, i) && lines.magician@ == magician_line(
                    field@[i],
                )
            &&& exists|i: int| #[trigger]
                wins(field@, Discipline::Candies, i) && lines.consumer@ == consumer_line(field@[i])
        },
{
    if fastest >= field.len() {
        return None;
    }
    let tallest = winner(field, Discipline::Height).unwrap();
    let magician = winner(field, Discipline::SnowMagic).unwrap();
    let consumer = winner(field, Discipline::Candies).unwrap();
    Some(
        Winners {
            fastest: write_fastest(&field[fastest]),
            tallest: write_tallest(&field[tallest]),
            magician: write_magician(&field[magician]),
            consumer: write_consumer(&field[consumer]),
        },
    )
}

} // verus!
