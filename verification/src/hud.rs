use vstd::prelude::*;
use vstd::string::StringExecFns;

use crate::player::PlayerFirehoseState;

verus! {

/// Health a player starts a round with.
pub const DEFAULT_HEALTH: usize = 10;

/// Number of points scored so far: one per extinguished fire.
pub struct Score(pub usize);

impl Score {
    /// A fresh score of zero.
    pub fn new() -> (s: Score)
        ensures
            s.0 == 0,
    {
        Score(0)
    }
}

impl Default for Score {
    fn default() -> (s: Score)
        ensures
            s.0 == 0,
    {
        Score(0)
    }
}

/// The player's remaining health points.
pub struct PlayerHealth(pub usize);

impl PlayerHealth {
    /// Full health.
    pub fn new() -> (h: PlayerHealth)
        ensures
            h.0 == DEFAULT_HEALTH,
    {
        PlayerHealth(DEFAULT_HEALTH)
    }

    /// Loses one point of health, never going below zero.
    pub fn lose_one(&mut self)
        ensures
            final(self).0 == if old(self).0 == 0 { 0 } else { old(self).0 - 1 },
    {
        self.0 = self.0.saturating_sub(1);
    }
}

impl Default for PlayerHealth {
    fn default() -> (h: PlayerHealth)
        ensures
            h.0 == DEFAULT_HEALTH,
    {
        PlayerHealth(DEFAULT_HEALTH)
    }
}

/// The character of decimal digit `d`.
pub open spec fn digit_char(d: nat) -> char {
    if d == 0 {
        '0'
    } else if d == 1 {
        '1'
    } else if d == 2 {
        '2'
    } else if d == 3 {
        '3'
    } else if d == 4 {
        '4'
    } else if d == 5 {
        '5'
    } else if d == 6 {
        '6'
    } else if d == 7 {
        '7'
    } else if d == 8 {
        '8'
    } else {
        '9'
    }
}

/// Decimal notation of `n`, without leading zeros.
pub open spec fn decimal(n: nat) -> Seq<char>
    decreases n,
{
    if n < 10 {
        seq![digit_char(n)]
    } else {
        decimal(n / 10).push(digit_char(n % 10))
    }
}

fn digit_str(d: usize) -> (s: &'static str)
    requires
        d < 10,
    ensures
        s@ == seq![digit_char(d as nat)],
{
    proof {
        reveal_strlit("0");
        reveal_strlit("1");
        reveal_strlit("2");
        reveal_strlit("3");
        reveal_strlit("4");
        reveal_strlit("5");
        reveal_strlit("6");
        reveal_strlit("7");
        reveal_strlit("8");
        reveal_strlit("9");
    }
    match d {
        0 => "0",
        1 => "1",
        2 => "2",
        3 => "3",
        4 => "4",
        5 => "5",
        6 => "6",
        7 => "7",
        8 => "8",
        _ => "9",
    }
}

/// Appends the decimal notation of `n` to `s`.
fn append_decimal(s: &mut String, n: usize)
    ensures
        final(s)@ == old(s)@ + decimal(n as nat),
    decreases n,
{
    if n >= 10 {
        append_decimal(s, n / 10);
    }
    s.append(digit_str(n % 10));
    proof {
        if n >= 10 {
            assert(final(s)@ =~= old(s)@ + decimal(n as nat));
        } else {
            assert(final(s)@ =~= old(s)@ + decimal(n as nat));
        }
    }
}

/// The score line of the HUD: `Score: ` and the score in decimal.
pub fn score_text(score: &Score) -> (text: String)
    ensures
        text@ == "Score: "@ + decimal(score.0 as nat),
{
    let mut text = String::from_str("Score: ");
    append_decimal(&mut text, score.0);
    text
}

/// `n` copies of `c`.
pub open spec fn repeat(c: char, n: nat) -> Seq<char> {
    Seq::new(n, |_i: int| c)
}

/// Full hearts shown for `health`: one per two points.
pub open spec fn whole_hearts(health: nat) -> nat {
    health / 2
}

/// Half hearts shown for `health`: one when `health` is not a multiple of five.
pub open spec fn half_hearts(health: nat) -> nat {
    if health % 5 > 0 {
        1
    } else {
        0
    }
}

/// The health line of the HUD: full hearts, then half hearts, then blanks,
/// five symbols in all.
pub open spec fn hearts(health: nat) -> Seq<char> {
    repeat('\u{2665}', whole_hearts(health)) + repeat('\u{2661}', half_hearts(health)) + repeat(
        ' ',
        (5 - whole_hearts(health) - half_hearts(health)) as nat,
    )
}

/// Appends `count` copies of the one-character string `piece` to `s`.
fn append_repeated(s: &mut String, piece: &str, count: usize)
    requires
        piece@.len() == 1,
    ensures
        final(s)@ == old(s)@ + repeat(piece@[0], count as nat),
{
    let mut i: usize = 0;
    while i < count
        invariant
            i <= count,
            piece@.len() == 1,
            s@ == old(s)@ + repeat(piece@[0], i as nat),
        decreases count - i,
    {
        s.append(piece);
        i = i + 1;
        assert(s@ =~= old(s)@ + repeat(piece@[0], i as nat));
    }
}

/// The health line of the HUD for the player's health.
pub fn health_text(health: &PlayerHealth) -> (text: String)
    requires
        health.0 <= DEFAULT_HEALTH,
    ensures
        text@ == hearts(health.0 as nat),
        text@.len() == 5,
{
    let whole = health.0 / (DEFAULT_HEALTH / 5);
    let half: usize = if health.0 % 5 > 0 { 1 } else { 0 };
    assert(whole == health.0 / 2);
    assert(whole + half <= 5) by {
        if whole == 5 {
            assert(health.0 == 10);
        }
    }
    let empty = 5 - whole - half;
    proof {
        reveal_strlit("\u{2665}");
        reveal_strlit("\u{2661}");
        reveal_strlit(" ");
        reveal_strlit("");
    }
    let mut text = String::from_str("");
    append_repeated(&mut text, "\u{2665}", whole);
    append_repeated(&mut text, "\u{2661}", half);
    append_repeated(&mut text, " ", empty);
    assert(text@ =~= hearts(health.0 as nat));
    text
}

/// The fire hose hint of the HUD.
pub fn firehose_instruction_text(state: PlayerFirehoseState) -> (text: String)
    ensures
        text@ == (match state {
            PlayerFirehoseState::Closed => "Space: fire extinguisher"@,
            PlayerFirehoseState::Open => "Space: fire extinguisher (It's Stuck!!)"@,
        }),
{
    match state {
        PlayerFirehoseState::Closed => String::from_str("Space: fire extinguisher"),
        PlayerFirehoseState::Open => String::from_str("Space: fire extinguisher (It's Stuck!!)"),
    }
}

} // verus!
