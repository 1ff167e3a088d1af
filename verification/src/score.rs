//! The score: two monotone counters and their decimal display text.

use vstd::prelude::*;
use vstd::string::*;

verus! {

/// Ghost image of `Score`.
pub ghost struct ScoreG {
    pub left: int,
    pub right: int,
}

/// Points per side. A side's counter moves only by `add_left` / `add_right`,
/// one point at a time.
#[derive(Clone, Copy, Debug, PartialEq, Eq, Structural)]
pub struct Score {
    pub left: u32,
    pub right: u32,
}

impl View for Score {
    type V = ScoreG;

    open spec fn view(&self) -> ScoreG {
        ScoreG { left: self.left as int, right: self.right as int }
    }
}

impl Score {
    /// A fresh score: nil all.
    pub fn new() -> (s: Score)
        ensures
            s@.left == 0,
            s@.right == 0,
    {
        Score { left: 0, right: 0 }
    }

    /// One point for the left player.
    pub fn add_left(&mut self)
        requires
            old(self).left < u32::MAX,
        ensures
            final(self)@.left == old(self)@.left + 1,
            final(self)@.right == old(self)@.right,
    {
        self.left = self.left + 1;
    }

    /// One point for the right player.
    pub fn add_right(&mut self)
        requires
            old(self).right < u32::MAX,
        ensures
            final(self)@.right == old(self)@.right + 1,
            final(self)@.left == old(self)@.left,
    {
        self.right = self.right + 1;
    }
}

/// Whether the display needs a refresh: true exactly when the two scores
/// differ.
pub fn score_changed(prev: &Score, cur: &Score) -> (r: bool)
    ensures
        r == (prev@.left != cur@.left || prev@.right != cur@.right),
{
    prev.left != cur.left || prev.right != cur.right
}

/// The decimal digit character of `d`.
pub open spec fn digit_char(d: nat) -> char {
    if d == 0 {
        '0'
    } else if d == 1 {
        '1'
    } else if d == 2 {
        '2'
    } else if d == 3 {
        '3'
    } else if d == 4 {
        '4'
    } else if d == 5 {
        '5'
    } else if d == 6 {
        '6'
    } else if d == 7 {
        '7'
    } else if d == 8 {
        '8'
    } else {
        '9'
    }
}

/// The decimal numeral of `n`: most significant digit first, no leading
/// zeros, a single zero for nil.
pub open spec fn dec_chars(n: nat) -> Seq<char>
    decreases n,
{
    if n < 10 {
        seq![digit_char(n)]
    } else {
        dec_chars(n / 10) + seq![digit_char(n % 10)]
    }
}

/// One decimal digit as text.
fn digit_str(d: u32) -> (s: &'static str)
    requires
        d < 10,
    ensures
        s@ == seq![digit_char(d as nat)],
{
    proof {
        reveal_strlit("0");
        reveal_strlit("1");
        reveal_strlit("2");
        reveal_strlit("3");
        reveal_strlit("4");
        reveal_strlit("5");
        reveal_strlit("6");
        reveal_strlit("7");
        reveal_strlit("8");
        reveal_strlit("9");
    }
    let s = match d {
        0 => "0",
        1 => "1",
        2 => "2",
        3 => "3",
        4 => "4",
        5 => "5",
        6 => "6",
        7 => "7",
        8 => "8",
        _ => "9",
    };
    proof {
        assert(s@ =~= seq![digit_char(d as nat)]);
    }
    s
}

/// The decimal numeral of a counter value, as display text.
pub fn score_text(n: u32) -> (s: String)
    ensures
        s@ == dec_chars(n as nat),
    decreases n,
{
    if n < 10 {
        String::from_str(digit_str(n))
    } else {
        let mut s = score_text(n / 10);
        s.append(digit_str(n % 10));
        proof {
            assert(s@ =~= dec_chars(n as nat));
        }
        s
    }
}

} // verus!
