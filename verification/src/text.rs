//! The words of the log: names, numbers and messages as text.

use crate::model::{FiendName, Message};
use vstd::prelude::*;
use vstd::string::StringExecFns;

verus! {

/// The character for a digit.
pub open spec fn spec_digit(d: nat) -> char {
    if d == 0 {
        '0'
    } else if d == 1 {
        '1'
    } else if d == 2 {
        '2'
    } else if d == 3 {
        '3'
    } else if d == 4 {
        '4'
    } else if d == 5 {
        '5'
    } else if d == 6 {
        '6'
    } else if d == 7 {
        '7'
    } else if d == 8 {
        '8'
    } else {
        '9'
    }
}

/// A number in decimal digits, without leading zeros.
pub open spec fn spec_decimal(n: nat) -> Seq<char>
    decreases n,
{
    if n < 10 {
        seq![spec_digit(n)]
    } else {
        spec_decimal(n / 10).push(spec_digit(n % 10))
    }
}

/// The text of a digit.
fn digit(d: usize) -> (r: &'static str)
    requires
        d < 10,
    ensures
        r@ == seq![spec_digit(d as nat)],
{
    proof {
        reveal_strlit("0");
        reveal_strlit("1");
        reveal_strlit("2");
        reveal_strlit("3");
        reveal_strlit("4");
        reveal_strlit("5");
        reveal_strlit("6");
        reveal_strlit("7");
        reveal_strlit("8");
        reveal_strlit("9");
    }
    let r = if d == 0 {
        "0"
    } else if d == 1 {
        "1"
    } else if d == 2 {
        "2"
    } else if d == 3 {
        "3"
    } else if d == 4 {
        "4"
    } else if d == 5 {
        "5"
    } else if d == 6 {
        "6"
    } else if d == 7 {
        "7"
    } else if d == 8 {
        "8"
    } else {
        "9"
    };
    assert(r@ =~= seq![spec_digit(d as nat)]);
    r
}

/// A number in decimal digits.
pub fn decimal(n: usize) -> (r: String)
    ensures
        r@ == spec_decimal(n as nat),
    decreases n,
{
    if n < 10 {
        String::from_str(digit(n))
    } else {
        let mut r = decimal(n / 10);
        let last = digit(n % 10);
        r.append(last);
        assert(r@ =~= spec_decimal((n / 10) as nat).push(spec_digit((n % 10) as nat)));
        r
    }
}

impl FiendName {
    /// The name in full: title, species, and epithet if there is one.
    pub open spec fn spec_text(self) -> Seq<char> {
        self.prefix@ + self.name@ + match self.suffix {
            Some(suffix) => suffix@,
            None => Seq::empty(),
        }
    }

    /// The name in full.
    pub fn text(&self) -> (r: String)
        ensures
            r@ == self.spec_text(),
    {
        let mut r = String::from_str(self.prefix);
        r.append(self.name);
        match self.suffix {
            Some(suffix) => {
                r.append(suffix);
            },
            None => {
                assert(r@ =~= self.spec_text());
            },
        }
        r
    }
}

/// What is said of a blow: who was struck how, for how much damage, and
/// what health is left of how much; of the dead only that they are dead.
pub open spec fn spec_blow(
    name: FiendName,
    verb: Seq<char>,
    damage: usize,
    health: usize,
    max_health: usize,
) -> Seq<char> {
    let begin = name.spec_text() + " is "@ + verb + " for "@ + spec_decimal(damage as nat);
    if health == 0 {
        begin + " damage! (dead!)"@
    } else {
        begin + " damage! ("@ + spec_decimal(health as nat) + " / "@ + spec_decimal(
            max_health as nat,
        ) + ")"@
    }
}

fn blow(name: &FiendName, verb: &str, damage: usize, health: usize, max_health: usize) -> (r:
    String)
    ensures
        r@ == spec_blow(*name, verb@, damage, health, max_health),
{
    let mut r = name.text();
    r.append(" is ");
    r.append(verb);
    r.append(" for ");
    r.append(decimal(damage).as_str());
    if health == 0 {
        r.append(" damage! (dead!)");
    } else {
        r.append(" damage! (");
        r.append(decimal(health).as_str());
        r.append(" / ");
        r.append(decimal(max_health).as_str());
        r.append(")");
    }
    r
}

impl Message {
    /// The message in words.
    pub open spec fn spec_text(self) -> Seq<char> {
        match self {
            Message::Hit { name, damage, health, max_health } => spec_blow(
                name,
                "hit"@,
                damage,
                health,
                max_health,
            ),
            Message::Shot { name, damage, health, max_health } => spec_blow(
                name,
                "shot"@,
                damage,
                health,
                max_health,
            ),
            Message::Appears { name, proper } => if proper {
                name.spec_text() + " appears!"@
            } else {
                "A "@ + name.spec_text() + " appears!"@
            },
        }
    }

    /// The message in words.
    pub fn text(&self) -> (r: String)
        ensures
            r@ == self.spec_text(),
    {
        match self {
            Message::Hit { name, damage, health, max_health } => blow(
                name,
                "hit",
                *damage,
                *health,
                *max_health,
            ),
            Message::Shot { name, damage, health, max_health } => blow(
                name,
                "shot",
                *damage,
                *health,
                *max_health,
            ),
            Message::Appears { name, proper } => {
                if *proper {
                    let mut r = name.text();
                    r.append(" appears!");
                    r
                } else {
                    let mut r = String::from_str("A ");
                    r.append(name.text().as_str());
                    r.append(" appears!");
                    r
                }
            },
        }
    }
}

} // verus!
