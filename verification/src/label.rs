//! Entity labels: the exact text by which the host names each entity.
//!
//! The striker is `player`, hole `i` is `hole_i` and spawner `i` is
//! `enemy_i`, with `i` written in decimal without padding. Collision
//! events carry these labels, so they are built and compared character by
//! character.

use vstd::prelude::*;
use vstd::string::*;

verus! {

/// The character for a single decimal digit.
pub open spec fn digit_char(d: nat) -> char {
    if d == 0 {
        '0'
    } else if d == 1 {
        '1'
    } else if d == 2 {
        '2'
    } else if d == 3 {
        '3'
    } else if d == 4 {
        '4'
    } else if d == 5 {
        '5'
    } else if d == 6 {
        '6'
    } else if d == 7 {
        '7'
    } else if d == 8 {
        '8'
    } else {
        '9'
    }
}

/// The decimal numeral of `n`: most significant digit first, no padding.
pub open spec fn decimal(n: nat) -> Seq<char>
    decreases n,
{
    if n < 10 {
        seq![digit_char(n)]
    } else {
        decimal(n / 10).push(digit_char(n % 10))
    }
}

/// The striker's label.
pub open spec fn striker_label() -> Seq<char> {
    "player"@
}

/// The label of the hole with the given id.
pub open spec fn hole_label(id: nat) -> Seq<char> {
    "hole_"@ + decimal(id)
}

/// The label of the spawner with the given id.
pub open spec fn enemy_label(id: nat) -> Seq<char> {
    "enemy_"@ + decimal(id)
}

/// A typed reference to one entity of the round.
#[derive(Clone, Copy, Debug, PartialEq, Eq, Structural)]
pub enum Entity {
    Striker,
    Hole(usize),
    Enemy(usize),
}

impl Entity {
    /// The label the host knows this entity by.
    pub open spec fn label_of(self) -> Seq<char> {
        match self {
            Entity::Striker => striker_label(),
            Entity::Hole(id) => hole_label(id as nat),
            Entity::Enemy(id) => enemy_label(id as nat),
        }
    }

    /// Builds the label the host knows this entity by.
    pub fn label(&self) -> (s: String)
        ensures
            s@ == self.label_of(),
    {
        match self {
            Entity::Striker => String::from_str("player"),
            Entity::Hole(id) => hole_text(*id),
            Entity::Enemy(id) => enemy_text(*id),
        }
    }
}

fn digit_text(d: u64) -> (s: &'static str)
    requires
        d < 10,
    ensures
        s@ == seq![digit_char(d as nat)],
{
    proof {
        reveal_strlit("0");
        reveal_strlit("1");
        reveal_strlit("2");
        reveal_strlit("3");
        reveal_strlit("4");
        reveal_strlit("5");
        reveal_strlit("6");
        reveal_strlit("7");
        reveal_strlit("8");
        reveal_strlit("9");
    }
    let s = if d == 0 {
        "0"
    } else if d == 1 {
        "1"
    } else if d == 2 {
        "2"
    } else if d == 3 {
        "3"
    } else if d == 4 {
        "4"
    } else if d == 5 {
        "5"
    } else if d == 6 {
        "6"
    } else if d == 7 {
        "7"
    } else if d == 8 {
        "8"
    } else {
        "9"
    };
    assert(s@ =~= seq![digit_char(d as nat)]);
    s
}

/// Writes `n` in decimal.
pub fn decimal_text(n: u64) -> (s: String)
    ensures
        s@ == decimal(n as nat),
    decreases n,
{
    if n < 10 {
        String::from_str(digit_text(n))
    } else {
        let mut s = decimal_text(n / 10);
        s.append(digit_text(n % 10));
        assert(s@ =~= decimal((n / 10) as nat).push(digit_char((n % 10) as nat)));
        s
    }
}

/// Builds the label of the hole with the given id.
pub fn hole_text(id: usize) -> (s: String)
    ensures
        s@ == hole_label(id as nat),
{
    let mut s = String::from_str("hole_");
    let digits = decimal_text(id as u64);
    s.append(digits.as_str());
    s
}

/// Builds the label of the spawner with the given id.
pub fn enemy_text(id: usize) -> (s: String)
    ensures
        s@ == enemy_label(id as nat),
{
    let mut s = String::from_str("enemy_");
    let digits = decimal_text(id as u64);
    s.append(digits.as_str());
    s
}

/// A numeral is never empty, and takes more than one digit from ten on.
pub proof fn lemma_decimal_len(n: nat)
    ensures
        decimal(n).len() >= 1,
        n >= 10 ==> decimal(n).len() >= 2,
    decreases n,
{
    if n >= 10 {
        lemma_decimal_len(n / 10);
    }
}

/// Different numbers have different numerals.
pub proof fn lemma_decimal_injective(a: nat, b: nat)
    requires
        decimal(a) == decimal(b),
    ensures
        a == b,
    decreases a,
{
    lemma_decimal_len(a);
    lemma_decimal_len(b);
    if a < 10 || b < 10 {
        assert(decimal(a).len() == 1 || decimal(b).len() == 1);
        assert(a < 10 && b < 10);
        assert(decimal(a)[0] == digit_char(a));
        assert(decimal(b)[0] == digit_char(b));
    } else {
        let da = decimal(a / 10);
        let db = decimal(b / 10);
        assert(decimal(a).drop_last() =~= da);
        assert(decimal(b).drop_last() =~= db);
        assert(decimal(a).last() == digit_char(a % 10));
        assert(decimal(b).last() == digit_char(b % 10));
        lemma_decimal_injective(a / 10, b / 10);
    }
}

/// Different holes have different labels, and so have different spawners.
pub proof fn lemma_labels_injective(a: nat, b: nat)
    ensures
        hole_label(a) == hole_label(b) ==> a == b,
        enemy_label(a) == enemy_label(b) ==> a == b,
{
    if hole_label(a) == hole_label(b) {
        let p = "hole_"@;
        assert((p + decimal(a)).subrange(p.len() as int, (p + decimal(a)).len() as int)
            =~= decimal(a));
        assert((p + decimal(b)).subrange(p.len() as int, (p + decimal(b)).len() as int)
            =~= decimal(b));
        lemma_decimal_injective(a, b);
    }
    if enemy_label(a) == enemy_label(b) {
        let p = "enemy_"@;
        assert((p + decimal(a)).subrange(p.len() as int, (p + decimal(a)).len() as int)
            =~= decimal(a));
        assert((p + decimal(b)).subrange(p.len() as int, (p + decimal(b)).len() as int)
            =~= decimal(b));
        lemma_decimal_injective(a, b);
    }
}

/// No label names two kinds of entity: the three families are told apart
/// by their first character.
pub proof fn lemma_labels_disjoint(a: nat, b: nat)
    ensures
        hole_label(a) != enemy_label(b),
        hole_label(a) != striker_label(),
        enemy_label(b) != striker_label(),
{
    reveal_strlit("player");
    reveal_strlit("hole_");
    reveal_strlit("enemy_");
    assert(hole_label(a)[0] == 'h');
    assert(enemy_label(b)[0] == 'e');
    assert(striker_label()[0] == 'p');
}

} // verus!
