//! The lines of an entry's sheet: what is written of a spell, a monster, a
//! piece of equipment or a feature, from the values that its record holds.

use vstd::prelude::*;
use vstd::string::*;
use crate::stats::{decimal, decimal_string, format_stat, stat_cell};
use crate::text::{join_all, joined, split, split_line, text_view, views};

verus! {

/// The level of a spell and its school: `cantrip` for level nought.
pub open spec fn level_text(level: int, school: Seq<char>) -> Seq<char> {
    let grade = if level == 0 {
        "cantrip"@
    } else {
        "Level "@ + decimal(level)
    };
    grade + seq![' '] + school
}

/// Writes the level of a spell and its school.
pub fn level_line(level: i32, school: &str) -> (line: String)
    ensures
        line@ == level_text(level as int, school@),
{
    let mut line = if level == 0 {
        String::from_str("cantrip")
    } else {
        let mut l = String::from_str("Level ");
        let number = decimal_string(level);
        l.append(number.as_str());
        l
    };
    line.push(' ');
    line.append(school);
    line
}

/// The components of a spell, with the material in brackets behind them
/// where one is needed.
pub open spec fn components_text(components: Seq<Seq<char>>, material: Option<Seq<char>>) -> Seq<
    char,
> {
    let needed = match material {
        Some(m) => " ("@ + m + ")"@,
        None => Seq::<char>::empty(),
    };
    joined(components, ", "@) + needed
}

/// Writes the components of a spell.
pub fn components_line(components: &Vec<String>, material: Option<&str>) -> (line: String)
    ensures
        line@ == components_text(views(components@), text_view(material)),
{
    let mut line = join_all(components, ", ");
    match material {
        Some(m) => {
            let ghost before = line@;
            line.append(" (");
            line.append(m);
            line.append(")");
            assert(line@ =~= before + (" ("@ + m@ + ")"@));
        },
        None => {
            assert(line@ + Seq::<char>::empty() =~= line@);
        },
    }
    line
}

/// The duration of a spell, behind a note where the spell takes
/// concentration.
pub open spec fn duration_text(duration: Seq<char>, concentration: bool) -> Seq<char> {
    if concentration {
        "Concentration, "@ + duration
    } else {
        duration
    }
}

/// Writes the duration of a spell.
pub fn duration_line(duration: &str, concentration: bool) -> (line: String)
    ensures
        line@ == duration_text(duration@, concentration),
{
    let mut line = String::new();
    if concentration {
        line.append("Concentration, ");
    }
    line.append(duration);
    assert(line@ =~= duration_text(duration@, concentration));
    line
}

/// Writes the size, the type and the alignment of a monster.
pub fn descriptor_line(size: &str, kind: &str, alignment: &str) -> (line: String)
    ensures
        line@ == size@ + " "@ + kind@ + ", "@ + alignment@,
{
    let mut line = String::from_str(size);
    line.append(" ");
    line.append(kind);
    line.append(", ");
    line.append(alignment);
    line
}

/// A way of moving and its speed, where the monster has it.
pub open spec fn pace(way: Seq<char>, speed: Option<Seq<char>>) -> Seq<Seq<char>> {
    match speed {
        Some(s) => seq![way + s],
        None => Seq::<Seq<char>>::empty(),
    }
}

/// The speeds of a monster: walking without a word before it, then
/// climbing, swimming and flying, with commas between them.
pub open spec fn speed_text(
    walk: Option<Seq<char>>,
    climb: Option<Seq<char>>,
    swim: Option<Seq<char>>,
    fly: Option<Seq<char>>,
) -> Seq<char> {
    joined(
        pace(Seq::<char>::empty(), walk) + pace("climb "@, climb) + pace("swim "@, swim) + pace(
            "fly "@,
            fly,
        ),
        ", "@,
    )
}

/// Adds a way of moving to the speeds of a monster.
fn add_pace(parts: &mut Vec<String>, way: &str, speed: Option<&str>)
    ensures
        views(final(parts)@) == views(old(parts)@) + pace(way@, text_view(speed)),
{
    match speed {
        Some(s) => {
            let mut part = String::from_str(way);
            part.append(s);
            let ghost before = views(parts@);
            parts.push(part);
            assert(views(parts@) =~= before + seq![way@ + s@]);
        },
        None => {
            assert(views(parts@) + Seq::<Seq<char>>::empty() =~= views(parts@));
        },
    }
}

/// Writes the speeds of a monster.
pub fn speed_line(
    walk: Option<&str>,
    climb: Option<&str>,
    swim: Option<&str>,
    fly: Option<&str>,
) -> (line: String)
    ensures
        line@ == speed_text(text_view(walk), text_view(climb), text_view(swim), text_view(fly)),
{
    let mut parts: Vec<String> = Vec::new();
    assert(views(parts@) =~= Seq::<Seq<char>>::empty());
    add_pace(&mut parts, "", walk);
    proof {
        reveal_strlit("");
        assert(""@ =~= Seq::<char>::empty());
        assert(views(parts@) =~= pace(Seq::<char>::empty(), text_view(walk)));
    }
    add_pace(&mut parts, "climb ", climb);
    add_pace(&mut parts, "swim ", swim);
    add_pace(&mut parts, "fly ", fly);
    join_all(&parts, ", ")
}

/// A line of `width` tildes.
pub open spec fn rule_text(width: nat) -> Seq<char> {
    Seq::new(width, |i: int| '~')
}

/// Draws a rule across the canvas.
pub fn rule_line(width: usize) -> (line: String)
    ensures
        line@ == rule_text(width as nat),
{
    let mut line = String::new();
    let mut i: usize = 0;
    assert(line@ =~= rule_text(0));
    while i < width
        invariant
            i <= width,
            line@ == rule_text(i as nat),
        decreases width - i,
    {
        line.push('~');
        i += 1;
        assert(line@ =~= rule_text(i as nat));
    }
    line
}

/// The heads of the six columns of a stat block, each in the middle of its
/// cell of nine.
pub fn stat_header() -> (line: String)
    ensures
        line@ == "   STR      DEX      CON      INT      WIS      CHA"@,
{
    String::from_str("   STR      DEX      CON      INT      WIS      CHA")
}

/// The cells of the first `n` of `scores`, one after the other, or `None`
/// if one of the scores has no cell.
pub open spec fn stat_cells(scores: Seq<i32>, n: int) -> Option<Seq<char>>
    decreases n,
{
    if n <= 0 {
        Some(Seq::<char>::empty())
    } else {
        match (stat_cells(scores, n - 1), stat_cell(scores[n - 1] as int)) {
            (Some(row), Some(cell)) => Some(row + cell),
            _ => None,
        }
    }
}

/// Once some scores have no row, no further score mends it.
proof fn lemma_cells_fail_on(scores: Seq<i32>, n: int, m: int)
    requires
        0 <= n <= m,
        stat_cells(scores, n) is None,
    ensures
        stat_cells(scores, m) is None,
    decreases m - n,
{
    if n < m {
        lemma_cells_fail_on(scores, n, m - 1);
    }
}

/// Writes the row of a stat block for these scores.
pub fn stat_row(scores: &Vec<i32>) -> (row: Option<String>)
    ensures
        match row {
            Some(r) => stat_cells(scores@, scores@.len() as int) == Some(r@),
            None => stat_cells(scores@, scores@.len() as int) is None,
        },
{
    let mut row = String::new();
    let mut i: usize = 0;
    while i < scores.len()
        invariant
            i <= scores.len(),
            stat_cells(scores@, i as int) == Some(row@),
        decreases scores.len() - i,
    {
        match format_stat(scores[i]) {
            Some(cell) => {
                row.append(cell.as_str());
            },
            None => {
                proof {
                    lemma_cells_fail_on(scores@, i as int + 1, scores@.len() as int);
                }
                return None;
            },
        }
        i += 1;
    }
    Some(row)
}

/// Whether `text` begins with `prefix`.
pub open spec fn begins_with(text: Seq<char>, prefix: Seq<char>) -> bool {
    text.len() >= prefix.len() && text.take(prefix.len() as int) == prefix
}

/// Tells whether `text` begins with `prefix`.
pub fn starts_with(text: &str, prefix: &str) -> (b: bool)
    ensures
        b == begins_with(text@, prefix@),
{
    let n = prefix.unicode_len();
    if text.unicode_len() < n {
        return false;
    }
    let head = text.substring_char(0, n);
    assert(text@.subrange(0, n as int) =~= text@.take(n as int));
    head.eq(prefix)
}

/// What a proficiency is a proficiency in.
#[derive(Clone, Copy, Debug, PartialEq, Eq, Structural)]
pub enum Proficiency {
    /// A saving throw: its name begins with `Saving`, and its last word
    /// names the ability.
    SavingThrow,
    /// A skill: its name begins with `Skill`, and its second word names
    /// the skill.
    Skill,
}

/// The word of a proficiency's name that is shown, if the proficiency is of
/// the kind `wanted` and has that word.
pub open spec fn label_of(wanted: Proficiency, name: Seq<char>) -> Option<Seq<char>> {
    let words = split(name, ' ');
    match wanted {
        Proficiency::SavingThrow => if begins_with(name, "Saving"@) {
            Some(words.last())
        } else {
            None
        },
        Proficiency::Skill => if begins_with(name, "Skill"@) && words.len() >= 2 {
            Some(words[1])
        } else {
            None
        },
    }
}

/// A proficiency as it is shown: its word, and its bonus behind a plus
/// sign.
pub open spec fn bonus_text(label: Seq<char>, value: int) -> Seq<char> {
    label + " +"@ + decimal(value)
}

/// Writes a proficiency as it is shown, if it is of the kind `wanted`.
pub fn proficiency(wanted: Proficiency, name: &str, value: i32) -> (shown: Option<String>)
    ensures
        match shown {
            Some(s) => label_of(wanted, name@) is Some && s@ == bonus_text(
                label_of(wanted, name@)->0,
                value as int,
            ),
            None => label_of(wanted, name@) is None,
        },
{
    let mut words = split_line(name, ' ');
    let label = match wanted {
        Proficiency::SavingThrow => {
            if !starts_with(name, "Saving") {
                return None;
            }
            let ghost all = views(words@);
            let last = words.pop().unwrap();
            assert(last@ == all.last());
            last
        },
        Proficiency::Skill => {
            if !starts_with(name, "Skill") || words.len() < 2 {
                return None;
            }
            let ghost all = views(words@);
            let second = words.remove(1);
            assert(second@ == all[1]);
            second
        },
    };
    let mut shown = label;
    shown.append(" +");
    let number = decimal_string(value);
    shown.append(number.as_str());
    Some(shown)
}

/// A sense and how far it reaches, with a comma behind, where the monster
/// has it.
pub open spec fn sense(name: Seq<char>, reach: Option<Seq<char>>) -> Seq<char> {
    match reach {
        Some(r) => name + r + ", "@,
        None => Seq::<char>::empty(),
    }
}

/// The senses of a monster: true sight, blind sight and dark vision, each
/// with a comma behind, and the passive perception last.
pub open spec fn senses_text(
    truesight: Option<Seq<char>>,
    blindsight: Option<Seq<char>>,
    darkvision: Option<Seq<char>>,
    passive: Option<i32>,
) -> Seq<char> {
    let perception = match passive {
        Some(p) => "passive Perception "@ + decimal(p as int),
        None => Seq::<char>::empty(),
    };
    sense("truesight "@, truesight) + sense("blindsight "@, blindsight) + sense(
        "darkvision "@,
        darkvision,
    ) + perception
}

/// Adds a sense to the senses of a monster.
fn add_sense(line: &mut String, name: &str, reach: Option<&str>)
    ensures
        final(line)@ == old(line)@ + sense(name@, text_view(reach)),
{
    match reach {
        Some(r) => {
            let ghost before = line@;
            line.append(name);
            line.append(r);
            line.append(", ");
            assert(line@ =~= before + (name@ + r@ + ", "@));
        },
        None => {
            assert(line@ + Seq::<char>::empty() =~= line@);
        },
    }
}

/// Writes the senses of a monster.
pub fn senses_line(
    truesight: Option<&str>,
    blindsight: Option<&str>,
    darkvision: Option<&str>,
    passive: Option<i32>,
) -> (line: String)
    ensures
        line@ == senses_text(
            text_view(truesight),
            text_view(blindsight),
            text_view(darkvision),
            passive,
        ),
{
    let mut line = String::new();
    add_sense(&mut line, "truesight ", truesight);
    assert(line@ =~= sense("truesight "@, text_view(truesight)));
    add_sense(&mut line, "blindsight ", blindsight);
    add_sense(&mut line, "darkvision ", darkvision);
    match passive {
        Some(p) => {
            let ghost before = line@;
            line.append("passive Perception ");
            let number = decimal_string(p);
            line.append(number.as_str());
            assert(line@ =~= before + ("passive Perception "@ + decimal(p as int)));
        },
        None => {
            assert(line@ + Seq::<char>::empty() =~= line@);
        },
    }
    line
}

/// The damage of a weapon: its dice, its bonus behind a plus sign if it has
/// one above nought and a space if it has one at all, and the kind of
/// damage.
pub open spec fn damage_text(
    dice: Option<Seq<char>>,
    bonus: Option<i32>,
    kind: Option<Seq<char>>,
) -> Seq<char> {
    let thrown = match dice {
        Some(d) => d,
        None => Seq::<char>::empty(),
    };
    let added = match bonus {
        Some(b) => if b > 0 {
            seq!['+'] + decimal(b as int) + seq![' ']
        } else {
            seq![' ']
        },
        None => Seq::<char>::empty(),
    };
    let of_kind = match kind {
        Some(k) => k,
        None => Seq::<char>::empty(),
    };
    thrown + added + of_kind
}

/// Writes the damage of a weapon.
pub fn damage_line(dice: Option<&str>, bonus: Option<i32>, kind: Option<&str>) -> (line: String)
    ensures
        line@ == damage_text(text_view(dice), bonus, text_view(kind)),
{
    let mut line = String::new();
    match dice {
        Some(d) => {
            line.append(d);
        },
        None => {},
    }
    let ghost first = line@;
    match bonus {
        Some(b) => {
            if b > 0 {
                line.push('+');
                let number = decimal_string(b);
                line.append(number.as_str());
                line.push(' ');
                assert(line@ =~= first + (seq!['+'] + decimal(b as int) + seq![' ']));
            } else {
                line.push(' ');
                assert(line@ =~= first + seq![' ']);
            }
        },
        None => {
            assert(line@ =~= first + Seq::<char>::empty());
        },
    }
    let ghost second = line@;
    match kind {
        Some(k) => {
            line.append(k);
        },
        None => {
            assert(line@ =~= second + Seq::<char>::empty());
        },
    }
    assert(first =~= match dice {
        Some(d) => d@,
        None => Seq::<char>::empty(),
    });
    line
}

/// Where a feature belongs: the level from which it is had, the class, and
/// the subclass in brackets, with spaces between those that are known.
pub open spec fn feature_text(
    level: Option<i32>,
    class: Option<Seq<char>>,
    subclass: Option<Seq<char>>,
) -> Seq<char> {
    let from = match level {
        Some(l) => seq!["Level "@ + decimal(l as int)],
        None => Seq::<Seq<char>>::empty(),
    };
    let of_class = match class {
        Some(c) => seq![c],
        None => Seq::<Seq<char>>::empty(),
    };
    let of_subclass = match subclass {
        Some(s) => seq![seq!['('] + s + seq![')']],
        None => Seq::<Seq<char>>::empty(),
    };
    joined(from + of_class + of_subclass, " "@)
}

/// Writes where a feature belongs.
pub fn feature_line(level: Option<i32>, class: Option<&str>, subclass: Option<&str>) -> (line:
    String)
    ensures
        line@ == feature_text(level, text_view(class), text_view(subclass)),
{
    let mut parts: Vec<String> = Vec::new();
    assert(views(parts@) =~= Seq::<Seq<char>>::empty());
    match level {
        Some(l) => {
            let mut part = String::from_str("Level ");
            let number = decimal_string(l);
            part.append(number.as_str());
            parts.push(part);
            assert(views(parts@) =~= seq!["Level "@ + decimal(l as int)]);
        },
        None => {},
    }
    let ghost first = views(parts@);
    match class {
        Some(c) => {
            parts.push(String::from_str(c));
            assert(views(parts@) =~= first + seq![c@]);
        },
        None => {
            assert(views(parts@) =~= first + Seq::<Seq<char>>::empty());
        },
    }
    let ghost second = views(parts@);
    match subclass {
        Some(s) => {
            let mut part = String::new();
            part.push('(');
            part.append(s);
            part.push(')');
            assert(part@ =~= seq!['('] + s@ + seq![')']);
            parts.push(part);
            assert(views(parts@) =~= second + seq![seq!['('] + s@ + seq![')']]);
        },
        None => {
            assert(views(parts@) =~= second + Seq::<Seq<char>>::empty());
        },
    }
    join_all(&parts, " ")
}

} // verus!
