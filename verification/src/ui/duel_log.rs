//! The duel's log: the line of text that each event of a turn adds, its
//! tone, and which line of the script the editor lights up for it.

use vstd::prelude::*;
use crate::numtext::{i32_text, int_text, nat_digits, u64_text};
use crate::script::value::{kind_label, Item};
use crate::script::vm::TurnEvent;
use crate::text::{char_to_upper, char_upper, chars_of, push_chars, push_str};

verus! {

/// How a line of the log is coloured.
#[derive(Debug, Clone, Copy, PartialEq, Eq)]
pub enum LogTone {
    /// a hit that landed in full, a heal
    Good,
    /// something that did little or nothing
    Muted,
    /// information: a defence, an inspection
    Info,
    /// a reward: the bonus strike, an item found
    Reward,
    /// the monster's blow, an interrupted script
    Danger,
}

/// The name with its first letter in upper case, as values are written in
/// the editor (`Fogo`, `Bronze`).
pub open spec fn enum_case_spec(name: Seq<char>) -> Seq<char> {
    if name.len() == 0 {
        Seq::empty()
    } else {
        char_to_upper(name[0]) + name.skip(1)
    }
}

pub fn enum_case(name: &str) -> (r: String)
    ensures
        r@ == enum_case_spec(name@),
{
    let cs = chars_of(name);
    if cs.len() == 0 {
        return String::new();
    }
    let mut out = char_upper(cs[0]);
    let mut rest: Vec<char> = Vec::new();
    let n = cs.len();
    let mut i: usize = 1;
    while i < n
        invariant
            1 <= i <= n,
            n == cs@.len(),
            rest@ == cs@.subrange(1, i as int),
        decreases n - i,
    {
        rest.push(cs[i]);
        i += 1;
        assert(rest@ =~= cs@.subrange(1, i as int));
    }
    push_chars(&mut out, rest.as_slice());
    assert(cs@.skip(1) =~= cs@.subrange(1, n as int));
    out
}

pub open spec fn item_text(item: Item) -> Seq<char> {
    kind_label(item.kind) + "."@ + enum_case_spec(item.name@)
}

/// The text and tone of the log line of an event.
pub open spec fn event_text(ev: TurnEvent) -> (Seq<char>, LogTone) {
    match ev {
        TurnEvent::Attacked { item, damage, effective, .. } => (
            "atacar("@ + item_text(item) + ") -> "@ + (if effective {
                "acerto em cheio"@
            } else {
                "de raspao"@
            }) + ", "@ + int_text(damage as int) + " de dano"@,
            if effective {
                LogTone::Good
            } else {
                LogTone::Muted
            },
        ),
        TurnEvent::Defended { item, .. } => ("defender("@ + item_text(item) + ")"@, LogTone::Info),
        TurnEvent::Inspected { .. } => ("inspecionar() -> fraqueza revelada"@, LogTone::Info),
        TurnEvent::Healed { amount, .. } => ("curar() -> +"@ + int_text(amount as int) + " de vida"@, LogTone::Good),
        TurnEvent::Waited { .. } => ("esperar()"@, LogTone::Muted),
        TurnEvent::BonusStrike { damage } => (
            "script eficiente! golpe bonus: "@ + int_text(damage as int) + " de dano"@,
            LogTone::Reward,
        ),
        TurnEvent::CounterAttack { damage, blocked, special, truncated } => {
            let name = if special {
                "golpe especial"@
            } else {
                "golpe do turno"@
            };
            let suffix = if blocked {
                " (bloqueado pela metade)"@
            } else {
                Seq::empty()
            };
            if truncated {
                (
                    "orcamento estourou! "@ + name + " punido"@ + suffix + ": "@ + int_text(damage as int)
                        + " de dano"@,
                    LogTone::Danger,
                )
            } else {
                (
                    "a piramide cobra o folego do turno -- "@ + name + suffix + ": "@ + int_text(damage as int)
                        + " de dano"@,
                    LogTone::Danger,
                )
            }
        },
        TurnEvent::Truncated { .. } => ("-- execucao interrompida: ciclos esgotados --"@, LogTone::Danger),
        TurnEvent::Selected { examined, found, .. } => {
            let plural = if examined == 1 {
                "item"@
            } else {
                "itens"@
            };
            let count = " ("@ + nat_digits(examined as nat) + " "@ + plural + " examinados)"@;
            if found {
                ("selecionar() -> item encontrado"@ + count, LogTone::Reward)
            } else {
                ("selecionar() -> nenhum item bateu o filtro"@ + count, LogTone::Muted)
            }
        },
    }
}

fn push_item(out: &mut String, item: &Item)
    ensures
        final(out)@ == old(out)@ + item_text(*item),
{
    push_str(out, item.kind.label());
    push_str(out, ".");
    let e = enum_case(item.name.as_str());
    push_str(out, e.as_str());
}

fn push_i32(out: &mut String, v: i32)
    ensures
        final(out)@ == old(out)@ + int_text(v as int),
{
    let t = i32_text(v);
    push_chars(out, t.as_slice());
}

/// The log line of an event of the turn, and its tone.
pub fn describe_event(ev: &TurnEvent) -> (r: (String, LogTone))
    ensures
        r.0@ == event_text(*ev).0,
        r.1 == event_text(*ev).1,
{
    let mut s = String::new();
    match ev {
        TurnEvent::Attacked { item, damage, effective, .. } => {
            push_str(&mut s, "atacar(");
            push_item(&mut s, item);
            push_str(&mut s, ") -> ");
            push_str(
                &mut s,
                if *effective {
                    "acerto em cheio"
                } else {
                    "de raspao"
                },
            );
            push_str(&mut s, ", ");
            push_i32(&mut s, *damage);
            push_str(&mut s, " de dano");
            (
                s,
                if *effective {
                    LogTone::Good
                } else {
                    LogTone::Muted
                },
            )
        },
        TurnEvent::Defended { item, .. } => {
            push_str(&mut s, "defender(");
            push_item(&mut s, item);
            push_str(&mut s, ")");
            (s, LogTone::Info)
        },
        TurnEvent::Inspected { .. } => {
            push_str(&mut s, "inspecionar() -> fraqueza revelada");
            (s, LogTone::Info)
        },
        TurnEvent::Healed { amount, .. } => {
            push_str(&mut s, "curar() -> +");
            push_i32(&mut s, *amount);
            push_str(&mut s, " de vida");
            (s, LogTone::Good)
        },
        TurnEvent::Waited { .. } => {
            push_str(&mut s, "esperar()");
            (s, LogTone::Muted)
        },
        TurnEvent::BonusStrike { damage } => {
            push_str(&mut s, "script eficiente! golpe bonus: ");
            push_i32(&mut s, *damage);
            push_str(&mut s, " de dano");
            (s, LogTone::Reward)
        },
        TurnEvent::CounterAttack { damage, blocked, special, truncated } => {
            let name = if *special {
                "golpe especial"
            } else {
                "golpe do turno"
            };
            if *truncated {
                push_str(&mut s, "orcamento estourou! ");
                push_str(&mut s, name);
                push_str(&mut s, " punido");
            } else {
                push_str(&mut s, "a piramide cobra o folego do turno -- ");
                push_str(&mut s, name);
            }
            if *blocked {
                push_str(&mut s, " (bloqueado pela metade)");
            }
            push_str(&mut s, ": ");
            push_i32(&mut s, *damage);
            push_str(&mut s, " de dano");
            proof {
                let nm = if *special { "golpe especial"@ } else { "golpe do turno"@ };
                let sf = if *blocked { " (bloqueado pela metade)"@ } else { Seq::<char>::empty() };
                if *truncated {
                    assert(s@ =~= "orcamento estourou! "@ + nm + " punido"@ + sf + ": "@ + int_text(*damage as int)
                        + " de dano"@);
                } else {
                    assert(s@ =~= "a piramide cobra o folego do turno -- "@ + nm + sf + ": "@ + int_text(
                        *damage as int,
                    ) + " de dano"@);
                }
            }
            (s, LogTone::Danger)
        },
        TurnEvent::Truncated { .. } => {
            push_str(&mut s, "-- execucao interrompida: ciclos esgotados --");
            (s, LogTone::Danger)
        },
        TurnEvent::Selected { examined, found, .. } => {
            if *found {
                push_str(&mut s, "selecionar() -> item encontrado");
            } else {
                push_str(&mut s, "selecionar() -> nenhum item bateu o filtro");
            }
            push_str(&mut s, " (");
            let t = u64_text(*examined as u64);
            push_chars(&mut s, t.as_slice());
            push_str(&mut s, " ");
            push_str(
                &mut s,
                if *examined == 1 {
                    "item"
                } else {
                    "itens"
                },
            );
            push_str(&mut s, " examinados)");
            (
                s,
                if *found {
                    LogTone::Reward
                } else {
                    LogTone::Muted
                },
            )
        },
    }
}

/// The line of the editor (from zero) that an event lights up: the line it
/// came from; the monster's blow and the bonus strike light none.
pub open spec fn event_line_spec(ev: TurnEvent) -> Option<int> {
    match ev {
        TurnEvent::Attacked { line, .. } => Some(if line > 0 { line - 1 } else { 0 }),
        TurnEvent::Defended { line, .. } => Some(if line > 0 { line - 1 } else { 0 }),
        TurnEvent::Inspected { line } => Some(if line > 0 { line - 1 } else { 0 }),
        TurnEvent::Healed { line, .. } => Some(if line > 0 { line - 1 } else { 0 }),
        TurnEvent::Waited { line } => Some(if line > 0 { line - 1 } else { 0 }),
        TurnEvent::Truncated { line } => Some(if line > 0 { line - 1 } else { 0 }),
        TurnEvent::Selected { line, .. } => Some(if line > 0 { line - 1 } else { 0 }),
        TurnEvent::BonusStrike { .. } => None,
        TurnEvent::CounterAttack { .. } => None,
    }
}

pub fn event_line(ev: &TurnEvent) -> (r: Option<usize>)
    ensures
        match (r, event_line_spec(*ev)) {
            (Some(a), Some(b)) => a == b,
            (None, None) => true,
            _ => false,
        },
{
    match ev {
        TurnEvent::Attacked { line, .. } => Some(line.saturating_sub(1)),
        TurnEvent::Defended { line, .. } => Some(line.saturating_sub(1)),
        TurnEvent::Inspected { line } => Some(line.saturating_sub(1)),
        TurnEvent::Healed { line, .. } => Some(line.saturating_sub(1)),
        TurnEvent::Waited { line } => Some(line.saturating_sub(1)),
        TurnEvent::Truncated { line } => Some(line.saturating_sub(1)),
        TurnEvent::Selected { line, .. } => Some(line.saturating_sub(1)),
        TurnEvent::BonusStrike { .. } => None,
        TurnEvent::CounterAttack { .. } => None,
    }
}

} // verus!
