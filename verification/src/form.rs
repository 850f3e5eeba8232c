//! The fields of the set-up form, and how figures are put into text for
//! display.

use vstd::prelude::*;
use vstd::utf8::{decode_utf8, encode_utf8, is_char_boundary};
use crate::orchestrator::FitnessScore;
use crate::text::{
    byte_len, chars_of, decimal_chars, decimal_of, digit, digit_char, push_chars, push_str_chars,
    string_of,
};

verus! {

/// The screens of the interactive front end.
#[derive(Clone, Copy, Debug, PartialEq, Eq, Structural)]
pub enum Screen {
    Setup,
    Running,
    Results,
}

/// The kinds of form fields.
#[derive(Debug)]
pub enum FieldKind {
    /// Free text.
    Text,
    /// One of several options; `index` is the place of the chosen one.
    Select { options: Vec<&'static str>, index: usize },
}

/// One field of the set-up form.
#[derive(Debug)]
pub struct FormField {
    pub label: &'static str,
    pub value: String,
    pub placeholder: &'static str,
    pub kind: FieldKind,
    pub sensitive: bool,
}

impl Clone for FieldKind {
    fn clone(&self) -> (r: Self)
        ensures
            match *self {
                FieldKind::Text => r is Text,
                FieldKind::Select { options, index } => r matches FieldKind::Select {
                    options: copied,
                    index: same,
                } && same == index && copied@ == options@,
            },
    {
        match self {
            FieldKind::Text => FieldKind::Text,
            FieldKind::Select { options, index } => {
                let mut copied: Vec<&'static str> = Vec::new();
                let mut i: usize = 0;
                while i < options.len()
                    invariant
                        i <= options.len(),
                        copied@ == options@.take(i as int),
                    decreases options.len() - i,
                {
                    copied.push(options[i]);
                    proof {
                        assert(copied@ =~= options@.take(i + 1));
                    }
                    i += 1;
                }
                proof {
                    assert(options@.take(options.len() as int) == options@);
                }
                FieldKind::Select { options: copied, index: *index }
            },
        }
    }
}

impl Clone for FormField {
    fn clone(&self) -> (r: Self)
        ensures
            r.label == self.label,
            r.value@ == self.value@,
            r.placeholder == self.placeholder,
            r.sensitive == self.sensitive,
            self.wf() ==> r.wf(),
    {
        FormField {
            label: self.label,
            value: self.value.clone(),
            placeholder: self.placeholder,
            kind: self.kind.clone(),
            sensitive: self.sensitive,
        }
    }
}

/// The number of bytes of a secret that are shown.
pub const REVEALED_BYTES: usize = 4;

/// The number of bytes of `value` that are shown when it is a secret: four,
/// or all of it if it is shorter.
pub open spec fn revealed_len(value: Seq<char>) -> usize {
    if byte_len(value) < REVEALED_BYTES {
        byte_len(value)
    } else {
        REVEALED_BYTES
    }
}

/// `count` asterisks.
pub open spec fn stars(count: nat) -> Seq<char> {
    Seq::new(count, |i: int| '*')
}

/// A secret as it is shown: its first bytes, and an asterisk for every
/// other byte.
pub open spec fn masked(value: Seq<char>) -> Seq<char> {
    decode_utf8(encode_utf8(value).subrange(0, revealed_len(value) as int)) + stars(
        (byte_len(value) - revealed_len(value)) as nat,
    )
}

impl FormField {
    /// Whether the field is in order: a selection has a chosen option, and
    /// the value is that option.
    pub open spec fn wf(&self) -> bool {
        match self.kind {
            FieldKind::Text => true,
            FieldKind::Select { options, index } => index < options@.len() && self.value@
                == options@[index as int]@,
        }
    }

    /// What the field shows.
    pub open spec fn shown(&self) -> Seq<char> {
        if self.value@.len() == 0 {
            self.placeholder@
        } else if self.sensitive {
            masked(self.value@)
        } else {
            self.value@
        }
    }

    /// A field of free text.
    pub fn text(label: &'static str, value: &str, placeholder: &'static str) -> (f: Self)
        ensures
            f.label == label,
            f.value@ == value@,
            f.placeholder == placeholder,
            f.kind is Text,
            !f.sensitive,
            f.wf(),
    {
        FormField {
            label,
            value: string_of(&chars_of(value)),
            placeholder,
            kind: FieldKind::Text,
            sensitive: false,
        }
    }

    /// A field of free text that holds a secret.
    pub fn sensitive(label: &'static str, value: &str, placeholder: &'static str) -> (f: Self)
        ensures
            f.label == label,
            f.value@ == value@,
            f.placeholder == placeholder,
            f.kind is Text,
            f.sensitive,
            f.wf(),
    {
        FormField {
            label,
            value: string_of(&chars_of(value)),
            placeholder,
            kind: FieldKind::Text,
            sensitive: true,
        }
    }

    /// A field that selects among `options`, the one at `index` being
    /// chosen.
    pub fn select(label: &'static str, options: Vec<&'static str>, index: usize) -> (f: Self)
        requires
            index < options@.len(),
        ensures
            f.label == label,
            f.value@ == options@[index as int]@,
            f.placeholder@.len() == 0,
            f.kind == (FieldKind::Select { options, index }),
            !f.sensitive,
            f.wf(),
    {
        let value = string_of(&chars_of(options[index]));
        let placeholder: &'static str = "";
        proof {
            vstd::string::axiom_str_literal_len(placeholder);
            reveal_strlit("");
        }
        FormField {
            label,
            value,
            placeholder,
            kind: FieldKind::Select { options, index },
            sensitive: false,
        }
    }

    /// What the field shows: the placeholder while it is empty; of a secret
    /// the first four bytes and asterisks for the rest; else the value.
    pub fn display_value(&self) -> (r: String)
        requires
            self.value@.len() > 0 && self.sensitive ==> is_char_boundary(
                encode_utf8(self.value@),
                revealed_len(self.value@) as int,
            ),
        ensures
            r@ == self.shown(),
    {
        if self.value.as_str().is_empty() {
            string_of(&chars_of(self.placeholder))
        } else if self.sensitive {
            let n = self.value.as_str().len();
            let reveal = if n < REVEALED_BYTES {
                n
            } else {
                REVEALED_BYTES
            };
            let (head, _) = self.value.as_str().split_at(reveal);
            proof {
                vstd::utf8::encode_utf8_decode_utf8(head@);
            }
            let mut shown = chars_of(head);
            let ghost start = shown@;
            let hidden = n - reveal;
            let mut i: usize = 0;
            while i < hidden
                invariant
                    i <= hidden,
                    shown@ == start + stars(i as nat),
                decreases hidden - i,
            {
                shown.push('*');
                proof {
                    assert(shown@ =~= start + stars((i + 1) as nat));
                }
                i += 1;
            }
            string_of(&shown)
        } else {
            self.value.clone()
        }
    }

    /// Chooses the next option of a selection, the first after the last.
    /// A text field is left as it is.
    pub fn select_next(&mut self)
        requires
            old(self).wf(),
        ensures
            final(self).wf(),
            final(self).label == old(self).label,
            final(self).placeholder == old(self).placeholder,
            final(self).sensitive == old(self).sensitive,
            match old(self).kind {
                FieldKind::Text => *final(self) == *old(self),
                FieldKind::Select { options, index } => final(self).kind == (FieldKind::Select {
                    options,
                    index: if index + 1 == options@.len() {
                        0
                    } else {
                        (index + 1) as usize
                    },
                }),
            },
    {
        let next = match &self.kind {
            FieldKind::Text => None,
            FieldKind::Select { options, index } => {
                let n = options.len();
                let k = if *index + 1 == n {
                    0
                } else {
                    *index + 1
                };
                Some((k, string_of(&chars_of(options[k]))))
            },
        };
        match next {
            Some((k, value)) => {
                self.set_choice(k, value);
            },
            None => {},
        }
    }

    /// Chooses the option before the chosen one of a selection, the last
    /// before the first. A text field is left as it is.
    pub fn select_prev(&mut self)
        requires
            old(self).wf(),
        ensures
            final(self).wf(),
            final(self).label == old(self).label,
            final(self).placeholder == old(self).placeholder,
            final(self).sensitive == old(self).sensitive,
            match old(self).kind {
                FieldKind::Text => *final(self) == *old(self),
                FieldKind::Select { options, index } => final(self).kind == (FieldKind::Select {
                    options,
                    index: if index == 0 {
                        (options@.len() - 1) as usize
                    } else {
                        (index - 1) as usize
                    },
                }),
            },
    {
        let next = match &self.kind {
            FieldKind::Text => None,
            FieldKind::Select { options, index } => {
                let k = if *index == 0 {
                    options.len() - 1
                } else {
                    *index - 1
                };
                Some((k, string_of(&chars_of(options[k]))))
            },
        };
        match next {
            Some((k, value)) => {
                self.set_choice(k, value);
            },
            None => {},
        }
    }

    /// Makes the option at `index` the chosen one.
    fn set_choice(&mut self, index: usize, value: String)
        requires
            old(self).kind matches FieldKind::Select { options, .. } && index < options@.len()
                && value@ == options@[index as int]@,
        ensures
            final(self).wf(),
            final(self).label == old(self).label,
            final(self).placeholder == old(self).placeholder,
            final(self).sensitive == old(self).sensitive,
            old(self).kind matches FieldKind::Select { options, .. } && final(self).kind == (
            FieldKind::Select { options, index }),
    {
        let mut kind = FieldKind::Text;
        core::mem::swap(&mut kind, &mut self.kind);
        match kind {
            FieldKind::Select { options, .. } => {
                self.kind = FieldKind::Select { options, index };
                self.value = value;
            },
            FieldKind::Text => {},
        }
    }
}

/// Two decimal digits for a number below a hundred.
pub open spec fn two_digits(n: nat) -> Seq<char> {
    seq![digit_char(n / 10), digit_char(n % 10)]
}

/// The time of day, in hours, minutes and seconds, at `secs` seconds after
/// midnight of some day.
pub open spec fn clock_text_of(secs: nat) -> Seq<char> {
    two_digits((secs / 3600) % 24) + ":"@ + two_digits((secs / 60) % 60) + ":"@ + two_digits(
        secs % 60,
    )
}

/// Appends two decimal digits.
fn push_two_digits(text: &mut Vec<char>, n: u64)
    requires
        n < 100,
    ensures
        final(text)@ == old(text)@ + two_digits(n as nat),
{
    text.push(digit((n / 10) as u8));
    text.push(digit((n % 10) as u8));
    proof {
        assert(text@ =~= old(text)@ + two_digits(n as nat));
    }
}

/// The time of day as `hh:mm:ss` for a count of seconds since the epoch.
pub fn clock_text(secs: u64) -> (r: String)
    ensures
        r@ == clock_text_of(secs as nat),
{
    let mut text: Vec<char> = Vec::new();
    push_two_digits(&mut text, (secs / 3600) % 24);
    push_str_chars(&mut text, ":");
    push_two_digits(&mut text, (secs / 60) % 60);
    push_str_chars(&mut text, ":");
    push_two_digits(&mut text, secs % 60);
    proof {
        assert(text@ =~= clock_text_of(secs as nat));
    }
    string_of(&text)
}

/// `amount / unit` rounded to the nearest tenth, in tenths; a tie goes to
/// the even tenth.
pub open spec fn tenths_of(amount: nat, unit: nat) -> nat {
    let step = unit / 10;
    let q = amount / step;
    let r = amount % step;
    if 2 * r > step || (2 * r == step && q % 2 == 1) {
        q + 1
    } else {
        q
    }
}

/// `amount / unit` rounded to the nearest hundredth, in hundredths; a tie
/// goes to the even hundredth.
pub open spec fn hundredths_of(amount: nat, unit: nat) -> nat {
    let step = unit / 100;
    let q = amount / step;
    let r = amount % step;
    if 2 * r > step || (2 * r == step && q % 2 == 1) {
        q + 1
    } else {
        q
    }
}

/// A number of tenths with one decimal.
pub open spec fn one_decimal(tenths: nat) -> Seq<char> {
    decimal_of(tenths / 10) + "."@ + seq![digit_char(tenths % 10)]
}

/// A number of hundredths with two decimals.
pub open spec fn two_decimals(hundredths: nat) -> Seq<char> {
    decimal_of(hundredths / 100) + "."@ + two_digits(hundredths % 100)
}

/// `amount / unit` rounded to the nearest tenth, in tenths.
pub fn round_to_tenths(amount: u64, unit: u64) -> (r: u64)
    requires
        unit >= 20,
    ensures
        r == tenths_of(amount as nat, unit as nat),
{
    let step = unit / 10;
    let q = amount / step;
    let r = amount % step;
    proof {
        assert(q <= 0x7FFF_FFFF_FFFF_FFFF) by (nonlinear_arith)
            requires
                step >= 2,
                q == amount / step,
                0 <= amount <= 0xFFFF_FFFF_FFFF_FFFF,
        ;
    }
    if 2 * r > step || (2 * r == step && q % 2 == 1) {
        q + 1
    } else {
        q
    }
}

/// `amount / unit` rounded to the nearest hundredth, in hundredths.
pub fn round_to_hundredths(amount: u64, unit: u64) -> (r: u64)
    requires
        unit >= 200,
    ensures
        r == hundredths_of(amount as nat, unit as nat),
{
    let step = unit / 100;
    let q = amount / step;
    let r = amount % step;
    proof {
        assert(q <= 0x7FFF_FFFF_FFFF_FFFF) by (nonlinear_arith)
            requires
                step >= 2,
                q == amount / step,
                0 <= amount <= 0xFFFF_FFFF_FFFF_FFFF,
        ;
    }
    if 2 * r > step || (2 * r == step && q % 2 == 1) {
        q + 1
    } else {
        q
    }
}

/// Appends a number of tenths with one decimal.
fn push_one_decimal(text: &mut Vec<char>, tenths: u64)
    ensures
        final(text)@ == old(text)@ + one_decimal(tenths as nat),
{
    let whole = decimal_chars(tenths / 10);
    push_chars(text, &whole);
    push_str_chars(text, ".");
    text.push(digit((tenths % 10) as u8));
    proof {
        assert(text@ =~= old(text)@ + one_decimal(tenths as nat));
    }
}

/// Appends a number of hundredths with two decimals.
fn push_two_decimals(text: &mut Vec<char>, hundredths: u64)
    ensures
        final(text)@ == old(text)@ + two_decimals(hundredths as nat),
{
    let whole = decimal_chars(hundredths / 100);
    push_chars(text, &whole);
    push_str_chars(text, ".");
    push_two_digits(text, hundredths % 100);
}

/// A count of tokens as it is shown: in millions or thousands with one
/// decimal from a million or a thousand on, else as it is.
pub open spec fn token_count_text(tokens: u64) -> Seq<char> {
    if tokens >= 1_000_000 {
        one_decimal(tenths_of(tokens as nat, 1_000_000)) + "M"@
    } else if tokens >= 1_000 {
        one_decimal(tenths_of(tokens as nat, 1_000)) + "k"@
    } else {
        decimal_of(tokens as nat)
    }
}

/// A count of tokens as it is shown.
pub fn format_token_count(tokens: u64) -> (r: String)
    ensures
        r@ == token_count_text(tokens),
{
    let mut text: Vec<char> = Vec::new();
    if tokens >= 1_000_000 {
        push_one_decimal(&mut text, round_to_tenths(tokens, 1_000_000));
        push_str_chars(&mut text, "M");
    } else if tokens >= 1_000 {
        push_one_decimal(&mut text, round_to_tenths(tokens, 1_000));
        push_str_chars(&mut text, "k");
    } else {
        let digits = decimal_chars(tokens);
        push_chars(&mut text, &digits);
    }
    string_of(&text)
}

/// The width of a score bar: two places for every point of the score.
pub const BAR_WIDTH: usize = 20;

/// The number of filled places in the bar of a total: two for every whole
/// half point, at most twenty.
pub open spec fn bar_fill(total: u32) -> nat {
    if total >= 10_000_000 {
        20
    } else {
        (total as nat * 2) / 1_000_000
    }
}

/// The bar of a total: filled places, then empty ones.
pub open spec fn score_bar_of(total: u32) -> Seq<char> {
    Seq::new(
        BAR_WIDTH as nat,
        |i: int|
            if i < bar_fill(total) {
                '#'
            } else {
                '-'
            },
    )
}

/// The bar of a total, twenty places wide.
pub fn score_bar(total: u32) -> (r: String)
    ensures
        r@ == score_bar_of(total),
{
    let filled: usize = if total >= 10_000_000 {
        20
    } else {
        ((total as u64 * 2) / 1_000_000) as usize
    };
    let mut text: Vec<char> = Vec::new();
    let mut i: usize = 0;
    while i < BAR_WIDTH
        invariant
            i <= BAR_WIDTH,
            filled == bar_fill(total),
            text@ == score_bar_of(total).take(i as int),
        decreases BAR_WIDTH - i,
    {
        if i < filled {
            text.push('#');
        } else {
            text.push('-');
        }
        proof {
            assert(text@ =~= score_bar_of(total).take(i + 1));
        }
        i += 1;
    }
    proof {
        assert(score_bar_of(total).take(BAR_WIDTH as int) == score_bar_of(total));
    }
    string_of(&text)
}

/// A fitness as it is shown: the total with two decimals, then quality,
/// consistency and efficiency with one decimal each, then the diversity
/// penalty if it is above a hundredth.
pub open spec fn fitness_text(
    total: u32,
    quality: u32,
    consistency: u32,
    efficiency: u32,
    penalty: u32,
) -> Seq<char> {
    two_decimals(hundredths_of(total as nat, 1_000_000)) + "  (Q:"@ + one_decimal(
        tenths_of(quality as nat, 1_000_000),
    ) + " C:"@ + one_decimal(tenths_of(consistency as nat, 1_000_000)) + " E:"@ + one_decimal(
        tenths_of(efficiency as nat, 1_000_000),
    ) + (if penalty > 10_000 {
        " D:-"@ + one_decimal(tenths_of(penalty as nat, 1_000_000))
    } else {
        Seq::empty()
    }) + ")"@
}

/// A fitness as it is shown.
pub fn describe_fitness(score: &FitnessScore) -> (r: String)
    ensures
        r@ == fitness_text(
            score.total,
            score.quality,
            score.consistency,
            score.efficiency,
            score.diversity_penalty,
        ),
{
    let mut text: Vec<char> = Vec::new();
    push_two_decimals(&mut text, round_to_hundredths(score.total as u64, 1_000_000));
    push_str_chars(&mut text, "  (Q:");
    push_one_decimal(&mut text, round_to_tenths(score.quality as u64, 1_000_000));
    push_str_chars(&mut text, " C:");
    push_one_decimal(&mut text, round_to_tenths(score.consistency as u64, 1_000_000));
    push_str_chars(&mut text, " E:");
    push_one_decimal(&mut text, round_to_tenths(score.efficiency as u64, 1_000_000));
    if score.diversity_penalty > 10_000 {
        push_str_chars(&mut text, " D:-");
        push_one_decimal(&mut text, round_to_tenths(score.diversity_penalty as u64, 1_000_000));
    }
    push_str_chars(&mut text, ")");
    string_of(&text)
}

} // verus!
