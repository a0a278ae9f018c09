//! Pressure stall information as the kernel exports it.
//!
//! A pressure line reads `some|full avg10=F avg60=F avg300=F total=U`. Each
//! average is a percentage with a decimal point; it is kept in hundredths of a
//! percent and digits past the second decimal place are dropped. The total is
//! a count of microseconds and may be missing.

use crate::error::OomdError;
use crate::model::{ResourcePressure, FULL_SCALE};
use crate::number::{
    all_digits, char_of_digit, decimal_text, decimal_u64, digit_char, digit_of, digit_value,
    is_digit, is_plain_number, lemma_decimal_text, lemma_digits_are_plain, parse_u64,
    plain_number, read_digits, write_chars, write_str, write_u64,
};
use crate::text::{
    chars_of, first_index, is_space, is_word, join_with_spaces, join_words,
    lemma_first_index_is, lemma_split_pair, lemma_words_of_join, slice_of, space_free,
    split_at_char, split_on, split_words, string_of, texts, words,
};
use vstd::prelude::*;

verus! {

/// Which share of tasks a pressure line speaks of.
#[derive(Debug, Clone, Copy, PartialEq, Eq, Structural)]
pub enum PressureType {
    /// At least one task was stalled.
    Partial,
    /// All tasks were stalled at once.
    Full,
}

impl PressureType {
    /// The word that begins a pressure line of this kind.
    pub open spec fn word(self) -> Seq<char> {
        match self {
            PressureType::Partial => "some"@,
            PressureType::Full => "full"@,
        }
    }

    /// The word that begins a pressure line of this kind.
    pub fn as_str(&self) -> (r: &'static str)
        ensures
            r@ == self.word(),
    {
        match self {
            PressureType::Partial => "some",
            PressureType::Full => "full",
        }
    }
}

/// One parsed pressure line: the three averages in hundredths of a percent
/// and the total stall time in microseconds.
#[derive(Debug, Clone, Copy, PartialEq, Eq)]
pub struct PsiData {
    pub avg10: u32,
    pub avg60: u32,
    pub avg300: u32,
    pub total: Option<u64>,
}

/// The hundredths that the digits after a decimal point stand for.
pub open spec fn fraction_value(f: Seq<char>) -> nat {
    if f.len() == 1 {
        10 * digit_value(f[0])
    } else {
        10 * digit_value(f[0]) + digit_value(f[1])
    }
}

/// The percentage that `s` writes, in hundredths of a percent: digits, and
/// optionally a point and more digits. None where `s` is written otherwise or
/// the percentage is above 100.
pub open spec fn percent_value(s: Seq<char>) -> Option<u32> {
    let dot = first_index(s, '.') as int;
    if dot >= s.len() {
        match plain_number(s) {
            Some(n) => if n <= 100 {
                Some((n * 100) as u32)
            } else {
                None
            },
            None => None,
        }
    } else {
        match (plain_number(s.take(dot)), plain_number(s.skip(dot + 1))) {
            (Some(n), Some(_)) => if n * 100 + fraction_value(s.skip(dot + 1)) <= FULL_SCALE {
                Some((n * 100 + fraction_value(s.skip(dot + 1))) as u32)
            } else {
                None
            },
            _ => None,
        }
    }
}

/// How a percentage in hundredths is written: whole part, point, two digits.
pub open spec fn percent_text(h: nat) -> Seq<char> {
    decimal_text(h / 100) + seq!['.', digit_char((h % 100) / 10), digit_char(h % 10)]
}

/// The value text of a token `key=value` with exactly one equals sign.
pub open spec fn field_value(token: Seq<char>, key: Seq<char>) -> Option<Seq<char>> {
    let parts = split_on(token, '=');
    if parts.len() == 2 && parts[0] == key {
        Some(parts[1])
    } else {
        None
    }
}

/// The average that the token `key=F` gives.
pub open spec fn average_field(token: Seq<char>, key: Seq<char>) -> Option<u32> {
    match field_value(token, key) {
        Some(v) => percent_value(v),
        None => None,
    }
}

/// The total that the token `total=U` gives.
pub open spec fn total_field(token: Seq<char>) -> Option<u64> {
    match field_value(token, "total"@) {
        Some(v) => decimal_u64(v),
        None => None,
    }
}

/// What a pressure line says, or none where it is malformed: fewer than four
/// words, a first word other than `some` or `full`, an average that is not
/// `avg10=F`, `avg60=F`, `avg300=F` in this order, or a fifth word that is not
/// `total=U`. Words after the fifth are not read.
pub open spec fn psi_line(line: Seq<char>) -> Option<PsiData> {
    let w = words(line);
    if w.len() < 4 || !(w[0] == "some"@ || w[0] == "full"@) {
        None
    } else {
        match (
            average_field(w[1], "avg10"@),
            average_field(w[2], "avg60"@),
            average_field(w[3], "avg300"@),
        ) {
            (Some(a), Some(b), Some(c)) => if w.len() == 4 {
                Some(PsiData { avg10: a, avg60: b, avg300: c, total: None })
            } else {
                match total_field(w[4]) {
                    Some(t) => Some(PsiData { avg10: a, avg60: b, avg300: c, total: Some(t) }),
                    None => None,
                }
            },
            _ => None,
        }
    }
}

/// The words of the canonical line for `d`.
pub open spec fn psi_words(kind: PressureType, d: PsiData) -> Seq<Seq<char>> {
    let head = seq![
        kind.word(),
        "avg10"@ + seq!['='] + percent_text(d.avg10 as nat),
        "avg60"@ + seq!['='] + percent_text(d.avg60 as nat),
        "avg300"@ + seq!['='] + percent_text(d.avg300 as nat),
    ];
    match d.total {
        Some(t) => head.push("total"@ + seq!['='] + decimal_text(t as nat)),
        None => head,
    }
}

/// The canonical line for `d`: its words with one space between them.
pub open spec fn psi_text(kind: PressureType, d: PsiData) -> Seq<char> {
    join_words(psi_words(kind, d))
}

/// Reads a percentage into hundredths of a percent.
pub fn read_percent(v: &Vec<char>) -> (r: Option<u32>)
    ensures
        r == percent_value(v@),
{
    let mut dot: usize = 0;
    while dot < v.len() && v[dot] != '.'
        invariant
            dot <= v.len(),
            forall|k: int| 0 <= k < dot ==> #[trigger] v@[k] != '.',
        decreases v.len() - dot,
    {
        dot += 1;
    }
    proof {
        lemma_first_index_is(v@, '.', dot as int);
    }
    if dot == v.len() {
        assert(v@.skip(0) == v@);
        match read_digits(v, 0) {
            Some(n) => {
                if n <= 100 {
                    Some((n * 100) as u32)
                } else {
                    None
                }
            },
            None => None,
        }
    } else {
        let whole = slice_of(v, 0, dot);
        let frac = slice_of(v, dot + 1, v.len());
        assert(whole@ == v@.take(dot as int));
        assert(frac@ == v@.skip(dot + 1));
        assert(whole@.skip(0) == whole@);
        if !is_plain_number(&frac) {
            return None;
        }
        match read_digits(&whole, 0) {
            Some(n) => {
                if n > 100 {
                    return None;
                }
                let d0: u32 = digit_of(frac[0]) as u32;
                let d1: u32 = if frac.len() >= 2 {
                    digit_of(frac[1]) as u32
                } else {
                    0
                };
                let h: u32 = (n as u32) * 100 + 10 * d0 + d1;
                if h <= FULL_SCALE {
                    Some(h)
                } else {
                    None
                }
            },
            None => None,
        }
    }
}

/// Appends a percentage in hundredths, written with two decimal places.
pub fn write_percent(out: &mut Vec<char>, h: u32)
    ensures
        final(out)@ == old(out)@ + percent_text(h as nat),
{
    write_u64(out, (h / 100) as u64);
    out.push('.');
    out.push(char_of_digit(((h % 100) / 10) as u8));
    out.push(char_of_digit((h % 10) as u8));
    assert(out@ =~= old(out)@ + percent_text(h as nat));
}

/// Reads the value text of a token `key=value`.
fn read_field(token: &Vec<char>, key: &str) -> (r: Option<Vec<char>>)
    ensures
        match field_value(token@, key@) {
            Some(v) => r is Some && r->0@ == v,
            None => r is None,
        },
{
    let mut parts = split_at_char(token, '=');
    if parts.len() == 2 && is_word(&parts[0], key) {
        assert(texts(parts@)[0] == parts@[0]@);
        assert(texts(parts@)[1] == parts@[1]@);
        parts.pop()
    } else {
        if parts.len() == 2 {
            assert(texts(parts@)[0] == parts@[0]@);
        }
        None
    }
}

/// Reads the token `key=F`.
fn read_average(token: &Vec<char>, key: &str) -> (r: Option<u32>)
    ensures
        r == average_field(token@, key@),
{
    match read_field(token, key) {
        Some(v) => read_percent(&v),
        None => None,
    }
}

/// Builds one token `key=` followed by what `value` holds.
fn key_token(key: &str, value: &Vec<char>) -> (r: Vec<char>)
    ensures
        r@ == key@ + seq!['='] + value@,
{
    let mut r: Vec<char> = Vec::new();
    write_str(&mut r, key);
    r.push('=');
    write_chars(&mut r, value);
    assert(r@ =~= key@ + seq!['='] + value@);
    r
}

impl PsiData {
    /// Parses one pressure line. A malformed line gives a parse error.
    pub fn from_line(line: &str) -> (r: Result<PsiData, OomdError>)
        ensures
            match psi_line(line@) {
                Some(d) => r == Ok::<PsiData, OomdError>(d),
                None => r is Err && r->Err_0 is Parse,
            },
    {
        let chars = chars_of(line);
        let w = split_words(&chars);
        proof {
            assert forall|i: int| 0 <= i < w.len() implies texts(w@)[i] == #[trigger] w@[i]@ by {}
        }
        if w.len() < 4 || !(is_word(&w[0], "some") || is_word(&w[0], "full")) {
            return Err(OomdError::Parse(String::from_str("invalid pressure line")));
        }
        let a = read_average(&w[1], "avg10");
        let b = read_average(&w[2], "avg60");
        let c = read_average(&w[3], "avg300");
        match (a, b, c) {
            (Some(a), Some(b), Some(c)) => {
                if w.len() == 4 {
                    Ok(PsiData { avg10: a, avg60: b, avg300: c, total: None })
                } else {
                    match read_field(&w[4], "total") {
                        Some(v) => match parse_u64(&v) {
                            Some(t) => Ok(PsiData { avg10: a, avg60: b, avg300: c, total: Some(t) }),
                            None => Err(
                                OomdError::Parse(String::from_str("invalid pressure total")),
                            ),
                        },
                        None => Err(OomdError::Parse(String::from_str("invalid pressure total"))),
                    }
                }
            },
            _ => Err(OomdError::Parse(String::from_str("invalid pressure average"))),
        }
    }

    /// Writes the canonical line of the given kind for this record.
    pub fn to_line(&self, kind: PressureType) -> (r: String)
        ensures
            r@ == psi_text(kind, *self),
    {
        let mut tokens: Vec<Vec<char>> = Vec::new();
        tokens.push(chars_of(kind.as_str()));
        let mut p: Vec<char> = Vec::new();
        write_percent(&mut p, self.avg10);
        tokens.push(key_token("avg10", &p));
        let mut p: Vec<char> = Vec::new();
        write_percent(&mut p, self.avg60);
        tokens.push(key_token("avg60", &p));
        let mut p: Vec<char> = Vec::new();
        write_percent(&mut p, self.avg300);
        tokens.push(key_token("avg300", &p));
        if let Some(t) = self.total {
            let mut p: Vec<char> = Vec::new();
            write_u64(&mut p, t);
            tokens.push(key_token("total", &p));
        }
        assert(texts(tokens@) =~= psi_words(kind, *self));
        let line = join_with_spaces(&tokens);
        string_of(&line)
    }

    /// The averages of this record as a pressure record, each capped at 100 %.
    pub fn to_resource_pressure(&self) -> (r: ResourcePressure)
        ensures
            r.avg10() == if self.avg10 <= FULL_SCALE { self.avg10 } else { FULL_SCALE },
            r.avg60() == if self.avg60 <= FULL_SCALE { self.avg60 } else { FULL_SCALE },
            r.avg300() == if self.avg300 <= FULL_SCALE { self.avg300 } else { FULL_SCALE },
            r.stall_micros() == self.total,
    {
        let a = if self.avg10 <= FULL_SCALE { self.avg10 } else { FULL_SCALE };
        let b = if self.avg60 <= FULL_SCALE { self.avg60 } else { FULL_SCALE };
        let c = if self.avg300 <= FULL_SCALE { self.avg300 } else { FULL_SCALE };
        ResourcePressure::new(a, b, c, self.total).unwrap()
    }
}

/// A percentage that was read is at most 100 %.
pub proof fn lemma_percent_in_range(s: Seq<char>)
    ensures
        percent_value(s) is Some ==> percent_value(s)->0 <= FULL_SCALE,
{
}

/// Writing a percentage and reading it back gives the percentage again, and
/// what is written holds digits and one point only.
pub proof fn lemma_percent_round_trip(h: nat)
    requires
        h <= FULL_SCALE,
    ensures
        percent_value(percent_text(h)) == Some(h as u32),
        percent_text(h).len() > 0,
        forall|k: int|
            0 <= k < percent_text(h).len() ==> !is_space(#[trigger] percent_text(h)[k])
                && percent_text(h)[k] != '=',
{
    let w = decimal_text(h / 100);
    let t = percent_text(h);
    let n = w.len() as int;
    lemma_decimal_text(h / 100);
    lemma_digits_are_plain(w);
    let d0 = digit_char((h % 100) / 10);
    let d1 = digit_char(h % 10);
    assert(is_digit(d0) && digit_value(d0) == (h % 100) / 10);
    assert(is_digit(d1) && digit_value(d1) == h % 10);
    assert forall|k: int| 0 <= k < n implies #[trigger] t[k] != '.' by {
        assert(t[k] == w[k]);
    }
    assert(t[n] == '.');
    lemma_first_index_is(t, '.', n);
    assert(t.take(n) =~= w);
    let f = t.skip(n + 1);
    assert(f =~= seq![d0, d1]);
    assert(all_digits(f)) by {
        assert forall|k: int| 0 <= k < f.len() implies is_digit(#[trigger] f[k]) by {
            if k == 0 {
            } else {
                assert(k == 1);
            }
        }
    }
    assert(fraction_value(f) == h % 100);
    assert((h / 100) * 100 + h % 100 == h);
    assert forall|k: int| 0 <= k < t.len() implies !is_space(#[trigger] t[k]) && t[k] != '=' by {
        if k < n {
            assert(t[k] == w[k]);
        } else if k == n {
        } else if k == n + 1 {
            assert(t[k] == d0);
        } else {
            assert(t[k] == d1);
        }
    }
}

/// A token `key=value` whose parts hold no equals sign gives its value back.
pub proof fn lemma_field_of_token(key: Seq<char>, value: Seq<char>)
    requires
        forall|k: int| 0 <= k < key.len() ==> #[trigger] key[k] != '=',
        forall|k: int| 0 <= k < value.len() ==> #[trigger] value[k] != '=',
    ensures
        field_value(key + seq!['='] + value, key) == Some(value),
{
    lemma_split_pair(key, value, '=');
}

/// A token `key=value` whose parts hold no white space holds none.
pub proof fn lemma_token_space_free(key: Seq<char>, value: Seq<char>)
    requires
        forall|k: int| 0 <= k < key.len() ==> !is_space(#[trigger] key[k]),
        forall|k: int| 0 <= k < value.len() ==> !is_space(#[trigger] value[k]),
    ensures
        space_free(key + seq!['='] + value),
{
    let t = key + seq!['='] + value;
    assert forall|k: int| 0 <= k < t.len() implies !is_space(#[trigger] t[k]) by {
        if k < key.len() {
            assert(t[k] == key[k]);
        } else if k == key.len() {
        } else {
            assert(t[k] == value[k - key.len() - 1]);
        }
    }
}

/// A key holds at least one character, no white space and no equals sign.
pub open spec fn plain_key(key: Seq<char>) -> bool {
    key.len() > 0 && forall|k: int|
        0 <= k < key.len() ==> !is_space(#[trigger] key[k]) && key[k] != '='
}

/// The words that a pressure line is made of are plain keys.
pub proof fn lemma_plain_keys()
    ensures
        plain_key("some"@),
        plain_key("full"@),
        plain_key("avg10"@),
        plain_key("avg60"@),
        plain_key("avg300"@),
        plain_key("total"@),
{
    reveal_strlit("some");
    reveal_strlit("full");
    reveal_strlit("avg10");
    reveal_strlit("avg60");
    reveal_strlit("avg300");
    reveal_strlit("total");
}

/// The token `key=F` that is written for an average reads as that average.
pub proof fn lemma_average_token(key: Seq<char>, h: nat)
    requires
        plain_key(key),
        h <= FULL_SCALE,
    ensures
        average_field(key + seq!['='] + percent_text(h), key) == Some(h as u32),
        space_free(key + seq!['='] + percent_text(h)),
{
    lemma_percent_round_trip(h);
    lemma_field_of_token(key, percent_text(h));
    lemma_token_space_free(key, percent_text(h));
}

/// The token `total=U` that is written for a total reads as that total.
pub proof fn lemma_total_token(t: u64)
    requires
        plain_key("total"@),
    ensures
        total_field("total"@ + seq!['='] + decimal_text(t as nat)) == Some(t),
        space_free("total"@ + seq!['='] + decimal_text(t as nat)),
{
    let tt = decimal_text(t as nat);
    lemma_decimal_text(t as nat);
    lemma_digits_are_plain(tt);
    lemma_field_of_token("total"@, tt);
    lemma_token_space_free("total"@, tt);
}

/// The canonical line of a record whose averages are at most 100 % parses to
/// that record.
pub proof fn lemma_psi_text_parses(kind: PressureType, d: PsiData)
    requires
        d.avg10 <= FULL_SCALE,
        d.avg60 <= FULL_SCALE,
        d.avg300 <= FULL_SCALE,
    ensures
        psi_line(psi_text(kind, d)) == Some(d),
{
    let ws = psi_words(kind, d);
    lemma_plain_keys();
    lemma_average_token("avg10"@, d.avg10 as nat);
    lemma_average_token("avg60"@, d.avg60 as nat);
    lemma_average_token("avg300"@, d.avg300 as nat);
    assert(space_free(ws[0]));
    assert(ws[0] == "some"@ || ws[0] == "full"@);
    match d.total {
        Some(t) => {
            lemma_total_token(t);
            assert(ws.len() == 5);
            assert(total_field(ws[4]) == Some(t));
        },
        None => {
            assert(ws.len() == 4);
        },
    }
    assert forall|i: int| 0 <= i < ws.len() implies space_free(#[trigger] ws[i]) by {
        if i == 0 {
        } else if i == 1 {
        } else if i == 2 {
        } else if i == 3 {
        } else {
        }
    }
    lemma_words_of_join(ws);
    assert(words(psi_text(kind, d)) == ws);
    assert(average_field(ws[1], "avg10"@) == Some(d.avg10));
    assert(average_field(ws[2], "avg60"@) == Some(d.avg60));
    assert(average_field(ws[3], "avg300"@) == Some(d.avg300));
}

/// Writing and reading again changes nothing: the canonical line of what a
/// valid line parses to parses to the same record, whichever kind the line is
/// written as.
pub proof fn lemma_psi_round_trip(line: Seq<char>, kind: PressureType)
    requires
        psi_line(line) is Some,
    ensures
        psi_line(psi_text(kind, psi_line(line)->0)) == psi_line(line),
{
    let w = words(line);
    let d = psi_line(line)->0;
    lemma_percent_in_range(field_value(w[1], "avg10"@)->0);
    lemma_percent_in_range(field_value(w[2], "avg60"@)->0);
    lemma_percent_in_range(field_value(w[3], "avg300"@)->0);
    lemma_psi_text_parses(kind, d);
}

/// The averages of a record that a line parses to are at most 100 %.
pub proof fn lemma_psi_in_range(line: Seq<char>)
    requires
        psi_line(line) is Some,
    ensures
        psi_line(line)->0.avg10 <= FULL_SCALE,
        psi_line(line)->0.avg60 <= FULL_SCALE,
        psi_line(line)->0.avg300 <= FULL_SCALE,
{
    let w = words(line);
    lemma_percent_in_range(field_value(w[1], "avg10"@)->0);
    lemma_percent_in_range(field_value(w[2], "avg60"@)->0);
    lemma_percent_in_range(field_value(w[3], "avg300"@)->0);
}

/// Whether a pressure record holds exactly the figures of a parsed line.
pub open spec fn shows(pressure: ResourcePressure, d: PsiData) -> bool {
    pressure.avg10() == d.avg10 && pressure.avg60() == d.avg60 && pressure.avg300() == d.avg300
        && pressure.stall_micros() == d.total
}

} // verus!
