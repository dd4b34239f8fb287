//! Reading the date and time of an RFC 2822 header, as feeds give it for an
//! episode: `Mon, 01 May 2023 13:00:00 +0000`.
//!
//! The text is taken apart at its blanks into words. There are five of them,
//! or six where the name of the day comes first:
//!
//! ```text
//! [ day-name "," ]  day  month-name  year  hour ":" minute [ ":" second ]  zone
//! ```
//!
//! Names are read without regard to case. The name of the day is not held
//! against the date. A year of two digits is taken as 2000 to 2049 or 1950 to
//! 1999, one of three digits is counted from 1900. The zone is a sign and
//! four digits, or one of the names `UT`, `GMT`, `Z` and the North American
//! `EST`, `EDT`, `CST`, `CDT`, `MST`, `MDT`, `PST`, `PDT`. Comments in
//! parentheses are not read.

use vstd::prelude::*;
use crate::decimal::{all_digits, digits_value, is_digit, parse_digits};
use crate::text::chars_of;
use crate::timestamp::{moment_in, moment_of_local, CalendarDate, Moment, Timestamp};

verus! {

/// Whether `c` separates words: a space, a tab or a line break.
pub open spec fn is_blank(c: char) -> bool {
    c == ' ' || c == '\t' || c == '\r' || c == '\n'
}

/// Where the word that begins at `pos` ends: at the next blank, or at the end
/// of `s`.
pub open spec fn word_end(s: Seq<char>, pos: int) -> int
    decreases s.len() - pos,
{
    if pos < 0 || pos >= s.len() || is_blank(s[pos]) {
        pos
    } else {
        word_end(s, pos + 1)
    }
}

/// A word ends within the text, after its beginning where it begins with a
/// character that is not blank; it holds no blank, and a blank or the end of
/// the text follows it.
pub proof fn lemma_word_end(s: Seq<char>, pos: int)
    requires
        0 <= pos <= s.len(),
    ensures
        pos <= word_end(s, pos) <= s.len(),
        pos < s.len() && !is_blank(s[pos]) ==> pos < word_end(s, pos),
        forall|k: int| pos <= k < word_end(s, pos) ==> !is_blank(#[trigger] s[k]),
        word_end(s, pos) < s.len() ==> is_blank(s[word_end(s, pos)]),
    decreases s.len() - pos,
{
    if pos < s.len() && !is_blank(s[pos]) {
        lemma_word_end(s, pos + 1);
    }
}

/// The words of `s` from `pos` on.
pub open spec fn words_from(s: Seq<char>, pos: int) -> Seq<Seq<char>>
    decreases s.len() - pos,
    via words_from_decreases
{
    if pos < 0 || pos >= s.len() {
        Seq::empty()
    } else if is_blank(s[pos]) {
        words_from(s, pos + 1)
    } else {
        seq![s.subrange(pos, word_end(s, pos))] + words_from(s, word_end(s, pos))
    }
}

#[via_fn]
proof fn words_from_decreases(s: Seq<char>, pos: int) {
    if 0 <= pos < s.len() && !is_blank(s[pos]) {
        lemma_word_end(s, pos);
    }
}

/// The words of `s`: its longest runs of characters that are not blank.
pub open spec fn words(s: Seq<char>) -> Seq<Seq<char>> {
    words_from(s, 0)
}

/// `c` in lower case, where it is an ASCII capital; else `c` itself.
pub open spec fn lowered(c: char) -> char {
    if 'A' <= c && c <= 'Z' {
        (c as u8 + 32) as char
    } else {
        c
    }
}

/// `s` in lower case.
pub open spec fn lowered_text(s: Seq<char>) -> Seq<char> {
    s.map_values(|c: char| lowered(c))
}

/// Whether `word` is the name of a day: three letters, in any case.
pub open spec fn is_day_name(word: Seq<char>) -> bool {
    let name = lowered_text(word);
    name == seq!['m', 'o', 'n'] || name == seq!['t', 'u', 'e'] || name == seq!['w', 'e', 'd']
        || name == seq!['t', 'h', 'u'] || name == seq!['f', 'r', 'i'] || name == seq![
        's',
        'a',
        't',
    ] || name == seq!['s', 'u', 'n']
}

/// Whether `word` is the name of a day with a comma after it.
pub open spec fn is_day_name_word(word: Seq<char>) -> bool {
    word.len() == 4 && word[3] == ',' && is_day_name(word.take(3))
}

/// The number of the month that `word` names, 1 to 12.
pub open spec fn month_number(word: Seq<char>) -> Option<int> {
    let name = lowered_text(word);
    if name == seq!['j', 'a', 'n'] {
        Some(1)
    } else if name == seq!['f', 'e', 'b'] {
        Some(2)
    } else if name == seq!['m', 'a', 'r'] {
        Some(3)
    } else if name == seq!['a', 'p', 'r'] {
        Some(4)
    } else if name == seq!['m', 'a', 'y'] {
        Some(5)
    } else if name == seq!['j', 'u', 'n'] {
        Some(6)
    } else if name == seq!['j', 'u', 'l'] {
        Some(7)
    } else if name == seq!['a', 'u', 'g'] {
        Some(8)
    } else if name == seq!['s', 'e', 'p'] {
        Some(9)
    } else if name == seq!['o', 'c', 't'] {
        Some(10)
    } else if name == seq!['n', 'o', 'v'] {
        Some(11)
    } else if name == seq!['d', 'e', 'c'] {
        Some(12)
    } else {
        None
    }
}

/// The number that `word` writes in one to `limit` digits.
pub open spec fn short_number(word: Seq<char>, limit: int) -> Option<int> {
    if 1 <= word.len() <= limit && all_digits(word) {
        Some(digits_value(word) as int)
    } else {
        None
    }
}

/// The day of the month that `word` writes, in one or two digits.
pub open spec fn day_number(word: Seq<char>) -> Option<int> {
    short_number(word, 2)
}

/// The year that `word` writes: in four digits; or in two, which stand for
/// 2000 to 2049 and 1950 to 1999; or in three, which count from 1900.
pub open spec fn year_number(word: Seq<char>) -> Option<int> {
    match short_number(word, 4) {
        Some(value) => if word.len() == 4 {
            Some(value)
        } else if word.len() == 3 {
            Some(1900 + value)
        } else if word.len() == 2 {
            if value < 50 {
                Some(2000 + value)
            } else {
                Some(1900 + value)
            }
        } else {
            None
        },
        None => None,
    }
}

/// The number that two digits write.
pub open spec fn pair_number(pair: Seq<char>) -> Option<int> {
    if pair.len() == 2 {
        short_number(pair, 2)
    } else {
        None
    }
}

/// The time of day that `word` writes: `HH:MM` or `HH:MM:SS`, as hour, minute
/// and second. Seconds that are not written are zero.
pub open spec fn clock_time(word: Seq<char>) -> Option<(int, int, int)> {
    if word.len() == 5 && word[2] == ':' {
        match (pair_number(word.subrange(0, 2)), pair_number(word.subrange(3, 5))) {
            (Some(hour), Some(minute)) => Some((hour, minute, 0)),
            _ => None,
        }
    } else if word.len() == 8 && word[2] == ':' && word[5] == ':' {
        match (
            pair_number(word.subrange(0, 2)),
            pair_number(word.subrange(3, 5)),
            pair_number(word.subrange(6, 8)),
        ) {
            (Some(hour), Some(minute), Some(second)) => Some((hour, minute, second)),
            _ => None,
        }
    } else {
        None
    }
}

/// The offset from UTC, in minutes, of the zone that `name` names.
pub open spec fn named_zone_offset(name: Seq<char>) -> Option<int> {
    let name = lowered_text(name);
    if name == seq!['u', 't'] || name == seq!['g', 'm', 't'] || name == seq!['z'] {
        Some(0)
    } else if name == seq!['e', 'd', 't'] {
        Some(-240)
    } else if name == seq!['e', 's', 't'] || name == seq!['c', 'd', 't'] {
        Some(-300)
    } else if name == seq!['c', 's', 't'] || name == seq!['m', 'd', 't'] {
        Some(-360)
    } else if name == seq!['m', 's', 't'] || name == seq!['p', 'd', 't'] {
        Some(-420)
    } else if name == seq!['p', 's', 't'] {
        Some(-480)
    } else {
        None
    }
}

/// The offset from UTC, in minutes, that `word` writes: a sign, two digits of
/// hours and two of minutes below 60; or the name of a zone.
pub open spec fn zone_offset(word: Seq<char>) -> Option<int> {
    if word.len() == 5 && (word[0] == '+' || word[0] == '-') {
        match (pair_number(word.subrange(1, 3)), pair_number(word.subrange(3, 5))) {
            (Some(hours), Some(minutes)) => if minutes < 60 {
                if word[0] == '-' {
                    Some(-(hours * 60 + minutes))
                } else {
                    Some(hours * 60 + minutes)
                }
            } else {
                None
            },
            _ => None,
        }
    } else {
        named_zone_offset(word)
    }
}

/// The moment that the five words of a date and time denote: day, month,
/// year, time of day and zone.
pub open spec fn moment_of_fields(fields: Seq<Seq<char>>) -> Option<Moment> {
    if fields.len() != 5 {
        None
    } else {
        match (
            day_number(fields[0]),
            month_number(fields[1]),
            year_number(fields[2]),
            clock_time(fields[3]),
            zone_offset(fields[4]),
        ) {
            (Some(day), Some(month), Some(year), Some(time), Some(offset)) => moment_of_local(
                CalendarDate { year, month, day },
                time.0,
                time.1,
                time.2,
                offset,
            ),
            _ => None,
        }
    }
}

/// The moment that `text` denotes as an RFC 2822 date and time, or `None`
/// where it denotes none.
pub open spec fn moment_of_text(text: Seq<char>) -> Option<Moment> {
    let all = words(text);
    if all.len() == 6 && is_day_name_word(all[0]) {
        moment_of_fields(all.skip(1))
    } else {
        moment_of_fields(all)
    }
}

/// The texts that `words` hold.
pub open spec fn texts_of(words: Seq<Vec<char>>) -> Seq<Seq<char>> {
    words.map_values(|word: Vec<char>| word@)
}

/// Whether `c` separates words.
pub fn is_blank_char(c: char) -> (blank: bool)
    ensures
        blank == is_blank(c),
{
    c == ' ' || c == '\t' || c == '\r' || c == '\n'
}

/// Takes `chars` apart at its blanks.
pub fn split_words(chars: &Vec<char>) -> (out: Vec<Vec<char>>)
    ensures
        texts_of(out@) == words(chars@),
{
    let ghost s = chars@;
    let mut out: Vec<Vec<char>> = Vec::new();
    let mut pos: usize = 0;
    assert(texts_of(out@) + words_from(s, 0) =~= words(s));
    while pos < chars.len()
        invariant
            s == chars@,
            pos <= chars.len(),
            texts_of(out@) + words_from(s, pos as int) == words(s),
        decreases chars.len() - pos,
    {
        if is_blank_char(chars[pos]) {
            pos += 1;
        } else {
            let start: usize = pos;
            let mut word: Vec<char> = Vec::new();
            while pos < chars.len() && !is_blank_char(chars[pos])
                invariant
                    s == chars@,
                    start <= pos <= chars.len(),
                    word@ == s.subrange(start as int, pos as int),
                    word_end(s, pos as int) == word_end(s, start as int),
                decreases chars.len() - pos,
            {
                word.push(chars[pos]);
                pos += 1;
                assert(word@ =~= s.subrange(start as int, pos as int));
            }
            proof {
                let before = texts_of(out@);
                let rest = words_from(s, pos as int);
                assert(word_end(s, start as int) == pos);
                assert(words_from(s, start as int) == seq![word@] + rest);
                assert(texts_of(out@.push(word)) =~= before.push(word@));
                assert(before.push(word@) + rest =~= before + (seq![word@] + rest));
            }
            out.push(word);
        }
    }
    assert(texts_of(out@) + Seq::<Seq<char>>::empty() =~= texts_of(out@));
    out
}

/// `c` in lower case, where it is an ASCII capital; else `c` itself.
pub fn lower(c: char) -> (l: char)
    ensures
        l == lowered(c),
{
    if 'A' <= c && c <= 'Z' {
        (c as u8 + 32) as char
    } else {
        c
    }
}

/// Whether `word`, in lower case, is the one character `a`.
fn is_name_of_one(word: &Vec<char>, a: char) -> (r: bool)
    ensures
        r == (lowered_text(word@) == seq![a]),
{
    if word.len() == 1 && lower(word[0]) == a {
        assert(lowered_text(word@) =~= seq![a]);
        true
    } else {
        proof {
            if lowered_text(word@) == seq![a] {
                assert(seq![a].len() == 1);
                assert(lowered_text(word@)[0] == seq![a][0]);
            }
        }
        false
    }
}

/// Whether `word`, in lower case, is the two characters `a`, `b`.
fn is_name_of_two(word: &Vec<char>, a: char, b: char) -> (r: bool)
    ensures
        r == (lowered_text(word@) == seq![a, b]),
{
    if word.len() == 2 && lower(word[0]) == a && lower(word[1]) == b {
        assert(lowered_text(word@) =~= seq![a, b]);
        true
    } else {
        proof {
            if lowered_text(word@) == seq![a, b] {
                assert(seq![a, b].len() == 2);
                assert(lowered_text(word@)[0] == seq![a, b][0]);
                assert(lowered_text(word@)[1] == seq![a, b][1]);
            }
        }
        false
    }
}

/// Whether the first three characters of `word`, in lower case, are `a`, `b`,
/// `c`, and `word` has `len` characters in all.
fn begins_with_name(word: &Vec<char>, len: usize, a: char, b: char, c: char) -> (r: bool)
    requires
        len >= 3,
    ensures
        r == (word@.len() == len && lowered_text(word@.take(3)) == seq![a, b, c]),
{
    if word.len() == len && lower(word[0]) == a && lower(word[1]) == b && lower(word[2]) == c {
        assert(lowered_text(word@.take(3)) =~= seq![a, b, c]);
        true
    } else {
        proof {
            if word@.len() == len && lowered_text(word@.take(3)) == seq![a, b, c] {
                assert(seq![a, b, c].len() == 3);
                assert(lowered_text(word@.take(3))[0] == seq![a, b, c][0]);
                assert(lowered_text(word@.take(3))[1] == seq![a, b, c][1]);
                assert(lowered_text(word@.take(3))[2] == seq![a, b, c][2]);
            }
        }
        false
    }
}

/// Whether `word`, in lower case, is the three characters `a`, `b`, `c`.
fn is_name_of_three(word: &Vec<char>, a: char, b: char, c: char) -> (r: bool)
    ensures
        r == (lowered_text(word@) == seq![a, b, c]),
{
    proof {
        if word@.len() == 3 {
            assert(word@.take(3) =~= word@);
        }
        if lowered_text(word@) == seq![a, b, c] {
            assert(seq![a, b, c].len() == 3);
        }
    }
    begins_with_name(word, 3, a, b, c)
}

/// Whether `word` is the name of a day with a comma after it.
pub fn is_day_word(word: &Vec<char>) -> (r: bool)
    ensures
        r == is_day_name_word(word@),
{
    word.len() == 4 && word[3] == ',' && (begins_with_name(word, 4, 'm', 'o', 'n')
        || begins_with_name(word, 4, 't', 'u', 'e') || begins_with_name(word, 4, 'w', 'e', 'd')
        || begins_with_name(word, 4, 't', 'h', 'u') || begins_with_name(word, 4, 'f', 'r', 'i')
        || begins_with_name(word, 4, 's', 'a', 't') || begins_with_name(word, 4, 's', 'u', 'n'))
}

/// The number of the month that `word` names.
pub fn parse_month(word: &Vec<char>) -> (month: Option<u8>)
    ensures
        month is Some <==> month_number(word@) is Some,
        month matches Some(m) ==> month_number(word@) == Some(m as int) && 1 <= m <= 12,
{
    if is_name_of_three(word, 'j', 'a', 'n') {
        Some(1)
    } else if is_name_of_three(word, 'f', 'e', 'b') {
        Some(2)
    } else if is_name_of_three(word, 'm', 'a', 'r') {
        Some(3)
    } else if is_name_of_three(word, 'a', 'p', 'r') {
        Some(4)
    } else if is_name_of_three(word, 'm', 'a', 'y') {
        Some(5)
    } else if is_name_of_three(word, 'j', 'u', 'n') {
        Some(6)
    } else if is_name_of_three(word, 'j', 'u', 'l') {
        Some(7)
    } else if is_name_of_three(word, 'a', 'u', 'g') {
        Some(8)
    } else if is_name_of_three(word, 's', 'e', 'p') {
        Some(9)
    } else if is_name_of_three(word, 'o', 'c', 't') {
        Some(10)
    } else if is_name_of_three(word, 'n', 'o', 'v') {
        Some(11)
    } else if is_name_of_three(word, 'd', 'e', 'c') {
        Some(12)
    } else {
        None
    }
}

/// A run of at most four digits denotes less than ten thousand.
pub proof fn lemma_short_number_bound(s: Seq<char>)
    requires
        all_digits(s),
        s.len() <= 4,
    ensures
        s.len() == 0 ==> digits_value(s) == 0,
        s.len() == 1 ==> digits_value(s) < 10,
        s.len() == 2 ==> digits_value(s) < 100,
        s.len() == 3 ==> digits_value(s) < 1000,
        s.len() == 4 ==> digits_value(s) < 10000,
    decreases s.len(),
{
    if s.len() > 0 {
        assert(is_digit(s[s.len() - 1]));
        lemma_short_number_bound(s.drop_last());
    }
}

/// The number that `word[from..to]` writes in one to `limit` digits, for a
/// `limit` of at most four.
pub fn parse_short_number(word: &Vec<char>, from: usize, to: usize, limit: usize) -> (number:
    Option<u16>)
    requires
        from <= to <= word.len(),
        limit <= 4,
    ensures
        number is Some <==> short_number(word@.subrange(from as int, to as int), limit as int)
            is Some,
        number matches Some(n) ==> short_number(
            word@.subrange(from as int, to as int),
            limit as int,
        ) == Some(n as int) && n < 10000,
{
    if to - from < 1 || to - from > limit {
        return None;
    }
    match parse_digits(word, from, to) {
        Some(value) => {
            proof {
                lemma_short_number_bound(word@.subrange(from as int, to as int));
            }
            Some(value as u16)
        },
        None => {
            proof {
                if all_digits(word@.subrange(from as int, to as int)) {
                    lemma_short_number_bound(word@.subrange(from as int, to as int));
                }
            }
            None
        },
    }
}

/// The year that `word` writes.
pub fn parse_year(word: &Vec<char>) -> (year: Option<u16>)
    ensures
        year is Some <==> year_number(word@) is Some,
        year matches Some(y) ==> year_number(word@) == Some(y as int),
{
    proof {
        assert(word@.subrange(0, word@.len() as int) =~= word@);
    }
    match parse_short_number(word, 0, word.len(), 4) {
        Some(value) => {
            proof {
                lemma_short_number_bound(word@);
            }
            if word.len() == 4 {
                Some(value)
            } else if word.len() == 3 {
                Some(1900 + value)
            } else if word.len() == 2 {
                if value < 50 {
                    Some(2000 + value)
                } else {
                    Some(1900 + value)
                }
            } else {
                None
            }
        },
        None => None,
    }
}

/// The number that the two digits `word[from..from + 2]` write.
fn parse_pair(word: &Vec<char>, from: usize) -> (number: Option<u8>)
    requires
        from + 2 <= word.len(),
    ensures
        number is Some <==> pair_number(word@.subrange(from as int, from + 2)) is Some,
        number matches Some(n) ==> pair_number(word@.subrange(from as int, from + 2)) == Some(
            n as int,
        ) && n < 100,
{
    match parse_short_number(word, from, from + 2, 2) {
        Some(value) => {
            proof {
                lemma_short_number_bound(word@.subrange(from as int, from + 2));
            }
            Some(value as u8)
        },
        None => None,
    }
}

/// The time of day that `word` writes, as hour, minute and second.
pub fn parse_clock_time(word: &Vec<char>) -> (time: Option<(u8, u8, u8)>)
    ensures
        time is Some <==> clock_time(word@) is Some,
        time matches Some(t) ==> clock_time(word@) == Some((t.0 as int, t.1 as int, t.2 as int)),
{
    if word.len() == 5 && word[2] == ':' {
        match (parse_pair(word, 0), parse_pair(word, 3)) {
            (Some(hour), Some(minute)) => Some((hour, minute, 0)),
            _ => None,
        }
    } else if word.len() == 8 && word[2] == ':' && word[5] == ':' {
        match (parse_pair(word, 0), parse_pair(word, 3), parse_pair(word, 6)) {
            (Some(hour), Some(minute), Some(second)) => Some((hour, minute, second)),
            _ => None,
        }
    } else {
        None
    }
}

/// The offset from UTC, in minutes, of the zone that `word` names.
fn parse_named_zone(word: &Vec<char>) -> (offset: Option<i16>)
    ensures
        offset is Some <==> named_zone_offset(word@) is Some,
        offset matches Some(o) ==> named_zone_offset(word@) == Some(o as int),
{
    if is_name_of_two(word, 'u', 't') || is_name_of_three(word, 'g', 'm', 't') || is_name_of_one(
        word,
        'z',
    ) {
        Some(0)
    } else if is_name_of_three(word, 'e', 'd', 't') {
        Some(-240)
    } else if is_name_of_three(word, 'e', 's', 't') || is_name_of_three(word, 'c', 'd', 't') {
        Some(-300)
    } else if is_name_of_three(word, 'c', 's', 't') || is_name_of_three(word, 'm', 'd', 't') {
        Some(-360)
    } else if is_name_of_three(word, 'm', 's', 't') || is_name_of_three(word, 'p', 'd', 't') {
        Some(-420)
    } else if is_name_of_three(word, 'p', 's', 't') {
        Some(-480)
    } else {
        None
    }
}

/// The offset from UTC, in minutes, that `word` writes.
pub fn parse_zone(word: &Vec<char>) -> (offset: Option<i16>)
    ensures
        offset is Some <==> zone_offset(word@) is Some,
        offset matches Some(o) ==> zone_offset(word@) == Some(o as int),
{
    if word.len() == 5 && (word[0] == '+' || word[0] == '-') {
        match (parse_pair(word, 1), parse_pair(word, 3)) {
            (Some(hours), Some(minutes)) => {
                if minutes < 60 {
                    let magnitude: i16 = hours as i16 * 60 + minutes as i16;
                    if word[0] == '-' {
                        Some(-magnitude)
                    } else {
                        Some(magnitude)
                    }
                } else {
                    None
                }
            },
            _ => None,
        }
    } else {
        parse_named_zone(word)
    }
}

/// The timestamp that the five words from `first` on denote: day, month,
/// year, time of day and zone.
fn parse_fields(all: &Vec<Vec<char>>, first: usize) -> (timestamp: Option<Timestamp>)
    requires
        first + 5 == all.len(),
    ensures
        moment_in(timestamp) == moment_of_fields(texts_of(all@).skip(first as int)),
{
    let ghost fields = texts_of(all@).skip(first as int);
    proof {
        assert(fields.len() == 5);
        assert(fields[0] == all@[first as int]@);
        assert(fields[1] == all@[first + 1]@);
        assert(fields[2] == all@[first + 2]@);
        assert(fields[3] == all@[first + 3]@);
        assert(fields[4] == all@[first + 4]@);
    }
    let day_word = &all[first];
    proof {
        assert(day_word@.subrange(0, day_word@.len() as int) =~= day_word@);
    }
    let day = match parse_short_number(day_word, 0, day_word.len(), 2) {
        Some(day) => day,
        None => { return None; },
    };
    proof {
        lemma_short_number_bound(day_word@);
    }
    let month = match parse_month(&all[first + 1]) {
        Some(month) => month,
        None => { return None; },
    };
    let year = match parse_year(&all[first + 2]) {
        Some(year) => year,
        None => { return None; },
    };
    let time = match parse_clock_time(&all[first + 3]) {
        Some(time) => time,
        None => { return None; },
    };
    let offset = match parse_zone(&all[first + 4]) {
        Some(offset) => offset,
        None => { return None; },
    };
    Timestamp::new(year, month, day as u8, time.0, time.1, time.2, offset)
}

/// Reads `text` as an RFC 2822 date and time.
///
/// The result is the timestamp of the moment that `text` denotes, and `None`
/// where it denotes none: where a word is missing or not understood, or the
/// date is none of the calendar.
pub fn parse_timestamp(text: &str) -> (timestamp: Option<Timestamp>)
    ensures
        moment_in(timestamp) == moment_of_text(text@),
{
    let chars = chars_of(text);
    let all = split_words(&chars);
    proof {
        assert(texts_of(all@).skip(0) =~= texts_of(all@));
        if all@.len() > 0 {
            assert(texts_of(all@)[0] == all@[0]@);
        }
    }
    if all.len() == 6 && is_day_word(&all[0]) {
        parse_fields(&all, 1)
    } else if all.len() == 5 {
        parse_fields(&all, 0)
    } else {
        None
    }
}

} // verus!
