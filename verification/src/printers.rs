//! The printer directory: which of the registered printers qualify, and
//! which of them the operator picked.

use vstd::prelude::*;
use crate::text::{
    chars_of, lines, occurs, occurs_in, split_lines, split_whitespace, tokens, trim, trimmed, views,
};

verus! {

/// The printer that a line of the printer listing is about: its second token.
/// A line with fewer than two tokens names no printer.
pub open spec fn printer_of(line: Seq<char>) -> Option<Seq<char>> {
    let fields = tokens(line);
    if fields.len() > 1 {
        Some(fields[1])
    } else {
        None
    }
}

/// Whether a line of the printer listing names a printer that qualifies: the
/// line holds `base` somewhere, or the printer's name is one of `extras`.
pub open spec fn qualifies(line: Seq<char>, base: Seq<char>, extras: Set<Seq<char>>) -> bool {
    printer_of(line) matches Some(name) && (occurs(line, base) || extras.contains(name))
}

/// `qualifies` for a fixed pattern and fixed names, as a predicate on lines.
pub open spec fn qualifier(base: Seq<char>, extras: Set<Seq<char>>) -> spec_fn(Seq<char>) -> bool {
    |line: Seq<char>| qualifies(line, base, extras)
}

/// The name that a qualifying line contributes.
pub open spec fn name_on(line: Seq<char>) -> Seq<char> {
    tokens(line)[1]
}

/// The names that the qualifying lines among `all` contribute, in the order of
/// the lines.
pub open spec fn names_on(all: Seq<Seq<char>>, base: Seq<char>, extras: Set<Seq<char>>) -> Seq<
    Seq<char>,
> {
    all.filter(qualifier(base, extras)).map_values(|line: Seq<char>| name_on(line))
}

/// The printers that a listing offers: one name for each qualifying line, in
/// the order of the lines. A name that several lines carry comes out once for
/// each of them.
pub open spec fn offered(listing: Seq<char>, base: Seq<char>, extras: Set<Seq<char>>) -> Seq<
    Seq<char>,
> {
    names_on(lines(listing), base, extras)
}

proof fn lemma_names_on_step(all: Seq<Seq<char>>, k: int, base: Seq<char>, extras: Set<Seq<char>>)
    requires
        0 <= k < all.len(),
    ensures
        names_on(all.take(k + 1), base, extras) == if qualifies(all[k], base, extras) {
            names_on(all.take(k), base, extras).push(name_on(all[k]))
        } else {
            names_on(all.take(k), base, extras)
        },
{
    let keep = qualifier(base, extras);
    assert(all.take(k + 1) =~= all.take(k).push(all[k]));
    all.take(k).lemma_filter_push(all[k], keep);
    if qualifies(all[k], base, extras) {
        assert(names_on(all.take(k + 1), base, extras) =~= names_on(all.take(k), base, extras).push(
            name_on(all[k]),
        ));
    }
}

/// Whether `name` is one of `names`.
pub fn is_one_of(name: &String, names: &Vec<String>) -> (found: bool)
    ensures
        found == views(names@).to_set().contains(name@),
{
    let mut k: usize = 0;
    while k < names.len()
        invariant
            k <= names.len(),
            forall|j: int| 0 <= j < k ==> views(names@)[j] != name@,
        decreases names.len() - k,
    {
        if names[k] == *name {
            assert(views(names@)[k as int] == name@);
            assert(views(names@).contains(name@));
            return true;
        }
        k += 1;
    }
    assert(!views(names@).contains(name@));
    false
}

/// Picks the qualifying printers out of the print subsystem's printer listing.
///
/// A line of the listing names its printer in its second token. The printer
/// qualifies when the line holds `base_name` somewhere, or when the printer's
/// name is one of `additional_names`. The names come out in the order of the
/// lines, and no name is dropped for having come before.
pub fn list_printers(listing: &str, base_name: &str, additional_names: &Vec<String>) -> (printers:
    Vec<String>)
    ensures
        views(printers@) == offered(listing@, base_name@, views(additional_names@).to_set()),
{
    let all = split_lines(listing);
    let base = chars_of(base_name);
    let ghost extras = views(additional_names@).to_set();
    let mut printers: Vec<String> = Vec::new();
    let mut k: usize = 0;
    proof {
        assert(views(all@).take(0).filter(qualifier(base_name@, extras)) =~= Seq::<
            Seq<char>,
        >::empty()) by {
            reveal(Seq::filter);
        }
        assert(views(printers@) =~= names_on(views(all@).take(0), base_name@, extras));
    }
    while k < all.len()
        invariant
            k <= all.len(),
            base@ == base_name@,
            extras == views(additional_names@).to_set(),
            views(all@) == lines(listing@),
            views(printers@) == names_on(views(all@).take(k as int), base_name@, extras),
        decreases all.len() - k,
    {
        let line = &all[k];
        let fields = split_whitespace(line.as_str());
        proof {
            lemma_names_on_step(views(all@), k as int, base_name@, extras);
            assert(views(all@)[k as int] == line@);
        }
        if fields.len() > 1 {
            let name = &fields[1];
            assert(name@ == views(fields@)[1]);
            let line_chars = chars_of(line.as_str());
            if occurs_in(&line_chars, &base) || is_one_of(name, additional_names) {
                let ghost before = printers@;
                printers.push(name.clone());
                assert(views(printers@) =~= views(before).push(name@));
            }
        }
        k += 1;
    }
    assert(views(all@).take(k as int) =~= views(all@));
    printers
}

/// Why an operator's answer picks no printer.
#[derive(Clone, Copy, Debug, PartialEq, Eq)]
pub enum SelectionError {
    /// The answer is not a number that fits the machine.
    NotANumber,
    /// The answer is a number, and no printer of the list carries it.
    OutOfRange,
}

/// Whether `c` is a decimal digit.
pub open spec fn is_digit(c: char) -> bool {
    0x30 <= c as u32 <= 0x39
}

/// The number that a sequence of decimal digits writes.
pub open spec fn decimal_value(digits: Seq<char>) -> nat
    decreases digits.len(),
{
    if digits.len() == 0 {
        0
    } else {
        decimal_value(digits.drop_last()) * 10 + (digits.last() as u32 - 0x30) as nat
    }
}

/// `s` without the plus sign that it may begin with.
pub open spec fn unsigned_part(s: Seq<char>) -> Seq<char> {
    if s.len() > 0 && s[0] == '+' {
        s.skip(1)
    } else {
        s
    }
}

/// The number that `s` writes, if it writes one: a plus sign or nothing,
/// then one or more decimal digits and nothing else.
pub open spec fn written_number(s: Seq<char>) -> Option<nat> {
    let digits = unsigned_part(s);
    if digits.len() > 0 && (forall|k: int| 0 <= k < digits.len() ==> is_digit(#[trigger] digits[k])) {
        Some(decimal_value(digits))
    } else {
        None
    }
}

/// What an operator's answer selects from a list of `count` printers that is
/// shown numbered from 1: the position, counted from 0, of the printer that
/// the answer names.
pub open spec fn selection(answer: Seq<char>, count: nat) -> Result<nat, SelectionError> {
    match written_number(trimmed(answer)) {
        Some(n) => if n > usize::MAX {
            Err(SelectionError::NotANumber)
        } else if 1 <= n <= count {
            Ok((n - 1) as nat)
        } else {
            Err(SelectionError::OutOfRange)
        },
        None => Err(SelectionError::NotANumber),
    }
}

proof fn lemma_decimal_value_grows(digits: Seq<char>, k: int)
    requires
        0 <= k <= digits.len(),
    ensures
        decimal_value(digits.take(k)) <= decimal_value(digits),
    decreases digits.len(),
{
    if k == digits.len() {
        assert(digits.take(k) =~= digits);
    } else {
        assert(digits.drop_last().take(k) =~= digits.take(k));
        lemma_decimal_value_grows(digits.drop_last(), k);
    }
}

proof fn lemma_decimal_value_step(digits: Seq<char>, k: int)
    requires
        0 <= k < digits.len(),
    ensures
        decimal_value(digits.take(k + 1)) == decimal_value(digits.take(k)) * 10 + (digits[k] as u32
            - 0x30) as nat,
{
    assert(digits.take(k + 1).drop_last() =~= digits.take(k));
    assert(digits.take(k + 1).last() == digits[k]);
}

/// Reads a number as `written_number` describes it; a number too large for
/// the machine is no number.
fn read_number(chars: &Vec<char>) -> (number: Option<usize>)
    ensures
        number == match written_number(chars@) {
            Some(n) => if n <= usize::MAX {
                Some(n as usize)
            } else {
                None
            },
            None => None,
        },
{
    let n: usize = chars.len();
    let first: usize = if n > 0 && chars[0] == '+' {
        1
    } else {
        0
    };
    let ghost digits = unsigned_part(chars@);
    if first == n {
        return None;
    }
    let mut value: usize = 0;
    let mut at: usize = first;
    assert(digits.take(0) =~= Seq::<char>::empty());
    while at < n
        invariant
            n == chars.len(),
            first <= at <= n,
            digits == unsigned_part(chars@),
            digits.len() == n - first,
            forall|k: int| 0 <= k < digits.len() ==> digits[k] == chars@[first + k],
            forall|k: int| 0 <= k < at - first ==> is_digit(#[trigger] digits[k]),
            value == decimal_value(digits.take(at - first)),
        decreases n - at,
    {
        let code: u32 = chars[at] as u32;
        if code < 0x30 || code > 0x39 {
            assert(!is_digit(digits[at - first]));
            return None;
        }
        let digit: usize = (code - 0x30) as usize;
        proof {
            lemma_decimal_value_step(digits, at - first);
            lemma_decimal_value_grows(digits, at - first + 1);
        }
        let grown = match value.checked_mul(10) {
            Some(tens) => tens.checked_add(digit),
            None => None,
        };
        match grown {
            Some(next) => {
                value = next;
            },
            None => {
                return None;
            },
        }
        at += 1;
    }
    assert(digits.take(at - first) =~= digits);
    Some(value)
}

/// Reads the operator's choice of a printer out of a list of `count` that was
/// shown numbered from 1, and gives the chosen printer's position counted
/// from 0.
///
/// White space around the number is ignored. An answer that is no number
/// selects nothing, nor does a number that is 0 or larger than `count`.
pub fn select_printer(answer: &str, count: usize) -> (choice: Result<usize, SelectionError>)
    ensures
        match selection(answer@, count as nat) {
            Ok(position) => choice == Ok::<usize, SelectionError>(position as usize),
            Err(why) => choice == Err::<usize, SelectionError>(why),
        },
{
    let chars = chars_of(trim(answer));
    match read_number(&chars) {
        None => Err(SelectionError::NotANumber),
        Some(number) => {
            if number == 0 || number > count {
                Err(SelectionError::OutOfRange)
            } else {
                Ok(number - 1)
            }
        },
    }
}

} // verus!
