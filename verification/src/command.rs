//! The grammar of the owner's commands: `/list <slot>` and
//! `/delete <slot> <index>`, optionally addressed to the bot by `@name`.
use vstd::prelude::*;
use crate::text::{decimal, digit_char};

verus! {

/// A command of the owner.
#[derive(Clone, Copy, Debug, PartialEq, Eq, Structural)]
pub enum Command {
    /// Show all messages of a slot.
    List(u8),
    /// Delete one message of a slot.
    Delete { slot: u8, index: u32 },
}

/// Why a text is no command.
#[derive(Clone, Copy, Debug, PartialEq, Eq, Structural)]
pub enum CommandError {
    /// The command is addressed to another bot.
    WrongBotName,
    /// The first word is none of the commands.
    UnknownCommand,
    /// An argument is no number, or does not fit its type.
    IncorrectFormat,
    /// An argument is missing.
    TooFewArguments,
    /// There is more than the arguments.
    TooManyArguments,
}

/// The first position at or after `from` at which `c` stands in `s`, or the
/// length of `s` where there is none.
pub open spec fn find_from(s: Seq<char>, c: char, from: int) -> int
    decreases s.len() - from,
{
    if from >= s.len() {
        s.len() as int
    } else if s[from] == c {
        from
    } else {
        find_from(s, c, from + 1)
    }
}

pub open spec fn is_digit(c: char) -> bool {
    48 <= c as u32 <= 57
}

pub open spec fn is_upper(c: char) -> bool {
    65 <= c as u32 <= 90
}

/// Two characters are the same, or the same ASCII letter in different case.
pub open spec fn same_letter(a: char, b: char) -> bool {
    a == b || (is_upper(a) && b as u32 == a as u32 + 32) || (is_upper(b) && a as u32 == b as u32
        + 32)
}

/// Two texts are the same but for the case of their ASCII letters.
pub open spec fn same_but_for_case(a: Seq<char>, b: Seq<char>) -> bool {
    a.len() == b.len() && forall|i: int| 0 <= i < a.len() ==> same_letter(#[trigger] a[i], b[i])
}

/// The number that a run of decimal digits denotes, as long as it and each
/// of its prefixes stay within `max`; `None` where a character is no digit or
/// the number is larger than `max`. The empty run denotes zero.
pub open spec fn digits_value(d: Seq<char>, max: nat) -> Option<nat>
    decreases d.len(),
{
    if d.len() == 0 {
        Some(0nat)
    } else {
        match digits_value(d.drop_last(), max) {
            Some(p) => if is_digit(d.last()) && p * 10 + (d.last() as u32 - 48) <= max {
                Some((p * 10 + (d.last() as u32 - 48)) as nat)
            } else {
                None
            },
            None => None,
        }
    }
}

/// The number that an argument denotes: one or more decimal digits, with
/// leading zeros allowed and one `+` allowed in front, of a value up to `max`.
pub open spec fn number_of(s: Seq<char>, max: nat) -> Option<nat> {
    let d = if s.len() > 0 && s[0] == '+' {
        s.skip(1)
    } else {
        s
    };
    if d.len() == 0 {
        None
    } else {
        digits_value(d, max)
    }
}

/// What the arguments of `/list` denote: the whole rest of the text is the slot.
pub open spec fn list_of(args: Seq<char>) -> Result<Command, CommandError> {
    match number_of(args, 255) {
        Some(slot) => Ok(Command::List(slot as u8)),
        None => Err(CommandError::IncorrectFormat),
    }
}

/// What the arguments of `/delete` denote: slot and index, parted by one
/// space, and nothing more.
pub open spec fn delete_of(args: Seq<char>) -> Result<Command, CommandError> {
    let p = find_from(args, ' ', 0);
    match number_of(args.subrange(0, p), 255) {
        None => Err(CommandError::IncorrectFormat),
        Some(slot) => if p >= args.len() {
            Err(CommandError::TooFewArguments)
        } else {
            let q = find_from(args, ' ', p + 1);
            match number_of(args.subrange(p + 1, q), 0xffff_ffff) {
                None => Err(CommandError::IncorrectFormat),
                Some(index) => if q < args.len() {
                    Err(CommandError::TooManyArguments)
                } else {
                    Ok(Command::Delete { slot: slot as u8, index: index as u32 })
                },
            }
        },
    }
}

/// The bot that the first word `head` addresses: what stands between its
/// first `@` and its second, if it has any `@`.
pub open spec fn addressed_bot(head: Seq<char>) -> Option<Seq<char>> {
    let q = find_from(head, '@', 0);
    if q < head.len() {
        Some(head.subrange(q + 1, find_from(head, '@', q + 1)))
    } else {
        None
    }
}

/// What a text denotes for the bot `bot_name`. The first word, up to the first
/// space, names the command and may address a bot; what follows that space
/// are the arguments.
pub open spec fn command_of(text: Seq<char>, bot_name: Seq<char>) -> Result<Command, CommandError> {
    let p = find_from(text, ' ', 0);
    let head = text.subrange(0, p);
    let args = if p < text.len() {
        text.subrange(p + 1, text.len() as int)
    } else {
        Seq::<char>::empty()
    };
    let name = head.subrange(0, find_from(head, '@', 0));
    if addressed_bot(head) matches Some(bot) && !same_but_for_case(bot, bot_name) {
        Err(CommandError::WrongBotName)
    } else if name == "/list"@ {
        list_of(args)
    } else if name == "/delete"@ {
        delete_of(args)
    } else {
        Err(CommandError::UnknownCommand)
    }
}

/// A run of digits that fails up to some point fails as a whole.
proof fn lemma_digits_fail_on(d: Seq<char>, i: int, max: nat)
    requires
        0 <= i <= d.len(),
        digits_value(d.subrange(0, i), max) is None,
    ensures
        digits_value(d, max) is None,
    decreases d.len() - i,
{
    if i < d.len() {
        assert(d.subrange(0, i + 1).drop_last() =~= d.subrange(0, i));
        lemma_digits_fail_on(d, i + 1, max);
    } else {
        assert(d.subrange(0, i) =~= d);
    }
}

fn chars_of(s: &str) -> (v: Vec<char>)
    ensures
        v@ == s@,
{
    let n = s.unicode_len();
    let mut v: Vec<char> = Vec::new();
    let mut i: usize = 0;
    while i < n
        invariant
            i <= n,
            n == s@.len(),
            v@ == s@.subrange(0, i as int),
        decreases n - i,
    {
        v.push(s.get_char(i));
        assert(v@ =~= s@.subrange(0, i + 1));
        i = i + 1;
    }
    assert(s@.subrange(0, n as int) =~= s@);
    v
}

fn part_of(t: &Vec<char>, from: usize, to: usize) -> (v: Vec<char>)
    requires
        from <= to <= t@.len(),
    ensures
        v@ == t@.subrange(from as int, to as int),
{
    let mut v: Vec<char> = Vec::new();
    let mut i: usize = from;
    while i < to
        invariant
            from <= i <= to <= t@.len(),
            v@ == t@.subrange(from as int, i as int),
        decreases to - i,
    {
        v.push(t[i]);
        assert(v@ =~= t@.subrange(from as int, i + 1));
        i = i + 1;
    }
    v
}

fn find(t: &Vec<char>, c: char, from: usize) -> (r: usize)
    requires
        from <= t@.len(),
    ensures
        r == find_from(t@, c, from as int),
        from <= r <= t@.len(),
{
    let mut i: usize = from;
    while i < t.len() && t[i] != c
        invariant
            from <= i <= t@.len(),
            find_from(t@, c, from as int) == find_from(t@, c, i as int),
        decreases t@.len() - i,
    {
        i = i + 1;
    }
    i
}

fn same_text(a: &Vec<char>, b: &Vec<char>) -> (r: bool)
    ensures
        r == (a@ == b@),
{
    if a.len() != b.len() {
        return false;
    }
    let mut i: usize = 0;
    while i < a.len()
        invariant
            i <= a@.len(),
            a@.len() == b@.len(),
            forall|k: int| 0 <= k < i ==> a@[k] == b@[k],
        decreases a@.len() - i,
    {
        if a[i] != b[i] {
            return false;
        }
        i = i + 1;
    }
    assert(a@ =~= b@);
    true
}

fn letters_match(a: char, b: char) -> (r: bool)
    ensures
        r == same_letter(a, b),
{
    let x: u32 = a as u32;
    let y: u32 = b as u32;
    a == b || (65 <= x && x <= 90 && y == x + 32) || (65 <= y && y <= 90 && x == y + 32)
}

fn matches_but_for_case(a: &Vec<char>, b: &Vec<char>) -> (r: bool)
    ensures
        r == same_but_for_case(a@, b@),
{
    if a.len() != b.len() {
        return false;
    }
    let mut i: usize = 0;
    while i < a.len()
        invariant
            i <= a@.len(),
            a@.len() == b@.len(),
            forall|k: int| 0 <= k < i ==> same_letter(#[trigger] a@[k], b@[k]),
        decreases a@.len() - i,
    {
        if !letters_match(a[i], b[i]) {
            return false;
        }
        i = i + 1;
    }
    true
}

fn number(s: &Vec<char>, max: u32) -> (r: Option<u32>)
    ensures
        match number_of(s@, max as nat) {
            Some(n) => r == Some(n as u32) && n <= max,
            None => r is None,
        },
{
    let start: usize = if s.len() > 0 && s[0] == '+' {
        1
    } else {
        0
    };
    let d = part_of(s, start, s.len());
    assert(d@ =~= if s@.len() > 0 && s@[0] == '+' {
        s@.skip(1)
    } else {
        s@
    });
    if d.len() == 0 {
        return None;
    }
    let mut acc: u64 = 0;
    let mut i: usize = 0;
    assert(d@.subrange(0, 0) =~= Seq::<char>::empty());
    while i < d.len()
        invariant
            i <= d@.len(),
            acc <= max,
            d@.len() > 0,
            number_of(s@, max as nat) == digits_value(d@, max as nat),
            digits_value(d@.subrange(0, i as int), max as nat) == Some(acc as nat),
        decreases d@.len() - i,
    {
        let c: u32 = d[i] as u32;
        proof {
            assert(d@.subrange(0, i + 1).drop_last() =~= d@.subrange(0, i as int));
        }
        if c < 48 || c > 57 || acc * 10 + (c - 48) as u64 > max as u64 {
            proof {
                lemma_digits_fail_on(d@, i + 1, max as nat);
            }
            return None;
        }
        acc = acc * 10 + (c - 48) as u64;
        i = i + 1;
    }
    assert(d@.subrange(0, i as int) =~= d@);
    Some(acc as u32)
}

/// Reads the arguments of `/list`.
pub fn parse_list(args: &Vec<char>) -> (r: Result<Command, CommandError>)
    ensures
        r == list_of(args@),
{
    match number(args, 255) {
        Some(slot) => Ok(Command::List(slot as u8)),
        None => Err(CommandError::IncorrectFormat),
    }
}

/// Reads the arguments of `/delete`.
pub fn parse_delete(args: &Vec<char>) -> (r: Result<Command, CommandError>)
    ensures
        r == delete_of(args@),
{
    let p = find(args, ' ', 0);
    let slot = match number(&part_of(args, 0, p), 255) {
        Some(slot) => slot as u8,
        None => {
            return Err(CommandError::IncorrectFormat);
        },
    };
    if p >= args.len() {
        return Err(CommandError::TooFewArguments);
    }
    let q = find(args, ' ', p + 1);
    let index = match number(&part_of(args, p + 1, q), 0xffff_ffff) {
        Some(index) => index,
        None => {
            return Err(CommandError::IncorrectFormat);
        },
    };
    if q < args.len() {
        return Err(CommandError::TooManyArguments);
    }
    Ok(Command::Delete { slot, index })
}

/// Reads a chat text as a command for the bot named `bot_name`.
pub fn parse_command(text: &str, bot_name: &str) -> (r: Result<Command, CommandError>)
    ensures
        r == command_of(text@, bot_name@),
{
    let t = chars_of(text);
    let p = find(&t, ' ', 0);
    let head = part_of(&t, 0, p);
    let args = if p < t.len() {
        part_of(&t, p + 1, t.len())
    } else {
        Vec::new()
    };
    let q = find(&head, '@', 0);
    let name = part_of(&head, 0, q);
    if q < head.len() {
        let bot = part_of(&head, q + 1, find(&head, '@', q + 1));
        if !matches_but_for_case(&bot, &chars_of(bot_name)) {
            return Err(CommandError::WrongBotName);
        }
    }
    if same_text(&name, &chars_of("/list")) {
        parse_list(&args)
    } else if same_text(&name, &chars_of("/delete")) {
        parse_delete(&args)
    } else {
        Err(CommandError::UnknownCommand)
    }
}

/// The value of a run of decimal digits, read in base ten.
pub open spec fn numeral_value(d: Seq<char>) -> nat
    decreases d.len(),
{
    if d.len() == 0 {
        0
    } else {
        (numeral_value(d.drop_last()) * 10 + (d.last() as u32 - 48)) as nat
    }
}

/// Every character of `d` is a decimal digit.
pub open spec fn all_digits(d: Seq<char>) -> bool {
    forall|i: int| 0 <= i < d.len() ==> is_digit(#[trigger] d[i])
}

/// A run of characters denotes a number exactly where all of them are digits
/// and their value in base ten is at most `max`; the number is that value.
pub proof fn lemma_digits_value_is_numeral(d: Seq<char>, max: nat)
    ensures
        digits_value(d, max) == (if all_digits(d) && numeral_value(d) <= max {
            Some(numeral_value(d))
        } else {
            None
        }),
    decreases d.len(),
{
    if d.len() > 0 {
        let rest = d.drop_last();
        lemma_digits_value_is_numeral(rest, max);
        if all_digits(d) {
            assert forall|i: int| 0 <= i < rest.len() implies is_digit(#[trigger] rest[i]) by {
                assert(rest[i] == d[i]);
            }
            assert(is_digit(d[d.len() - 1]));
        } else {
            if all_digits(rest) && is_digit(d.last()) {
                assert forall|i: int| 0 <= i < d.len() implies is_digit(#[trigger] d[i]) by {
                    if i < rest.len() {
                        assert(rest[i] == d[i]);
                    }
                }
            }
        }
    }
}

/// Reading undoes rendering: the decimal numeral of a number within `max`
/// denotes that number.
pub proof fn lemma_number_of_decimal(n: nat, max: nat)
    requires
        n <= max,
    ensures
        all_digits(decimal(n)),
        decimal(n).len() > 0,
        numeral_value(decimal(n)) == n,
        number_of(decimal(n), max) == Some(n),
    decreases n,
{
    let d = decimal(n);
    if n < 10 {
        assert(d.drop_last() =~= Seq::<char>::empty());
        assert(numeral_value(d.drop_last()) == 0);
        assert(d.last() == digit_char(n));
    } else {
        lemma_number_of_decimal(n / 10, max);
        assert(d.drop_last() =~= decimal(n / 10));
        assert(d.last() == digit_char(n % 10));
    }
    assert(all_digits(d)) by {
        assert forall|i: int| 0 <= i < d.len() implies is_digit(#[trigger] d[i]) by {
            if i < d.len() - 1 {
                assert(d[i] == d.drop_last()[i]);
            }
        }
    }
    assert(d[0] != '+');
    lemma_digits_value_is_numeral(d, max);
}

} // verus!
