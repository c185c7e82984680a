//! The Linux helper: how it waits for its turn, and the watchdog that cleans
//! up after a helper that was killed.

use vstd::prelude::*;

use crate::error::{IoError, IoErrorKind};
use crate::ip::{IpAddr, Ipv4Addr};
use crate::text;

verus! {

/// How long a helper waits for another to end.
pub const LOCK_WAIT: u128 = 2_000_000_000;

/// How often it looks.
pub const LOCK_POLL: u128 = 50_000_000;

/// How often the watchdog looks after its parent.
pub const WATCHDOG_POLL: u128 = 250_000_000;

/// The address of the server, which has to be an IPv4 address.
///
/// # Errors
///
/// Returns an error for an IPv6 address.
pub fn server_address(address: IpAddr) -> (result: Result<Ipv4Addr, String>)
    ensures
        match address {
            IpAddr::V4(v4) => result matches Ok(a) && a == v4,
            IpAddr::V6(_) => result matches Err(message) && message@
                == "Адрес VPN-сервера IPv6 пока не поддерживается"@,
        },
{
    match address {
        IpAddr::V4(address) => Ok(address),
        IpAddr::V6(_) => Err(text::owned("Адрес VPN-сервера IPv6 пока не поддерживается")),
    }
}

// The lock

/// How a helper goes on after it tried to take the lock.
#[derive(Debug)]
pub enum LockStep {
    Acquired,
    /// Try again after [`LOCK_POLL`].
    Retry,
    Fail(String),
}

/// How a helper goes on after it tried to take the lock at `now`, when it is
/// to give up at `deadline`.
pub fn lock_step(attempt: Result<(), IoError>, now: u128, deadline: u128) -> (step: LockStep)
    ensures
        match attempt {
            Ok(_) => step is Acquired,
            Err(error) => if error.kind is WouldBlock {
                if now >= deadline {
                    step matches LockStep::Fail(message) && message@
                        == "Другой процесс MouseVPN уже подключается или работает"@
                } else {
                    step is Retry
                }
            } else {
                step matches LockStep::Fail(message) && message@ == error.detail@
            },
        },
{
    match attempt {
        Ok(_) => LockStep::Acquired,
        Err(error) => match error.kind {
            IoErrorKind::WouldBlock => if now >= deadline {
                LockStep::Fail(text::owned("Другой процесс MouseVPN уже подключается или работает"))
            } else {
                LockStep::Retry
            },
            _ => LockStep::Fail(error.detail),
        },
    }
}

// The watchdog

/// Where the digits of a number end.
pub open spec fn digits_end(s: Seq<char>, from: int) -> int
    decreases s.len() - from,
{
    if from < 0 || from >= s.len() || !text::is_digit(s[from]) {
        from
    } else {
        digits_end(s, from + 1)
    }
}

/// Why `s` is not a number of 64 bits: its digits exceed the limit before the
/// first character that is no digit, or there is such a character.
pub open spec fn number_fault(s: Seq<char>) -> Seq<char> {
    let digits = text::unsigned_digits(s);
    if text::digits_value(digits.subrange(0, digits_end(digits, 0))) > u64::MAX {
        "number too large to fit in target type"@
    } else {
        "invalid digit found in string"@
    }
}

/// The state of a process and when it was started, as the line that the system
/// keeps of it tells, or what is wrong with the line.
pub open spec fn identity_of(stat: Seq<char>) -> Result<(char, u64), Seq<char>> {
    match text::last_index(stat, ')') {
        None => Err("invalid /proc process stat"@),
        Some(at) => {
            let fields = text::words(stat.subrange(at + 1, stat.len() as int));
            if fields.len() == 0 || fields[0].len() == 0 {
                Err("process state is unavailable"@)
            } else if fields.len() <= 19 {
                Err("process start time is unavailable"@)
            } else {
                match text::unsigned_value(fields[19], u64::MAX as nat) {
                    Some(started) => Ok((fields[0][0], started as u64)),
                    None => Err("invalid process start time: "@ + number_fault(fields[19])),
                }
            }
        },
    }
}

/// Why `text` is not a number of 64 bits.
fn fault_of(value: &str) -> (fault: String)
    ensures
        fault@ == number_fault(value@),
{
    let chars = text::chars_of(value);
    let from: usize = if chars.len() > 0 && chars[0] == '+' {
        1
    } else {
        0
    };
    let ghost digits = text::unsigned_digits(value@);
    assert(digits =~= chars@.subrange(from as int, chars@.len() as int));
    let limit: u128 = u64::MAX as u128;
    let mut number: u128 = 0;
    let mut i: usize = from;
    assert(digits.subrange(0, 0) =~= Seq::<char>::empty());
    while i < chars.len() && chars[i] >= '0' && chars[i] <= '9'
        invariant
            from <= i <= chars.len(),
            limit == u64::MAX,
            digits == text::unsigned_digits(value@),
            digits == chars@.subrange(from as int, chars@.len() as int),
            digits_end(digits, 0) == digits_end(digits, i - from),
            number <= limit,
            number == text::digits_value(digits.subrange(0, i - from)),
        decreases chars.len() - i,
    {
        proof {
            let longer = digits.subrange(0, i - from + 1);
            assert(longer.drop_last() =~= digits.subrange(0, i - from));
            assert(longer.last() == chars@[i as int]);
            assert(digits[i - from] == chars@[i as int]);
        }
        number = number * 10 + (chars[i] as u32 - '0' as u32) as u128;
        i = i + 1;
        if number > limit {
            proof {
                lemma_digits_end(digits, i - from);
                let whole = digits.subrange(0, digits_end(digits, 0));
                text::lemma_digits_value_monotonic(whole, i - from);
                assert(whole.subrange(0, i - from) =~= digits.subrange(0, i - from));
            }
            return text::owned("number too large to fit in target type");
        }
    }
    proof {
        if i < chars.len() {
            assert(digits[i - from] == chars@[i as int]);
        }
        assert(digits_end(digits, i - from) == i - from);
    }
    text::owned("invalid digit found in string")
}

proof fn lemma_digits_end(s: Seq<char>, from: int)
    requires
        0 <= from <= s.len(),
    ensures
        from <= digits_end(s, from) <= s.len(),
    decreases s.len() - from,
{
    if from < s.len() && text::is_digit(s[from]) {
        lemma_digits_end(s, from + 1);
    }
}

/// The state of a process and when it was started, as the line that the system
/// keeps of it tells.
///
/// The name of the process is in parentheses and may hold anything, so the
/// fields are counted from the last parenthesis.
///
/// # Errors
///
/// Returns an error that says what is wrong with the line.
pub fn process_identity(stat: &str) -> (result: Result<(char, u64), String>)
    ensures
        match identity_of(stat@) {
            Ok(identity) => result matches Ok(i) && i == identity,
            Err(message) => result matches Err(m) && m@ == message,
        },
{
    let chars = text::chars_of(stat);
    let at = match text::rfind(&chars, ')') {
        Some(at) => at,
        None => {
            return Err(text::owned("invalid /proc process stat"));
        },
    };
    let rest = text::range_text(&chars, at + 1, chars.len());
    let fields = text::split_words(rest.as_str());
    let ghost views = text::texts(fields@);
    assert(views.len() == fields@.len());
    if fields.len() == 0 {
        return Err(text::owned("process state is unavailable"));
    }
    assert(views[0] == fields@[0]@);
    let state = text::chars_of(fields[0].as_str());
    if state.len() == 0 {
        return Err(text::owned("process state is unavailable"));
    }
    if fields.len() <= 19 {
        return Err(text::owned("process start time is unavailable"));
    }
    assert(views[19] == fields@[19]@);
    match text::parse_unsigned(fields[19].as_str(), u64::MAX) {
        Some(started) => Ok((state[0], started)),
        None => {
            let mut message = text::owned("invalid process start time: ");
            message.append(fault_of(fields[19].as_str()).as_str());
            Err(message)
        },
    }
}

/// Whether the process that the watchdog watches still runs: it is there, it
/// is no zombie, and it is not another process that got its number.
pub open spec fn still_runs(identity: Option<(char, u64)>, started: u64) -> bool {
    identity matches Some(i) && i.0 != 'Z' && i.1 == started
}

/// Whether the watchdog goes on watching.
pub fn keeps_watching(identity: Option<(char, u64)>, started: u64) -> (yes: bool)
    ensures
        yes == still_runs(identity, started),
{
    match identity {
        Some((state, actual)) => state != 'Z' && actual == started,
        None => false,
    }
}

/// What the watchdog does once its parent is gone.
#[derive(Debug)]
pub enum TakeOver {
    RepairNetwork,
    /// Another helper runs already and owns the network.
    Leave,
    Fail(String),
}

/// What the watchdog does once its parent is gone and it tried to take the
/// lock.
pub fn take_over(attempt: Result<(), IoError>) -> (step: TakeOver)
    ensures
        match attempt {
            Ok(_) => step is RepairNetwork,
            Err(error) => if error.kind is WouldBlock {
                step is Leave
            } else {
                step matches TakeOver::Fail(message) && message@ == error.detail@
            },
        },
{
    match attempt {
        Ok(_) => TakeOver::RepairNetwork,
        Err(error) => match error.kind {
            IoErrorKind::WouldBlock => TakeOver::Leave,
            _ => TakeOver::Fail(error.detail),
        },
    }
}

/// A name that holds parentheses and spaces does not shift the fields: they
/// are counted from the last parenthesis, so that the first of them is the
/// state and the twentieth the time of the start.
pub proof fn process_fields_follow_the_last_parenthesis(before: Seq<char>, rest: Seq<char>)
    requires
        forall|i: int| 0 <= i < rest.len() ==> #[trigger] rest[i] != ')',
        text::words(rest).len() >= 20,
        text::words(rest)[0].len() > 0,
    ensures
        match text::unsigned_value(text::words(rest)[19], u64::MAX as nat) {
            Some(started) => identity_of(before + seq![')'] + rest) == Ok::<
                (char, u64),
                Seq<char>,
            >((text::words(rest)[0][0], started as u64)),
            None => identity_of(before + seq![')'] + rest) is Err,
        },
{
    let stat = before + seq![')'] + rest;
    lemma_last_parenthesis(before, rest);
    assert(stat.subrange(before.len() as int + 1, stat.len() as int) =~= rest);
}

proof fn lemma_last_parenthesis(before: Seq<char>, rest: Seq<char>)
    requires
        forall|i: int| 0 <= i < rest.len() ==> #[trigger] rest[i] != ')',
    ensures
        text::last_index(before + seq![')'] + rest, ')') == Some(before.len() as int),
    decreases rest.len(),
{
    let stat = before + seq![')'] + rest;
    if rest.len() > 0 {
        lemma_last_parenthesis(before, rest.drop_last());
        assert(stat.drop_last() =~= before + seq![')'] + rest.drop_last());
        assert(stat.last() == rest.last());
        assert(rest[rest.len() - 1] != ')');
    } else {
        assert(stat.last() == ')');
    }
}

/// The watchdog stops watching a process that is gone, one that has ended and
/// waits to be collected, and one that was started at another time.
pub proof fn the_watchdog_knows_its_parent(state: char, actual: u64, started: u64)
    ensures
        !still_runs(None, started),
        !still_runs(Some(('Z', actual)), started),
        actual != started ==> !still_runs(Some((state, actual)), started),
        state != 'Z' ==> still_runs(Some((state, started)), started),
{
}

/// A helper waits for two seconds in steps of a twentieth of a second, and the
/// watchdog looks four times a second.
pub proof fn a_busy_lock_is_waited_for(
    error: IoError,
    now: u128,
    deadline: u128,
    step: LockStep,
)
    requires
        call_ensures(lock_step, (Err::<(), IoError>(error), now, deadline), step),
    ensures
        step is Retry <==> error.kind is WouldBlock && now < deadline,
        !(step is Acquired),
        LOCK_WAIT == 2 * 1_000_000_000,
        LOCK_POLL * 20 == 1_000_000_000,
        WATCHDOG_POLL * 4 == 1_000_000_000,
{
}

/// A time that holds a character which is no digit is called invalid, unless
/// the digits before it are too many already, and one of digits alone is too
/// large.
pub proof fn faulty_times_are_told_apart(digits: Seq<char>, c: char, rest: Seq<char>)
    requires
        digits.len() > 0,
        digits[0] != '+',
        forall|i: int| 0 <= i < digits.len() ==> '0' <= #[trigger] digits[i] <= '9',
        !('0' <= c <= '9'),
    ensures
        text::digits_value(digits) > u64::MAX ==> number_fault(digits)
            == "number too large to fit in target type"@ && number_fault(
            digits + seq![c] + rest,
        ) == "number too large to fit in target type"@,
        text::digits_value(digits) <= u64::MAX ==> number_fault(digits + seq![c] + rest)
            == "invalid digit found in string"@,
{
    let all = digits + seq![c] + rest;
    assert(all[0] == digits[0]);
    assert(all[digits.len() as int] == c);
    assert forall|i: int| 0 <= i < digits.len() implies text::is_digit(#[trigger] all[i]) by {
        assert(all[i] == digits[i]);
    }
    lemma_digits_run(all, 0, digits.len() as int);
    assert(digits.subrange(0, digits.len() as int) =~= digits);
    assert forall|i: int| 0 <= i < digits.len() implies text::is_digit(#[trigger] digits[i]) by {}
    lemma_digits_run(digits, 0, digits.len() as int);
    assert(all.subrange(0, digits.len() as int) =~= digits);
}

proof fn lemma_digits_run(s: Seq<char>, from: int, end: int)
    requires
        0 <= from <= end <= s.len(),
        forall|i: int| from <= i < end ==> text::is_digit(#[trigger] s[i]),
        end < s.len() ==> !text::is_digit(s[end]),
    ensures
        digits_end(s, from) == end,
    decreases end - from,
{
    if from < end {
        assert(text::is_digit(s[from]));
        lemma_digits_run(s, from + 1, end);
    }
}

} // verus!
