//! Entries as the directory answers them: the members of a group, and numbers in use.
use vstd::prelude::*;
use vstd::string::*;

use crate::attrs::{first_ci, first_ci_found, values_ci, AttrMap};
use crate::text::{chars_of, copy_texts, decimal_of, same_ci, texts, trim, trimmed};

verus! {

/// An entry as read.
pub struct LdapEntry {
    pub dn: String,
    pub attrs: AttrMap,
}

/// The answer to a read of one group's members.
pub enum ReadAnswer {
    /// The entries that were found.
    Entries(Vec<LdapEntry>),
    /// The read failed, or the answer was something else.
    Failed,
}

/// The members that a read of a group gives: those of the first entry, none where there is no
/// entry or no such attribute, and nothing to go by where the read failed.
pub open spec fn members_of(answer: ReadAnswer, attr: Seq<char>) -> Option<Seq<Seq<char>>> {
    match answer {
        ReadAnswer::Failed => None,
        ReadAnswer::Entries(entries) => if entries@.len() == 0 {
            Some(Seq::empty())
        } else {
            match values_ci(entries@[0].attrs@, attr) {
                Some(v) => Some(v),
                None => Some(Seq::empty()),
            }
        },
    }
}

/// The members that a read of a group gives.
pub fn read_group_members(answer: &ReadAnswer, holder_attr: &str) -> (r: Option<Vec<String>>)
    ensures
        match r {
            Some(v) => members_of(*answer, holder_attr@) == Some(texts(v@)),
            None => members_of(*answer, holder_attr@) is None,
        },
{
    match answer {
        ReadAnswer::Failed => None,
        ReadAnswer::Entries(entries) => {
            if entries.len() > 0 {
                match entries[0].attrs.get_ci(holder_attr) {
                    Some(v) => return Some(copy_texts(v)),
                    None => {},
                }
            }
            let none: Vec<String> = Vec::new();
            assert(texts(none@) =~= Seq::empty());
            Some(none)
        },
    }
}

/// Whether every character is a decimal digit.
pub open spec fn all_digits(s: Seq<char>) -> bool {
    forall|i: int| 0 <= i < s.len() ==> '0' <= #[trigger] s[i] && s[i] <= '9'
}

/// The number that decimal digits stand for.
pub open spec fn number_of(s: Seq<char>) -> nat
    decreases s.len(),
{
    if s.len() == 0 {
        0
    } else {
        10 * number_of(s.drop_last()) + (s.last() as nat - '0' as nat) as nat
    }
}

/// A text without the plus sign in front of it.
pub open spec fn unsigned(s: Seq<char>) -> Seq<char> {
    if s.len() > 0 && s[0] == '+' {
        s.skip(1)
    } else {
        s
    }
}

/// The number that a text stands for: an optional plus sign and digits, at most `u64::MAX`.
pub open spec fn parsed(s: Seq<char>) -> Option<nat> {
    let d = unsigned(s);
    if d.len() > 0 && all_digits(d) && number_of(d) <= u64::MAX {
        Some(number_of(d))
    } else {
        None
    }
}

proof fn number_grows(s: Seq<char>, n: int)
    requires
        0 <= n <= s.len(),
        all_digits(s),
    ensures
        number_of(s.take(n)) <= number_of(s),
    decreases s.len() - n,
{
    if n < s.len() {
        number_grows(s, n + 1);
        assert(s.take(n + 1).drop_last() =~= s.take(n));
    } else {
        assert(s.take(n) =~= s);
    }
}

/// The number that a text stands for, if it is one.
pub fn parse_number(s: &str) -> (r: Option<u64>)
    ensures
        match r {
            Some(n) => parsed(s@) == Some(n as nat),
            None => parsed(s@) is None,
        },
{
    let v: Vec<char> = chars_of(s);
    let start: usize = if v.len() > 0 && v[0] == '+' {
        1
    } else {
        0
    };
    let ghost d = unsigned(s@);
    assert(d =~= v@.skip(start as int));
    if start == v.len() {
        return None;
    }
    let mut n: u64 = 0;
    let mut i: usize = start;
    while i < v.len()
        invariant
            v@ == s@,
            start <= i <= v@.len(),
            start < v@.len(),
            d == v@.skip(start as int),
            d == unsigned(s@),
            all_digits(d.take(i - start)),
            n == number_of(d.take(i - start)),
        decreases v@.len() - i,
    {
        let c: char = v[i];
        proof {
            assert(d[i - start] == c);
            assert(d.take(i - start + 1).drop_last() =~= d.take(i - start));
            assert(d.take(i - start + 1).last() == c);
        }
        if c < '0' || c > '9' {
            assert(!all_digits(d));
            return None;
        }
        let digit: u64 = (c as u64) - 48;
        let ghost next = 10 * n + digit;
        assert(number_of(d.take(i - start + 1)) == next);
        if n > u64::MAX / 10 || n * 10 > u64::MAX - digit {
            proof {
                if all_digits(d) {
                    number_grows(d, i - start + 1);
                }
                assert(next > u64::MAX);
            }
            return None;
        }
        n = n * 10 + digit;
        i += 1;
        assert(all_digits(d.take(i - start)));
    }
    assert(d.take(d.len() as int) =~= d);
    Some(n)
}

/// The numbers among some values, each trimmed.
pub open spec fn numbers_among(values: Seq<Seq<char>>) -> Seq<u64>
    decreases values.len(),
{
    if values.len() == 0 {
        Seq::empty()
    } else {
        let before = numbers_among(values.drop_last());
        match parsed(trimmed(values.last())) {
            Some(n) => before.push(n as u64),
            None => before,
        }
    }
}

/// The numbers that the entries hold in an attribute.
pub open spec fn numbers_in(entries: Seq<LdapEntry>, attr: Seq<char>) -> Seq<u64>
    decreases entries.len(),
{
    if entries.len() == 0 {
        Seq::empty()
    } else {
        let before = numbers_in(entries.drop_last(), attr);
        match values_ci(entries.last().attrs@, attr) {
            Some(v) => before + numbers_among(v),
            None => before,
        }
    }
}

/// The numbers that the entries hold in an attribute; values that are no numbers are passed over.
pub fn scanned_numbers(entries: &Vec<LdapEntry>, attr: &str) -> (r: Vec<u64>)
    ensures
        r@ == numbers_in(entries@, attr@),
{
    let mut out: Vec<u64> = Vec::new();
    let mut i: usize = 0;
    assert(entries@.take(0) =~= Seq::empty());
    while i < entries.len()
        invariant
            i <= entries@.len(),
            out@ == numbers_in(entries@.take(i as int), attr@),
        decreases entries@.len() - i,
    {
        proof {
            assert(entries@.take(i + 1).drop_last() =~= entries@.take(i as int));
        }
        match entries[i].attrs.get_ci(attr) {
            Some(vs) => {
                let ghost base = out@;
                let ghost all = texts(vs@);
                let mut j: usize = 0;
                assert(out@ =~= base + numbers_among(all.take(0)));
                while j < vs.len()
                    invariant
                        j <= vs@.len(),
                        all == texts(vs@),
                        out@ == base + numbers_among(all.take(j as int)),
                    decreases vs@.len() - j,
                {
                    proof {
                        assert(all.take(j + 1).drop_last() =~= all.take(j as int));
                        assert(all.take(j + 1).last() == vs@[j as int]@);
                    }
                    match parse_number(&trim(&vs[j])) {
                        Some(n) => {
                            out.push(n);
                            assert(out@ =~= base + numbers_among(all.take(j + 1)));
                        },
                        None => {},
                    }
                    j += 1;
                }
                assert(all.take(all.len() as int) =~= all);
            },
            None => {},
        }
        i += 1;
    }
    assert(entries@.take(entries@.len() as int) =~= entries@);
    out
}

/// The answer to a scan for numbers in use.
pub enum ScanAnswer {
    /// The entries that were found, and whether the scan was cut off.
    Entries { entries: Vec<LdapEntry>, truncated: bool },
    /// The directory refused the scan.
    Refused(String),
    /// Any other answer.
    Unexpected,
}

/// Whether `r` is what a scan came to: the numbers that are in use, and whether there may be more.
pub open spec fn scanned(
    answer: ScanAnswer,
    attr: Seq<char>,
    r: Result<(Vec<u64>, bool), String>,
) -> bool {
    match answer {
        ScanAnswer::Entries { entries, truncated } => r matches Ok(p) && p.0@ == numbers_in(
            entries@,
            attr,
        ) && p.1 == truncated,
        ScanAnswer::Refused(msg) => r == Err::<(Vec<u64>, bool), String>(msg),
        ScanAnswer::Unexpected => r matches Err(e) && e@ == "unexpected response while allocating"@,
    }
}

/// Whether `r` is the number that `next` gives for the numbers in use, or why there is none.
pub open spec fn number_allocated<F: Fn(&Vec<u64>, u64, u64) -> Result<u64, String>>(
    answer: ScanAnswer,
    attr: Seq<char>,
    min: u64,
    max: u64,
    next: F,
    r: Result<u64, String>,
) -> bool {
    match answer {
        ScanAnswer::Entries { entries, truncated } => if truncated {
            r matches Err(e) && e@ == truncated_text()
        } else {
            exists|v: &Vec<u64>|
                v@ == numbers_in(entries@, attr) && #[trigger] call_ensures(next, (v, min, max), r)
        },
        ScanAnswer::Refused(msg) => r == Err::<u64, String>(msg),
        ScanAnswer::Unexpected => r matches Err(e) && e@ == "unexpected response while allocating"@,
    }
}

/// The numbers that a scan found in an attribute, and whether it was cut off. A scan that failed
/// gives the reason.
pub fn scan_result(answer: ScanAnswer, attr: &str) -> (r: Result<(Vec<u64>, bool), String>)
    ensures
        scanned(answer, attr@, r),
{
    match answer {
        ScanAnswer::Entries { entries, truncated } => Ok(
            (scanned_numbers(&entries, attr), truncated),
        ),
        ScanAnswer::Refused(msg) => Err(msg),
        ScanAnswer::Unexpected => Err("unexpected response while allocating".to_owned()),
    }
}

/// The refusal to take a number from a scan that was cut off.
pub open spec fn truncated_text() -> Seq<char> {
    "refusing to allocate: the number scan hit a server size limit (bind with a higher-limit identity or configure a counter)"@
}

/// Decides a number from the numbers that a scan found: `next` gives the next free one in a range.
/// A scan that was cut off gives none: a number in use might have been missed.
pub fn decide_allocation<F: Fn(&Vec<u64>, u64, u64) -> Result<u64, String>>(
    values: &Vec<u64>,
    truncated: bool,
    min: u64,
    max: u64,
    next: F,
) -> (r: Result<u64, String>)
    requires
        call_requires(next, (values, min, max)),
    ensures
        truncated ==> (r matches Err(e) && e@ == truncated_text()),
        !truncated ==> call_ensures(next, (values, min, max), r),
{
    if truncated {
        return Err(
            "refusing to allocate: the number scan hit a server size limit (bind with a higher-limit identity or configure a counter)".to_owned(),
        );
    }
    next(values, min, max)
}

/// Finds a number for an attribute from the answer to a scan: the next free one in the range by the
/// numbers in use, unless the scan failed or was cut off.
pub fn allocate_number<F: Fn(&Vec<u64>, u64, u64) -> Result<u64, String>>(
    answer: ScanAnswer,
    attr: &str,
    min: u64,
    max: u64,
    next: F,
) -> (r: Result<u64, String>)
    requires
        forall|v: &Vec<u64>| call_requires(next, (v, min, max)),
    ensures
        number_allocated(answer, attr@, min, max, next, r),
{
    match scan_result(answer, attr) {
        Ok((values, truncated)) => decide_allocation(&values, truncated, min, max, next),
        Err(e) => Err(e),
    }
}

proof fn numbers_among_found(values: Seq<Seq<char>>, n: u64)
    ensures
        numbers_among(values).contains(n) <==> exists|j: int|
            0 <= j < values.len() && parsed(trimmed(#[trigger] values[j])) == Some(n as nat),
    decreases values.len(),
{
    if values.len() > 0 {
        let head = values.drop_last();
        let before = numbers_among(head);
        let all = numbers_among(values);
        let last = values.len() - 1;
        numbers_among_found(head, n);
        assert(values.last() == values[last]);
        if all.contains(n) {
            let k = choose|k: int| 0 <= k < all.len() && all[k] == n;
            if k < before.len() {
                assert(before[k] == n);
                let j = choose|j: int|
                    0 <= j < head.len() && parsed(trimmed(#[trigger] head[j])) == Some(n as nat);
                assert(parsed(trimmed(values[j])) == Some(n as nat));
            } else {
                assert(parsed(trimmed(values[last])) == Some(n as nat));
            }
        }
        if exists|j: int|
            0 <= j < values.len() && parsed(trimmed(#[trigger] values[j])) == Some(n as nat) {
            let j = choose|j: int|
                0 <= j < values.len() && parsed(trimmed(#[trigger] values[j])) == Some(n as nat);
            if j < head.len() {
                assert(parsed(trimmed(head[j])) == Some(n as nat));
                let k = choose|k: int| 0 <= k < before.len() && before[k] == n;
                assert(all[k] == n);
            } else {
                assert(all[before.len() as int] == n);
            }
        }
    }
}

/// The numbers in use are exactly those that some entry holds: a number is among them if and only if
/// a value of the attribute, under its first name in any letter case, reads as it once trimmed.
pub proof fn every_number_in_use_is_found(entries: Seq<LdapEntry>, attr: Seq<char>, n: u64)
    ensures
        numbers_in(entries, attr).contains(n) <==> exists|i: int, j: int|
            #![trigger entries[i], values_ci(entries[i].attrs@, attr)->0[j]]
            {
                &&& 0 <= i < entries.len()
                &&& values_ci(entries[i].attrs@, attr) is Some
                &&& 0 <= j < values_ci(entries[i].attrs@, attr)->0.len()
                &&& parsed(trimmed(values_ci(entries[i].attrs@, attr)->0[j])) == Some(n as nat)
            },
    decreases entries.len(),
{
    if entries.len() > 0 {
        let head = entries.drop_last();
        let last = entries.len() - 1;
        let before = numbers_in(head, attr);
        let all = numbers_in(entries, attr);
        let held = values_ci(entries.last().attrs@, attr);
        every_number_in_use_is_found(head, attr, n);
        assert(entries.last() == entries[last]);
        if held is Some {
            let more = numbers_among(held->0);
            numbers_among_found(held->0, n);
            if all.contains(n) {
                let k = choose|k: int| 0 <= k < all.len() && all[k] == n;
                if k < before.len() {
                    assert(before[k] == n);
                } else {
                    assert(more[k - before.len()] == n);
                    let j = choose|j: int|
                        0 <= j < held->0.len() && parsed(trimmed(#[trigger] held->0[j])) == Some(
                            n as nat,
                        );
                    assert(parsed(trimmed(values_ci(entries[last].attrs@, attr)->0[j])) == Some(
                        n as nat,
                    ));
                }
            }
            if before.contains(n) {
                let k = choose|k: int| 0 <= k < before.len() && before[k] == n;
                assert(all[k] == n);
            }
            if more.contains(n) {
                let k = choose|k: int| 0 <= k < more.len() && more[k] == n;
                assert(all[before.len() + k] == n);
            }
        }
        if before.contains(n) {
            let (i, j) = choose|i: int, j: int|
                #![trigger head[i], values_ci(head[i].attrs@, attr)->0[j]]
                {
                    &&& 0 <= i < head.len()
                    &&& values_ci(head[i].attrs@, attr) is Some
                    &&& 0 <= j < values_ci(head[i].attrs@, attr)->0.len()
                    &&& parsed(trimmed(values_ci(head[i].attrs@, attr)->0[j])) == Some(n as nat)
                };
            assert(head[i] == entries[i]);
            assert(parsed(trimmed(values_ci(entries[i].attrs@, attr)->0[j])) == Some(n as nat));
        }
        if exists|i: int, j: int|
            #![trigger entries[i], values_ci(entries[i].attrs@, attr)->0[j]]
            {
                &&& 0 <= i < entries.len()
                &&& values_ci(entries[i].attrs@, attr) is Some
                &&& 0 <= j < values_ci(entries[i].attrs@, attr)->0.len()
                &&& parsed(trimmed(values_ci(entries[i].attrs@, attr)->0[j])) == Some(n as nat)
            } {
            let (i, j) = choose|i: int, j: int|
                #![trigger entries[i], values_ci(entries[i].attrs@, attr)->0[j]]
                {
                    &&& 0 <= i < entries.len()
                    &&& values_ci(entries[i].attrs@, attr) is Some
                    &&& 0 <= j < values_ci(entries[i].attrs@, attr)->0.len()
                    &&& parsed(trimmed(values_ci(entries[i].attrs@, attr)->0[j])) == Some(n as nat)
                };
            if i < last {
                assert(head[i] == entries[i]);
                assert(parsed(trimmed(values_ci(head[i].attrs@, attr)->0[j])) == Some(n as nat));
                assert(before.contains(n));
            } else {
                assert(parsed(trimmed(held->0[j])) == Some(n as nat));
                assert(numbers_among(held->0).contains(n));
            }
        }
    }
}

/// A number that is written in decimal is read back: its digits stand for it, and a plus sign in front
/// changes nothing.
pub proof fn numbers_are_read_back(n: nat)
    requires
        n <= u64::MAX,
    ensures
        parsed(decimal_of(n)) == Some(n),
        parsed(seq!['+'] + decimal_of(n)) == Some(n),
{
    decimal_digits(n);
    let d = decimal_of(n);
    assert('0' <= d[0] && d[0] <= '9');
    assert(unsigned(d) == d);
    assert((seq!['+'] + d).skip(1) =~= d);
}

proof fn decimal_digits(n: nat)
    ensures
        decimal_of(n).len() > 0,
        all_digits(decimal_of(n)),
        number_of(decimal_of(n)) == n,
        n >= 10 ==> decimal_of(n)[0] != '0',
        n > 0 ==> decimal_of(n)[0] != '0',
    decreases n,
{
    let d = decimal_of(n);
    if n < 10 {
        assert(d.drop_last() =~= Seq::<char>::empty());
        assert(number_of(d.drop_last()) == 0);
        assert(d.last() as nat == 48 + n);
    } else {
        let h = decimal_of(n / 10);
        decimal_digits(n / 10);
        assert(d.drop_last() =~= h);
        assert(d.last() as nat == 48 + n % 10);
        assert(d[0] == h[0]);
        assert forall|i: int| 0 <= i < d.len() implies '0' <= #[trigger] d[i] && d[i] <= '9' by {
            if i < h.len() {
                assert(d[i] == h[i]);
            }
        }
    }
}

/// Decimal notation has no zero in front, so that each number is written in one way only.
pub proof fn decimals_have_no_leading_zero(n: nat)
    requires
        n > 0,
    ensures
        decimal_of(n)[0] != '0',
        all_digits(decimal_of(n)),
{
    decimal_digits(n);
}

/// Only digits, with at most one plus sign in front of them, read as a number.
pub proof fn only_digits_are_read(s: Seq<char>, i: int)
    requires
        parsed(s) is Some,
        0 <= i < s.len(),
    ensures
        '0' <= s[i] && s[i] <= '9' || i == 0 && s[0] == '+' && s.len() > 1,
{
    let d = unsigned(s);
    if s[0] == '+' {
        if i > 0 {
            assert(d[i - 1] == s[i]);
        }
    } else {
        assert(d[i] == s[i]);
    }
}

/// A group that could not be read has no members to go by; one that was read has those of its first
/// entry, under the attribute's first name in any letter case, and none without entry or attribute.
pub proof fn members_are_those_of_the_first_entry(answer: ReadAnswer, attr: Seq<char>, i: int)
    ensures
        members_of(answer, attr) is None <==> answer is Failed,
        answer matches ReadAnswer::Entries(entries) ==> {
            &&& entries@.len() == 0 ==> members_of(answer, attr)->0.len() == 0
            &&& entries@.len() > 0 && 0 <= i < entries@[0].attrs@.len() && same_ci(
                entries@[0].attrs@[i].0,
                attr,
            ) && (forall|j: int|
                0 <= j < i ==> !same_ci((#[trigger] entries@[0].attrs@[j]).0, attr))
                ==> members_of(answer, attr)->0 == entries@[0].attrs@[i].1
            &&& entries@.len() > 0 && (forall|j: int|
                0 <= j < entries@[0].attrs@.len() ==> !same_ci(
                    (#[trigger] entries@[0].attrs@[j]).0,
                    attr,
                )) ==> members_of(answer, attr)->0.len() == 0
        },
{
    if let ReadAnswer::Entries(entries) = answer {
        if entries@.len() > 0 {
            first_ci_found(entries@[0].attrs@, attr);
            match first_ci(entries@[0].attrs@, attr) {
                Some(k) => {
                    assert(same_ci(entries@[0].attrs@[k].0, attr));
                },
                None => {},
            }
        }
    }
}

/// A number is asked for with every number that some entry has under the attribute, in the range that
/// is wanted; where not all entries were seen, or the scan failed, there is none.
pub proof fn numbers_are_given_past_those_in_use<F: Fn(&Vec<u64>, u64, u64) -> Result<u64, String>>(
    answer: ScanAnswer,
    attr: Seq<char>,
    min: u64,
    max: u64,
    next: F,
    r: Result<u64, String>,
    n: u64,
    i: int,
    j: int,
)
    requires
        number_allocated(answer, attr, min, max, next, r),
    ensures
        answer matches ScanAnswer::Entries { entries, truncated } && truncated ==> r is Err,
        answer is Unexpected ==> r is Err,
        answer matches ScanAnswer::Refused(msg) ==> r == Err::<u64, String>(msg),
        answer matches ScanAnswer::Entries { entries, truncated } ==> !truncated ==> exists|v: &Vec<u64>|
            {
                &&& #[trigger] call_ensures(next, (v, min, max), r)
                &&& 0 <= i < entries@.len() && values_ci(entries@[i].attrs@, attr) is Some && 0 <= j
                    < values_ci(entries@[i].attrs@, attr)->0.len() && parsed(
                    trimmed(values_ci(entries@[i].attrs@, attr)->0[j]),
                ) == Some(n as nat) ==> v@.contains(n)
            },
{
    if let ScanAnswer::Entries { entries, truncated } = answer {
        every_number_in_use_is_found(entries@, attr, n);
    }
}

/// A scan tells every number that some entry has under the attribute, no other, and whether entries are
/// missing; a scan that failed tells why.
pub proof fn scans_tell_the_numbers_in_use(
    answer: ScanAnswer,
    attr: Seq<char>,
    r: Result<(Vec<u64>, bool), String>,
    n: u64,
)
    requires
        scanned(answer, attr, r),
    ensures
        r is Ok <==> answer is Entries,
        answer matches ScanAnswer::Refused(msg) ==> r->Err_0 == msg,
        answer matches ScanAnswer::Entries { entries, truncated } ==> (r->Ok_0).1 == truncated && (
        (r->Ok_0).0@.contains(n) <==> exists|i: int, j: int|
            #![trigger entries@[i], values_ci(entries@[i].attrs@, attr)->0[j]]
            {
                &&& 0 <= i < entries@.len()
                &&& values_ci(entries@[i].attrs@, attr) is Some
                &&& 0 <= j < values_ci(entries@[i].attrs@, attr)->0.len()
                &&& parsed(trimmed(values_ci(entries@[i].attrs@, attr)->0[j])) == Some(n as nat)
            }),
{
    if let ScanAnswer::Entries { entries, truncated } = answer {
        every_number_in_use_is_found(entries@, attr, n);
    }
}

} // verus!
