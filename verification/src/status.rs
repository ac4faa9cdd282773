//! Reading a process's status record: lines of the form `Key:<blanks>value`,
//! of which `Tgid` and `NStgid` are wanted.

use vstd::prelude::*;
use vstd::slice::slice_subrange;
use crate::error::Error;
use crate::pid::{digits, Pid};

verus! {

/// Blanks between the words of a line: space, tab, line feed, vertical tab,
/// form feed, carriage return.
pub open spec fn is_space(b: u8) -> bool {
    b == 0x20 || (0x09 <= b && b <= 0x0d)
}

/// The decimal digits `0` to `9`.
pub open spec fn is_digit(b: u8) -> bool {
    0x30 <= b && b <= 0x39
}

/// The number that `digits` writes in base ten.
pub open spec fn decimal(digits: Seq<u8>) -> nat
    decreases digits.len(),
{
    if digits.len() == 0 {
        0
    } else {
        decimal(digits.drop_last()) * 10 + (digits.last() - 0x30) as nat
    }
}

/// The id that a word stands for: one digit at least, digits only, and no
/// more than an id can hold.
pub open spec fn number(word: Seq<u8>) -> Option<u32> {
    if word.len() > 0 && (forall|i: int| 0 <= i < word.len() ==> is_digit(#[trigger] word[i]))
        && decimal(word) <= u32::MAX {
        Some(decimal(word) as u32)
    } else {
        None
    }
}

/// Where the text before `n` ends once the blanks at its end are dropped.
pub open spec fn trimmed_len(s: Seq<u8>, n: nat) -> nat
    decreases n,
{
    if 0 < n && n <= s.len() && is_space(s[n - 1]) {
        trimmed_len(s, (n - 1) as nat)
    } else {
        n
    }
}

/// Where the word that ends before `n` begins.
pub open spec fn word_start(s: Seq<u8>, n: nat) -> nat
    decreases n,
{
    if 0 < n && n <= s.len() && !is_space(s[n - 1]) {
        word_start(s, (n - 1) as nat)
    } else {
        n
    }
}

/// The last of the words of `s` that blanks separate; empty where `s` has
/// none.
pub open spec fn last_word(s: Seq<u8>) -> Seq<u8> {
    let end = trimmed_len(s, s.len());
    s.subrange(word_start(s, end) as int, end as int)
}

/// `Tgid`, the key of the thread group's id as the caller sees it.
pub open spec fn tgid_key() -> Seq<u8> {
    seq![0x54u8, 0x67u8, 0x69u8, 0x64u8]
}

/// `NStgid`, the key of the thread group's ids in the nested namespaces, the
/// outermost first.
pub open spec fn nstgid_key() -> Seq<u8> {
    seq![0x4eu8, 0x53u8, 0x74u8, 0x67u8, 0x69u8, 0x64u8]
}

/// Whether `line` begins with `key` and a colon.
pub open spec fn has_key(line: Seq<u8>, key: Seq<u8>) -> bool {
    &&& key.len() < line.len()
    &&& line.subrange(0, key.len() as int) == key
    &&& line[key.len() as int] == 0x3a
}

/// The id that `line` gives under `key`: the last word behind the colon,
/// where the line has that key and the word is a number.
pub open spec fn field(line: Seq<u8>, key: Seq<u8>) -> Option<u32> {
    if has_key(line, key) {
        number(last_word(line.skip(key.len() + 1 as int)))
    } else {
        None
    }
}

/// How many bytes stand before the first line feed of `s`.
pub open spec fn line_len(s: Seq<u8>) -> nat
    decreases s.len(),
{
    if s.len() == 0 || s[0] == 0x0a {
        0
    } else {
        1 + line_len(s.skip(1))
    }
}

/// The lines of `s`, without the line feeds that end them. A line feed at
/// the very end opens no further line.
pub open spec fn lines(s: Seq<u8>) -> Seq<Seq<u8>>
    decreases s.len(),
{
    if s.len() == 0 {
        Seq::empty()
    } else {
        let n = line_len(s);
        let rest = if n < s.len() {
            lines(s.skip(n + 1 as int))
        } else {
            Seq::empty()
        };
        seq![s.take(n as int)] + rest
    }
}

/// What a scan of `ls` finds, `tgid` being the thread group's id seen so
/// far: the id as the caller sees it and the id inside the innermost
/// namespace. Each line with a `Tgid` replaces the id seen so far. The first
/// line with an `NStgid` ends the scan; without one the inner id is the
/// outer one. Nothing is found where no `Tgid` was seen by the end.
pub open spec fn scan(ls: Seq<Seq<u8>>, tgid: Option<u32>) -> Option<(u32, u32)>
    decreases ls.len(),
{
    if ls.len() == 0 {
        match tgid {
            Some(t) => Some((t, t)),
            None => None,
        }
    } else {
        let seen = match field(ls[0], tgid_key()) {
            Some(t) => Some(t),
            None => tgid,
        };
        match field(ls[0], nstgid_key()) {
            Some(n) => match seen {
                Some(t) => Some((t, n)),
                None => None,
            },
            None => scan(ls.skip(1), seen),
        }
    }
}

/// The two ids that the status record `record` gives.
pub open spec fn nspid(record: Seq<u8>) -> Option<(u32, u32)> {
    scan(lines(record), None)
}

proof fn lemma_decimal_push(digits: Seq<u8>, d: u8)
    ensures
        decimal(digits.push(d)) == decimal(digits) * 10 + (d - 0x30) as nat,
{
    assert(digits.push(d).drop_last() == digits);
}

proof fn lemma_decimal_grows(digits: Seq<u8>, n: int)
    requires
        0 <= n <= digits.len(),
        forall|i: int| 0 <= i < digits.len() ==> is_digit(#[trigger] digits[i]),
    ensures
        decimal(digits.take(n)) <= decimal(digits),
    decreases digits.len() - n,
{
    if n < digits.len() {
        lemma_decimal_grows(digits, n + 1);
        assert(digits.take(n + 1).drop_last() == digits.take(n));
        assert(is_digit(digits[n]));
    } else {
        assert(digits.take(n) == digits);
    }
}

/// An id written in base ten reads back as itself.
pub proof fn written_id_reads_back(id: u32)
    ensures
        number(digits(id as nat)) == Some(id),
{
    lemma_digits_read_back(id as nat);
}

proof fn lemma_digits_read_back(n: nat)
    ensures
        digits(n).len() > 0,
        forall|i: int| 0 <= i < digits(n).len() ==> is_digit(#[trigger] digits(n)[i]),
        decimal(digits(n)) == n,
    decreases n,
{
    if n < 10 {
        let one = digits(n);
        assert(one.drop_last().len() == 0);
        assert(decimal(one.drop_last()) == 0);
    } else {
        lemma_digits_read_back(n / 10);
        lemma_decimal_push(digits(n / 10), (0x30 + n % 10) as u8);
    }
}

/// A record in which no line gives a `Tgid` gives no ids at all.
pub proof fn without_tgid_nothing_is_found(ls: Seq<Seq<u8>>)
    requires
        forall|i: int| 0 <= i < ls.len() ==> field(#[trigger] ls[i], tgid_key()) is None,
    ensures
        scan(ls, None) is None,
    decreases ls.len(),
{
    if ls.len() > 0 {
        assert(field(ls[0], tgid_key()) is None);
        assert forall|i: int| 0 <= i < ls.skip(1).len() implies field(
            #[trigger] ls.skip(1)[i],
            tgid_key(),
        ) is None by {
            assert(ls.skip(1)[i] == ls[i + 1]);
        }
        without_tgid_nothing_is_found(ls.skip(1));
    }
}

/// A record in which no line gives an `NStgid` gives the caller's view of
/// the id for the inner one too: it is the last `Tgid` of the record.
pub proof fn without_nstgid_ids_agree(ls: Seq<Seq<u8>>, tgid: Option<u32>)
    requires
        forall|i: int| 0 <= i < ls.len() ==> field(#[trigger] ls[i], nstgid_key()) is None,
    ensures
        scan(ls, tgid) matches Some((outer, inner)) ==> outer == inner,
        ls.len() > 0 && field(ls.last(), tgid_key()) is Some ==> scan(ls, tgid) == Some(
            (field(ls.last(), tgid_key())->0, field(ls.last(), tgid_key())->0),
        ),
    decreases ls.len(),
{
    if ls.len() > 0 {
        assert(field(ls[0], nstgid_key()) is None);
        let seen = match field(ls[0], tgid_key()) {
            Some(t) => Some(t),
            None => tgid,
        };
        assert forall|i: int| 0 <= i < ls.skip(1).len() implies field(
            #[trigger] ls.skip(1)[i],
            nstgid_key(),
        ) is None by {
            assert(ls.skip(1)[i] == ls[i + 1]);
        }
        without_nstgid_ids_agree(ls.skip(1), seen);
        if ls.len() > 1 {
            assert(ls.skip(1).last() == ls.last());
        }
    }
}

/// A line gives an id under one key at most: no line is read both as a
/// `Tgid` and as an `NStgid`.
pub proof fn keys_exclude_each_other(line: Seq<u8>)
    ensures
        !(has_key(line, tgid_key()) && has_key(line, nstgid_key())),
{
    if has_key(line, tgid_key()) && has_key(line, nstgid_key()) {
        assert(line.subrange(0, 4)[0] == tgid_key()[0]);
        assert(line.subrange(0, 6)[0] == nstgid_key()[0]);
    }
}

fn is_space_byte(b: u8) -> (r: bool)
    ensures
        r == is_space(b),
{
    b == 0x20 || (0x09 <= b && b <= 0x0d)
}

/// Reads `word` as an id.
fn parse_number(word: &[u8]) -> (r: Option<u32>)
    ensures
        r == number(word@),
{
    if word.len() == 0 {
        return None;
    }
    let mut acc: u64 = 0;
    let mut i: usize = 0;
    while i < word.len()
        invariant
            i <= word.len(),
            acc <= u32::MAX,
            acc == decimal(word@.take(i as int)),
            forall|j: int| 0 <= j < i ==> is_digit(#[trigger] word@[j]),
        decreases word.len() - i,
    {
        let b: u8 = word[i];
        if b < 0x30 || b > 0x39 {
            assert(!is_digit(word@[i as int]));
            return None;
        }
        proof {
            assert(word@.take(i + 1) == word@.take(i as int).push(b));
            lemma_decimal_push(word@.take(i as int), b);
        }
        let next: u64 = acc * 10 + (b - 0x30) as u64;
        if next > 0xffff_ffff {
            proof {
                if forall|j: int| 0 <= j < word@.len() ==> is_digit(#[trigger] word@[j]) {
                    lemma_decimal_grows(word@, i + 1);
                }
            }
            return None;
        }
        acc = next;
        i = i + 1;
    }
    assert(word@.take(i as int) == word@);
    Some(acc as u32)
}

/// Cuts the last word out of `s`.
fn find_last_word(s: &[u8]) -> (r: &[u8])
    ensures
        r@ == last_word(s@),
{
    let mut end: usize = s.len();
    while end > 0 && is_space_byte(s[end - 1])
        invariant
            end <= s.len(),
            trimmed_len(s@, s@.len()) == trimmed_len(s@, end as nat),
        decreases end,
    {
        end = end - 1;
    }
    let mut start: usize = end;
    while start > 0 && !is_space_byte(s[start - 1])
        invariant
            start <= end <= s.len(),
            word_start(s@, end as nat) == word_start(s@, start as nat),
        decreases start,
    {
        start = start - 1;
    }
    slice_subrange(s, start, end)
}

/// Whether `line` begins with `key` and a colon.
fn line_has_key(line: &[u8], key: &[u8]) -> (r: bool)
    ensures
        r == has_key(line@, key@),
{
    if key.len() >= line.len() {
        return false;
    }
    let mut i: usize = 0;
    while i < key.len()
        invariant
            i <= key.len() < line.len(),
            line@.subrange(0, i as int) == key@.subrange(0, i as int),
        decreases key.len() - i,
    {
        if line[i] != key[i] {
            assert(line@.subrange(0, key@.len() as int)[i as int] != key@[i as int]);
            return false;
        }
        assert(line@.subrange(0, i + 1) == line@.subrange(0, i as int).push(line@[i as int]));
        assert(key@.subrange(0, i + 1) == key@.subrange(0, i as int).push(key@[i as int]));
        i = i + 1;
    }
    assert(key@.subrange(0, i as int) == key@);
    line[key.len()] == 0x3a
}

/// The id that `line` gives under `key`.
fn field_of(line: &[u8], key: &[u8]) -> (r: Option<u32>)
    ensures
        r == field(line@, key@),
{
    if !line_has_key(line, key) {
        return None;
    }
    let key_len: usize = key.len();
    let line_len: usize = line.len();
    assert(key_len < line_len);
    let value = slice_subrange(line, key_len + 1, line_len);
    assert(value@ == line@.skip(key@.len() + 1 as int));
    parse_number(find_last_word(value))
}

/// Where the line that begins at `from` ends.
fn line_end(record: &[u8], from: usize) -> (end: usize)
    requires
        from <= record@.len(),
    ensures
        from <= end <= record@.len(),
        end - from == line_len(record@.skip(from as int)),
{
    let mut end: usize = from;
    while end < record.len() && record[end] != 0x0a
        invariant
            from <= end <= record@.len(),
            line_len(record@.skip(from as int)) == (end - from) + line_len(
                record@.skip(end as int),
            ),
        decreases record.len() - end,
    {
        assert(record@.skip(end as int).skip(1) == record@.skip(end + 1));
        end = end + 1;
    }
    end
}

/// Reads the status record of a process and gives its id as the caller sees
/// it, then its id inside its own namespace.
///
/// The record is scanned line by line up to the first `NStgid`. It must
/// have given a `Tgid` by then: a record without one belongs to a process
/// that is gone, and is an error to report, not to die of.
pub fn get_nspid(record: &[u8]) -> (r: Result<(Pid, Pid), Error>)
    ensures
        match nspid(record@) {
            Some((tgid, nstgid)) => r == Ok::<(Pid, Pid), Error>((Pid::of(tgid), Pid::of(nstgid))),
            None => r == Err::<(Pid, Pid), Error>(Error::NotFound),
        },
{
    let outer_key: [u8; 4] = [0x54, 0x67, 0x69, 0x64];
    let inner_key: [u8; 6] = [0x4e, 0x53, 0x74, 0x67, 0x69, 0x64];
    assert(outer_key@ == tgid_key());
    assert(inner_key@ == nstgid_key());
    let mut seen: Option<u32> = None;
    let mut pos: usize = 0;
    assert(record@.skip(0) == record@);
    while pos < record.len()
        invariant
            pos <= record@.len(),
            outer_key@ == tgid_key(),
            inner_key@ == nstgid_key(),
            nspid(record@) == scan(lines(record@.skip(pos as int)), seen),
        decreases record.len() - pos,
    {
        let end = line_end(record, pos);
        let line = slice_subrange(record, pos, end);
        let ghost rest = record@.skip(pos as int);
        proof {
            assert(line@ == rest.take(line_len(rest) as int));
            assert(lines(rest)[0] == line@);
            if end < record@.len() {
                assert(rest.skip(line_len(rest) + 1 as int) == record@.skip(end + 1));
            }
            assert(lines(rest).skip(1) == lines(record@.skip(if end < record@.len() {
                end + 1
            } else {
                end as int
            })));
        }
        match field_of(line, outer_key.as_slice()) {
            Some(t) => {
                seen = Some(t);
            },
            None => {},
        }
        match field_of(line, inner_key.as_slice()) {
            Some(n) => {
                return match seen {
                    Some(t) => Ok((Pid::from(t), Pid::from(n))),
                    None => Err(Error::NotFound),
                };
            },
            None => {},
        }
        pos = if end < record.len() {
            end + 1
        } else {
            end
        };
    }
    assert(record@.skip(pos as int).len() == 0);
    match seen {
        Some(t) => Ok((Pid::from(t), Pid::from(t))),
        None => Err(Error::NotFound),
    }
}

} // verus!
