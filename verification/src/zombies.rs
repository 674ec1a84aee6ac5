//! Reaping stray descendants: parsing the child-process listing.
//!
//! The reaper periodically lists the supervisor's direct children and
//! performs a non-blocking wait on each, so short-lived helper processes
//! some backends spawn never accumulate as zombies. The listing arrives
//! as text, one process id per line; this module parses it.

use vstd::prelude::*;

use vstd::string::StrSliceExecFns;

verus! {

/// Whether `c` is a decimal digit.
pub open spec fn spec_is_digit(c: char) -> bool {
    '0' <= c && c <= '9'
}

/// Numeric value of a digit sequence, most significant digit first.
pub open spec fn spec_digits_value(s: Seq<char>) -> int
    decreases s.len(),
{
    if s.len() == 0 {
        0
    } else {
        spec_digits_value(s.drop_last()) * 10 + (s.last() as u32 - '0' as u32)
    }
}

/// The digit body of a line: everything after an optional leading plus
/// sign.
pub open spec fn spec_line_body(s: Seq<char>) -> Seq<char> {
    if s.len() > 0 && s[0] == '+' {
        s.drop_first()
    } else {
        s
    }
}

/// Whether a line parses as a process id: an optional plus sign, then
/// one or more digits, with a value that fits the id type.
pub open spec fn spec_is_pid_line(s: Seq<char>) -> bool {
    let body = spec_line_body(s);
    body.len() > 0 && (forall|i: int| 0 <= i < body.len() ==> spec_is_digit(#[trigger] body[i]))
        && spec_digits_value(body) <= u32::MAX
}

/// Index of the first newline in `s`, or its length if there is none.
pub open spec fn spec_line_split(s: Seq<char>) -> int
    decreases s.len(),
{
    if s.len() == 0 {
        0
    } else if s[0] == '\n' {
        0
    } else {
        1 + spec_line_split(s.drop_first())
    }
}

pub proof fn lemma_line_split_bounds(s: Seq<char>)
    ensures
        0 <= spec_line_split(s) <= s.len(),
    decreases s.len(),
{
    if s.len() > 0 && s[0] != '\n' {
        lemma_line_split_bounds(s.drop_first());
    }
}

/// `spec_line_split` is determined by the characters: it is the position
/// of the first newline.
pub proof fn lemma_line_split_at(s: Seq<char>, m: int)
    requires
        0 <= m <= s.len(),
        forall|k: int| 0 <= k < m ==> s[k] != '\n',
        m < s.len() ==> s[m] == '\n',
    ensures
        spec_line_split(s) == m,
    decreases s.len(),
{
    if s.len() > 0 && s[0] != '\n' {
        assert(forall|k: int| 0 <= k < m - 1 ==> s.drop_first()[k] == s[k + 1]);
        lemma_line_split_at(s.drop_first(), m - 1);
    }
}

/// The process ids on the parsable lines of `s`, in order; lines are
/// separated by newline characters, and a line that does not parse is
/// dropped.
pub open spec fn spec_parse_pids(s: Seq<char>) -> Seq<u32>
    decreases s.len(),
    when true
    via spec_parse_pids_dec
{
    let e = spec_line_split(s);
    let line = s.take(e);
    let first: Seq<u32> = if spec_is_pid_line(line) {
        seq![spec_digits_value(spec_line_body(line)) as u32]
    } else {
        Seq::empty()
    };
    if e < s.len() {
        first + spec_parse_pids(s.skip(e + 1))
    } else {
        first
    }
}

#[via_fn]
proof fn spec_parse_pids_dec(s: Seq<char>) {
    lemma_line_split_bounds(s);
}

/// A digit sequence's value is never negative.
proof fn lemma_digits_value_nonneg(s: Seq<char>)
    requires
        forall|i: int| 0 <= i < s.len() ==> spec_is_digit(#[trigger] s[i]),
    ensures
        spec_digits_value(s) >= 0,
    decreases s.len(),
{
    if s.len() > 0 {
        lemma_digits_value_nonneg(s.drop_last());
    }
}

/// A digit sequence's value only grows as digits are appended.
proof fn lemma_digits_value_monotonic(s: Seq<char>, k: int)
    requires
        0 <= k <= s.len(),
        forall|i: int| 0 <= i < s.len() ==> spec_is_digit(#[trigger] s[i]),
    ensures
        spec_digits_value(s) >= spec_digits_value(s.take(k)),
    decreases s.len(),
{
    if k < s.len() {
        assert(s.take(s.len() as int - 1) =~= s.drop_last());
        lemma_digits_value_monotonic(s.drop_last(), k);
        assert(s.drop_last().take(k) =~= s.take(k));
        lemma_digits_value_nonneg(s.drop_last());
    } else {
        assert(s.take(k) =~= s);
    }
}

/// Parses the characters `start .. end` of `s` as one process-id line.
fn parse_pid_line(s: &str, start: usize, end: usize) -> (r: Option<u32>)
    requires
        start <= end <= s@.len(),
    ensures
        r is Some <==> spec_is_pid_line(s@.subrange(start as int, end as int)),
        r matches Some(v) ==> v == spec_digits_value(
            spec_line_body(s@.subrange(start as int, end as int)),
        ),
{
    let ghost sub = s@.subrange(start as int, end as int);
    let mut i: usize = start;
    if i < end && s.get_char(i) == '+' {
        i = i + 1;
    }
    let ghost bo = i as int;
    proof {
        assert(spec_line_body(sub) =~= s@.subrange(bo, end as int));
    }
    let ghost body = spec_line_body(sub);
    if i == end {
        return None;
    }
    let mut acc: u64 = 0;
    while i < end
        invariant
            start <= bo <= i <= end <= s@.len(),
            body == s@.subrange(bo, end as int),
            body == spec_line_body(s@.subrange(start as int, end as int)),
            bo < end,
            forall|k: int| 0 <= k < i - bo ==> spec_is_digit(#[trigger] body[k]),
            acc == spec_digits_value(body.take(i - bo)),
            acc <= u32::MAX,
        decreases end - i,
    {
        let c = s.get_char(i);
        let d = c as u32;
        proof {
            assert(body[i - bo] == s@[i as int]);
            assert(body.take(i - bo + 1).drop_last() =~= body.take(i - bo));
            assert(body.take(i - bo + 1).last() == body[i - bo]);
        }
        if d < 48 || d > 57 {
            proof {
                assert(!spec_is_digit(body[i - bo]));
            }
            return None;
        }
        let step: u64 = acc * 10 + (d - 48) as u64;
        if step > u32::MAX as u64 {
            proof {
                if spec_is_pid_line(s@.subrange(start as int, end as int)) {
                    lemma_digits_value_monotonic(body, i - bo + 1);
                    assert(spec_digits_value(body.take(i - bo + 1)) == step);
                    assert(false);
                }
            }
            return None;
        }
        acc = step;
        i = i + 1;
    }
    proof {
        assert(body.take(end - bo) =~= body);
        assert(body.len() > 0);
    }
    Some(acc as u32)
}

/// Parses the child-process listing: one process id per line, an
/// optional plus sign allowed, unparsable lines dropped.
pub fn parse_child_pids(s: &str) -> (r: Vec<u32>)
    ensures
        r@ == spec_parse_pids(s@),
{
    let n = s.unicode_len();
    let mut r: Vec<u32> = Vec::new();
    let mut start: usize = 0;
    proof {
        assert(s@.skip(0) =~= s@);
    }
    while start < n
        invariant
            start <= n == s@.len(),
            r@ + spec_parse_pids(s@.skip(start as int)) == spec_parse_pids(s@),
        decreases n - start,
    {
        let ghost rest = s@.skip(start as int);
        let mut end: usize = start;
        while end < n && s.get_char(end) != '\n'
            invariant
                start <= end <= n == s@.len(),
                forall|k: int| start <= k < end ==> s@[k] != '\n',
            decreases n - end,
        {
            end = end + 1;
        }
        proof {
            assert(forall|k: int| 0 <= k < end - start ==> rest[k] == s@[k + start]);
            assert(end < n ==> rest[end - start] == s@[end as int]);
            lemma_line_split_at(rest, end - start);
            assert(rest.take(end - start) =~= s@.subrange(start as int, end as int));
        }
        match parse_pid_line(s, start, end) {
            Some(v) => {
                r.push(v);
            },
            None => {},
        }
        proof {
            if end < n {
                assert(rest.skip(end - start + 1) =~= s@.skip(end + 1));
            }
        }
        if end < n {
            start = end + 1;
        } else {
            start = n;
        }
    }
    proof {
        assert(s@.skip(n as int) =~= Seq::<char>::empty());
        assert(spec_parse_pids(s@.skip(n as int)) =~= Seq::<u32>::empty());
        assert(r@ =~= spec_parse_pids(s@));
    }
    r
}

} // verus!
