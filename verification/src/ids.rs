//! Ids that do not repeat.

use crate::text::{self, push_decimal};
use vstd::prelude::*;
use vstd::string::*;

verus! {

/// A counter that hands out each number once, and starts over after the
/// last.
pub struct Sequence {
    next: u64,
}

impl View for Sequence {
    type V = u64;

    closed spec fn view(&self) -> u64 {
        self.next
    }
}

/// The number after `n`.
pub open spec fn successor(n: u64) -> u64 {
    if n == u64::MAX {
        0
    } else {
        (n + 1) as u64
    }
}

impl Sequence {
    /// A counter that starts at zero.
    pub fn new() -> (sequence: Sequence)
        ensures
            sequence@ == 0,
    {
        Sequence { next: 0 }
    }

    /// Hands out the next number.
    pub fn next_seq(&mut self) -> (n: u64)
        ensures
            n == old(self)@,
            final(self)@ == successor(old(self)@),
    {
        let n: u64 = self.next;
        self.next = n.wrapping_add(1);
        n
    }
}

/// An id made of a prefix, a time and a number.
pub open spec fn stamped_id(prefix: Seq<char>, millis: u64, n: u64) -> Seq<char> {
    prefix + "-"@ + text::decimal(millis as nat) + "-"@ + text::decimal(n as nat)
}

/// Writes out an id made of a prefix, a time and a number.
pub fn stamp(prefix: &str, millis: u64, n: u64) -> (id: String)
    ensures
        id@ == stamped_id(prefix@, millis, n),
{
    let mut id = String::from_str(prefix);
    id.append("-");
    push_decimal(&mut id, millis);
    id.append("-");
    push_decimal(&mut id, n);
    id
}

/// The id for a new request: its kind, the time of day in milliseconds, and
/// the next number of the sequence.
pub fn next_request_id(sequence: &mut Sequence, prefix: &str, unix_millis: u64) -> (id: String)
    ensures
        id@ == stamped_id(prefix@, unix_millis, old(sequence)@),
        final(sequence)@ == successor(old(sequence)@),
{
    let n: u64 = sequence.next_seq();
    stamp(prefix, unix_millis, n)
}

/// No number has a dash in it.
proof fn decimal_has_no_dash(n: nat)
    ensures
        forall|i: int| 0 <= i < text::decimal(n).len() ==> #[trigger] text::decimal(n)[i] != '-',
        text::decimal(n).len() >= 1,
    decreases n,
{
    if n >= 10 {
        decimal_has_no_dash(n / 10);
    }
}

/// Different numbers are written differently.
proof fn decimal_is_faithful(a: nat, b: nat)
    requires
        text::decimal(a) == text::decimal(b),
    ensures
        a == b,
    decreases a,
{
    decimal_has_no_dash(a / 10);
    decimal_has_no_dash(b / 10);
    assert(text::decimal(a).last() == text::digit(a % 10) && text::decimal(b).last() == text::digit(b % 10));
    assert(text::digit(a % 10) as int == 48 + a % 10 && text::digit(b % 10) as int == 48 + b % 10);
    if a >= 10 && b >= 10 {
        assert(text::decimal(a).drop_last() =~= text::decimal(a / 10));
        assert(text::decimal(b).drop_last() =~= text::decimal(b / 10));
        decimal_is_faithful(a / 10, b / 10);
    } else if a >= 10 {
        assert(text::decimal(a).len() >= 2 && text::decimal(b).len() == 1);
    } else if b >= 10 {
        assert(text::decimal(b).len() >= 2 && text::decimal(a).len() == 1);
    }
}

/// Ids are unique: two that were stamped with different numbers differ,
/// whatever their prefixes and times, and so do two with one prefix that were
/// stamped at different times.
pub proof fn stamped_ids_differ(p1: Seq<char>, t1: u64, n1: u64, p2: Seq<char>, t2: u64, n2: u64)
    requires
        n1 != n2 || (p1 == p2 && t1 != t2),
    ensures
        stamped_id(p1, t1, n1) != stamped_id(p2, t2, n2),
{
    reveal_strlit("-");
    let dash = "-"@;
    assert(dash =~= seq!['-']);
    let a = stamped_id(p1, t1, n1);
    let b = stamped_id(p2, t2, n2);
    if a == b {
        let (x1, y1) = (text::decimal(t1 as nat), text::decimal(n1 as nat));
        let (x2, y2) = (text::decimal(t2 as nat), text::decimal(n2 as nat));
        decimal_has_no_dash(n1 as nat);
        decimal_has_no_dash(n2 as nat);
        // The last dash stands before the number.
        let end = a.len() as int;
        assert(a[end - y1.len() - 1] == '-' && b[end - y2.len() - 1] == '-');
        if y1.len() < y2.len() {
            assert(b[end - y1.len() - 1] == y2[y2.len() - y1.len() - 1]);
        }
        if y2.len() < y1.len() {
            assert(a[end - y2.len() - 1] == y1[y1.len() - y2.len() - 1]);
        }
        assert(a.skip(end - y1.len()) =~= y1 && b.skip(end - y2.len()) =~= y2);
        decimal_is_faithful(n1 as nat, n2 as nat);
        if p1 == p2 {
            let start = p1.len() as int + 1;
            assert(a.subrange(start, end - y1.len() - 1) =~= x1);
            assert(b.subrange(start, end - y2.len() - 1) =~= x2);
            decimal_is_faithful(t1 as nat, t2 as nat);
        }
    }
}

/// A sequence does not repeat itself before it has handed out every number:
/// of the numbers that it hands out from `n` on, two that are fewer than 2^64
/// draws apart differ.
pub proof fn sequence_does_not_repeat(n: u64, j: nat, k: nat)
    requires
        j < k,
        k - j <= u64::MAX,
    ensures
        nth_successor(n, j) != nth_successor(n, k),
{
    nth_successor_is_sum(n, j);
    nth_successor_is_sum(n, k);
}

/// The number handed out `k` draws after `n`.
pub open spec fn nth_successor(n: u64, k: nat) -> u64
    decreases k,
{
    if k == 0 {
        n
    } else {
        successor(nth_successor(n, (k - 1) as nat))
    }
}

proof fn nth_successor_is_sum(n: u64, k: nat)
    ensures
        nth_successor(n, k) == (n + k) % 0x1_0000_0000_0000_0000,
    decreases k,
{
    if k > 0 {
        nth_successor_is_sum(n, (k - 1) as nat);
    }
}

} // verus!
