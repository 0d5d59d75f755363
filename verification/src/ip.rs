//! Addresses of the Internet Protocol, and how they are written.

use crate::text::{decimal, hexadecimal, push_numeral};
use vstd::prelude::*;

verus! {

/// An address of the Internet Protocol.
///
/// Addresses of version 4 come before those of version 6; within a version the order is that of
/// the numbers, the highest place first.
#[derive(Clone, Copy, Debug, PartialEq, Eq, PartialOrd, Ord)]
pub enum IpAddr {
    /// The four bytes of an address of version 4.
    V4([u8; 4]),
    /// The eight groups of 16 bits of an address of version 6.
    V6([u16; 8]),
}

/// An address of version 4: its four bytes in decimal, with dots between them.
pub open spec fn v4_text(a: nat, b: nat, c: nat, d: nat) -> Seq<char> {
    decimal(a) + "."@ + decimal(b) + "."@ + decimal(c) + "."@ + decimal(d)
}

/// The groups from `from` up to `to` in hexadecimal, with colons between them.
pub open spec fn groups_text(groups: Seq<u16>, from: int, to: int) -> Seq<char>
    decreases to - from,
{
    if from >= to {
        seq![]
    } else if from + 1 == to {
        hexadecimal(groups[from] as nat)
    } else {
        groups_text(groups, from, to - 1) + ":"@ + hexadecimal(groups[to - 1] as nat)
    }
}

/// How many groups in a row are zero from `i` on.
pub open spec fn zeros_at(groups: Seq<u16>, i: int) -> nat
    decreases groups.len() - i,
{
    if 0 <= i < groups.len() && groups[i] == 0 {
        1 + zeros_at(groups, i + 1)
    } else {
        0
    }
}

/// Where, of the first `n` places, most groups in a row are zero: the first such place.
pub open spec fn most_zeros(groups: Seq<u16>, n: nat) -> int
    decreases n,
{
    if n <= 1 {
        0
    } else {
        let before = most_zeros(groups, (n - 1) as nat);
        if zeros_at(groups, n - 1) > zeros_at(groups, before) {
            n - 1
        } else {
            before
        }
    }
}

/// Whether the address is one of version 4 in the guise of version 6.
pub open spec fn is_v4_mapped(groups: Seq<u16>) -> bool {
    &&& groups[0] == 0 && groups[1] == 0 && groups[2] == 0 && groups[3] == 0 && groups[4] == 0
    &&& groups[5] == 0xffff
}

/// An address of version 6 in the style of RFC 5952.
///
/// The groups are in hexadecimal, with colons between them. Where two or more groups in a row are
/// zero, two colons stand for the longest such row, and for the first one if there are several. In
/// an address of version 4 in the guise of version 6 the last two groups are written as version 4
/// does.
pub open spec fn v6_text(groups: Seq<u16>) -> Seq<char> {
    if is_v4_mapped(groups) {
        "::ffff:"@ + v4_text(
            groups[6] as nat / 256,
            groups[6] as nat % 256,
            groups[7] as nat / 256,
            groups[7] as nat % 256,
        )
    } else {
        let start = most_zeros(groups, 8);
        let zeros = zeros_at(groups, start);
        if zeros > 1 {
            groups_text(groups, 0, start) + "::"@ + groups_text(groups, start + zeros, 8)
        } else {
            groups_text(groups, 0, 8)
        }
    }
}

fn push_v4(text: &mut String, a: u64, b: u64, c: u64, d: u64)
    ensures
        final(text)@ == old(text)@ + v4_text(a as nat, b as nat, c as nat, d as nat),
{
    push_numeral(text, a, 10);
    text.append(".");
    push_numeral(text, b, 10);
    text.append(".");
    push_numeral(text, c, 10);
    text.append(".");
    push_numeral(text, d, 10);
    assert(text@ =~= old(text)@ + v4_text(a as nat, b as nat, c as nat, d as nat));
}

fn push_groups(text: &mut String, groups: &[u16; 8], from: usize, to: usize)
    requires
        from <= to <= 8,
    ensures
        final(text)@ == old(text)@ + groups_text(groups@, from as int, to as int),
{
    let mut i: usize = from;
    assert(text@ =~= old(text)@ + groups_text(groups@, from as int, from as int));
    while i < to
        invariant
            from <= i <= to <= 8,
            text@ == old(text)@ + groups_text(groups@, from as int, i as int),
        decreases to - i,
    {
        if i > from {
            text.append(":");
        }
        push_numeral(text, groups[i] as u64, 16);
        i = i + 1;
        assert(text@ =~= old(text)@ + groups_text(groups@, from as int, i as int));
    }
}

fn count_zeros(groups: &[u16; 8], start: usize) -> (r: usize)
    requires
        start <= 8,
    ensures
        r == zeros_at(groups@, start as int),
        start + r <= 8,
    decreases 8 - start,
{
    if start < 8 && groups[start] == 0 {
        1 + count_zeros(groups, start + 1)
    } else {
        0
    }
}

fn push_v6(text: &mut String, groups: &[u16; 8])
    ensures
        final(text)@ == old(text)@ + v6_text(groups@),
{
    if groups[0] == 0 && groups[1] == 0 && groups[2] == 0 && groups[3] == 0 && groups[4] == 0
        && groups[5] == 0xffff {
        text.append("::ffff:");
        let g: u64 = groups[6] as u64;
        let h: u64 = groups[7] as u64;
        push_v4(text, g / 256, g % 256, h / 256, h % 256);
    } else {
        let mut start: usize = 0;
        let mut zeros: usize = count_zeros(groups, 0);
        let mut i: usize = 1;
        while i < 8
            invariant
                1 <= i <= 8,
                start == most_zeros(groups@, i as nat),
                start < i,
                zeros == zeros_at(groups@, start as int),
                start + zeros <= 8,
            decreases 8 - i,
        {
            let n: usize = count_zeros(groups, i);
            if n > zeros {
                start = i;
                zeros = n;
            }
            i = i + 1;
        }
        if zeros > 1 {
            push_groups(text, groups, 0, start);
            text.append("::");
            push_groups(text, groups, start + zeros, 8);
        } else {
            push_groups(text, groups, 0, 8);
        }
    }
    assert(text@ =~= old(text)@ + v6_text(groups@));
}

impl IpAddr {
    /// The address as it is written.
    pub open spec fn text(&self) -> Seq<char> {
        match *self {
            IpAddr::V4(b) => v4_text(b@[0] as nat, b@[1] as nat, b@[2] as nat, b@[3] as nat),
            IpAddr::V6(groups) => v6_text(groups@),
        }
    }

    /// Writes the address.
    pub fn to_string(&self) -> (r: String)
        ensures
            r@ == self.text(),
    {
        let mut text = String::new();
        match self {
            IpAddr::V4(b) => {
                push_v4(&mut text, b[0] as u64, b[1] as u64, b[2] as u64, b[3] as u64);
            },
            IpAddr::V6(groups) => {
                push_v6(&mut text, groups);
            },
        }
        assert(text@ =~= self.text());
        text
    }
}

/// Two colons stand for the longest row of groups that are zero, and for the first such row: the
/// row is all zero, no other row is longer, and none before it is as long.
pub proof fn law_longest_row(groups: Seq<u16>, n: nat)
    requires
        groups.len() == n,
        n > 0,
    ensures
        0 <= most_zeros(groups, n) < n,
        forall|i: int| #![trigger zeros_at(groups, i)]
            0 <= i < n ==> zeros_at(groups, i) <= zeros_at(groups, most_zeros(groups, n)),
        forall|i: int| #![trigger zeros_at(groups, i)]
            0 <= i < most_zeros(groups, n) ==> zeros_at(groups, i) < zeros_at(
                groups,
                most_zeros(groups, n),
            ),
        forall|k: int|
            most_zeros(groups, n) <= k < most_zeros(groups, n) + zeros_at(
                groups,
                most_zeros(groups, n),
            ) ==> #[trigger] groups[k] == 0,
{
    lemma_most_zeros(groups, n);
    lemma_all_zero(groups, most_zeros(groups, n));
}

proof fn lemma_most_zeros(groups: Seq<u16>, n: nat)
    requires
        0 < n <= groups.len(),
    ensures
        0 <= most_zeros(groups, n) < n,
        forall|i: int| #![trigger zeros_at(groups, i)]
            0 <= i < n ==> zeros_at(groups, i) <= zeros_at(groups, most_zeros(groups, n)),
        forall|i: int| #![trigger zeros_at(groups, i)]
            0 <= i < most_zeros(groups, n) ==> zeros_at(groups, i) < zeros_at(
                groups,
                most_zeros(groups, n),
            ),
    decreases n,
{
    if n > 1 {
        lemma_most_zeros(groups, (n - 1) as nat);
    }
}

proof fn lemma_all_zero(groups: Seq<u16>, i: int)
    requires
        0 <= i,
    ensures
        forall|k: int| i <= k < i + zeros_at(groups, i) ==> #[trigger] groups[k] == 0,
    decreases groups.len() - i,
{
    if i < groups.len() && groups[i] == 0 {
        lemma_all_zero(groups, i + 1);
    }
}

/// How an address of version 4 is written.
pub proof fn law_v4(bytes: [u8; 4])
    ensures
        IpAddr::V4(bytes).text() == decimal(bytes@[0] as nat) + "."@ + decimal(bytes@[1] as nat)
            + "."@ + decimal(bytes@[2] as nat) + "."@ + decimal(bytes@[3] as nat),
{
}

/// How groups are written: each in hexadecimal, with a colon before each but the first.
pub proof fn law_groups(groups: Seq<u16>, from: int, to: int)
    requires
        0 <= from <= to <= groups.len(),
    ensures
        groups_text(groups, from, from) == Seq::<char>::empty(),
        from < groups.len() ==> groups_text(groups, from, from + 1) == hexadecimal(
            groups[from] as nat,
        ),
        from < to < groups.len() ==> groups_text(groups, from, to + 1) == groups_text(groups, from, to) + ":"@
            + hexadecimal(groups[to] as nat),
{
}

/// How an address of version 4 in the guise of version 6 is written.
pub proof fn law_v4_mapped(groups: [u16; 8])
    requires
        forall|i: int| 0 <= i < 5 ==> #[trigger] groups@[i] == 0,
        groups@[5] == 0xffff,
    ensures
        IpAddr::V6(groups).text() == "::ffff:"@ + (decimal(groups@[6] as nat / 256) + "."@ + decimal(
            groups@[6] as nat % 256,
        ) + "."@ + decimal(groups@[7] as nat / 256) + "."@ + decimal(groups@[7] as nat % 256)),
{
    assert(groups@[0] == 0 && groups@[1] == 0 && groups@[2] == 0 && groups@[3] == 0 && groups@[4]
        == 0);
}

/// Whether `n` groups in a row are zero from `i` on.
pub open spec fn is_zero_row(groups: Seq<u16>, i: int, n: int) -> bool {
    &&& 0 <= i
    &&& 0 <= n
    &&& i + n <= groups.len()
    &&& forall|k: int| i <= k < i + n ==> #[trigger] groups[k] == 0
}

/// How an address of version 6 with a row of groups that are zero is written: two colons stand for
/// the longest row of two or more, and for the first one of several.
pub proof fn law_v6_shortened(groups: [u16; 8], start: int, n: int)
    requires
        !(groups@[0] == 0 && groups@[1] == 0 && groups@[2] == 0 && groups@[3] == 0 && groups@[4]
            == 0 && groups@[5] == 0xffff),
        n >= 2,
        is_zero_row(groups@, start, n),
        forall|i: int, m: int| #[trigger] is_zero_row(groups@, i, m) ==> m <= n,
        forall|i: int, m: int| #[trigger] is_zero_row(groups@, i, m) && i < start ==> m < n,
    ensures
        IpAddr::V6(groups).text() == groups_text(groups@, 0, start) + "::"@ + groups_text(
            groups@,
            start + n,
            8,
        ),
{
    let found = most_zeros(groups@, 8);
    law_longest_row(groups@, 8);
    lemma_row_of_zeros(groups@, found);
    lemma_row_of_zeros(groups@, start);
    lemma_zeros_of_row(groups@, start, n);
    assert(zeros_at(groups@, start) <= zeros_at(groups@, found));
}

/// How an address of version 6 without two groups in a row that are zero is written: in full.
pub proof fn law_v6_in_full(groups: [u16; 8])
    requires
        forall|i: int| 0 <= i < 7 ==> #[trigger] groups@[i] != 0 || groups@[i + 1] != 0,
    ensures
        IpAddr::V6(groups).text() == groups_text(groups@, 0, 8),
{
    let found = most_zeros(groups@, 8);
    law_longest_row(groups@, 8);
    lemma_row_of_zeros(groups@, found);
    assert(groups@[0] != 0 || groups@[1] != 0);
    if zeros_at(groups@, found) > 1 {
        assert(groups@[found] == 0);
        assert(groups@[found + 1] == 0);
    }
}

proof fn lemma_row_of_zeros(groups: Seq<u16>, i: int)
    requires
        0 <= i <= groups.len(),
    ensures
        is_zero_row(groups, i, zeros_at(groups, i) as int),
    decreases groups.len() - i,
{
    lemma_all_zero(groups, i);
    if i < groups.len() && groups[i] == 0 {
        lemma_row_of_zeros(groups, i + 1);
    }
}

proof fn lemma_zeros_of_row(groups: Seq<u16>, i: int, n: int)
    requires
        is_zero_row(groups, i, n),
    ensures
        zeros_at(groups, i) >= n,
    decreases n,
{
    if n > 0 {
        assert(groups[i] == 0);
        assert(is_zero_row(groups, i + 1, n - 1));
        lemma_zeros_of_row(groups, i + 1, n - 1);
    }
}

} // verus!
