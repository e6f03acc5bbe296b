//! HTML escaping of passwords.
//!
//! Two escape tables exist: the one of 4chan, which escapes `"`, `&`,
//! `<` and `>`, and the one of 2channel, which escapes the same
//! characters except `&`.  The derivation schemes work on the escaped
//! byte stream, and an entity is never split: a consumer that needs
//! only a prefix still takes every byte of the last entity it touches.

use vstd::prelude::*;

verus! {

/// The escaped form of one byte: its HTML entity when the table
/// escapes it (`amp` selects the table that escapes `&`), the byte
/// itself otherwise.
pub open spec fn spec_escape_byte(c: u8, amp: bool) -> Seq<u8> {
    if c == 0x22 {
        seq![0x26u8, 0x71u8, 0x75u8, 0x6Fu8, 0x74u8, 0x3Bu8]
    } else if c == 0x26 && amp {
        seq![0x26u8, 0x61u8, 0x6Du8, 0x70u8, 0x3Bu8]
    } else if c == 0x3C {
        seq![0x26u8, 0x6Cu8, 0x74u8, 0x3Bu8]
    } else if c == 0x3E {
        seq![0x26u8, 0x67u8, 0x74u8, 0x3Bu8]
    } else {
        seq![c]
    }
}

/// The escaped byte stream of a password.
pub open spec fn spec_escaped(p: Seq<u8>, amp: bool) -> Seq<u8>
    decreases p.len(),
{
    if p.len() == 0 {
        Seq::empty()
    } else {
        spec_escape_byte(p[0], amp) + spec_escaped(p.drop_first(), amp)
    }
}

/// Escaping distributes over concatenation.
pub proof fn lemma_escaped_concat(a: Seq<u8>, b: Seq<u8>, amp: bool)
    ensures
        spec_escaped(a + b, amp) == spec_escaped(a, amp) + spec_escaped(b, amp),
    decreases a.len(),
{
    if a.len() == 0 {
        assert(a + b =~= b);
        assert(spec_escaped(a, amp) + spec_escaped(b, amp) =~= spec_escaped(b, amp));
    } else {
        assert((a + b).drop_first() =~= a.drop_first() + b);
        lemma_escaped_concat(a.drop_first(), b, amp);
        assert(spec_escaped(a + b, amp) =~= spec_escaped(a, amp) + spec_escaped(b, amp));
    }
}

/// Escaping one more byte appends that byte's escaped form.
proof fn lemma_escaped_step(p: Seq<u8>, i: int, amp: bool)
    requires
        0 <= i < p.len(),
    ensures
        spec_escaped(p.take(i + 1), amp) == spec_escaped(p.take(i), amp) + spec_escape_byte(
            p[i],
            amp,
        ),
{
    assert(p.take(i + 1) =~= p.take(i) + seq![p[i]]);
    lemma_escaped_concat(p.take(i), seq![p[i]], amp);
    let s = seq![p[i]];
    assert(s.drop_first() =~= Seq::<u8>::empty());
    assert(spec_escaped(s, amp) == spec_escape_byte(p[i], amp) + spec_escaped(
        Seq::<u8>::empty(),
        amp,
    ));
    assert(spec_escaped(s, amp) =~= spec_escape_byte(p[i], amp));
}

/// A prefix of the input escapes to a prefix of the escaped stream.
proof fn lemma_escaped_prefix(p: Seq<u8>, i: int, amp: bool)
    requires
        0 <= i <= p.len(),
    ensures
        spec_escaped(p, amp) == spec_escaped(p.take(i), amp) + spec_escaped(p.skip(i), amp),
{
    assert(p =~= p.take(i) + p.skip(i));
    lemma_escaped_concat(p.take(i), p.skip(i), amp);
}

/// Appends the escaped form of `c` to `v`.
fn push_escape_byte(v: &mut Vec<u8>, c: u8, amp: bool)
    ensures
        final(v)@ == old(v)@ + spec_escape_byte(c, amp),
{
    if c == 0x22 {
        v.push(0x26);
        v.push(0x71);
        v.push(0x75);
        v.push(0x6F);
        v.push(0x74);
        v.push(0x3B);
    } else if c == 0x26 && amp {
        v.push(0x26);
        v.push(0x61);
        v.push(0x6D);
        v.push(0x70);
        v.push(0x3B);
    } else if c == 0x3C {
        v.push(0x26);
        v.push(0x6C);
        v.push(0x74);
        v.push(0x3B);
    } else if c == 0x3E {
        v.push(0x26);
        v.push(0x67);
        v.push(0x74);
        v.push(0x3B);
    } else {
        v.push(c);
    }
    assert(v@ =~= old(v)@ + spec_escape_byte(c, amp));
}

/// Computes the escaped stream of `password`, stopping after the first
/// entity or byte that brings it to 8 bytes or more.  The result is
/// always a prefix of the full escaped stream, and is the whole of it
/// whenever it is shorter than 8 bytes.
pub fn escaped_prefix(password: &[u8], amp: bool) -> (v: Vec<u8>)
    ensures
        v@.len() <= spec_escaped(password@, amp).len(),
        v@ == spec_escaped(password@, amp).take(v@.len() as int),
        v@.len() >= 8 || v@ == spec_escaped(password@, amp),
{
    let mut v: Vec<u8> = Vec::new();
    let n = password.len();
    let mut i: usize = 0;
    while i < n && v.len() < 8
        invariant
            n == password@.len(),
            i <= n,
            v@ == spec_escaped(password@.take(i as int), amp),
        decreases n - i,
    {
        push_escape_byte(&mut v, password[i], amp);
        proof {
            lemma_escaped_step(password@, i as int, amp);
        }
        i = i + 1;
    }
    proof {
        lemma_escaped_prefix(password@, i as int, amp);
        if i == n {
            assert(password@.take(i as int) =~= password@);
        }
        assert(v@ =~= spec_escaped(password@, amp).take(v@.len() as int));
    }
    v
}

/// Computes the whole escaped stream of `password`.
pub fn escaped_full(password: &[u8], amp: bool) -> (v: Vec<u8>)
    ensures
        v@ == spec_escaped(password@, amp),
{
    let mut v: Vec<u8> = Vec::new();
    let n = password.len();
    for i in 0..n
        invariant
            n == password@.len(),
            v@ == spec_escaped(password@.take(i as int), amp),
    {
        push_escape_byte(&mut v, password[i], amp);
        proof {
            lemma_escaped_step(password@, i as int, amp);
        }
    }
    proof {
        assert(password@.take(n as int) =~= password@);
    }
    v
}

fn escape_len(c: u8, amp: bool) -> (r: usize)
    ensures
        r == spec_escape_byte(c, amp).len(),
{
    if c == 0x22 {
        6
    } else if c == 0x26 && amp {
        5
    } else if c == 0x3C || c == 0x3E {
        4
    } else {
        1
    }
}

/// Decides whether the escaped stream of `password` is at least `n`
/// bytes long, without materializing it.
pub(crate) fn escaped_len_at_least(password: &[u8], amp: bool, n: usize) -> (r: bool)
    requires
        n <= 64,
    ensures
        r == (spec_escaped(password@, amp).len() >= n),
{
    let len = password.len();
    let mut sum: usize = 0;
    let mut i: usize = 0;
    while i < len && sum < n
        invariant
            len == password@.len(),
            i <= len,
            sum == spec_escaped(password@.take(i as int), amp).len(),
            n <= 64,
            sum <= n + 5,
        decreases len - i,
    {
        proof {
            lemma_escaped_step(password@, i as int, amp);
        }
        sum = sum + escape_len(password[i], amp);
        i = i + 1;
    }
    proof {
        lemma_escaped_prefix(password@, i as int, amp);
        if i == len {
            assert(password@.take(i as int) =~= password@);
        }
    }
    sum >= n
}

} // verus!
