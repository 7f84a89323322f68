//! The interleaved layout and the bounds policy: a read past the end of a
//! buffer yields a fallback value, a write past the end is dropped.
use vstd::prelude::*;

verus! {

/// Number of whole agents (x, y pairs) in a buffer of `len` scalars.
pub open spec fn agent_count(len: nat) -> nat {
    len / 2
}

/// Element `i` of `s`, or `fallback` where `i` lies past the end.
pub open spec fn value_or<T>(s: Seq<T>, i: int, fallback: T) -> T {
    if 0 <= i < s.len() {
        s[i]
    } else {
        fallback
    }
}

/// The pair of agent `i`, each component read with the fallback.
pub open spec fn pair_or<T>(s: Seq<T>, i: int, fallback: T) -> (T, T) {
    (value_or(s, 2 * i, fallback), value_or(s, 2 * i + 1, fallback))
}

/// `s` with element `i` replaced by `v`, or `s` itself where `i` lies past
/// the end.
pub open spec fn written<T>(s: Seq<T>, i: int, v: T) -> Seq<T> {
    if 0 <= i < s.len() {
        s.update(i, v)
    } else {
        s
    }
}

/// Reads element `i` of `buf`, or `fallback` where `i` lies past the end.
pub fn read_or<T: Copy>(buf: &[T], i: usize, fallback: T) -> (r: T)
    ensures
        r == value_or(buf@, i as int, fallback),
{
    if i < buf.len() {
        buf[i]
    } else {
        fallback
    }
}

/// Writes `v` at index `i` of `buf`; does nothing where `i` lies past the end.
pub fn write_if_present<T>(buf: &mut [T], i: usize, v: T)
    ensures
        final(buf)@ == written(old(buf)@, i as int, v),
{
    if i < buf.len() {
        buf[i] = v;
    }
}


/// A coordinate axis of the interleaved layout.
#[derive(Clone, Copy, Debug, PartialEq, Eq, Structural)]
pub enum Axis {
    X,
    Y,
}

/// The axis of element `k`: even elements are X, odd elements are Y.
pub open spec fn axis_of(k: int) -> Axis {
    if k % 2 == 0 {
        Axis::X
    } else {
        Axis::Y
    }
}

} // verus!
