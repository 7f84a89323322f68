//! Batch kernels over interleaved buffers. Each kernel fixes which elements
//! it reads and writes; the arithmetic for one agent (or one scalar) is the
//! closure it is given. No kernel indexes past a buffer's end: missing input
//! components read as a fallback, missing output components are skipped, and
//! whatever lies past the processed prefix is left as it was.
use crate::layout::{agent_count, axis_of, pair_or, read_or, write_if_present, Axis};
use vstd::prelude::*;

verus! {

/// The `(x, y)` pair of agent `i`.
pub open spec fn pair_at<T>(s: Seq<T>, i: int) -> (T, T) {
    (s[2 * i], s[2 * i + 1])
}

/// One integration step of agent `i` with new velocity `nv`: `step` mapped
/// the agent's old position, velocity and acceleration (missing components
/// read as `zero`) to `nv` and the agent's new position, and every velocity
/// component of the agent that exists holds `nv`.
pub open spec fn stepped_with<T, F: Fn((T, T), (T, T), (T, T)) -> ((T, T), (T, T))>(
    step: F,
    p0: Seq<T>,
    v0: Seq<T>,
    a: Seq<T>,
    zero: T,
    p1: Seq<T>,
    v1: Seq<T>,
    i: int,
    nv: (T, T),
) -> bool {
    &&& call_ensures(
        step,
        (pair_at(p0, i), pair_or(v0, i, zero), pair_or(a, i, zero)),
        (nv, pair_at(p1, i)),
    )
    &&& 2 * i < v1.len() ==> v1[2 * i] == nv.0
    &&& 2 * i + 1 < v1.len() ==> v1[2 * i + 1] == nv.1
}

/// Agent `i` went through one integration step, with some new velocity.
pub open spec fn stepped<T, F: Fn((T, T), (T, T), (T, T)) -> ((T, T), (T, T))>(
    step: F,
    p0: Seq<T>,
    v0: Seq<T>,
    a: Seq<T>,
    zero: T,
    p1: Seq<T>,
    v1: Seq<T>,
    i: int,
) -> bool {
    exists|nv: (T, T)| stepped_with(step, p0, v0, a, zero, p1, v1, i, nv)
}

/// Advances every agent of `positions` by one step. For agent `i`, `step`
/// takes its position, velocity and acceleration and gives its new velocity
/// and new position. Velocity and acceleration components past the end of
/// their buffers read as `zero`; new velocity components past the end of
/// `velocities` are dropped. The agent count is that of `positions`.
pub fn integrate_agents<T: Copy, F: Fn((T, T), (T, T), (T, T)) -> ((T, T), (T, T))>(
    positions: &mut [T],
    velocities: &mut [T],
    accelerations: &[T],
    zero: T,
    step: &F,
)
    requires
        forall|p: (T, T), v: (T, T), a: (T, T)| call_requires(*step, (p, v, a)),
    ensures
        final(positions)@.len() == old(positions)@.len(),
        final(velocities)@.len() == old(velocities)@.len(),
        forall|i: int|
            0 <= i < agent_count(old(positions)@.len()) ==> #[trigger] stepped(
                *step,
                old(positions)@,
                old(velocities)@,
                accelerations@,
                zero,
                final(positions)@,
                final(velocities)@,
                i,
            ),
        forall|k: int|
            2 * agent_count(old(positions)@.len()) <= k < old(positions)@.len()
                ==> final(positions)@[k] == old(positions)@[k],
        forall|k: int|
            2 * agent_count(old(positions)@.len()) <= k < old(velocities)@.len()
                ==> final(velocities)@[k] == old(velocities)@[k],
{
    let ghost p0 = positions@;
    let ghost v0 = velocities@;
    let count: usize = positions.len() / 2;
    let ghost mut nvs: Seq<(T, T)> = Seq::empty();
    let mut i: usize = 0;
    while i < count
        invariant
            count == agent_count(p0.len()),
            p0.len() <= usize::MAX,
            0 <= i <= count,
            positions@.len() == p0.len(),
            velocities@.len() == v0.len(),
            nvs.len() == i,
            forall|p: (T, T), v: (T, T), a: (T, T)| call_requires(*step, (p, v, a)),
            forall|j: int|
                0 <= j < i ==> stepped_with(
                    *step,
                    p0,
                    v0,
                    accelerations@,
                    zero,
                    positions@,
                    velocities@,
                    j,
                    #[trigger] nvs[j],
                ),
            forall|k: int| 2 * i <= k < p0.len() ==> positions@[k] == p0[k],
            forall|k: int| 2 * i <= k < v0.len() ==> velocities@[k] == v0[k],
        decreases count - i,
    {
        let idx: usize = 2 * i;
        let a = (read_or(accelerations, idx, zero), read_or(accelerations, idx + 1, zero));
        let v = (read_or(velocities, idx, zero), read_or(velocities, idx + 1, zero));
        let p = (positions[idx], positions[idx + 1]);
        let (nv, np) = step(p, v, a);
        write_if_present(velocities, idx, nv.0);
        write_if_present(velocities, idx + 1, nv.1);
        positions[idx] = np.0;
        positions[idx + 1] = np.1;
        proof {
            nvs = nvs.push(nv);
        }
        i = i + 1;
    }
    assert forall|i: int| 0 <= i < count implies #[trigger] stepped(
        *step,
        p0,
        v0,
        accelerations@,
        zero,
        positions@,
        velocities@,
        i,
    ) by {
        assert(stepped_with(*step, p0, v0, accelerations@, zero, positions@, velocities@, i, nvs[i]));
    }
}

/// Applies a boundary policy to every coordinate of every agent of
/// `positions`. Coordinate `k` is handed to `edge` with its axis and the
/// matching velocity component, and both take the values `edge` returns.
/// A coordinate whose velocity component lies past the end of `velocities`
/// is left as it is.
pub fn bounce_components<T: Copy, F: Fn(Axis, T, T) -> (T, T)>(
    positions: &mut [T],
    velocities: &mut [T],
    edge: &F,
)
    requires
        forall|axis: Axis, p: T, v: T| call_requires(*edge, (axis, p, v)),
    ensures
        final(positions)@.len() == old(positions)@.len(),
        final(velocities)@.len() == old(velocities)@.len(),
        forall|k: int|
            0 <= k < 2 * agent_count(old(positions)@.len()) && k < old(velocities)@.len()
                ==> call_ensures(
                *edge,
                (axis_of(k), old(positions)@[k], old(velocities)@[k]),
                (#[trigger] final(positions)@[k], final(velocities)@[k]),
            ),
        forall|k: int|
            0 <= k < old(positions)@.len() && (2 * agent_count(old(positions)@.len()) <= k
                || old(velocities)@.len() <= k) ==> final(positions)@[k] == old(positions)@[k],
        forall|k: int|
            2 * agent_count(old(positions)@.len()) <= k < old(velocities)@.len()
                ==> final(velocities)@[k] == old(velocities)@[k],
{
    let ghost p0 = positions@;
    let ghost v0 = velocities@;
    let end: usize = positions.len() / 2 * 2;
    let mut k: usize = 0;
    while k < end
        invariant
            end == 2 * agent_count(p0.len()),
            0 <= k <= end,
            positions@.len() == p0.len(),
            velocities@.len() == v0.len(),
            forall|axis: Axis, p: T, v: T| call_requires(*edge, (axis, p, v)),
            forall|m: int|
                0 <= m < k && m < v0.len() ==> call_ensures(
                    *edge,
                    (axis_of(m), p0[m], v0[m]),
                    (#[trigger] positions@[m], velocities@[m]),
                ),
            forall|m: int|
                0 <= m < p0.len() && (k <= m || v0.len() <= m) ==> positions@[m] == p0[m],
            forall|m: int| k <= m < v0.len() ==> velocities@[m] == v0[m],
        decreases end - k,
    {
        if k < velocities.len() {
            let axis = if k % 2 == 0 {
                Axis::X
            } else {
                Axis::Y
            };
            let (p, v) = edge(axis, positions[k], velocities[k]);
            positions[k] = p;
            velocities[k] = v;
        }
        k = k + 1;
    }
}

/// What scanning every target of `targets` from `start` gives for the agent
/// at `agent`: `nearer` is called on the value so far, the agent and each
/// target in turn, and `r` is the last value.
pub open spec fn scans_to<T, F: Fn(T, (T, T), (T, T)) -> T>(
    nearer: F,
    start: T,
    agent: (T, T),
    targets: Seq<T>,
    r: T,
) -> bool {
    exists|trace: Seq<T>|
        {
            &&& trace.len() == agent_count(targets.len()) + 1
            &&& trace[0] == start
            &&& forall|j: int|
                0 <= j < agent_count(targets.len()) ==> call_ensures(
                    nearer,
                    (trace[j], agent, pair_at(targets, j)),
                    #[trigger] trace[j + 1],
                )
            &&& trace.last() == r
        }
}

/// For every agent of `positions`, scans all targets of `targets` from
/// `start`, letting `nearer` fold in one target at a time, and writes the
/// result into `out` at the agent's index. Results for agents past the end
/// of `out` are dropped; elements of `out` past the agent count are kept.
pub fn nearest_per_agent<T: Copy, F: Fn(T, (T, T), (T, T)) -> T>(
    positions: &[T],
    targets: &[T],
    out: &mut [T],
    start: T,
    nearer: &F,
)
    requires
        forall|best: T, agent: (T, T), target: (T, T)|
            call_requires(*nearer, (best, agent, target)),
    ensures
        final(out)@.len() == old(out)@.len(),
        forall|i: int|
            0 <= i < agent_count(positions@.len()) && i < old(out)@.len() ==> scans_to(
                *nearer,
                start,
                pair_at(positions@, i),
                targets@,
                #[trigger] final(out)@[i],
            ),
        forall|i: int|
            agent_count(positions@.len()) <= i < old(out)@.len() ==> final(out)@[i]
                == old(out)@[i],
{
    let ghost o0 = out@;
    let count: usize = positions.len() / 2;
    let target_count: usize = targets.len() / 2;
    let mut i: usize = 0;
    while i < count
        invariant
            count == agent_count(positions@.len()),
            positions@.len() <= usize::MAX,
            target_count == agent_count(targets@.len()),
            targets@.len() <= usize::MAX,
            0 <= i <= count,
            out@.len() == o0.len(),
            forall|best: T, agent: (T, T), target: (T, T)|
                call_requires(*nearer, (best, agent, target)),
            forall|m: int|
                0 <= m < i && m < o0.len() ==> scans_to(
                    *nearer,
                    start,
                    pair_at(positions@, m),
                    targets@,
                    #[trigger] out@[m],
                ),
            forall|m: int| i <= m < o0.len() ==> out@[m] == o0[m],
        decreases count - i,
    {
        let idx: usize = 2 * i;
        let agent = (positions[idx], positions[idx + 1]);
        let mut best = start;
        let ghost mut trace: Seq<T> = seq![start];
        let mut j: usize = 0;
        while j < target_count
            invariant
                target_count == agent_count(targets@.len()),
                targets@.len() <= usize::MAX,
                0 <= j <= target_count,
                trace.len() == j + 1,
                trace[0] == start,
                trace.last() == best,
                forall|best: T, agent: (T, T), target: (T, T)|
                    call_requires(*nearer, (best, agent, target)),
                forall|m: int|
                    0 <= m < j ==> call_ensures(
                        *nearer,
                        (trace[m], agent, pair_at(targets@, m)),
                        #[trigger] trace[m + 1],
                    ),
            decreases target_count - j,
        {
            let tidx: usize = 2 * j;
            best = nearer(best, agent, (targets[tidx], targets[tidx + 1]));
            proof {
                trace = trace.push(best);
            }
            j = j + 1;
        }
        assert(scans_to(*nearer, start, agent, targets@, best));
        write_if_present(out, i, best);
        i = i + 1;
    }
}

/// `b1` is `b0` with every agent's pair replaced by what `f` gives for it,
/// and a trailing element that completes no pair kept.
pub open spec fn agents_updated<T, F: Fn(T, T) -> (T, T)>(f: F, b0: Seq<T>, b1: Seq<T>) -> bool {
    &&& b1.len() == b0.len()
    &&& forall|i: int|
        0 <= i < agent_count(b0.len()) ==> call_ensures(
            f,
            pair_at(b0, i),
            #[trigger] pair_at(b1, i),
        )
    &&& forall|k: int| 2 * agent_count(b0.len()) <= k < b0.len() ==> b1[k] == b0[k]
}

/// A per-agent pass whose step gives back every agent's own pair leaves the
/// buffer as it was: wrapping a population that lies inside the world
/// changes nothing.
pub proof fn lemma_fixed_pass_is_identity<T, F: Fn(T, T) -> (T, T)>(f: F, b0: Seq<T>, b1: Seq<T>)
    requires
        agents_updated(f, b0, b1),
        forall|i: int, r: (T, T)|
            0 <= i < agent_count(b0.len()) && #[trigger] call_ensures(f, pair_at(b0, i), r)
                ==> r == pair_at(b0, i),
    ensures
        b1 == b0,
{
    assert forall|k: int| 0 <= k < b0.len() implies b1[k] == b0[k] by {
        if k < 2 * agent_count(b0.len()) {
            let i = k / 2;
            assert(call_ensures(f, pair_at(b0, i), pair_at(b1, i)));
        }
    }
    assert(b1 =~= b0);
}

/// Replaces every agent's pair `(x, y)` of `buf` by `f(x, y)`. A trailing
/// element that completes no pair is left as it is.
pub fn update_agents<T: Copy, F: Fn(T, T) -> (T, T)>(buf: &mut [T], f: &F)
    requires
        forall|x: T, y: T| call_requires(*f, (x, y)),
    ensures
        agents_updated(*f, old(buf)@, final(buf)@),
{
    let ghost b0 = buf@;
    let count: usize = buf.len() / 2;
    let mut i: usize = 0;
    while i < count
        invariant
            count == agent_count(b0.len()),
            b0.len() <= usize::MAX,
            0 <= i <= count,
            buf@.len() == b0.len(),
            forall|x: T, y: T| call_requires(*f, (x, y)),
            forall|j: int|
                0 <= j < i ==> call_ensures(*f, pair_at(b0, j), #[trigger] pair_at(buf@, j)),
            forall|k: int| 2 * i <= k < b0.len() ==> buf@[k] == b0[k],
        decreases count - i,
    {
        let idx: usize = 2 * i;
        let (x, y) = f(buf[idx], buf[idx + 1]);
        let ghost prev = buf@;
        buf[idx] = x;
        buf[idx + 1] = y;
        proof {
            assert forall|j: int| 0 <= j < i implies call_ensures(
                *f,
                pair_at(b0, j),
                #[trigger] pair_at(buf@, j),
            ) by {
                assert(pair_at(buf@, j) == pair_at(prev, j));
            }
        }
        i = i + 1;
    }
}

/// Replaces every element `x` of `buf` by `f(x)`, whatever the layout.
pub fn update_each<T: Copy, F: Fn(T) -> T>(buf: &mut [T], f: &F)
    requires
        forall|x: T| call_requires(*f, (x,)),
    ensures
        final(buf)@.len() == old(buf)@.len(),
        forall|k: int|
            0 <= k < old(buf)@.len() ==> call_ensures(*f, (old(buf)@[k],), #[trigger] final(buf)@[k]),
{
    let ghost b0 = buf@;
    let mut k: usize = 0;
    while k < buf.len()
        invariant
            0 <= k <= b0.len(),
            buf@.len() == b0.len(),
            forall|x: T| call_requires(*f, (x,)),
            forall|m: int| 0 <= m < k ==> call_ensures(*f, (b0[m],), #[trigger] buf@[m]),
            forall|m: int| k <= m < b0.len() ==> buf@[m] == b0[m],
        decreases b0.len() - k,
    {
        let x = f(buf[k]);
        buf[k] = x;
        k = k + 1;
    }
}

} // verus!
