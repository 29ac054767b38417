use vstd::prelude::*;
use vstd::wrapping::i64_specs;

verus! {

/// A count of running threads of one kind; it wraps around as an atomic
/// counter does.
pub struct ThreadAmount {
    value: i64,
}

impl ThreadAmount {
    pub closed spec fn count(&self) -> i64 {
        self.value
    }

    pub fn increase(&mut self)
        ensures
            final(self).count() == i64_specs::wrapping_add(old(self).count(), 1),
    {
        self.value = self.value.wrapping_add(1);
    }

    pub fn decrease(&mut self)
        ensures
            final(self).count() == i64_specs::wrapping_sub(old(self).count(), 1),
    {
        self.value = self.value.wrapping_sub(1);
    }

    pub fn get(&self) -> (r: i64)
        ensures
            r == self.count(),
    {
        self.value
    }
}

impl Default for ThreadAmount {
    fn default() -> (result: Self)
        ensures
            result.count() == 0,
    {
        Self { value: 0 }
    }
}

/// The number of increases less the number of decreases in `steps`, where
/// `true` stands for an increase and `false` for a decrease.
pub open spec fn net_change(steps: Seq<bool>) -> int
    decreases steps.len(),
{
    if steps.len() == 0 {
        0
    } else {
        net_change(steps.drop_last()) + if steps.last() {
            1int
        } else {
            -1int
        }
    }
}

/// `x` wrapped into the range of an `i64`, as a wrapping counter does.
pub open spec fn wrap_i64(x: int) -> int {
    (x - i64::MIN) % 0x1_0000_0000_0000_0000 + i64::MIN
}

/// Counting from zero, after the increases and decreases `steps` (the counts
/// in between being `counts`, as `increase` and `decrease` give them) the
/// count is the increases less the decreases, wrapped into an `i64`; so it
/// is exactly that difference whenever the difference fits.
pub proof fn law_count_is_increases_less_decreases(counts: Seq<i64>, steps: Seq<bool>)
    requires
        counts.len() == steps.len() + 1,
        counts[0] == 0,
        forall|i: int|
            0 <= i < steps.len() ==> #[trigger] counts[i + 1] == if steps[i] {
                i64_specs::wrapping_add(counts[i], 1)
            } else {
                i64_specs::wrapping_sub(counts[i], 1)
            },
    ensures
        counts.last() == wrap_i64(net_change(steps)),
        i64::MIN <= net_change(steps) <= i64::MAX ==> counts.last() == net_change(steps),
    decreases steps.len(),
{
    let m: int = 0x1_0000_0000_0000_0000;
    if steps.len() == 0 {
        vstd::arithmetic::div_mod::lemma_small_mod((0 - i64::MIN) as nat, m as nat);
    } else {
        let n = steps.len() - 1;
        let c = counts.drop_last();
        let d = steps.drop_last();
        assert forall|i: int| 0 <= i < d.len() implies #[trigger] c[i + 1] == if d[i] {
            i64_specs::wrapping_add(c[i], 1)
        } else {
            i64_specs::wrapping_sub(c[i], 1)
        } by {
            assert(counts[i + 1] == if steps[i] {
                i64_specs::wrapping_add(counts[i], 1)
            } else {
                i64_specs::wrapping_sub(counts[i], 1)
            });
        }
        law_count_is_increases_less_decreases(c, d);
        assert(counts[n + 1] == if steps[n] {
            i64_specs::wrapping_add(counts[n], 1)
        } else {
            i64_specs::wrapping_sub(counts[n], 1)
        });
        let a = net_change(d);
        let step: int = if steps[n] {
            1
        } else {
            -1
        };
        assert(steps.last() == steps[n]);
        assert(net_change(steps) == a + step);
        // counts[n] - MIN == (a - MIN) % m
        let y = a - i64::MIN;
        assert(counts[n] - i64::MIN == y % m);
        vstd::arithmetic::div_mod::lemma_add_mod_noop(y, step, m);
        vstd::arithmetic::div_mod::lemma_mod_bound(y, m);
        let z = counts[n] - i64::MIN + step;
        if step == 1 {
            vstd::arithmetic::div_mod::lemma_small_mod(1, m as nat);
        } else {
            vstd::arithmetic::div_mod::lemma_mod_sub_multiples_vanish(m - 1, m);
            vstd::arithmetic::div_mod::lemma_small_mod((m - 1) as nat, m as nat);
        }
        assert(z % m == (y + step) % m);
        if z >= m {
            vstd::arithmetic::div_mod::lemma_mod_sub_multiples_vanish(z, m);
            vstd::arithmetic::div_mod::lemma_small_mod((z - m) as nat, m as nat);
        } else if z < 0 {
            vstd::arithmetic::div_mod::lemma_mod_add_multiples_vanish(z, m);
            vstd::arithmetic::div_mod::lemma_small_mod((z + m) as nat, m as nat);
        } else {
            vstd::arithmetic::div_mod::lemma_small_mod(z as nat, m as nat);
        }
    }
    if i64::MIN <= net_change(steps) <= i64::MAX {
        vstd::arithmetic::div_mod::lemma_small_mod((net_change(steps) - i64::MIN) as nat, m as nat);
    }
}

/// The counts of the threads that serve connections.
pub struct ThreadsStatistics {
    pub read_threads: ThreadAmount,
    pub write_threads: ThreadAmount,
    pub ping_threads: ThreadAmount,
    pub connections_objects: ThreadAmount,
}

impl Default for ThreadsStatistics {
    fn default() -> (result: Self)
        ensures
            result.read_threads.count() == 0,
            result.write_threads.count() == 0,
            result.ping_threads.count() == 0,
            result.connections_objects.count() == 0,
    {
        Self {
            read_threads: ThreadAmount::default(),
            write_threads: ThreadAmount::default(),
            ping_threads: ThreadAmount::default(),
            connections_objects: ThreadAmount::default(),
        }
    }
}

} // verus!
