use vstd::prelude::*;
use vstd::wrapping::usize_specs;

verus! {

/// Counts an amount over the current second and shows the count of the last
/// completed second. The counter wraps around as an atomic one does.
pub struct OneSecondMetric {
    intermediary_value: usize,
    value: usize,
}

impl OneSecondMetric {
    /// The amount counted so far in the current second.
    pub closed spec fn counting(&self) -> usize {
        self.intermediary_value
    }

    /// The amount of the last completed second.
    pub closed spec fn last_second(&self) -> usize {
        self.value
    }

    pub fn new() -> (result: Self)
        ensures
            result.counting() == 0,
            result.last_second() == 0,
    {
        Self { intermediary_value: 0, value: 0 }
    }

    pub fn increase(&mut self, delta: usize)
        ensures
            final(self).counting() == usize_specs::wrapping_add(old(self).counting(), delta),
            final(self).last_second() == old(self).last_second(),
    {
        self.intermediary_value = self.intermediary_value.wrapping_add(delta);
    }

    /// Closes the current second: its count becomes the value shown and the
    /// count starts again from zero.
    pub fn one_second_tick(&mut self)
        ensures
            final(self).last_second() == old(self).counting(),
            final(self).counting() == 0,
    {
        let result = self.intermediary_value;
        self.intermediary_value = 0;
        self.value = result;
    }

    pub fn get_value(&self) -> (r: usize)
        ensures
            r == self.last_second(),
    {
        self.value
    }
}

/// The sum of `deltas`.
pub open spec fn sum_of(deltas: Seq<usize>) -> int
    decreases deltas.len(),
{
    if deltas.len() == 0 {
        0
    } else {
        sum_of(deltas.drop_last()) + deltas.last()
    }
}

/// Counting from zero, the count after the increases `deltas` (the counts in
/// between being `counts`, as `increase` gives them) is their sum, wrapped
/// as the counter wraps; the next `one_second_tick` shows that count.
pub proof fn law_second_count_is_sum_of_increases(counts: Seq<usize>, deltas: Seq<usize>)
    requires
        counts.len() == deltas.len() + 1,
        counts[0] == 0,
        forall|i: int|
            0 <= i < deltas.len() ==> #[trigger] counts[i + 1] == usize_specs::wrapping_add(counts[i], deltas[i]),
    ensures
        counts.last() == sum_of(deltas) % (usize::MAX as int + 1),
    decreases deltas.len(),
{
    let m = usize::MAX as int + 1;
    if deltas.len() == 0 {
        vstd::arithmetic::div_mod::lemma_small_mod(0, m as nat);
    } else {
        let n = deltas.len() - 1;
        let c = counts.drop_last();
        let d = deltas.drop_last();
        assert forall|i: int| 0 <= i < d.len() implies #[trigger] c[i + 1] == usize_specs::wrapping_add(c[i], d[i]) by {
            assert(counts[i + 1] == usize_specs::wrapping_add(counts[i], deltas[i]));
        }
        law_second_count_is_sum_of_increases(c, d);
        assert(counts[n + 1] == usize_specs::wrapping_add(counts[n], deltas[n]));
        let a = sum_of(d);
        assert(counts[n] == a % m);
        vstd::arithmetic::div_mod::lemma_add_mod_noop(a, deltas[n] as int, m);
        vstd::arithmetic::div_mod::lemma_small_mod(deltas[n] as nat, m as nat);
        let x = counts[n] as int + deltas[n] as int;
        if x > usize::MAX {
            vstd::arithmetic::div_mod::lemma_mod_sub_multiples_vanish(x, m);
            vstd::arithmetic::div_mod::lemma_small_mod((x - m) as nat, m as nat);
        } else {
            vstd::arithmetic::div_mod::lemma_small_mod(x as nat, m as nat);
        }
        assert(deltas.last() == deltas[n]);
    }
}

impl Default for OneSecondMetric {
    fn default() -> (result: Self)
        ensures
            result.counting() == 0,
            result.last_second() == 0,
    {
        Self::new()
    }
}

} // verus!
