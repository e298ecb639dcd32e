//! The enumeration engine: a binary counter over an ordered list of named
//! boolean parameters. It owns the current assignment and a remaining-count,
//! and advances through all `2^k` assignments in binary counting order, with
//! parameter 0 as the least significant bit.

use vstd::prelude::*;

verus! {

use vstd::arithmetic::power2::{pow2, lemma_pow2_unfold, lemma_pow2_strictly_increases};

/// The integer value of a boolean assignment, reading index 0 as the least
/// significant bit.
pub open spec fn val_of(bits: Seq<bool>) -> nat
    decreases bits.len(),
{
    if bits.len() == 0 {
        0
    } else {
        (if bits[0] {
            1nat
        } else {
            0nat
        }) + 2 * val_of(bits.skip(1))
    }
}

/// One step of binary increment with carry propagation: every parameter up to
/// and including the first `false` flips; an all-true assignment wraps around
/// to all-false.
pub open spec fn inc_bits(bits: Seq<bool>) -> Seq<bool>
    decreases bits.len(),
{
    if bits.len() == 0 {
        bits
    } else if !bits[0] {
        seq![true] + bits.skip(1)
    } else {
        seq![false] + inc_bits(bits.skip(1))
    }
}

/// The value of an assignment is below `2^k`.
pub proof fn lemma_val_of_bound(bits: Seq<bool>)
    ensures
        val_of(bits) < pow2(bits.len()),
    decreases bits.len(),
{
    vstd::arithmetic::power2::lemma2_to64();
    if bits.len() > 0 {
        lemma_val_of_bound(bits.skip(1));
        lemma_pow2_unfold(bits.len());
    }
}

/// An assignment has value 0 exactly when every parameter is `false`.
pub proof fn lemma_val_of_zero(bits: Seq<bool>)
    ensures
        val_of(bits) == 0 <==> (forall|i: int| 0 <= i < bits.len() ==> !bits[i]),
    decreases bits.len(),
{
    if bits.len() > 0 {
        lemma_val_of_zero(bits.skip(1));
        assert(forall|i: int| 1 <= i < bits.len() ==> bits[i] == bits.skip(1)[i - 1]);
    }
}

/// An assignment has value `2^k - 1` exactly when every parameter is `true`.
pub proof fn lemma_val_of_max(bits: Seq<bool>)
    ensures
        val_of(bits) == pow2(bits.len()) - 1 <==> (forall|i: int|
            0 <= i < bits.len() ==> bits[i]),
    decreases bits.len(),
{
    vstd::arithmetic::power2::lemma2_to64();
    if bits.len() > 0 {
        lemma_val_of_max(bits.skip(1));
        lemma_val_of_bound(bits.skip(1));
        lemma_pow2_unfold(bits.len());
        assert(forall|i: int| 1 <= i < bits.len() ==> bits[i] == bits.skip(1)[i - 1]);
        assert(bits.skip(1).len() == bits.len() - 1);
        if val_of(bits) == pow2(bits.len()) - 1 {
            assert(val_of(bits.skip(1)) == pow2((bits.len() - 1) as nat) - 1);
            assert(bits[0]);
        }
        if bits[0] && (forall|i: int| 0 <= i < bits.skip(1).len() ==> bits.skip(1)[i]) {
            assert(val_of(bits.skip(1)) == pow2((bits.len() - 1) as nat) - 1);
        }
    }
}

/// Incrementing steps the value up by one, or wraps the all-true assignment
/// (value `2^k - 1`) back to zero.
pub proof fn lemma_inc_bits_val(bits: Seq<bool>)
    ensures
        inc_bits(bits).len() == bits.len(),
        val_of(inc_bits(bits)) == if val_of(bits) + 1 < pow2(bits.len()) {
            val_of(bits) + 1
        } else {
            0nat
        },
    decreases bits.len(),
{
    vstd::arithmetic::power2::lemma2_to64();
    lemma_val_of_bound(bits);
    if bits.len() > 0 {
        let rest = bits.skip(1);
        lemma_inc_bits_val(rest);
        lemma_val_of_bound(rest);
        lemma_pow2_unfold(bits.len());
        if !bits[0] {
            let r = seq![true] + rest;
            assert(r[0]);
            assert(r.skip(1) =~= rest);
        } else {
            let r = seq![false] + inc_bits(rest);
            assert(!r[0]);
            assert(r.skip(1) =~= inc_bits(rest));
        }
    }
}

/// Pointwise description of a binary increment: a parameter flips exactly
/// when every parameter below it is `true`.
pub proof fn lemma_inc_bits_char(bits: Seq<bool>, t: int)
    requires
        0 <= t < bits.len(),
    ensures
        inc_bits(bits).len() == bits.len(),
        inc_bits(bits)[t] == if forall|j: int| 0 <= j < t ==> bits[j] {
            !bits[t]
        } else {
            bits[t]
        },
    decreases bits.len(),
{
    lemma_inc_bits_val(bits);
    if t == 0 {
        if !bits[0] {
            assert(inc_bits(bits)[0] == (seq![true] + bits.skip(1))[0]);
        }
    } else {
        let rest = bits.skip(1);
        lemma_inc_bits_char(rest, t - 1);
        assert(forall|j: int| 0 <= j < rest.len() ==> rest[j] == bits[j + 1]);
        if !bits[0] {
            assert(inc_bits(bits)[t] == rest[t - 1]);
            assert(!(forall|j: int| 0 <= j < t ==> bits[j]));
        } else {
            assert(inc_bits(bits)[t] == inc_bits(rest)[t - 1]);
            if forall|j: int| 0 <= j < t - 1 ==> rest[j] {
                assert(forall|j: int| 0 <= j < t ==> bits[j]) by {
                    assert(forall|j: int| 1 <= j < t ==> bits[j] == rest[j - 1]);
                }
            } else {
                let w = choose|j: int| 0 <= j < t - 1 && !rest[j];
                assert(!bits[w + 1]);
            }
        }
    }
}

/// `lemma_inc_bits_char` over every index at once.
pub proof fn lemma_inc_bits_char_all(bits: Seq<bool>)
    ensures
        inc_bits(bits).len() == bits.len(),
        forall|t: int|
            0 <= t < bits.len() ==> #[trigger] inc_bits(bits)[t] == if forall|j: int|
                0 <= j < t ==> bits[j] {
                !bits[t]
            } else {
                bits[t]
            },
{
    lemma_inc_bits_val(bits);
    assert forall|t: int| 0 <= t < bits.len() implies #[trigger] inc_bits(bits)[t]
        == if forall|j: int| 0 <= j < t ==> bits[j] {
        !bits[t]
    } else {
        bits[t]
    } by {
        lemma_inc_bits_char(bits, t);
    }
}

/// The value splits at any cut: the low `i` parameters plus `2^i` times the
/// rest.
pub proof fn lemma_val_of_split(bits: Seq<bool>, i: int)
    requires
        0 <= i <= bits.len(),
    ensures
        val_of(bits) == val_of(bits.take(i)) + pow2(i as nat) * val_of(bits.skip(i)),
    decreases i,
{
    vstd::arithmetic::power2::lemma2_to64();
    if i == 0 {
        assert(bits.take(0) =~= Seq::<bool>::empty());
        assert(bits.skip(0) =~= bits);
        assert(val_of(bits.take(0)) == 0);
        assert(pow2(0) == 1);
        assert(1 * val_of(bits.skip(0)) == val_of(bits));
        assert(val_of(bits) == val_of(bits.take(i)) + pow2(i as nat) * val_of(bits.skip(i)));
    } else {
        let rest = bits.skip(1);
        let b0: nat = if bits[0] {
            1nat
        } else {
            0nat
        };
        let lo = val_of(rest.take(i - 1));
        let hi = val_of(rest.skip(i - 1));
        let p = pow2((i - 1) as nat);
        lemma_val_of_split(rest, i - 1);
        assert(val_of(rest) == lo + p * hi);
        assert(bits.take(i).skip(1) =~= rest.take(i - 1));
        assert(bits.skip(i) =~= rest.skip(i - 1));
        assert(bits.take(i)[0] == bits[0]);
        assert(bits.take(i).len() == i);
        assert(val_of(bits) == b0 + 2 * val_of(rest));
        assert(val_of(bits.take(i)) == b0 + 2 * lo);
        lemma_pow2_unfold(i as nat);
        assert(pow2(i as nat) == 2 * p);
        assert(b0 + 2 * (lo + p * hi) == (b0 + 2 * lo) + (2 * p) * hi) by (nonlinear_arith);
        assert(val_of(bits) == val_of(bits.take(i)) + pow2(i as nat) * val_of(bits.skip(i)));
    }
}

/// A parameter toggles on an advance exactly when every parameter below it is
/// `true` beforehand.
pub proof fn lemma_toggle_when_lower_all_true(bits: Seq<bool>, i: int)
    requires
        0 <= i < bits.len(),
    ensures
        (inc_bits(bits)[i] != bits[i]) <==> (forall|j: int| 0 <= j < i ==> bits[j]),
{
    lemma_inc_bits_char(bits, i);
}

/// Parameter `i` toggles exactly every `2^i` steps: advancing from an
/// assignment of value `v` flips parameter `i` exactly when `v + 1` is
/// divisible by `2^i`. In particular parameter 0 toggles on every step.
pub proof fn lemma_toggle_period(bits: Seq<bool>, i: int)
    requires
        0 <= i < bits.len(),
    ensures
        (inc_bits(bits)[i] != bits[i]) <==> ((val_of(bits) as int + 1) % (pow2(i as nat) as int)
            == 0),
{
    let m = pow2(i as nat) as int;
    let lo = val_of(bits.take(i)) as int;
    let hi = val_of(bits.skip(i)) as int;
    vstd::arithmetic::power2::lemma_pow2_pos(i as nat);
    lemma_inc_bits_char(bits, i);
    lemma_val_of_split(bits, i);
    lemma_val_of_bound(bits.take(i));
    lemma_val_of_max(bits.take(i));
    assert(forall|j: int| 0 <= j < i ==> bits.take(i)[j] == bits[j]);
    assert(val_of(bits) as int + 1 == m * hi + (lo + 1));
    vstd::arithmetic::div_mod::lemma_mod_multiples_vanish(hi, lo + 1, m);
    if lo + 1 < m {
        vstd::arithmetic::div_mod::lemma_small_mod((lo + 1) as nat, m as nat);
    } else {
        vstd::arithmetic::div_mod::lemma_mod_self_0(m);
    }
    if forall|j: int| 0 <= j < i ==> bits[j] {
        assert(forall|j: int| 0 <= j < bits.take(i).len() ==> bits.take(i)[j]);
    }
}

/// The first snapshot of a fresh counter has every parameter `false`; the
/// snapshot with exactly one step remaining has every parameter `true`.
pub proof fn lemma_first_last(it: ConfigIterator)
    requires
        it.wf(),
    ensures
        it.remaining() == pow2(it.k()) ==> forall|i: int|
            0 <= i < it.k() ==> !(#[trigger] it.values()[i]),
        it.remaining() == 1 ==> forall|i: int| 0 <= i < it.k() ==> #[trigger] it.values()[i],
{
    vstd::arithmetic::power2::lemma_pow2_pos(it.k());
    lemma_val_of_zero(it.values());
    lemma_val_of_max(it.values());
}

/// Exactness of the enumeration: while steps remain, the steps already taken
/// equal the assignment's value, so a counter built with `2^k` steps spends
/// exactly `2^k` advances — one per assignment, none repeated — before
/// `has_next` turns false.
pub proof fn lemma_exact_step_count(it: ConfigIterator)
    requires
        it.wf(),
    ensures
        it.remaining() <= pow2(it.k()),
        it.remaining() > 0 ==> it.value() + it.remaining() == pow2(it.k()),
{
}

/// With no variable parameters there is exactly one assignment: a counter
/// over zero parameters never has more than one step remaining, and its
/// assignment is empty.
pub proof fn lemma_single_step_when_no_params(it: ConfigIterator)
    requires
        it.wf(),
        it.k() == 0,
    ensures
        it.remaining() <= 1,
        pow2(0) == 1,
        it.values() == Seq::<bool>::empty(),
{
    vstd::arithmetic::power2::lemma2_to64();
    assert(it.values() =~= Seq::<bool>::empty());
}

/// The binary counter: an ordered boolean assignment to named parameters and
/// the number of enumeration steps that remain. Fresh counters start all-false
/// with `2^k` steps remaining; `compute_next` performs one binary increment
/// and spends one step.
pub struct ConfigIterator {
    count: usize,
    params: Vec<(String, bool)>,
}

impl ConfigIterator {
    /// The current assignment as ordered (name, value) pairs.
    pub closed spec fn assignment(&self) -> Seq<(Seq<char>, bool)> {
        self.params@.map_values(|p: (String, bool)| (p.0@, p.1))
    }

    /// The parameter names, in declared order.
    pub open spec fn names(&self) -> Seq<Seq<char>> {
        self.assignment().map_values(|p: (Seq<char>, bool)| p.0)
    }

    /// The current boolean values, in declared order.
    pub open spec fn values(&self) -> Seq<bool> {
        self.assignment().map_values(|p: (Seq<char>, bool)| p.1)
    }

    /// The number of variable parameters.
    pub open spec fn k(&self) -> nat {
        self.assignment().len()
    }

    /// The current assignment read as an integer, parameter 0 least
    /// significant; equals the number of advances taken so far while any
    /// steps remain.
    pub open spec fn value(&self) -> nat {
        val_of(self.values())
    }

    /// How many enumeration steps remain.
    pub closed spec fn remaining(&self) -> nat {
        self.count as nat
    }

    /// The counter invariant: the remaining count starts at `2^k`, and while
    /// it is positive the assignment's value is the number of steps already
    /// taken; the final advance wraps the assignment back to all-false.
    pub closed spec fn wf(&self) -> bool {
        &&& self.count <= pow2(self.k())
        &&& self.count > 0 ==> self.value() + self.count == pow2(self.k())
        &&& self.count == 0 ==> self.value() == 0
    }

    /// Builds a counter over the given parameter names, all-false, with
    /// `2^k` steps remaining.
    pub fn new(params: Vec<String>) -> (r: Self)
        requires
            pow2(params@.len()) <= usize::MAX,
        ensures
            r.wf(),
            r.k() == params@.len(),
            r.names() == params@.map_values(|s: String| s@),
            r.values() == Seq::new(params@.len(), |i: int| false),
            r.remaining() == pow2(params@.len()),
    {
        let n = params.len();
        proof {
            vstd::arithmetic::power2::lemma2_to64();
        }
        let mut count: usize = 1;
        let mut i: usize = 0;
        while i < n
            invariant
                i <= n,
                n == params@.len(),
                count == pow2(i as nat),
                pow2(n as nat) <= usize::MAX,
            decreases n - i,
        {
            proof {
                if ((i + 1) as nat) < (n as nat) {
                    lemma_pow2_strictly_increases((i + 1) as nat, n as nat);
                }
                lemma_pow2_unfold((i + 1) as nat);
            }
            count = count * 2;
            i = i + 1;
        }
        let mut pairs: Vec<(String, bool)> = Vec::new();
        let mut j: usize = 0;
        while j < n
            invariant
                j <= n,
                n == params@.len(),
                pairs@.len() == j,
                forall|t: int| 0 <= t < j ==> pairs@[t].0@ == params@[t]@ && !pairs@[t].1,
            decreases n - j,
        {
            let name = params[j].clone();
            pairs.push((name, false));
            j = j + 1;
        }
        let r = ConfigIterator { count, params: pairs };
        proof {
            assert(r.names() =~= params@.map_values(|s: String| s@));
            assert(r.values() =~= Seq::new(params@.len(), |i: int| false));
            lemma_val_of_zero(r.values());
        }
        r
    }

    /// True while any enumeration step remains.
    pub fn has_next(&mut self) -> (r: bool)
        ensures
            *final(self) == *old(self),
            r == (old(self).remaining() > 0),
    {
        self.count > 0
    }

    /// Advances the assignment to its successor in binary counting order and
    /// spends one enumeration step. Callers must guard every call with
    /// `has_next`.
    pub fn compute_next(&mut self)
        requires
            old(self).wf(),
            old(self).remaining() > 0,
        ensures
            final(self).wf(),
            final(self).k() == old(self).k(),
            final(self).names() == old(self).names(),
            final(self).remaining() == old(self).remaining() - 1,
            final(self).values() == inc_bits(old(self).values()),
            final(self).value() == if old(self).value() + 1 < pow2(old(self).k()) {
                old(self).value() + 1
            } else {
                0nat
            },
    {
        self.count = self.count - 1;
        let ghost orig = self.params@;
        let ghost vals0 = old(self).values();
        proof {
            assert(vals0.len() == orig.len());
            assert(forall|t: int| 0 <= t < orig.len() ==> vals0[t] == orig[t].1);
            lemma_inc_bits_char_all(vals0);
        }
        let n = self.params.len();
        let mut i: usize = 0;
        let mut done: bool = false;
        while i < n
            invariant
                i <= n,
                n == orig.len(),
                self.params@.len() == orig.len(),
                self.count == old(self).count - 1,
                vals0.len() == orig.len(),
                inc_bits(vals0).len() == orig.len(),
                forall|t: int| 0 <= t < orig.len() ==> vals0[t] == orig[t].1,
                forall|t: int|
                    0 <= t < orig.len() ==> (#[trigger] self.params@[t]).0@ == orig[t].0@,
                forall|t: int|
                    0 <= t < orig.len() ==> #[trigger] inc_bits(vals0)[t] == if forall|j: int|
                        0 <= j < t ==> vals0[j] {
                        !vals0[t]
                    } else {
                        vals0[t]
                    },
                done ==> forall|t: int|
                    0 <= t < orig.len() ==> (#[trigger] self.params@[t]).1 == inc_bits(vals0)[t],
                !done ==> forall|t: int| 0 <= t < i ==> #[trigger] vals0[t],
                !done ==> forall|t: int| 0 <= t < i ==> !(#[trigger] self.params@[t]).1,
                !done ==> forall|t: int|
                    i <= t < orig.len() ==> (#[trigger] self.params@[t]).1 == vals0[t],
            decreases n - i,
        {
            if !done {
                let name = self.params[i].0.clone();
                let v = !self.params[i].1;
                self.params.set(i, (name, v));
                done = v;
                proof {
                    if done {
                        assert forall|t: int|
                            0 <= t < orig.len() implies (#[trigger] self.params@[t]).1
                            == inc_bits(vals0)[t] by {
                            if t < i {
                                assert(!(#[trigger] self.params@[t]).1);
                            } else if t == i {
                                assert(forall|j: int| 0 <= j < t ==> vals0[j]);
                            } else {
                                assert(!vals0[i as int]);
                                assert(!(forall|j: int| 0 <= j < t ==> vals0[j]));
                            }
                        }
                    }
                }
            }
            i = i + 1;
        }
        proof {
            if !done {
                assert(forall|t: int| 0 <= t < orig.len() ==> vals0[t]);
                assert forall|t: int|
                    0 <= t < orig.len() implies (#[trigger] self.params@[t]).1
                    == inc_bits(vals0)[t] by {
                    assert(forall|j: int| 0 <= j < t ==> vals0[j]);
                }
            }
            assert(self.values() =~= inc_bits(vals0));
            assert(self.names() =~= old(self).names());
            lemma_inc_bits_val(vals0);
            lemma_val_of_bound(vals0);
            if self.count > 0 {
                assert(old(self).value() + old(self).count == pow2(old(self).k()));
            }
        }
    }

    /// The current assignment, without mutation.
    pub fn snapshot(&self) -> (r: &Vec<(String, bool)>)
        ensures
            r@.map_values(|p: (String, bool)| (p.0@, p.1)) == self.assignment(),
    {
        &self.params
    }
}

} // verus!
