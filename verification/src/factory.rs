//! The sequence factory: composes one binary counter with one constant set
//! into a single-pass, forward-only sequence of rendered parameter blocks,
//! exactly `2^k` of them, in binary counting order.

use vstd::prelude::*;

verus! {

use vstd::arithmetic::power2::pow2;
use vstd::string::StringExecFns;
use crate::assemble::{pairs_view, render_block, render_params, lemma_render_params_snoc};
use crate::counter::{ConfigIterator, inc_bits, val_of};

/// Wraps one binary counter and one immutable constant set; each pull renders
/// the current assignment together with the constant set, then advances the
/// counter.
pub struct KernelSearchConfigFactory {
    iter: ConfigIterator,
    constant: Vec<(String, bool)>,
}

impl KernelSearchConfigFactory {
    /// The constant set, as ordered (name, value) pairs.
    pub closed spec fn constants(&self) -> Seq<(Seq<char>, bool)> {
        pairs_view(self.constant@)
    }

    /// The counter's current assignment.
    pub closed spec fn assignment(&self) -> Seq<(Seq<char>, bool)> {
        self.iter.assignment()
    }

    /// The variable-parameter names, in declared order.
    pub closed spec fn names(&self) -> Seq<Seq<char>> {
        self.iter.names()
    }

    /// The current boolean values of the variable parameters.
    pub closed spec fn values(&self) -> Seq<bool> {
        self.iter.values()
    }

    /// The number of variable parameters.
    pub closed spec fn k(&self) -> nat {
        self.iter.k()
    }

    /// How many blocks are still to be emitted.
    pub closed spec fn remaining(&self) -> nat {
        self.iter.remaining()
    }

    /// The factory is well-formed while its counter is.
    pub closed spec fn wf(&self) -> bool {
        self.iter.wf()
    }

    /// How the state views fit together: the assignment is the names paired
    /// with the current values, in declared order.
    pub proof fn lemma_state_views(self)
        ensures
            self.assignment().len() == self.k(),
            self.names().len() == self.k(),
            self.values().len() == self.k(),
            forall|t: int|
                0 <= t < self.k() ==> #[trigger] self.assignment()[t] == (
                    self.names()[t],
                    self.values()[t],
                ),
    {
    }

    /// Builds a factory over the given variable-parameter names and constant
    /// set: a fresh all-false counter with `2^k` steps remaining.
    pub fn new(test_param: Vec<String>, constant_param: Vec<(String, bool)>) -> (r: Self)
        requires
            pow2(test_param@.len()) <= usize::MAX,
        ensures
            r.wf(),
            r.k() == test_param@.len(),
            r.names() == test_param@.map_values(|s: String| s@),
            r.values() == Seq::new(test_param@.len(), |i: int| false),
            r.remaining() == pow2(test_param@.len()),
            r.constants() == pairs_view(constant_param@),
    {
        Self { iter: ConfigIterator::new(test_param), constant: constant_param }
    }

    /// Renders the current state into a block: the labeled constant section,
    /// then the labeled variable section, without advancing the counter.
    pub fn build_next(&self) -> (r: String)
        ensures
            r@ == render_block(self.constants(), self.assignment()),
    {
        let constant = Self::collect_parameters(&self.constant);
        let snap = self.iter.snapshot();
        let variable = Self::collect_parameters(snap);
        proof {
            assert(pairs_view(snap@) =~= self.assignment());
        }
        let mut out = String::from_str("# Constant Parameters\n");
        out.append(constant.as_str());
        out.append("# Test Parameters\n");
        out.append(variable.as_str());
        out
    }

    /// Renders one parameter section: a `name: value` line per pair, in the
    /// list's order.
    pub fn collect_parameters(params: &Vec<(String, bool)>) -> (r: String)
        ensures
            r@ == render_params(pairs_view(params@)),
    {
        let ghost view = pairs_view(params@);
        let mut out = String::new();
        let mut i: usize = 0;
        while i < params.len()
            invariant
                i <= params@.len(),
                view == pairs_view(params@),
                view.len() == params@.len(),
                out@ == render_params(view.take(i as int)),
            decreases params@.len() - i,
        {
            out.append(params[i].0.as_str());
            out.append(": ");
            if params[i].1 {
                out.append("true");
            } else {
                out.append("false");
            }
            out.append("\n");
            proof {
                lemma_render_params_snoc(view, i as int);
                assert(out@ =~= render_params(view.take(i + 1)));
            }
            i = i + 1;
        }
        proof {
            assert(view.take(view.len() as int) =~= view);
        }
        out
    }

    /// One pull of the lazy sequence: while any step remains, renders the
    /// current (pre-advance) assignment with the constant set and advances
    /// the counter; once exhausted, yields nothing and changes nothing.
    pub fn next(&mut self) -> (r: Option<String>)
        requires
            old(self).wf(),
        ensures
            final(self).wf(),
            final(self).constants() == old(self).constants(),
            final(self).names() == old(self).names(),
            final(self).k() == old(self).k(),
            old(self).remaining() == 0 ==> r is None && *final(self) == *old(self),
            old(self).remaining() > 0 ==> {
                &&& r matches Some(block) && block@ == render_block(
                    old(self).constants(),
                    old(self).assignment(),
                )
                &&& final(self).remaining() == old(self).remaining() - 1
                &&& final(self).values() == inc_bits(old(self).values())
                &&& val_of(final(self).values()) == if val_of(old(self).values()) + 1 < pow2(
                    old(self).k(),
                ) {
                    val_of(old(self).values()) + 1
                } else {
                    0nat
                }
            },
    {
        if self.iter.has_next() {
            let output = self.build_next();
            self.iter.compute_next();
            Some(output)
        } else {
            None
        }
    }
}

} // verus!
