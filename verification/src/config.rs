//! The run configuration: three pass-through scalars and an ordered parameter
//! list in which each name is either swept (variable) or held constant, plus
//! the data handed to the template renderer for each emitted block.

use vstd::prelude::*;

verus! {

use crate::assemble::pairs_view;

/// A declared parameter: either held constant at the given value for the
/// whole batch, or swept across both boolean values.
#[derive(Clone, Copy, PartialEq, Eq, Structural, Debug)]
pub enum TestParam {
    Constant(bool),
    Variable,
}

/// The loaded run configuration.
pub struct Config {
    pub iterations: usize,
    pub bucket_count: usize,
    pub time_limit: usize,
    pub parameters: Vec<(String, TestParam)>,
}

/// The per-run data that every emitted file shares: the pass-through scalars
/// and the run's instance name.
pub struct OutputConfig<'a> {
    pub iterations: usize,
    pub bucket_count: usize,
    pub time_limit: usize,
    pub base_name: &'a str,
}

/// Everything the template renderer needs for one emitted file: the 0-based
/// index, the shared run data, and the rendered parameter block.
pub struct OutputTemplate<'a> {
    pub index: usize,
    pub config: &'a OutputConfig<'a>,
    pub body: String,
}

/// The view of an ordered declared-parameter list.
pub open spec fn params_view(ps: Seq<(String, TestParam)>) -> Seq<(Seq<char>, TestParam)> {
    ps.map_values(|p: (String, TestParam)| (p.0@, p.1))
}

/// The names declared variable, in declared order.
pub open spec fn variables_of(ps: Seq<(Seq<char>, TestParam)>) -> Seq<Seq<char>>
    decreases ps.len(),
{
    if ps.len() == 0 {
        Seq::empty()
    } else {
        (match ps[0].1 {
            TestParam::Variable => seq![ps[0].0],
            TestParam::Constant(_) => Seq::empty(),
        }) + variables_of(ps.skip(1))
    }
}

/// The (name, value) pairs declared constant, in declared order.
pub open spec fn constants_of(ps: Seq<(Seq<char>, TestParam)>) -> Seq<(Seq<char>, bool)>
    decreases ps.len(),
{
    if ps.len() == 0 {
        Seq::empty()
    } else {
        (match ps[0].1 {
            TestParam::Variable => Seq::empty(),
            TestParam::Constant(v) => seq![(ps[0].0, v)],
        }) + constants_of(ps.skip(1))
    }
}

/// Splitting distributes over appending one declaration at the end.
pub proof fn lemma_split_snoc(ps: Seq<(Seq<char>, TestParam)>, i: int)
    requires
        0 <= i < ps.len(),
    ensures
        variables_of(ps.take(i + 1)) == variables_of(ps.take(i)) + (match ps[i].1 {
            TestParam::Variable => seq![ps[i].0],
            TestParam::Constant(_) => Seq::<Seq<char>>::empty(),
        }),
        constants_of(ps.take(i + 1)) == constants_of(ps.take(i)) + (match ps[i].1 {
            TestParam::Variable => Seq::<(Seq<char>, bool)>::empty(),
            TestParam::Constant(v) => seq![(ps[i].0, v)],
        }),
    decreases i,
{
    let a = ps.take(i + 1);
    let b = ps.take(i);
    if i == 0 {
        assert(a.skip(1) =~= Seq::<(Seq<char>, TestParam)>::empty());
        assert(a.len() == 1);
        assert(a[0] == ps[0]);
        assert(variables_of(a.skip(1)) == Seq::<Seq<char>>::empty());
        assert(constants_of(a.skip(1)) == Seq::<(Seq<char>, bool)>::empty());
        assert(variables_of(b) == Seq::<Seq<char>>::empty());
        assert(constants_of(b) == Seq::<(Seq<char>, bool)>::empty());
        assert(variables_of(a) =~= variables_of(b) + (match ps[0].1 {
            TestParam::Variable => seq![ps[0].0],
            TestParam::Constant(_) => Seq::<Seq<char>>::empty(),
        }));
        assert(constants_of(a) =~= constants_of(b) + (match ps[0].1 {
            TestParam::Variable => Seq::<(Seq<char>, bool)>::empty(),
            TestParam::Constant(v) => seq![(ps[0].0, v)],
        }));
    } else {
        lemma_split_snoc(ps.skip(1), i - 1);
        assert(a.skip(1) =~= ps.skip(1).take(i));
        assert(b.skip(1) =~= ps.skip(1).take(i - 1));
        assert(ps.skip(1)[i - 1] == ps[i]);
        assert(variables_of(a) =~= variables_of(b) + (match ps[i].1 {
            TestParam::Variable => seq![ps[i].0],
            TestParam::Constant(_) => Seq::<Seq<char>>::empty(),
        }));
        assert(constants_of(a) =~= constants_of(b) + (match ps[i].1 {
            TestParam::Variable => Seq::<(Seq<char>, bool)>::empty(),
            TestParam::Constant(v) => seq![(ps[i].0, v)],
        }));
    }
}

impl Config {
    /// Splits out the shared run data, the variable-parameter names and the
    /// constant set, ready to hand to the sequence factory.
    pub fn build_inner_data<'a>(self, base_name: &'a str) -> (r: (
        OutputConfig<'a>,
        Vec<String>,
        Vec<(String, bool)>,
    ))
        ensures
            r.0.iterations == self.iterations,
            r.0.bucket_count == self.bucket_count,
            r.0.time_limit == self.time_limit,
            r.0.base_name@ == base_name@,
            r.1@.map_values(|s: String| s@) == variables_of(params_view(self.parameters@)),
            pairs_view(r.2@) == constants_of(params_view(self.parameters@)),
    {
        let output_config = self.build_base_template(base_name);
        let (test_params, const_param) = Self::convert_to_param_list(self.parameters);
        (output_config, test_params, const_param)
    }

    /// Copies the pass-through scalars beside the run's instance name.
    pub fn build_base_template<'a>(&self, base_name: &'a str) -> (r: OutputConfig<'a>)
        ensures
            r.iterations == self.iterations,
            r.bucket_count == self.bucket_count,
            r.time_limit == self.time_limit,
            r.base_name@ == base_name@,
    {
        OutputConfig {
            iterations: self.iterations,
            bucket_count: self.bucket_count,
            time_limit: self.time_limit,
            base_name,
        }
    }

    /// Partitions the declared parameters, keeping declared order within each
    /// side: variable names on the left, constant (name, value) pairs on the
    /// right.
    pub fn convert_to_param_list(parameters: Vec<(String, TestParam)>) -> (r: (
        Vec<String>,
        Vec<(String, bool)>,
    ))
        ensures
            r.0@.map_values(|s: String| s@) == variables_of(params_view(parameters@)),
            pairs_view(r.1@) == constants_of(params_view(parameters@)),
    {
        let ghost view = params_view(parameters@);
        let mut var: Vec<String> = Vec::new();
        let mut cons: Vec<(String, bool)> = Vec::new();
        let mut i: usize = 0;
        while i < parameters.len()
            invariant
                i <= parameters@.len(),
                view == params_view(parameters@),
                view.len() == parameters@.len(),
                var@.map_values(|s: String| s@) == variables_of(view.take(i as int)),
                pairs_view(cons@) == constants_of(view.take(i as int)),
            decreases parameters@.len() - i,
        {
            let name = parameters[i].0.clone();
            let kind = parameters[i].1;
            proof {
                lemma_split_snoc(view, i as int);
            }
            match kind {
                TestParam::Constant(value) => {
                    cons.push((name, value));
                    proof {
                        assert(pairs_view(cons@) =~= constants_of(view.take(i + 1)));
                        assert(var@.map_values(|s: String| s@) =~= variables_of(
                            view.take(i + 1),
                        ));
                    }
                },
                TestParam::Variable => {
                    var.push(name);
                    proof {
                        assert(var@.map_values(|s: String| s@) =~= variables_of(
                            view.take(i + 1),
                        ));
                        assert(pairs_view(cons@) =~= constants_of(view.take(i + 1)));
                    }
                },
            }
            i = i + 1;
        }
        proof {
            assert(view.take(view.len() as int) =~= view);
        }
        (var, cons)
    }
}

impl<'a> OutputTemplate<'a> {
    /// Bundles one emitted step for the renderer: its index, the shared run
    /// data and the rendered block.
    pub fn new(index: usize, config: &'a OutputConfig<'a>, body: String) -> (r: Self)
        ensures
            r.index == index,
            r.config == config,
            r.body == body,
    {
        Self { index, config, body }
    }
}

} // verus!
