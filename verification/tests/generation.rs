use config_grid::config::{Config, OutputTemplate, TestParam};
use config_grid::counter::ConfigIterator;
use config_grid::factory::KernelSearchConfigFactory;

fn names(v: &[&str]) -> Vec<String> {
    v.iter().map(|s| s.to_string()).collect()
}

fn pairs(v: &[(&str, bool)]) -> Vec<(String, bool)> {
    v.iter().map(|(s, b)| (s.to_string(), *b)).collect()
}

fn collect_all(mut f: KernelSearchConfigFactory) -> Vec<String> {
    let mut out = Vec::new();
    while let Some(block) = f.next() {
        out.push(block);
    }
    out
}

#[test]
fn yields_exactly_two_to_the_k_blocks() {
    for k in 0..5usize {
        let f = KernelSearchConfigFactory::new(
            names(&["a", "b", "c", "d"][..k]),
            pairs(&[("x", true)]),
        );
        assert_eq!(collect_all(f).len(), 1usize << k);
    }
}

#[test]
fn parameter_i_toggles_every_two_to_the_i_steps() {
    let mut it = ConfigIterator::new(names(&["a", "b", "c"]));
    let mut prev = it.snapshot().clone();
    let mut step: usize = 1;
    while step < 8 {
        it.compute_next();
        let cur = it.snapshot().clone();
        for i in 0..3usize {
            let toggled = prev[i].1 != cur[i].1;
            let expected = step % (1usize << i) == 0;
            assert_eq!(toggled, expected);
        }
        prev = cur;
        step += 1;
    }
}

#[test]
fn first_block_all_false_last_block_all_true() {
    let mut it = ConfigIterator::new(names(&["a", "b", "c"]));
    assert!(it.snapshot().iter().all(|p| !p.1));
    for _ in 0..7 {
        assert!(it.has_next());
        it.compute_next();
    }
    assert!(it.snapshot().iter().all(|p| p.1));
    assert!(it.has_next());
    it.compute_next();
    assert!(!it.has_next());
}

#[test]
fn zero_variable_parameters_emit_one_block_with_empty_variable_section() {
    let f = KernelSearchConfigFactory::new(Vec::new(), pairs(&[("x", false)]));
    let blocks = collect_all(f);
    assert_eq!(blocks.len(), 1);
    assert_eq!(
        blocks[0],
        "# Constant Parameters\nx: false\n# Test Parameters\n"
    );
}

#[test]
fn constant_section_is_identical_across_all_emissions() {
    let f = KernelSearchConfigFactory::new(
        names(&["a", "b"]),
        pairs(&[("x", true), ("y", false)]),
    );
    let blocks = collect_all(f);
    assert_eq!(blocks.len(), 4);
    let prefix = "# Constant Parameters\nx: true\ny: false\n# Test Parameters\n";
    for b in &blocks {
        assert!(b.starts_with(prefix));
    }
}

#[test]
fn no_two_blocks_are_textually_identical() {
    let f = KernelSearchConfigFactory::new(names(&["a", "b", "c"]), pairs(&[("x", true)]));
    let blocks = collect_all(f);
    assert_eq!(blocks.len(), 8);
    for i in 0..blocks.len() {
        for j in 0..blocks.len() {
            if i != j {
                assert_ne!(blocks[i], blocks[j]);
            }
        }
    }
}

#[test]
fn two_variables_one_constant_scenario() {
    let f = KernelSearchConfigFactory::new(names(&["a", "b"]), pairs(&[("x", true)]));
    let blocks = collect_all(f);
    assert_eq!(blocks.len(), 4);
    let expected = [
        "# Constant Parameters\nx: true\n# Test Parameters\na: false\nb: false\n",
        "# Constant Parameters\nx: true\n# Test Parameters\na: true\nb: false\n",
        "# Constant Parameters\nx: true\n# Test Parameters\na: false\nb: true\n",
        "# Constant Parameters\nx: true\n# Test Parameters\na: true\nb: true\n",
    ];
    for (block, want) in blocks.iter().zip(expected.iter()) {
        assert_eq!(block, want);
    }
}

#[test]
fn build_next_does_not_advance() {
    let f = KernelSearchConfigFactory::new(names(&["a"]), Vec::new());
    let one = f.build_next();
    let two = f.build_next();
    assert_eq!(one, two);
    assert_eq!(one, "# Constant Parameters\n# Test Parameters\na: false\n");
}

#[test]
fn collect_parameters_renders_one_line_per_pair_in_order() {
    let text = KernelSearchConfigFactory::collect_parameters(&pairs(&[
        ("first", true),
        ("second", false),
    ]));
    assert_eq!(text, "first: true\nsecond: false\n");
    let empty = KernelSearchConfigFactory::collect_parameters(&Vec::new());
    assert_eq!(empty, "");
}

#[test]
fn exhausted_factory_keeps_yielding_nothing() {
    let mut f = KernelSearchConfigFactory::new(names(&["a"]), Vec::new());
    assert!(f.next().is_some());
    assert!(f.next().is_some());
    assert!(f.next().is_none());
    assert!(f.next().is_none());
}

#[test]
fn convert_to_param_list_partitions_in_declared_order() {
    let parameters = vec![
        ("alpha".to_string(), TestParam::Variable),
        ("beta".to_string(), TestParam::Constant(true)),
        ("gamma".to_string(), TestParam::Variable),
        ("delta".to_string(), TestParam::Constant(false)),
    ];
    let (var, cons) = Config::convert_to_param_list(parameters);
    assert_eq!(var, vec!["alpha".to_string(), "gamma".to_string()]);
    assert_eq!(
        cons,
        vec![("beta".to_string(), true), ("delta".to_string(), false)]
    );
}

#[test]
fn build_inner_data_passes_scalars_through_unchanged() {
    let config = Config {
        iterations: 7,
        bucket_count: 3,
        time_limit: 900,
        parameters: vec![
            ("a".to_string(), TestParam::Variable),
            ("x".to_string(), TestParam::Constant(true)),
        ],
    };
    let (base, var, cons) = config.build_inner_data("run");
    assert_eq!(base.iterations, 7);
    assert_eq!(base.bucket_count, 3);
    assert_eq!(base.time_limit, 900);
    assert_eq!(base.base_name, "run");
    assert_eq!(var, vec!["a".to_string()]);
    assert_eq!(cons, vec![("x".to_string(), true)]);
}

#[test]
fn output_template_bundles_index_config_and_body() {
    let config = Config {
        iterations: 1,
        bucket_count: 2,
        time_limit: 3,
        parameters: Vec::new(),
    };
    let base = config.build_base_template("inst");
    let tpl = OutputTemplate::new(5, &base, "body text".to_string());
    assert_eq!(tpl.index, 5);
    assert_eq!(tpl.config.base_name, "inst");
    assert_eq!(tpl.config.iterations, 1);
    assert_eq!(tpl.body, "body text");
}

#[test]
fn counter_over_zero_parameters_has_exactly_one_state() {
    let mut it = ConfigIterator::new(Vec::new());
    assert!(it.snapshot().is_empty());
    assert!(it.has_next());
    it.compute_next();
    assert!(!it.has_next());
}
