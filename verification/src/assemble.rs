//! The mathematical model of the config assembler: what a rendered parameter
//! block is, as a sequence of characters, for a given constant set and
//! variable assignment.

use vstd::prelude::*;

verus! {

/// One `name: value` line, booleans in their canonical textual form.
pub open spec fn render_pair(name: Seq<char>, value: bool) -> Seq<char> {
    name + ": "@ + (if value {
        "true"@
    } else {
        "false"@
    }) + "\n"@
}

/// A parameter section: one line per (name, value) pair, in sequence order.
pub open spec fn render_params(ps: Seq<(Seq<char>, bool)>) -> Seq<char>
    decreases ps.len(),
{
    if ps.len() == 0 {
        Seq::empty()
    } else {
        render_pair(ps[0].0, ps[0].1) + render_params(ps.skip(1))
    }
}

/// The label that opens the constant section.
pub open spec fn constant_header() -> Seq<char> {
    "# Constant Parameters\n"@
}

/// The label that opens the variable section.
pub open spec fn variable_header() -> Seq<char> {
    "# Test Parameters\n"@
}

/// A whole rendered block: the labeled constant section first, then the
/// labeled variable section.
pub open spec fn render_block(
    constants: Seq<(Seq<char>, bool)>,
    variables: Seq<(Seq<char>, bool)>,
) -> Seq<char> {
    constant_header() + render_params(constants) + variable_header() + render_params(variables)
}

/// The view of an ordered (name, value) list.
pub open spec fn pairs_view(ps: Seq<(String, bool)>) -> Seq<(Seq<char>, bool)> {
    ps.map_values(|p: (String, bool)| (p.0@, p.1))
}

/// Rendering distributes over appending one pair at the end.
pub proof fn lemma_render_params_snoc(ps: Seq<(Seq<char>, bool)>, i: int)
    requires
        0 <= i < ps.len(),
    ensures
        render_params(ps.take(i + 1)) == render_params(ps.take(i)) + render_pair(ps[i].0, ps[i].1),
    decreases i,
{
    let a = ps.take(i + 1);
    let b = ps.take(i);
    if i == 0 {
        assert(a.skip(1) =~= Seq::empty());
        assert(render_params(a) == render_pair(a[0].0, a[0].1) + render_params(a.skip(1)));
        assert(render_params(a) =~= render_params(b) + render_pair(ps[0].0, ps[0].1));
    } else {
        lemma_render_params_snoc(ps.skip(1), i - 1);
        assert(a.skip(1) =~= ps.skip(1).take(i));
        assert(b.skip(1) =~= ps.skip(1).take(i - 1));
        assert(ps.skip(1)[i - 1] == ps[i]);
        assert(render_params(a) == render_pair(ps[0].0, ps[0].1) + render_params(ps.skip(1).take(i)));
        assert(render_params(b) == render_pair(ps[0].0, ps[0].1) + render_params(
            ps.skip(1).take(i - 1),
        ));
        assert(render_params(a) =~= render_params(b) + render_pair(ps[i].0, ps[i].1));
    }
}

/// Appending two different suffixes to one prefix gives two different
/// sequences.
pub proof fn lemma_concat_cancel<A>(a: Seq<A>, b1: Seq<A>, b2: Seq<A>)
    requires
        b1 != b2,
    ensures
        a + b1 != a + b2,
{
    if a + b1 == a + b2 {
        assert((a + b1).len() == a.len() + b1.len());
        assert((a + b2).len() == a.len() + b2.len());
        assert(b1.len() == b2.len());
        assert forall|i: int| 0 <= i < b1.len() implies b1[i] == b2[i] by {
            assert((a + b1)[a.len() + i] == b1[i]);
            assert((a + b2)[a.len() + i] == b2[i]);
        }
        assert(b1 =~= b2);
    }
}

/// With no variable parameters the variable section is empty: the block is
/// the labeled constant section followed by the bare variable label.
pub proof fn lemma_empty_variable_section(constants: Seq<(Seq<char>, bool)>)
    ensures
        render_params(Seq::<(Seq<char>, bool)>::empty()) == Seq::<char>::empty(),
        render_block(constants, Seq::<(Seq<char>, bool)>::empty()) == constant_header()
            + render_params(constants) + variable_header(),
{
    assert(render_block(constants, Seq::<(Seq<char>, bool)>::empty()) =~= constant_header()
        + render_params(constants) + variable_header());
}

/// Every rendered block opens with the same constant section: the labeled
/// constant text is a prefix of the block and does not depend on the variable
/// assignment, so it is identical, in declared order and with unchanged
/// values, across a whole enumeration.
pub proof fn lemma_constant_section_fixed(
    constants: Seq<(Seq<char>, bool)>,
    v1: Seq<(Seq<char>, bool)>,
    v2: Seq<(Seq<char>, bool)>,
)
    ensures
        render_block(constants, v1).take(
            (constant_header() + render_params(constants)).len() as int,
        ) == constant_header() + render_params(constants),
        render_block(constants, v1).take(
            (constant_header() + render_params(constants)).len() as int,
        ) == render_block(constants, v2).take(
            (constant_header() + render_params(constants)).len() as int,
        ),
{
    let pre = constant_header() + render_params(constants);
    assert(render_block(constants, v1).take(pre.len() as int) =~= pre);
    assert(render_block(constants, v2).take(pre.len() as int) =~= pre);
}

/// Rendering is injective in the variable values: two assignments over the
/// same names that differ anywhere render to different section texts.
pub proof fn lemma_render_params_injective(
    p1: Seq<(Seq<char>, bool)>,
    p2: Seq<(Seq<char>, bool)>,
)
    requires
        p1.len() == p2.len(),
        forall|t: int| 0 <= t < p1.len() ==> (#[trigger] p1[t]).0 == p2[t].0,
        p1 != p2,
    ensures
        render_params(p1) != render_params(p2),
    decreases p1.len(),
{
    if p1.len() == 0 {
        assert(p1 =~= p2);
    }
    reveal_strlit("true");
    reveal_strlit("false");
    reveal_strlit(": ");
    reveal_strlit("\n");
    let n = p1[0].0;
    if p1[0].1 != p2[0].1 {
        let idx = n.len() as int + 2;
        assert(render_pair(n, true).len() == n.len() + 7);
        assert(render_pair(n, false).len() == n.len() + 8);
        assert(render_pair(n, true)[idx] == 't');
        assert(render_pair(n, false)[idx] == 'f');
        assert(render_params(p1)[idx] == render_pair(p1[0].0, p1[0].1)[idx]);
        assert(render_params(p2)[idx] == render_pair(p2[0].0, p2[0].1)[idx]);
        assert(render_params(p1)[idx] != render_params(p2)[idx]);
    } else {
        assert(p1[0] == p2[0]);
        assert(p1.skip(1) != p2.skip(1)) by {
            if p1.skip(1) == p2.skip(1) {
                assert(forall|t: int| 1 <= t < p1.len() ==> p1[t] == p1.skip(1)[t - 1]);
                assert(forall|t: int| 1 <= t < p2.len() ==> p2[t] == p2.skip(1)[t - 1]);
                assert(p1 =~= p2);
            }
        }
        assert(forall|t: int|
            0 <= t < p1.skip(1).len() ==> (#[trigger] p1.skip(1)[t]).0 == p2.skip(1)[t].0) by {
            assert(forall|t: int| 0 <= t < p1.skip(1).len() ==> p1.skip(1)[t] == p1[t + 1]);
            assert(forall|t: int| 0 <= t < p2.skip(1).len() ==> p2.skip(1)[t] == p2[t + 1]);
        }
        lemma_render_params_injective(p1.skip(1), p2.skip(1));
        lemma_concat_cancel(
            render_pair(p1[0].0, p1[0].1),
            render_params(p1.skip(1)),
            render_params(p2.skip(1)),
        );
    }
}

/// No two rendered blocks of one enumeration are textually identical: two
/// assignments over the same names with different values — in particular two
/// different steps of a full enumeration — render, with the same constant
/// set, to different blocks.
pub proof fn lemma_blocks_distinct(
    constants: Seq<(Seq<char>, bool)>,
    p1: Seq<(Seq<char>, bool)>,
    p2: Seq<(Seq<char>, bool)>,
)
    requires
        p1.len() == p2.len(),
        forall|t: int| 0 <= t < p1.len() ==> (#[trigger] p1[t]).0 == p2[t].0,
        crate::counter::val_of(p1.map_values(|p: (Seq<char>, bool)| p.1)) != crate::counter::val_of(
            p2.map_values(|p: (Seq<char>, bool)| p.1),
        ),
    ensures
        render_block(constants, p1) != render_block(constants, p2),
{
    assert(p1 != p2);
    lemma_render_params_injective(p1, p2);
    lemma_concat_cancel(
        constant_header() + render_params(constants) + variable_header(),
        render_params(p1),
        render_params(p2),
    );
}

} // verus!
