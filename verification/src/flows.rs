//! Flow configuration and the weighted selection tables derived from it.
//!
//! Flows sharing a non-empty label compete: their proportions partition the
//! draw space among themselves, in stable list order. Flows with an empty
//! label are unconditional and take no part in any competition.
//!
//! The derived table maps each competing destination to a half-open
//! interval of the draw space. One uniform draw is taken per routing
//! decision and tested against every interval, so the top of the space is
//! covered exactly: the intervals of one label group are contiguous,
//! start at zero and end at the group's proportion sum.

use vstd::prelude::*;
use crate::domain::{Executor, Thing, ThingType};

verus! {

/// Selection weight of one flow: a proportion and the label naming the
/// competition it takes part in. An empty label means no competition.
#[derive(Debug)]
pub struct Weight {
    pub proportion: u8,
    pub label: String,
}

/// A configured directed edge from one stream to another, carrying the
/// executor to invoke and a selection weight.
#[derive(Debug)]
pub struct OneStepFlow {
    pub from: Thing,
    pub to: Thing,
    pub executor: Executor,
    pub weight: Weight,
}

impl Clone for Weight {
    fn clone(&self) -> (r: Weight)
        ensures
            r == *self,
    {
        Weight { proportion: self.proportion, label: self.label.clone() }
    }
}

impl Clone for OneStepFlow {
    fn clone(&self) -> (r: OneStepFlow)
        ensures
            r == *self,
    {
        OneStepFlow {
            from: self.from.clone(),
            to: self.to.clone(),
            executor: self.executor.clone(),
            weight: self.weight.clone(),
        }
    }
}

/// One destination's share of the draw space: the half-open interval
/// `[begin, end)` in units of `1/sum`, where `sum` is the proportion sum
/// of the destination's label group.
#[derive(Clone, Debug)]
pub struct WeightRange {
    pub to: Thing,
    pub begin: u128,
    pub end: u128,
    pub sum: u128,
}

/// The number of distinct values one uniform draw can take.
pub const DRAW_SPACE: u64 = 0x1_0000_0000;

/// The proportion sum of a flow list.
pub open spec fn prop_sum(g: Seq<OneStepFlow>) -> nat
    decreases g.len(),
{
    if g.len() == 0 {
        0
    } else {
        prop_sum(g.drop_last()) + g.last().weight.proportion as nat
    }
}

/// The flows of `flows` competing under `label`, in list order.
pub open spec fn group_members(flows: Seq<OneStepFlow>, label: Seq<char>) -> Seq<OneStepFlow> {
    flows.filter(|f: OneStepFlow| f.weight.label@ == label)
}

/// The distinct non-empty labels of `flows`, in first-occurrence order.
pub open spec fn labels_of(flows: Seq<OneStepFlow>) -> Seq<Seq<char>>
    decreases flows.len(),
{
    if flows.len() == 0 {
        Seq::empty()
    } else {
        let earlier = labels_of(flows.drop_last());
        let lbl = flows.last().weight.label@;
        if lbl.len() == 0 || earlier.contains(lbl) {
            earlier
        } else {
            earlier.push(lbl)
        }
    }
}

/// The selection intervals of one label group: contiguous, in list order,
/// starting at zero; the group's whole proportion sum is distributed. A
/// group whose proportions sum to zero gets no intervals at all.
pub open spec fn group_ranges(g: Seq<OneStepFlow>) -> Seq<WeightRange> {
    if prop_sum(g) == 0 {
        Seq::empty()
    } else {
        Seq::new(
            g.len(),
            |i: int|
                (WeightRange {
                    to: g[i].to,
                    begin: prop_sum(g.take(i)) as u128,
                    end: (prop_sum(g.take(i)) + g[i].weight.proportion) as u128,
                    sum: prop_sum(g) as u128,
                }),
        )
    }
}

/// The table built from `flows` for the given label list.
pub open spec fn table_for_labels(flows: Seq<OneStepFlow>, labels: Seq<Seq<char>>) -> Seq<
    WeightRange,
>
    decreases labels.len(),
{
    if labels.len() == 0 {
        Seq::empty()
    } else {
        table_for_labels(flows, labels.drop_last()) + group_ranges(
            group_members(flows, labels.last()),
        )
    }
}

/// The full weight range table of a flow list.
pub open spec fn table_spec(flows: Seq<OneStepFlow>) -> Seq<WeightRange> {
    table_for_labels(flows, labels_of(flows))
}

/// The first table entry for a destination, if any.
pub open spec fn find_range(
    table: Seq<WeightRange>,
    to: (Seq<char>, int, ThingType),
) -> Option<WeightRange>
    decreases table.len(),
{
    if table.len() == 0 {
        None
    } else if table[0].to@ == to {
        Some(table[0])
    } else {
        find_range(table.drop_first(), to)
    }
}

/// Whether the draw `d` falls inside the interval of `e`: the draw space
/// is scaled by the group sum so that the comparison is exact.
pub open spec fn in_range(e: WeightRange, d: u32) -> bool {
    e.begin * DRAW_SPACE <= d * e.sum < e.end * DRAW_SPACE
}

/// Whether the flow towards `to` is selected by draw `d`: destinations
/// without an interval are unconditional.
pub open spec fn selects(table: Seq<WeightRange>, to: (Seq<char>, int, ThingType), d: u32) -> bool {
    match find_range(table, to) {
        None => true,
        Some(e) => in_range(e, d),
    }
}

/// The flows that one routing decision forwards to, for draw `d`.
pub open spec fn selected(flows: Seq<OneStepFlow>, table: Seq<WeightRange>, d: u32) -> Seq<
    OneStepFlow,
> {
    flows.filter(|f: OneStepFlow| selects(table, f.to@, d))
}

/// A label group in executable form.
#[derive(Clone, Debug)]
pub struct LabelGroup {
    pub label: String,
    pub members: Vec<OneStepFlow>,
}

/// The proportion sum never exceeds 255 per member.
pub proof fn lemma_prop_sum_bound(g: Seq<OneStepFlow>)
    ensures
        prop_sum(g) <= 255 * g.len(),
    decreases g.len(),
{
    if g.len() > 0 {
        lemma_prop_sum_bound(g.drop_last());
    }
}

/// Proportion sums grow along prefixes.
pub proof fn lemma_prop_sum_take_le(g: Seq<OneStepFlow>, i: int, j: int)
    requires
        0 <= i <= j <= g.len(),
    ensures
        prop_sum(g.take(i)) <= prop_sum(g.take(j)),
    decreases j - i,
{
    if i < j {
        lemma_prop_sum_take_le(g, i, j - 1);
        assert(g.take(j).drop_last() =~= g.take(j - 1));
        assert(prop_sum(g.take(j)) == prop_sum(g.take(j - 1)) + g[j - 1].weight.proportion as nat);
    }
}

/// One step of the proportion sum along a prefix.
pub proof fn lemma_prop_sum_take_step(g: Seq<OneStepFlow>, i: int)
    requires
        0 <= i < g.len(),
    ensures
        prop_sum(g.take(i + 1)) == prop_sum(g.take(i)) + g[i].weight.proportion as nat,
{
    assert(g.take(i + 1).drop_last() =~= g.take(i));
    assert(g.take(i + 1).last() == g[i]);
}

/// One step of a filter along a prefix.
pub proof fn lemma_filter_take_step(s: Seq<OneStepFlow>, i: int, pred: spec_fn(OneStepFlow) -> bool)
    requires
        0 <= i < s.len(),
    ensures
        s.take(i + 1).filter(pred) == if pred(s[i]) {
            s.take(i).filter(pred).push(s[i])
        } else {
            s.take(i).filter(pred)
        },
{
    assert(s.take(i + 1).drop_last() =~= s.take(i));
    assert(s.take(i + 1).last() == s[i]);
    reveal(Seq::filter);
}

/// One step of the label list along a prefix.
pub proof fn lemma_labels_take_step(s: Seq<OneStepFlow>, i: int)
    requires
        0 <= i < s.len(),
    ensures
        labels_of(s.take(i + 1)) == (if s[i].weight.label@.len() == 0 || labels_of(
            s.take(i),
        ).contains(s[i].weight.label@) {
            labels_of(s.take(i))
        } else {
            labels_of(s.take(i)).push(s[i].weight.label@)
        }),
{
    assert(s.take(i + 1).drop_last() =~= s.take(i));
    assert(s.take(i + 1).last() == s[i]);
}

/// Groups flows by their non-empty labels: the result lists every label in
/// first-occurrence order, each with exactly the flows competing under it,
/// in list order. Flows with an empty label belong to no group.
pub fn get_label_groups(maps: &Vec<OneStepFlow>) -> (r: Vec<LabelGroup>)
    ensures
        r@.map_values(|g: LabelGroup| g.label@) == labels_of(maps@),
        forall|k: int|
            0 <= k < r@.len() ==> r@[k].members@ == group_members(maps@, r@[k].label@),
        forall|k: int| 0 <= k < r@.len() ==> r@[k].label@.len() > 0,
{
    let ghost all = maps@;
    let mut labels: Vec<String> = Vec::new();
    let mut i: usize = 0;
    while i < maps.len()
        invariant
            i <= maps.len(),
            all == maps@,
            labels@.map_values(|l: String| l@) == labels_of(all.take(i as int)),
            forall|k: int| 0 <= k < labels@.len() ==> labels@[k]@.len() > 0,
        decreases maps.len() - i,
    {
        let lbl = maps[i].weight.label.clone();
        proof {
            lemma_labels_take_step(all, i as int);
        }
        if !lbl.as_str().is_empty() {
            let mut found = false;
            let mut j: usize = 0;
            while j < labels.len()
                invariant
                    j <= labels.len(),
                    found ==> labels_of(all.take(i as int)).contains(lbl@),
                    !found ==> forall|k: int| 0 <= k < j ==> labels@[k]@ != lbl@,
                    labels@.map_values(|l: String| l@) == labels_of(all.take(i as int)),
                decreases labels.len() - j,
            {
                if labels[j] == lbl {
                    found = true;
                    proof {
                        assert(labels@.map_values(|l: String| l@)[j as int] == lbl@);
                    }
                }
                j = j + 1;
            }
            if !found {
                proof {
                    if labels_of(all.take(i as int)).contains(lbl@) {
                        let w = choose|w: int|
                            0 <= w < labels_of(all.take(i as int)).len() && labels_of(
                                all.take(i as int),
                            )[w] == lbl@;
                        assert(labels@.map_values(|l: String| l@)[w] == lbl@);
                        assert(false);
                    }
                }
                labels.push(lbl);
                proof {
                    assert(labels@.map_values(|l: String| l@) =~= labels_of(
                        all.take(i as int),
                    ).push(lbl@));
                }
            }
        }
        i = i + 1;
    }
    proof {
        assert(all.take(maps@.len() as int) =~= all);
    }
    let mut r: Vec<LabelGroup> = Vec::new();
    let mut g: usize = 0;
    while g < labels.len()
        invariant
            g <= labels.len(),
            all == maps@,
            labels@.map_values(|l: String| l@) == labels_of(all),
            forall|k: int| 0 <= k < labels@.len() ==> labels@[k]@.len() > 0,
            r@.len() == g,
            forall|k: int| 0 <= k < g ==> r@[k].label@ == labels@[k]@,
            forall|k: int| 0 <= k < g ==> r@[k].members@ == group_members(all, r@[k].label@),
        decreases labels.len() - g,
    {
        let lbl = labels[g].clone();
        assert(lbl@ == labels@[g as int]@);
        let mut members: Vec<OneStepFlow> = Vec::new();
        let mut i2: usize = 0;
        while i2 < maps.len()
            invariant
                i2 <= maps.len(),
                all == maps@,
                lbl@ == labels@[g as int]@,
                members@ == group_members(all.take(i2 as int), lbl@),
            decreases maps.len() - i2,
        {
            proof {
                lemma_filter_take_step(
                    all,
                    i2 as int,
                    |f: OneStepFlow| f.weight.label@ == lbl@,
                );
            }
            if maps[i2].weight.label == lbl {
                members.push(maps[i2].clone());
            }
            i2 = i2 + 1;
        }
        proof {
            assert(all.take(maps@.len() as int) =~= all);
        }
        r.push(LabelGroup { label: lbl, members });
        g = g + 1;
    }
    proof {
        assert(r@.map_values(|g: LabelGroup| g.label@) =~= labels_of(all));
        assert forall|k: int| 0 <= k < r@.len() implies r@[k].label@.len() > 0 by {
            assert(r@[k].label@ == labels@[k]@);
        }
    }
    r
}

/// The table built from a list of label groups, group by group.
pub open spec fn table_of_groups(gs: Seq<LabelGroup>) -> Seq<WeightRange>
    decreases gs.len(),
{
    if gs.len() == 0 {
        Seq::empty()
    } else {
        table_of_groups(gs.drop_last()) + group_ranges(gs.last().members@)
    }
}

/// Derives the weight range table: each label group's proportions are laid
/// out as contiguous intervals in list order; a group whose proportions sum
/// to zero contributes nothing.
pub fn weight_calculate(labels: &Vec<LabelGroup>) -> (r: Vec<WeightRange>)
    ensures
        r@ == table_of_groups(labels@),
{
    let mut out: Vec<WeightRange> = Vec::new();
    let mut gi: usize = 0;
    while gi < labels.len()
        invariant
            gi <= labels.len(),
            out@ == table_of_groups(labels@.take(gi as int)),
        decreases labels.len() - gi,
    {
        let members = &labels[gi].members;
        let ghost m = members@;
        proof {
            assert(labels@.take(gi + 1 as int).drop_last() =~= labels@.take(gi as int));
            assert(labels@.take(gi + 1 as int).last() == labels@[gi as int]);
        }
        // the group's proportion sum
        let mut sum: u128 = 0;
        let mut k: usize = 0;
        while k < members.len()
            invariant
                k <= members.len(),
                m == members@,
                sum == prop_sum(m.take(k as int)),
                sum <= 255 * k,
            decreases members.len() - k,
        {
            proof {
                lemma_prop_sum_take_step(m, k as int);
            }
            sum = sum + members[k].weight.proportion as u128;
            k = k + 1;
        }
        proof {
            assert(m.take(members@.len() as int) =~= m);
        }
        if sum > 0 {
            let ghost before = out@;
            let mut begin: u128 = 0;
            let mut k2: usize = 0;
            while k2 < members.len()
                invariant
                    k2 <= members.len(),
                    m == members@,
                    sum == prop_sum(m),
                    sum > 0,
                    begin == prop_sum(m.take(k2 as int)),
                    out@ == before + group_ranges(m).take(k2 as int),
                decreases members.len() - k2,
            {
                proof {
                    lemma_prop_sum_take_step(m, k2 as int);
                    lemma_prop_sum_take_le(m, k2 + 1 as int, m.len() as int);
                    assert(m.take(m.len() as int) =~= m);
                }
                let w = members[k2].weight.proportion;
                out.push(
                    WeightRange {
                        to: members[k2].to.clone(),
                        begin,
                        end: begin + w as u128,
                        sum,
                    },
                );
                proof {
                    assert(group_ranges(m)[k2 as int] == (WeightRange {
                        to: m[k2 as int].to,
                        begin: prop_sum(m.take(k2 as int)) as u128,
                        end: (prop_sum(m.take(k2 as int)) + m[k2 as int].weight.proportion) as u128,
                        sum: prop_sum(m) as u128,
                    }));
                    assert(group_ranges(m).take(k2 + 1 as int) =~= group_ranges(m).take(
                        k2 as int,
                    ).push(group_ranges(m)[k2 as int]));
                    assert(out@ =~= before + group_ranges(m).take(k2 + 1 as int));
                }
                begin = begin + w as u128;
                k2 = k2 + 1;
            }
            proof {
                assert(group_ranges(m).take(group_ranges(m).len() as int) =~= group_ranges(m));
                assert(out@ =~= table_of_groups(labels@.take(gi + 1 as int)));
            }
        } else {
            proof {
                assert(group_ranges(m) =~= Seq::<WeightRange>::empty());
                assert(out@ =~= table_of_groups(labels@.take(gi + 1 as int)));
            }
        }
        gi = gi + 1;
    }
    proof {
        assert(labels@.take(labels@.len() as int) =~= labels@);
    }
    out
}

/// The group table equals the label table when the groups are exactly the
/// label groups of the flow list.
pub proof fn lemma_table_of_groups_eq(
    flows: Seq<OneStepFlow>,
    gs: Seq<LabelGroup>,
    labels: Seq<Seq<char>>,
)
    requires
        gs.len() == labels.len(),
        forall|k: int| 0 <= k < gs.len() ==> gs[k].label@ == labels[k],
        forall|k: int|
            0 <= k < gs.len() ==> gs[k].members@ == group_members(flows, gs[k].label@),
    ensures
        table_of_groups(gs) == table_for_labels(flows, labels),
    decreases gs.len(),
{
    if gs.len() > 0 {
        lemma_table_of_groups_eq(flows, gs.drop_last(), labels.drop_last());
        assert(gs.last().members@ == group_members(flows, labels.last()));
    }
}

/// The largest proportion sum any label group can reach.
pub const MAX_GROUP_SUM: u128 = 0xFF00_0000_0000_0000_00;

/// Structural bounds on a weight range table: intervals are ordered and
/// bounded by their group sum.
pub open spec fn wf_ranges(t: Seq<WeightRange>) -> bool {
    forall|i: int|
        0 <= i < t.len() ==> #[trigger] t[i].begin <= t[i].end && t[i].end <= t[i].sum
            && t[i].sum <= MAX_GROUP_SUM
}

/// A filter never lengthens a sequence.
pub proof fn lemma_filter_len_le(s: Seq<OneStepFlow>, pred: spec_fn(OneStepFlow) -> bool)
    ensures
        s.filter(pred).len() <= s.len(),
    decreases s.len(),
{
    reveal(Seq::filter);
    if s.len() > 0 {
        lemma_filter_len_le(s.drop_last(), pred);
    }
}

/// The intervals of one group are structurally bounded.
pub proof fn lemma_group_ranges_wf(g: Seq<OneStepFlow>)
    requires
        g.len() <= 0xFFFF_FFFF_FFFF_FFFF,
    ensures
        wf_ranges(group_ranges(g)),
{
    if prop_sum(g) > 0 {
        let t = group_ranges(g);
        assert forall|i: int|
            0 <= i < t.len() implies #[trigger] t[i].begin <= t[i].end && t[i].end <= t[i].sum
            && t[i].sum <= MAX_GROUP_SUM by {
            lemma_prop_sum_take_step(g, i);
            lemma_prop_sum_take_le(g, i + 1, g.len() as int);
            assert(g.take(g.len() as int) =~= g);
            lemma_prop_sum_bound(g);
        }
    }
}

/// Every table a flow list can derive is structurally bounded.
pub proof fn lemma_table_for_labels_wf(flows: Seq<OneStepFlow>, labels: Seq<Seq<char>>)
    requires
        flows.len() <= 0xFFFF_FFFF_FFFF_FFFF,
    ensures
        wf_ranges(table_for_labels(flows, labels)),
    decreases labels.len(),
{
    if labels.len() > 0 {
        lemma_table_for_labels_wf(flows, labels.drop_last());
        let g = group_members(flows, labels.last());
        lemma_filter_len_le(flows, |f: OneStepFlow| f.weight.label@ == labels.last());
        lemma_group_ranges_wf(g);
        let a = table_for_labels(flows, labels.drop_last());
        let b = group_ranges(g);
        assert forall|i: int|
            0 <= i < (a + b).len() implies #[trigger] (a + b)[i].begin <= (a + b)[i].end && (a
            + b)[i].end <= (a + b)[i].sum && (a + b)[i].sum <= MAX_GROUP_SUM by {
            if i < a.len() {
                assert((a + b)[i] == a[i]);
            } else {
                assert((a + b)[i] == b[i - a.len()]);
            }
        }
    }
}

/// The full table of a flow list is structurally bounded.
pub proof fn lemma_table_spec_wf(flows: Seq<OneStepFlow>)
    requires
        flows.len() <= 0xFFFF_FFFF_FFFF_FFFF,
    ensures
        wf_ranges(table_spec(flows)),
{
    lemma_table_for_labels_wf(flows, labels_of(flows));
}

/// A first-match lookup lands on index `j` when nothing earlier matches.
pub proof fn lemma_find_range_at(t: Seq<WeightRange>, to: (Seq<char>, int, ThingType), j: int)
    requires
        0 <= j < t.len(),
        forall|k: int| 0 <= k < j ==> t[k].to@ != to,
        t[j].to@ == to,
    ensures
        find_range(t, to) == Some(t[j]),
    decreases j,
{
    if j > 0 {
        lemma_find_range_at(t.drop_first(), to, j - 1);
    }
}

/// A lookup finds nothing when no entry matches.
pub proof fn lemma_find_range_none(t: Seq<WeightRange>, to: (Seq<char>, int, ThingType))
    requires
        forall|k: int| 0 <= k < t.len() ==> t[k].to@ != to,
    ensures
        find_range(t, to) is None,
    decreases t.len(),
{
    if t.len() > 0 {
        lemma_find_range_none(t.drop_first(), to);
    }
}

/// Decides whether the flow towards `to` is forwarded for draw `d`.
fn is_selected(balances: &Vec<WeightRange>, to: &Thing, d: u32) -> (r: bool)
    requires
        wf_ranges(balances@),
    ensures
        r == selects(balances@, to@, d),
{
    let mut j: usize = 0;
    while j < balances.len()
        invariant
            j <= balances.len(),
            wf_ranges(balances@),
            forall|k: int| 0 <= k < j ==> balances@[k].to@ != to@,
        decreases balances.len() - j,
    {
        if balances[j].to.same_as(to) {
            proof {
                lemma_find_range_at(balances@, to@, j as int);
            }
            let e = &balances[j];
            proof {
                assert(balances@[j as int].begin <= balances@[j as int].end);
                assert(e.sum <= MAX_GROUP_SUM);
                assert((d as u128) * e.sum <= 0xFFFF_FFFF * MAX_GROUP_SUM) by (nonlinear_arith)
                    requires
                        d as u128 <= 0xFFFF_FFFF,
                        e.sum <= MAX_GROUP_SUM,
                ;
                assert(e.begin * (DRAW_SPACE as u128) <= MAX_GROUP_SUM * (DRAW_SPACE as u128)
                    && e.end * (DRAW_SPACE as u128) <= MAX_GROUP_SUM * (DRAW_SPACE as u128))
                    by (nonlinear_arith)
                    requires
                        e.begin <= MAX_GROUP_SUM,
                        e.end <= MAX_GROUP_SUM,
                ;
            }
            let scaled: u128 = (d as u128) * e.sum;
            let lo: u128 = e.begin * (DRAW_SPACE as u128);
            let hi: u128 = e.end * (DRAW_SPACE as u128);
            return lo <= scaled && scaled < hi;
        }
        j = j + 1;
    }
    proof {
        lemma_find_range_none(balances@, to@);
    }
    true
}

/// One routing decision: keeps every flow whose destination either has no
/// interval (unconditional) or whose interval contains the draw.
pub fn weight_filter(
    relations: &Vec<OneStepFlow>,
    balances: &Vec<WeightRange>,
    d: u32,
) -> (r: Vec<OneStepFlow>)
    requires
        wf_ranges(balances@),
    ensures
        r@ == selected(relations@, balances@, d),
{
    let mut out: Vec<OneStepFlow> = Vec::new();
    let mut i: usize = 0;
    while i < relations.len()
        invariant
            i <= relations.len(),
            wf_ranges(balances@),
            out@ == selected(relations@.take(i as int), balances@, d),
        decreases relations.len() - i,
    {
        proof {
            lemma_filter_take_step(
                relations@,
                i as int,
                |f: OneStepFlow| selects(balances@, f.to@, d),
            );
        }
        if is_selected(balances, &relations[i].to, d) {
            out.push(relations[i].clone());
        }
        i = i + 1;
    }
    proof {
        assert(relations@.take(relations@.len() as int) =~= relations@);
    }
    out
}

/// A flow list whose labels are all empty has no labels.
pub proof fn lemma_labels_all_empty(flows: Seq<OneStepFlow>)
    requires
        forall|i: int| 0 <= i < flows.len() ==> flows[i].weight.label@.len() == 0,
    ensures
        labels_of(flows) == Seq::<Seq<char>>::empty(),
    decreases flows.len(),
{
    if flows.len() > 0 {
        lemma_labels_all_empty(flows.drop_last());
    }
}

/// A filter whose predicate holds everywhere keeps everything.
pub proof fn lemma_filter_all_true(s: Seq<OneStepFlow>, pred: spec_fn(OneStepFlow) -> bool)
    requires
        forall|i: int| 0 <= i < s.len() ==> pred(s[i]),
    ensures
        s.filter(pred) == s,
    decreases s.len(),
{
    reveal(Seq::filter);
    if s.len() > 0 {
        lemma_filter_all_true(s.drop_last(), pred);
        assert(s.filter(pred) =~= s);
    }
}

/// A group label shared by every flow collects every flow.
pub proof fn lemma_group_members_all(flows: Seq<OneStepFlow>, lbl: Seq<char>)
    requires
        forall|i: int| 0 <= i < flows.len() ==> flows[i].weight.label@ == lbl,
    ensures
        group_members(flows, lbl) == flows,
    decreases flows.len(),
{
    reveal(Seq::filter);
    if flows.len() > 0 {
        lemma_group_members_all(flows.drop_last(), lbl);
        assert(group_members(flows, lbl) =~= flows);
    }
}

/// Unconditional pass-through: a flow list whose labels are all empty
/// derives an empty weight table, and every routing decision forwards to
/// every flow, whatever the draw.
pub proof fn lemma_unlabelled_pass_through(flows: Seq<OneStepFlow>, d: u32)
    requires
        forall|i: int| 0 <= i < flows.len() ==> flows[i].weight.label@.len() == 0,
    ensures
        table_spec(flows) == Seq::<WeightRange>::empty(),
        selected(flows, table_spec(flows), d) == flows,
{
    lemma_labels_all_empty(flows);
    let t = table_spec(flows);
    assert forall|i: int| 0 <= i < flows.len() implies (|f: OneStepFlow|
        selects(t, f.to@, d))(flows[i]) by {
        lemma_find_range_none(t, flows[i].to@);
    }
    lemma_filter_all_true(flows, |f: OneStepFlow| selects(t, f.to@, d));
}

/// A flow list sharing one non-empty label has exactly that label.
pub proof fn lemma_labels_single(flows: Seq<OneStepFlow>, lbl: Seq<char>)
    requires
        lbl.len() > 0,
        flows.len() > 0,
        forall|i: int| 0 <= i < flows.len() ==> flows[i].weight.label@ == lbl,
    ensures
        labels_of(flows) == seq![lbl],
    decreases flows.len(),
{
    if flows.len() == 1 {
        assert(labels_of(flows.drop_last()) == Seq::<Seq<char>>::empty());
        assert(labels_of(flows) =~= seq![lbl]);
    } else {
        lemma_labels_single(flows.drop_last(), lbl);
        assert(seq![lbl][0] == lbl);
        assert(labels_of(flows.drop_last()).contains(lbl));
    }
}

/// Proportional, gap-free coverage for one label group: each member's
/// interval width is exactly its proportion (in units of `1/sum`), the
/// intervals are contiguous in list order, start at zero, and end at the
/// full group sum — the whole draw space is covered.
pub proof fn lemma_canary_partition(flows: Seq<OneStepFlow>, lbl: Seq<char>)
    requires
        lbl.len() > 0,
        0 < flows.len() <= 0xFFFF_FFFF_FFFF_FFFF,
        forall|i: int| 0 <= i < flows.len() ==> flows[i].weight.label@ == lbl,
        prop_sum(flows) > 0,
    ensures
        table_spec(flows).len() == flows.len(),
        forall|i: int|
            0 <= i < flows.len() ==> #[trigger] table_spec(flows)[i].to == flows[i].to,
        forall|i: int|
            0 <= i < flows.len() ==> #[trigger] table_spec(flows)[i].sum == prop_sum(flows),
        forall|i: int|
            0 <= i < flows.len() ==> #[trigger] table_spec(flows)[i].begin == prop_sum(
                flows.take(i),
            ),
        forall|i: int|
            0 <= i < flows.len() ==> #[trigger] table_spec(flows)[i].end == table_spec(
                flows,
            )[i].begin + flows[i].weight.proportion,
        forall|i: int|
            0 < i < flows.len() ==> #[trigger] table_spec(flows)[i].begin == table_spec(
                flows,
            )[i - 1].end,
        table_spec(flows)[0].begin == 0,
        table_spec(flows)[flows.len() - 1].end == prop_sum(flows),
{
    lemma_labels_single(flows, lbl);
    lemma_group_members_all(flows, lbl);
    let labels = seq![lbl];
    assert(labels.len() == 1);
    assert(labels.drop_last() =~= Seq::<Seq<char>>::empty());
    assert(table_for_labels(flows, labels.drop_last()) == Seq::<WeightRange>::empty());
    assert(labels.last() == lbl);
    assert(table_for_labels(flows, labels) =~= group_ranges(flows));
    let t = table_spec(flows);
    assert(t == group_ranges(flows));
    lemma_prop_sum_bound(flows);
    assert forall|i: int|
        0 <= i < flows.len() implies #[trigger] t[i].begin == prop_sum(flows.take(i))
        && t[i].end == t[i].begin + flows[i].weight.proportion && t[i].to == flows[i].to
        && t[i].sum == prop_sum(flows) by {
        lemma_prop_sum_take_le(flows, i, flows.len() as int);
        lemma_prop_sum_take_step(flows, i);
        lemma_prop_sum_take_le(flows, i + 1, flows.len() as int);
        assert(flows.take(flows.len() as int) =~= flows);
    }
    assert forall|i: int| 0 < i < flows.len() implies #[trigger] t[i].begin == t[i - 1].end by {
        lemma_prop_sum_take_step(flows, i - 1);
    }
    assert(flows.take(0) =~= Seq::<OneStepFlow>::empty());
    lemma_prop_sum_take_step(flows, flows.len() - 1);
    assert(flows.take(flows.len() as int) =~= flows);
}

/// Locates the unique interval of a prefix-sum partition containing `x`.
proof fn lemma_partition_index(g: Seq<OneStepFlow>, x: int) -> (i: int)
    requires
        0 <= x < prop_sum(g) * DRAW_SPACE,
    ensures
        0 <= i < g.len(),
        prop_sum(g.take(i)) * DRAW_SPACE <= x < (prop_sum(g.take(i))
            + g[i].weight.proportion) * DRAW_SPACE,
    decreases g.len(),
{
    assert(g.len() > 0);
    let w = prop_sum(g.drop_last());
    if x >= w * DRAW_SPACE {
        let i = g.len() - 1;
        assert(g.take(i) =~= g.drop_last());
        assert(prop_sum(g) == w + g[i].weight.proportion as nat);
        i
    } else {
        let i = lemma_partition_index(g.drop_last(), x);
        assert(g.drop_last().take(i) =~= g.take(i));
        assert(g.drop_last()[i] == g[i]);
        i
    }
}

/// One draw, one winner: in a group sharing one non-empty label, with
/// distinct destinations and a positive proportion sum, every draw selects
/// exactly one member — the probability mass covers the space with no gap
/// and no overlap.
pub proof fn lemma_canary_draw(flows: Seq<OneStepFlow>, lbl: Seq<char>, d: u32) -> (k: int)
    requires
        lbl.len() > 0,
        0 < flows.len() <= 0xFFFF_FFFF_FFFF_FFFF,
        forall|i: int| 0 <= i < flows.len() ==> flows[i].weight.label@ == lbl,
        forall|i: int, j: int| 0 <= i < j < flows.len() ==> flows[i].to@ != flows[j].to@,
        prop_sum(flows) > 0,
    ensures
        0 <= k < flows.len(),
        selects(table_spec(flows), flows[k].to@, d),
        forall|j: int|
            0 <= j < flows.len() && j != k ==> !selects(table_spec(flows), flows[j].to@, d),
{
    lemma_canary_partition(flows, lbl);
    let t = table_spec(flows);
    let s = prop_sum(flows);
    assert forall|j: int| 0 <= j < flows.len() implies #[trigger] find_range(t, flows[j].to@)
        == Some(t[j]) by {
        lemma_find_range_at(t, flows[j].to@, j);
    }
    let x = d * s;
    assert(0 <= x);
    assert(x < s * DRAW_SPACE) by (nonlinear_arith)
        requires
            x == d * s,
            d < DRAW_SPACE,
            s > 0,
    ;
    let k = lemma_partition_index(flows, x);
    assert(in_range(t[k], d));
    assert forall|j: int|
        0 <= j < flows.len() && j != k implies !selects(t, flows[j].to@, d) by {
        if in_range(t[j], d) {
            if j < k {
                lemma_prop_sum_take_le(flows, j + 1, k);
                lemma_prop_sum_take_step(flows, j);
                assert(false);
            } else {
                lemma_prop_sum_take_le(flows, k + 1, j);
                lemma_prop_sum_take_step(flows, k);
                assert(false);
            }
        }
    }
    k
}

/// A resolved routing entry: a flow list and the weight range table derived
/// from it, inseparable. Values of this type always carry a table that
/// matches their flow list, wherever they have been stored in between.
#[derive(Debug)]
pub struct ResolvedFlows {
    flows: Vec<OneStepFlow>,
    table: Vec<WeightRange>,
}

impl ResolvedFlows {
    /// The flow list.
    pub closed spec fn flows_view(self) -> Seq<OneStepFlow> {
        self.flows@
    }

    /// The derived table.
    pub closed spec fn table_view(self) -> Seq<WeightRange> {
        self.table@
    }

    #[verifier::type_invariant]
    closed spec fn consistent(self) -> bool {
        self.table@ == table_spec(self.flows@) && self.flows@.len() <= 0xFFFF_FFFF_FFFF_FFFF
    }

    /// Resolves a flow list: groups it by label and derives the table.
    pub fn new(flows: Vec<OneStepFlow>) -> (r: ResolvedFlows)
        ensures
            r.flows_view() == flows@,
            r.table_view() == table_spec(flows@),
    {
        let n = flows.len();
        proof {
            assert(flows@.len() == n as int);
        }
        let groups = get_label_groups(&flows);
        let table = weight_calculate(&groups);
        proof {
            lemma_table_of_groups_eq(
                flows@,
                groups@,
                groups@.map_values(|g: LabelGroup| g.label@),
            );
        }
        ResolvedFlows { flows, table }
    }

    pub fn flows(&self) -> (r: &Vec<OneStepFlow>)
        ensures
            r@ == self.flows_view(),
    {
        &self.flows
    }

    pub fn table(&self) -> (r: &Vec<WeightRange>)
        ensures
            r@ == self.table_view(),
            r@ == table_spec(self.flows_view()),
            wf_ranges(r@),
    {
        proof {
            use_type_invariant(self);
            lemma_table_spec_wf(self.flows@);
        }
        &self.table
    }
}

/// Copies a weight range table entry by entry.
fn clone_ranges(v: &Vec<WeightRange>) -> (r: Vec<WeightRange>)
    ensures
        r@ == v@,
{
    let mut r: Vec<WeightRange> = Vec::new();
    let mut i: usize = 0;
    while i < v.len()
        invariant
            i <= v.len(),
            r@ == v@.take(i as int),
        decreases v.len() - i,
    {
        r.push(
            WeightRange {
                to: v[i].to.clone(),
                begin: v[i].begin,
                end: v[i].end,
                sum: v[i].sum,
            },
        );
        proof {
            assert(r@ =~= v@.take(i + 1 as int));
        }
        i = i + 1;
    }
    proof {
        assert(v@.take(v@.len() as int) =~= v@);
    }
    r
}

/// Copies a flow list element by element.
pub fn clone_flows(v: &Vec<OneStepFlow>) -> (r: Vec<OneStepFlow>)
    ensures
        r@ == v@,
{
    let mut r: Vec<OneStepFlow> = Vec::new();
    let mut i: usize = 0;
    while i < v.len()
        invariant
            i <= v.len(),
            r@ == v@.take(i as int),
        decreases v.len() - i,
    {
        r.push(v[i].clone());
        proof {
            assert(r@ =~= v@.take(i + 1 as int));
        }
        i = i + 1;
    }
    proof {
        assert(v@.take(v@.len() as int) =~= v@);
    }
    r
}

impl Clone for ResolvedFlows {
    fn clone(&self) -> (r: ResolvedFlows)
        ensures
            r.flows_view() == self.flows_view(),
            r.table_view() == self.table_view(),
    {
        proof {
            use_type_invariant(self);
        }
        let flows = clone_flows(&self.flows);
        let table = clone_ranges(&self.table);
        ResolvedFlows { flows, table }
    }
}

} // verus!
