//! Pedalboards as the controls see them: which pedals they hold, which parameters those pedals
//! have, and how a parameter is addressed from outside the pedalboard.

use vstd::prelude::*;

use crate::pedalboard_set::PedalboardSet;
use crate::text::{
    decimal, lemma_is_sorted_texts, push_decimal, push_str, sort_texts, sorted_texts,
    strictly_sorted, distinct_texts, same_texts, text_equal, texts,
};

verus! {

/// The kind of value a parameter holds.
#[derive(Clone, Copy, Debug, PartialEq, Eq, Structural)]
pub enum ValueKind {
    Float,
    String,
    Bool,
    Int,
    Oscillator,
}

/// What the controls need to know of a parameter: its name, the kind of value it holds, and
/// whether it carries a minimum and a maximum.
#[derive(Clone, Debug)]
pub struct ParameterSummary {
    pub name: String,
    pub kind: ValueKind,
    pub has_min: bool,
    pub has_max: bool,
}

/// A pedal as the controls see it: its identifier and its parameters.
#[derive(Clone, Debug)]
pub struct PedalSummary {
    pub id: u32,
    pub parameters: Vec<ParameterSummary>,
}

/// A pedalboard as the controls see it: its identifier, its name and its pedals in order.
#[derive(Clone, Debug)]
pub struct PedalboardSummary {
    pub id: u32,
    pub name: String,
    pub pedals: Vec<PedalSummary>,
}

/// Can uniquely identify a parameter.
#[derive(Debug, Clone, PartialEq, Eq, Hash)]
pub struct ParameterPath {
    pub pedalboard_id: Option<u32>,
    pub pedal_id: u32,
    pub parameter_name: String,
}

impl ParameterSummary {
    /// Whether a relative or flip-flop update has a range to move the parameter over: a stored
    /// minimum and maximum, or the range `false..=true` of a switch.
    pub open spec fn has_range(self) -> bool {
        (self.has_min && self.has_max) || self.kind == ValueKind::Bool
    }
}

/// The parameter names a control is given first, most important first.
pub open spec fn prioritised_names() -> Seq<Seq<char>> {
    seq!["Gain"@, "Drive"@, "Level"@, "Dry/Wet"@, "Tone"@]
}

/// A parameter a control falls back to once the prioritised ones are used up: a number with a
/// range that is not one of the prioritised names.
pub open spec fn is_fallback_parameter(p: ParameterSummary) -> bool {
    &&& !prioritised_names().contains(p.name@)
    &&& (p.kind == ValueKind::Float || p.kind == ValueKind::Int)
    &&& p.has_range()
}

impl PedalSummary {
    /// The pedal has a parameter of this name.
    pub open spec fn has_parameter(self, name: Seq<char>) -> bool {
        exists|i: int| 0 <= i < self.parameters@.len() && #[trigger] self.parameters@[i].name@ == name
    }

    /// No two parameters of the pedal share a name.
    pub open spec fn well_formed(self) -> bool {
        forall|i: int, j: int|
            0 <= i < j < self.parameters@.len() ==> #[trigger] self.parameters@[i].name@
                != #[trigger] self.parameters@[j].name@
    }

    /// The test whether the pedal has a parameter of a name.
    pub open spec fn has_parameter_fn(self) -> spec_fn(Seq<char>) -> bool {
        |n: Seq<char>| self.has_parameter(n)
    }

    /// The prioritised names the pedal has, in order of priority.
    pub open spec fn prioritised(self) -> Seq<Seq<char>> {
        prioritised_names().filter(self.has_parameter_fn())
    }

    /// The names of the pedal's fallback parameters.
    pub open spec fn fallback_names(self) -> Set<Seq<char>> {
        Set::new(
            |n: Seq<char>|
                exists|i: int|
                    0 <= i < self.parameters@.len() && #[trigger] self.parameters@[i].name@ == n
                        && is_fallback_parameter(self.parameters@[i]),
        )
    }

    /// The pedal's fallback parameters in sorted order of their names.
    pub open spec fn fallback(self) -> Seq<Seq<char>> {
        sorted_texts(self.fallback_names())
    }
}

/// Pairs every name with the pedal it belongs to.
pub open spec fn with_pedal(id: u32, names: Seq<Seq<char>>) -> Seq<(u32, Seq<char>)> {
    names.map_values(|n: Seq<char>| (id, n))
}

/// The prioritised parameters of the pedals, pedal by pedal.
pub open spec fn prioritised_parameters(pedals: Seq<PedalSummary>) -> Seq<(u32, Seq<char>)>
    decreases pedals.len(),
{
    if pedals.len() == 0 {
        seq![]
    } else {
        prioritised_parameters(pedals.drop_last()) + with_pedal(
            pedals.last().id,
            pedals.last().prioritised(),
        )
    }
}

/// The fallback parameters of the pedals, pedal by pedal.
pub open spec fn fallback_parameters(pedals: Seq<PedalSummary>) -> Seq<(u32, Seq<char>)>
    decreases pedals.len(),
{
    if pedals.len() == 0 {
        seq![]
    } else {
        fallback_parameters(pedals.drop_last()) + with_pedal(
            pedals.last().id,
            pedals.last().fallback(),
        )
    }
}

/// The identifiers of the pedals that have an `Active` switch, in order.
pub open spec fn toggleable_pedals(pedals: Seq<PedalSummary>) -> Seq<u32>
    decreases pedals.len(),
{
    if pedals.len() == 0 {
        seq![]
    } else if pedals.last().has_parameter("Active"@) {
        toggleable_pedals(pedals.drop_last()).push(pedals.last().id)
    } else {
        toggleable_pedals(pedals.drop_last())
    }
}

/// A list of (pedal, parameter name) pairs as texts.
pub open spec fn pairs_view(v: Seq<(u32, String)>) -> Seq<(u32, Seq<char>)> {
    v.map_values(|p: (u32, String)| (p.0, p.1@))
}

/// Whether the pedal has a parameter called `name`.
pub fn pedal_has_parameter(pedal: &PedalSummary, name: &str) -> (has: bool)
    ensures
        has == pedal.has_parameter(name@),
{
    let n = pedal.parameters.len();
    for i in 0..n
        invariant
            n == pedal.parameters@.len(),
            forall|k: int| 0 <= k < i ==> #[trigger] pedal.parameters@[k].name@ != name@,
    {
        if text_equal(pedal.parameters[i].name.as_str(), name) {
            return true;
        }
    }
    false
}

/// Whether a name is one of the prioritised names.
fn is_prioritised_name(name: &str) -> (prioritised: bool)
    ensures
        prioritised == prioritised_names().contains(name@),
{
    let names: [&str; 5] = ["Gain", "Drive", "Level", "Dry/Wet", "Tone"];
    assert(prioritised_names() =~= seq![names[0]@, names[1]@, names[2]@, names[3]@, names[4]@]);
    for i in 0..5usize
        invariant
            prioritised_names() =~= seq![names[0]@, names[1]@, names[2]@, names[3]@, names[4]@],
            forall|k: int| 0 <= k < i ==> #[trigger] prioritised_names()[k] != name@,
    {
        if text_equal(names[i], name) {
            assert(prioritised_names()[i as int] == name@);
            return true;
        }
    }
    false
}

/// A pedal's knobs go to Gain, Drive, Level, Dry/Wet and Tone in that order, those of them it
/// has; in particular Gain comes first whenever the pedal has it.
pub proof fn lemma_prioritised_order(pedal: PedalSummary)
    ensures
        pedal.prioritised() == seq!["Gain"@, "Drive"@, "Level"@, "Dry/Wet"@, "Tone"@].filter(
            pedal.has_parameter_fn(),
        ),
        pedal.has_parameter("Gain"@) ==> pedal.prioritised().len() >= 1 && pedal.prioritised()[0] == "Gain"@,
{
    let all = seq!["Gain"@, "Drive"@, "Level"@, "Dry/Wet"@, "Tone"@];
    assert(prioritised_names() == all);
    if pedal.has_parameter("Gain"@) {
        let f = pedal.has_parameter_fn();
        assert(f("Gain"@));
        reveal(Seq::filter);
        assert(all.take(1).drop_last() =~= Seq::<Seq<char>>::empty());
        assert(all.take(1).filter(f) == Seq::<Seq<char>>::empty().filter(f).push(all[0]));
        assert(Seq::<Seq<char>>::empty().filter(f) =~= Seq::<Seq<char>>::empty());
        assert(all.take(1).filter(f)[0] == "Gain"@);
        assert(all.take(2).drop_last() =~= all.take(1));
        assert(all.take(2).filter(f) == if f(all[1]) { all.take(1).filter(f).push(all[1]) } else { all.take(1).filter(f) });
        assert(all.take(2).filter(f).len() >= 1 && all.take(2).filter(f)[0] == "Gain"@);
        assert(all.take(3).drop_last() =~= all.take(2));
        assert(all.take(3).filter(f) == if f(all[2]) { all.take(2).filter(f).push(all[2]) } else { all.take(2).filter(f) });
        assert(all.take(3).filter(f).len() >= 1 && all.take(3).filter(f)[0] == "Gain"@);
        assert(all.take(4).drop_last() =~= all.take(3));
        assert(all.take(4).filter(f) == if f(all[3]) { all.take(3).filter(f).push(all[3]) } else { all.take(3).filter(f) });
        assert(all.take(4).filter(f).len() >= 1 && all.take(4).filter(f)[0] == "Gain"@);
        assert(all.take(5).drop_last() =~= all.take(4));
        assert(all.take(5).filter(f) == if f(all[4]) { all.take(4).filter(f).push(all[4]) } else { all.take(4).filter(f) });
        assert(all.take(5).filter(f).len() >= 1 && all.take(5).filter(f)[0] == "Gain"@);
        assert(all.take(5) =~= all);
    }
}

/// The prioritised parameters of a list of pedals start with those of its first pedal.
pub proof fn lemma_prioritised_parameters_first(pedals: Seq<PedalSummary>)
    requires
        pedals.len() >= 1,
    ensures
        prioritised_parameters(pedals) == with_pedal(pedals[0].id, pedals[0].prioritised())
            + prioritised_parameters(pedals.drop_first()),
    decreases pedals.len(),
{
    if pedals.len() == 1 {
        assert(pedals.drop_last() =~= Seq::<PedalSummary>::empty());
        assert(pedals.drop_first() =~= Seq::<PedalSummary>::empty());
        assert(prioritised_parameters(pedals.drop_last()) == Seq::<(u32, Seq<char>)>::empty());
        assert(pedals.last() == pedals[0]);
        assert(Seq::<(u32, Seq<char>)>::empty() + with_pedal(pedals[0].id, pedals[0].prioritised())
            =~= with_pedal(pedals[0].id, pedals[0].prioritised()));
        assert(prioritised_parameters(pedals.drop_first()) == Seq::<(u32, Seq<char>)>::empty());
        assert(with_pedal(pedals[0].id, pedals[0].prioritised()) + Seq::<(u32, Seq<char>)>::empty()
            =~= with_pedal(pedals[0].id, pedals[0].prioritised()));
    } else {
        let init = pedals.drop_last();
        lemma_prioritised_parameters_first(init);
        assert(init.drop_first() =~= pedals.drop_first().drop_last());
        assert(pedals.drop_first().last() == pedals.last());
        assert(init[0] == pedals[0]);
        let w0 = with_pedal(pedals[0].id, pedals[0].prioritised());
        let wl = with_pedal(pedals.last().id, pedals.last().prioritised());
        assert((w0 + prioritised_parameters(init.drop_first())) + wl
            =~= w0 + (prioritised_parameters(init.drop_first()) + wl));
    }
}

/// The first knob of a pedalboard whose first pedal has a Gain parameter controls that Gain.
pub proof fn lemma_first_knob_is_gain(board: PedalboardSummary)
    requires
        board.pedals@.len() >= 1,
        board.pedals@[0].has_parameter("Gain"@),
    ensures
        board.spec_sensible_parameters().len() >= 1,
        board.spec_sensible_parameters()[0] == (board.pedals@[0].id, "Gain"@),
{
    let pedals = board.pedals@;
    lemma_prioritised_parameters_first(pedals);
    lemma_prioritised_order(pedals[0]);
    let w0 = with_pedal(pedals[0].id, pedals[0].prioritised());
    assert(w0[0] == (pedals[0].id, pedals[0].prioritised()[0]));
    assert((w0 + prioritised_parameters(pedals.drop_first()))[0] == w0[0]);
    assert(board.spec_sensible_parameters()[0] == prioritised_parameters(pedals)[0]);
}

/// Every name of `pedal` paired with its identifier.
fn pair_names(id: u32, names: Vec<String>, out: &mut Vec<(u32, String)>)
    ensures
        pairs_view(final(out)@) == pairs_view(old(out)@) + with_pedal(id, texts(names@)),
{
    let n = names.len();
    let ghost start = pairs_view(out@);
    let mut names = names;
    let mut k: usize = 0;
    let ghost all = texts(names@);
    while k < n
        invariant
            n == all.len(),
            k <= n,
            texts(names@) == all,
            pairs_view(out@) == start + with_pedal(id, all.take(k as int)),
        decreases n - k,
    {
        let ghost before = out@;
        let name = names[k].clone();
        out.push((id, name));
        assert(pairs_view(out@) =~= pairs_view(before).push((id, all[k as int])));
        assert(with_pedal(id, all.take(k + 1)) =~= with_pedal(id, all.take(k as int)).push((id, all[k as int])));
        k = k + 1;
    }
    assert(all.take(n as int) =~= all);
}

impl PedalSummary {
    /// The prioritised names the pedal has, in order of priority.
    pub fn prioritised_names_of(&self) -> (names: Vec<String>)
        ensures
            texts(names@) == self.prioritised(),
            texts(names@) == seq!["Gain"@, "Drive"@, "Level"@, "Dry/Wet"@, "Tone"@].filter(
                self.has_parameter_fn(),
            ),
    {
        proof {
            lemma_prioritised_order(*self);
        }
        let candidates: [&str; 5] = ["Gain", "Drive", "Level", "Dry/Wet", "Tone"];
        let ghost all = seq![candidates[0]@, candidates[1]@, candidates[2]@, candidates[3]@, candidates[4]@];
        assert(prioritised_names() =~= all);
        let mut names: Vec<String> = Vec::new();
        for i in 0..5usize
            invariant
                prioritised_names() =~= all,
                all =~= seq![candidates[0]@, candidates[1]@, candidates[2]@, candidates[3]@, candidates[4]@],
                texts(names@) == all.take(i as int).filter(self.has_parameter_fn()),
        {
            let candidate = candidates[i];
            let has = pedal_has_parameter(self, candidate);
            assert(all.take(i + 1).drop_last() =~= all.take(i as int));
            assert(all.take(i + 1).last() == candidate@);
            reveal(Seq::filter);
            if has {
                let ghost before = names@;
                let name = String::from_str(candidate);
                names.push(name);
                assert(texts(names@) =~= texts(before).push(candidate@));
            }
            assert(texts(names@) =~= all.take(i + 1).filter(self.has_parameter_fn()));
        }
        assert(all.take(5) =~= all);
        names
    }
}

impl PedalSummary {
    /// Whether a parameter is one a control falls back to.
    fn is_fallback(parameter: &ParameterSummary) -> (fallback: bool)
        ensures
            fallback == is_fallback_parameter(*parameter),
    {
        let numeric = match parameter.kind {
            ValueKind::Float | ValueKind::Int => true,
            _ => false,
        };
        let ranged = (parameter.has_min && parameter.has_max) || match parameter.kind {
            ValueKind::Bool => true,
            _ => false,
        };
        !is_prioritised_name(parameter.name.as_str()) && numeric && ranged
    }

    /// The names of the pedal's fallback parameters, sorted.
    pub fn fallback_names_sorted(&self) -> (names: Vec<String>)
        requires
            self.well_formed(),
        ensures
            texts(names@) == self.fallback(),
    {
        let n = self.parameters.len();
        let mut found: Vec<String> = Vec::new();
        let ghost mut taken: Seq<int> = seq![];
        for i in 0..n
            invariant
                n == self.parameters@.len(),
                self.well_formed(),
                found@.len() == taken.len(),
                forall|k: int| 0 <= k < taken.len() ==> 0 <= #[trigger] taken[k] < i,
                forall|k: int, l: int| 0 <= k < l < taken.len() ==> #[trigger] taken[k] < #[trigger] taken[l],
                forall|k: int| 0 <= k < taken.len() ==> #[trigger] texts(found@)[k] == self.parameters@[taken[k]].name@,
                forall|x: Seq<char>| texts(found@).contains(x) <==> (exists|j: int|
                    0 <= j < i && #[trigger] self.parameters@[j].name@ == x && is_fallback_parameter(self.parameters@[j])),
        {
            let parameter = &self.parameters[i];
            if Self::is_fallback(parameter) {
                let ghost before = texts(found@);
                found.push(parameter.name.clone());
                proof {
                    taken = taken.push(i as int);
                    assert(texts(found@) =~= before.push(self.parameters@[i as int].name@));
                    assert forall|x: Seq<char>| texts(found@).contains(x) <==> (exists|j: int|
                        0 <= j < i + 1 && #[trigger] self.parameters@[j].name@ == x && is_fallback_parameter(self.parameters@[j])) by {
                        if texts(found@).contains(x) {
                            let k = choose|k: int| 0 <= k < texts(found@).len() && texts(found@)[k] == x;
                            if k < before.len() {
                                assert(before.contains(x));
                            } else {
                                assert(self.parameters@[i as int].name@ == x);
                            }
                        }
                        if exists|j: int| 0 <= j < i + 1 && #[trigger] self.parameters@[j].name@ == x && is_fallback_parameter(self.parameters@[j]) {
                            let j = choose|j: int| 0 <= j < i + 1 && #[trigger] self.parameters@[j].name@ == x && is_fallback_parameter(self.parameters@[j]);
                            if j < i {
                                assert(before.contains(x));
                                let k = choose|k: int| 0 <= k < before.len() && before[k] == x;
                                assert(texts(found@)[k] == x);
                            } else {
                                assert(texts(found@)[before.len() as int] == x);
                            }
                        }
                    }
                }
            } else {
                proof {
                    assert forall|x: Seq<char>| texts(found@).contains(x) <==> (exists|j: int|
                        0 <= j < i + 1 && #[trigger] self.parameters@[j].name@ == x && is_fallback_parameter(self.parameters@[j])) by {
                        if exists|j: int| 0 <= j < i + 1 && #[trigger] self.parameters@[j].name@ == x && is_fallback_parameter(self.parameters@[j]) {
                            let j = choose|j: int| 0 <= j < i + 1 && #[trigger] self.parameters@[j].name@ == x && is_fallback_parameter(self.parameters@[j]);
                            assert(j != i);
                        }
                    }
                }
            }
        }
        assert(distinct_texts(texts(found@))) by {
            assert forall|a: int, b: int| 0 <= a < b < texts(found@).len() implies #[trigger] texts(found@)[a] != #[trigger] texts(found@)[b] by {
                assert(taken[a] < taken[b]);
            }
        }
        let sorted = sort_texts(found);
        proof {
            assert forall|x: Seq<char>| texts(sorted@).contains(x) <==> self.fallback_names().contains(x) by {
                assert(texts(sorted@).contains(x) <==> texts(found@).contains(x));
            }
            lemma_is_sorted_texts(texts(sorted@), self.fallback_names());
        }
        sorted
    }
}

impl PedalboardSummary {
    /// Every pedal of the pedalboard names each of its parameters once.
    pub open spec fn well_formed(self) -> bool {
        forall|i: int| 0 <= i < self.pedals@.len() ==> #[trigger] self.pedals@[i].well_formed()
    }

    /// Every parameter a control can refer to, in a fixed order: first the prioritised
    /// parameters of each pedal in turn, in order of priority, then the other numeric parameters
    /// with a range of each pedal in turn, sorted by name.
    pub open spec fn spec_sensible_parameters(self) -> Seq<(u32, Seq<char>)> {
        prioritised_parameters(self.pedals@) + fallback_parameters(self.pedals@)
    }

    /// Every parameter a control can refer to, as (pedal identifier, parameter name) pairs.
    pub fn sensible_parameters(&self) -> (parameters: Vec<(u32, String)>)
        requires
            self.well_formed(),
        ensures
            pairs_view(parameters@) == self.spec_sensible_parameters(),
    {
        let mut parameters: Vec<(u32, String)> = Vec::new();
        let mut fallback: Vec<(u32, String)> = Vec::new();
        let n = self.pedals.len();
        for i in 0..n
            invariant
                n == self.pedals@.len(),
                self.well_formed(),
                pairs_view(parameters@) == prioritised_parameters(self.pedals@.take(i as int)),
                pairs_view(fallback@) == fallback_parameters(self.pedals@.take(i as int)),
        {
            let pedal = &self.pedals[i];
            assert(self.pedals@[i as int].well_formed());
            let prioritised = pedal.prioritised_names_of();
            pair_names(pedal.id, prioritised, &mut parameters);
            let fallback_names = pedal.fallback_names_sorted();
            pair_names(pedal.id, fallback_names, &mut fallback);
            assert(self.pedals@.take(i + 1).drop_last() =~= self.pedals@.take(i as int));
        }
        assert(self.pedals@.take(n as int) =~= self.pedals@);
        let ghost p = pairs_view(parameters@);
        let ghost f = pairs_view(fallback@);
        parameters.append(&mut fallback);
        assert(pairs_view(parameters@) =~= p + f);
        parameters
    }

    /// The parameter a device at mapping `index` controls: for a switch (`flip_flop`) the
    /// `Active` parameter of the `index`th pedal that has one, otherwise the `index`th sensible
    /// parameter. `None` when there is no such parameter.
    pub fn sensible_parameter_from_index(&self, index: usize, flip_flop: bool) -> (path: Option<
        ParameterPath,
    >)
        requires
            self.well_formed(),
        ensures
            flip_flop ==> match path {
                Some(p) => index < toggleable_pedals(self.pedals@).len() && p.pedalboard_id == Some(
                    self.id,
                ) && p.pedal_id == toggleable_pedals(self.pedals@)[index as int]
                    && p.parameter_name@ == "Active"@,
                None => index >= toggleable_pedals(self.pedals@).len(),
            },
            !flip_flop ==> match path {
                Some(p) => index < self.spec_sensible_parameters().len() && p.pedalboard_id == Some(
                    self.id,
                ) && (p.pedal_id, p.parameter_name@) == self.spec_sensible_parameters()[index as int],
                None => index >= self.spec_sensible_parameters().len(),
            },
    {
        if flip_flop {
            let n = self.pedals.len();
            let mut seen: usize = 0;
            let mut i: usize = 0;
            while i < n
                invariant
                    n == self.pedals@.len(),
                    i <= n,
                    flip_flop,
                    seen == toggleable_pedals(self.pedals@.take(i as int)).len(),
                    seen <= index,
                    toggleable_pedals(self.pedals@.take(i as int)).len() <= i,
                    forall|k: int| 0 <= k < seen ==> #[trigger] toggleable_pedals(self.pedals@.take(i as int))[k]
                        == toggleable_pedals(self.pedals@)[k],
                decreases n - i,
            {
                assert(self.pedals@.take(i + 1).drop_last() =~= self.pedals@.take(i as int));
                assert(self.pedals@.take(i + 1).last() == self.pedals@[i as int]);
                let pedal = &self.pedals[i];
                let ghost post = self.pedals@.take(i + 1);
                let ghost pre = self.pedals@.take(i as int);
                let active = pedal_has_parameter(pedal, "Active");
                assert(toggleable_pedals(post) == if active {
                    toggleable_pedals(pre).push(pedal.id)
                } else {
                    toggleable_pedals(pre)
                });
                if active {
                    if seen == index {
                        proof {
                            lemma_toggleable_prefix(self.pedals@, i + 1);
                            assert(toggleable_pedals(post).len() == index + 1);
                            assert(toggleable_pedals(post)[index as int] == pedal.id);
                            assert(toggleable_pedals(post)[index as int] == toggleable_pedals(self.pedals@)[index as int]);
                        }
                        return Some(ParameterPath {
                            pedalboard_id: Some(self.id),
                            pedal_id: pedal.id,
                            parameter_name: String::from_str("Active"),
                        });
                    }
                    seen = seen + 1;
                }
                proof {
                    lemma_toggleable_prefix(self.pedals@, i + 1);
                    assert forall|k: int| 0 <= k < seen implies #[trigger] toggleable_pedals(post)[k]
                        == toggleable_pedals(self.pedals@)[k] by {
                        assert(k < toggleable_pedals(post).len());
                    }
                }
                i = i + 1;
            }
            assert(self.pedals@.take(n as int) =~= self.pedals@);
            None
        } else {
            let parameters = self.sensible_parameters();
            if index < parameters.len() {
                let pedal_id = parameters[index].0;
                let parameter_name = parameters[index].1.clone();
                assert(pairs_view(parameters@)[index as int] == (parameters@[index as int].0, parameters@[index as int].1@));
                Some(ParameterPath { pedalboard_id: Some(self.id), pedal_id, parameter_name })
            } else {
                None
            }
        }
    }
}

/// The pedals with a switch among the first `k` pedals come first, in order, among all of them.
pub proof fn lemma_toggleable_prefix(pedals: Seq<PedalSummary>, k: int)
    requires
        0 <= k <= pedals.len(),
    ensures
        toggleable_pedals(pedals.take(k)).len() <= toggleable_pedals(pedals).len(),
        toggleable_pedals(pedals.take(k)).len() <= k,
        forall|j: int| 0 <= j < toggleable_pedals(pedals.take(k)).len() ==>
            #[trigger] toggleable_pedals(pedals.take(k))[j] == toggleable_pedals(pedals)[j],
    decreases pedals.len(),
{
    if pedals.len() > 0 {
        if k == pedals.len() {
            assert(pedals.take(k) =~= pedals);
            lemma_toggleable_len(pedals);
        } else {
            assert(pedals.take(k) =~= pedals.drop_last().take(k));
            lemma_toggleable_prefix(pedals.drop_last(), k);
        }
    }
}

/// No more pedals have a switch than there are pedals.
pub proof fn lemma_toggleable_len(pedals: Seq<PedalSummary>)
    ensures
        toggleable_pedals(pedals).len() <= pedals.len(),
    decreases pedals.len(),
{
    if pedals.len() > 0 {
        lemma_toggleable_len(pedals.drop_last());
    }
}

/// The pedalboard holds a pedal with this identifier.
pub open spec fn board_has_pedal(board: PedalboardSummary, pedal_id: u32) -> bool {
    exists|i: int| 0 <= i < board.pedals@.len() && #[trigger] board.pedals@[i].id == pedal_id
}

/// Some pedalboard of the list has the identifier `board_id`.
pub open spec fn set_has_board(boards: Seq<PedalboardSummary>, board_id: u32) -> bool {
    exists|i: int| 0 <= i < boards.len() && #[trigger] boards[i].id == board_id
}

/// The position of the first pedalboard that holds the pedal, if any.
pub open spec fn first_board_with_pedal(boards: Seq<PedalboardSummary>, pedal_id: u32) -> Option<int>
    decreases boards.len(),
{
    if boards.len() == 0 {
        None
    } else if board_has_pedal(boards[0], pedal_id) {
        Some(0)
    } else {
        match first_board_with_pedal(boards.drop_first(), pedal_id) {
            Some(i) => Some(i + 1),
            None => None,
        }
    }
}

/// The pedalboard a pedal is looked up in: the active pedalboard when it holds the pedal,
/// otherwise the first pedalboard that does.
pub open spec fn containing_pedalboard(boards: Seq<PedalboardSummary>, active: int, pedal_id: u32) -> Option<u32> {
    if 0 <= active < boards.len() && board_has_pedal(boards[active], pedal_id) {
        Some(boards[active].id)
    } else {
        match first_board_with_pedal(boards, pedal_id) {
            Some(i) => Some(boards[i].id),
            None => None,
        }
    }
}

/// The first pedalboard with the pedal is the one after all that lack it.
pub proof fn lemma_first_board_with_pedal(boards: Seq<PedalboardSummary>, pedal_id: u32, i: int)
    requires
        0 <= i <= boards.len(),
        forall|j: int| 0 <= j < i ==> !board_has_pedal(#[trigger] boards[j], pedal_id),
    ensures
        i < boards.len() && board_has_pedal(boards[i], pedal_id) ==> first_board_with_pedal(boards, pedal_id) == Some(i),
        i == boards.len() ==> first_board_with_pedal(boards, pedal_id) is None,
    decreases i,
{
    if i > 0 {
        let rest = boards.drop_first();
        assert forall|j: int| 0 <= j < i - 1 implies !board_has_pedal(#[trigger] rest[j], pedal_id) by {
            assert(rest[j] == boards[j + 1]);
        }
        lemma_first_board_with_pedal(rest, pedal_id, i - 1);
        assert(!board_has_pedal(boards[0], pedal_id));
        if i < boards.len() {
            assert(rest[i - 1] == boards[i]);
        }
    }
}

/// Some pedalboard holds the pedal exactly when there is a first one that does.
proof fn lemma_first_board_exists(boards: Seq<PedalboardSummary>, pedal_id: u32, k: int)
    requires
        0 <= k < boards.len(),
        board_has_pedal(boards[k], pedal_id),
    ensures
        first_board_with_pedal(boards, pedal_id) is Some,
    decreases k,
{
    if !board_has_pedal(boards[0], pedal_id) {
        assert(boards.drop_first()[k - 1] == boards[k]);
        lemma_first_board_exists(boards.drop_first(), pedal_id, k - 1);
    }
}

/// Where a path without a pedalboard is resolved: to the active pedalboard when it holds the
/// pedal; otherwise to the lowest-placed pedalboard of the whole set that holds it, wherever it
/// lies relative to the active one; and nowhere only when no pedalboard holds the pedal.
pub proof fn lemma_resolution(boards: Seq<PedalboardSummary>, active: int, pedal_id: u32)
    ensures
        (0 <= active < boards.len() && board_has_pedal(boards[active], pedal_id))
            ==> containing_pedalboard(boards, active, pedal_id) == Some(boards[active].id),
        forall|i: int|
            0 <= i < boards.len() && #[trigger] board_has_pedal(boards[i], pedal_id)
                && (forall|j: int| 0 <= j < i ==> !board_has_pedal(#[trigger] boards[j], pedal_id))
                && !(0 <= active < boards.len() && board_has_pedal(boards[active], pedal_id))
                ==> containing_pedalboard(boards, active, pedal_id) == Some(boards[i].id),
        containing_pedalboard(boards, active, pedal_id) is None <==> forall|i: int|
            0 <= i < boards.len() ==> !board_has_pedal(#[trigger] boards[i], pedal_id),
{
    assert forall|i: int|
        0 <= i < boards.len() && #[trigger] board_has_pedal(boards[i], pedal_id)
            && (forall|j: int| 0 <= j < i ==> !board_has_pedal(#[trigger] boards[j], pedal_id))
            && !(0 <= active < boards.len() && board_has_pedal(boards[active], pedal_id))
        implies containing_pedalboard(boards, active, pedal_id) == Some(boards[i].id) by {
        lemma_first_board_with_pedal(boards, pedal_id, i);
    }
    if forall|i: int| 0 <= i < boards.len() ==> !board_has_pedal(#[trigger] boards[i], pedal_id) {
        lemma_first_board_with_pedal(boards, pedal_id, boards.len() as int);
    } else {
        let k = choose|k: int| 0 <= k < boards.len() && board_has_pedal(#[trigger] boards[k], pedal_id);
        lemma_first_board_exists(boards, pedal_id, k);
    }
}

impl PedalboardSummary {
    /// Whether the pedalboard holds a pedal with this identifier.
    pub fn has_pedal(&self, pedal_id: u32) -> (has: bool)
        ensures
            has == board_has_pedal(*self, pedal_id),
    {
        let n = self.pedals.len();
        for i in 0..n
            invariant
                n == self.pedals@.len(),
                forall|k: int| 0 <= k < i ==> #[trigger] self.pedals@[k].id != pedal_id,
        {
            if self.pedals[i].id == pedal_id {
                return true;
            }
        }
        false
    }

    /// The pedalboard's identifier.
    pub fn get_id(&self) -> (id: u32)
        ensures
            id == self.id,
    {
        self.id
    }
}

impl ParameterPath {
    /// Find the pedalboard that contains the pedal with this path's pedal ID and set
    /// `pedalboard_id`, unless the path already names a pedalboard.
    ///
    /// The active pedalboard is preferred, which disambiguates the case where the same pedal ID
    /// appears in several pedalboards. Pedal IDs are only unique within a pedalboard, not across
    /// pedalboards (for example, duplicated pedalboards keep their pedal IDs).
    ///
    /// Returns whether the path now points at a pedalboard in the set.
    pub fn resolve_pedalboard_id(&mut self, pedalboard_set: &PedalboardSet<PedalboardSummary>) -> (resolved: bool)
        ensures
            final(self).pedal_id == old(self).pedal_id,
            final(self).parameter_name == old(self).parameter_name,
            final(self).pedalboard_id == if old(self).pedalboard_id is Some {
                old(self).pedalboard_id
            } else {
                containing_pedalboard(
                    pedalboard_set.pedalboards@,
                    pedalboard_set.active_pedalboard as int,
                    old(self).pedal_id,
                )
            },
            resolved == (final(self).pedalboard_id matches Some(board_id) && set_has_board(
                pedalboard_set.pedalboards@,
                board_id,
            )),
    {
        if self.pedalboard_id.is_none() {
            let pedal_id = self.pedal_id;
            let boards = &pedalboard_set.pedalboards;
            let active = pedalboard_set.active_pedalboard;
            if active < boards.len() && boards[active].has_pedal(pedal_id) {
                self.pedalboard_id = Some(boards[active].get_id());
            } else {
                let n = boards.len();
                let mut found: Option<u32> = None;
                let mut i: usize = 0;
                while i < n
                    invariant_except_break
                        found is None,
                    invariant
                        n == boards@.len(),
                        i <= n,
                        forall|j: int| 0 <= j < i ==> !board_has_pedal(#[trigger] boards@[j], pedal_id),
                    ensures
                        found is None ==> i == n && forall|j: int| 0 <= j < n ==> !board_has_pedal(#[trigger] boards@[j], pedal_id),
                        found matches Some(id) ==> i < n && board_has_pedal(boards@[i as int], pedal_id)
                            && id == boards@[i as int].id
                            && forall|j: int| 0 <= j < i ==> !board_has_pedal(#[trigger] boards@[j], pedal_id),
                    decreases n - i,
                {
                    if boards[i].has_pedal(pedal_id) {
                        found = Some(boards[i].get_id());
                        break;
                    }
                    i = i + 1;
                }
                proof {
                    lemma_first_board_with_pedal(boards@, pedal_id, i as int);
                    if found is Some {
                        assert(boards@[i as int].id == found->0);
                    }
                }
                self.pedalboard_id = found;
            }
            return match self.pedalboard_id {
                Some(_) => true,
                None => false,
            };
        }
        match self.pedalboard_id {
            Some(board_id) => Self::set_holds_board(pedalboard_set, board_id),
            None => false,
        }
    }

    /// Whether some pedalboard of the set has the identifier `board_id`.
    fn set_holds_board(pedalboard_set: &PedalboardSet<PedalboardSummary>, board_id: u32) -> (holds: bool)
        ensures
            holds == set_has_board(pedalboard_set.pedalboards@, board_id),
    {
        let boards = &pedalboard_set.pedalboards;
        let n = boards.len();
        for i in 0..n
            invariant
                n == boards@.len(),
                boards@ == pedalboard_set.pedalboards@,
                forall|k: int| 0 <= k < i ==> #[trigger] boards@[k].id != board_id,
        {
            if boards[i].get_id() == board_id {
                assert(boards@[i as int].id == board_id);
                return true;
            }
        }
        false
    }
}

/// `message` with the prefix that tells the client which pedal sent it.
pub open spec fn pedal_message(pedal_id: u32, message: Seq<char>) -> Seq<char> {
    "pedalmsg"@ + decimal(pedal_id as nat) + " "@ + message
}

/// Marks every message a pedal has sent with the pedal's identifier, as `pedalmsg{id} ` in front
/// of the message, so that the client knows which pedal it is for.
pub fn prefix_pedal_messages(pedal_id: u32, messages: &mut Vec<String>)
    ensures
        final(messages)@.len() == old(messages)@.len(),
        forall|i: int| 0 <= i < old(messages)@.len() ==> #[trigger] final(messages)@[i]@
            == pedal_message(pedal_id, old(messages)@[i]@),
{
    if messages.len() == 0 {
        return;
    }
    let mut prefix = String::new();
    push_str(&mut prefix, "pedalmsg");
    push_decimal(&mut prefix, pedal_id as u64);
    push_str(&mut prefix, " ");
    assert(prefix@ =~= "pedalmsg"@ + decimal(pedal_id as nat) + " "@);
    let n = messages.len();
    let mut prefixed: Vec<String> = Vec::new();
    for i in 0..n
        invariant
            n == messages@.len(),
            prefix@ == "pedalmsg"@ + decimal(pedal_id as nat) + " "@,
            prefixed@.len() == i,
            forall|k: int| 0 <= k < i ==> #[trigger] prefixed@[k]@ == pedal_message(pedal_id, messages@[k]@),
    {
        let mut message = prefix.clone();
        push_str(&mut message, messages[i].as_str());
        prefixed.push(message);
    }
    *messages = prefixed;
}

} // verus!
