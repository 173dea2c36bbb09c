//! The EQs a user has saved for the whole signal chain, and which of them is applied.
//!
//! An EQ here is a name and the bands it sets; the band values themselves are carried through
//! untouched.

use vstd::prelude::*;
use vstd::relations::injective_on;
use vstd::set_lib::{lemma_int_range, lemma_len_subset, lemma_map_size, lemma_map_size_bound, set_int_range};

use crate::text::{decimal, digit_char, lemma_decimal_injective, push_decimal, push_str};

verus! {

/// The number of bands the editor has, and so the length of the gain and bandwidth lists.
pub const BAND_COUNT: usize = 10;

/// A named EQ.
pub struct GraphicEqSettings<B> {
    pub name: String,
    pub bands: B,
}

impl<B> GraphicEqSettings<B> {
    /// An EQ of the given name setting the given bands.
    pub fn new(name: String, bands: B) -> (settings: Self)
        ensures
            settings.name == name,
            settings.bands == bands,
    {
        GraphicEqSettings { name, bands }
    }
}

/// The EQs a user has saved, and the one that is applied to the signal chain.
pub struct EqPresets<B> {
    pub eqs: Vec<GraphicEqSettings<B>>,
    /// Index into `eqs` of the EQ that is applied, `None` for no EQ at all
    pub selected: Option<usize>,
}

/// The name given to the `n`th EQ: `EQ {n}`.
pub open spec fn eq_name(n: nat) -> Seq<char> {
    "EQ "@ + decimal(n)
}

/// The names of a list of EQs.
pub open spec fn eq_names<B>(eqs: Seq<GraphicEqSettings<B>>) -> Seq<Seq<char>> {
    eqs.map_values(|eq: GraphicEqSettings<B>| eq.name@)
}

/// No two numbers give the same name.
pub proof fn lemma_eq_name_injective(a: nat, b: nat)
    requires
        eq_name(a) == eq_name(b),
    ensures
        a == b,
{
    reveal_strlit("EQ ");
    assert(decimal(a) =~= eq_name(a).subrange(3, eq_name(a).len() as int));
    assert(decimal(b) =~= eq_name(b).subrange(3, eq_name(b).len() as int));
    lemma_decimal_injective(a, b);
}

/// A list of names holds the names of at most as many numbers as it has entries.
pub proof fn lemma_names_in_use_bounded(names: Seq<Seq<char>>, lo: int, hi: int)
    requires
        0 <= lo <= hi,
        forall|m: int| lo <= m < hi ==> names.contains(#[trigger] eq_name(m as nat)),
    ensures
        hi - lo <= names.len(),
{
    let range = set_int_range(lo, hi);
    lemma_int_range(lo, hi);
    let f = |m: int| eq_name(m as nat);
    let used = range.map(f);
    assert(injective_on(f, range)) by {
        assert forall|a: int, b: int| range.contains(a) && range.contains(b) && #[trigger] f(a) == #[trigger] f(b) implies a == b by {
            lemma_eq_name_injective(a as nat, b as nat);
        }
    }
    lemma_map_size(range, used, f);
    let held = set_int_range(0, names.len() as int);
    lemma_int_range(0, names.len() as int);
    let g = |k: int| names[k];
    let all = held.map(g);
    lemma_map_size_bound(held, all, g);
    assert(used.subset_of(all)) by {
        assert forall|x: Seq<char>| used.contains(x) implies all.contains(x) by {
            let m = choose|m: int| range.contains(m) && f(m) == x;
            assert(names.contains(eq_name(m as nat)));
            let k = choose|k: int| 0 <= k < names.len() && names[k] == x;
            assert(held.contains(k));
        }
    }
    lemma_len_subset(used, all);
}

impl<B> EqPresets<B> {
    /// The applied EQ, if any, is one of the EQs that are kept.
    pub open spec fn well_formed(&self) -> bool {
        self.selected matches Some(i) ==> i < self.eqs@.len()
    }

    /// No EQs, and none applied.
    pub fn new() -> (presets: Self)
        ensures
            presets.eqs@.len() == 0,
            presets.selected is None,
            presets.well_formed(),
    {
        EqPresets { eqs: Vec::new(), selected: None }
    }

    /// The EQ that is applied to the signal chain, if any.
    pub fn selected_eq(&self) -> (eq: Option<&GraphicEqSettings<B>>)
        ensures
            eq is Some <==> (self.selected matches Some(i) && i < self.eqs@.len()),
            eq matches Some(e) ==> *e == self.eqs@[self.selected.unwrap() as int],
    {
        match self.selected {
            Some(index) => if index < self.eqs.len() {
                Some(&self.eqs[index])
            } else {
                None
            },
            None => None,
        }
    }

    /// The EQ that is applied to the signal chain, if any, to be changed in place.
    pub fn selected_eq_mut(&mut self) -> (eq: Option<&mut GraphicEqSettings<B>>)
        ensures
            eq is Some <==> (old(self).selected matches Some(i) && i < old(self).eqs@.len()),
            final(self).selected == old(self).selected,
            match eq {
                Some(e) => {
                    let i = old(self).selected.unwrap() as int;
                    &&& *e == old(self).eqs@[i]
                    &&& final(self).eqs@ == old(self).eqs@.update(i, *final(e))
                },
                None => final(self).eqs@ == old(self).eqs@,
            },
    {
        match self.selected {
            Some(index) => if index < self.eqs.len() {
                Some(&mut self.eqs[index])
            } else {
                None
            },
            None => None,
        }
    }

    /// Apply the EQ at `index`, or no EQ at all. An index that holds no EQ applies none, so a
    /// selection left over from an older save cannot point at nothing.
    pub fn select(&mut self, index: Option<usize>)
        ensures
            final(self).eqs@ == old(self).eqs@,
            final(self).selected == match index {
                Some(i) => if i < old(self).eqs@.len() {
                    Some(i)
                } else {
                    None::<usize>
                },
                None => None::<usize>,
            },
            final(self).well_formed(),
    {
        self.selected = match index {
            Some(i) => if i < self.eqs.len() {
                Some(i)
            } else {
                None
            },
            None => None,
        };
    }

    /// Add an EQ of the given name and bands, apply it, and return its index.
    pub fn add(&mut self, name: String, bands: B) -> (index: usize)
        requires
            old(self).eqs@.len() < usize::MAX,
        ensures
            final(self).eqs@ == old(self).eqs@.push(GraphicEqSettings { name, bands }),
            index == old(self).eqs@.len(),
            final(self).selected == Some(index),
            final(self).well_formed(),
    {
        self.eqs.push(GraphicEqSettings::new(name, bands));
        let index = self.eqs.len() - 1;
        self.selected = Some(index);
        index
    }

    /// Delete the EQ at `index`. The EQ that takes its place in the list is applied in its stead,
    /// so deleting the applied EQ switches to the next one instead of leaving none applied; when
    /// there is no next one, none is applied. Returns whether an EQ was deleted.
    pub fn remove(&mut self, index: usize) -> (removed: bool)
        ensures
            removed == (index < old(self).eqs@.len()),
            !removed ==> final(self).eqs@ == old(self).eqs@ && final(self).selected == old(self).selected,
            removed ==> final(self).eqs@ == old(self).eqs@.remove(index as int),
            removed ==> final(self).selected == match old(self).selected {
                Some(s) => if s > index {
                    Some((s - 1) as usize)
                } else if s < final(self).eqs@.len() {
                    Some(s)
                } else {
                    None::<usize>
                },
                None => None::<usize>,
            },
            old(self).well_formed() ==> final(self).well_formed(),
    {
        if index >= self.eqs.len() {
            return false;
        }
        self.eqs.remove(index);
        self.selected = match self.selected {
            Some(selected) => if selected > index {
                Some(selected - 1)
            } else if selected < self.eqs.len() {
                Some(selected)
            } else {
                None
            },
            None => None,
        };
        true
    }

    /// Rename the EQ at `index`, returning whether the name was changed.
    pub fn rename(&mut self, index: usize, name: String) -> (renamed: bool)
        ensures
            renamed == (index < old(self).eqs@.len()),
            final(self).selected == old(self).selected,
            final(self).eqs@.len() == old(self).eqs@.len(),
            forall|i: int| 0 <= i < old(self).eqs@.len() && i != index ==> #[trigger] final(self).eqs@[i] == old(self).eqs@[i],
            renamed ==> final(self).eqs@[index as int].name == name
                && final(self).eqs@[index as int].bands == old(self).eqs@[index as int].bands,
    {
        if index < self.eqs.len() {
            let old_eq = self.eqs.remove(index);
            let GraphicEqSettings { name: _, bands } = old_eq;
            self.eqs.insert(index, GraphicEqSettings::new(name, bands));
            assert(self.eqs@ =~= old(self).eqs@.update(index as int, GraphicEqSettings { name, bands }));
            true
        } else {
            false
        }
    }

    /// A name no EQ is using yet, so a new EQ can always be told apart in the dropdown: `EQ n`
    /// for the smallest `n` past the number of EQs that no EQ is named after.
    pub fn unused_name(&self) -> (name: String)
        requires
            self.eqs@.len() < usize::MAX / 2,
        ensures
            exists|n: nat| {
                &&& n > self.eqs@.len()
                &&& name@ == eq_name(n)
                &&& !eq_names(self.eqs@).contains(eq_name(n))
                &&& forall|m: nat| self.eqs@.len() < m < n ==> eq_names(self.eqs@).contains(#[trigger] eq_name(m))
            },
    {
        let len = self.eqs.len();
        let ghost names = eq_names(self.eqs@);
        let mut number: usize = len + 1;
        loop
            invariant
                len == self.eqs@.len(),
                len < usize::MAX / 2,
                names == eq_names(self.eqs@),
                len + 1 <= number <= 2 * len + 1,
                forall|m: nat| len < m < number ==> names.contains(#[trigger] eq_name(m)),
            decreases 2 * len + 1 - number,
        {
            let mut name = String::new();
            push_str(&mut name, "EQ ");
            push_decimal(&mut name, number as u64);
            assert(name@ == eq_name(number as nat));
            let mut used = false;
            let mut k: usize = 0;
            while k < len
                invariant
                    len == self.eqs@.len(),
                    names == eq_names(self.eqs@),
                    k <= len,
                    used == names.take(k as int).contains(name@),
                decreases len - k,
            {
                let same = self.eqs[k].name == name;
                assert(names[k as int] == self.eqs@[k as int].name@);
                assert(names.take(k + 1) =~= names.take(k as int).push(names[k as int]));
                proof {
                    let pre = names.take(k as int);
                    let post = names.take(k + 1);
                    if post.contains(name@) {
                        let j = choose|j: int| 0 <= j < post.len() && post[j] == name@;
                        if j < k {
                            assert(pre[j] == name@);
                        }
                    }
                    if pre.contains(name@) {
                        let j = choose|j: int| 0 <= j < pre.len() && pre[j] == name@;
                        assert(post[j] == name@);
                    }
                    if same {
                        assert(post[k as int] == name@);
                    }
                }
                used = used || same;
                k = k + 1;
            }
            assert(names.take(len as int) =~= names);
            if !used {
                return name;
            }
            proof {
                assert forall|m: nat| len < m < number + 1 implies names.contains(#[trigger] eq_name(m)) by {
                    if m == number {
                    }
                }
                lemma_names_in_use_bounded(names, len + 1, number + 1);
            }
            number = number + 1;
        }
    }
}

impl<B> Default for EqPresets<B> {
    fn default() -> (presets: Self)
        ensures
            presets.eqs@.len() == 0,
            presets.selected is None,
    {
        EqPresets::new()
    }
}

/// The bands a saved EQ holds read into the bands the editor has, from the low end of the range
/// up: a saved EQ may hold fewer or more bands than the editor has now. Every band the saved EQ
/// holds none of is given `fill`.
pub fn fit_saved_bands<T: Copy>(saved: &Vec<T>, fill: T) -> (bands: Vec<T>)
    ensures
        bands@.len() == BAND_COUNT,
        forall|i: int| 0 <= i < BAND_COUNT ==> #[trigger] bands@[i] == if i < saved@.len() {
            saved@[i]
        } else {
            fill
        },
{
    let mut bands: Vec<T> = Vec::new();
    for i in 0..BAND_COUNT
        invariant
            bands@.len() == i,
            forall|k: int| 0 <= k < i ==> #[trigger] bands@[k] == if k < saved@.len() {
                saved@[k]
            } else {
                fill
            },
    {
        if i < saved.len() {
            bands.push(saved[i]);
        } else {
            bands.push(fill);
        }
    }
    bands
}

/// The centre frequency of each band, in Hz.
pub open spec fn band_freq(band: int) -> nat {
    seq![32nat, 64, 125, 250, 500, 1000, 2000, 4000, 8000, 16000][band]
}

/// The name of a band: its frequency in Hz, or in kHz with one decimal from 1 kHz on.
pub open spec fn spec_band_name(band: int) -> Seq<char> {
    let freq = band_freq(band);
    if freq >= 1000 {
        decimal(freq / 1000) + seq!['.', digit_char((freq % 1000) / 100)] + " kHz"@
    } else {
        decimal(freq) + " Hz"@
    }
}

/// The centre frequency of a band, in Hz.
pub fn band_freq_hz(band: usize) -> (freq: u64)
    requires
        band < BAND_COUNT,
    ensures
        freq == band_freq(band as int),
{
    let freqs: [u64; 10] = [32, 64, 125, 250, 500, 1000, 2000, 4000, 8000, 16000];
    assert(freqs@ =~= seq![32u64, 64, 125, 250, 500, 1000, 2000, 4000, 8000, 16000]);
    freqs[band]
}

/// The name of a band, in Hz or kHz.
pub fn band_name(band: usize) -> (name: String)
    requires
        band < BAND_COUNT,
    ensures
        name@ == spec_band_name(band as int),
{
    let freq = band_freq_hz(band);
    let mut name = String::new();
    if freq >= 1000 {
        push_decimal(&mut name, freq / 1000);
        push_str(&mut name, ".");
        push_decimal(&mut name, (freq % 1000) / 100);
        push_str(&mut name, " kHz");
        proof {
            reveal_strlit(".");
            assert(decimal(((freq % 1000) / 100) as nat) == seq![digit_char(((freq % 1000) / 100) as nat)]);
        }
        assert(name@ =~= spec_band_name(band as int));
    } else {
        push_decimal(&mut name, freq);
        push_str(&mut name, " Hz");
        assert(name@ =~= spec_band_name(band as int));
    }
    name
}

} // verus!
