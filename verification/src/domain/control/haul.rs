//! The run's take: confirmed purchases, tallied by the bought item's name.

use crate::domain::control::dedup::text_of;
use crate::text;
use vstd::prelude::*;

verus! {

/// `a + b`, capped at the largest count.
pub open spec fn capped_sum(a: nat, b: nat) -> nat {
    if a + b <= u32::MAX {
        a + b
    } else {
        u32::MAX as nat
    }
}

/// What was bought: one count per name, in the order the names first came up,
/// and one count for what had no name.
#[verifier::ext_equal]
pub struct Take {
    pub named: Seq<(Seq<char>, u32)>,
    pub untitled: u32,
}

/// Whether some count stands under `name`.
pub open spec fn is_tallied(named: Seq<(Seq<char>, u32)>, name: Seq<char>) -> bool {
    exists|i: int| 0 <= i < named.len() && (#[trigger] named[i]).0 == name
}

/// Where the count of `name` stands.
pub open spec fn place_of(named: Seq<(Seq<char>, u32)>, name: Seq<char>) -> int {
    choose|i: int| 0 <= i < named.len() && (#[trigger] named[i]).0 == name
}

/// No name has two counts.
pub open spec fn names_differ(named: Seq<(Seq<char>, u32)>) -> bool {
    forall|i: int, j: int|
        0 <= i < named.len() && 0 <= j < named.len() && (#[trigger] named[i]).0 == (
        #[trigger] named[j]).0 ==> i == j
}

/// The sum of the counts whose name is not one of `known`.
pub open spec fn sum_besides(named: Seq<(Seq<char>, u32)>, known: Seq<Seq<char>>) -> nat
    decreases named.len(),
{
    if named.len() == 0 {
        0
    } else {
        let rest = sum_besides(named.drop_last(), known);
        if known.contains(named.last().0) {
            rest
        } else {
            rest + named.last().1 as nat
        }
    }
}

impl Take {
    /// Nothing was bought.
    pub open spec fn nothing() -> Self {
        Take { named: Seq::empty(), untitled: 0 }
    }

    /// How many were bought under this name.
    pub open spec fn tally(self, name: Seq<char>) -> u32 {
        if is_tallied(self.named, name) {
            self.named[place_of(self.named, name)].1
        } else {
            0
        }
    }

    /// With one more of `name`, or of what has no name.
    pub open spec fn plus(self, name: Option<Seq<char>>) -> Self {
        match name {
            Some(name) => if is_tallied(self.named, name) {
                let place = place_of(self.named, name);
                Take {
                    named: self.named.update(
                        place,
                        (name, capped_sum(self.named[place].1 as nat, 1) as u32),
                    ),
                    ..self
                }
            } else {
                Take { named: self.named.push((name, 1u32)), ..self }
            },
            None => Take { untitled: capped_sum(self.untitled as nat, 1) as u32, ..self },
        }
    }
}

/// Confirmed purchases of a run, for a view to group into headline items and a
/// bucket for the rest.
#[derive(Debug)]
pub struct Haul {
    named: Vec<(String, u32)>,
    untitled: u32,
}

impl View for Haul {
    type V = Take;

    closed spec fn view(&self) -> Take {
        Take {
            named: self.named@.map_values(|entry: (String, u32)| (entry.0@, entry.1)),
            untitled: self.untitled,
        }
    }
}

impl Clone for Haul {
    fn clone(&self) -> (copy: Self)
        ensures
            copy@ == self@,
    {
        proof {
            use_type_invariant(self);
        }
        let mut named: Vec<(String, u32)> = Vec::new();
        for i in 0..self.named.len()
            invariant
                named@.len() == i,
                forall|j: int|
                    0 <= j < i ==> (#[trigger] named@[j]).0@ == self.named@[j].0@ && named@[j].1
                        == self.named@[j].1,
        {
            named.push((self.named[i].0.clone(), self.named[i].1));
        }
        assert(named@.map_values(|entry: (String, u32)| (entry.0@, entry.1)) =~= self@.named);
        Haul { named, untitled: self.untitled }
    }
}

impl Default for Haul {
    fn default() -> (haul: Self)
        ensures
            haul@ == Take::nothing(),
    {
        let haul = Haul { named: Vec::new(), untitled: 0 };
        assert(haul@.named =~= Seq::<(Seq<char>, u32)>::empty());
        haul
    }
}

impl Haul {
    #[verifier::type_invariant]
    spec fn one_count_per_name(self) -> bool {
        names_differ(self@.named)
    }

    fn find(&self, name: &str) -> (place: Option<usize>)
        ensures
            match place {
                Some(place) => is_tallied(self@.named, name@) && place == place_of(
                    self@.named,
                    name@,
                ) && place < self@.named.len(),
                None => !is_tallied(self@.named, name@),
            },
    {
        proof {
            use_type_invariant(self);
        }
        for i in 0..self.named.len()
            invariant
                forall|j: int| 0 <= j < i ==> (#[trigger] self@.named[j]).0 != name@,
                names_differ(self@.named),
        {
            if text::same_text(self.named[i].0.as_str(), name) {
                assert(self@.named[i as int].0 == name@);
                return Some(i);
            }
            assert(self@.named[i as int].0 != name@);
        }
        None
    }

    /// How many were bought under this exact name.
    pub fn count(&self, name: &str) -> (count: u32)
        ensures
            count == self@.tally(name@),
    {
        match self.find(name) {
            Some(place) => self.named[place].1,
            None => 0,
        }
    }

    /// Everything that is not one of `known`, the nameless included.
    pub fn others(&self, known: &[&str]) -> (count: u32)
        ensures
            count == capped_sum(
                sum_besides(self@.named, known@.map_values(|name: &str| name@)),
                self@.untitled as nat,
            ),
    {
        let ghost listed = known@.map_values(|name: &str| name@);
        let mut bucketed: u32 = 0;
        for i in 0..self.named.len()
            invariant
                listed == known@.map_values(|name: &str| name@),
                bucketed == capped_sum(sum_besides(self@.named.take(i as int), listed), 0),
        {
            let ghost named = self@.named.take(i + 1);
            assert(named.drop_last() =~= self@.named.take(i as int));
            assert(named.last() == (self.named@[i as int].0@, self.named@[i as int].1));
            let mut is_known = false;
            for k in 0..known.len()
                invariant
                    listed == known@.map_values(|name: &str| name@),
                    0 <= i < self.named@.len(),
                    is_known == exists|j: int|
                        0 <= j < k && #[trigger] listed[j] == self.named@[i as int].0@,
            {
                if text::same_text(known[k], self.named[i].0.as_str()) {
                    assert(listed[k as int] == self.named@[i as int].0@);
                    is_known = true;
                }
            }
            assert(is_known == listed.contains(named.last().0));
            if !is_known {
                bucketed = bucketed.saturating_add(self.named[i].1);
            }
        }
        assert(self@.named.take(self.named@.len() as int) =~= self@.named);
        bucketed.saturating_add(self.untitled)
    }

    /// Records one confirmed buy, under the item's name when it has one.
    pub fn record(&mut self, name: Option<String>)
        ensures
            final(self)@ == old(self)@.plus(text_of(name)),
    {
        proof {
            use_type_invariant(&*self);
        }
        match name {
            Some(name) => {
                let place = self.find(name.as_str());
                let mut named: Vec<(String, u32)> = Vec::new();
                std::mem::swap(&mut named, &mut self.named);
                match place {
                    Some(place) => {
                        let count = named[place].1.saturating_add(1);
                        named.set(place, (name, count));
                    },
                    None => {
                        named.push((name, 1));
                    },
                }
                proof {
                    let all = named@.map_values(|entry: (String, u32)| (entry.0@, entry.1));
                    assert(all =~= old(self)@.plus(Some(name@)).named);
                }
                self.named = named;
            },
            None => {
                self.untitled = self.untitled.saturating_add(1);
            },
        }
    }
}

/// Where names differ, a name's count is the one that stands under it.
proof fn tally_at(take: Take, place: int)
    requires
        names_differ(take.named),
        0 <= place < take.named.len(),
    ensures
        take.tally(take.named[place].0) == take.named[place].1,
        is_tallied(take.named, take.named[place].0),
        place_of(take.named, take.named[place].0) == place,
{
    assert(is_tallied(take.named, take.named[place].0));
}

/// Recording a buy raises the count of its name by one, until that count is
/// full, and changes no other count.
pub proof fn a_buy_counts_under_its_name(take: Take, name: Seq<char>, other: Seq<char>)
    requires
        names_differ(take.named),
        other != name,
    ensures
        names_differ(take.plus(Some(name)).named),
        take.plus(Some(name)).tally(name) == capped_sum(take.tally(name) as nat, 1),
        take.plus(Some(name)).tally(other) == take.tally(other),
        take.plus(Some(name)).untitled == take.untitled,
{
    let after = take.plus(Some(name));
    assert(names_differ(after.named));
    if is_tallied(take.named, name) {
        tally_at(after, place_of(take.named, name));
    } else {
        tally_at(after, take.named.len() as int);
    }
    if is_tallied(take.named, other) {
        let place = place_of(take.named, other);
        assert(after.named[place].0 == other);
        tally_at(after, place);
    } else {
        if is_tallied(after.named, other) {
            let place = place_of(after.named, other);
            assert(place < take.named.len() ==> take.named[place].0 == other);
        }
    }
}

/// Changing one count changes the sum of the counts besides `known` by as
/// much, unless its name is known.
proof fn sum_besides_updated(
    named: Seq<(Seq<char>, u32)>,
    known: Seq<Seq<char>>,
    place: int,
    count: u32,
)
    requires
        0 <= place < named.len(),
    ensures
        sum_besides(named.update(place, (named[place].0, count)), known) == if known.contains(
            named[place].0,
        ) {
            sum_besides(named, known) as int
        } else {
            sum_besides(named, known) - named[place].1 + count
        },
        !known.contains(named[place].0) ==> sum_besides(named, known) >= named[place].1,
    decreases named.len(),
{
    let updated = named.update(place, (named[place].0, count));
    if place == named.len() - 1 {
        assert(updated.drop_last() =~= named.drop_last());
    } else {
        sum_besides_updated(named.drop_last(), known, place, count);
        assert(updated.drop_last() =~= named.drop_last().update(place, (named[place].0, count)));
    }
}

/// Each buy lands in exactly one place: the headline count of its name where
/// that name is known, and the bucket for the rest where it is not or where
/// there is no name. Below the largest count it raises that place by one.
pub proof fn a_buy_is_counted_once(take: Take, name: Option<Seq<char>>, known: Seq<Seq<char>>)
    requires
        names_differ(take.named),
        name matches Some(name) ==> take.tally(name) < u32::MAX,
        name is None ==> take.untitled < u32::MAX,
    ensures
        sum_besides(take.plus(name).named, known) + take.plus(name).untitled == sum_besides(
            take.named,
            known,
        ) + take.untitled + if name is Some && known.contains(name->0) {
            0int
        } else {
            1int
        },
{
    if let Some(name) = name {
        let after = take.plus(Some(name));
        if is_tallied(take.named, name) {
            let place = place_of(take.named, name);
            sum_besides_updated(take.named, known, place, after.named[place].1);
        } else {
            assert(after.named.drop_last() =~= take.named);
        }
    }
}

/// A run starts with nothing: no name has a count, and nothing is in any bucket.
pub proof fn nothing_is_counted_at_first(name: Seq<char>, known: Seq<Seq<char>>)
    ensures
        Take::nothing().tally(name) == 0,
        sum_besides(Take::nothing().named, known) == 0,
        Take::nothing().untitled == 0,
        Take::nothing().named.len() == 0,
{
}

/// A buy without a name counts as one more of those, and under no name.
pub proof fn a_nameless_buy_counts_apart(take: Take, name: Seq<char>)
    ensures
        take.untitled < u32::MAX ==> take.plus(None).untitled == take.untitled + 1,
        take.untitled == u32::MAX ==> take.plus(None).untitled == u32::MAX,
        take.plus(None).named == take.named,
        take.plus(None).tally(name) == take.tally(name),
{
}

/// The sum besides the known names is the sum of the counts that stand under any
/// other name, each of them once.
pub proof fn each_other_count_is_summed_once(
    named: Seq<(Seq<char>, u32)>,
    entry: (Seq<char>, u32),
    known: Seq<Seq<char>>,
)
    ensures
        sum_besides(named.push(entry), known) == sum_besides(named, known) + if exists|i: int|
            0 <= i < known.len() && #[trigger] known[i] == entry.0 {
            0
        } else {
            entry.1 as int
        },
{
    assert(named.push(entry).drop_last() =~= named);
}

/// A count never goes past the largest, and is exact below it.
pub proof fn counts_are_exact_until_they_are_full(a: nat, b: nat)
    ensures
        a + b <= 0xffff_ffff ==> capped_sum(a, b) == a + b,
        a + b > 0xffff_ffff ==> capped_sum(a, b) == 0xffff_ffff,
{
}

} // verus!
