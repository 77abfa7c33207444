//! Building a menu and looking foods up in it.
//!
//! A menu maps cuisine names to cuisines, names unique, and inserting a
//! cuisine under an existing name replaces it.  Lookups are by exact name;
//! within a cuisine the first food of the requested name wins.

use vstd::prelude::*;

use crate::model::Cuisine;
use crate::model::CuisineView;
use crate::model::Food;
use crate::model::FoodView;
use crate::model::Menu;

verus! {

/// The first cuisine of `cs` named `name`, if any.
pub open spec fn spec_find_cuisine(cs: Seq<CuisineView>, name: Seq<char>) -> Option<CuisineView>
    decreases cs.len(),
{
    if cs.len() == 0 {
        None
    } else if cs[0].name == name {
        Some(cs[0])
    } else {
        spec_find_cuisine(cs.skip(1), name)
    }
}

/// The first food of `fs` named `name`, if any.
pub open spec fn spec_find_food(fs: Seq<FoodView>, name: Seq<char>) -> Option<FoodView>
    decreases fs.len(),
{
    if fs.len() == 0 {
        None
    } else if fs[0].name == name {
        Some(fs[0])
    } else {
        spec_find_food(fs.skip(1), name)
    }
}

/// No two cuisines of `cs` share a name.
pub open spec fn cuisine_names_unique(cs: Seq<CuisineView>) -> bool {
    forall|i: int, j: int| 0 <= i < j < cs.len() ==> cs[i].name != cs[j].name
}

/// Under unique names, a hit of `spec_find_cuisine` is a member of that
/// name, and a miss means no member has the name.
proof fn lemma_find_cuisine_membership(cs: Seq<CuisineView>, n: Seq<char>)
    ensures
        match spec_find_cuisine(cs, n) {
            Some(c) => exists|i: int| 0 <= i < cs.len() && cs[i] == c && c.name == n,
            None => forall|i: int| 0 <= i < cs.len() ==> (#[trigger] cs[i]).name != n,
        },
    decreases cs.len(),
{
    if cs.len() > 0 {
        if cs[0].name == n {
        } else {
            lemma_find_cuisine_membership(cs.skip(1), n);
            match spec_find_cuisine(cs.skip(1), n) {
                Some(c) => {
                    let i = choose|i: int| 0 <= i < cs.skip(1).len() && cs.skip(1)[i] == c;
                    assert(cs[i + 1] == c);
                },
                None => {
                    assert forall|i: int| 0 <= i < cs.len() implies (#[trigger] cs[i]).name
                        != n by {
                        if i > 0 {
                            assert(cs.skip(1)[i - 1] == cs[i]);
                        }
                    }
                },
            }
        }
    }
}

/// Under unique names, the member named `cs[i].name` is what the lookup
/// finds.
proof fn lemma_find_cuisine_present(cs: Seq<CuisineView>, i: int)
    requires
        cuisine_names_unique(cs),
        0 <= i < cs.len(),
    ensures
        spec_find_cuisine(cs, cs[i].name) == Some(cs[i]),
    decreases cs.len(),
{
    if i > 0 {
        assert(cs[0].name != cs[i].name);
        assert(cuisine_names_unique(cs.skip(1))) by {
            assert forall|a: int, b: int| 0 <= a < b < cs.skip(1).len() implies cs.skip(
                1,
            )[a].name != cs.skip(1)[b].name by {
                assert(cs.skip(1)[a] == cs[a + 1]);
                assert(cs.skip(1)[b] == cs[b + 1]);
            }
        }
        lemma_find_cuisine_present(cs.skip(1), i - 1);
        assert(cs.skip(1)[i - 1] == cs[i]);
    }
}

impl Menu {
    /// The menu's cuisine names are unique.
    pub open spec fn wf(self) -> bool {
        cuisine_names_unique(self@.cuisines)
    }

    /// A fresh menu with the given header and no cuisines.
    pub fn new(name: String, price: u64, is_veg: bool) -> (r: Menu)
        ensures
            r.wf(),
            r@.name == name@,
            r@.price == price as int,
            r@.is_veg == is_veg,
            r@.cuisines == Seq::<CuisineView>::empty(),
    {
        let r = Menu { name, price, is_veg, cuisines: Vec::new() };
        proof {
            assert(r.cuisines.deep_view() =~= Seq::<CuisineView>::empty());
        }
        r
    }

    /// The position of the named cuisine, if any.
    fn find_cuisine_index(&self, name: &String) -> (r: Option<usize>)
        ensures
            match r {
                Some(i) => i < self@.cuisines.len() && self@.cuisines[i as int].name == name@,
                None => forall|i: int|
                    0 <= i < self@.cuisines.len() ==> (#[trigger] self@.cuisines[i]).name
                        != name@,
            },
    {
        let mut i: usize = 0;
        while i < self.cuisines.len()
            invariant
                i <= self.cuisines@.len(),
                self@.cuisines.len() == self.cuisines@.len(),
                forall|k: int| 0 <= k < i ==> (#[trigger] self@.cuisines[k]).name != name@,
            decreases self.cuisines@.len() - i,
        {
            if self.cuisines[i].name == *name {
                return Some(i);
            }
            i = i + 1;
        }
        None
    }

    /// Inserts `cuisine` under its name, replacing any cuisine of that
    /// name; every other name resolves as before.
    pub fn insert_cuisine(&mut self, cuisine: Cuisine)
        requires
            old(self).wf(),
        ensures
            final(self).wf(),
            final(self)@.name == old(self)@.name,
            final(self)@.price == old(self)@.price,
            final(self)@.is_veg == old(self)@.is_veg,
            spec_find_cuisine(final(self)@.cuisines, cuisine@.name) == Some(cuisine@),
            forall|n: Seq<char>|
                n != cuisine@.name ==> spec_find_cuisine(final(self)@.cuisines, n)
                    == spec_find_cuisine(old(self)@.cuisines, n),
    {
        let ghost cs0 = self@.cuisines;
        let idx = self.find_cuisine_index(&cuisine.name);
        let ghost cv = cuisine@;
        match idx {
            Some(i) => {
                self.cuisines[i] = cuisine;
            },
            None => {
                self.cuisines.push(cuisine);
            },
        }
        proof {
            let cs1 = self@.cuisines;
            match idx {
                Some(i) => {
                    assert(cs1 =~= cs0.update(i as int, cv));
                },
                None => {
                    assert(cs1 =~= cs0.push(cv));
                },
            }
            // Only the slot holding `cuisine`'s name changed, so uniqueness
            // and every other lookup carry over.
            assert(cuisine_names_unique(cs1)) by {
                assert forall|a: int, b: int| 0 <= a < b < cs1.len() implies cs1[a].name
                    != cs1[b].name by {
                    if a < cs0.len() && b < cs0.len() {
                        match idx {
                            Some(i) => {
                                if a != i && b != i {
                                    assert(cs1[a] == cs0[a] && cs1[b] == cs0[b]);
                                } else if a == i {
                                    assert(cs1[b] == cs0[b]);
                                    assert(cs0[a as int].name == cv.name);
                                } else {
                                    assert(cs1[a] == cs0[a]);
                                    assert(cs0[b as int].name == cv.name);
                                }
                            },
                            None => {
                            },
                        }
                    }
                }
            }
            let k = match idx {
                Some(i) => i as int,
                None => cs0.len() as int,
            };
            assert(cs1[k] == cv);
            lemma_find_cuisine_present(cs1, k);
            assert forall|n: Seq<char>| n != cv.name implies spec_find_cuisine(cs1, n)
                == spec_find_cuisine(cs0, n) by {
                lemma_find_cuisine_membership(cs1, n);
                lemma_find_cuisine_membership(cs0, n);
                match spec_find_cuisine(cs1, n) {
                    Some(c) => {
                        let i = choose|i: int| 0 <= i < cs1.len() && cs1[i] == c && c.name == n;
                        assert(i != k);
                        assert(cs0[i] == c);
                        assert(cuisine_names_unique(cs0));
                        lemma_find_cuisine_present(cs0, i);
                    },
                    None => {
                        match spec_find_cuisine(cs0, n) {
                            Some(c) => {
                                let i = choose|i: int|
                                    0 <= i < cs0.len() && cs0[i] == c && c.name == n;
                                assert(i != k);
                                assert(cs1[i] == c);
                                assert(cs1[i].name == n);
                                assert(false);
                            },
                            None => {
                            },
                        }
                    },
                }
            }
        }
    }

    /// Looks a cuisine up by exact name.
    pub fn find_cuisine(&self, name: &String) -> (r: Option<&Cuisine>)
        ensures
            match r {
                Some(c) => spec_find_cuisine(self@.cuisines, name@) == Some(c@),
                None => spec_find_cuisine(self@.cuisines, name@) is None,
            },
    {
        let ghost cs = self@.cuisines;
        proof {
            assert(cs.skip(0) =~= cs);
        }
        let mut i: usize = 0;
        while i < self.cuisines.len()
            invariant
                i <= self.cuisines@.len(),
                cs == self@.cuisines,
                cs.len() == self.cuisines@.len(),
                spec_find_cuisine(cs, name@) == spec_find_cuisine(cs.skip(i as int), name@),
            decreases self.cuisines@.len() - i,
        {
            proof {
                assert(cs.skip(i as int)[0] == cs[i as int]);
            }
            let c = &self.cuisines[i];
            if c.name == *name {
                return Some(c);
            }
            proof {
                assert(cs.skip(i as int).skip(1) =~= cs.skip(i + 1));
            }
            i = i + 1;
        }
        proof {
            assert(cs.skip(cs.len() as int) =~= Seq::<CuisineView>::empty());
        }
        None
    }
}

impl Cuisine {
    /// A fresh cuisine with no foods.
    pub fn new(name: String) -> (r: Cuisine)
        ensures
            r@.name == name@,
            r@.foods == Seq::<FoodView>::empty(),
    {
        let r = Cuisine { name, foods: Vec::new() };
        proof {
            assert(r.foods.deep_view() =~= Seq::<FoodView>::empty());
        }
        r
    }

    /// Appends a food; earlier foods keep their positions, so earlier
    /// entries still win name lookups.
    pub fn add_food(&mut self, food: Food)
        ensures
            final(self)@.name == old(self)@.name,
            final(self)@.foods == old(self)@.foods.push(food@),
    {
        let ghost f0 = self@.foods;
        self.foods.push(food);
        proof {
            assert(self@.foods =~= f0.push(food@));
        }
    }

    /// Looks a food up by exact name; the first match wins.
    pub fn find_food(&self, name: &String) -> (r: Option<&Food>)
        ensures
            match r {
                Some(f) => spec_find_food(self@.foods, name@) == Some(f@),
                None => spec_find_food(self@.foods, name@) is None,
            },
    {
        let ghost fs = self@.foods;
        proof {
            assert(fs.skip(0) =~= fs);
        }
        let mut i: usize = 0;
        while i < self.foods.len()
            invariant
                i <= self.foods@.len(),
                fs == self@.foods,
                fs.len() == self.foods@.len(),
                spec_find_food(fs, name@) == spec_find_food(fs.skip(i as int), name@),
            decreases self.foods@.len() - i,
        {
            proof {
                assert(fs.skip(i as int)[0] == fs[i as int]);
            }
            let f = &self.foods[i];
            if f.name == *name {
                return Some(f);
            }
            proof {
                assert(fs.skip(i as int).skip(1) =~= fs.skip(i + 1));
            }
            i = i + 1;
        }
        proof {
            assert(fs.skip(fs.len() as int) =~= Seq::<FoodView>::empty());
        }
        None
    }
}

} // verus!
