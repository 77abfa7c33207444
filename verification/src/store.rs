//! The registry of businesses, keyed by business name.
//!
//! A [`Restaurateur`] abstracts to a map from business name to
//! [`BusinessView`]; every operation's contract is stated as an update of
//! that map.  Mutations addressed to an absent business leave the registry
//! unchanged, while `get_business` reports absence explicitly.

use vstd::prelude::*;

use crate::model::Business;
use crate::model::BusinessView;
use crate::model::Menu;
use crate::model::Order;
use crate::model::OrderView;

verus! {

/// The orders of `s` whose date is not `date`, in their original order.
pub open spec fn orders_without_date(s: Seq<OrderView>, date: Seq<char>) -> Seq<OrderView>
    decreases s.len(),
{
    if s.len() == 0 {
        Seq::empty()
    } else {
        let rest = orders_without_date(s.drop_last(), date);
        if s.last().date == date {
            rest
        } else {
            rest.push(s.last())
        }
    }
}

/// Removing a date removes every order that bears it, keeps every order
/// that does not, and invents none.
pub proof fn lemma_orders_without_date(s: Seq<OrderView>, date: Seq<char>)
    ensures
        forall|i: int|
            0 <= i < orders_without_date(s, date).len() ==> orders_without_date(s, date)[i].date
                != date,
        forall|o: OrderView|
            s.contains(o) && o.date != date ==> orders_without_date(s, date).contains(o),
        forall|o: OrderView| orders_without_date(s, date).contains(o) ==> s.contains(o),
    decreases s.len(),
{
    if s.len() > 0 {
        lemma_orders_without_date(s.drop_last(), date);
        let rest = orders_without_date(s.drop_last(), date);
        let r = orders_without_date(s, date);
        assert forall|o: OrderView| s.contains(o) && o.date != date implies r.contains(o) by {
            let i = choose|i: int| 0 <= i < s.len() && s[i] == o;
            if i < s.len() - 1 {
                assert(s.drop_last()[i] == o);
                assert(s.drop_last().contains(o));
                let j = choose|j: int| 0 <= j < rest.len() && rest[j] == o;
                assert(r[j] == o);
            } else {
                assert(r[r.len() - 1] == o);
            }
        }
        assert forall|o: OrderView| r.contains(o) implies s.contains(o) by {
            let j = choose|j: int| 0 <= j < r.len() && r[j] == o;
            if j < rest.len() {
                assert(rest[j] == o);
                assert(s.drop_last().contains(o));
                let i = choose|i: int| 0 <= i < s.drop_last().len() && s.drop_last()[i] == o;
                assert(s[i] == o);
            } else {
                assert(s[s.len() - 1] == o);
            }
        }
    }
}

/// No two businesses of `s` share a name.
pub open spec fn names_unique(s: Seq<Business>) -> bool {
    forall|i: int, j: int| 0 <= i < j < s.len() ==> s[i]@.name != s[j]@.name
}

/// The map written by a sequence of businesses, later entries winning.
spec fn as_bmap(s: Seq<Business>) -> Map<Seq<char>, BusinessView>
    decreases s.len(),
{
    if s.len() == 0 {
        Map::empty()
    } else {
        as_bmap(s.drop_last()).insert(s.last()@.name, s.last()@)
    }
}

proof fn lemma_as_bmap_contains(s: Seq<Business>, n: Seq<char>)
    ensures
        as_bmap(s).contains_key(n) <==> exists|i: int| 0 <= i < s.len() && s[i]@.name == n,
    decreases s.len(),
{
    if s.len() > 0 {
        lemma_as_bmap_contains(s.drop_last(), n);
        if n == s.last()@.name {
            assert(s[s.len() - 1]@.name == n);
        } else {
            if exists|i: int| 0 <= i < s.len() && s[i]@.name == n {
                let i = choose|i: int| 0 <= i < s.len() && s[i]@.name == n;
                assert(s.drop_last()[i]@.name == n);
            }
            if exists|i: int| 0 <= i < s.drop_last().len() && s.drop_last()[i]@.name == n {
                let i = choose|i: int|
                    0 <= i < s.drop_last().len() && s.drop_last()[i]@.name == n;
                assert(s[i]@.name == n);
            }
        }
    }
}

proof fn lemma_as_bmap_index(s: Seq<Business>, i: int)
    requires
        names_unique(s),
        0 <= i < s.len(),
    ensures
        as_bmap(s).contains_key(s[i]@.name),
        as_bmap(s)[s[i]@.name] == s[i]@,
    decreases s.len(),
{
    if i < s.len() - 1 {
        assert(names_unique(s.drop_last()));
        lemma_as_bmap_index(s.drop_last(), i);
        assert(s.drop_last()[i] == s[i]);
        assert(s[i]@.name != s.last()@.name);
    }
}

/// Replacing the entry at `i` by a business of the same name is an insert
/// on the abstract map.
proof fn lemma_as_bmap_update(s: Seq<Business>, i: int, b: Business)
    requires
        names_unique(s),
        0 <= i < s.len(),
        b@.name == s[i]@.name,
    ensures
        as_bmap(s.update(i, b)) == as_bmap(s).insert(b@.name, b@),
    decreases s.len(),
{
    let t = s.update(i, b);
    if i == s.len() - 1 {
        assert(t.drop_last() =~= s.drop_last());
        assert(t.last() == b);
        assert(as_bmap(t) =~= as_bmap(s).insert(b@.name, b@));
    } else {
        assert(t.drop_last() =~= s.drop_last().update(i, b));
        assert(names_unique(s.drop_last()));
        lemma_as_bmap_update(s.drop_last(), i, b);
        assert(t.last() == s.last());
        assert(s[i]@.name != s.last()@.name);
        assert(as_bmap(t) =~= as_bmap(s).insert(b@.name, b@));
    }
}

/// Removing the entry at `i` is a remove on the abstract map.
proof fn lemma_as_bmap_remove(s: Seq<Business>, i: int)
    requires
        names_unique(s),
        0 <= i < s.len(),
    ensures
        as_bmap(s.remove(i)) == as_bmap(s).remove(s[i]@.name),
    decreases s.len(),
{
    let n = s[i]@.name;
    if i == s.len() - 1 {
        assert(s.remove(i) =~= s.drop_last());
        lemma_as_bmap_contains(s.drop_last(), n);
        assert(forall|k: int|
            0 <= k < s.drop_last().len() ==> #[trigger] s.drop_last()[k]@.name != n);
        assert(!as_bmap(s.drop_last()).contains_key(n));
        assert(as_bmap(s.drop_last()) =~= as_bmap(s).remove(n));
    } else {
        assert(s.remove(i).drop_last() =~= s.drop_last().remove(i));
        assert(names_unique(s.drop_last()));
        lemma_as_bmap_remove(s.drop_last(), i);
        assert(s.remove(i).last() == s.last());
        assert(n != s.last()@.name);
        assert(as_bmap(s.remove(i)) =~= as_bmap(s).remove(n));
    }
}

/// The registry: every business the system knows, keyed by name.
#[derive(Debug)]
pub struct Restaurateur {
    businesses: Vec<Business>,
}

impl View for Restaurateur {
    type V = Map<Seq<char>, BusinessView>;

    closed spec fn view(&self) -> Map<Seq<char>, BusinessView> {
        as_bmap(self.businesses@)
    }
}

/// What a registry of businesses offers.  An implementation abstracts to a
/// map from business name to business view; each operation is the
/// corresponding map update, and a mutation addressed to an absent name
/// leaves the map unchanged.
pub trait Restaurant: Sized + View<V = Map<Seq<char>, BusinessView>> {
    /// The implementation's internal invariant; every operation preserves
    /// it.
    spec fn inv(&self) -> bool;

    /// Inserts `business` under its name, overwriting any previous entry
    /// of that name; it always succeeds.
    fn add_business(&mut self, business: Business)
        requires
            old(self).inv(),
        ensures
            final(self).inv(),
            final(self)@ == old(self)@.insert(business@.name, business@),
    ;

    /// Removes the named business; absent names are a no-op.
    fn remove_business(&mut self, name: String)
        requires
            old(self).inv(),
        ensures
            final(self).inv(),
            final(self)@ == old(self)@.remove(name@),
    ;

    /// Looks the named business up; `None` says it is absent.
    fn get_business(&self, name: String) -> (r: Option<&Business>)
        requires
            self.inv(),
        ensures
            match r {
                Some(b) => self@.contains_key(name@) && b@ == self@[name@],
                None => !self@.contains_key(name@),
            },
    ;

    /// Replaces the named business's menu; an absent name leaves the
    /// registry unchanged.
    fn add_menu(&mut self, name: String, menu: Menu)
        requires
            old(self).inv(),
        ensures
            final(self).inv(),
            !old(self)@.contains_key(name@) ==> final(self)@ == old(self)@,
            old(self)@.contains_key(name@) ==> final(self)@ == old(self)@.insert(
                name@,
                BusinessView { menu: Some(menu@), ..old(self)@[name@] },
            ),
    ;

    /// Appends `order` to the named business's orders; an absent name
    /// leaves the registry unchanged.
    fn add_order(&mut self, name: String, order: Order)
        requires
            old(self).inv(),
        ensures
            final(self).inv(),
            !old(self)@.contains_key(name@) ==> final(self)@ == old(self)@,
            old(self)@.contains_key(name@) ==> final(self)@ == old(self)@.insert(
                name@,
                BusinessView {
                    orders: old(self)@[name@].orders.push(order@),
                    ..old(self)@[name@]
                },
            ),
    ;

    /// Removes every order of the named business whose date is `date`; an
    /// absent name leaves the registry unchanged.
    fn remove_order(&mut self, name: String, date: String)
        requires
            old(self).inv(),
        ensures
            final(self).inv(),
            !old(self)@.contains_key(name@) ==> final(self)@ == old(self)@,
            old(self)@.contains_key(name@) ==> final(self)@ == old(self)@.insert(
                name@,
                BusinessView {
                    orders: orders_without_date(old(self)@[name@].orders, date@),
                    ..old(self)@[name@]
                },
            ),
    ;

    /// A copy of the named business's orders; an empty list if the name
    /// is absent.
    fn show_orders(&self, name: String) -> (r: Vec<Order>)
        requires
            self.inv(),
        ensures
            r.deep_view() == if self@.contains_key(name@) {
                self@[name@].orders
            } else {
                Seq::<OrderView>::empty()
            },
    ;
}

impl Restaurateur {
    /// The registry holds no two businesses of one name.
    pub closed spec fn wf(self) -> bool {
        names_unique(self.businesses@)
    }

    /// An empty registry.
    pub fn new() -> (r: Restaurateur)
        ensures
            r.wf(),
            r@ == Map::<Seq<char>, BusinessView>::empty(),
    {
        let r = Restaurateur { businesses: Vec::new() };
        proof {
            assert(r@ =~= Map::<Seq<char>, BusinessView>::empty());
        }
        r
    }

    /// The position of the named business, if any.
    fn find_index(&self, name: &String) -> (r: Option<usize>)
        ensures
            match r {
                Some(i) => i < self.businesses@.len() && self.businesses@[i as int]@.name
                    == name@,
                None => forall|i: int|
                    0 <= i < self.businesses@.len() ==> (#[trigger] self.businesses@[i])@.name
                        != name@,
            },
    {
        let mut i: usize = 0;
        while i < self.businesses.len()
            invariant
                i <= self.businesses@.len(),
                forall|k: int|
                    0 <= k < i ==> (#[trigger] self.businesses@[k])@.name != name@,
            decreases self.businesses@.len() - i,
        {
            if self.businesses[i].name == *name {
                return Some(i);
            }
            i = i + 1;
        }
        None
    }
}

impl Restaurant for Restaurateur {
    open spec fn inv(&self) -> bool {
        self.wf()
    }

    fn add_business(&mut self, business: Business) {
        let ghost s0 = self.businesses@;
        match self.find_index(&business.name) {
            Some(i) => {
                proof {
                    lemma_as_bmap_update(s0, i as int, business);
                    assert(names_unique(s0.update(i as int, business)));
                }
                self.businesses[i] = business;
            },
            None => {
                proof {
                    assert(names_unique(s0.push(business)));
                }
                self.businesses.push(business);
                proof {
                    assert(self.businesses@.drop_last() =~= s0);
                }
            },
        }
    }

    fn remove_business(&mut self, name: String) {
        let ghost s0 = self.businesses@;
        match self.find_index(&name) {
            Some(i) => {
                proof {
                    lemma_as_bmap_remove(s0, i as int);
                    assert(names_unique(s0.remove(i as int))) by {
                        assert forall|a: int, b: int|
                            0 <= a < b < s0.remove(i as int).len() implies s0.remove(
                            i as int,
                        )[a]@.name != s0.remove(i as int)[b]@.name by {
                            let a0 = if a < i { a } else { a + 1 };
                            let b0 = if b < i { b } else { b + 1 };
                            assert(s0.remove(i as int)[a] == s0[a0]);
                            assert(s0.remove(i as int)[b] == s0[b0]);
                        }
                    }
                }
                let _ = self.businesses.remove(i);
            },
            None => {
                proof {
                    lemma_as_bmap_contains(s0, name@);
                    assert(old(self)@.remove(name@) =~= old(self)@);
                }
            },
        }
    }

    fn get_business(&self, name: String) -> (r: Option<&Business>) {
        match self.find_index(&name) {
            Some(i) => {
                proof {
                    lemma_as_bmap_index(self.businesses@, i as int);
                }
                Some(&self.businesses[i])
            },
            None => {
                proof {
                    lemma_as_bmap_contains(self.businesses@, name@);
                }
                None
            },
        }
    }

    fn add_menu(&mut self, name: String, menu: Menu) {
        let ghost s0 = self.businesses@;
        match self.find_index(&name) {
            Some(i) => {
                let mut b = self.businesses[i].clone();
                b.menu = Some(menu);
                proof {
                    lemma_as_bmap_index(s0, i as int);
                    lemma_as_bmap_contains(s0, name@);
                    lemma_as_bmap_update(s0, i as int, b);
                    assert(names_unique(s0.update(i as int, b)));
                    assert(b@ =~= BusinessView { menu: b@.menu, ..old(self)@[name@] });
                }
                self.businesses[i] = b;
            },
            None => {
                proof {
                    lemma_as_bmap_contains(s0, name@);
                }
            },
        }
    }

    fn add_order(&mut self, name: String, order: Order) {
        let ghost s0 = self.businesses@;
        match self.find_index(&name) {
            Some(i) => {
                let mut b = self.businesses[i].clone();
                let ghost bv0 = b@;
                b.orders.push(order);
                proof {
                    assert(b.orders.deep_view() =~= bv0.orders.push(order@));
                    lemma_as_bmap_index(s0, i as int);
                    lemma_as_bmap_contains(s0, name@);
                    lemma_as_bmap_update(s0, i as int, b);
                    assert(names_unique(s0.update(i as int, b)));
                    assert(b@ =~= BusinessView {
                        orders: old(self)@[name@].orders.push(order@),
                        ..old(self)@[name@]
                    });
                }
                self.businesses[i] = b;
            },
            None => {
                proof {
                    lemma_as_bmap_contains(s0, name@);
                }
            },
        }
    }

    fn remove_order(&mut self, name: String, date: String) {
        let ghost s0 = self.businesses@;
        match self.find_index(&name) {
            Some(i) => {
                let mut b = self.businesses[i].clone();
                let ghost bv0 = b@;
                b.orders = filter_orders(&b.orders, &date);
                proof {
                    lemma_as_bmap_index(s0, i as int);
                    lemma_as_bmap_contains(s0, name@);
                    lemma_as_bmap_update(s0, i as int, b);
                    assert(names_unique(s0.update(i as int, b)));
                    assert(b@ =~= BusinessView {
                        orders: orders_without_date(old(self)@[name@].orders, date@),
                        ..old(self)@[name@]
                    });
                }
                self.businesses[i] = b;
            },
            None => {
                proof {
                    lemma_as_bmap_contains(s0, name@);
                }
            },
        }
    }

    fn show_orders(&self, name: String) -> (r: Vec<Order>) {
        match self.find_index(&name) {
            Some(i) => {
                proof {
                    lemma_as_bmap_index(self.businesses@, i as int);
                }
                let r = self.businesses[i].orders.clone();
                proof {
                    assert(r.deep_view() =~= self@[name@].orders);
                }
                r
            },
            None => {
                proof {
                    lemma_as_bmap_contains(self.businesses@, name@);
                }
                let r: Vec<Order> = Vec::new();
                proof {
                    assert(r.deep_view() =~= Seq::<OrderView>::empty());
                }
                r
            },
        }
    }
}

/// The orders of `orders` whose date is not `date`, as a fresh vector.
fn filter_orders(orders: &Vec<Order>, date: &String) -> (r: Vec<Order>)
    ensures
        r.deep_view() == orders_without_date(orders.deep_view(), date@),
{
    let ghost dv = orders.deep_view();
    let mut out: Vec<Order> = Vec::new();
    proof {
        assert(out.deep_view() =~= orders_without_date(dv.take(0), date@));
    }
    let mut i: usize = 0;
    while i < orders.len()
        invariant
            i <= orders@.len(),
            dv == orders.deep_view(),
            out.deep_view() == orders_without_date(dv.take(i as int), date@),
        decreases orders@.len() - i,
    {
        proof {
            assert(dv.take(i + 1).drop_last() =~= dv.take(i as int));
            assert(dv.take(i + 1).last() == dv[i as int]);
        }
        let o = &orders[i];
        if !(o.date == *date) {
            let ghost out0 = out.deep_view();
            out.push(o.clone());
            proof {
                assert(out.deep_view() =~= out0.push(dv[i as int]));
            }
        }
        i = i + 1;
    }
    proof {
        assert(dv.take(orders@.len() as int) =~= dv);
    }
    out
}

/// Adding a business and then fetching it by its name yields that very
/// business.
pub proof fn lemma_add_then_get(m: Map<Seq<char>, BusinessView>, b: BusinessView)
    ensures
        m.insert(b.name, b).contains_key(b.name),
        m.insert(b.name, b)[b.name] == b,
{
}

/// Adding two businesses under one name keeps only the second.
pub proof fn lemma_last_write_wins(
    m: Map<Seq<char>, BusinessView>,
    first: BusinessView,
    second: BusinessView,
)
    requires
        first.name == second.name,
    ensures
        m.insert(first.name, first).insert(second.name, second) == m.insert(second.name, second),
{
    assert(m.insert(first.name, first).insert(second.name, second) =~= m.insert(
        second.name,
        second,
    ));
}

} // verus!
