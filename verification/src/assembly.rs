//! Turning menu selections into a priced order.
//!
//! A selection names a cuisine and a food; resolving it against a menu
//! either yields a line with quantity one and the food's price, or reports
//! which lookup failed so the caller can retry the pair.  Finishing an
//! assembly sums the line prices; the sum saturates at the largest
//! representable amount.

use vstd::prelude::*;

use crate::menu::spec_find_cuisine;
use crate::menu::spec_find_food;
use crate::model::Customer;
use crate::model::FoodOrder;
use crate::model::FoodOrderView;
use crate::model::Menu;
use crate::model::MenuView;
use crate::model::Order;
use crate::model::PaymentMode;

verus! {

/// Why a selection failed to resolve.
#[derive(Clone, Copy, Debug, PartialEq, Eq, Structural)]
pub enum SelectionError {
    CuisineNotFound,
    FoodNotFound,
}

/// One requested pair: a cuisine name and a food name within it.
#[derive(Debug, PartialEq)]
pub struct Selection {
    pub cuisine: String,
    pub food: String,
}

#[verifier::ext_equal]
pub ghost struct SelectionView {
    pub cuisine: Seq<char>,
    pub food: Seq<char>,
}

impl View for Selection {
    type V = SelectionView;

    open spec fn view(&self) -> SelectionView {
        SelectionView { cuisine: self.cuisine@, food: self.food@ }
    }
}

impl DeepView for Selection {
    type V = SelectionView;

    open spec fn deep_view(&self) -> SelectionView {
        self.view()
    }
}

impl Clone for Selection {
    fn clone(&self) -> (res: Self)
        ensures
            res == *self,
    {
        Selection { cuisine: self.cuisine.clone(), food: self.food.clone() }
    }
}

/// What one selection resolves to against a menu: the first food of the
/// requested name inside the cuisine of the requested name, as a line with
/// quantity one and the food's price; or the lookup that failed.
pub open spec fn spec_select(m: MenuView, cuisine: Seq<char>, food: Seq<char>) -> Result<
    FoodOrderView,
    SelectionError,
> {
    match spec_find_cuisine(m.cuisines, cuisine) {
        None => Err(SelectionError::CuisineNotFound),
        Some(c) => match spec_find_food(c.foods, food) {
            None => Err(SelectionError::FoodNotFound),
            Some(f) => Ok(FoodOrderView { food: f, quantity: 1, price: f.price }),
        },
    }
}

/// Resolves one selection against `menu`.  No food order is created on a
/// failed lookup, and the error says whether the cuisine or the food was
/// missing.
pub fn select_food(menu: &Menu, cuisine_name: &String, food_name: &String) -> (r: Result<
    FoodOrder,
    SelectionError,
>)
    ensures
        match spec_select(menu@, cuisine_name@, food_name@) {
            Ok(fov) => r matches Ok(fo) && fo@ == fov,
            Err(e) => r == Err::<FoodOrder, SelectionError>(e),
        },
{
    match menu.find_cuisine(cuisine_name) {
        None => Err(SelectionError::CuisineNotFound),
        Some(c) => match c.find_food(food_name) {
            None => Err(SelectionError::FoodNotFound),
            Some(f) => Ok(FoodOrder { food: f.clone(), quantity: 1, price: f.price }),
        },
    }
}

/// The sum of the line prices of `s`.
pub open spec fn sum_prices(s: Seq<FoodOrderView>) -> int
    decreases s.len(),
{
    if s.len() == 0 {
        0
    } else {
        sum_prices(s.drop_last()) + s.last().price
    }
}

/// A sum clamped to what a price field can hold.
pub open spec fn saturated(total: int) -> int {
    if total <= u64::MAX {
        total
    } else {
        u64::MAX as int
    }
}

/// The lines that a list of selections resolves to, in order; failed
/// selections contribute nothing.
pub open spec fn spec_resolve(m: MenuView, sels: Seq<SelectionView>) -> Seq<FoodOrderView>
    decreases sels.len(),
{
    if sels.len() == 0 {
        Seq::empty()
    } else {
        let rest = spec_resolve(m, sels.drop_last());
        match spec_select(m, sels.last().cuisine, sels.last().food) {
            Ok(fov) => rest.push(fov),
            Err(_) => rest,
        }
    }
}

/// Resolving no selections yields no lines and a zero price.
pub proof fn lemma_resolve_empty(m: MenuView)
    ensures
        spec_resolve(m, Seq::<SelectionView>::empty()) == Seq::<FoodOrderView>::empty(),
        sum_prices(spec_resolve(m, Seq::<SelectionView>::empty())) == 0,
{
}

/// An order in the making: the lines collected so far.
#[derive(Debug)]
pub struct OrderAssembly {
    foods: Vec<FoodOrder>,
}

impl View for OrderAssembly {
    type V = Seq<FoodOrderView>;

    closed spec fn view(&self) -> Seq<FoodOrderView> {
        self.foods.deep_view()
    }
}

impl OrderAssembly {
    /// An assembly with no lines yet.
    pub fn new() -> (r: OrderAssembly)
        ensures
            r@ == Seq::<FoodOrderView>::empty(),
    {
        let r = OrderAssembly { foods: Vec::new() };
        proof {
            assert(r@ =~= Seq::<FoodOrderView>::empty());
        }
        r
    }

    /// Resolves one selection and, on success, appends its line; on
    /// failure reports which lookup failed and appends nothing.
    pub fn select(&mut self, menu: &Menu, cuisine_name: &String, food_name: &String) -> (r:
        Result<(), SelectionError>)
        ensures
            match spec_select(menu@, cuisine_name@, food_name@) {
                Ok(fov) => r is Ok && final(self)@ == old(self)@.push(fov),
                Err(e) => r == Err::<(), SelectionError>(e) && final(self)@ == old(self)@,
            },
    {
        let ghost before = self@;
        match select_food(menu, cuisine_name, food_name) {
            Ok(fo) => {
                let ghost fov = fo@;
                self.foods.push(fo);
                proof {
                    assert(self@ =~= before.push(fov));
                }
                Ok(())
            },
            Err(e) => Err(e),
        }
    }

    /// Closes the assembly into an order for `customer`: the collected
    /// lines in order, and their price sum, saturating at the largest
    /// representable amount.
    pub fn finish(self, customer: Customer, date: String, payment_mode: PaymentMode) -> (r:
        Order)
        ensures
            r@.foods == self@,
            r@.customer == customer@,
            r@.date == date@,
            r@.payment_mode == payment_mode,
            r@.price == saturated(sum_prices(self@)),
    {
        let total = sum_food_order_prices(&self.foods);
        let r = Order { foods: self.foods, customer, date, payment_mode, price: total };
        proof {
            assert(r@.foods =~= self@);
        }
        r
    }
}

/// Adds the line prices up, saturating at the largest representable
/// amount.
fn sum_food_order_prices(foods: &Vec<FoodOrder>) -> (total: u64)
    ensures
        total == saturated(sum_prices(foods.deep_view())),
{
    let ghost fv = foods.deep_view();
    let mut total: u64 = 0;
    let mut i: usize = 0;
    proof {
        assert(fv.take(0) =~= Seq::<FoodOrderView>::empty());
    }
    while i < foods.len()
        invariant
            i <= foods@.len(),
            fv == foods.deep_view(),
            total == saturated(sum_prices(fv.take(i as int))),
        decreases foods@.len() - i,
    {
        proof {
            assert(fv.take(i + 1).drop_last() =~= fv.take(i as int));
            assert(fv.take(i + 1).last() == fv[i as int]);
        }
        let p = foods[i].price;
        if total > u64::MAX - p {
            total = u64::MAX;
        } else {
            total = total + p;
        }
        i = i + 1;
    }
    proof {
        assert(fv.take(foods@.len() as int) =~= fv);
    }
    total
}

/// Resolves a whole list of selections against `menu` and closes the
/// result into an order; failed selections contribute no line.
pub fn assemble_order(
    menu: &Menu,
    selections: &Vec<Selection>,
    customer: Customer,
    date: String,
    payment_mode: PaymentMode,
) -> (r: Order)
    ensures
        r@.foods == spec_resolve(menu@, selections.deep_view()),
        r@.customer == customer@,
        r@.date == date@,
        r@.payment_mode == payment_mode,
        r@.price == saturated(sum_prices(spec_resolve(menu@, selections.deep_view()))),
{
    let ghost sv = selections.deep_view();
    let mut builder = OrderAssembly::new();
    proof {
        assert(sv.take(0) =~= Seq::<SelectionView>::empty());
    }
    let mut i: usize = 0;
    while i < selections.len()
        invariant
            i <= selections@.len(),
            sv == selections.deep_view(),
            builder@ == spec_resolve(menu@, sv.take(i as int)),
        decreases selections@.len() - i,
    {
        proof {
            assert(sv.take(i + 1).drop_last() =~= sv.take(i as int));
            assert(sv.take(i + 1).last() == sv[i as int]);
        }
        let sel = &selections[i];
        let _ = builder.select(menu, &sel.cuisine, &sel.food);
        i = i + 1;
    }
    proof {
        assert(sv.take(selections@.len() as int) =~= sv);
    }
    builder.finish(customer, date, payment_mode)
}

} // verus!
