//! The entity model: foods, cuisines, menus, customers, orders, businesses.
//!
//! Every entity is a plain value, constructible from its fields; no entity
//! validates its fields.  Prices are fixed-point amounts, counted in
//! hundredths of the currency unit.  Each executable type has a ghost view
//! so that contracts can speak of its contents mathematically.

use vstd::prelude::*;

verus! {

/// Whether a food is vegetarian.
#[derive(Clone, Copy, Debug, PartialEq, Eq, Structural)]
pub enum FoodType {
    Veg,
    NonVeg,
}

/// The course a food belongs to.
#[derive(Clone, Copy, Debug, PartialEq, Eq, Structural)]
pub enum FoodCategory {
    Appetizer,
    MainCourse,
    Dessert,
}

/// How an order is paid.
#[derive(Clone, Copy, Debug, PartialEq, Eq, Structural)]
pub enum PaymentMode {
    Cash,
    Card,
    UPI,
    Wallet,
}

/// A single dish on a menu.  `price` is in hundredths of the currency unit.
#[derive(Debug, PartialEq)]
pub struct Food {
    pub name: String,
    pub food_type: FoodType,
    pub food_category: FoodCategory,
    pub price: u64,
}

#[verifier::ext_equal]
pub ghost struct FoodView {
    pub name: Seq<char>,
    pub food_type: FoodType,
    pub food_category: FoodCategory,
    pub price: int,
}

impl View for Food {
    type V = FoodView;

    open spec fn view(&self) -> FoodView {
        FoodView {
            name: self.name@,
            food_type: self.food_type,
            food_category: self.food_category,
            price: self.price as int,
        }
    }
}

impl DeepView for Food {
    type V = FoodView;

    open spec fn deep_view(&self) -> FoodView {
        self.view()
    }
}

impl Clone for Food {
    fn clone(&self) -> (res: Self)
        ensures
            res == *self,
    {
        Food {
            name: self.name.clone(),
            food_type: self.food_type,
            food_category: self.food_category,
            price: self.price,
        }
    }
}

/// A named group of foods within a menu.
#[derive(Debug, PartialEq)]
pub struct Cuisine {
    pub name: String,
    pub foods: Vec<Food>,
}

#[verifier::ext_equal]
pub ghost struct CuisineView {
    pub name: Seq<char>,
    pub foods: Seq<FoodView>,
}

impl View for Cuisine {
    type V = CuisineView;

    open spec fn view(&self) -> CuisineView {
        CuisineView { name: self.name@, foods: self.foods.deep_view() }
    }
}

impl DeepView for Cuisine {
    type V = CuisineView;

    open spec fn deep_view(&self) -> CuisineView {
        self.view()
    }
}

impl Clone for Cuisine {
    fn clone(&self) -> (res: Self)
        ensures
            res@ == self@,
    {
        let foods = self.foods.clone();
        proof {
            assert(foods.deep_view() =~= self.foods.deep_view());
        }
        Cuisine { name: self.name.clone(), foods }
    }
}

/// A business's catalog: a flat menu price, a veg flag, and its cuisines.
/// Cuisine names are unique within a menu.
#[derive(Debug, PartialEq)]
pub struct Menu {
    pub name: String,
    pub price: u64,
    pub is_veg: bool,
    pub cuisines: Vec<Cuisine>,
}

#[verifier::ext_equal]
pub ghost struct MenuView {
    pub name: Seq<char>,
    pub price: int,
    pub is_veg: bool,
    pub cuisines: Seq<CuisineView>,
}

impl View for Menu {
    type V = MenuView;

    open spec fn view(&self) -> MenuView {
        MenuView {
            name: self.name@,
            price: self.price as int,
            is_veg: self.is_veg,
            cuisines: self.cuisines.deep_view(),
        }
    }
}

impl DeepView for Menu {
    type V = MenuView;

    open spec fn deep_view(&self) -> MenuView {
        self.view()
    }
}

impl Clone for Menu {
    fn clone(&self) -> (res: Self)
        ensures
            res@ == self@,
    {
        let cuisines = self.cuisines.clone();
        proof {
            assert(cuisines.deep_view() =~= self.cuisines.deep_view());
        }
        Menu { name: self.name.clone(), price: self.price, is_veg: self.is_veg, cuisines }
    }
}

/// The customer data embedded in an order.
#[derive(Debug, PartialEq)]
pub struct Customer {
    pub name: String,
    pub age: u8,
    pub address: String,
    pub phone: String,
}

#[verifier::ext_equal]
pub ghost struct CustomerView {
    pub name: Seq<char>,
    pub age: int,
    pub address: Seq<char>,
    pub phone: Seq<char>,
}

impl View for Customer {
    type V = CustomerView;

    open spec fn view(&self) -> CustomerView {
        CustomerView {
            name: self.name@,
            age: self.age as int,
            address: self.address@,
            phone: self.phone@,
        }
    }
}

impl DeepView for Customer {
    type V = CustomerView;

    open spec fn deep_view(&self) -> CustomerView {
        self.view()
    }
}

impl Clone for Customer {
    fn clone(&self) -> (res: Self)
        ensures
            res == *self,
    {
        Customer {
            name: self.name.clone(),
            age: self.age,
            address: self.address.clone(),
            phone: self.phone.clone(),
        }
    }
}

/// One priced line of an order: a snapshot of the selected food, a quantity,
/// and the line price in hundredths.
#[derive(Debug, PartialEq)]
pub struct FoodOrder {
    pub food: Food,
    pub quantity: u8,
    pub price: u64,
}

#[verifier::ext_equal]
pub ghost struct FoodOrderView {
    pub food: FoodView,
    pub quantity: int,
    pub price: int,
}

impl View for FoodOrder {
    type V = FoodOrderView;

    open spec fn view(&self) -> FoodOrderView {
        FoodOrderView { food: self.food@, quantity: self.quantity as int, price: self.price as int }
    }
}

impl DeepView for FoodOrder {
    type V = FoodOrderView;

    open spec fn deep_view(&self) -> FoodOrderView {
        self.view()
    }
}

impl Clone for FoodOrder {
    fn clone(&self) -> (res: Self)
        ensures
            res == *self,
    {
        FoodOrder { food: self.food.clone(), quantity: self.quantity, price: self.price }
    }
}

/// A finalized purchase: its lines, the customer, a free-form date, the
/// payment mode, and the total price in hundredths.
#[derive(Debug, PartialEq)]
pub struct Order {
    pub foods: Vec<FoodOrder>,
    pub customer: Customer,
    pub date: String,
    pub payment_mode: PaymentMode,
    pub price: u64,
}

#[verifier::ext_equal]
pub ghost struct OrderView {
    pub foods: Seq<FoodOrderView>,
    pub customer: CustomerView,
    pub date: Seq<char>,
    pub payment_mode: PaymentMode,
    pub price: int,
}

impl View for Order {
    type V = OrderView;

    open spec fn view(&self) -> OrderView {
        OrderView {
            foods: self.foods.deep_view(),
            customer: self.customer@,
            date: self.date@,
            payment_mode: self.payment_mode,
            price: self.price as int,
        }
    }
}

impl DeepView for Order {
    type V = OrderView;

    open spec fn deep_view(&self) -> OrderView {
        self.view()
    }
}

impl Clone for Order {
    fn clone(&self) -> (res: Self)
        ensures
            res@ == self@,
    {
        let foods = self.foods.clone();
        proof {
            assert(foods.deep_view() =~= self.foods.deep_view());
        }
        Order {
            foods,
            customer: self.customer.clone(),
            date: self.date.clone(),
            payment_mode: self.payment_mode,
            price: self.price,
        }
    }
}

/// A managed restaurant, identified by its name.  It starts with no menu
/// and no orders.
#[derive(Debug, PartialEq)]
pub struct Business {
    pub name: String,
    pub address: String,
    pub phone: String,
    pub menu: Option<Menu>,
    pub orders: Vec<Order>,
}

#[verifier::ext_equal]
pub ghost struct BusinessView {
    pub name: Seq<char>,
    pub address: Seq<char>,
    pub phone: Seq<char>,
    pub menu: Option<MenuView>,
    pub orders: Seq<OrderView>,
}

impl View for Business {
    type V = BusinessView;

    open spec fn view(&self) -> BusinessView {
        BusinessView {
            name: self.name@,
            address: self.address@,
            phone: self.phone@,
            menu: match self.menu {
                Some(m) => Some(m@),
                None => None,
            },
            orders: self.orders.deep_view(),
        }
    }
}

impl DeepView for Business {
    type V = BusinessView;

    open spec fn deep_view(&self) -> BusinessView {
        self.view()
    }
}

impl Clone for Business {
    fn clone(&self) -> (res: Self)
        ensures
            res@ == self@,
    {
        let orders = self.orders.clone();
        proof {
            assert(orders.deep_view() =~= self.orders.deep_view());
        }
        Business {
            name: self.name.clone(),
            address: self.address.clone(),
            phone: self.phone.clone(),
            menu: match &self.menu {
                Some(m) => Some(m.clone()),
                None => None,
            },
            orders,
        }
    }
}

impl Business {
    /// A freshly created business: the given identity, no menu, no orders.
    pub fn new(name: String, address: String, phone: String) -> (res: Business)
        ensures
            res@.name == name@,
            res@.address == address@,
            res@.phone == phone@,
            res@.menu is None,
            res@.orders == Seq::<OrderView>::empty(),
    {
        let res = Business { name, address, phone, menu: None, orders: Vec::new() };
        proof {
            assert(res.orders.deep_view() =~= Seq::<OrderView>::empty());
        }
        res
    }
}

} // verus!
