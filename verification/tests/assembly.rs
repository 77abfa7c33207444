use restaurateur::assembly::assemble_order;
use restaurateur::assembly::select_food;
use restaurateur::assembly::OrderAssembly;
use restaurateur::assembly::Selection;
use restaurateur::assembly::SelectionError;
use restaurateur::model::Business;
use restaurateur::model::Customer;
use restaurateur::model::Cuisine;
use restaurateur::model::Food;
use restaurateur::model::FoodCategory;
use restaurateur::model::FoodType;
use restaurateur::model::Menu;
use restaurateur::model::PaymentMode;
use restaurateur::store::Restaurant;
use restaurateur::store::Restaurateur;

fn food(name: &str, price: u64) -> Food {
    Food {
        name: name.to_string(),
        food_type: FoodType::Veg,
        food_category: FoodCategory::MainCourse,
        price,
    }
}

fn italian_menu() -> Menu {
    let mut menu = Menu::new("Dinner".to_string(), 0, true);
    let mut italian = Cuisine::new("Italian".to_string());
    italian.add_food(food("Pizza", 950));
    italian.add_food(food("Pasta", 700));
    menu.insert_cuisine(italian);
    menu
}

fn customer() -> Customer {
    Customer {
        name: "Ada".to_string(),
        age: 30,
        address: "12 Main St".to_string(),
        phone: "555-0100".to_string(),
    }
}

#[test]
fn empty_selection_yields_empty_order() {
    let menu = italian_menu();
    let order = assemble_order(
        &menu,
        &Vec::new(),
        customer(),
        "2021-10-01".to_string(),
        PaymentMode::Card,
    );
    assert!(order.foods.is_empty());
    assert_eq!(order.price, 0);
}

#[test]
fn two_selections_sum_their_prices() {
    let menu = italian_menu();
    let selections = vec![
        Selection { cuisine: "Italian".to_string(), food: "Pizza".to_string() },
        Selection { cuisine: "Italian".to_string(), food: "Pasta".to_string() },
    ];
    let order = assemble_order(
        &menu,
        &selections,
        customer(),
        "2021-10-01".to_string(),
        PaymentMode::Card,
    );
    assert_eq!(order.foods.len(), 2);
    assert_eq!(order.foods[0].food.name, "Pizza");
    assert_eq!(order.foods[0].quantity, 1);
    assert_eq!(order.foods[0].price, 950);
    assert_eq!(order.foods[1].food.name, "Pasta");
    assert_eq!(order.foods[1].price, 700);
    assert_eq!(order.price, 1650);
    assert_eq!(order.date, "2021-10-01");
    assert!(matches!(order.payment_mode, PaymentMode::Card));
}

#[test]
fn unknown_cuisine_creates_no_food_order() {
    let mut store = Restaurateur::new();
    let mut b = Business::new(
        "Trattoria".to_string(),
        "5 Hill Rd".to_string(),
        "555-0101".to_string(),
    );
    b.menu = Some(italian_menu());
    let snapshot = b.clone();
    store.add_business(b);

    let menu = store
        .get_business("Trattoria".to_string())
        .and_then(|bb| bb.menu.as_ref())
        .expect("menu attached");
    let r = select_food(menu, &"French".to_string(), &"Pizza".to_string());
    assert_eq!(r, Err(SelectionError::CuisineNotFound));

    // Nothing reached the store.
    let after = store.get_business("Trattoria".to_string()).expect("business present");
    assert_eq!(*after, snapshot);
    assert!(store.show_orders("Trattoria".to_string()).is_empty());
}

#[test]
fn unknown_food_reports_food_not_found() {
    let menu = italian_menu();
    let r = select_food(&menu, &"Italian".to_string(), &"Sushi".to_string());
    assert_eq!(r, Err(SelectionError::FoodNotFound));
}

#[test]
fn matched_selection_copies_the_food() {
    let menu = italian_menu();
    let fo = select_food(&menu, &"Italian".to_string(), &"Pizza".to_string())
        .expect("selection resolves");
    assert_eq!(fo.food.name, "Pizza");
    assert_eq!(fo.food.price, 950);
    assert_eq!(fo.quantity, 1);
    assert_eq!(fo.price, 950);
}

#[test]
fn first_food_of_a_name_wins() {
    let mut menu = Menu::new("Dinner".to_string(), 0, true);
    let mut c = Cuisine::new("Fusion".to_string());
    c.add_food(food("Bowl", 500));
    c.add_food(food("Bowl", 900));
    menu.insert_cuisine(c);
    let fo = select_food(&menu, &"Fusion".to_string(), &"Bowl".to_string())
        .expect("selection resolves");
    assert_eq!(fo.price, 500);
}

#[test]
fn failed_selection_leaves_assembly_unchanged() {
    let menu = italian_menu();
    let mut builder = OrderAssembly::new();
    builder
        .select(&menu, &"Italian".to_string(), &"Pizza".to_string())
        .expect("selection resolves");
    let r = builder.select(&menu, &"Nordic".to_string(), &"Pizza".to_string());
    assert_eq!(r, Err(SelectionError::CuisineNotFound));
    let order = builder.finish(customer(), "2021-10-01".to_string(), PaymentMode::Cash);
    assert_eq!(order.foods.len(), 1);
    assert_eq!(order.price, 950);
}

#[test]
fn order_price_saturates() {
    let mut menu = Menu::new("Dinner".to_string(), 0, false);
    let mut c = Cuisine::new("Lavish".to_string());
    c.add_food(food("Gold", u64::MAX));
    c.add_food(food("Salt", 2));
    menu.insert_cuisine(c);
    let selections = vec![
        Selection { cuisine: "Lavish".to_string(), food: "Gold".to_string() },
        Selection { cuisine: "Lavish".to_string(), food: "Salt".to_string() },
    ];
    let order = assemble_order(
        &menu,
        &selections,
        customer(),
        "2021-10-01".to_string(),
        PaymentMode::UPI,
    );
    assert_eq!(order.foods.len(), 2);
    assert_eq!(order.price, u64::MAX);
}

#[test]
fn insert_cuisine_replaces_same_name() {
    let mut menu = Menu::new("Dinner".to_string(), 0, true);
    let mut old_italian = Cuisine::new("Italian".to_string());
    old_italian.add_food(food("Pizza", 100));
    menu.insert_cuisine(old_italian);
    let mut new_italian = Cuisine::new("Italian".to_string());
    new_italian.add_food(food("Pizza", 950));
    menu.insert_cuisine(new_italian);

    let fo = select_food(&menu, &"Italian".to_string(), &"Pizza".to_string())
        .expect("selection resolves");
    assert_eq!(fo.price, 950);
}

#[test]
fn assembled_order_appends_to_business() {
    let mut store = Restaurateur::new();
    let mut b = Business::new(
        "Trattoria2".to_string(),
        "5 Hill Rd".to_string(),
        "555-0101".to_string(),
    );
    b.menu = Some(italian_menu());
    store.add_business(b);

    let order = {
        let menu = store
            .get_business("Trattoria2".to_string())
            .and_then(|bb| bb.menu.as_ref())
            .expect("menu attached");
        let selections = vec![Selection {
            cuisine: "Italian".to_string(),
            food: "Pasta".to_string(),
        }];
        assemble_order(&menu, &selections, customer(), "2021-10-01".to_string(), PaymentMode::Card)
    };
    store.add_order("Trattoria2".to_string(), order);

    let orders = store.show_orders("Trattoria2".to_string());
    assert_eq!(orders.len(), 1);
    assert_eq!(orders[0].price, 700);
    assert_eq!(orders[0].customer.name, "Ada");
}
