use restaurateur::model::Business;
use restaurateur::model::Customer;
use restaurateur::model::Order;
use restaurateur::model::PaymentMode;
use restaurateur::store::Restaurant;
use restaurateur::store::Restaurateur;

fn customer(name: &str) -> Customer {
    Customer {
        name: name.to_string(),
        age: 30,
        address: "12 Main St".to_string(),
        phone: "555-0100".to_string(),
    }
}

fn order_on(date: &str, price: u64) -> Order {
    Order {
        foods: Vec::new(),
        customer: customer("Ada"),
        date: date.to_string(),
        payment_mode: PaymentMode::Card,
        price,
    }
}

#[test]
fn add_then_get_round_trip() {
    let mut store = Restaurateur::new();
    let b = Business::new(
        "Trattoria".to_string(),
        "5 Hill Rd".to_string(),
        "555-0101".to_string(),
    );
    let expected = b.clone();
    store.add_business(b);
    let fetched = store.get_business("Trattoria".to_string()).expect("business present");
    assert_eq!(*fetched, expected);
}

#[test]
fn last_write_wins() {
    let mut store = Restaurateur::new();
    let mut first = Business::new(
        "Corner".to_string(),
        "1 Old Way".to_string(),
        "555-0102".to_string(),
    );
    first.orders.push(order_on("2023-01-01", 100));
    let second = Business::new(
        "Corner".to_string(),
        "2 New Way".to_string(),
        "555-0103".to_string(),
    );
    store.add_business(first);
    store.add_business(second.clone());
    let fetched = store.get_business("Corner".to_string()).expect("business present");
    assert_eq!(fetched.name, "Corner");
    assert_eq!(fetched.address, "2 New Way");
    assert!(fetched.menu.is_none());
    assert!(fetched.orders.is_empty());
    assert_eq!(*fetched, second);
}

#[test]
fn mutations_on_missing_business_are_no_ops() {
    let mut store = Restaurateur::new();
    let bystander = Business::new(
        "Kept".to_string(),
        "9 Side St".to_string(),
        "555-0104".to_string(),
    );
    let expected = bystander.clone();
    store.add_business(bystander);

    let menu = restaurateur::model::Menu {
        name: "Lunch".to_string(),
        price: 0,
        is_veg: true,
        cuisines: Vec::new(),
    };
    store.add_menu("Missing".to_string(), menu);
    store.add_order("Missing".to_string(), order_on("2023-01-01", 100));
    store.remove_order("Missing".to_string(), "2023-01-01".to_string());

    assert!(store.get_business("Missing".to_string()).is_none());
    let kept = store.get_business("Kept".to_string()).expect("bystander present");
    assert_eq!(*kept, expected);
}

#[test]
fn remove_order_removes_all_with_date() {
    let mut store = Restaurateur::new();
    let b = Business::new(
        "Diner".to_string(),
        "3 Low Ln".to_string(),
        "555-0105".to_string(),
    );
    store.add_business(b);
    store.add_order("Diner".to_string(), order_on("2021-10-01", 100));
    store.add_order("Diner".to_string(), order_on("2021-10-02", 200));
    store.add_order("Diner".to_string(), order_on("2021-10-01", 300));

    store.remove_order("Diner".to_string(), "2021-10-01".to_string());

    let orders = store.show_orders("Diner".to_string());
    assert_eq!(orders.len(), 1);
    assert!(orders.iter().all(|o| o.date != "2021-10-01"));
    assert_eq!(orders[0].date, "2021-10-02");
    assert_eq!(orders[0].price, 200);
}

#[test]
fn remove_business_then_lookup_fails() {
    let mut store = Restaurateur::new();
    let b = Business::new(
        "Gone".to_string(),
        "7 End Rd".to_string(),
        "555-0106".to_string(),
    );
    store.add_business(b);
    store.remove_business("Gone".to_string());
    assert!(store.get_business("Gone".to_string()).is_none());
    // Removing an absent business is a quiet no-op.
    store.remove_business("Gone".to_string());
}

#[test]
fn show_orders_of_missing_business_is_empty() {
    let store = Restaurateur::new();
    assert!(store.show_orders("Nobody".to_string()).is_empty());
}

#[test]
fn add_menu_replaces_previous_menu() {
    let mut store = Restaurateur::new();
    let b = Business::new(
        "Bistro".to_string(),
        "4 High St".to_string(),
        "555-0107".to_string(),
    );
    store.add_business(b);
    let lunch = restaurateur::model::Menu {
        name: "Lunch".to_string(),
        price: 999,
        is_veg: false,
        cuisines: Vec::new(),
    };
    let dinner = restaurateur::model::Menu {
        name: "Dinner".to_string(),
        price: 1999,
        is_veg: true,
        cuisines: Vec::new(),
    };
    store.add_menu("Bistro".to_string(), lunch);
    store.add_menu("Bistro".to_string(), dinner);
    let fetched = store.get_business("Bistro".to_string()).expect("business present");
    let menu = fetched.menu.as_ref().expect("menu attached");
    assert_eq!(menu.name, "Dinner");
    assert_eq!(menu.price, 1999);
    assert!(menu.is_veg);
}

#[test]
fn names_are_case_and_whitespace_sensitive() {
    let mut store = Restaurateur::new();
    let b = Business::new(
        "Cafe".to_string(),
        "8 Flat Rd".to_string(),
        "555-0108".to_string(),
    );
    store.add_business(b);
    assert!(store.get_business("cafe".to_string()).is_none());
    assert!(store.get_business("Cafe ".to_string()).is_none());
    assert!(store.get_business("Cafe".to_string()).is_some());
}
