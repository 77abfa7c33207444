use restaurateur::model::FoodCategory;
use restaurateur::model::FoodType;
use restaurateur::parse::eq_ignore_ascii_case;
use restaurateur::parse::is_done;
use restaurateur::parse::parse_age;
use restaurateur::parse::parse_food_category;
use restaurateur::parse::parse_food_type;
use restaurateur::parse::parse_price;
use restaurateur::parse::parse_veg_flag;

#[test]
fn malformed_price_defaults_to_zero_with_warning() {
    assert_eq!(parse_price("abc"), (0, true));
}

#[test]
fn well_formed_prices_in_hundredths() {
    assert_eq!(parse_price("9.5"), (950, false));
    assert_eq!(parse_price("7.0"), (700, false));
    assert_eq!(parse_price("16.5"), (1650, false));
    assert_eq!(parse_price("1.25"), (125, false));
    assert_eq!(parse_price("12"), (1200, false));
    assert_eq!(parse_price("0"), (0, false));
    assert_eq!(parse_price("0.00"), (0, false));
}

#[test]
fn malformed_prices_warn() {
    assert_eq!(parse_price(""), (0, true));
    assert_eq!(parse_price("."), (0, true));
    assert_eq!(parse_price(".5"), (0, true));
    assert_eq!(parse_price("5."), (0, true));
    assert_eq!(parse_price("1.234"), (0, true));
    assert_eq!(parse_price("1.2.3"), (0, true));
    assert_eq!(parse_price("-1"), (0, true));
    assert_eq!(parse_price("1e3"), (0, true));
    assert_eq!(parse_price(" 9.5"), (0, true));
}

#[test]
fn oversized_prices_warn() {
    // One hundredth more than a u64 can count.
    assert_eq!(parse_price("184467440737095516.16"), (0, true));
    assert_eq!(parse_price("99999999999999999999"), (0, true));
    // The largest representable price parses exactly.
    assert_eq!(parse_price("184467440737095516.15"), (u64::MAX, false));
}

#[test]
fn ages_parse_or_default() {
    assert_eq!(parse_age("42"), (42, false));
    assert_eq!(parse_age("0"), (0, false));
    assert_eq!(parse_age("255"), (255, false));
    assert_eq!(parse_age("256"), (0, true));
    assert_eq!(parse_age("abc"), (0, true));
    assert_eq!(parse_age(""), (0, true));
    assert_eq!(parse_age("4 2"), (0, true));
}

#[test]
fn food_types_parse_or_default() {
    assert_eq!(parse_food_type("veg"), (FoodType::Veg, false));
    assert_eq!(parse_food_type("VEG"), (FoodType::Veg, false));
    assert_eq!(parse_food_type("nonveg"), (FoodType::NonVeg, false));
    assert_eq!(parse_food_type("NonVeg"), (FoodType::NonVeg, false));
    assert_eq!(parse_food_type("meaty"), (FoodType::Veg, true));
}

#[test]
fn food_categories_parse_or_default() {
    assert_eq!(parse_food_category("appetizer"), (FoodCategory::Appetizer, false));
    assert_eq!(parse_food_category("MainCourse"), (FoodCategory::MainCourse, false));
    assert_eq!(parse_food_category("dessert"), (FoodCategory::Dessert, false));
    assert_eq!(parse_food_category("soup"), (FoodCategory::Appetizer, true));
}

#[test]
fn veg_flags_parse_or_default() {
    assert_eq!(parse_veg_flag("y"), (true, false));
    assert_eq!(parse_veg_flag("Y"), (true, false));
    assert_eq!(parse_veg_flag("n"), (false, false));
    assert_eq!(parse_veg_flag("N"), (false, false));
    assert_eq!(parse_veg_flag("maybe"), (true, true));
}

#[test]
fn done_sentinel_ignores_case() {
    assert!(is_done("done"));
    assert!(is_done("DONE"));
    assert!(is_done("Done"));
    assert!(!is_done("don"));
    assert!(!is_done("done "));
}

#[test]
fn keyword_comparison_is_exactly_ascii_case_insensitive() {
    assert!(eq_ignore_ascii_case("PiZzA", "pizza"));
    assert!(!eq_ignore_ascii_case("pizz", "pizza"));
    assert!(!eq_ignore_ascii_case("pizzas", "pizza"));
}
