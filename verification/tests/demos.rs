use collections::enums::{
    build_network, dice_action, dice_action2, get_cents, plus_one, Coin, DiceAction, IpAddress,
    UsState,
};
use collections::generics::largest_num;
use collections::rectangles::{area_single, area_struct, area_tuple, Rectangle};
use collections::references::{calculate_length, change};
use collections::restaurant::Breakfast;
use collections::slices::{first_word, other_slices};
use collections::strings::{new_string, string_concat, string_from_literal};
use collections::structs::{create_user, get_user1};

#[test]
fn rectangle_areas() {
    assert_eq!(area_single(30, 50), 1500);
    assert_eq!(area_tuple((30, 50)), 1500);
    let rect1 = Rectangle { width: 30, height: 50 };
    assert_eq!(area_struct(&rect1), 1500);
    assert_eq!(rect1.area(), 1500);
}

#[test]
fn rectangle_containment() {
    let rect1 = Rectangle { width: 30, height: 50 };
    let rect2 = Rectangle { width: 10, height: 40 };
    let rect3 = Rectangle { width: 60, height: 45 };
    assert!(rect1.can_hold(&rect2));
    assert!(!rect1.can_hold(&rect3));
}

#[test]
fn coin_values() {
    assert_eq!(get_cents(Coin::Penny), 1);
    assert_eq!(get_cents(Coin::Nickel), 5);
    assert_eq!(get_cents(Coin::Dime), 10);
    assert_eq!(get_cents(Coin::Quarter(UsState::California)), 25);
}

#[test]
fn option_increment() {
    assert_eq!(plus_one(Some(5)), Some(6));
    assert_eq!(plus_one(None), None);
}

#[test]
fn network_address_text() {
    let v4 = build_network(IpAddress::V4(String::from("127.0.0.1")));
    assert_eq!(v4, "127.0.0.1");
    let v6 = build_network(IpAddress::V6(String::from("::1")));
    assert_eq!(v6, "::1");
}

#[test]
fn dice_decisions() {
    assert_eq!(dice_action(3), DiceAction::AddHat);
    assert_eq!(dice_action(6), DiceAction::RemoveHat);
    assert_eq!(dice_action(4), DiceAction::MovePiece(4));
    assert_eq!(dice_action2(3), DiceAction::AddHat);
    assert_eq!(dice_action2(6), DiceAction::RemoveHat);
    assert_eq!(dice_action2(1), DiceAction::Reroll);
}

#[test]
fn largest_number() {
    assert_eq!(largest_num(&vec![34, 50, 25, 100, 65]), 100);
    assert_eq!(largest_num(&vec![102, 34, 6000, 89, 54, 2, 43, 8]), 6000);
    assert_eq!(largest_num(&vec![-5, -2, -9]), -2);
}

#[test]
fn first_word_of_a_sentence() {
    assert_eq!(first_word("Wily wombats weasel walnuts while winking"), "Wily");
    assert_eq!(first_word("single"), "single");
    assert_eq!(first_word(""), "");
}

#[test]
fn array_window() {
    assert_eq!(other_slices(), vec![2, 3]);
}

#[test]
fn string_building() {
    assert_eq!(new_string(), "Hello, world!");
    assert_eq!(string_from_literal(), "Hello from a string literal!");
    assert_eq!(string_concat(), "Hello world! wombat");
}

#[test]
fn reference_length_and_mutation() {
    let s = String::from("hello");
    assert_eq!(calculate_length(&s), 5);
    let mut s2 = String::from("hello");
    change(&mut s2);
    assert_eq!(s2, "hello, world");
}

#[test]
fn user_creation() {
    let user = create_user(String::from("a@b.c"), String::from("ab"));
    assert!(user.active);
    assert_eq!(user.username, "ab");
    assert_eq!(user.email, "a@b.c");
    let user1 = get_user1();
    assert!(user1.active);
    assert_eq!(user1.username, "judithwombat");
    assert_eq!(user1.email, "judith.wombat@bufo.io");
}

#[test]
fn seasonal_breakfasts() {
    let mut meal = Breakfast::summer("Rye");
    assert_eq!(meal.toast, "Rye");
    assert_eq!(meal.fruit_name().as_str(), "peaches");
    meal.toast = String::from("Wheat");
    assert_eq!(meal.toast, "Wheat");
    assert_eq!(Breakfast::winter("White").fruit_name().as_str(), "oranges");
    assert_eq!(Breakfast::autumn("Sourdough").fruit_name().as_str(), "persimmons");
}
