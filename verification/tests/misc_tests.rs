use workpool::blog::{Post, PostII, PostState};
use workpool::boxes::MyBox;
use workpool::coins::{value_in_cents, Coin};
use workpool::funcs::{add_one, do_twice};
use workpool::decoder::audio_decoder_example;
use workpool::gtl::{largest, largest_char, largest_i32, largest_non_generic, longest};
use workpool::gui::{Button, Draw, Screen, SelectBox};
use workpool::numbers::{plus_one, return_values};
use workpool::ownership::{
    calc_length, calc_length2, change, gives_ownership, no_dangle, takes_and_gives_back,
};
use workpool::restaurant::Breakfast;
use workpool::shapes::{area, build_user, Rectangle, Square};
use workpool::shirts::{Inventory, ShirtColor};

#[test]
fn blog_post_shows_content_only_after_approval() {
    let mut post = Post::new();
    post.add_text("I ate a salad for lunch today");
    assert_eq!("", post.content());
    post.request_review();
    assert_eq!("", post.content());
    post.approve();
    assert_eq!("I ate a salad for lunch today", post.content());
}

#[test]
fn typestate_blog_post_walks_the_workflow() {
    let mut post = PostII::new();
    post.add_text("I ate a salad for lunch today");
    let post = post.request_review();
    let post = post.approve();
    assert_eq!("I ate a salad for lunch today", post.content());
}

#[test]
fn blog_state_enum_is_plain_data() {
    assert_ne!(PostState::Draft, PostState::Published);
}

#[test]
fn coin_values() {
    assert_eq!(value_in_cents(Coin::Penny), 1);
    assert_eq!(value_in_cents(Coin::Nickel), 5);
    assert_eq!(value_in_cents(Coin::Dime), 10);
    assert_eq!(value_in_cents(Coin::Quarter), 25);
}

#[test]
fn doubling_a_function_application() {
    assert_eq!(do_twice(add_one, 5), 12);
}

#[test]
fn largest_of_each_kind() {
    assert_eq!(largest_non_generic(&vec![34, 50, 25, 100, 65]), 100);
    assert_eq!(largest_i32(&vec![102, 34, 6000, 89, 54, 2, 43, 8]), 6000);
    assert_eq!(largest_char(&vec!['y', 'm', 'a', 'q']), 'y');
    assert_eq!(largest(&vec![34, 50, 25, 100, 65]), 100);
    assert_eq!(largest(&vec!['y', 'm', 'a', 'q']), 'y');
}

#[test]
fn screen_renders_each_component() {
    let screen = Screen {
        components: vec![
            Box::new(SelectBox {
                width: 75,
                height: 10,
                options: vec![
                    String::from("Yes"),
                    String::from("Maybe"),
                    String::from("No"),
                ],
            }) as Box<dyn Draw>,
            Box::new(Button {
                width: 50,
                height: 10,
                label: String::from("OK"),
            }),
        ],
    };
    let lines = screen.run();
    assert_eq!(
        lines,
        vec![
            String::from("draw me a select-[___]-box!!"),
            String::from("draw a button |-OK-| !!"),
        ]
    );
}

#[test]
fn small_number_helpers() {
    assert_eq!(plus_one(5), 6);
    assert_eq!(return_values(), 5);
    assert_eq!(workpool::numbers::add_one(5), 6);
}

#[test]
fn strings_move_as_the_contracts_say() {
    assert_eq!(gives_ownership(), "yours");
    assert_eq!(takes_and_gives_back(String::from("hello")), "hello");
    let (s, n) = calc_length(String::from("hello"));
    assert_eq!((s.as_str(), n), ("hello", 5));
    assert_eq!(calc_length2(&String::from("hello")), 5);
    let mut s = String::from("hello");
    change(&mut s);
    assert_eq!(s, "hello, world");
    assert_eq!(no_dangle(), "hello");
}

#[test]
fn summer_breakfast_takes_the_toast_order() {
    let mut meal = Breakfast::summer("Rye");
    assert_eq!(meal.toast, "Rye");
    meal.toast = String::from("Wheat");
    assert_eq!(meal.toast, "Wheat");
}

#[test]
fn shapes_measure_and_compare() {
    let rect = Rectangle {
        width: 30,
        height: 50,
    };
    assert_eq!(area(&rect), 1500);
    let sqr = Square { side: 30 };
    assert_eq!(sqr.area(), 900);
    assert!(sqr.side());
    assert!(sqr.can_hold(&Square { side: 10 }));
    let user = build_user(String::from("avc@bc.com"), String::from("xne"));
    assert!(user.active);
    assert_eq!(user.sign_in_count, 1);
}

#[test]
fn giveaway_honours_preference_or_stock() {
    let store = Inventory {
        shirts: vec![ShirtColor::Blue, ShirtColor::Red, ShirtColor::Blue],
    };
    assert_eq!(store.giveaway(Some(ShirtColor::Red)), ShirtColor::Red);
    assert_eq!(store.giveaway(None), ShirtColor::Blue);
    let reds = Inventory {
        shirts: vec![ShirtColor::Red, ShirtColor::Red, ShirtColor::Blue],
    };
    assert_eq!(reds.most_stocked(), ShirtColor::Red);
}

#[test]
fn longest_prefers_length_then_first() {
    assert_eq!(longest("hello", "hi"), "hello");
    assert_eq!(longest("ab", "cd"), "ab");
    assert_eq!(longest("a", "bcd"), "bcd");
}

#[test]
fn decoder_window_covers_the_whole_buffer() {
    assert_eq!(
        audio_decoder_example(),
        vec![11, 23, 3, 41, 5, 65, 7, 86, 97, 10, 81, 12]
    );
}

#[test]
fn my_box_wraps_a_value() {
    let x = 5;
    let y = MyBox::new(x);
    assert_eq!(5, x);
    assert_eq!(5, *y.inner());
}
