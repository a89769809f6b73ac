use exercises::arith::add_one;
use exercises::shoes::{shoes_size, Shoe};
use exercises::smart_box::MyBox;
use exercises::summary::{Post, Summary};
use exercises::temperature::convert_to_fahrenheit;
use exercises::text::{longest, understand_lifetimes};

#[test]
fn test_add() {
    assert_eq!(exercises::arith::add(2, 3), 5);
}

#[test]
fn add_reaches_both_ends_of_the_range() {
    assert_eq!(exercises::arith::add(i64::MAX, 0), i64::MAX);
    assert_eq!(exercises::arith::add(i64::MIN, 0), i64::MIN);
    assert_eq!(exercises::arith::add(i64::MAX, i64::MIN), -1);
    assert_eq!(exercises::arith::add(-7, 7), 0);
}

#[test]
fn add_one_of_five_is_six() {
    assert_eq!(6, add_one(5));
}

#[test]
fn add_one_near_the_ends_of_the_range() {
    assert_eq!(add_one(i32::MAX - 1), i32::MAX);
    assert_eq!(add_one(i32::MIN), i32::MIN + 1);
    assert_eq!(add_one(-1), 0);
}

#[test]
fn filter_by_size() {
    let shoes = vec![
        Shoe {
            size: 10,
            style: String::from("sneaker"),
        },
        Shoe {
            size: 13,
            style: String::from("sandal"),
        },
        Shoe {
            size: 10,
            style: String::from("boot"),
        },
    ];

    let new_shoes_vector = shoes_size(shoes, 10);

    assert_eq!(
        new_shoes_vector,
        vec![
            Shoe {
                size: 10,
                style: String::from("sneaker")
            },
            Shoe {
                size: 10,
                style: String::from("boot")
            },
        ]
    )
}

#[test]
fn filter_by_size_without_a_match_is_empty() {
    let shoes = vec![Shoe {
        size: 9,
        style: String::from("clog"),
    }];
    assert_eq!(shoes_size(shoes, 10), Vec::<Shoe>::new());
    assert_eq!(shoes_size(Vec::new(), 10), Vec::<Shoe>::new());
}

#[test]
fn test() {
    let x: i32 = 5;
    let y = MyBox(x);

    assert_eq!(5, *y)
}

#[test]
fn my_box_derefs_to_methods_of_what_it_holds() {
    let boxed = MyBox(String::from("held"));
    assert_eq!(boxed.len(), 4);
    assert_eq!(&*boxed, "held");
}

#[test]
fn post_is_summed_up_by_its_author() {
    let post = Post {
        author: String::from("yayy"),
        content: String::from("yayyyy"),
    };
    assert_eq!(post.summarize(), "yayy");
    assert_eq!(post.content, "yayyyy");
}

#[test]
fn fahrenheit_of_known_points() {
    assert_eq!(convert_to_fahrenheit(0), 32);
    assert_eq!(convert_to_fahrenheit(100), 212);
    assert_eq!(convert_to_fahrenheit(-40), -40);
    assert_eq!(convert_to_fahrenheit(37), 98);
}

#[test]
fn fahrenheit_rounds_toward_zero() {
    // 9/5 = 1.8 rounds to 1, and -9/5 = -1.8 rounds to -1.
    assert_eq!(convert_to_fahrenheit(1), 33);
    assert_eq!(convert_to_fahrenheit(-1), 31);
    assert_eq!(convert_to_fahrenheit(-3), 27);
    assert_eq!(convert_to_fahrenheit(3), 37);
}

#[test]
fn fahrenheit_at_the_ends_of_its_range() {
    let top: i32 = i32::MAX / 9;
    let bottom: i32 = i32::MIN / 9;
    assert_eq!(convert_to_fahrenheit(top), 429496761);
    assert_eq!(convert_to_fahrenheit(bottom), -429496697);
}

#[test]
fn greater_string_is_returned() {
    assert_eq!(understand_lifetimes("stringone", "String twoww"), "stringone");
    assert_eq!(understand_lifetimes("String twoww", "stringone"), "stringone");
    assert_eq!(understand_lifetimes("abc", "abd"), "abd");
    assert_eq!(understand_lifetimes("abd", "abc"), "abd");
}

#[test]
fn a_string_comes_after_its_own_beginning() {
    assert_eq!(understand_lifetimes("ab", "abc"), "abc");
    assert_eq!(understand_lifetimes("abc", "ab"), "abc");
    assert_eq!(understand_lifetimes("", "a"), "a");
    assert_eq!(understand_lifetimes("a", ""), "a");
    assert_eq!(understand_lifetimes("", ""), "");
}

#[test]
fn equal_strings_give_the_second() {
    let x = String::from("same");
    let y = String::from("same");
    let r = understand_lifetimes(&x, &y);
    assert!(std::ptr::eq(r, y.as_str()));
}

#[test]
fn greater_string_agrees_with_the_built_in_order() {
    let words = ["", "a", "A", "ab", "b", "é", "z", "日本", "zz", "\u{10ffff}", "~"];
    for x in words {
        for y in words {
            let expected = if x > y { x } else { y };
            assert_eq!(understand_lifetimes(x, y), expected);
        }
    }
}

#[test]
fn longest_goes_by_bytes() {
    assert_eq!(longest("stringone", "String twoww"), "String twoww");
    assert_eq!(longest("String twoww", "stringone"), "String twoww");
    assert_eq!(longest("abcd", "xyz"), "abcd");
    // Two letters in three bytes against three letters in three bytes.
    assert_eq!(longest("aé", "xyz"), "xyz");
    assert_eq!(longest("éé", "xyz"), "éé");
}

#[test]
fn longest_of_equally_long_is_the_second() {
    assert_eq!(longest("abc", "xyz"), "xyz");
    assert_eq!(longest("", ""), "");
}
