use rust_project::encoding::base64;
use rust_project::enums::{value_in_cents, Coin, UsState};
use rust_project::generics::{combine, duplicate, largest, max, sum_values, Counter, Pair, Point,
    Point2};
use rust_project::lifetimes::{exec_with_callback, longest, Book, ImportantExcerpt};
use rust_project::lifetimes::first_word as lifetimes_first_word;
use rust_project::ownership::{
    calculate_length, change, first_word, first_word2, get_first, gives_ownership,
    return_string_v1, return_string_v2, return_string_v3, takes_and_gives_back,
};
use rust_project::prompt_generation::{result_map_gen, result_map_gen_v2};
use rust_project::config::{ApplicationConfig, Config, SearchConfig};
use rust_project::restaurant::{Appetizer, Breakfast};
use rust_project::structs::MyType;
use rust_project::summary::{DefaultSummary, Dog, Identify, New, NewsArticle, Person, Summary,
    Tweet};
use rust_project::shapes;
use rust_project::structs::{build_user, Rectangle};

#[test]
fn ownership_round_trips() {
    assert_eq!(gives_ownership(), "hello");
    assert_eq!(takes_and_gives_back(String::from("hi")), "hi");
    assert_eq!(calculate_length(&String::from("hello")), 5);
    let mut s = String::from("hello");
    change(&mut s);
    assert_eq!(s, "hello, world!");
    assert_eq!(return_string_v1(), "hello");
    assert_eq!(return_string_v2(), "hello");
    assert_eq!(*return_string_v3(), "hello");
    let v = vec![String::from("a"), String::from("b")];
    assert_eq!(get_first(&v), "a");
}

#[test]
fn first_word_finds_the_first_space() {
    assert_eq!(first_word(&String::from("hello world")), 5);
    assert_eq!(first_word(&String::from("hello")), 5);
    assert_eq!(first_word(&String::from(" lead")), 0);
    assert_eq!(first_word2("hello world"), "hello");
    assert_eq!(first_word2("single"), "single");
    assert_eq!(lifetimes_first_word("ab cd"), "ab");
}

#[test]
fn rectangles_measure_and_compare() {
    let rect = Rectangle { width: 30, height: 50 };
    assert_eq!(rect.area(), 1500);
    let rect2 = Rectangle { width: 10, height: 20 };
    assert!(rect.can_hold(&rect2));
    let rect3 = Rectangle { width: 100, height: 50 };
    assert!(!rect.can_hold(&rect3));
    let sq = Rectangle::square(25);
    assert_eq!(sq.area(), 625);
    let small = rect.into_square();
    assert_eq!(small, Rectangle { width: 30, height: 30 });
    let mut resized = rect;
    resized.set_width(7);
    assert_eq!(resized, Rectangle { width: 7, height: 50 });

    let r = shapes::Rectangle { height: 30, width: 50 };
    assert_eq!(shapes::area(&r), 1500);
    assert_eq!(r.area(), 1500);
}

#[test]
fn users_and_breakfast_are_built_as_asked() {
    let user = build_user(String::from("eve"), String::from("eve@example.com"));
    assert_eq!(user.username, "eve");
    assert_eq!(user.email, "eve@example.com");
    assert!(user.active);
    assert_eq!(user.sign_in_count, 1);

    let meal = Breakfast::summer("Rye");
    assert_eq!(meal.toast, "Rye");
}

#[test]
fn coins_know_their_value() {
    assert_eq!(Coin::Penny.value(), 1);
    assert_eq!(Coin::Nickel.value(), 5);
    assert_eq!(Coin::Dime.value(), 10);
    assert_eq!(Coin::Quarter(UsState::California).value(), 25);
    assert_eq!(value_in_cents(Coin::Dime), 10);
}

#[test]
fn generic_helpers_compute() {
    assert_eq!(max(5, 10), 10);
    assert_eq!(max(10, 5), 10);
    assert_eq!(sum_values(&[1, 2, 3, 4, 5]), 15);
    assert_eq!(sum_values(&[]), 0);
    assert_eq!(largest(&[1, 9, 2, 9, 3]), 9);
    assert_eq!(combine(10, 20), 30);
    assert_eq!(duplicate(&String::from("copy")), "copy");
    let p = Point { x: 5, y: 10 };
    assert_eq!(*p.x(), 5);
    assert_eq!(*p.y(), 10);
    let q = Point2 { x: -7i64, y: true };
    assert_eq!(q.x_to_string(), "-7");
    let pair = Pair::new(1, 2);
    assert_eq!((pair.first, pair.second), (1, 2));
}

#[test]
fn counter_hands_values_back_in_reverse() {
    let mut counter = Counter::new();
    let mut seen = Vec::new();
    while let Some(v) = counter.next() {
        seen.push(v);
    }
    assert_eq!(seen, vec![5, 4, 3, 2, 1]);
    assert_eq!(counter.next(), None);
}

#[test]
fn lifetimes_pick_and_borrow() {
    assert_eq!(longest("long string", "xyz"), "long string");
    assert_eq!(longest("ab", "xyz"), "xyz");
    // Byte length decides, as with str::len: "é" is two bytes.
    assert_eq!(longest("é", "ab"), "ab");
    assert_eq!(longest("é", "a"), "é");
    let excerpt = ImportantExcerpt { part: "Call me Ishmael" };
    assert_eq!(excerpt.announce_and_return_part("reader"), "Call me Ishmael");
    let book = Book {
        author: "Melville",
        title: String::from("Moby-Dick"),
        year: 1851,
    };
    assert_eq!(book.get_reference(), "Melville");
    assert_eq!(book.get_title(), "Moby-Dick");
    let mut ran = false;
    exec_with_callback(|| ran = true);
    assert!(ran);
}

#[test]
fn prompts_are_worded_exactly() {
    assert_eq!(
        result_map_gen("a.b.C", "M.xml"),
        "为a.b.C生成resultmap放在M.xml"
    );
    assert_eq!(
        result_map_gen_v2("a.b.C", "M.xml", Some(String::from("getList"))),
        "为a.b.C生成resultmap放在M.xml\ngetList返回修改resultMap"
    );
}

#[test]
fn basic_auth_tokens_encode() {
    assert_eq!(base64("user", "pass"), "dXNlcjpwYXNz");
    assert_eq!(base64("", ""), "Og==");
    assert_eq!(base64("alice", "secret"), "YWxpY2U6c2VjcmV0");
}

#[test]
fn summaries_say_exactly_what_they_promise() {
    let dog = Dog { name: String::from("Buddy"), age: 3 };
    assert_eq!(dog.summarize(), "Buddy 是 3 岁的狗");
    assert_eq!(dog.who_am_i(), "我是 Buddy, 品种是狗");

    let article = NewsArticle {
        headline: String::from("Release"),
        location: String::from("everywhere"),
        author: String::from("the team"),
        content: String::from("..."),
    };
    assert_eq!(article.summarize(), "Release, by the team (everywhere)");

    let tweet = Tweet {
        username: String::from("user123"),
        content: String::from("Hello!"),
        reply: false,
        retweet: false,
    };
    assert_eq!(Summary::summarize(&tweet), "@user123: Hello!");
    assert_eq!(DefaultSummary::summarize(&tweet), "(阅读更多...)");
    assert_eq!(tweet.default_summary(), "(阅读更多...)");

    let person = Person { name: String::from("Alice"), age: 30 };
    assert_eq!(person.who_am_i(), "我是 Alice, 30岁");

    let rect = rust_project::summary::Rectangle::new(10, 20);
    assert_eq!(rect, rust_project::summary::Rectangle { width: 10, height: 20 });
}

#[test]
fn plain_data_types_hold_their_values() {
    let my_type = MyType { value: 42 };
    assert_eq!(my_type.value, 42);
    let order = Appetizer::Soup;
    assert_ne!(order, Appetizer::Salad);
    let config = Config {
        app: ApplicationConfig { port: 8080, page_size: 20 },
        search: SearchConfig { address: String::from("http://localhost") },
    };
    assert_eq!(config.app.port, 8080);
    assert_eq!(config.search.address, "http://localhost");
}
