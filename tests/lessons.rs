use netservice::arith::{add_one, add_stuff};
use netservice::iterators::{shoes_in_my_size, Counter, Shoe};
use netservice::minigrep::{matches_folded, search, search_case_insensitive, Config};
use netservice::rectangle::Rectangle;
use netservice::restaurant::back_of_house::Breakfast;
use netservice::restaurant::eat_at_restaurant;
use netservice::smart_pointers::{quota_warning, LimitTracker, Messenger, MyBox};
use netservice::summary::{NewsArticle, ShowUser, Summary, Tweet};
use std::cell::RefCell;

#[test]
fn it_works() {
    assert_eq!(2 + 2, 4);
    assert_ne!(3, 4);
}

#[test]
fn larger_can_hold_smaller() {
    let larger = Rectangle { length: 8, width: 7 };
    let smaller = Rectangle { length: 5, width: 1 };
    assert!(larger.can_hold(&smaller));
}

#[test]
fn smaller_cannot_hold_larger() {
    let larger = Rectangle { length: 8, width: 7 };
    let smaller = Rectangle { length: 5, width: 1 };
    assert!(!smaller.can_hold(&larger));
    assert!(!larger.can_hold(&Rectangle { length: 8, width: 1 }));
}

#[test]
fn using_result_generics_in_tests() -> Result<(), String> {
    if 2 + 2 == 4 {
        Ok(())
    } else {
        Err(String::from("something went wrong!"))
    }
}

#[test]
fn test_public_interface() {
    assert_eq!(add_stuff(2, 2), 4);
}

#[test]
fn add_one_adds_one() {
    assert_eq!(add_one(5), 6);
    assert_eq!(add_one(-1), 0);
}

#[test]
fn case_sensitive() {
    let query = "duct";
    let contents = "\
Rust:
safe, fast, productive.
Pick three.
Duct tape";

    assert_eq!(vec!["safe, fast, productive."], search(query, contents));
}

#[test]
fn case_insensitive() {
    let query = "rUsT";
    let contents = "\
Rust:
safe, fast, productive.
Pick three.
Trust me.";

    assert_eq!(vec!["Rust:", "Trust me."], search_case_insensitive(query, contents));
}

#[test]
fn search_lines_with_crlf_and_empty_text() {
    assert_eq!(search("a", "ab\r\nxa\r\n"), vec!["ab", "xa"]);
    assert!(search("a", "").is_empty());
    assert_eq!(search("", "x\n\ny"), vec!["x", "", "y"]);
    assert_eq!(search("baz", "foo\nbaz\r"), vec!["baz\r"]);
    assert_eq!(search("o", "foo\n\n"), vec!["foo"]);
    assert!(matches_folded("rust", "trust me."));
    assert!(!matches_folded("rUst", "trust me."));
}

#[test]
fn config_from_arguments() {
    let args: Vec<String> = vec!["prog".into(), "needle".into(), "poem.txt".into()];
    let c = Config::new(&args, false).unwrap();
    assert_eq!(c.query, "needle");
    assert_eq!(c.filename, "poem.txt");
    assert!(c.case_sensitive);
    assert!(!Config::new(&args, true).unwrap().case_sensitive);
    assert!(matches!(Config::new(&args[..2], false), Err("not enough arguments")));
}

#[test]
fn filters_by_size() {
    let shoes = vec![
        Shoe { size: 10, style: String::from("sneaker") },
        Shoe { size: 13, style: String::from("sandal") },
        Shoe { size: 10, style: String::from("boot") },
    ];

    let in_my_size = shoes_in_my_size(shoes, 10);
    assert_eq!(
        in_my_size,
        vec![
            Shoe { size: 10, style: String::from("sneaker") },
            Shoe { size: 10, style: String::from("boot") },
        ]
    );
}

#[test]
fn counter_counts_to_five() {
    let mut counter = Counter::new();
    for i in 1..=5 {
        assert_eq!(counter.next(), Some(i));
    }
    assert_eq!(counter.next(), None);
    assert_eq!(counter.next(), None);
}

struct MockMessenger {
    sent_messages: RefCell<Vec<String>>,
}

impl MockMessenger {
    fn new() -> MockMessenger {
        MockMessenger { sent_messages: RefCell::new(vec![]) }
    }
}

impl Messenger for MockMessenger {
    fn send(&self, message: &str) {
        self.sent_messages.borrow_mut().push(String::from(message));
    }
}

#[test]
fn testing_over_75_percent() {
    let mock_messenger = MockMessenger::new();
    let mut limit_tracker = LimitTracker::new(&mock_messenger, 100);

    limit_tracker.set_value(80);

    assert_eq!(mock_messenger.sent_messages.borrow().len(), 1);
}

#[test]
fn quota_thresholds() {
    assert_eq!(quota_warning(74, 100), None);
    assert_eq!(quota_warning(75, 100), Some("Warning: quota over 75%"));
    assert_eq!(quota_warning(90, 100), Some("Warning: quota over 90%"));
    assert_eq!(quota_warning(100, 100), Some("Oops: over quota"));
    assert_eq!(quota_warning(0, 0), None);
    assert_eq!(quota_warning(1, 0), Some("Oops: over quota"));
    assert_eq!(quota_warning(usize::MAX, usize::MAX), Some("Oops: over quota"));
}

#[test]
fn summaries() {
    let tweet = Tweet {
        username: String::from("ebooks"),
        content: String::from("blah blah blah"),
        reply: false,
        retweet: false,
    };
    assert_eq!(tweet.summarize(), "ebooks: blah blah blah");
    let article = NewsArticle {
        headline: String::from("headline"),
        location: String::from("location"),
        author: String::from("author"),
    };
    assert_eq!(article.summarize(), "headline, by author (location)");
    assert_eq!(article.summarize_user(), "Fred Bloggs");
}

#[test]
fn breakfast_and_boxes() {
    eat_at_restaurant();
    let _meal = Breakfast::summer("Rye");
    let b = MyBox::new(5);
    assert_eq!(*b.deref(), 5);
}
