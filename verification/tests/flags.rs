use argman::{MagicArgman, MagicErr};

fn argv(list: &[&str]) -> Vec<String> {
    list.iter().map(|s| s.to_string()).collect()
}

fn is_flag_err(e: &MagicErr, flag: &str) -> bool {
    matches!(e, MagicErr::FlagErr(name) if name == flag)
}

fn is_parse_err(e: &MagicErr, flag: &str) -> bool {
    matches!(e, MagicErr::ParseErr(name) if name == flag)
}

fn is_value_err(e: &MagicErr, flag: &str) -> bool {
    matches!(e, MagicErr::ValueErr(name) if name == flag)
}

#[test]
fn value_flag_is_stored_and_read_back() {
    let mut m = MagicArgman::new(argv(&["prog", "--count", "5"]));
    m.flag::<i32>("count");
    assert_eq!(m.get::<i32>("count"), Some(&5));
    assert!(!m.error());
    assert!(m.get_errors().is_empty());
}

#[test]
fn flag_without_value_records_value_error() {
    let mut m = MagicArgman::new(argv(&["prog", "--count"]));
    m.flag::<i32>("count");
    assert_eq!(m.get::<i32>("count"), None);
    assert_eq!(m.get_errors().len(), 1);
    assert!(is_value_err(&m.get_errors()[0], "count"));
    assert!(m.error());
}

#[test]
fn flag_with_unreadable_value_records_parse_error() {
    let mut m = MagicArgman::new(argv(&["prog", "--count", "abc"]));
    m.flag::<i32>("count");
    assert_eq!(m.get::<i32>("count"), None);
    assert_eq!(m.get_errors().len(), 1);
    assert!(is_parse_err(&m.get_errors()[0], "count"));
    assert!(m.error());
}

#[test]
fn missing_required_flag_records_flag_error() {
    let mut m = MagicArgman::new(argv(&["prog"]));
    m.flag_req::<i32>("count");
    assert_eq!(m.get::<i32>("count"), None);
    assert_eq!(m.get_errors().len(), 1);
    assert!(is_flag_err(&m.get_errors()[0], "count"));
    assert!(m.error());
}

#[test]
fn missing_optional_flag_is_silent() {
    let mut m = MagicArgman::new(argv(&["prog", "--other", "1"]));
    m.flag::<i32>("count");
    assert_eq!(m.get::<i32>("count"), None);
    assert!(!m.error());
    assert!(m.get_errors().is_empty());
}

#[test]
fn required_flag_that_is_present_records_nothing() {
    let mut m = MagicArgman::new(argv(&["prog", "--count", "-17"]));
    m.flag_req::<i64>("count");
    assert_eq!(m.get::<i64>("count"), Some(&-17));
    assert!(!m.error());
}

#[test]
fn required_flag_without_value_records_both_problems() {
    let mut m = MagicArgman::new(argv(&["prog", "--count"]));
    m.flag_req::<i32>("count");
    assert_eq!(m.get_errors().len(), 2);
    assert!(is_value_err(&m.get_errors()[0], "count"));
    assert!(is_flag_err(&m.get_errors()[1], "count"));
}

#[test]
fn required_flag_with_unreadable_value_records_both_problems() {
    let mut m = MagicArgman::new(argv(&["prog", "--count", "five"]));
    m.flag_req::<u8>("count");
    assert_eq!(m.get::<u8>("count"), None);
    assert_eq!(m.get_errors().len(), 2);
    assert!(is_parse_err(&m.get_errors()[0], "count"));
    assert!(is_flag_err(&m.get_errors()[1], "count"));
}

#[test]
fn required_flag_already_stored_records_no_flag_error() {
    let mut m = MagicArgman::new(argv(&["prog", "-count"]));
    m.flag_solo("count").flag_req::<i32>("count");
    assert_eq!(m.get::<bool>("count"), Some(&true));
    assert!(!m.error());
}

#[test]
fn one_letter_name_takes_one_hyphen() {
    let mut m = MagicArgman::new(argv(&["prog", "--v", "1", "-v", "2"]));
    m.flag::<u8>("v");
    assert_eq!(m.get::<u8>("v"), Some(&2));
}

#[test]
fn longer_name_takes_two_hyphens() {
    let mut m = MagicArgman::new(argv(&["prog", "-verbose", "1", "--verbose", "2"]));
    m.flag::<u8>("verbose");
    assert_eq!(m.get::<u8>("verbose"), Some(&2));
}

#[test]
fn two_character_name_takes_two_hyphens() {
    let mut m = MagicArgman::new(argv(&["prog", "-ab", "1", "--ab", "2"]));
    m.flag::<u8>("ab");
    assert_eq!(m.get::<u8>("ab"), Some(&2));
}

#[test]
fn one_character_name_of_two_bytes_takes_one_hyphen() {
    let mut m = MagicArgman::new(argv(&["prog", "--\u{e9}", "1", "-\u{e9}", "3"]));
    m.flag::<i32>("\u{e9}");
    assert_eq!(m.get::<i32>("\u{e9}"), Some(&3));
    assert_eq!(m.get_errors().len(), 0);
}

#[test]
fn two_character_name_beyond_ascii_takes_two_hyphens() {
    let mut m = MagicArgman::new(argv(&["prog", "-\u{65e5}\u{672c}", "1", "--\u{65e5}\u{672c}", "2"]));
    m.flag::<u8>("\u{65e5}\u{672c}");
    assert_eq!(m.get::<u8>("\u{65e5}\u{672c}"), Some(&2));
}

#[test]
fn empty_name_is_a_lone_hyphen() {
    let mut m = MagicArgman::new(argv(&["prog", "--", "1", "-", "2"]));
    m.flag::<u8>("");
    assert_eq!(m.get::<u8>(""), Some(&2));
}

#[test]
fn names_are_case_sensitive() {
    let mut m = MagicArgman::new(argv(&["prog", "--Count", "5"]));
    m.flag::<i32>("count");
    assert_eq!(m.get::<i32>("count"), None);
    assert!(!m.error());
}

#[test]
fn solo_flag_present_reads_true() {
    let mut m = MagicArgman::new(argv(&["prog", "a", "b", "-x"]));
    m.flag_solo("x");
    assert_eq!(m.get::<bool>("x"), Some(&true));
    assert!(!m.error());
}

#[test]
fn solo_flag_absent_reads_nothing() {
    let mut m = MagicArgman::new(argv(&["prog", "a", "b", "--x", "x"]));
    m.flag_solo("x");
    assert_eq!(m.get::<bool>("x"), None);
    assert!(!m.error());
}

#[test]
fn solo_flag_takes_one_hyphen_whatever_its_length() {
    let mut m = MagicArgman::new(argv(&["prog", "--verbose"]));
    m.flag_solo("verbose");
    assert_eq!(m.get::<bool>("verbose"), None);

    let mut m = MagicArgman::new(argv(&["prog", "-verbose"]));
    m.flag_solo("verbose");
    assert_eq!(m.get::<bool>("verbose"), Some(&true));
}

#[test]
fn solo_flag_absent_leaves_an_earlier_value() {
    let mut m = MagicArgman::new(argv(&["prog", "--xy", "true"]));
    m.flag::<bool>("xy").flag_solo("xy");
    assert_eq!(m.get::<bool>("xy"), Some(&true));
}

#[test]
fn input_on_no_arguments_records_input_error() {
    let mut m = MagicArgman::new(argv(&["prog"]));
    m.input();
    assert_eq!(m.get_input(), None);
    assert_eq!(m.get_errors().len(), 1);
    assert!(matches!(&m.get_errors()[0], MagicErr::InputErr));
    assert!(m.error());
}

#[test]
fn input_is_the_first_argument() {
    let mut m = MagicArgman::new(argv(&["prog", "file.txt", "--count", "5"]));
    m.input().flag::<i32>("count");
    assert_eq!(m.get_input(), Some(&"file.txt".to_string()));
    assert_eq!(m.get::<i32>("count"), Some(&5));
    assert!(!m.error());
}

#[test]
fn input_not_registered_reads_nothing() {
    let m = MagicArgman::new(argv(&["prog", "file.txt"]));
    assert_eq!(m.get_input(), None);
    assert!(!m.error());
}

#[test]
fn input_does_not_consume_its_argument() {
    let mut m = MagicArgman::new(argv(&["prog", "--count", "5"]));
    m.input().flag::<i32>("count");
    assert_eq!(m.get_input(), Some(&"--count".to_string()));
    assert_eq!(m.get::<i32>("count"), Some(&5));
}

#[test]
fn input_is_not_reached_by_any_name() {
    let mut m = MagicArgman::new(argv(&["prog", "a"]));
    m.input();
    assert_eq!(m.get_input(), Some(&String::from("a")));
    assert_eq!(m.get::<String>("___RESERVED_INPUT___"), None);
    assert_eq!(m.get::<String>(""), None);
    assert_eq!(m.get::<String>("a"), None);
    assert_eq!(m.get::<String>("input"), None);
}

#[test]
fn no_flag_takes_the_place_of_the_input() {
    let mut m = MagicArgman::new(argv(&["prog", "--___RESERVED_INPUT___", "zzz"]));
    m.flag::<String>("___RESERVED_INPUT___");
    assert_eq!(m.get_input(), None);
    assert_eq!(m.get::<String>("___RESERVED_INPUT___"), Some(&"zzz".to_string()));
    m.input();
    assert_eq!(m.get_input(), Some(&"--___RESERVED_INPUT___".to_string()));
    assert_eq!(m.get::<String>("___RESERVED_INPUT___"), Some(&"zzz".to_string()));
}

#[test]
fn input_and_flag_can_be_registered_in_either_order() {
    for name in ["___RESERVED_INPUT___", "count", "c"] {
        for list in [
            vec!["prog", "--___RESERVED_INPUT___", "zzz"],
            vec!["prog", "file", "--count", "5", "-c", "x"],
            vec!["prog", "--count"],
            vec!["prog"],
        ] {
            let mut one = MagicArgman::new(argv(&list));
            one.input().flag::<String>(name);
            let mut two = MagicArgman::new(argv(&list));
            two.flag::<String>(name).input();
            assert_eq!(one.get_input(), two.get_input());
            assert_eq!(one.get::<String>(name), two.get::<String>(name));
            assert_eq!(one.get_errors().len(), two.get_errors().len());
            for i in 0..one.get_errors().len() {
                let (a, b) = (&one.get_errors()[i], &two.get_errors()[i]);
                assert!(match (a, b) {
                    (MagicErr::FlagErr(x), MagicErr::FlagErr(y)) => x == y,
                    (MagicErr::ParseErr(x), MagicErr::ParseErr(y)) => x == y,
                    (MagicErr::ValueErr(x), MagicErr::ValueErr(y)) => x == y,
                    (MagicErr::InputErr, MagicErr::InputErr) => true,
                    _ => false,
                });
            }
        }
    }
}

#[test]
fn input_is_held_exactly_when_it_was_registered() {
    let mut m = MagicArgman::new(argv(&["prog", "first", "--count", "5", "-x"]));
    m.flag::<i32>("count").flag_req::<String>("name").flag_solo("x");
    assert_eq!(m.get_input(), None);
    m.input();
    assert_eq!(m.get_input(), Some(&"first".to_string()));
    m.flag::<String>("first").flag_solo("first").input();
    assert_eq!(m.get_input(), Some(&"first".to_string()));
    assert_eq!(m.get::<i32>("count"), Some(&5));
}

#[test]
fn empty_argument_vector_gives_an_empty_session() {
    let mut m = MagicArgman::new(Vec::new());
    m.input().flag_solo("x").flag::<i32>("n");
    assert_eq!(m.get_input(), None);
    assert_eq!(m.get::<bool>("x"), None);
    assert_eq!(m.get_errors().len(), 1);
    assert!(matches!(&m.get_errors()[0], MagicErr::InputErr));
}

#[test]
fn program_name_is_not_an_argument() {
    let mut m = MagicArgman::new(argv(&["-x", "--count", "5"]));
    m.flag_solo("x").flag::<i32>("count");
    assert_eq!(m.get::<bool>("x"), None);
    assert_eq!(m.get::<i32>("count"), Some(&5));

    let mut m = MagicArgman::new(argv(&["--count", "5"]));
    m.flag::<i32>("count");
    assert_eq!(m.get::<i32>("count"), None);
    assert!(!m.error());
}

#[test]
fn two_missing_required_flags_are_recorded_in_call_order() {
    let mut m = MagicArgman::new(argv(&["prog"]));
    m.flag_req::<i32>("first").flag_req::<String>("second");
    assert_eq!(m.get_errors().len(), 2);
    assert!(is_flag_err(&m.get_errors()[0], "first"));
    assert!(is_flag_err(&m.get_errors()[1], "second"));

    let mut m = MagicArgman::new(argv(&["prog"]));
    m.flag_req::<String>("second").flag_req::<i32>("first");
    assert_eq!(m.get_errors().len(), 2);
    assert!(is_flag_err(&m.get_errors()[0], "second"));
    assert!(is_flag_err(&m.get_errors()[1], "first"));
}

#[test]
fn problems_of_different_calls_accumulate_in_order() {
    let mut m = MagicArgman::new(argv(&[]));
    m.input();
    let mut m2 = MagicArgman::new(argv(&["prog", "-a", "x", "-c", "3", "-b"]));
    m2.flag::<i32>("a").flag::<i32>("b").flag::<i32>("c").flag_req::<i32>("d");
    assert_eq!(m2.get_errors().len(), 3);
    assert!(is_parse_err(&m2.get_errors()[0], "a"));
    assert!(is_value_err(&m2.get_errors()[1], "b"));
    assert!(is_flag_err(&m2.get_errors()[2], "d"));
    assert_eq!(m2.get::<i32>("c"), Some(&3));
    assert_eq!(m.get_errors().len(), 1);
}

#[test]
fn registration_goes_on_after_a_problem() {
    let mut m = MagicArgman::new(argv(&["prog", "-a", "x", "-b", "2"]));
    m.flag_req::<i32>("a").flag_req::<i32>("b");
    assert_eq!(m.get::<i32>("a"), None);
    assert_eq!(m.get::<i32>("b"), Some(&2));
    assert_eq!(m.get_errors().len(), 2);
}

#[test]
fn only_the_first_occurrence_counts() {
    let mut m = MagicArgman::new(argv(&["prog", "-n", "1", "-n", "2"]));
    m.flag::<i32>("n");
    assert_eq!(m.get::<i32>("n"), Some(&1));
    assert!(!m.error());
}

#[test]
fn a_later_good_occurrence_does_not_mend_the_first() {
    let mut m = MagicArgman::new(argv(&["prog", "-n", "x", "-n", "2"]));
    m.flag::<i32>("n");
    assert_eq!(m.get::<i32>("n"), None);
    assert_eq!(m.get_errors().len(), 1);
    assert!(is_parse_err(&m.get_errors()[0], "n"));
}

#[test]
fn registering_twice_gives_the_same_value() {
    let mut m = MagicArgman::new(argv(&["prog", "-n", "1", "-n", "2"]));
    m.flag::<i32>("n").flag::<i32>("n");
    assert_eq!(m.get::<i32>("n"), Some(&1));
    assert!(!m.error());
}

#[test]
fn the_value_may_look_like_a_flag() {
    let mut m = MagicArgman::new(argv(&["prog", "-a", "-b"]));
    m.flag::<String>("a").flag::<String>("b");
    assert_eq!(m.get::<String>("a"), Some(&"-b".to_string()));
    assert_eq!(m.get::<String>("b"), None);
    assert_eq!(m.get_errors().len(), 1);
    assert!(is_value_err(&m.get_errors()[0], "b"));
}

#[test]
fn a_token_followed_by_itself_takes_the_token_as_value() {
    let mut m = MagicArgman::new(argv(&["prog", "-n", "-n", "5"]));
    m.flag::<i32>("n");
    assert_eq!(m.get::<i32>("n"), None);
    assert_eq!(m.get_errors().len(), 1);
    assert!(is_parse_err(&m.get_errors()[0], "n"));
}

#[test]
fn lookup_under_another_type_finds_nothing() {
    let mut m = MagicArgman::new(argv(&["prog", "--count", "5"]));
    m.flag::<i32>("count");
    assert_eq!(m.get::<i64>("count"), None);
    assert_eq!(m.get::<u32>("count"), None);
    assert_eq!(m.get::<String>("count"), None);
    assert_eq!(m.get::<bool>("count"), None);
    assert_eq!(m.get::<char>("count"), None);
    assert_eq!(m.get::<i32>("count"), Some(&5));
}

#[test]
fn lookup_of_an_unknown_name_finds_nothing() {
    let mut m = MagicArgman::new(argv(&["prog", "--count", "5"]));
    m.flag::<i32>("count");
    assert_eq!(m.get::<i32>("Count"), None);
    assert_eq!(m.get::<i32>(""), None);
    assert_eq!(m.get::<i32>("--count"), None);
}

#[test]
fn registering_under_another_type_replaces_the_value() {
    let mut m = MagicArgman::new(argv(&["prog", "-n", "7"]));
    m.flag::<i32>("n");
    assert_eq!(m.get::<i32>("n"), Some(&7));
    m.flag::<String>("n");
    assert_eq!(m.get::<i32>("n"), None);
    assert_eq!(m.get::<String>("n"), Some(&"7".to_string()));
}

#[test]
fn each_type_of_value_is_read() {
    let mut m = MagicArgman::new(argv(&[
        "prog", "--flag", "false", "--letter", "z", "--small", "-128", "--big",
        "340282366920938463463374607431768211455", "--name", "hello world", "--size", "+42",
    ]));
    m.flag::<bool>("flag")
        .flag::<char>("letter")
        .flag::<i8>("small")
        .flag::<u128>("big")
        .flag::<String>("name")
        .flag::<usize>("size");
    assert_eq!(m.get::<bool>("flag"), Some(&false));
    assert_eq!(m.get::<char>("letter"), Some(&'z'));
    assert_eq!(m.get::<i8>("small"), Some(&i8::MIN));
    assert_eq!(m.get::<u128>("big"), Some(&u128::MAX));
    assert_eq!(m.get::<String>("name"), Some(&"hello world".to_string()));
    assert_eq!(m.get::<usize>("size"), Some(&42));
    assert!(!m.error());
}

#[test]
fn a_value_out_of_range_is_a_parse_error() {
    let mut m = MagicArgman::new(argv(&["prog", "-n", "256", "-m", "-1"]));
    m.flag::<u8>("n").flag::<u32>("m");
    assert_eq!(m.get::<u8>("n"), None);
    assert_eq!(m.get::<u32>("m"), None);
    assert_eq!(m.get_errors().len(), 2);
    assert!(is_parse_err(&m.get_errors()[0], "n"));
    assert!(is_parse_err(&m.get_errors()[1], "m"));
}

#[test]
fn rejecting_records_a_parse_error_and_stores_nothing() {
    let mut m = MagicArgman::new(argv(&["prog", "--ratio", "half", "--count", "5"]));
    m.flag::<i32>("count");
    assert_eq!(m.following("ratio"), Some(&"half".to_string()));
    m.reject("ratio");
    assert_eq!(m.get::<String>("ratio"), None);
    assert_eq!(m.get::<i32>("count"), Some(&5));
    assert_eq!(m.get_errors().len(), 1);
    assert!(is_parse_err(&m.get_errors()[0], "ratio"));
    assert!(m.error());
}

#[test]
fn rejecting_leaves_what_is_stored() {
    let mut m = MagicArgman::new(argv(&["prog", "-ratio", "--ratio", "half"]));
    m.flag_solo("ratio").reject("ratio");
    assert_eq!(m.get::<bool>("ratio"), Some(&true));
    assert_eq!(m.get_errors().len(), 1);
    assert!(is_parse_err(&m.get_errors()[0], "ratio"));
}

#[test]
fn following_is_the_text_after_the_first_token() {
    let m = MagicArgman::new(argv(&["prog", "--ratio", "0.5", "--ratio", "1.5", "-r", "x", "--last"]));
    assert_eq!(m.following("ratio"), Some(&"0.5".to_string()));
    assert_eq!(m.following("r"), Some(&"x".to_string()));
    assert_eq!(m.following("last"), None);
    assert_eq!(m.following("other"), None);
    assert_eq!(m.following("prog"), None);
    assert!(!m.error());
    assert_eq!(m.get::<String>("ratio"), None);
}

#[test]
fn following_is_what_flag_reads() {
    let mut m = MagicArgman::new(argv(&["prog", "--count", "5", "--name"]));
    assert_eq!(m.following("count"), Some(&"5".to_string()));
    m.flag::<String>("count").flag::<String>("name");
    assert_eq!(m.get::<String>("count"), Some(&"5".to_string()));
    assert_eq!(m.following("name"), None);
    assert_eq!(m.get::<String>("name"), None);
}

#[test]
fn demanding_a_stored_flag_records_nothing() {
    let mut m = MagicArgman::new(argv(&["prog", "--count", "5"]));
    m.flag::<i32>("count").demand("count");
    assert!(!m.error());
    assert_eq!(m.get::<i32>("count"), Some(&5));
}

#[test]
fn demanding_a_flag_without_value_records_a_flag_error() {
    let mut m = MagicArgman::new(argv(&["prog", "--count", "5"]));
    m.flag::<i32>("count").demand("other").demand("count");
    assert_eq!(m.get_errors().len(), 1);
    assert!(is_flag_err(&m.get_errors()[0], "other"));
}

#[test]
fn rejecting_and_demanding_record_what_a_required_flag_records() {
    let mut m = MagicArgman::new(argv(&["prog", "--ratio", "half"]));
    m.reject("ratio").demand("ratio");
    assert_eq!(m.get::<String>("ratio"), None);
    assert_eq!(m.get_errors().len(), 2);
    assert!(is_parse_err(&m.get_errors()[0], "ratio"));
    assert!(is_flag_err(&m.get_errors()[1], "ratio"));
}
