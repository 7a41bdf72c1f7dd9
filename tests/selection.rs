use field_choose::choice::Choice;
use field_choose::config::Config;
use field_choose::output::write_fields;
use field_choose::separator::{drop_empty, Separator, SeparatorError};

const FIELDS: [&str; 6] = ["rust", "lang", "is", "pretty", "darn", "cool"];

fn pick(choice: Choice, exclusive: bool) -> Vec<&'static str> {
    choice.get_choice_slice(&FIELDS, exclusive)
}

#[test]
fn single_field_inside_and_past_the_end() {
    assert_eq!(pick(Choice::Field(0), false), vec!["rust"]);
    assert_eq!(pick(Choice::Field(5), true), vec!["cool"]);
    assert_eq!(pick(Choice::Field(6), false), Vec::<&str>::new());
    assert_eq!(pick(Choice::Field(u32::MAX), false), Vec::<&str>::new());
}

#[test]
fn ascending_range_is_inclusive_and_clipped() {
    assert_eq!(pick(Choice::FieldRange((Some(1), Some(3))), false), vec!["lang", "is", "pretty"]);
    assert_eq!(pick(Choice::FieldRange((Some(2), Some(2))), false), vec!["is"]);
    assert_eq!(pick(Choice::FieldRange((Some(4), Some(u32::MAX))), false), vec!["darn", "cool"]);
    assert_eq!(pick(Choice::FieldRange((Some(7), Some(9))), false), Vec::<&str>::new());
}

#[test]
fn reversed_range_runs_backwards() {
    assert_eq!(pick(Choice::FieldRange((Some(3), Some(1))), false), vec!["pretty", "is", "lang"]);
    assert_eq!(pick(Choice::FieldRange((Some(9), Some(4))), false), vec!["cool", "darn"]);
    assert_eq!(pick(Choice::FieldRange((Some(u32::MAX), Some(0))), false).len(), 6);
    assert!(Choice::FieldRange((Some(3), Some(1))).is_reverse_range());
}

#[test]
fn exclusive_end_drops_the_end_field() {
    assert_eq!(pick(Choice::FieldRange((Some(1), Some(3))), true), vec!["lang", "is"]);
    assert_eq!(
        pick(Choice::FieldRange((Some(1), Some(3))), true),
        pick(Choice::FieldRange((Some(1), Some(2))), false)
    );
    assert_eq!(pick(Choice::FieldRange((Some(2), Some(2))), true), Vec::<&str>::new());
    assert_eq!(pick(Choice::FieldRange((None, Some(0))), true), Vec::<&str>::new());
    assert_eq!(pick(Choice::FieldRange((None, Some(0))), false), vec!["rust"]);
    assert_eq!(pick(Choice::FieldRange((None, Some(2))), true), vec!["rust", "lang"]);
    assert_eq!(pick(Choice::FieldRange((Some(3), Some(1))), true), vec!["pretty", "is"]);
}

#[test]
fn open_ranges() {
    assert_eq!(pick(Choice::FieldRange((None, None)), false), FIELDS.to_vec());
    assert_eq!(pick(Choice::FieldRange((None, None)), true), FIELDS.to_vec());
    assert_eq!(pick(Choice::FieldRange((Some(3), None)), true), vec!["pretty", "darn", "cool"]);
    assert_eq!(pick(Choice::FieldRange((Some(6), None)), false), Vec::<&str>::new());
    assert!(!Choice::FieldRange((Some(3), None)).is_reverse_range());
}

#[test]
fn no_fields_selects_nothing() {
    let empty: [&str; 0] = [];
    assert_eq!(Choice::FieldRange((None, None)).get_choice_slice(&empty, false), Vec::<&str>::new());
    assert_eq!(Choice::FieldRange((Some(2), Some(0))).get_choice_slice(&empty, false), Vec::<&str>::new());
    assert_eq!(Choice::Field(0).get_choice_slice(&empty, true), Vec::<&str>::new());
}

#[test]
fn repeated_separators_collapse() {
    let sep = Separator::new("#").unwrap();
    assert_eq!(sep.split("a##b"), vec!["a", "b"]);
    assert_eq!(sep.split("##a#b##"), vec!["a", "b"]);
    assert_eq!(sep.split("###"), Vec::<&str>::new());
    assert_eq!(sep.pattern(), "#");
}

#[test]
fn whitespace_split_of_a_line() {
    let sep = Separator::new("[[:space:]]").unwrap();
    assert_eq!(sep.split("rust is  pretty\tcool"), vec!["rust", "is", "pretty", "cool"]);
}

#[test]
fn vowel_pattern_split_boundaries() {
    let sep = Separator::new("[aeiou]").unwrap();
    let fields = sep.split("the quick brown fox");
    assert_eq!(fields, vec!["th", " q", "ck br", "wn f", "x"]);
    let chosen = Choice::FieldRange((Some(1), Some(3))).get_choice_slice(&fields, false);
    assert_eq!(chosen, vec![" q", "ck br", "wn f"]);
}

#[test]
fn invalid_pattern_is_refused() {
    assert_eq!(Separator::new("foo(bar").err(), Some(SeparatorError::InvalidPattern));
}

#[test]
fn empty_pieces_are_dropped_in_order() {
    assert_eq!(drop_empty(&["", "a", "", "", "b", ""]), vec!["a", "b"]);
    assert_eq!(drop_empty(&[]), Vec::<&str>::new());
}

#[test]
fn fields_are_written_with_trailing_spaces() {
    let mut out = String::from(">");
    write_fields(&["a", "bc"], &mut out);
    assert_eq!(out, ">a bc ");
    write_fields(&[], &mut out);
    assert_eq!(out, ">a bc ");
}

#[test]
fn print_choice_appends_to_output() {
    let config = Config::new(Separator::new("[[:space:]]").unwrap(), false, vec![]);
    let mut out = String::from("x ");
    Choice::FieldRange((Some(3), Some(1))).print_choice("rust lang is pretty darn cool", &config, &mut out);
    assert_eq!(out, "x pretty is lang ");
}

#[test]
fn a_line_applies_every_choice_then_ends() {
    let choices = vec![Choice::Field(3), Choice::Field(1), Choice::FieldRange((Some(2), None))];
    let config = Config::new(Separator::new("[[:space:]]").unwrap(), false, choices);
    let mut out = String::new();
    config.process_line("rust is pretty cool", &mut out);
    config.process_line("", &mut out);
    assert_eq!(out, "cool is pretty cool \n\n");
}

#[test]
fn parse_single_fields() {
    assert_eq!(Choice::parse("0"), Some(Choice::Field(0)));
    assert_eq!(Choice::parse("42"), Some(Choice::Field(42)));
    assert_eq!(Choice::parse("4294967295"), Some(Choice::Field(4294967295)));
    assert!(Choice::parse("4294967296").is_none());
    assert!(Choice::parse("").is_none());
    assert!(Choice::parse("1a").is_none());
    assert!(Choice::parse("-1").is_none());
}

#[test]
fn parse_ranges() {
    assert_eq!(Choice::parse("1:3"), Some(Choice::FieldRange((Some(1), Some(3)))));
    assert_eq!(Choice::parse("4:2"), Some(Choice::FieldRange((Some(4), Some(2)))));
    assert_eq!(Choice::parse(":2"), Some(Choice::FieldRange((None, Some(2)))));
    assert_eq!(Choice::parse("2:"), Some(Choice::FieldRange((Some(2), None))));
    assert_eq!(Choice::parse(":"), Some(Choice::FieldRange((None, None))));
    assert!(Choice::parse("1:2:3").is_none());
    assert!(Choice::parse("1:x").is_none());
    assert!(Choice::parse("99999999999:1").is_none());
}
