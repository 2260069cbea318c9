use ratatui::prelude::Constraint;
use youtui::structures::Percentage;
use youtui::view::{
    basic_constraints_to_table_constraints, BasicConstraint, Filter, FilterString, SortDirection,
    TableFilterCommand,
};

fn as_constraints(widths: Vec<u16>) -> Vec<Constraint> {
    widths.into_iter().map(Constraint::Length).collect()
}

#[test]
fn test_constraints() {
    let basic_constraints = &[
        BasicConstraint::Length(5),
        BasicConstraint::Length(5),
        BasicConstraint::Percentage(Percentage(100)),
    ];
    let constraints = vec![
        Constraint::Length(5),
        Constraint::Length(5),
        Constraint::Length(10),
    ];
    let converted = as_constraints(basic_constraints_to_table_constraints(basic_constraints, 20, 0));
    assert_eq!(converted, constraints);
    let basic_constraints = &[
        BasicConstraint::Length(5),
        BasicConstraint::Length(5),
        BasicConstraint::Percentage(Percentage(50)),
        BasicConstraint::Percentage(Percentage(50)),
    ];
    let constraints = vec![
        Constraint::Length(5),
        Constraint::Length(5),
        Constraint::Length(5),
        Constraint::Length(5),
    ];
    let converted = as_constraints(basic_constraints_to_table_constraints(basic_constraints, 20, 0));
    assert_eq!(converted, constraints);
}

#[test]
fn constraints_count_margins_and_round_down() {
    let cs = &[
        BasicConstraint::Length(5),
        BasicConstraint::Percentage(Percentage(50)),
        BasicConstraint::Percentage(Percentage(33)),
    ];
    // fixed room: 5 + 1 + 0 + 1 + 0 + 1 = 8, leaving 92.
    assert_eq!(basic_constraints_to_table_constraints(cs, 100, 1), vec![5, 46, 30]);
}

#[test]
fn constraints_without_room_give_empty_shares() {
    let cs = &[
        BasicConstraint::Length(30),
        BasicConstraint::Percentage(Percentage(100)),
    ];
    assert_eq!(basic_constraints_to_table_constraints(cs, 20, 0), vec![30, 0]);
    assert_eq!(basic_constraints_to_table_constraints(&[], 20, 3), Vec::<u16>::new());
}

#[test]
fn filter_commands_read_as_text() {
    let all = TableFilterCommand::All(Filter::Contains(FilterString::CaseInsensitive(
        "abc".to_string(),
    )));
    assert_eq!(all.as_readable(), "ALL~a:abc");
    assert_eq!(all.as_basic_readable(), "[a-Z]*abc*");
    let col = TableFilterCommand::Column {
        filter: Filter::Equal(FilterString::CaseSensitive("X y".to_string())),
        column: 12,
    };
    assert_eq!(col.as_readable(), "COL12=A:X y");
    let not = Filter::NotContains(FilterString::CaseSensitive(String::new()));
    assert_eq!(not.as_readable(), "!=A:");
    assert_eq!(FilterString::CaseInsensitive("Q".to_string()).as_readable(), "a:Q");
}

#[test]
fn filter_strings_match() {
    let sensitive = FilterString::CaseSensitive("Beat".to_string());
    assert!(sensitive.is_in("The Beatles"));
    assert!(!sensitive.is_in("the beatles"));
    let insensitive = FilterString::CaseInsensitive("BEAT".to_string());
    assert!(insensitive.is_in("the beatles"));
    assert!(insensitive.is_in("THE BEATLES"));
    assert!(!insensitive.is_in("the bea tles"));
    assert!(FilterString::CaseSensitive(String::new()).is_in(""));
    assert!(!FilterString::CaseInsensitive("é".to_string()).is_in("É"));
}

#[test]
fn sort_direction_default() {
    assert_eq!(SortDirection::default(), SortDirection::Asc);
}

#[test]
fn columns_with_margins_fit_the_table() {
    let cs = [
        BasicConstraint::Length(5),
        BasicConstraint::Percentage(Percentage(60)),
        BasicConstraint::Percentage(Percentage(40)),
    ];
    for length in [8u16, 9, 17, 50, 101, 1000] {
        let widths = basic_constraints_to_table_constraints(&cs, length, 1);
        let total: u32 = widths.iter().map(|w| *w as u32).sum::<u32>() + cs.len() as u32;
        assert!(total <= length as u32, "length {length}: total {total}");
    }
}

#[test]
fn ignoring_case_ignores_the_case_of_the_text() {
    let f = FilterString::CaseInsensitive("MiXeD".to_string());
    for text in ["a mixed bag", "A MIXED BAG", "no match"] {
        assert_eq!(f.is_in(text), f.is_in(&text.to_ascii_lowercase()));
    }
    let exact = FilterString::CaseSensitive("Bag".to_string());
    let loose = FilterString::CaseInsensitive("Bag".to_string());
    for text in ["Bag", "a Bag!", "bag"] {
        if exact.is_in(text) {
            assert!(loose.is_in(text));
        }
    }
    assert!(loose.is_in("bag") && !exact.is_in("bag"));
}

#[test]
fn filter_text_tells_commands_apart() {
    let cmds = vec![
        TableFilterCommand::All(Filter::Contains(FilterString::CaseSensitive("1".to_string()))),
        TableFilterCommand::All(Filter::Contains(FilterString::CaseInsensitive("1".to_string()))),
        TableFilterCommand::All(Filter::NotContains(FilterString::CaseSensitive("1".to_string()))),
        TableFilterCommand::All(Filter::Equal(FilterString::CaseSensitive("1".to_string()))),
        TableFilterCommand::Column { filter: Filter::Equal(FilterString::CaseSensitive("2".to_string())), column: 1 },
        TableFilterCommand::Column { filter: Filter::Equal(FilterString::CaseSensitive("".to_string())), column: 12 },
        TableFilterCommand::Column { filter: Filter::Equal(FilterString::CaseSensitive("=A:".to_string())), column: 1 },
    ];
    let texts: Vec<String> = cmds.iter().map(|c| c.as_readable()).collect();
    for i in 0..texts.len() {
        for j in 0..texts.len() {
            assert_eq!(i == j, texts[i] == texts[j], "{} / {}", texts[i], texts[j]);
        }
    }
}
