use sol_wallet::menu::{parse_menu_choice, MenuChoice};

#[test]
fn the_three_entries_are_read_from_their_numbers() {
    assert_eq!(parse_menu_choice("1\n"), MenuChoice::ShowHistory);
    assert_eq!(parse_menu_choice("2\n"), MenuChoice::Transfer);
    assert_eq!(parse_menu_choice(" 3 \r\n"), MenuChoice::Exit);
    assert_eq!(parse_menu_choice("+2"), MenuChoice::Transfer);
    assert_eq!(parse_menu_choice("003"), MenuChoice::Exit);
}

#[test]
fn what_is_no_number_counts_as_zero() {
    for line in ["", "\n", "abc\n", "0\n", "256\n", "-1\n", "1.0\n", "1 2\n"] {
        assert_eq!(parse_menu_choice(line), MenuChoice::NotANumber, "{:?}", line);
    }
}

#[test]
fn other_numbers_are_no_option() {
    for line in ["4\n", "9", "255\n", "17"] {
        assert_eq!(parse_menu_choice(line), MenuChoice::InvalidOption, "{:?}", line);
    }
}

#[test]
fn a_sign_and_leading_zeros_do_not_change_the_number() {
    assert_eq!(parse_menu_choice("01\n"), MenuChoice::ShowHistory);
    assert_eq!(parse_menu_choice("+3\n"), MenuChoice::Exit);
    assert_eq!(parse_menu_choice("+004\n"), MenuChoice::InvalidOption);
}
