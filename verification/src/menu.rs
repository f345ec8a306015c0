//! The choices of the main menu.

use crate::digits::{parse_u8, u8_text_value};
use crate::text::{chars_of, trim_bounds, trimmed};
use vstd::prelude::*;

verus! {

/// What the operator chose at the menu.
#[derive(Clone, Copy, Debug, PartialEq, Eq, Structural)]
pub enum MenuChoice {
    /// 1: show the transfer history.
    ShowHistory,
    /// 2: make a transfer.
    Transfer,
    /// 3: leave.
    Exit,
    /// The line holds no number from 1 to 255.
    NotANumber,
    /// The line holds a number that is no menu entry.
    InvalidOption,
}

/// The choice that a typed line stands for. White space around it is
/// dropped; what is left is read as a number from 0 to 255, and a line that
/// is no such number counts as 0. The number may carry a `+` and leading
/// zeros: `+2` and `02` choose the second entry.
pub open spec fn menu_choice(line: Seq<char>) -> MenuChoice {
    match u8_text_value(trimmed(line)) {
        None => MenuChoice::NotANumber,
        Some(number) => if number == 1 {
            MenuChoice::ShowHistory
        } else if number == 2 {
            MenuChoice::Transfer
        } else if number == 3 {
            MenuChoice::Exit
        } else if number == 0 {
            MenuChoice::NotANumber
        } else {
            MenuChoice::InvalidOption
        },
    }
}

/// Reads the operator's choice from the line that was typed.
pub fn parse_menu_choice(line: &str) -> (choice: MenuChoice)
    ensures
        choice == menu_choice(line@),
{
    let chars = chars_of(line);
    let (start, end) = trim_bounds(&chars);
    match parse_u8(&chars, start, end) {
        None => MenuChoice::NotANumber,
        Some(number) => if number == 1 {
            MenuChoice::ShowHistory
        } else if number == 2 {
            MenuChoice::Transfer
        } else if number == 3 {
            MenuChoice::Exit
        } else if number == 0 {
            MenuChoice::NotANumber
        } else {
            MenuChoice::InvalidOption
        },
    }
}

} // verus!
