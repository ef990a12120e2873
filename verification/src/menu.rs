//! The top-level menu: which command each reply selects.

use vstd::prelude::*;
use crate::input_handler::str_eq;

verus! {

/// The commands offered by the top-level menu.
pub enum MainMenu {
    /// Print the whole table.
    DisplayFile,
    /// Show a window of the table.
    PaginateFile,
    /// Clear one cell.
    DeleteField,
    /// Overwrite one cell.
    UpdateField,
    /// Persist the table under a chosen name.
    WriteFile,
    /// Leave the program.
    Quit,
}

impl MainMenu {
    /// Maps one trimmed menu reply to its command: the digits `1` to `5`
    /// select the commands in menu order, `q` or `quit` quits, and
    /// anything else selects nothing.
    pub fn from_str(input: &str) -> (m: Option<MainMenu>)
        ensures
            input@ == "1"@ ==> m == Some(MainMenu::DisplayFile),
            input@ == "2"@ ==> m == Some(MainMenu::PaginateFile),
            input@ == "3"@ ==> m == Some(MainMenu::DeleteField),
            input@ == "4"@ ==> m == Some(MainMenu::UpdateField),
            input@ == "5"@ ==> m == Some(MainMenu::WriteFile),
            input@ == "q"@ || input@ == "quit"@ ==> m == Some(MainMenu::Quit),
            (input@ != "1"@ && input@ != "2"@ && input@ != "3"@ && input@ != "4"@
                && input@ != "5"@ && input@ != "q"@ && input@ != "quit"@) ==> m is None,
    {
        proof {
            reveal_strlit("1");
            reveal_strlit("2");
            reveal_strlit("3");
            reveal_strlit("4");
            reveal_strlit("5");
            reveal_strlit("q");
            reveal_strlit("quit");
            assert("1"@.len() == 1);
            assert("1"@[0] == '1');
            assert("2"@.len() == 1);
            assert("2"@[0] == '2');
            assert("3"@.len() == 1);
            assert("3"@[0] == '3');
            assert("4"@.len() == 1);
            assert("4"@[0] == '4');
            assert("5"@.len() == 1);
            assert("5"@[0] == '5');
            assert("q"@.len() == 1);
            assert("q"@[0] == 'q');
            assert("quit"@.len() == 4);
            assert("quit"@[0] == 'q');
        }
        if str_eq(input, "1") {
            Some(MainMenu::DisplayFile)
        } else if str_eq(input, "2") {
            Some(MainMenu::PaginateFile)
        } else if str_eq(input, "3") {
            Some(MainMenu::DeleteField)
        } else if str_eq(input, "4") {
            Some(MainMenu::UpdateField)
        } else if str_eq(input, "5") {
            Some(MainMenu::WriteFile)
        } else if str_eq(input, "q") || str_eq(input, "quit") {
            Some(MainMenu::Quit)
        } else {
            None
        }
    }
}

} // verus!
