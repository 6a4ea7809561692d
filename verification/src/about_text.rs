//! The text that names the game and its author.

use vstd::prelude::*;

verus! {

/// "Cursor Hero v<version>", then on a second line "by @TeamDman".
pub fn about_text(version: &str) -> (r: String)
    ensures
        r@ == "Cursor Hero v"@ + version@ + "\nby @TeamDman"@,
{
    let mut r = String::from_str("Cursor Hero v");
    r.append(version);
    r.append("\nby @TeamDman");
    r
}

} // verus!
