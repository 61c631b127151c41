use vstd::prelude::*;

use vstd::string::StringExecFns;

verus! {

/// The frames of the default tick animation: a bar that fills, then slides
/// to the right and empties.
pub open spec fn default_frames() -> Seq<Seq<char>> {
    seq![
        "|          |"@,
        "|#         |"@,
        "|##        |"@,
        "|###       |"@,
        "|####      |"@,
        "|#####     |"@,
        "|######    |"@,
        "| ######   |"@,
        "|  ######  |"@,
        "|   ###### |"@,
        "|    ######|"@,
        "|     #####|"@,
        "|      ####|"@,
        "|        ##|"@,
        "|         #|"@,
    ]
}

/// The default tick animation.
pub fn default_sequence() -> (r: Vec<String>)
    ensures
        r@.map_values(|s: String| s@) == default_frames(),
{
    let mut r: Vec<String> = Vec::new();
    r.push(String::from_str("|          |"));
    r.push(String::from_str("|#         |"));
    r.push(String::from_str("|##        |"));
    r.push(String::from_str("|###       |"));
    r.push(String::from_str("|####      |"));
    r.push(String::from_str("|#####     |"));
    r.push(String::from_str("|######    |"));
    r.push(String::from_str("| ######   |"));
    r.push(String::from_str("|  ######  |"));
    r.push(String::from_str("|   ###### |"));
    r.push(String::from_str("|    ######|"));
    r.push(String::from_str("|     #####|"));
    r.push(String::from_str("|      ####|"));
    r.push(String::from_str("|        ##|"));
    r.push(String::from_str("|         #|"));
    assert(r@.map_values(|s: String| s@) =~= default_frames());
    r
}

} // verus!
