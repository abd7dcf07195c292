use vstd::prelude::*;
use vstd::string::StringExecFns;

verus! {

/// The header printed above the rendered tree.
pub fn header_line(path_display: &str) -> (r: String)
    ensures
        r@ == "Tree structure of: "@ + path_display@,
{
    let mut r: String = "Tree structure of: ".to_owned();
    r.append(path_display);
    r
}

/// The error reported when the starting path does not exist.
pub fn missing_path_error(path: &str) -> (r: String)
    ensures
        r@ == "Error: Path '"@ + path@ + "' does not exist."@,
{
    let mut r: String = "Error: Path '".to_owned();
    r.append(path);
    r.append("' does not exist.");
    r
}

} // verus!
