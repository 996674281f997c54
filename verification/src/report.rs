use vstd::prelude::*;
use vstd::string::StringExecFns;

verus! {

/// Fixed confirmation reported after a successful write.
pub open spec fn save_success_text() -> Seq<char> {
    "File saved successfully"@
}

/// Fixed instruction reported when the write fails for want of privilege.
pub open spec fn permission_denied_text() -> Seq<char> {
    "Permission denied! Please run as administrator."@
}

/// Status line for a write failure other than a permission problem: the fixed
/// prefix followed by the OS error text.
pub open spec fn generic_save_error_text(os_error: Seq<char>) -> Seq<char> {
    "Failed to save: "@ + os_error
}

/// Status line for a read failure: the fixed prefix followed by the OS error
/// text.
pub open spec fn read_error_text(os_error: Seq<char>) -> Seq<char> {
    "Cannot read hosts file: "@ + os_error
}

/// Status line reported when the hosts file cannot be opened or read.
pub fn read_error_message(os_error: &str) -> (r: String)
    ensures
        r@ == read_error_text(os_error@),
{
    String::from_str("Cannot read hosts file: ").concat(os_error)
}

/// Fixed confirmation message for a successful write.
pub fn save_success_message() -> (r: String)
    ensures
        r@ == save_success_text(),
{
    String::from_str("File saved successfully")
}

/// Classifies a failed write into its two user-facing kinds: a permission
/// problem gets the fixed escalation instruction, any other failure reports
/// the OS error text.
pub fn save_error_message(permission_denied: bool, os_error: &str) -> (r: String)
    ensures
        permission_denied ==> r@ == permission_denied_text(),
        !permission_denied ==> r@ == generic_save_error_text(os_error@),
{
    if permission_denied {
        String::from_str("Permission denied! Please run as administrator.")
    } else {
        String::from_str("Failed to save: ").concat(os_error)
    }
}

} // verus!
