use vstd::prelude::*;
use vstd::string::StringExecFns;

verus! {

/// The platform subsystem an [`Error`] originated from.
#[derive(Clone, Copy, Debug, PartialEq, Eq, Structural)]
pub enum ErrorType {
    Bluez,
    CoreBluetooth,
    Usb,
    Windows,
}

impl From<ErrorType> for &'static str {
    fn from(error_type: ErrorType) -> (name: &'static str) {
        match error_type {
            ErrorType::Bluez => "Bluez",
            ErrorType::CoreBluetooth => "CoreBluetooth",
            ErrorType::Usb => "USB",
            ErrorType::Windows => "Windows",
        }
    }
}

impl vstd::std_specs::convert::FromSpecImpl<ErrorType> for &'static str {
    open spec fn obeys_from_spec() -> bool {
        true
    }

    open spec fn from_spec(error_type: ErrorType) -> Self {
        match error_type {
            ErrorType::Bluez => "Bluez",
            ErrorType::CoreBluetooth => "CoreBluetooth",
            ErrorType::Usb => "USB",
            ErrorType::Windows => "Windows",
        }
    }
}

/// A typed error: a subsystem name, a free-text description, and the
/// combined `"name: description"` string kept alongside them.
#[derive(Clone, Debug)]
pub struct Error {
    pub name: String,
    pub description: String,
    pub combined_description: String,
    pub error_type: ErrorType,
}

impl Error {
    /// Builds an error whose combined description is `"<name>: <description>"`.
    pub fn new(name: &str, description: &str, error_type: ErrorType) -> (e: Error)
        ensures
            e.name@ == name@,
            e.description@ == description@,
            e.combined_description@ == name@ + ": "@ + description@,
            e.error_type == error_type,
    {
        let mut combined_description = name.to_owned();
        combined_description.append(": ");
        combined_description.append(description);
        Error {
            name: name.to_owned(),
            description: description.to_owned(),
            combined_description,
            error_type,
        }
    }
}

/// Holds exactly when `e` is the error the BlueZ backend reports with
/// free-text description `description`.
pub open spec fn is_bluez_error(e: Error, description: Seq<char>) -> bool {
    &&& e.error_type == ErrorType::Bluez
    &&& e.name@ == "BlueZ"@
    &&& e.description@ == description
    &&& e.combined_description@ == "BlueZ"@ + ": "@ + description
}

} // verus!
