use vstd::prelude::*;
use vstd::string::StringExecFns;

verus! {

/// The failure states the panel can report.
#[derive(Debug)]
pub enum ErrorKind {
    /// Chip on glass not supported by driver
    DisplayUnsupportedCog,
    /// When the panel breaks
    DisplayPanelBroken,
    /// Volate pump level to low for operation
    DisplayDcFailed,
    /// Other display failure modes
    DisplayUnknown,
    /// When an unexpected error is encountered
    UnexpectedError(String),
}

/// An error raised while interacting with the papirus driver.
#[derive(Debug)]
pub struct Error {
    kind: Box<ErrorKind>,
}

impl Error {
    /// The kind of failure this error reports.
    pub closed spec fn kind_spec(&self) -> ErrorKind {
        *self.kind
    }

    pub fn new(kind: ErrorKind) -> (e: Error)
        ensures
            e.kind_spec() == kind,
    {
        Error { kind: Box::new(kind) }
    }

    /// Borrow the kind of failure this error reports.
    pub fn kind(&self) -> (k: &ErrorKind)
        ensures
            *k == self.kind_spec(),
    {
        &self.kind
    }

    /// A human-readable description of the error.
    pub fn message(&self) -> (m: String)
        ensures
            self.kind_spec() matches ErrorKind::DisplayUnsupportedCog ==> m@
                == "You are using an unsupported chip on glass"@,
            self.kind_spec() matches ErrorKind::DisplayPanelBroken ==> m@
                == "Your panel is broken, please replace it"@,
            self.kind_spec() matches ErrorKind::DisplayDcFailed ==> m@
                == "Voltage to low, check if the power supply is working properly and fit for the screen"@,
            self.kind_spec() matches ErrorKind::DisplayUnknown ==> m@
                == "An unkown error has occured with the Display"@,
            self.kind_spec() matches ErrorKind::UnexpectedError(state) ==> m@
                == "An unexpected error has occured: "@ + state@,
    {
        match &*self.kind {
            ErrorKind::DisplayUnsupportedCog => String::from_str(
                "You are using an unsupported chip on glass",
            ),
            ErrorKind::DisplayPanelBroken => String::from_str(
                "Your panel is broken, please replace it",
            ),
            ErrorKind::DisplayDcFailed => String::from_str(
                "Voltage to low, check if the power supply is working properly and fit for the screen",
            ),
            ErrorKind::DisplayUnknown => String::from_str(
                "An unkown error has occured with the Display",
            ),
            ErrorKind::UnexpectedError(state) => {
                let mut m = String::from_str("An unexpected error has occured: ");
                m.append(state.as_str());
                m
            },
        }
    }
}

} // verus!
