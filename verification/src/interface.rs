use vstd::prelude::*;
use vstd::string::StringExecFns;

use crate::errors::{Error, ErrorKind};
use crate::text::str_eq;

verus! {

broadcast use vstd::string::group_string_axioms;

/// A command byte to be written to the driver's command file.  The
/// embedding program performs the write; the path and the payload are
/// computed here.
pub struct CommandRequest {
    pub path: String,
    pub command: String,
}

/// A display buffer to be written to the driver's display file.
pub struct DataRequest {
    pub path: String,
    pub data: Vec<u8>,
}

/// A driver file to be read back by the embedding program.
pub struct ReadRequest {
    pub path: String,
}

/// A handle on a Papirus panel, identified by the directory of its
/// driver's control files.
pub struct PapirusDisplay {
    interface: String,
}

impl View for PapirusDisplay {
    type V = Seq<char>;

    closed spec fn view(&self) -> Seq<char> {
        self.interface@
    }
}

impl PapirusDisplay {
    /// A display driven through the control files under display_path.
    pub fn new(display_path: &str) -> (d: PapirusDisplay)
        ensures
            d@ == display_path@,
    {
        PapirusDisplay { interface: String::from_str(display_path) }
    }

    /// A full refresh of the panel: the command "U".
    pub fn full_update(&self) -> (r: CommandRequest)
        ensures
            r.path@ == self@ + "/command"@,
            r.command@ == "U"@,
    {
        self.execute_command("U")
    }

    /// A partial refresh of the panel: the command "P".
    pub fn partial_update(&self) -> (r: CommandRequest)
        ensures
            r.path@ == self@ + "/command"@,
            r.command@ == "P"@,
    {
        self.execute_command("P")
    }

    /// A fast refresh of the panel: the command "F".
    pub fn fast_update(&self) -> (r: CommandRequest)
        ensures
            r.path@ == self@ + "/command"@,
            r.command@ == "F"@,
    {
        self.execute_command("F")
    }

    /// Clear the panel: the command "C".
    pub fn clear(&self) -> (r: CommandRequest)
        ensures
            r.path@ == self@ + "/command"@,
            r.command@ == "C"@,
    {
        self.execute_command("C")
    }

    /// The write that sends the given command to the driver's command
    /// file.
    pub fn execute_command(&self, command: &str) -> (r: CommandRequest)
        ensures
            r.path@ == self@ + "/command"@,
            r.command@ == command@,
    {
        let mut path = self.interface.clone();
        path.append("/command");
        CommandRequest { path, command: String::from_str(command) }
    }

    /// The write that sends a packed display buffer to the driver's
    /// display file.
    pub fn write_data(&self, data: Vec<u8>) -> (r: DataRequest)
        ensures
            r.path@ == self@ + "/BE/display"@,
            r.data@ == data@,
    {
        let mut path = self.interface.clone();
        path.append("/BE/display");
        DataRequest { path, data }
    }

    /// The path of one of the driver's files.
    pub fn read_from_interface(&self, interface: &str) -> (r: ReadRequest)
        ensures
            r.path@ == self@ + "/"@ + interface@,
    {
        let mut path = self.interface.clone();
        path.append("/");
        path.append(interface);
        ReadRequest { path }
    }

    /// The read that yields the driver's version string.
    pub fn get_version(&self) -> (r: ReadRequest)
        ensures
            r.path@ == self@ + "/version"@,
    {
        let r = self.read_from_interface("version");
        proof {
            reveal_strlit("/");
            reveal_strlit("version");
            reveal_strlit("/version");
            assert(self@ + "/"@ + "version"@ =~= self@ + "/version"@);
        }
        r
    }

    /// The read that yields the panel's current display buffer.
    pub fn get_current_display(self) -> (r: ReadRequest)
        ensures
            r.path@ == self@ + "/current"@,
    {
        let r = self.read_from_interface("current");
        proof {
            reveal_strlit("/");
            reveal_strlit("current");
            reveal_strlit("/current");
            assert(self@ + "/"@ + "current"@ =~= self@ + "/current"@);
        }
        r
    }

    /// Interpret the state string read back from the driver's error file.
    /// "Ok" is the only healthy state; every other state maps to the
    /// matching display error, and an unrecognized state is carried in an
    /// unexpected-error value verbatim.
    pub fn get_display_state(self, state: &str) -> (r: Result<String, Error>)
        ensures
            r is Ok <==> state@ == "Ok"@,
            r matches Ok(s) ==> s@ == "Ok"@,
            state@ == "Unsupported COG"@ ==> (r matches Err(e) && e.kind_spec()
                matches ErrorKind::DisplayUnsupportedCog),
            state@ == "Panel broken"@ ==> (r matches Err(e) && e.kind_spec()
                matches ErrorKind::DisplayPanelBroken),
            state@ == "DC Failed"@ ==> (r matches Err(e) && e.kind_spec()
                matches ErrorKind::DisplayDcFailed),
            state@ == "Unknown"@ ==> (r matches Err(e) && e.kind_spec()
                matches ErrorKind::DisplayUnknown),
            state@ != "Ok"@ && state@ != "Unsupported COG"@ && state@ != "Panel broken"@ && state@
                != "DC Failed"@ && state@ != "Unknown"@ ==> (r matches Err(e) && e.kind_spec()
                matches ErrorKind::UnexpectedError(m) && m@ == state@),
    {
        proof {
            reveal_strlit("Ok");
            reveal_strlit("Unsupported COG");
            reveal_strlit("Panel broken");
            reveal_strlit("DC Failed");
            reveal_strlit("Unknown");
            // the five recognized states all have different lengths
            assert("Ok"@.len() == 2);
            assert("Unsupported COG"@.len() == 15);
            assert("Panel broken"@.len() == 12);
            assert("DC Failed"@.len() == 9);
            assert("Unknown"@.len() == 7);
        }
        if str_eq(state, "Ok") {
            Ok(String::from_str("Ok"))
        } else if str_eq(state, "Unsupported COG") {
            Err(Error::new(ErrorKind::DisplayUnsupportedCog))
        } else if str_eq(state, "Panel broken") {
            Err(Error::new(ErrorKind::DisplayPanelBroken))
        } else if str_eq(state, "DC Failed") {
            Err(Error::new(ErrorKind::DisplayDcFailed))
        } else if str_eq(state, "Unknown") {
            Err(Error::new(ErrorKind::DisplayUnknown))
        } else {
            Err(Error::new(ErrorKind::UnexpectedError(String::from_str(state))))
        }
    }
}

impl Default for PapirusDisplay {
    /// The conventional mount point of the Papirus driver.
    fn default() -> (d: PapirusDisplay)
        ensures
            d@ == "/dev/epd"@,
    {
        PapirusDisplay { interface: String::from_str("/dev/epd") }
    }
}

} // verus!
