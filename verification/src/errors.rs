//! The failures a run can end in, each a small value that says what went
//! wrong and carries what a report needs.

use crate::text::{decimal, join, joined, push_decimal, text_lists, texts};
use vstd::prelude::*;

verus! {

/// The session names a screen for which the server lists no root window.
#[derive(Debug)]
pub struct NoRootForScreenNumberError {
    pub screen_number: usize,
}

impl NoRootForScreenNumberError {
    pub fn new(screen_number: usize) -> (error: NoRootForScreenNumberError)
        ensures
            error.screen_number == screen_number,
    {
        NoRootForScreenNumberError { screen_number }
    }

    /// What `message` says.
    pub open spec fn text(&self) -> Seq<char> {
        "No root screen for screen number: "@ + decimal(self.screen_number as nat)
    }

    /// The failure in words.
    pub fn message(&self) -> (message: String)
        ensures
            message@ == self.text(),
    {
        let mut message = String::from_str("No root screen for screen number: ");
        push_decimal(&mut message, self.screen_number as u64);
        message
    }
}

/// A display needs a CRTC and every CRTC of the screen is in use.
#[derive(Debug)]
pub struct NoFreeCrtcError {}

impl NoFreeCrtcError {
    pub fn new() -> (error: NoFreeCrtcError)
        ensures
            error == (NoFreeCrtcError {  }),
    {
        NoFreeCrtcError {  }
    }

    /// What `message` says.
    pub open spec fn text(&self) -> Seq<char> {
        "No free Crtc found!"@
    }

    /// The failure in words.
    pub fn message(&self) -> (message: String)
        ensures
            message@ == self.text(),
    {
        String::from_str("No free Crtc found!")
    }
}

/// A quantity could not be turned into a float. No conversion of this
/// library can fail that way, so no value of this type is ever built.
#[derive(Debug)]
pub struct TryIntoF64Error {
    pub name: String,
    pub infallible: std::convert::Infallible,
}

impl TryIntoF64Error {
    pub fn new(name: String, infallible: std::convert::Infallible) -> (error: TryIntoF64Error)
        ensures
            error.name == name,
            error.infallible == infallible,
    {
        TryIntoF64Error { name, infallible }
    }
}

/// None of the modes that an output supports is known to the catalog.
#[derive(Debug)]
pub struct NoModesError {}

impl NoModesError {
    pub fn new() -> (error: NoModesError)
        ensures
            error == (NoModesError {  }),
    {
        NoModesError {  }
    }

    /// What `message` says.
    pub open spec fn text(&self) -> Seq<char> {
        "No modes found!"@
    }

    /// The failure in words.
    pub fn message(&self) -> (message: String)
        ensures
            message@ == self.text(),
    {
        String::from_str("No modes found!")
    }
}

/// The program was started with the wrong number of arguments.
#[derive(Debug)]
pub struct InvalidArgumentsError {
    pub script: String,
}

impl InvalidArgumentsError {
    pub fn new(script: String) -> (error: InvalidArgumentsError)
        ensures
            error.script == script,
    {
        InvalidArgumentsError { script }
    }

    /// What `message` says.
    pub open spec fn text(&self) -> Seq<char> {
        "Usage: "@ + self.script@ + " <config file>"@
    }

    /// The failure in words.
    pub fn message(&self) -> (message: String)
        ensures
            message@ == self.text(),
    {
        let mut message = String::from_str("Usage: ");
        message.append(self.script.as_str());
        message.append(" <config file>");
        message
    }
}

/// The configuration lists no monitor group at all.
#[derive(Debug)]
pub struct NoMonitorGroupsGivenError {
    pub config_file_path: String,
}

impl NoMonitorGroupsGivenError {
    pub fn new(config_file_path: String) -> (error: NoMonitorGroupsGivenError)
        ensures
            error.config_file_path == config_file_path,
    {
        NoMonitorGroupsGivenError { config_file_path }
    }

    /// What `message` says.
    pub open spec fn text(&self) -> Seq<char> {
        "No monitor groups given in config file: "@ + self.config_file_path@
    }

    /// The failure in words.
    pub fn message(&self) -> (message: String)
        ensures
            message@ == self.text(),
    {
        let mut message = String::from_str("No monitor groups given in config file: ");
        message.append(self.config_file_path.as_str());
        message
    }
}

/// No output of the screen carries a usable identity block.
#[derive(Debug)]
pub struct NoMonitorsFoundError {}

impl NoMonitorsFoundError {
    pub fn new() -> (error: NoMonitorsFoundError)
        ensures
            error == (NoMonitorsFoundError {  }),
    {
        NoMonitorsFoundError {  }
    }

    /// What `message` says.
    pub open spec fn text(&self) -> Seq<char> {
        "No monitors found!"@
    }

    /// The failure in words.
    pub fn message(&self) -> (message: String)
        ensures
            message@ == self.text(),
    {
        String::from_str("No monitors found!")
    }
}

/// A display that the run relies on is not there: its identity is not among
/// the discovered ones, or its output is gone from the screen.
#[derive(Debug)]
pub struct MonitorNotFoundError {
    pub edid: String,
}

impl MonitorNotFoundError {
    pub fn new(edid: String) -> (error: MonitorNotFoundError)
        ensures
            error.edid == edid,
    {
        MonitorNotFoundError { edid }
    }

    /// What `message` says.
    pub open spec fn text(&self) -> Seq<char> {
        "Monitor not found for EDID "@ + self.edid@ + "!"@
    }

    /// The failure in words.
    pub fn message(&self) -> (message: String)
        ensures
            message@ == self.text(),
    {
        let mut message = String::from_str("Monitor not found for EDID ");
        message.append(self.edid.as_str());
        message.append("!");
        message
    }
}

/// Formats the cause of a failed conversion with `{:?}`, through
/// `<core::num::TryFromIntError as core::fmt::Debug>::fmt`. Nothing is
/// claimed of the text.
#[verifier::external_body]
pub(crate) fn cause_text(cause: &std::num::TryFromIntError) -> (text: String) {
    format!("{:?}", cause)
}

/// A quantity does not fit the signed 16 bits of a screen position.
#[derive(Debug)]
pub struct TryIntoI16Error {
    pub name: String,
    pub try_from_int_error: std::num::TryFromIntError,
}

impl TryIntoI16Error {
    pub fn new(name: String, try_from_int_error: std::num::TryFromIntError) -> (error:
        TryIntoI16Error)
        ensures
            error.name == name,
            error.try_from_int_error == try_from_int_error,
    {
        TryIntoI16Error { name, try_from_int_error }
    }

    /// What `message` says, given how the cause is written.
    pub open spec fn text(&self, cause: Seq<char>) -> Seq<char> {
        "Failed to tranform "@ + self.name@ + " to i16 and gotted try from int error "@ + cause
            + "!"@
    }

    /// The failure in words. How the cause is written is the standard
    /// library's matter.
    pub fn message(&self) -> (message: String)
        ensures
            exists|cause: Seq<char>| message@ == self.text(cause),
    {
        let cause = cause_text(&self.try_from_int_error);
        let mut message = String::from_str("Failed to tranform ");
        message.append(self.name.as_str());
        message.append(" to i16 and gotted try from int error ");
        message.append(cause.as_str());
        message.append("!");
        assert(message@ == self.text(cause@));
        message
    }
}

/// No configured group has all of its displays connected. Carries, for each
/// discovered display, the lines that describe it.
#[derive(Debug)]
pub struct NoMonitorGroupWithAllMonitorsPresentError {
    pub monitor_infos_for_monitors: Vec<Vec<String>>,
}

impl NoMonitorGroupWithAllMonitorsPresentError {
    pub fn new(monitor_infos_for_monitors: Vec<Vec<String>>) -> (error:
        NoMonitorGroupWithAllMonitorsPresentError)
        ensures
            error.monitor_infos_for_monitors == monitor_infos_for_monitors,
    {
        NoMonitorGroupWithAllMonitorsPresentError { monitor_infos_for_monitors }
    }

    /// What `message` says: the displays that are there, each with its
    /// lines, or that there are none.
    pub open spec fn text(&self) -> Seq<char> {
        let infos = text_lists(self.monitor_infos_for_monitors@);
        "No monitor group with all of it's monitors present found!\n"@ + if infos.len() == 0 {
            "No monitors!"@
        } else {
            "Available monitors:\nMonitor:\n\t"@ + joined(
                infos.map_values(|lines: Seq<Seq<char>>| joined(lines, "\n\t"@)),
                "\nMonitor:\n\t"@,
            )
        }
    }

    /// The failure in words.
    pub fn message(&self) -> (message: String)
        ensures
            message@ == self.text(),
    {
        let ghost infos = text_lists(self.monitor_infos_for_monitors@);
        let ghost blocks_wanted = infos.map_values(
            |lines: Seq<Seq<char>>| joined(lines, "\n\t"@),
        );
        let mut message = String::from_str(
            "No monitor group with all of it's monitors present found!\n",
        );
        if self.monitor_infos_for_monitors.len() == 0 {
            message.append("No monitors!");
        } else {
            message.append("Available monitors:\nMonitor:\n\t");
            let mut blocks: Vec<String> = Vec::new();
            let mut i: usize = 0;
            while i < self.monitor_infos_for_monitors.len()
                invariant
                    i <= self.monitor_infos_for_monitors.len(),
                    infos == text_lists(self.monitor_infos_for_monitors@),
                    blocks_wanted == infos.map_values(
                        |lines: Seq<Seq<char>>| joined(lines, "\n\t"@),
                    ),
                    texts(blocks@) == blocks_wanted.take(i as int),
                decreases self.monitor_infos_for_monitors.len() - i,
            {
                let block = join(&self.monitor_infos_for_monitors[i], "\n\t");
                let ghost so_far = blocks@;
                assert(block@ == blocks_wanted[i as int]);
                blocks.push(block);
                assert(texts(blocks@) =~= texts(so_far).push(block@));
                assert(blocks_wanted.take(i + 1) =~= blocks_wanted.take(i as int).push(
                    blocks_wanted[i as int],
                ));
                i += 1;
            }
            assert(blocks_wanted.take(i as int) =~= blocks_wanted);
            message.append(join(&blocks, "\nMonitor:\n\t").as_str());
        }
        message
    }
}

/// The screen does not list the output that was asked about.
#[derive(Debug)]
pub struct OutputNotFoundError {
    pub output: u32,
}

impl OutputNotFoundError {
    pub fn new(output: u32) -> (error: OutputNotFoundError)
        ensures
            error.output == output,
    {
        OutputNotFoundError { output }
    }

    /// What `message` says.
    pub open spec fn text(&self) -> Seq<char> {
        "Output "@ + decimal(self.output as nat) + " is not on the screen!"@
    }

    /// The failure in words.
    pub fn message(&self) -> (message: String)
        ensures
            message@ == self.text(),
    {
        let mut message = String::from_str("Output ");
        push_decimal(&mut message, self.output as u64);
        message.append(" is not on the screen!");
        message
    }
}

/// The screen does not list the CRTC that was asked about.
#[derive(Debug)]
pub struct CrtcNotFoundError {
    pub crtc: u32,
}

impl CrtcNotFoundError {
    pub fn new(crtc: u32) -> (error: CrtcNotFoundError)
        ensures
            error.crtc == crtc,
    {
        CrtcNotFoundError { crtc }
    }

    /// What `message` says.
    pub open spec fn text(&self) -> Seq<char> {
        "Crtc "@ + decimal(self.crtc as nat) + " is not on the screen!"@
    }

    /// The failure in words.
    pub fn message(&self) -> (message: String)
        ensures
            message@ == self.text(),
    {
        let mut message = String::from_str("Crtc ");
        push_decimal(&mut message, self.crtc as u64);
        message.append(" is not on the screen!");
        message
    }
}

/// An active CRTC drives no output, or several: only a CRTC with one output
/// can be measured.
#[derive(Debug)]
pub struct CrtcDoesNotHaveExactlyOneOutput {
    pub outputs_len: usize,
}

impl CrtcDoesNotHaveExactlyOneOutput {
    pub fn new(outputs_len: usize) -> (error: CrtcDoesNotHaveExactlyOneOutput)
        ensures
            error.outputs_len == outputs_len,
    {
        CrtcDoesNotHaveExactlyOneOutput { outputs_len }
    }

    /// What `message` says.
    pub open spec fn text(&self) -> Seq<char> {
        "Crtc has "@ + decimal(self.outputs_len as nat) + " outputs instead of exactly one!"@
    }

    /// The failure in words.
    pub fn message(&self) -> (message: String)
        ensures
            message@ == self.text(),
    {
        let mut message = String::from_str("Crtc has ");
        push_decimal(&mut message, self.outputs_len as u64);
        message.append(" outputs instead of exactly one!");
        message
    }
}

/// The active CRTCs together are wider than a screen size can say.
#[derive(Debug)]
pub struct ScreenSizeOutOfRangeError {}

impl ScreenSizeOutOfRangeError {
    pub fn new() -> (error: ScreenSizeOutOfRangeError)
        ensures
            error == (ScreenSizeOutOfRangeError {  }),
    {
        ScreenSizeOutOfRangeError {  }
    }

    /// What `message` says.
    pub open spec fn text(&self) -> Seq<char> {
        "Screen size is out of range!"@
    }

    /// The failure in words.
    pub fn message(&self) -> (message: String)
        ensures
            message@ == self.text(),
    {
        String::from_str("Screen size is out of range!")
    }
}

/// The server refused a write.
#[derive(Debug)]
pub struct ApplyRejectedError {}

impl ApplyRejectedError {
    pub fn new() -> (error: ApplyRejectedError)
        ensures
            error == (ApplyRejectedError {  }),
    {
        ApplyRejectedError {  }
    }

    /// What `message` says.
    pub open spec fn text(&self) -> Seq<char> {
        "The server refused a change!"@
    }

    /// The failure in words.
    pub fn message(&self) -> (message: String)
        ensures
            message@ == self.text(),
    {
        String::from_str("The server refused a change!")
    }
}

/// Every way in which arranging the displays can fail.
#[derive(Debug)]
pub enum X11EDIDAutoError {
    NoMonitorGroupsGivenError(NoMonitorGroupsGivenError),
    NoMonitorsFoundError(NoMonitorsFoundError),
    NoMonitorGroupWithAllMonitorsPresentError(NoMonitorGroupWithAllMonitorsPresentError),
    MonitorNotFoundError(MonitorNotFoundError),
    OutputNotFoundError(OutputNotFoundError),
    CrtcNotFoundError(CrtcNotFoundError),
    NoModesError(NoModesError),
    NoFreeCrtcError(NoFreeCrtcError),
    TryIntoI16Error(TryIntoI16Error),
    CrtcDoesNotHaveExactlyOneOutput(CrtcDoesNotHaveExactlyOneOutput),
    ScreenSizeOutOfRangeError(ScreenSizeOutOfRangeError),
    ApplyRejectedError(ApplyRejectedError),
}

impl X11EDIDAutoError {
    /// The line that says what kind of failure this is.
    pub open spec fn heading(&self) -> Seq<char> {
        match *self {
            X11EDIDAutoError::NoMonitorGroupsGivenError(_) => "No monitor groups given error:\n"@,
            X11EDIDAutoError::NoMonitorsFoundError(_) => "No monitors found error:\n"@,
            X11EDIDAutoError::NoMonitorGroupWithAllMonitorsPresentError(_) => {
                "No monitor group with all monitors present error:\n"@
            },
            X11EDIDAutoError::MonitorNotFoundError(_) => "Monitor not found error:\n"@,
            X11EDIDAutoError::OutputNotFoundError(_) => "Output not found error:\n"@,
            X11EDIDAutoError::CrtcNotFoundError(_) => "Crtc not found error:\n"@,
            X11EDIDAutoError::NoModesError(_) => "No modes error:\n"@,
            X11EDIDAutoError::NoFreeCrtcError(_) => "No free Crtc error:\n"@,
            X11EDIDAutoError::TryIntoI16Error(_) => "Try into i16 error:\n"@,
            X11EDIDAutoError::CrtcDoesNotHaveExactlyOneOutput(_) => "Update screen size error:\n"@,
            X11EDIDAutoError::ScreenSizeOutOfRangeError(_) => "Update screen size error:\n"@,
            X11EDIDAutoError::ApplyRejectedError(_) => "Apply rejected error:\n"@,
        }
    }

    /// Whether `body` is what the failure inside says of itself.
    pub open spec fn says(&self, body: Seq<char>) -> bool {
        match *self {
            X11EDIDAutoError::NoMonitorGroupsGivenError(e) => body == e.text(),
            X11EDIDAutoError::NoMonitorsFoundError(e) => body == e.text(),
            X11EDIDAutoError::NoMonitorGroupWithAllMonitorsPresentError(e) => body == e.text(),
            X11EDIDAutoError::MonitorNotFoundError(e) => body == e.text(),
            X11EDIDAutoError::OutputNotFoundError(e) => body == e.text(),
            X11EDIDAutoError::CrtcNotFoundError(e) => body == e.text(),
            X11EDIDAutoError::NoModesError(e) => body == e.text(),
            X11EDIDAutoError::NoFreeCrtcError(e) => body == e.text(),
            X11EDIDAutoError::TryIntoI16Error(e) => exists|cause: Seq<char>| body == e.text(cause),
            X11EDIDAutoError::CrtcDoesNotHaveExactlyOneOutput(e) => body == e.text(),
            X11EDIDAutoError::ScreenSizeOutOfRangeError(e) => body == e.text(),
            X11EDIDAutoError::ApplyRejectedError(e) => body == e.text(),
        }
    }

    /// The failure in words: its heading, then what the failure inside says
    /// of itself.
    pub fn message(&self) -> (message: String)
        ensures
            exists|body: Seq<char>| self.says(body) && message@ == self.heading() + body,
    {
        let (mut message, body) = match self {
            X11EDIDAutoError::NoMonitorGroupsGivenError(e) => (
                String::from_str("No monitor groups given error:\n"),
                e.message(),
            ),
            X11EDIDAutoError::NoMonitorsFoundError(e) => (
                String::from_str("No monitors found error:\n"),
                e.message(),
            ),
            X11EDIDAutoError::NoMonitorGroupWithAllMonitorsPresentError(e) => (
                String::from_str("No monitor group with all monitors present error:\n"),
                e.message(),
            ),
            X11EDIDAutoError::MonitorNotFoundError(e) => (
                String::from_str("Monitor not found error:\n"),
                e.message(),
            ),
            X11EDIDAutoError::OutputNotFoundError(e) => (
                String::from_str("Output not found error:\n"),
                e.message(),
            ),
            X11EDIDAutoError::CrtcNotFoundError(e) => (
                String::from_str("Crtc not found error:\n"),
                e.message(),
            ),
            X11EDIDAutoError::NoModesError(e) => (
                String::from_str("No modes error:\n"),
                e.message(),
            ),
            X11EDIDAutoError::NoFreeCrtcError(e) => (
                String::from_str("No free Crtc error:\n"),
                e.message(),
            ),
            X11EDIDAutoError::TryIntoI16Error(e) => (
                String::from_str("Try into i16 error:\n"),
                e.message(),
            ),
            X11EDIDAutoError::CrtcDoesNotHaveExactlyOneOutput(e) => (
                String::from_str("Update screen size error:\n"),
                e.message(),
            ),
            X11EDIDAutoError::ScreenSizeOutOfRangeError(e) => (
                String::from_str("Update screen size error:\n"),
                e.message(),
            ),
            X11EDIDAutoError::ApplyRejectedError(e) => (
                String::from_str("Apply rejected error:\n"),
                e.message(),
            ),
        };
        assert(self.says(body@));
        message.append(body.as_str());
        message
    }
}

/// What a failure is, with what it carries as plain values.
pub enum Failure {
    NoMonitorGroupsGiven { config_file_path: Seq<char> },
    NoMonitorsFound,
    NoMonitorGroupWithAllMonitorsPresent { monitor_infos_for_monitors: Seq<Seq<Seq<char>>> },
    MonitorNotFound { edid: Seq<char> },
    OutputNotFound { output: u32 },
    CrtcNotFound { crtc: u32 },
    NoModes,
    NoFreeCrtc,
    TryIntoI16 { name: Seq<char> },
    CrtcDoesNotHaveExactlyOneOutput { outputs_len: usize },
    ScreenSizeOutOfRange,
    ApplyRejected,
}

impl View for X11EDIDAutoError {
    type V = Failure;

    open spec fn view(&self) -> Failure {
        match *self {
            X11EDIDAutoError::NoMonitorGroupsGivenError(e) => Failure::NoMonitorGroupsGiven {
                config_file_path: e.config_file_path@,
            },
            X11EDIDAutoError::NoMonitorsFoundError(_) => Failure::NoMonitorsFound,
            X11EDIDAutoError::NoMonitorGroupWithAllMonitorsPresentError(e) => {
                Failure::NoMonitorGroupWithAllMonitorsPresent {
                    monitor_infos_for_monitors: text_lists(e.monitor_infos_for_monitors@),
                }
            },
            X11EDIDAutoError::MonitorNotFoundError(e) => Failure::MonitorNotFound { edid: e.edid@ },
            X11EDIDAutoError::OutputNotFoundError(e) => Failure::OutputNotFound {
                output: e.output,
            },
            X11EDIDAutoError::CrtcNotFoundError(e) => Failure::CrtcNotFound { crtc: e.crtc },
            X11EDIDAutoError::NoModesError(_) => Failure::NoModes,
            X11EDIDAutoError::NoFreeCrtcError(_) => Failure::NoFreeCrtc,
            X11EDIDAutoError::TryIntoI16Error(e) => Failure::TryIntoI16 { name: e.name@ },
            X11EDIDAutoError::CrtcDoesNotHaveExactlyOneOutput(e) => {
                Failure::CrtcDoesNotHaveExactlyOneOutput { outputs_len: e.outputs_len }
            },
            X11EDIDAutoError::ScreenSizeOutOfRangeError(_) => Failure::ScreenSizeOutOfRange,
            X11EDIDAutoError::ApplyRejectedError(_) => Failure::ApplyRejected,
        }
    }
}

} // verus!
