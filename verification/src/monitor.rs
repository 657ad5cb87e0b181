//! A display: an output together with the identity block that was read
//! from it. What it is called, which CRTC drives it and which modes it
//! supports is looked up on the screen each time, since that changes.

use crate::connection::{crtc_at, free_crtc_at, output_at, Screen};
use crate::crtc::{optional_view, write_for, Command, CommandView, Rotation, Setting};
use crate::errors::{Failure, OutputNotFoundError, X11EDIDAutoError};
use crate::mode::{best_mode_of, Mode};
use crate::text::{
    debug_text, decimal, hex, lemma_hex_injective, lemma_hex_len, pow16, push_decimal, push_hex,
    quoted, texts,
};
use vstd::prelude::*;

verus! {

/// The number that two bytes spell, the first being the high one.
pub open spec fn be16(high: u8, low: u8) -> nat {
    (high as nat) * 256 + (low as nat)
}

/// The number that four bytes spell, the first being the highest.
pub open spec fn be32(b0: u8, b1: u8, b2: u8, b3: u8) -> nat {
    (b0 as nat) * 16777216 + (b1 as nat) * 65536 + (b2 as nat) * 256 + (b3 as nat)
}

/// An identity block is usable when it reaches past the serial number.
pub open spec fn has_identity(block: Seq<u8>) -> bool {
    block.len() >= 16
}

/// The manufacturer code of an identity block: bytes 8 and 9.
pub open spec fn manufacturer_of(block: Seq<u8>) -> nat {
    be16(block[8], block[9])
}

/// The product code of an identity block: bytes 10 and 11.
pub open spec fn product_of(block: Seq<u8>) -> nat {
    be16(block[10], block[11])
}

/// The serial number of an identity block: bytes 12 to 15.
pub open spec fn serial_of(block: Seq<u8>) -> nat {
    be32(block[12], block[13], block[14], block[15])
}

/// The identity that a usable block gives: manufacturer, product and serial
/// number in upper-case hexadecimal of 4, 4 and 8 digits, with colons
/// between them.
pub open spec fn identity_of(block: Seq<u8>) -> Seq<char> {
    hex(manufacturer_of(block), 4) + seq![':'] + hex(product_of(block), 4) + seq![':'] + hex(
        serial_of(block),
        8,
    )
}

/// An identity is 18 characters long, with a colon after the fourth and
/// after the ninth.
pub proof fn lemma_identity_shape(block: Seq<u8>)
    ensures
        identity_of(block).len() == 18,
        identity_of(block)[4] == ':',
        identity_of(block)[9] == ':',
{
    lemma_hex_len(manufacturer_of(block), 4);
    lemma_hex_len(product_of(block), 4);
    lemma_hex_len(serial_of(block), 8);
}

/// The three numbers of an identity stand in it at fixed places.
proof fn lemma_identity_parts(block: Seq<u8>)
    ensures
        identity_of(block).subrange(0, 4) == hex(manufacturer_of(block), 4),
        identity_of(block).subrange(5, 9) == hex(product_of(block), 4),
        identity_of(block).subrange(10, 18) == hex(serial_of(block), 8),
{
    lemma_hex_len(manufacturer_of(block), 4);
    lemma_hex_len(product_of(block), 4);
    lemma_hex_len(serial_of(block), 8);
    assert(identity_of(block).subrange(0, 4) =~= hex(manufacturer_of(block), 4));
    assert(identity_of(block).subrange(5, 9) =~= hex(product_of(block), 4));
    assert(identity_of(block).subrange(10, 18) =~= hex(serial_of(block), 8));
}

/// Two bytes spell a number below 16 to the 4th, four bytes one below 16
/// to the 8th.
proof fn lemma_fields_fit(block: Seq<u8>)
    ensures
        manufacturer_of(block) < pow16(4),
        product_of(block) < pow16(4),
        serial_of(block) < pow16(8),
{
    assert(pow16(4) == 65536 && pow16(8) == 4294967296) by {
        reveal_with_fuel(pow16, 9);
    }
}

/// Blocks that agree in the three numbers agree in bytes 8 to 15.
proof fn lemma_fields_give_bytes(a: Seq<u8>, b: Seq<u8>)
    requires
        has_identity(a),
        has_identity(b),
        manufacturer_of(a) == manufacturer_of(b),
        product_of(a) == product_of(b),
        serial_of(a) == serial_of(b),
    ensures
        a.subrange(8, 16) == b.subrange(8, 16),
{
    assert(a[8] == b[8] && a[9] == b[9]);
    assert(a[10] == b[10] && a[11] == b[11]);
    assert(a[12] == b[12] && a[13] == b[13] && a[14] == b[14] && a[15] == b[15]);
    assert(a.subrange(8, 16) =~= b.subrange(8, 16));
}

/// Two usable blocks give the same identity exactly when they agree in
/// manufacturer, product and serial number, that is in bytes 8 to 15.
pub proof fn lemma_same_identity(a: Seq<u8>, b: Seq<u8>)
    requires
        has_identity(a),
        has_identity(b),
    ensures
        identity_of(a) == identity_of(b) <==> a.subrange(8, 16) == b.subrange(8, 16),
{
    if identity_of(a) == identity_of(b) {
        lemma_identity_parts(a);
        lemma_identity_parts(b);
        lemma_fields_fit(a);
        lemma_fields_fit(b);
        lemma_hex_injective(manufacturer_of(a), manufacturer_of(b), 4);
        lemma_hex_injective(product_of(a), product_of(b), 4);
        lemma_hex_injective(serial_of(a), serial_of(b), 8);
        lemma_fields_give_bytes(a, b);
    }
    if a.subrange(8, 16) == b.subrange(8, 16) {
        assert forall|k: int| 8 <= k < 16 implies a[k] == b[k] by {
            assert(a.subrange(8, 16)[k - 8] == a[k]);
            assert(b.subrange(8, 16)[k - 8] == b[k]);
        }
    }
}

/// The lines that describe a display in a report: its identity and its
/// name, both quoted, and the handle of its CRTC.
pub open spec fn info_of(edid: Seq<u8>, name: Seq<char>, crtc: u32) -> Seq<Seq<char>> {
    seq![
        "edid: "@ + debug_text(identity_of(edid)),
        "name: "@ + debug_text(name),
        "crtc: "@ + decimal(crtc as nat),
    ]
}

/// What `mode_info` answers for an output on a screen.
pub open spec fn mode_for(screen: Screen, output: u32) -> Result<Mode, Failure> {
    match output_at(screen.outputs@, output) {
        None => Err(Failure::OutputNotFound { output }),
        Some(i) => match best_mode_of(screen.outputs@[i].modes@, screen.modes@) {
            None => Err(Failure::NoModes),
            Some(mode) => Ok(mode),
        },
    }
}

/// What `enable` answers for an output on a screen: the output is looked
/// up, then its best mode, then its CRTC, which is the one that drives it
/// or, where none does, the first free one; then the write that puts that
/// CRTC at (`x`, 0) with the mode, unrotated, driving this output alone, or
/// nothing where the CRTC is settled.
pub open spec fn enable_for(screen: Screen, output: u32, x: i16) -> Result<
    Option<CommandView>,
    Failure,
> {
    match mode_for(screen, output) {
        Err(failure) => Err(failure),
        Ok(mode) => {
            let crtc_existing = screen.outputs@[output_at(screen.outputs@, output).unwrap()].crtc;
            if crtc_existing == 0 && free_crtc_at(screen.crtcs@) is None {
                Err(Failure::NoFreeCrtc)
            } else {
                let crtc = if crtc_existing == 0 {
                    screen.crtcs@[free_crtc_at(screen.crtcs@).unwrap()].handle
                } else {
                    crtc_existing
                };
                match crtc_at(screen.crtcs@, crtc) {
                    None => Err(Failure::CrtcNotFound { crtc }),
                    Some(k) => Ok(
                        write_for(
                            screen.crtcs@[k]@,
                            Setting {
                                x,
                                y: 0,
                                mode: mode.id,
                                rotation: Rotation::unrotated(),
                                outputs: seq![output],
                            },
                            crtc_existing,
                        ),
                    ),
                }
            }
        },
    }
}

/// What `disable` answers for an output on a screen: nothing where no CRTC
/// drives the output; else the write that switches its CRTC off, or nothing
/// where that CRTC is settled.
pub open spec fn disable_for(screen: Screen, output: u32) -> Result<Option<CommandView>, Failure> {
    match output_at(screen.outputs@, output) {
        None => Err(Failure::OutputNotFound { output }),
        Some(i) => {
            let crtc = screen.outputs@[i].crtc;
            if crtc == 0 {
                Ok(None)
            } else {
                match crtc_at(screen.crtcs@, crtc) {
                    None => Err(Failure::CrtcNotFound { crtc }),
                    Some(k) => Ok(
                        write_for(
                            screen.crtcs@[k]@,
                            Setting {
                                x: 0,
                                y: 0,
                                mode: 0,
                                rotation: Rotation::unrotated(),
                                outputs: Seq::empty(),
                            },
                            crtc,
                        ),
                    ),
                }
            }
        },
    }
}

/// A copy of an identity block.
pub fn copy_block(block: &Vec<u8>) -> (copy: Vec<u8>)
    ensures
        copy@ == block@,
{
    let mut copy: Vec<u8> = Vec::new();
    let mut i: usize = 0;
    while i < block.len()
        invariant
            i <= block.len(),
            copy@ == block@.take(i as int),
        decreases block.len() - i,
    {
        copy.push(block[i]);
        assert(copy@ =~= block@.take(i + 1));
        i += 1;
    }
    assert(block@.take(i as int) =~= block@);
    copy
}

/// A display: an output and the identity block that was read from it.
#[derive(Clone, Debug, PartialEq, Eq)]
pub struct Monitor {
    /// Handle of the output.
    pub output: u32,
    /// The identity block, empty when the display has none.
    pub edid: Vec<u8>,
}

/// A `Monitor` with its identity block as a sequence.
pub struct MonitorView {
    pub output: u32,
    pub edid: Seq<u8>,
}

impl MonitorView {
    /// The identity of the display.
    pub open spec fn identity(self) -> Seq<char> {
        identity_of(self.edid)
    }
}

impl View for Monitor {
    type V = MonitorView;

    open spec fn view(&self) -> MonitorView {
        MonitorView { output: self.output, edid: self.edid@ }
    }
}

/// The views of a list of monitors, in order.
pub open spec fn monitor_views(monitors: Seq<Monitor>) -> Seq<MonitorView> {
    monitors.map_values(|monitor: Monitor| monitor@)
}

impl Monitor {
    /// The monitor on the output with this handle, with the identity block
    /// that the screen holds for it.
    pub fn new(screen: &Screen, output: u32) -> (monitor: Result<Monitor, OutputNotFoundError>)
        ensures
            match output_at(screen.outputs@, output) {
                Some(i) => monitor matches Ok(found) && found.output == output && found.edid@
                    == screen.outputs@[i].edid@,
                None => monitor matches Err(error) && error.output == output,
            },
    {
        match screen.get_output_info(output) {
            Ok(info) => Ok(Monitor { output, edid: copy_block(&info.edid) }),
            Err(error) => Err(error),
        }
    }

    /// Whether the display has an identity: a block of at least 16 bytes.
    pub fn has_edid(&self) -> (has: bool)
        ensures
            has == has_identity(self.edid@),
    {
        self.edid.len() >= 16
    }

    /// The manufacturer code.
    pub fn manufacturer_id(&self) -> (id: u16)
        requires
            has_identity(self.edid@),
        ensures
            id == manufacturer_of(self.edid@),
    {
        (self.edid[8] as u16) * 256 + (self.edid[9] as u16)
    }

    /// The product code.
    pub fn product_code(&self) -> (code: u16)
        requires
            has_identity(self.edid@),
        ensures
            code == product_of(self.edid@),
    {
        (self.edid[10] as u16) * 256 + (self.edid[11] as u16)
    }

    /// The serial number.
    pub fn serial_number(&self) -> (serial: u32)
        requires
            has_identity(self.edid@),
        ensures
            serial == serial_of(self.edid@),
    {
        (self.edid[12] as u32) * 16777216 + (self.edid[13] as u32) * 65536 + (self.edid[14] as u32)
            * 256 + (self.edid[15] as u32)
    }

    /// The identity of the display as text.
    pub fn monitor_id(&self) -> (id: String)
        requires
            has_identity(self.edid@),
        ensures
            id@ == identity_of(self.edid@),
    {
        proof {
            reveal_strlit(":");
        }
        let mut id = String::new();
        push_hex(&mut id, self.manufacturer_id() as u32, 4);
        id.append(":");
        push_hex(&mut id, self.product_code() as u32, 4);
        id.append(":");
        push_hex(&mut id, self.serial_number(), 8);
        assert(":"@ =~= seq![':']);
        assert(id@ =~= identity_of(self.edid@));
        id
    }

    /// The identity of the display, or nothing when its block is too short
    /// to hold one.
    pub fn identity(&self) -> (id: Option<String>)
        ensures
            id is Some <==> has_identity(self.edid@),
            id matches Some(text) ==> text@ == identity_of(self.edid@),
    {
        if self.has_edid() {
            Some(self.monitor_id())
        } else {
            None
        }
    }

    /// The name of the output, as the screen has it.
    pub fn name(&self, screen: &Screen) -> (name: Result<String, OutputNotFoundError>)
        ensures
            match output_at(screen.outputs@, self.output) {
                Some(i) => name matches Ok(text) && text@ == screen.outputs@[i].name@,
                None => name matches Err(error) && error.output == self.output,
            },
    {
        match screen.get_output_info(self.output) {
            Ok(info) => Ok(info.name.clone()),
            Err(error) => Err(error),
        }
    }

    /// The handle of the CRTC that drives the output, zero when none does.
    pub fn crtc(&self, screen: &Screen) -> (crtc: Result<u32, OutputNotFoundError>)
        ensures
            match output_at(screen.outputs@, self.output) {
                Some(i) => crtc == Ok::<u32, OutputNotFoundError>(screen.outputs@[i].crtc),
                None => crtc matches Err(error) && error.output == self.output,
            },
    {
        match screen.get_output_info(self.output) {
            Ok(info) => Ok(info.crtc),
            Err(error) => Err(error),
        }
    }

    /// The lines that describe the display in a report.
    pub fn monitor_info(&self, screen: &Screen) -> (info: Result<Vec<String>, OutputNotFoundError>)
        requires
            has_identity(self.edid@),
        ensures
            match output_at(screen.outputs@, self.output) {
                Some(i) => info matches Ok(lines) && texts(lines@)
                    == info_of(self.edid@, screen.outputs@[i].name@, screen.outputs@[i].crtc),
                None => info matches Err(error) && error.output == self.output,
            },
    {
        let output = match screen.get_output_info(self.output) {
            Ok(output) => output,
            Err(error) => {
                return Err(error);
            },
        };
        let id = self.monitor_id();
        let mut edid_line = String::from_str("edid: ");
        edid_line.append(quoted(id.as_str()).as_str());
        let mut name_line = String::from_str("name: ");
        name_line.append(quoted(output.name.as_str()).as_str());
        let mut crtc_line = String::from_str("crtc: ");
        push_decimal(&mut crtc_line, output.crtc as u64);
        let mut lines: Vec<String> = Vec::new();
        lines.push(edid_line);
        lines.push(name_line);
        lines.push(crtc_line);
        assert(texts(lines@) =~= info_of(
            self.edid@,
            output.name@,
            output.crtc,
        ));
        Ok(lines)
    }

    /// The best mode of the output: see `ModeCatalog::best_mode`.
    pub fn mode_info(&self, screen: &Screen) -> (mode: Result<Mode, X11EDIDAutoError>)
        ensures
            match mode_for(*screen, self.output) {
                Ok(best) => mode matches Ok(found) && found == best,
                Err(failure) => mode matches Err(error) && error@ == failure,
            },
    {
        let info = match screen.get_output_info(self.output) {
            Ok(info) => info,
            Err(error) => {
                return Err(X11EDIDAutoError::OutputNotFoundError(error));
            },
        };
        match screen.modes.best_mode(&info.modes) {
            Ok(mode) => Ok(mode),
            Err(error) => Err(X11EDIDAutoError::NoModesError(error)),
        }
    }

    /// Decides what to write so that the display shows its best mode at
    /// (`x`, 0): see `enable_for`.
    pub fn enable(&self, screen: &Screen, x: i16) -> (command: Result<
        Option<Command>,
        X11EDIDAutoError,
    >)
        ensures
            match enable_for(*screen, self.output, x) {
                Ok(write) => command matches Ok(given) && optional_view(given) == write,
                Err(failure) => command matches Err(error) && error@ == failure,
            },
    {
        let mode = match self.mode_info(screen) {
            Ok(mode) => mode,
            Err(error) => {
                return Err(error);
            },
        };
        let crtc_existing = match self.crtc(screen) {
            Ok(crtc) => crtc,
            Err(error) => {
                return Err(X11EDIDAutoError::OutputNotFoundError(error));
            },
        };
        let crtc = if crtc_existing == 0 {
            match screen.get_free_crtc() {
                Ok(crtc) => crtc,
                Err(error) => {
                    return Err(X11EDIDAutoError::NoFreeCrtcError(error));
                },
            }
        } else {
            crtc_existing
        };
        let mut outputs: Vec<u32> = Vec::new();
        outputs.push(self.output);
        assert(outputs@ =~= seq![self.output]);
        match screen.set_crtc_config(
            crtc,
            x,
            0,
            mode.id,
            Rotation::rotate0(),
            &outputs,
            crtc_existing,
        ) {
            Ok(command) => Ok(command),
            Err(error) => Err(X11EDIDAutoError::CrtcNotFoundError(error)),
        }
    }

    /// Decides what to write so that the display is switched off: see
    /// `disable_for`.
    pub fn disable(&self, screen: &Screen) -> (command: Result<Option<Command>, X11EDIDAutoError>)
        ensures
            match disable_for(*screen, self.output) {
                Ok(write) => command matches Ok(given) && optional_view(given) == write,
                Err(failure) => command matches Err(error) && error@ == failure,
            },
    {
        let crtc = match self.crtc(screen) {
            Ok(crtc) => crtc,
            Err(error) => {
                return Err(X11EDIDAutoError::OutputNotFoundError(error));
            },
        };
        if crtc == 0 {
            return Ok(None);
        }
        let outputs: Vec<u32> = Vec::new();
        match screen.set_crtc_config(crtc, 0, 0, 0, Rotation::rotate0(), &outputs, crtc) {
            Ok(command) => Ok(command),
            Err(error) => Err(X11EDIDAutoError::CrtcNotFoundError(error)),
        }
    }

    /// The command that makes the output of the display the primary one.
    pub fn set_primary(&self) -> (command: Command)
        ensures
            command@ == (CommandView::SetOutputPrimary { output: self.output }),
    {
        Command::SetOutputPrimary { output: self.output }
    }
}

} // verus!
