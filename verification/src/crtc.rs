//! CRTCs as the server reports them, the commands that change the screen,
//! and the rule that decides whether a CRTC has to be written at all.

use vstd::prelude::*;

verus! {

/// The rotation word of a CRTC as the server holds it: one of four turns,
/// possibly combined with reflections. This library only ever asks for
/// the unrotated word; any other value is compared and passed on as it is.
#[derive(Clone, Copy, Debug, PartialEq, Eq, Structural)]
pub struct Rotation {
    pub bits: u16,
}

impl Rotation {
    /// The rotation word for "not rotated, not reflected".
    pub open spec fn unrotated() -> Rotation {
        Rotation { bits: 1 }
    }

    /// The rotation word for "not rotated, not reflected".
    pub fn rotate0() -> (rotation: Rotation)
        ensures
            rotation == Rotation::unrotated(),
    {
        Rotation { bits: rotate0_bits() }
    }
}

/// The bits of `x11rb::protocol::randr::Rotation::ROTATE0`, taken out with
/// `u16::from`. The protocol crate defines the constant as the lowest bit
/// alone and the conversion as handing out the bits unchanged, so the
/// result is taken to be 1.
#[verifier::external_body]
fn rotate0_bits() -> (bits: u16)
    ensures
        bits == 1,
{
    u16::from(x11rb::protocol::randr::Rotation::ROTATE0)
}

/// A CRTC as the server reports it at one moment.
#[derive(Clone, Debug, PartialEq, Eq)]
pub struct Crtc {
    /// Handle of the CRTC. Zero is reserved for "none".
    pub handle: u32,
    /// Horizontal position of the CRTC on the screen.
    pub x: i16,
    /// Vertical position of the CRTC on the screen.
    pub y: i16,
    /// Width in pixels of what the CRTC scans out.
    pub width: u16,
    /// Height in pixels of what the CRTC scans out.
    pub height: u16,
    /// Id of the mode the CRTC runs, zero when it is not in use.
    pub mode: u32,
    pub rotation: Rotation,
    /// Handles of the outputs the CRTC drives.
    pub outputs: Vec<u32>,
    /// The server's stamp of this configuration. A write has to name it.
    pub timestamp: u32,
}

/// A `Crtc` with its outputs as a sequence.
pub struct CrtcView {
    pub handle: u32,
    pub x: i16,
    pub y: i16,
    pub width: u16,
    pub height: u16,
    pub mode: u32,
    pub rotation: Rotation,
    pub outputs: Seq<u32>,
    pub timestamp: u32,
}

impl View for Crtc {
    type V = CrtcView;

    open spec fn view(&self) -> CrtcView {
        CrtcView {
            handle: self.handle,
            x: self.x,
            y: self.y,
            width: self.width,
            height: self.height,
            mode: self.mode,
            rotation: self.rotation,
            outputs: self.outputs@,
            timestamp: self.timestamp,
        }
    }
}

/// What is asked of a CRTC: where it stands, which mode it runs, how it is
/// rotated and which outputs it drives.
pub struct Setting {
    pub x: i16,
    pub y: i16,
    pub mode: u32,
    pub rotation: Rotation,
    pub outputs: Seq<u32>,
}

impl Setting {
    /// The setting that switches a CRTC off.
    pub open spec fn disabling(self) -> bool {
        self.x == 0 && self.y == 0 && self.mode == 0 && self.outputs.len() == 0
    }
}

impl CrtcView {
    /// A CRTC that runs no mode is free.
    pub open spec fn is_free(self) -> bool {
        self.handle != 0 && self.mode == 0
    }

    /// The CRTC already is as `setting` asks.
    pub open spec fn matches_setting(self, setting: Setting) -> bool {
        &&& self.x == setting.x
        &&& self.y == setting.y
        &&& self.mode == setting.mode
        &&& self.rotation == setting.rotation
        &&& self.outputs == setting.outputs
    }

    /// Nothing has to be written: the CRTC is the one that was bound before
    /// and is as the setting asks, or the setting switches the CRTC off and
    /// it runs no mode anyway.
    pub open spec fn is_settled(self, setting: Setting, crtc_existing: u32) -> bool {
        ||| self.handle == crtc_existing && self.matches_setting(setting)
        ||| setting.disabling() && self.mode == 0
    }
}

/// A change to carry out on the server.
#[derive(Clone, Debug, PartialEq, Eq)]
pub enum Command {
    /// Configure a CRTC. `config_timestamp` is the stamp of the state that
    /// was read; the server refuses the write if the state changed since.
    SetCrtcConfig {
        crtc: u32,
        config_timestamp: u32,
        x: i16,
        y: i16,
        mode: u32,
        rotation: Rotation,
        outputs: Vec<u32>,
    },
    /// Make an output the primary one.
    SetOutputPrimary { output: u32 },
    /// Set the size of the screen, in pixels and in millimetres.
    SetScreenSize { width: u16, height: u16, mm_width: u32, mm_height: u32 },
}

/// A `Command` with its outputs as a sequence.
pub enum CommandView {
    SetCrtcConfig { crtc: u32, config_timestamp: u32, setting: Setting },
    SetOutputPrimary { output: u32 },
    SetScreenSize { width: u16, height: u16, mm_width: u32, mm_height: u32 },
}

impl View for Command {
    type V = CommandView;

    open spec fn view(&self) -> CommandView {
        match *self {
            Command::SetCrtcConfig { crtc, config_timestamp, x, y, mode, rotation, outputs } => {
                CommandView::SetCrtcConfig {
                    crtc,
                    config_timestamp,
                    setting: Setting { x, y, mode, rotation, outputs: outputs@ },
                }
            },
            Command::SetOutputPrimary { output } => CommandView::SetOutputPrimary { output },
            Command::SetScreenSize { width, height, mm_width, mm_height } => {
                CommandView::SetScreenSize { width, height, mm_width, mm_height }
            },
        }
    }
}

/// The view of a command that may be absent.
pub open spec fn optional_view(command: Option<Command>) -> Option<CommandView> {
    match command {
        Some(command) => Some(command@),
        None => None,
    }
}

/// The views of a list of commands, in order.
pub open spec fn command_views(commands: Seq<Command>) -> Seq<CommandView> {
    commands.map_values(|command: Command| command@)
}

/// The write that brings `live` to `setting`, or nothing when `live` is
/// settled.
pub open spec fn write_for(live: CrtcView, setting: Setting, crtc_existing: u32) -> Option<
    CommandView,
> {
    if live.is_settled(setting, crtc_existing) {
        None
    } else {
        Some(
            CommandView::SetCrtcConfig {
                crtc: live.handle,
                config_timestamp: live.timestamp,
                setting,
            },
        )
    }
}

/// Whether the two lists hold the same handles in the same order.
pub fn same_handles(a: &Vec<u32>, b: &Vec<u32>) -> (same: bool)
    ensures
        same == (a@ == b@),
{
    if a.len() != b.len() {
        return false;
    }
    let mut i: usize = 0;
    while i < a.len()
        invariant
            i <= a.len(),
            a.len() == b.len(),
            forall|j: int| 0 <= j < i ==> a@[j] == b@[j],
        decreases a.len() - i,
    {
        if a[i] != b[i] {
            return false;
        }
        i += 1;
    }
    assert(a@ =~= b@);
    true
}

/// A copy of a list of handles.
pub fn copy_handles(handles: &Vec<u32>) -> (copy: Vec<u32>)
    ensures
        copy@ == handles@,
{
    let mut copy: Vec<u32> = Vec::new();
    let mut i: usize = 0;
    while i < handles.len()
        invariant
            i <= handles.len(),
            copy@ == handles@.take(i as int),
        decreases handles.len() - i,
    {
        copy.push(handles[i]);
        assert(copy@ =~= handles@.take(i + 1));
        i += 1;
    }
    assert(handles@.take(i as int) =~= handles@);
    copy
}

impl Crtc {
    /// Decides what to write so that this CRTC, read from the server a
    /// moment ago, stands at (`x`, `y`) with `mode`, `rotation` and
    /// `outputs`. `crtc_existing` is the CRTC that the output was bound to
    /// before. Returns nothing when the CRTC is settled, else the one write,
    /// which names the stamp that was read.
    pub fn set_crtc_config(
        &self,
        x: i16,
        y: i16,
        mode: u32,
        rotation: Rotation,
        outputs: &Vec<u32>,
        crtc_existing: u32,
    ) -> (command: Option<Command>)
        ensures
            optional_view(command) == write_for(
                self@,
                Setting { x, y, mode, rotation, outputs: outputs@ },
                crtc_existing,
            ),
    {
        let as_asked = self.x == x && self.y == y && self.mode == mode && self.rotation == rotation
            && same_handles(&self.outputs, outputs);
        let off_already = x == 0 && y == 0 && mode == 0 && outputs.len() == 0 && self.mode == 0;
        if (self.handle == crtc_existing && as_asked) || off_already {
            None
        } else {
            Some(
                Command::SetCrtcConfig {
                    crtc: self.handle,
                    config_timestamp: self.timestamp,
                    x,
                    y,
                    mode,
                    rotation,
                    outputs: copy_handles(outputs),
                },
            )
        }
    }
}

/// Asking twice for the same setting of a CRTC writes at most once: a
/// write carries the setting as it was asked, and once the server has
/// taken it, so that the CRTC is as the setting asks, a second request with
/// the same values writes nothing, whatever size and stamp the server gave
/// the CRTC. This is so where the CRTC is the one that was bound before;
/// another CRTC is written each time.
pub proof fn lemma_second_apply_is_no_op(
    live: CrtcView,
    after: CrtcView,
    setting: Setting,
    crtc_existing: u32,
)
    requires
        crtc_existing == live.handle,
        after.handle == live.handle,
        after.matches_setting(setting),
    ensures
        write_for(live, setting, crtc_existing) matches Some(write) ==> write
            == (CommandView::SetCrtcConfig {
            crtc: live.handle,
            config_timestamp: live.timestamp,
            setting,
        }),
        write_for(after, setting, crtc_existing) is None,
{
}

} // verus!
