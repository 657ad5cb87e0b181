//! The screen as it was read from the server at one moment, and what can be
//! decided from it: which CRTC is free, whether a CRTC has to be written,
//! and how large the screen has to be.

use crate::crtc::{optional_view, write_for, Command, CommandView, Crtc, Rotation, Setting};
use crate::errors::{
    CrtcDoesNotHaveExactlyOneOutput, CrtcNotFoundError, Failure, NoFreeCrtcError,
    NoRootForScreenNumberError, OutputNotFoundError, ScreenSizeOutOfRangeError, X11EDIDAutoError,
};
use crate::mode::ModeCatalog;
use crate::search::{first_where, is_first_where, lemma_first_where_is, lemma_first_where_none};
use vstd::prelude::*;

verus! {

/// What the server says of one output.
#[derive(Clone, Debug, PartialEq, Eq)]
pub struct Output {
    /// Handle of the output.
    pub handle: u32,
    /// The identity block of the display on the output, empty when the
    /// output has none.
    pub edid: Vec<u8>,
    /// Name of the output.
    pub name: String,
    /// Handle of the CRTC that drives the output, zero when none does.
    pub crtc: u32,
    /// Ids of the modes that the output supports, in the server's order.
    pub modes: Vec<u32>,
    /// Physical width of the display in millimetres.
    pub mm_width: u32,
    /// Physical height of the display in millimetres.
    pub mm_height: u32,
}

/// The screen at one moment: the catalog of its modes, which is made once
/// for a session, and its outputs and CRTCs, in the server's order, which
/// are read anew whenever the screen may have changed.
#[derive(Clone, Debug)]
pub struct Screen {
    pub modes: ModeCatalog,
    pub outputs: Vec<Output>,
    pub crtcs: Vec<Crtc>,
}

/// Where the output with this handle stands in the list, if it is there.
pub open spec fn output_at(outputs: Seq<Output>, output: u32) -> Option<int> {
    first_where(outputs, |o: Output| o.handle == output)
}

/// Where the CRTC with this handle stands in the list, if it is there.
pub open spec fn crtc_at(crtcs: Seq<Crtc>, crtc: u32) -> Option<int> {
    first_where(crtcs, |c: Crtc| c.handle == crtc)
}

/// Where the first free CRTC stands in the list, if there is one.
pub open spec fn free_crtc_at(crtcs: Seq<Crtc>) -> Option<int> {
    first_where(crtcs, |c: Crtc| c@.is_free())
}

/// An output that is in the list is found by its handle.
pub proof fn lemma_output_is_listed(outputs: Seq<Output>, i: int)
    requires
        0 <= i < outputs.len(),
    ensures
        output_at(outputs, outputs[i].handle) is Some,
{
    let wanted = |o: Output| o.handle == outputs[i].handle;
    assert(wanted(outputs[i]));
}

/// What keeps an active CRTC from being measured: it does not drive exactly
/// one output, or the screen does not list that output. An inactive CRTC is
/// not measured and has no defect.
pub open spec fn defect_of(outputs: Seq<Output>, crtc: Crtc) -> Option<Failure> {
    if crtc.mode == 0 {
        None
    } else if crtc.outputs@.len() != 1 {
        Some(Failure::CrtcDoesNotHaveExactlyOneOutput { outputs_len: crtc.outputs@.len() as usize })
    } else if output_at(outputs, crtc.outputs@[0]) is None {
        Some(Failure::OutputNotFound { output: crtc.outputs@[0] })
    } else {
        None
    }
}

/// Where the first CRTC with a defect stands in the list, if there is one.
pub open spec fn defect_at(outputs: Seq<Output>, crtcs: Seq<Crtc>) -> Option<int> {
    first_where(crtcs, |c: Crtc| defect_of(outputs, c) is Some)
}

/// The size of a screen, in pixels and in millimetres.
pub struct Measure {
    pub width: int,
    pub height: int,
    pub mm_width: int,
    pub mm_height: int,
}

/// The size that the active ones among the first `n` CRTCs need when they
/// stand side by side: widths added up, heights at their maximum; in pixels
/// as the CRTCs say, in millimetres as the one output of each says.
pub open spec fn measured(outputs: Seq<Output>, crtcs: Seq<Crtc>, n: int) -> Measure
    decreases n,
{
    if n <= 0 {
        Measure { width: 0, height: 0, mm_width: 0, mm_height: 0 }
    } else {
        let before = measured(outputs, crtcs, n - 1);
        let crtc = crtcs[n - 1];
        if crtc.mode == 0 {
            before
        } else {
            let output = outputs[output_at(outputs, crtc.outputs@[0]).unwrap()];
            Measure {
                width: before.width + crtc.width,
                height: if crtc.height > before.height {
                    crtc.height as int
                } else {
                    before.height
                },
                mm_width: before.mm_width + output.mm_width,
                mm_height: if output.mm_height > before.mm_height {
                    output.mm_height as int
                } else {
                    before.mm_height
                },
            }
        }
    }
}

/// What `update_screen_size` answers: the failure of the first CRTC with a
/// defect; else, where the widths add up beyond what a screen size can say,
/// that; else the command that sets the measured size.
pub open spec fn screen_size_for(outputs: Seq<Output>, crtcs: Seq<Crtc>) -> Result<
    CommandView,
    Failure,
> {
    let size = measured(outputs, crtcs, crtcs.len() as int);
    match defect_at(outputs, crtcs) {
        Some(i) => Err(defect_of(outputs, crtcs[i]).unwrap()),
        None => if size.width > u16::MAX || size.mm_width > u32::MAX {
            Err(Failure::ScreenSizeOutOfRange)
        } else {
            Ok(
                CommandView::SetScreenSize {
                    width: size.width as u16,
                    height: size.height as u16,
                    mm_width: size.mm_width as u32,
                    mm_height: size.mm_height as u32,
                },
            )
        },
    }
}

/// The measure only grows along the list, and no height exceeds what a
/// single CRTC or output can have.
pub proof fn lemma_measured_grows(outputs: Seq<Output>, crtcs: Seq<Crtc>, n: int, m: int)
    requires
        0 <= n <= m,
    ensures
        0 <= measured(outputs, crtcs, n).width <= measured(outputs, crtcs, m).width,
        0 <= measured(outputs, crtcs, n).mm_width <= measured(outputs, crtcs, m).mm_width,
        0 <= measured(outputs, crtcs, n).height <= u16::MAX,
        0 <= measured(outputs, crtcs, n).mm_height <= u32::MAX,
    decreases m,
{
    if n < m {
        lemma_measured_grows(outputs, crtcs, n, m - 1);
    } else if n > 0 {
        lemma_measured_grows(outputs, crtcs, n - 1, n - 1);
    }
}

/// The measured heights are the largest among the active CRTCs and their
/// outputs: none is higher, and unless the measure is zero one reaches it.
pub proof fn lemma_measured_heights(outputs: Seq<Output>, crtcs: Seq<Crtc>, n: int)
    requires
        0 <= n <= crtcs.len(),
    ensures
        forall|i: int|
            0 <= i < n && (#[trigger] crtcs[i]).mode != 0 ==> {
                &&& crtcs[i].height <= measured(outputs, crtcs, n).height
                &&& outputs[output_at(outputs, crtcs[i].outputs@[0]).unwrap()].mm_height
                    <= measured(outputs, crtcs, n).mm_height
            },
        measured(outputs, crtcs, n).height == 0 || exists|i: int|
            0 <= i < n && (#[trigger] crtcs[i]).mode != 0 && crtcs[i].height == measured(
                outputs,
                crtcs,
                n,
            ).height,
        measured(outputs, crtcs, n).mm_height == 0 || exists|i: int|
            0 <= i < n && (#[trigger] crtcs[i]).mode != 0 && outputs[output_at(
                outputs,
                crtcs[i].outputs@[0],
            ).unwrap()].mm_height == measured(outputs, crtcs, n).mm_height,
    decreases n,
{
    if n > 0 {
        lemma_measured_heights(outputs, crtcs, n - 1);
        let before = measured(outputs, crtcs, n - 1);
        let now = measured(outputs, crtcs, n);
        if now.height != 0 {
            if now.height == before.height {
                let i = choose|i: int|
                    0 <= i < n - 1 && (#[trigger] crtcs[i]).mode != 0 && crtcs[i].height
                        == before.height;
                assert(crtcs[i].mode != 0 && crtcs[i].height == now.height);
            } else {
                assert(crtcs[n - 1].mode != 0 && crtcs[n - 1].height == now.height);
            }
        }
        if now.mm_height != 0 {
            if now.mm_height == before.mm_height {
                let i = choose|i: int|
                    0 <= i < n - 1 && (#[trigger] crtcs[i]).mode != 0 && outputs[output_at(
                        outputs,
                        crtcs[i].outputs@[0],
                    ).unwrap()].mm_height == before.mm_height;
                assert(crtcs[i].mode != 0 && outputs[output_at(
                    outputs,
                    crtcs[i].outputs@[0],
                ).unwrap()].mm_height == now.mm_height);
            } else {
                assert(crtcs[n - 1].mode != 0 && outputs[output_at(
                    outputs,
                    crtcs[n - 1].outputs@[0],
                ).unwrap()].mm_height == now.mm_height);
            }
        }
    }
}

/// The root window of the screen with this number: `roots` holds the root
/// of each screen of the server, in order.
pub fn window_root(roots: &Vec<u32>, screen_number: usize) -> (root: Result<
    u32,
    NoRootForScreenNumberError,
>)
    ensures
        screen_number < roots.len() ==> root == Ok::<u32, NoRootForScreenNumberError>(
            roots@[screen_number as int],
        ),
        screen_number >= roots.len() ==> (root matches Err(error) && error.screen_number
            == screen_number),
{
    if screen_number < roots.len() {
        Ok(roots[screen_number])
    } else {
        Err(NoRootForScreenNumberError::new(screen_number))
    }
}

impl Screen {
    /// A screen from its catalog and the lists that were read.
    pub fn new(modes: ModeCatalog, outputs: Vec<Output>, crtcs: Vec<Crtc>) -> (screen: Screen)
        ensures
            screen.modes == modes,
            screen.outputs == outputs,
            screen.crtcs == crtcs,
    {
        Screen { modes, outputs, crtcs }
    }

    /// What the screen says of the output with this handle.
    pub fn get_output_info(&self, output: u32) -> (info: Result<&Output, OutputNotFoundError>)
        ensures
            match output_at(self.outputs@, output) {
                Some(i) => info matches Ok(found) && *found == self.outputs@[i],
                None => info matches Err(error) && error.output == output,
            },
    {
        let ghost wanted = |o: Output| o.handle == output;
        let mut i: usize = 0;
        while i < self.outputs.len()
            invariant
                i <= self.outputs.len(),
                wanted == |o: Output| o.handle == output,
                forall|j: int| 0 <= j < i ==> !wanted(#[trigger] self.outputs@[j]),
            decreases self.outputs.len() - i,
        {
            if self.outputs[i].handle == output {
                proof {
                    assert(is_first_where(self.outputs@, wanted, i as int));
                    lemma_first_where_is(self.outputs@, wanted, i as int);
                }
                return Ok(&self.outputs[i]);
            }
            i += 1;
        }
        proof {
            lemma_first_where_none(self.outputs@, wanted);
        }
        Err(OutputNotFoundError::new(output))
    }

    /// What the screen says of the CRTC with this handle.
    pub fn get_crtc_info(&self, crtc: u32) -> (info: Result<&Crtc, CrtcNotFoundError>)
        ensures
            match crtc_at(self.crtcs@, crtc) {
                Some(i) => info matches Ok(found) && *found == self.crtcs@[i],
                None => info matches Err(error) && error.crtc == crtc,
            },
    {
        let ghost wanted = |c: Crtc| c.handle == crtc;
        let mut i: usize = 0;
        while i < self.crtcs.len()
            invariant
                i <= self.crtcs.len(),
                wanted == |c: Crtc| c.handle == crtc,
                forall|j: int| 0 <= j < i ==> !wanted(#[trigger] self.crtcs@[j]),
            decreases self.crtcs.len() - i,
        {
            if self.crtcs[i].handle == crtc {
                proof {
                    assert(is_first_where(self.crtcs@, wanted, i as int));
                    lemma_first_where_is(self.crtcs@, wanted, i as int);
                }
                return Ok(&self.crtcs[i]);
            }
            i += 1;
        }
        proof {
            lemma_first_where_none(self.crtcs@, wanted);
        }
        Err(CrtcNotFoundError::new(crtc))
    }

    /// The first CRTC of the screen, in the server's order, that is free:
    /// not the reserved handle zero, and running no mode.
    pub fn get_free_crtc(&self) -> (crtc: Result<u32, NoFreeCrtcError>)
        ensures
            match free_crtc_at(self.crtcs@) {
                Some(i) => crtc == Ok::<u32, NoFreeCrtcError>(self.crtcs@[i].handle),
                None => crtc is Err,
            },
    {
        let ghost wanted = |c: Crtc| c@.is_free();
        let mut i: usize = 0;
        while i < self.crtcs.len()
            invariant
                i <= self.crtcs.len(),
                wanted == |c: Crtc| c@.is_free(),
                forall|j: int| 0 <= j < i ==> !wanted(#[trigger] self.crtcs@[j]),
            decreases self.crtcs.len() - i,
        {
            if self.crtcs[i].handle != 0 && self.crtcs[i].mode == 0 {
                proof {
                    assert(is_first_where(self.crtcs@, wanted, i as int));
                    lemma_first_where_is(self.crtcs@, wanted, i as int);
                }
                return Ok(self.crtcs[i].handle);
            }
            i += 1;
        }
        proof {
            lemma_first_where_none(self.crtcs@, wanted);
        }
        Err(NoFreeCrtcError::new())
    }

    /// Decides what to write so that the CRTC with handle `crtc` stands at
    /// (`x`, `y`) with `mode`, `rotation` and `outputs`. `crtc_existing` is
    /// the CRTC that the output was bound to before. Reads the CRTC on the
    /// screen; returns nothing when it is settled, else the one write, which
    /// names the stamp that was read.
    pub fn set_crtc_config(
        &self,
        crtc: u32,
        x: i16,
        y: i16,
        mode: u32,
        rotation: Rotation,
        outputs: &Vec<u32>,
        crtc_existing: u32,
    ) -> (command: Result<Option<Command>, CrtcNotFoundError>)
        ensures
            match crtc_at(self.crtcs@, crtc) {
                Some(i) => command matches Ok(write) && optional_view(write) == write_for(
                    self.crtcs@[i]@,
                    Setting { x, y, mode, rotation, outputs: outputs@ },
                    crtc_existing,
                ),
                None => command matches Err(error) && error.crtc == crtc,
            },
    {
        match self.get_crtc_info(crtc) {
            Ok(live) => Ok(live.set_crtc_config(x, y, mode, rotation, outputs, crtc_existing)),
            Err(error) => Err(error),
        }
    }
    /// The command that sets the screen to the size its active CRTCs need
    /// side by side. Fails where an active CRTC does not drive exactly one
    /// output or drives one that the screen does not list (the first such
    /// CRTC decides), and else where the widths add up beyond what a screen
    /// size can say.
    pub fn update_screen_size(&self) -> (command: Result<Command, X11EDIDAutoError>)
        ensures
            match screen_size_for(self.outputs@, self.crtcs@) {
                Ok(size) => command matches Ok(given) && given@ == size,
                Err(failure) => command matches Err(error) && error@ == failure,
            },
    {
        let ghost flawed = |c: Crtc| defect_of(self.outputs@, c) is Some;
        let mut i: usize = 0;
        while i < self.crtcs.len()
            invariant
                i <= self.crtcs.len(),
                flawed == |c: Crtc| defect_of(self.outputs@, c) is Some,
                forall|j: int| 0 <= j < i ==> !flawed(#[trigger] self.crtcs@[j]),
            decreases self.crtcs.len() - i,
        {
            let crtc = &self.crtcs[i];
            if crtc.mode != 0 {
                let outputs_len = crtc.outputs.len();
                if outputs_len != 1 {
                    proof {
                        assert(is_first_where(self.crtcs@, flawed, i as int));
                        lemma_first_where_is(self.crtcs@, flawed, i as int);
                    }
                    return Err(
                        X11EDIDAutoError::CrtcDoesNotHaveExactlyOneOutput(
                            CrtcDoesNotHaveExactlyOneOutput::new(outputs_len),
                        ),
                    );
                }
                match self.get_output_info(crtc.outputs[0]) {
                    Ok(_) => {},
                    Err(error) => {
                        proof {
                            assert(is_first_where(self.crtcs@, flawed, i as int));
                            lemma_first_where_is(self.crtcs@, flawed, i as int);
                        }
                        return Err(X11EDIDAutoError::OutputNotFoundError(error));
                    },
                }
            }
            i += 1;
        }
        proof {
            lemma_first_where_none(self.crtcs@, flawed);
        }
        let mut total_width_px: u16 = 0;
        let mut max_height_px: u16 = 0;
        let mut total_width_mm: u32 = 0;
        let mut max_height_mm: u32 = 0;
        let mut k: usize = 0;
        while k < self.crtcs.len()
            invariant
                k <= self.crtcs.len(),
                flawed == |c: Crtc| defect_of(self.outputs@, c) is Some,
                forall|j: int| 0 <= j < self.crtcs.len() ==> !flawed(#[trigger] self.crtcs@[j]),
                defect_at(self.outputs@, self.crtcs@) is None,
                measured(self.outputs@, self.crtcs@, k as int) == (Measure {
                    width: total_width_px as int,
                    height: max_height_px as int,
                    mm_width: total_width_mm as int,
                    mm_height: max_height_mm as int,
                }),
            decreases self.crtcs.len() - k,
        {
            let crtc = &self.crtcs[k];
            proof {
                assert(!flawed(self.crtcs@[k as int]));
                lemma_measured_grows(
                    self.outputs@,
                    self.crtcs@,
                    k + 1,
                    self.crtcs.len() as int,
                );
            }
            if crtc.mode != 0 {
                let output = match self.get_output_info(crtc.outputs[0]) {
                    Ok(output) => output,
                    Err(error) => {
                        return Err(X11EDIDAutoError::OutputNotFoundError(error));
                    },
                };
                if crtc.width > u16::MAX - total_width_px || output.mm_width > u32::MAX
                    - total_width_mm {
                    return Err(
                        X11EDIDAutoError::ScreenSizeOutOfRangeError(
                            ScreenSizeOutOfRangeError::new(),
                        ),
                    );
                }
                total_width_px = total_width_px + crtc.width;
                if crtc.height > max_height_px {
                    max_height_px = crtc.height;
                }
                total_width_mm = total_width_mm + output.mm_width;
                if output.mm_height > max_height_mm {
                    max_height_mm = output.mm_height;
                }
            }
            k += 1;
        }
        Ok(
            Command::SetScreenSize {
                width: total_width_px,
                height: max_height_px,
                mm_width: total_width_mm,
                mm_height: max_height_mm,
            },
        )
    }
}

} // verus!
