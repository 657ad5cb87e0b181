//! The run itself: which displays there are, which configured group they
//! satisfy, and, step by step, what to write so that the displays of that
//! group stand side by side and all others are off.
//!
//! The run is a state machine. Each step looks at the screen as it was just
//! read and answers with the commands to carry out before the screen is
//! read again for the next step.

use crate::connection::{lemma_output_is_listed, output_at, screen_size_for, Output, Screen};
use crate::crtc::{command_views, optional_view, Command, CommandView};
use crate::errors::{
    ApplyRejectedError, Failure, MonitorNotFoundError, NoMonitorGroupWithAllMonitorsPresentError,
    NoMonitorGroupsGivenError, NoMonitorsFoundError, TryIntoI16Error, X11EDIDAutoError,
};
use crate::monitor::{
    copy_block, disable_for, enable_for, has_identity, identity_of, info_of, lemma_same_identity,
    mode_for, monitor_views, Monitor, MonitorView,
};
use crate::search::{
    any_where, first_where, is_first_where, lemma_first_where, lemma_first_where_is,
    lemma_first_where_none,
};
use crate::text::{text_lists, texts};
use vstd::prelude::*;

verus! {

/// What is configured: the groups of displays, the most wanted first. Each
/// group lists the identities of its displays from left to right.
#[derive(Debug)]
pub struct Config {
    pub monitor_groups: Vec<Vec<String>>,
}

/// Where a run stands.
#[derive(Clone, Copy, Debug, PartialEq, Eq, Structural)]
pub enum Phase {
    /// The displays have not been looked at yet. The step that looks at
    /// them also chooses the group, for which the screen need not be read
    /// again.
    Discovering,
    /// A group is chosen and its displays are being switched on, one a step.
    Committing,
    /// The other displays are being switched off, one a step; the last step
    /// sets the size of the screen.
    Finalizing,
    /// All is decided.
    Success,
    /// The run has failed.
    Failed,
}

/// The display with this identity.
pub open spec fn with_identity(identity: Seq<char>) -> spec_fn(MonitorView) -> bool {
    |monitor: MonitorView| monitor.identity() == identity
}

/// Output `i` has an identity and no later output has the same: a display
/// is known by its identity, and of two that share one the later is kept.
pub open spec fn is_representative(outputs: Seq<Output>, i: int) -> bool {
    &&& 0 <= i < outputs.len()
    &&& has_identity(outputs[i].edid@)
    &&& forall|j: int|
        i < j < outputs.len() && has_identity(#[trigger] outputs[j].edid@) ==> identity_of(
            outputs[j].edid@,
        ) != identity_of(outputs[i].edid@)
}

/// The displays among the first `n` outputs: one for each representative
/// output, in the order of the outputs.
pub open spec fn discovered(outputs: Seq<Output>, n: int) -> Seq<MonitorView>
    decreases n,
{
    if n <= 0 {
        Seq::empty()
    } else if is_representative(outputs, n - 1) {
        discovered(outputs, n - 1).push(
            MonitorView { output: outputs[n - 1].handle, edid: outputs[n - 1].edid@ },
        )
    } else {
        discovered(outputs, n - 1)
    }
}

/// Every monitor has an identity.
pub open spec fn all_identified(monitors: Seq<MonitorView>) -> bool {
    forall|i: int| 0 <= i < monitors.len() ==> has_identity(#[trigger] monitors[i].edid)
}

/// The monitor is the display of a representative output among the first
/// `n`.
pub open spec fn is_display_of(outputs: Seq<Output>, n: int, monitor: MonitorView) -> bool {
    exists|i: int|
        0 <= i < n && is_representative(outputs, i) && monitor == (MonitorView {
            output: (#[trigger] outputs[i]).handle,
            edid: outputs[i].edid@,
        })
}

/// Every display of the group is among the monitors.
pub open spec fn is_satisfied(group: Seq<Seq<char>>, monitors: Seq<MonitorView>) -> bool {
    forall|k: int|
        0 <= k < group.len() ==> any_where(monitors, with_identity(#[trigger] group[k]))
}

/// The group that the monitors satisfy.
pub open spec fn satisfied_by(monitors: Seq<MonitorView>) -> spec_fn(Seq<Seq<char>>) -> bool {
    |group: Seq<Seq<char>>| is_satisfied(group, monitors)
}

/// The position of the first group that the monitors satisfy, if any.
pub open spec fn selected_group(groups: Seq<Seq<Seq<char>>>, monitors: Seq<MonitorView>) -> Option<
    int,
> {
    first_where(groups, satisfied_by(monitors))
}

/// The lines that describe each of the monitors, as the screen has them.
pub open spec fn report_of(screen: Screen, monitors: Seq<MonitorView>) -> Seq<Seq<Seq<char>>> {
    monitors.map_values(
        |monitor: MonitorView|
            {
                let output = screen.outputs@[output_at(screen.outputs@, monitor.output).unwrap()];
                info_of(monitor.edid, output.name@, output.crtc)
            },
    )
}

/// The commands that a write that may be absent amounts to.
pub open spec fn written(write: Option<CommandView>) -> Seq<CommandView> {
    match write {
        Some(command) => seq![command],
        None => Seq::empty(),
    }
}

/// A run as plain values.
#[verifier::ext_equal]
pub struct State {
    /// The configured groups.
    pub groups: Seq<Seq<Seq<char>>>,
    /// The displays that were discovered.
    pub monitors: Seq<MonitorView>,
    pub phase: Phase,
    /// Why the run failed, if it did.
    pub failure: Option<Failure>,
    /// The position of the chosen group.
    pub group: int,
    /// While committing, the position in the group of the display that is
    /// next; while finalizing, the position among the monitors.
    pub position: int,
    /// Where the next display of the group goes.
    pub x: int,
}

impl State {
    /// The state before the first step.
    pub open spec fn initial(groups: Seq<Seq<Seq<char>>>) -> State {
        State {
            groups,
            monitors: Seq::empty(),
            phase: Phase::Discovering,
            failure: None,
            group: 0,
            position: 0,
            x: 0,
        }
    }

    /// What holds of every state that a run reaches.
    pub open spec fn wf(self) -> bool {
        &&& self.failure is Some <==> self.phase == Phase::Failed
        &&& all_identified(self.monitors)
        &&& self.phase == Phase::Committing || self.phase == Phase::Finalizing || self.phase
            == Phase::Success ==> {
            &&& selected_group(self.groups, self.monitors) == Some(self.group)
            &&& 0 <= self.group < self.groups.len()
            &&& 0 <= self.x <= i16::MAX
        }
        &&& self.phase == Phase::Committing ==> 0 <= self.position
            < self.groups[self.group].len()
        &&& self.phase == Phase::Finalizing ==> 0 <= self.position <= self.monitors.len()
    }

    /// The run has ended.
    pub open spec fn is_finished(self) -> bool {
        self.phase == Phase::Success || self.phase == Phase::Failed
    }

    /// A bound on the steps that a run still takes once its group is
    /// chosen: one for each display of the group that is left, one for each
    /// monitor that is left, and one for the size of the screen.
    pub open spec fn steps_left(self) -> int {
        match self.phase {
            Phase::Committing => self.groups[self.group].len() - self.position
                + self.monitors.len() + 1,
            Phase::Finalizing => self.monitors.len() - self.position + 1,
            _ => 0,
        }
    }

    /// This state, failed for the given reason.
    pub open spec fn failed(self, failure: Failure) -> State {
        State { phase: Phase::Failed, failure: Some(failure), ..self }
    }

    /// The state after the displays were looked at: the run fails where no
    /// display has an identity, and where no group is satisfied; else the
    /// first satisfied group is chosen, to be laid out from the left edge.
    pub open spec fn discover(self, screen: Screen) -> State {
        let found = discovered(screen.outputs@, screen.outputs@.len() as int);
        if found.len() == 0 {
            self.failed(Failure::NoMonitorsFound)
        } else {
            match selected_group(self.groups, found) {
                None => self.failed(
                    Failure::NoMonitorGroupWithAllMonitorsPresent {
                        monitor_infos_for_monitors: report_of(screen, found),
                    },
                ),
                Some(group) => State {
                    monitors: found,
                    phase: if self.groups[group].len() == 0 {
                        Phase::Finalizing
                    } else {
                        Phase::Committing
                    },
                    group,
                    position: 0,
                    x: 0,
                    ..self
                },
            }
        }
    }

    /// The state after the next display of the group was given `width`
    /// pixels: the display after it is next, further right by the width;
    /// after the last display of the group the run goes on to finalizing.
    pub open spec fn advanced_by(self, width: int) -> State {
        if self.position + 1 < self.groups[self.group].len() {
            State { position: self.position + 1, x: self.x + width, ..self }
        } else {
            State { phase: Phase::Finalizing, position: 0, x: self.x + width, ..self }
        }
    }

    /// One step of committing: the next display of the group is found among
    /// the monitors, its best mode is looked up, and it is enabled at the
    /// current offset; it is made the primary one when it stands at the left
    /// edge; then the offset moves on by the width of the mode. The run
    /// fails, with nothing written for this display, where the display is
    /// not among the monitors, has no mode or cannot be enabled. It fails
    /// after the display was written where the next offset does not fit a
    /// position.
    pub open spec fn commit(self, screen: Screen) -> (State, Seq<CommandView>) {
        let identity = self.groups[self.group][self.position];
        match first_where(self.monitors, with_identity(identity)) {
            None => (self.failed(Failure::MonitorNotFound { edid: identity }), Seq::empty()),
            Some(k) => {
                let output = self.monitors[k].output;
                match (mode_for(screen, output), enable_for(screen, output, self.x as i16)) {
                    (Err(failure), _) => (self.failed(failure), Seq::empty()),
                    (Ok(_), Err(failure)) => (self.failed(failure), Seq::empty()),
                    (Ok(mode), Ok(write)) => {
                        let commands = written(write) + if self.x == 0 {
                            seq![CommandView::SetOutputPrimary { output }]
                        } else {
                            Seq::empty()
                        };
                        if mode.width > i16::MAX {
                            (self.failed(Failure::TryIntoI16 { name: "Monitor width"@ }), commands)
                        } else if self.x + mode.width > i16::MAX {
                            (self.failed(Failure::TryIntoI16 { name: "Monitor offset"@ }), commands)
                        } else {
                            (self.advanced_by(mode.width as int), commands)
                        }
                    },
                }
            },
        }
    }

    /// One step of finalizing: the next monitor is switched off unless it
    /// belongs to the group; after the last monitor, the screen is measured
    /// and its size set, which ends the run.
    pub open spec fn finalize(self, screen: Screen) -> (State, Seq<CommandView>) {
        if self.position < self.monitors.len() {
            let monitor = self.monitors[self.position];
            let next = State { position: self.position + 1, ..self };
            if self.groups[self.group].contains(monitor.identity()) {
                (next, Seq::empty())
            } else {
                match disable_for(screen, monitor.output) {
                    Err(failure) => (self.failed(failure), Seq::empty()),
                    Ok(write) => (next, written(write)),
                }
            }
        } else {
            match screen_size_for(screen.outputs@, screen.crtcs@) {
                Err(failure) => (self.failed(failure), Seq::empty()),
                Ok(command) => (State { phase: Phase::Success, ..self }, seq![command]),
            }
        }
    }

    /// One step of the run on the screen as it was just read: the state
    /// after it, and the commands to carry out before the next step. A run
    /// that has ended stays as it is.
    pub open spec fn step(self, screen: Screen) -> (State, Seq<CommandView>) {
        match self.phase {
            Phase::Discovering => (self.discover(screen), Seq::empty()),
            Phase::Committing => self.commit(screen),
            Phase::Finalizing => self.finalize(screen),
            Phase::Success => (self, Seq::empty()),
            Phase::Failed => (self, Seq::empty()),
        }
    }
}

/// Whether two usable identity blocks give the same identity.
pub fn same_identity(a: &Vec<u8>, b: &Vec<u8>) -> (same: bool)
    requires
        has_identity(a@),
        has_identity(b@),
    ensures
        same == (identity_of(a@) == identity_of(b@)),
{
    let mut k: usize = 8;
    while k < 16
        invariant
            8 <= k <= 16,
            a@.len() >= 16,
            b@.len() >= 16,
            forall|j: int| 8 <= j < k ==> a@[j] == b@[j],
        decreases 16 - k,
    {
        if a[k] != b[k] {
            proof {
                lemma_same_identity(a@, b@);
                assert(a@.subrange(8, 16)[k - 8] == a@[k as int]);
                assert(b@.subrange(8, 16)[k - 8] == b@[k as int]);
            }
            return false;
        }
        k += 1;
    }
    proof {
        lemma_same_identity(a@, b@);
        assert(a@.subrange(8, 16) =~= b@.subrange(8, 16));
    }
    true
}

/// Whether output `i` stands for a display: see `is_representative`.
fn represents(outputs: &Vec<Output>, i: usize) -> (yes: bool)
    requires
        i < outputs.len(),
    ensures
        yes == is_representative(outputs@, i as int),
{
    if outputs[i].edid.len() < 16 {
        return false;
    }
    let mut j: usize = i + 1;
    while j < outputs.len()
        invariant
            i < j <= outputs.len(),
            has_identity(outputs@[i as int].edid@),
            forall|k: int|
                i < k < j && has_identity(#[trigger] outputs@[k].edid@) ==> identity_of(
                    outputs@[k].edid@,
                ) != identity_of(outputs@[i as int].edid@),
        decreases outputs.len() - j,
    {
        if outputs[j].edid.len() >= 16 && same_identity(&outputs[j].edid, &outputs[i].edid) {
            return false;
        }
        j += 1;
    }
    true
}

/// The displays of the screen: one monitor for each output that has an
/// identity, the later output where two share an identity, in the order of
/// the outputs. An output whose identity block is shorter than 16 bytes
/// gives no monitor.
pub fn discover(screen: &Screen) -> (monitors: Vec<Monitor>)
    ensures
        monitor_views(monitors@) == discovered(screen.outputs@, screen.outputs@.len() as int),
        all_identified(monitor_views(monitors@)),
{
    let mut monitors: Vec<Monitor> = Vec::new();
    let mut i: usize = 0;
    assert(monitor_views(monitors@) =~= discovered(screen.outputs@, 0));
    while i < screen.outputs.len()
        invariant
            i <= screen.outputs.len(),
            monitor_views(monitors@) == discovered(screen.outputs@, i as int),
        decreases screen.outputs.len() - i,
    {
        if represents(&screen.outputs, i) {
            let output = &screen.outputs[i];
            let monitor = Monitor { output: output.handle, edid: copy_block(&output.edid) };
            let ghost before = monitors@;
            monitors.push(monitor);
            assert(monitor_views(monitors@) =~= monitor_views(before).push(
                MonitorView { output: output.handle, edid: output.edid@ },
            ));
        }
        i += 1;
    }
    proof {
        lemma_discovered(screen.outputs@, screen.outputs@.len() as int);
    }
    monitors
}

/// The position among the monitors of the first with this identity.
pub fn find_monitor(monitors: &Vec<Monitor>, identity: &String) -> (found: Option<usize>)
    requires
        all_identified(monitor_views(monitors@)),
    ensures
        first_where(monitor_views(monitors@), with_identity(identity@)) == match found {
            Some(k) => Some(k as int),
            None => None,
        },
{
    let ghost views = monitor_views(monitors@);
    let ghost wanted = with_identity(identity@);
    let mut i: usize = 0;
    while i < monitors.len()
        invariant
            i <= monitors.len(),
            views == monitor_views(monitors@),
            wanted == with_identity(identity@),
            all_identified(monitor_views(monitors@)),
            forall|j: int| 0 <= j < i ==> !wanted(#[trigger] views[j]),
        decreases monitors.len() - i,
    {
        assert(has_identity(views[i as int].edid));
        let id = monitors[i].monitor_id();
        if id == *identity {
            proof {
                assert(wanted(views[i as int]));
                assert(is_first_where(views, wanted, i as int));
                lemma_first_where_is(views, wanted, i as int);
            }
            return Some(i);
        }
        assert(!wanted(views[i as int]));
        i += 1;
    }
    proof {
        lemma_first_where_none(views, wanted);
    }
    None
}

/// Whether every display of the group is among the monitors.
pub fn is_group_satisfied(group: &Vec<String>, monitors: &Vec<Monitor>) -> (satisfied: bool)
    requires
        all_identified(monitor_views(monitors@)),
    ensures
        satisfied == is_satisfied(texts(group@), monitor_views(monitors@)),
{
    let ghost views = monitor_views(monitors@);
    let mut k: usize = 0;
    while k < group.len()
        invariant
            k <= group.len(),
            views == monitor_views(monitors@),
            all_identified(monitor_views(monitors@)),
            forall|j: int|
                0 <= j < k ==> any_where(views, with_identity(#[trigger] texts(group@)[j])),
        decreases group.len() - k,
    {
        proof {
            lemma_first_where(views, with_identity(group@[k as int]@));
        }
        match find_monitor(monitors, &group[k]) {
            Some(_) => {},
            None => {
                assert(!any_where(views, with_identity(texts(group@)[k as int])));
                return false;
            },
        }
        k += 1;
    }
    true
}

/// The position of the first group, in the configured order, of which
/// every display is among the monitors. A later group is never chosen over
/// an earlier one that is satisfied, however many of its displays are there.
pub fn select_group(groups: &Vec<Vec<String>>, monitors: &Vec<Monitor>) -> (selected: Option<usize>)
    requires
        all_identified(monitor_views(monitors@)),
    ensures
        selected_group(text_lists(groups@), monitor_views(monitors@)) == match selected {
            Some(group) => Some(group as int),
            None => None,
        },
{
    let ghost lists = text_lists(groups@);
    let ghost wanted = satisfied_by(monitor_views(monitors@));
    let mut g: usize = 0;
    while g < groups.len()
        invariant
            g <= groups.len(),
            lists == text_lists(groups@),
            wanted == satisfied_by(monitor_views(monitors@)),
            all_identified(monitor_views(monitors@)),
            forall|j: int| 0 <= j < g ==> !wanted(#[trigger] lists[j]),
        decreases groups.len() - g,
    {
        if is_group_satisfied(&groups[g], monitors) {
            proof {
                assert(wanted(lists[g as int]));
                assert(is_first_where(lists, wanted, g as int));
                lemma_first_where_is(lists, wanted, g as int);
            }
            return Some(g);
        }
        assert(!wanted(lists[g as int]));
        g += 1;
    }
    proof {
        lemma_first_where_none(lists, wanted);
    }
    None
}

/// Whether the group names this identity.
pub fn belongs_to(group: &Vec<String>, identity: &String) -> (belongs: bool)
    ensures
        belongs == texts(group@).contains(identity@),
{
    let mut k: usize = 0;
    while k < group.len()
        invariant
            k <= group.len(),
            forall|j: int| 0 <= j < k ==> texts(group@)[j] != identity@,
        decreases group.len() - k,
    {
        if group[k] == *identity {
            assert(texts(group@)[k as int] == identity@);
            return true;
        }
        k += 1;
    }
    false
}

/// Every discovered display has an identity, that is a block of at least
/// 16 bytes, and is the display of a representative output. An output with
/// a shorter block gives none, and so never enters a choice of group. The
/// output of every discovered display is in the list.
pub proof fn lemma_discovered(outputs: Seq<Output>, n: int)
    requires
        0 <= n <= outputs.len(),
    ensures
        all_identified(discovered(outputs, n)),
        all_listed(outputs, discovered(outputs, n)),
        forall|k: int|
            0 <= k < discovered(outputs, n).len() ==> is_display_of(
                outputs,
                n,
                #[trigger] discovered(outputs, n)[k],
            ),
    decreases n,
{
    if n > 0 {
        lemma_discovered(outputs, n - 1);
        let before = discovered(outputs, n - 1);
        let now = discovered(outputs, n);
        assert forall|k: int| 0 <= k < now.len() implies is_display_of(
            outputs,
            n,
            #[trigger] now[k],
        ) && has_identity(now[k].edid) && output_at(outputs, now[k].output) is Some by {
            if k < before.len() {
                assert(now[k] == before[k]);
                assert(is_display_of(outputs, n - 1, before[k]));
                let i = choose|i: int|
                    0 <= i < n - 1 && is_representative(outputs, i) && before[k] == (MonitorView {
                        output: (#[trigger] outputs[i]).handle,
                        edid: outputs[i].edid@,
                    });
                assert(0 <= i < n && is_representative(outputs, i) && now[k] == (MonitorView {
                    output: outputs[i].handle,
                    edid: outputs[i].edid@,
                }));
            } else {
                assert(is_representative(outputs, n - 1) && now[k] == (MonitorView {
                    output: outputs[n - 1].handle,
                    edid: outputs[n - 1].edid@,
                }));
                lemma_output_is_listed(outputs, n - 1);
            }
        }
    }
}

/// The chosen group is the first, in the configured order, of which every
/// display is among the monitors; no group is chosen exactly when none is
/// satisfied. How much of a later group is there plays no part.
pub proof fn lemma_selected_group(groups: Seq<Seq<Seq<char>>>, monitors: Seq<MonitorView>)
    ensures
        match selected_group(groups, monitors) {
            Some(group) => {
                &&& 0 <= group < groups.len()
                &&& is_satisfied(groups[group], monitors)
                &&& forall|j: int| 0 <= j < group ==> !is_satisfied(#[trigger] groups[j], monitors)
            },
            None => forall|j: int|
                0 <= j < groups.len() ==> !is_satisfied(#[trigger] groups[j], monitors),
        },
{
    lemma_first_where(groups, satisfied_by(monitors));
}

/// While a run commits, the display that is next is among the monitors: the
/// failure for a display that is not can only come from a state that no run
/// reaches.
pub proof fn lemma_member_is_discovered(state: State)
    requires
        state.wf(),
        state.phase == Phase::Committing,
    ensures
        first_where(
            state.monitors,
            with_identity(state.groups[state.group][state.position]),
        ) is Some,
{
    lemma_selected_group(state.groups, state.monitors);
    let group = state.groups[state.group];
    assert(any_where(state.monitors, with_identity(group[state.position])));
}

/// A step keeps a state well formed, whatever the screen shows.
pub proof fn lemma_step_keeps_wf(state: State, screen: Screen)
    requires
        state.wf(),
    ensures
        state.step(screen).0.wf(),
{
    if state.phase == Phase::Discovering {
        let outputs = screen.outputs@;
        let found = discovered(outputs, outputs.len() as int);
        lemma_discovered(outputs, outputs.len() as int);
        lemma_selected_group(state.groups, found);
    }
}

/// Every run ends: the first step leaves discovering behind, and each step
/// after it ends the run or leaves fewer steps to take.
pub proof fn lemma_run_ends(state: State, screen: Screen)
    requires
        state.wf(),
        !state.is_finished(),
    ensures
        state.phase == Phase::Discovering ==> state.step(screen).0.phase != Phase::Discovering,
        state.phase != Phase::Discovering ==> 0 <= state.step(screen).0.steps_left()
            < state.steps_left(),
{
    if state.phase == Phase::Discovering {
        let outputs = screen.outputs@;
        lemma_selected_group(state.groups, discovered(outputs, outputs.len() as int));
    }
}

/// The display of a representative output is among the discovered ones.
proof fn lemma_representative_is_discovered(outputs: Seq<Output>, n: int, i: int)
    requires
        0 <= i < n <= outputs.len(),
        is_representative(outputs, i),
    ensures
        any_where(discovered(outputs, n), with_identity(identity_of(outputs[i].edid@))),
    decreases n,
{
    let wanted = with_identity(identity_of(outputs[i].edid@));
    let now = discovered(outputs, n);
    if i == n - 1 {
        assert(wanted(now[now.len() - 1]));
    } else {
        lemma_representative_is_discovered(outputs, n - 1, i);
        let before = discovered(outputs, n - 1);
        let k = choose|k: int| 0 <= k < before.len() && wanted(#[trigger] before[k]);
        assert(now[k] == before[k]);
        assert(wanted(now[k]));
    }
}

/// After an output with an identity there is a last output with that
/// identity, which is representative.
proof fn lemma_last_with_identity(outputs: Seq<Output>, i: int) -> (last: int)
    requires
        0 <= i < outputs.len(),
        has_identity(outputs[i].edid@),
    ensures
        i <= last < outputs.len(),
        is_representative(outputs, last),
        identity_of(outputs[last].edid@) == identity_of(outputs[i].edid@),
    decreases outputs.len() - i,
{
    if is_representative(outputs, i) {
        i
    } else {
        let j = choose|j: int|
            i < j < outputs.len() && has_identity(#[trigger] outputs[j].edid@) && identity_of(
                outputs[j].edid@,
            ) == identity_of(outputs[i].edid@);
        lemma_last_with_identity(outputs, j)
    }
}

/// The discovered displays are keyed by identity: every output that has an
/// identity finds it among them, and no two of them share one.
pub proof fn lemma_discovered_by_identity(outputs: Seq<Output>)
    ensures
        forall|i: int|
            0 <= i < outputs.len() && has_identity(#[trigger] outputs[i].edid@) ==> any_where(
                discovered(outputs, outputs.len() as int),
                with_identity(identity_of(outputs[i].edid@)),
            ),
        forall|k: int, l: int|
            0 <= k < l < discovered(outputs, outputs.len() as int).len() ==> (#[trigger] discovered(
                outputs,
                outputs.len() as int,
            )[k]).identity() != (#[trigger] discovered(
                outputs,
                outputs.len() as int,
            )[l]).identity(),
{
    let n = outputs.len() as int;
    assert forall|i: int| 0 <= i < n && has_identity(#[trigger] outputs[i].edid@) implies any_where(
        discovered(outputs, n),
        with_identity(identity_of(outputs[i].edid@)),
    ) by {
        let last = lemma_last_with_identity(outputs, i);
        lemma_representative_is_discovered(outputs, n, last);
    }
    lemma_discovered_in_order(outputs, n);
}

/// No two of the displays among the first `n` outputs share an identity.
proof fn lemma_discovered_in_order(outputs: Seq<Output>, n: int)
    requires
        0 <= n <= outputs.len(),
    ensures
        forall|k: int, l: int|
            0 <= k < l < discovered(outputs, n).len() ==> (#[trigger] discovered(
                outputs,
                n,
            )[k]).identity() != (#[trigger] discovered(outputs, n)[l]).identity(),
    decreases n,
{
    if n > 0 {
        lemma_discovered_in_order(outputs, n - 1);
        lemma_discovered(outputs, n - 1);
        let before = discovered(outputs, n - 1);
        let now = discovered(outputs, n);
        assert forall|k: int, l: int| 0 <= k < l < now.len() implies (#[trigger] now[k]).identity()
            != (#[trigger] now[l]).identity() by {
            if l < before.len() {
                assert(now[k] == before[k] && now[l] == before[l]);
            } else {
                assert(now[k] == before[k]);
                assert(is_display_of(outputs, n - 1, before[k]));
                let i = choose|i: int|
                    0 <= i < n - 1 && is_representative(outputs, i) && before[k] == (MonitorView {
                        output: (#[trigger] outputs[i]).handle,
                        edid: outputs[i].edid@,
                    });
                assert(has_identity(outputs[n - 1].edid@));
            }
        }
    }
}

/// The failure of a run that may have none, as plain values.
pub open spec fn failure_view(failure: Option<X11EDIDAutoError>) -> Option<Failure> {
    match failure {
        Some(error) => Some(error@),
        None => None,
    }
}

/// The output of every monitor is in the list.
pub open spec fn all_listed(outputs: Seq<Output>, monitors: Seq<MonitorView>) -> bool {
    forall|i: int|
        0 <= i < monitors.len() ==> output_at(outputs, (#[trigger] monitors[i]).output) is Some
}

/// The lines that describe each of the monitors: see `report_of`.
fn report(screen: &Screen, monitors: &Vec<Monitor>) -> (infos: Vec<Vec<String>>)
    requires
        all_identified(monitor_views(monitors@)),
        all_listed(screen.outputs@, monitor_views(monitors@)),
    ensures
        text_lists(infos@) == report_of(*screen, monitor_views(monitors@)),
{
    let mut infos: Vec<Vec<String>> = Vec::new();
    let mut i: usize = 0;
    while i < monitors.len()
        invariant
            i <= monitors.len(),
            all_identified(monitor_views(monitors@)),
            all_listed(screen.outputs@, monitor_views(monitors@)),
            text_lists(infos@) == report_of(*screen, monitor_views(monitors@)).take(i as int),
        decreases monitors.len() - i,
    {
        assert(has_identity(monitor_views(monitors@)[i as int].edid));
        assert(output_at(screen.outputs@, monitor_views(monitors@)[i as int].output) is Some);
        let lines = match monitors[i].monitor_info(screen) {
            Ok(lines) => lines,
            Err(_) => vstd::pervasive::unreached(),
        };
        let ghost before = infos@;
        let ghost whole = report_of(*screen, monitor_views(monitors@));
        assert(whole[i as int] == texts(lines@));
        infos.push(lines);
        assert(text_lists(infos@) =~= text_lists(before).push(texts(lines@)));
        assert(whole.take(i + 1) =~= whole.take(i as int).push(whole[i as int]));
        i += 1;
    }
    assert(report_of(*screen, monitor_views(monitors@)).take(i as int) =~= report_of(
        *screen,
        monitor_views(monitors@),
    ));
    infos
}

/// A run: the configured groups, and how far the run has come.
#[derive(Debug)]
pub struct Reconciler {
    monitor_groups: Vec<Vec<String>>,
    monitors: Vec<Monitor>,
    phase: Phase,
    failure: Option<X11EDIDAutoError>,
    group: usize,
    position: usize,
    x: i16,
}

impl View for Reconciler {
    type V = State;

    closed spec fn view(&self) -> State {
        State {
            groups: text_lists(self.monitor_groups@),
            monitors: monitor_views(self.monitors@),
            phase: self.phase,
            failure: failure_view(self.failure),
            group: self.group as int,
            position: self.position as int,
            x: self.x as int,
        }
    }
}

impl Reconciler {
    /// A run for the groups of `config`, before its first step. A
    /// configuration without any group is refused; `config_file_path` says
    /// in the error where the configuration came from.
    pub fn new(config: Config, config_file_path: String) -> (run: Result<
        Reconciler,
        X11EDIDAutoError,
    >)
        ensures
            config.monitor_groups@.len() == 0 ==> (run matches Err(error) && error@
                == Failure::NoMonitorGroupsGiven { config_file_path: config_file_path@ }),
            config.monitor_groups@.len() > 0 ==> (run matches Ok(start) && start@ == State::initial(
                text_lists(config.monitor_groups@),
            )),
    {
        if config.monitor_groups.len() == 0 {
            return Err(
                X11EDIDAutoError::NoMonitorGroupsGivenError(
                    NoMonitorGroupsGivenError::new(config_file_path),
                ),
            );
        }
        let run = Reconciler {
            monitor_groups: config.monitor_groups,
            monitors: Vec::new(),
            phase: Phase::Discovering,
            failure: None,
            group: 0,
            position: 0,
            x: 0,
        };
        assert(run@ =~= State::initial(text_lists(config.monitor_groups@)));
        Ok(run)
    }

    /// Where the run stands.
    pub fn phase(&self) -> (phase: Phase)
        ensures
            phase == self@.phase,
    {
        self.phase
    }

    /// Whether the run has ended.
    pub fn is_finished(&self) -> (finished: bool)
        ensures
            finished == self@.is_finished(),
    {
        match self.phase {
            Phase::Success => true,
            Phase::Failed => true,
            _ => false,
        }
    }

    /// How the run ended: nothing while it has not, else success or the
    /// failure.
    pub fn outcome(self) -> (outcome: Option<Result<(), X11EDIDAutoError>>)
        requires
            self@.wf(),
        ensures
            outcome is Some <==> self@.is_finished(),
            self@.phase == Phase::Success ==> outcome == Some(Ok::<(), X11EDIDAutoError>(())),
            self@.phase == Phase::Failed ==> (outcome matches Some(Err(error)) && Some(error@)
                == self@.failure),
    {
        match self.phase {
            Phase::Success => Some(Ok(())),
            Phase::Failed => match self.failure {
                Some(error) => Some(Err(error)),
                None => None,
            },
            _ => None,
        }
    }

    /// Records that the server refused a command of the last step: the run
    /// has failed.
    pub fn reject(&mut self)
        ensures
            final(self)@ == old(self)@.failed(Failure::ApplyRejected),
    {
        self.fail(X11EDIDAutoError::ApplyRejectedError(ApplyRejectedError::new()));
    }

    /// One step of the run on the screen as it was just read. Returns the
    /// commands to carry out, in order, before the screen is read again for
    /// the next step: see `State::step`.
    pub fn step(&mut self, screen: &Screen) -> (commands: Vec<Command>)
        requires
            old(self)@.wf(),
        ensures
            final(self)@.wf(),
            final(self)@ == old(self)@.step(*screen).0,
            command_views(commands@) == old(self)@.step(*screen).1,
    {
        match self.phase {
            Phase::Discovering => {
                self.discovering(screen);
                let commands: Vec<Command> = Vec::new();
                assert(command_views(commands@) =~= Seq::empty());
                commands
            },
            Phase::Committing => self.committing(screen),
            Phase::Finalizing => self.finalizing(screen),
            _ => {
                let commands: Vec<Command> = Vec::new();
                assert(command_views(commands@) =~= Seq::empty());
                commands
            },
        }
    }

    /// Ends the run with the given failure.
    fn fail(&mut self, error: X11EDIDAutoError)
        ensures
            final(self)@ == old(self)@.failed(error@),
    {
        self.phase = Phase::Failed;
        self.failure = Some(error);
    }

    /// The first step: see `State::discover`.
    fn discovering(&mut self, screen: &Screen)
        requires
            old(self)@.wf(),
            old(self)@.phase == Phase::Discovering,
        ensures
            final(self)@.wf(),
            final(self)@ == old(self)@.discover(*screen),
    {
        let monitors = discover(screen);
        proof {
            lemma_discovered(screen.outputs@, screen.outputs@.len() as int);
        }
        if monitors.len() == 0 {
            self.fail(X11EDIDAutoError::NoMonitorsFoundError(NoMonitorsFoundError::new()));
            return ;
        }
        match select_group(&self.monitor_groups, &monitors) {
            None => {
                let infos = report(screen, &monitors);
                self.fail(
                    X11EDIDAutoError::NoMonitorGroupWithAllMonitorsPresentError(
                        NoMonitorGroupWithAllMonitorsPresentError::new(infos),
                    ),
                );
            },
            Some(group) => {
                proof {
                    lemma_first_where(
                        text_lists(self.monitor_groups@),
                        satisfied_by(monitor_views(monitors@)),
                    );
                }
                self.phase = if self.monitor_groups[group].len() == 0 {
                    Phase::Finalizing
                } else {
                    Phase::Committing
                };
                self.monitors = monitors;
                self.group = group;
                self.position = 0;
                self.x = 0;
                assert(self@ =~= old(self)@.discover(*screen));
            },
        }
    }

    /// A step for the next display of the group: see `State::commit`.
    fn committing(&mut self, screen: &Screen) -> (commands: Vec<Command>)
        requires
            old(self)@.wf(),
            old(self)@.phase == Phase::Committing,
        ensures
            final(self)@.wf(),
            final(self)@ == old(self)@.commit(*screen).0,
            command_views(commands@) == old(self)@.commit(*screen).1,
    {
        let mut commands: Vec<Command> = Vec::new();
        assert(command_views(commands@) =~= Seq::empty());
        let ghost start = self@;
        let ghost identity = start.groups[start.group][start.position];
        assert(identity == self.monitor_groups@[self.group as int]@[self.position as int]@);
        assert(start.groups[start.group].len() == self.monitor_groups@[self.group as int]@.len());
        let position = self.position;
        let members = self.monitor_groups[self.group].len();
        assert(position < members);
        let k = match find_monitor(&self.monitors, &self.monitor_groups[self.group][self.position]) {
            Some(k) => k,
            None => {
                let edid = self.monitor_groups[self.group][self.position].clone();
                self.fail(X11EDIDAutoError::MonitorNotFoundError(MonitorNotFoundError::new(edid)));
                return commands;
            },
        };
        proof {
            lemma_first_where(self@.monitors, with_identity(identity));
        }
        let ghost output = self@.monitors[k as int].output;
        let mode = match self.monitors[k].mode_info(screen) {
            Ok(mode) => mode,
            Err(error) => {
                self.fail(error);
                return commands;
            },
        };
        let write = match self.monitors[k].enable(screen, self.x) {
            Ok(write) => write,
            Err(error) => {
                self.fail(error);
                return commands;
            },
        };
        match write {
            Some(command) => {
                commands.push(command);
            },
            None => {},
        }
        assert(command_views(commands@) =~= written(optional_view(write)));
        if self.x == 0 {
            let ghost before = commands@;
            commands.push(self.monitors[k].set_primary());
            assert(command_views(commands@) =~= command_views(before).push(
                CommandView::SetOutputPrimary { output },
            ));
        }
        assert(command_views(commands@) =~= old(self)@.commit(*screen).1);
        let width = match i16::try_from(mode.width as u32) {
            Ok(width) => width,
            Err(error) => {
                self.fail(
                    X11EDIDAutoError::TryIntoI16Error(
                        TryIntoI16Error::new(String::from_str("Monitor width"), error),
                    ),
                );
                return commands;
            },
        };
        let x = match i16::try_from(self.x as i32 + width as i32) {
            Ok(x) => x,
            Err(error) => {
                self.fail(
                    X11EDIDAutoError::TryIntoI16Error(
                        TryIntoI16Error::new(String::from_str("Monitor offset"), error),
                    ),
                );
                return commands;
            },
        };
        self.x = x;
        if position + 1 < members {
            self.position = position + 1;
        } else {
            self.phase = Phase::Finalizing;
            self.position = 0;
        }
        assert(self@ =~= old(self)@.advanced_by(mode.width as int));
        commands
    }

    /// A step for the next monitor, or for the size of the screen: see
    /// `State::finalize`.
    fn finalizing(&mut self, screen: &Screen) -> (commands: Vec<Command>)
        requires
            old(self)@.wf(),
            old(self)@.phase == Phase::Finalizing,
        ensures
            final(self)@.wf(),
            final(self)@ == old(self)@.finalize(*screen).0,
            command_views(commands@) == old(self)@.finalize(*screen).1,
    {
        let mut commands: Vec<Command> = Vec::new();
        assert(command_views(commands@) =~= Seq::empty());
        if self.position < self.monitors.len() {
            assert(has_identity(self@.monitors[self.position as int].edid));
            let id = self.monitors[self.position].monitor_id();
            if !belongs_to(&self.monitor_groups[self.group], &id) {
                match self.monitors[self.position].disable(screen) {
                    Ok(write) => {
                        match write {
                            Some(command) => {
                                commands.push(command);
                            },
                            None => {},
                        }
                        assert(command_views(commands@) =~= written(optional_view(write)));
                    },
                    Err(error) => {
                        self.fail(error);
                        return commands;
                    },
                }
            }
            self.position = self.position + 1;
            assert(self@ =~= (State { position: old(self)@.position + 1, ..old(self)@ }));
        } else {
            match screen.update_screen_size() {
                Ok(command) => {
                    commands.push(command);
                    assert(command_views(commands@) =~= seq![command@]);
                    self.phase = Phase::Success;
                    assert(self@ =~= (State { phase: Phase::Success, ..old(self)@ }));
                },
                Err(error) => {
                    self.fail(error);
                },
            }
        }
        commands
    }
}

} // verus!
