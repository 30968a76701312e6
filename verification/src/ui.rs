//! The UI-side state machine.
//!
//! The UI owns the roster, the selection, the info panel, the registry
//! snapshot and the three filter fields. It changes in exactly two ways:
//! a user action (which may hand back a command to enqueue), or one polled
//! worker result (applied by direct overwrite of the panel it is for).

use vstd::prelude::*;
use vstd::string::StringExecFns;
use crate::message::{Command, FilterModel, FilterTriple, ResultModel, WorkerResult, axis_view};
use crate::props::PropertySet;
use crate::roster::Roster;
use crate::worker::{IoOutcome, emitted, info_model, results_of};
use idevice::usbmuxd::UsbmuxdDevice;

verus! {

/// The platform the process runs on; it picks nothing but the remediation
/// hint shown when the device multiplexer cannot be reached.
#[derive(Clone, Copy)]
pub enum Platform {
    Windows,
    MacOs,
    Other,
}

/// The remediation hint for a platform.
pub open spec fn hint_text(p: Platform) -> Seq<char> {
    match p {
        Platform::Windows => "Make sure you have iTunes installed from Apple's website, and that it's running."@,
        Platform::MacOs => "usbmuxd should be running by default on MacOS. Please raise an issue on GitHub."@,
        Platform::Other => "Make sure usbmuxd is installed and running."@,
    }
}

/// The placeholder shown when the multiplexer cannot be reached at all.
pub open spec fn unavailable_text(p: Platform, detail: Seq<char>) -> Seq<char> {
    "Failed to connect to usbmuxd! "@ + hint_text(p) + "\n\n"@ + detail
}

/// The placeholder shown when the device-list query itself failed.
pub open spec fn listing_failed_text(detail: Seq<char>) -> Seq<char> {
    "Failed to get list of connected devices from usbmuxd! "@ + detail
}

fn unavailable_message(platform: Platform, detail: &String) -> (r: String)
    ensures
        r@ == unavailable_text(platform, detail@),
{
    let mut m = "Failed to connect to usbmuxd! ".to_owned();
    match platform {
        Platform::Windows => m.append(
            "Make sure you have iTunes installed from Apple's website, and that it's running.",
        ),
        Platform::MacOs => m.append(
            "usbmuxd should be running by default on MacOS. Please raise an issue on GitHub.",
        ),
        Platform::Other => m.append("Make sure usbmuxd is installed and running."),
    }
    m.append("\n\n");
    m.append(detail.as_str());
    m
}

fn listing_failed_message(detail: &String) -> (r: String)
    ensures
        r@ == listing_failed_text(detail@),
{
    let mut m = "Failed to get list of connected devices from usbmuxd! ".to_owned();
    m.append(detail.as_str());
    m
}

/// One of the three filter fields.
pub enum FilterAxis {
    Plane,
    Entry,
    Class,
}

/// An axis text as a filter: empty input means no filter on that axis.
pub open spec fn normalized(s: Seq<char>) -> Option<Seq<char>> {
    if s.len() == 0 {
        None
    } else {
        Some(s)
    }
}

fn normalize(s: &String) -> (r: Option<String>)
    ensures
        axis_view(r) == normalized(s@),
{
    if s.as_str().is_empty() {
        None
    } else {
        Some(s.clone())
    }
}

/// Why an export is refused.
#[derive(Debug)]
pub enum ExportError {
    /// No registry snapshot is present, so there is nothing to write.
    NoSnapshot,
}

/// Everything the UI displays and edits.
pub struct UiState {
    pub platform: Platform,
    /// The roster, or `None` until the first successful enumeration,
    /// while the placeholder is shown instead.
    pub roster: Option<Roster>,
    pub roster_placeholder: String,
    pub selected_device: String,
    /// The info panel, or `None` while nothing (or nothing fresh) is known.
    pub device_info: Option<Vec<(String, String)>>,
    /// The registry snapshot of the last successful query, if any.
    pub snapshot: Option<plist::Dictionary>,
    /// The failure text of the last attempted export, if it failed.
    pub save_error: Option<String>,
    pub plane: String,
    pub entry: String,
    pub class: String,
}

/// The filter triple the current field texts denote.
pub open spec fn current_filter(s: UiState) -> FilterModel {
    FilterModel {
        plane: normalized(s.plane@),
        entry: normalized(s.entry@),
        class: normalized(s.class@),
    }
}

impl UiState {
    /// The state at startup: no roster yet, everything else empty.
    pub fn new(platform: Platform) -> (s: UiState)
        ensures
            s.platform == platform,
            s.roster is None,
            s.roster_placeholder@ == "Loading..."@,
            s.selected_device@ == Seq::<char>::empty(),
            s.device_info is None,
            s.snapshot is None,
            s.save_error is None,
            s.plane@ == Seq::<char>::empty(),
            s.entry@ == Seq::<char>::empty(),
            s.class@ == Seq::<char>::empty(),
    {
        UiState {
            platform,
            roster: None,
            roster_placeholder: "Loading...".to_owned(),
            selected_device: String::new(),
            device_info: None,
            snapshot: None,
            save_error: None,
            plane: String::new(),
            entry: String::new(),
            class: String::new(),
        }
    }

    /// Applies one polled result: a direct overwrite of the one panel the
    /// result is for; every other field stands as it was.
    pub fn apply_result(&mut self, r: WorkerResult)
        ensures
            final(self).platform == old(self).platform,
            final(self).selected_device == old(self).selected_device,
            final(self).save_error == old(self).save_error,
            final(self).plane == old(self).plane,
            final(self).entry == old(self).entry,
            final(self).class == old(self).class,
            match r {
                WorkerResult::ServiceUnavailable(d) => {
                    &&& final(self).roster_placeholder@ == unavailable_text(
                        old(self).platform,
                        d@,
                    )
                    &&& final(self).roster == old(self).roster
                    &&& final(self).device_info == old(self).device_info
                    &&& final(self).snapshot == old(self).snapshot
                },
                WorkerResult::EnumerationFailed(d) => {
                    &&& final(self).roster_placeholder@ == listing_failed_text(d@)
                    &&& final(self).roster == old(self).roster
                    &&& final(self).device_info == old(self).device_info
                    &&& final(self).snapshot == old(self).snapshot
                },
                WorkerResult::EnumerationOk(ro) => {
                    &&& final(self).roster == Some(ro)
                    &&& final(self).roster_placeholder == old(self).roster_placeholder
                    &&& final(self).device_info == old(self).device_info
                    &&& final(self).snapshot == old(self).snapshot
                },
                WorkerResult::InfoOk(rows) => {
                    &&& final(self).device_info == Some(rows)
                    &&& final(self).roster == old(self).roster
                    &&& final(self).roster_placeholder == old(self).roster_placeholder
                    &&& final(self).snapshot == old(self).snapshot
                },
                WorkerResult::RegistryOk(doc) => {
                    &&& final(self).snapshot == doc
                    &&& final(self).roster == old(self).roster
                    &&& final(self).roster_placeholder == old(self).roster_placeholder
                    &&& final(self).device_info == old(self).device_info
                },
            },
    {
        match r {
            WorkerResult::ServiceUnavailable(d) => {
                self.roster_placeholder = unavailable_message(self.platform, &d);
            },
            WorkerResult::EnumerationFailed(d) => {
                self.roster_placeholder = listing_failed_message(&d);
            },
            WorkerResult::EnumerationOk(ro) => {
                self.roster = Some(ro);
            },
            WorkerResult::InfoOk(rows) => {
                self.device_info = Some(rows);
            },
            WorkerResult::RegistryOk(doc) => {
                self.snapshot = doc;
            },
        }
    }

    /// Selects a device by display name: the selection is recorded, the
    /// info panel is cleared at once, and the fetch of the device's info
    /// is handed back for enqueueing.
    pub fn select_device(&mut self, name: String) -> (cmd: Option<Command>)
        requires
            old(self).roster matches Some(ro) ==> ro.wf(),
        ensures
            final(self).selected_device == name,
            final(self).device_info is None,
            final(self).platform == old(self).platform,
            final(self).roster == old(self).roster,
            final(self).roster_placeholder == old(self).roster_placeholder,
            final(self).snapshot == old(self).snapshot,
            final(self).save_error == old(self).save_error,
            final(self).plane == old(self).plane,
            final(self).entry == old(self).entry,
            final(self).class == old(self).class,
            match old(self).roster {
                Some(ro) => if ro.as_map().dom().contains(name@) {
                    cmd == Some(Command::FetchInfo(ro.as_map()[name@]))
                } else {
                    cmd is None
                },
                None => cmd is None,
            },
    {
        self.device_info = None;
        let cmd = match &self.roster {
            Some(ro) => match ro.get(&name) {
                Some(d) => Some(Command::FetchInfo(d.clone())),
                None => None,
            },
            None => None,
        };
        self.selected_device = name;
        cmd
    }

    /// Records one edited filter field and, while a device is selected,
    /// hands back the registry query that the edit triggers. Every edit
    /// yields one query — repeating an unchanged text included.
    pub fn edit_filter(&mut self, axis: FilterAxis, text: String) -> (cmd: Option<Command>)
        requires
            old(self).roster matches Some(ro) ==> ro.wf(),
        ensures
            final(self).plane == (if axis is Plane {
                text
            } else {
                old(self).plane
            }),
            final(self).entry == (if axis is Entry {
                text
            } else {
                old(self).entry
            }),
            final(self).class == (if axis is Class {
                text
            } else {
                old(self).class
            }),
            final(self).platform == old(self).platform,
            final(self).roster == old(self).roster,
            final(self).roster_placeholder == old(self).roster_placeholder,
            final(self).selected_device == old(self).selected_device,
            final(self).device_info == old(self).device_info,
            final(self).snapshot == old(self).snapshot,
            final(self).save_error == old(self).save_error,
            match old(self).roster {
                Some(ro) => if ro.as_map().dom().contains(old(self).selected_device@) {
                    cmd matches Some(c) && (c matches Command::FetchRegistry(dev, f)
                        && dev == ro.as_map()[old(self).selected_device@] && f@ == current_filter(
                        *final(self),
                    ))
                } else {
                    cmd is None
                },
                None => cmd is None,
            },
    {
        match axis {
            FilterAxis::Plane => {
                self.plane = text;
            },
            FilterAxis::Entry => {
                self.entry = text;
            },
            FilterAxis::Class => {
                self.class = text;
            },
        }
        match &self.roster {
            Some(ro) => match ro.get(&self.selected_device) {
                Some(d) => {
                    let f = FilterTriple {
                        plane: normalize(&self.plane),
                        entry: normalize(&self.entry),
                        class: normalize(&self.class),
                    };
                    Some(Command::FetchRegistry(d.clone(), f))
                },
                None => None,
            },
            None => None,
        }
    }

    /// The registry snapshot to export. With no snapshot present there is
    /// nothing to write, and asking is answered with an error rather than
    /// an empty or corrupt file.
    pub fn export_snapshot(&self) -> (r: Result<&plist::Dictionary, ExportError>)
        ensures
            match self.snapshot {
                Some(doc) => (r matches Ok(d) && *d == doc),
                None => r == Err::<&plist::Dictionary, ExportError>(ExportError::NoSnapshot),
            },
    {
        match &self.snapshot {
            Some(doc) => Ok(doc),
            None => Err(ExportError::NoSnapshot),
        }
    }

    /// Records the outcome of the last attempted export.
    pub fn set_save_error(&mut self, err: Option<String>)
        ensures
            final(self).save_error == err,
            final(self).platform == old(self).platform,
            final(self).roster == old(self).roster,
            final(self).roster_placeholder == old(self).roster_placeholder,
            final(self).selected_device == old(self).selected_device,
            final(self).device_info == old(self).device_info,
            final(self).snapshot == old(self).snapshot,
            final(self).plane == old(self).plane,
            final(self).entry == old(self).entry,
            final(self).class == old(self).class,
    {
        self.save_error = err;
    }
}

/// The info panel after a sequence of results is applied in order to a
/// panel initially holding `init`.
pub open spec fn info_after(
    init: Option<Seq<(Seq<char>, Seq<char>)>>,
    rs: Seq<ResultModel>,
) -> Option<Seq<(Seq<char>, Seq<char>)>>
    decreases rs.len(),
{
    if rs.len() == 0 {
        init
    } else {
        match rs.last() {
            ResultModel::InfoOk(rows) => Some(rows),
            _ => info_after(init, rs.drop_last()),
        }
    }
}

/// A fetch whose connection work failed emits no result at all, so the
/// info panel holds exactly what it held before, whatever that was.
pub proof fn lemma_failed_fetch_keeps_info(
    cmd: Command,
    out: IoOutcome,
    init: Option<Seq<(Seq<char>, Seq<char>)>>,
)
    requires
        (out matches IoOutcome::Handshake(h) && h is None) || (out matches IoOutcome::Registry(
        q) && q is None),
    ensures
        info_after(init, emitted(cmd, out)) == init,
{
}

/// Selecting one device and then a second before any result arrives
/// enqueues the two info fetches in that order; once both results drain
/// in queue order, the info panel holds the second device's rows — the
/// later selection wins, whatever the panel held before.
pub proof fn lemma_last_selection_wins(
    m: Map<Seq<char>, UsbmuxdDevice>,
    first: Seq<char>,
    second: Seq<char>,
    p1: PropertySet,
    p2: PropertySet,
    init: Option<Seq<(Seq<char>, Seq<char>)>>,
)
    requires
        m.dom().contains(first),
        m.dom().contains(second),
    ensures
        ({
            let cmds = seq![Command::FetchInfo(m[first]), Command::FetchInfo(m[second])];
            let outs = seq![
                IoOutcome::Handshake(Some(p1)),
                IoOutcome::Handshake(Some(p2)),
            ];
            &&& results_of(cmds, outs) == seq![
                ResultModel::InfoOk(info_model(p1@)),
                ResultModel::InfoOk(info_model(p2@)),
            ]
            &&& info_after(init, results_of(cmds, outs)) == Some(info_model(p2@))
        }),
{
    let cmds = seq![Command::FetchInfo(m[first]), Command::FetchInfo(m[second])];
    let outs = seq![IoOutcome::Handshake(Some(p1)), IoOutcome::Handshake(Some(p2))];
    let ctail = cmds.subrange(1, 2);
    let otail = outs.subrange(1, 2);
    assert(ctail =~= seq![Command::FetchInfo(m[second])]);
    assert(otail =~= seq![IoOutcome::Handshake(Some(p2))]);
    assert(ctail.subrange(1, 1) =~= Seq::<Command>::empty());
    assert(otail.subrange(1, 1) =~= Seq::<IoOutcome>::empty());
    assert(results_of(ctail.subrange(1, 1), otail.subrange(1, 1)) == Seq::<ResultModel>::empty());
    assert(results_of(ctail, otail) == emitted(ctail[0], otail[0]) + results_of(
        ctail.subrange(1, 1),
        otail.subrange(1, 1),
    ));
    assert(results_of(cmds, outs) == emitted(cmds[0], outs[0]) + results_of(ctail, otail));
    let rs = seq![ResultModel::InfoOk(info_model(p1@)), ResultModel::InfoOk(info_model(p2@))];
    assert(results_of(cmds, outs) =~= rs);
    assert(rs.last() == ResultModel::InfoOk(info_model(p2@)));
}

} // verus!
