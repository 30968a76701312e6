//! The typed messages of the pipeline: commands from the UI to the worker,
//! results from the worker back to the UI, and their models.

use vstd::prelude::*;
use idevice::usbmuxd::UsbmuxdDevice;
use crate::roster::Roster;

verus! {

/// The three optional filter axes of a registry query; `None` leaves an
/// axis unfiltered.
pub struct FilterTriple {
    pub plane: Option<String>,
    pub entry: Option<String>,
    pub class: Option<String>,
}

/// The model of a filter triple: the three axis texts.
pub struct FilterModel {
    pub plane: Option<Seq<char>>,
    pub entry: Option<Seq<char>>,
    pub class: Option<Seq<char>>,
}

/// The text of an optional filter axis.
pub open spec fn axis_view(a: Option<String>) -> Option<Seq<char>> {
    match a {
        Some(s) => Some(s@),
        None => None,
    }
}

impl View for FilterTriple {
    type V = FilterModel;

    open spec fn view(&self) -> FilterModel {
        FilterModel {
            plane: axis_view(self.plane),
            entry: axis_view(self.entry),
            class: axis_view(self.class),
        }
    }
}

/// One device-facing operation, immutable once enqueued. The worker
/// executes these strictly in arrival order.
pub enum Command {
    /// List the attached devices and probe each for its display name.
    Enumerate,
    /// Fetch the fixed info rows of one device.
    FetchInfo(UsbmuxdDevice),
    /// Query one device's registry under the given filter.
    FetchRegistry(UsbmuxdDevice, FilterTriple),
}

/// One typed answer from the worker, immutable once enqueued.
pub enum WorkerResult {
    /// The device multiplexer itself could not be reached.
    ServiceUnavailable(String),
    /// The multiplexer answered but the device-list query failed.
    EnumerationFailed(String),
    /// The freshly built roster, replacing any earlier one.
    EnumerationOk(Roster),
    /// The info rows of the queried device, in display order.
    InfoOk(Vec<(String, String)>),
    /// The queried registry document, or `None` for an empty answer.
    RegistryOk(Option<plist::Dictionary>),
}

/// The model of a result: texts, the roster's map, the info rows' texts.
pub enum ResultModel {
    ServiceUnavailable(Seq<char>),
    EnumerationFailed(Seq<char>),
    EnumerationOk(Map<Seq<char>, UsbmuxdDevice>),
    InfoOk(Seq<(Seq<char>, Seq<char>)>),
    RegistryOk(Option<plist::Dictionary>),
}

/// The texts of a sequence of string pairs.
pub open spec fn pairs_view(v: Seq<(String, String)>) -> Seq<(Seq<char>, Seq<char>)> {
    Seq::new(v.len(), |i: int| (v[i].0@, v[i].1@))
}

impl View for WorkerResult {
    type V = ResultModel;

    open spec fn view(&self) -> ResultModel {
        match self {
            WorkerResult::ServiceUnavailable(d) => ResultModel::ServiceUnavailable(d@),
            WorkerResult::EnumerationFailed(d) => ResultModel::EnumerationFailed(d@),
            WorkerResult::EnumerationOk(r) => ResultModel::EnumerationOk(r.as_map()),
            WorkerResult::InfoOk(rows) => ResultModel::InfoOk(pairs_view(rows@)),
            WorkerResult::RegistryOk(d) => ResultModel::RegistryOk(*d),
        }
    }
}

/// The models of a sequence of results.
pub open spec fn results_view(rs: Seq<WorkerResult>) -> Seq<ResultModel> {
    Seq::new(rs.len(), |i: int| rs[i]@)
}

} // verus!
