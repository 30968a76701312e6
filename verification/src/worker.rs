//! The worker's computation: what each command turns into, given what its
//! connection work yielded.
//!
//! The worker is a single serialized executor. All device I/O — connecting
//! to the multiplexer, handshaking, querying — happens outside; its outcome
//! is handed in as a value, and everything decided from that value is
//! verified here: roster building, info extraction, and which result (if
//! any) a command emits.

use vstd::prelude::*;
use idevice::usbmuxd::UsbmuxdDevice;
use crate::message::{Command, ResultModel, WorkerResult, pairs_view, results_view};
use crate::props::{PropertySet, text_of};
use crate::roster::{Roster, lemma_map_of_len};

verus! {

/// One device as enumeration saw it: the handle, and the property set its
/// handshake returned, or `None` when the handshake failed.
pub struct DeviceProbe {
    pub device: UsbmuxdDevice,
    pub handshake: Option<PropertySet>,
}

/// The display name a probe contributes: present exactly when the
/// handshake succeeded and the device reports a string-typed `DeviceName`.
pub open spec fn probe_name(p: DeviceProbe) -> Option<Seq<char>> {
    match p.handshake {
        Some(props) => text_of(props@, "DeviceName"@),
        None => None,
    }
}

/// The roster enumeration builds: probes in order, named ones inserted,
/// a name collision overwritten by the later probe.
pub open spec fn roster_model(probes: Seq<DeviceProbe>) -> Map<Seq<char>, UsbmuxdDevice>
    decreases probes.len(),
{
    if probes.len() == 0 {
        Map::empty()
    } else {
        let m = roster_model(probes.drop_last());
        match probe_name(probes.last()) {
            Some(n) => m.insert(n, probes.last().device),
            None => m,
        }
    }
}

/// How many probes carry a display name.
pub open spec fn named_count(probes: Seq<DeviceProbe>) -> nat
    decreases probes.len(),
{
    if probes.len() == 0 {
        0
    } else {
        named_count(probes.drop_last()) + (if probe_name(probes.last()) is Some {
            1nat
        } else {
            0nat
        })
    }
}

/// A device lacking the display-name property never appears: the roster
/// has at most one entry per named probe, and every entry is some probe's
/// name.
pub proof fn lemma_roster_from_named_probes(probes: Seq<DeviceProbe>)
    ensures
        roster_model(probes).dom().finite(),
        roster_model(probes).dom().len() <= named_count(probes),
        forall|k: Seq<char>|
            roster_model(probes).dom().contains(k) ==> (exists|i: int|
                0 <= i < probes.len() && probe_name(probes[i]) == Some(k)),
    decreases probes.len(),
{
    if probes.len() == 0 {
        assert(roster_model(probes).dom() =~= Set::<Seq<char>>::empty());
    } else {
        lemma_roster_from_named_probes(probes.drop_last());
        let m0 = roster_model(probes.drop_last());
        assert forall|k: Seq<char>| roster_model(probes).dom().contains(k) implies (exists|i: int|
            0 <= i < probes.len() && probe_name(probes[i]) == Some(k)) by {
            if probe_name(probes.last()) == Some(k) {
                assert(probe_name(probes[probes.len() - 1]) == Some(k));
            } else {
                assert(m0.dom().contains(k));
                let i = choose|i: int|
                    0 <= i < probes.drop_last().len() && probe_name(probes.drop_last()[i]) == Some(
                        k,
                    );
                assert(probe_name(probes[i]) == Some(k));
            }
        }
    }
}

/// Builds the roster from the probes, in order: a probe whose handshake
/// failed or whose property set lacks a string-typed `DeviceName` is
/// silently left out; a later probe under an already-present name wins.
pub fn build_roster(probes: &Vec<DeviceProbe>) -> (r: Roster)
    ensures
        r.wf(),
        r.as_map() == roster_model(probes@),
        r.as_map().dom().len() == r@.len(),
        r@.len() <= named_count(probes@),
{
    let mut r = Roster::new();
    let n = probes.len();
    let mut i: usize = 0;
    proof {
        assert(probes@.subrange(0, 0) =~= Seq::<DeviceProbe>::empty());
    }
    while i < n
        invariant
            i <= n,
            n == probes@.len(),
            r.wf(),
            r.as_map() == roster_model(probes@.subrange(0, i as int)),
            r@.len() <= named_count(probes@.subrange(0, i as int)),
        decreases n - i,
    {
        let ghost pre = probes@.subrange(0, i as int);
        let ghost post = probes@.subrange(0, i as int + 1);
        proof {
            assert(post.drop_last() =~= pre);
            assert(post.last() == probes@[i as int]);
        }
        match &probes[i].handshake {
            Some(props) => {
                let key = "DeviceName".to_owned();
                match props.get_text(&key) {
                    Some(name) => {
                        r.insert(name, probes[i].device.clone());
                    },
                    None => {},
                }
            },
            None => {},
        }
        i += 1;
    }
    proof {
        assert(probes@.subrange(0, n as int) =~= probes@);
        lemma_map_of_len(r@);
    }
    r
}

/// The info panel's fixed display order: label, then property key.
pub open spec fn info_fields() -> Seq<(Seq<char>, Seq<char>)> {
    seq![
        ("Device Name"@, "DeviceName"@),
        ("Model"@, "ProductType"@),
        ("iOS Version"@, "ProductVersion"@),
        ("Build Number"@, "BuildVersion"@),
        ("UDID"@, "UniqueDeviceID"@),
    ]
}

/// The row one field yields: its label and the property's text, or
/// nothing when the property is absent or not a string.
pub open spec fn row_of(
    props: Seq<(Seq<char>, Option<Seq<char>>)>,
    label: Seq<char>,
    key: Seq<char>,
) -> Seq<(Seq<char>, Seq<char>)> {
    match text_of(props, key) {
        Some(v) => seq![(label, v)],
        None => Seq::empty(),
    }
}

/// The rows a property set yields for the given fields, in field order.
pub open spec fn info_rows(
    props: Seq<(Seq<char>, Option<Seq<char>>)>,
    fields: Seq<(Seq<char>, Seq<char>)>,
) -> Seq<(Seq<char>, Seq<char>)>
    decreases fields.len(),
{
    if fields.len() == 0 {
        Seq::empty()
    } else {
        info_rows(props, fields.drop_last()) + row_of(props, fields.last().0, fields.last().1)
    }
}

/// The full info panel contents for one property set.
pub open spec fn info_model(props: Seq<(Seq<char>, Option<Seq<char>>)>) -> Seq<
    (Seq<char>, Seq<char>),
> {
    info_rows(props, info_fields())
}

/// Appends one field's row, if its property is present with a text.
fn push_row(out: &mut Vec<(String, String)>, props: &PropertySet, label: &str, key: &str)
    ensures
        pairs_view(final(out)@) == pairs_view(old(out)@) + row_of(props@, label@, key@),
{
    let k = key.to_owned();
    match props.get_text(&k) {
        Some(v) => {
            let ghost before = out@;
            out.push((label.to_owned(), v));
            proof {
                assert(pairs_view(out@) =~= pairs_view(before) + row_of(props@, label@, key@));
            }
        },
        None => {
            proof {
                assert(pairs_view(out@) =~= pairs_view(out@) + row_of(props@, label@, key@));
            }
        },
    }
}

/// Extracts the fixed, ordered info rows from a device's property set,
/// skipping every field whose property is absent or not a string.
pub fn extract_device_info(props: &PropertySet) -> (r: Vec<(String, String)>)
    ensures
        pairs_view(r@) == info_model(props@),
{
    let mut out: Vec<(String, String)> = Vec::new();
    proof {
        assert(pairs_view(out@) =~= Seq::<(Seq<char>, Seq<char>)>::empty());
    }
    push_row(&mut out, props, "Device Name", "DeviceName");
    push_row(&mut out, props, "Model", "ProductType");
    push_row(&mut out, props, "iOS Version", "ProductVersion");
    push_row(&mut out, props, "Build Number", "BuildVersion");
    push_row(&mut out, props, "UDID", "UniqueDeviceID");
    proof {
        let fs = info_fields();
        let f4 = fs.drop_last();
        let f3 = f4.drop_last();
        let f2 = f3.drop_last();
        let f1 = f2.drop_last();
        let f0 = f1.drop_last();
        assert(f0 =~= Seq::<(Seq<char>, Seq<char>)>::empty());
        assert(f1 =~= seq![("Device Name"@, "DeviceName"@)]);
        assert(f2 =~= seq![("Device Name"@, "DeviceName"@), ("Model"@, "ProductType"@)]);
        assert(f3 =~= seq![
            ("Device Name"@, "DeviceName"@),
            ("Model"@, "ProductType"@),
            ("iOS Version"@, "ProductVersion"@),
        ]);
        assert(f4 =~= seq![
            ("Device Name"@, "DeviceName"@),
            ("Model"@, "ProductType"@),
            ("iOS Version"@, "ProductVersion"@),
            ("Build Number"@, "BuildVersion"@),
        ]);
        assert(info_rows(props@, f0) == Seq::<(Seq<char>, Seq<char>)>::empty());
        assert(info_rows(props@, f1) == info_rows(props@, f0) + row_of(
            props@,
            "Device Name"@,
            "DeviceName"@,
        ));
        assert(info_rows(props@, f2) == info_rows(props@, f1) + row_of(
            props@,
            "Model"@,
            "ProductType"@,
        ));
        assert(info_rows(props@, f3) == info_rows(props@, f2) + row_of(
            props@,
            "iOS Version"@,
            "ProductVersion"@,
        ));
        assert(info_rows(props@, f4) == info_rows(props@, f3) + row_of(
            props@,
            "Build Number"@,
            "BuildVersion"@,
        ));
        assert(info_rows(props@, fs) == info_rows(props@, f4) + row_of(
            props@,
            "UDID"@,
            "UniqueDeviceID"@,
        ));
        assert(pairs_view(out@) =~= info_rows(props@, fs));
    }
    out
}

/// What enumeration's connection work yielded.
pub enum EnumerationOutcome {
    /// The device multiplexer itself could not be reached.
    NoService(String),
    /// The multiplexer answered but the device-list query failed.
    ListingFailed(String),
    /// The device list, each device probed by one handshake attempt.
    Listed(Vec<DeviceProbe>),
}

/// What the connection work of one command yielded; the worker turns it
/// into at most one result.
pub enum IoOutcome {
    /// For `Enumerate`.
    Enumeration(EnumerationOutcome),
    /// For `FetchInfo`: the property set, or `None` when connecting or
    /// fetching failed.
    Handshake(Option<PropertySet>),
    /// For `FetchRegistry`: the answered document (`Some(None)` for an
    /// empty answer), or `None` when connecting or querying failed.
    Registry(Option<Option<plist::Dictionary>>),
}

/// Whether an outcome has the shape the command's connection work yields.
pub open spec fn outcome_fits(cmd: Command, out: IoOutcome) -> bool {
    match cmd {
        Command::Enumerate => out is Enumeration,
        Command::FetchInfo(_) => out is Handshake,
        Command::FetchRegistry(_, _) => out is Registry,
    }
}

/// The results one executed command emits, in order: exactly one for
/// enumeration, at most one for a fetch (a failed fetch emits nothing).
pub open spec fn emitted(cmd: Command, out: IoOutcome) -> Seq<ResultModel> {
    match out {
        IoOutcome::Enumeration(e) => match e {
            EnumerationOutcome::NoService(d) => seq![ResultModel::ServiceUnavailable(d@)],
            EnumerationOutcome::ListingFailed(d) => seq![ResultModel::EnumerationFailed(d@)],
            EnumerationOutcome::Listed(probes) => seq![
                ResultModel::EnumerationOk(roster_model(probes@)),
            ],
        },
        IoOutcome::Handshake(h) => match h {
            Some(props) => seq![ResultModel::InfoOk(info_model(props@))],
            None => Seq::empty(),
        },
        IoOutcome::Registry(q) => match q {
            Some(doc) => seq![ResultModel::RegistryOk(doc)],
            None => Seq::empty(),
        },
    }
}

/// Executes one command, given what its connection work yielded. A failed
/// fetch emits nothing and never halts the worker; enumeration always
/// answers exactly once, with one of its three result kinds.
pub fn execute(cmd: &Command, out: IoOutcome) -> (r: Option<WorkerResult>)
    requires
        outcome_fits(*cmd, out),
    ensures
        match r {
            Some(res) => emitted(*cmd, out) == seq![res@],
            None => emitted(*cmd, out) == Seq::<ResultModel>::empty(),
        },
        *cmd is Enumerate ==> (r matches Some(res) && (res is ServiceUnavailable
            || res is EnumerationFailed || res is EnumerationOk)),
{
    match out {
        IoOutcome::Enumeration(e) => match e {
            EnumerationOutcome::NoService(d) => Some(WorkerResult::ServiceUnavailable(d)),
            EnumerationOutcome::ListingFailed(d) => Some(WorkerResult::EnumerationFailed(d)),
            EnumerationOutcome::Listed(probes) => {
                let roster = build_roster(&probes);
                Some(WorkerResult::EnumerationOk(roster))
            },
        },
        IoOutcome::Handshake(h) => match h {
            Some(props) => Some(WorkerResult::InfoOk(extract_device_info(&props))),
            None => None,
        },
        IoOutcome::Registry(q) => match q {
            Some(doc) => Some(WorkerResult::RegistryOk(doc)),
            None => None,
        },
    }
}

/// The results a command sequence yields: command by command, in order,
/// each command's results before any later command's.
pub open spec fn results_of(cmds: Seq<Command>, outs: Seq<IoOutcome>) -> Seq<ResultModel>
    decreases cmds.len(),
{
    if cmds.len() == 0 || outs.len() == 0 {
        Seq::empty()
    } else {
        emitted(cmds[0], outs[0]) + results_of(
            cmds.subrange(1, cmds.len() as int),
            outs.subrange(1, outs.len() as int),
        )
    }
}

/// FIFO preservation: splitting the command sequence anywhere splits the
/// result sequence the same way, so results arrive in the relative order
/// their commands were enqueued.
pub proof fn lemma_results_fifo(
    cs1: Seq<Command>,
    os1: Seq<IoOutcome>,
    cs2: Seq<Command>,
    os2: Seq<IoOutcome>,
)
    requires
        cs1.len() == os1.len(),
    ensures
        results_of(cs1 + cs2, os1 + os2) == results_of(cs1, os1) + results_of(cs2, os2),
    decreases cs1.len(),
{
    if cs1.len() == 0 {
        assert(cs1 + cs2 =~= cs2);
        assert(os1 + os2 =~= os2);
        assert(results_of(cs1, os1) + results_of(cs2, os2) =~= results_of(cs2, os2));
    } else {
        let cs1t = cs1.subrange(1, cs1.len() as int);
        let os1t = os1.subrange(1, os1.len() as int);
        lemma_results_fifo(cs1t, os1t, cs2, os2);
        let all_c = cs1 + cs2;
        let all_o = os1 + os2;
        assert(all_c[0] == cs1[0]);
        assert(all_o[0] == os1[0]);
        assert(all_c.subrange(1, all_c.len() as int) =~= cs1t + cs2);
        assert(all_o.subrange(1, all_o.len() as int) =~= os1t + os2);
        assert(emitted(cs1[0], os1[0]) + (results_of(cs1t, os1t) + results_of(cs2, os2)) =~= (
        emitted(cs1[0], os1[0]) + results_of(cs1t, os1t)) + results_of(cs2, os2));
    }
}

/// Enumeration answers exactly once: one service-unavailable failure, one
/// listing failure, or one roster — never zero, never more.
pub proof fn lemma_enumerate_answers_once(cmd: Command, out: IoOutcome)
    requires
        cmd is Enumerate,
        outcome_fits(cmd, out),
    ensures
        emitted(cmd, out).len() == 1,
        emitted(cmd, out)[0] is ServiceUnavailable || emitted(cmd, out)[0] is EnumerationFailed
            || emitted(cmd, out)[0] is EnumerationOk,
{
}

/// A fetch whose connection work failed emits nothing at all, so the
/// panel it would have updated is left exactly as it stands.
pub proof fn lemma_failed_fetch_emits_nothing(cmd: Command, out: IoOutcome)
    requires
        (out matches IoOutcome::Handshake(h) && h is None) || (out matches IoOutcome::Registry(
        q) && q is None),
    ensures
        emitted(cmd, out) == Seq::<ResultModel>::empty(),
{
}

/// Runs a drained batch of commands strictly in order, collecting every
/// emitted result in order: the worker loop over one queue's contents.
pub fn run_commands(cmds: Vec<Command>, outs: Vec<IoOutcome>) -> (r: Vec<WorkerResult>)
    requires
        cmds@.len() == outs@.len(),
        forall|i: int| 0 <= i < cmds@.len() ==> outcome_fits(cmds@[i], #[trigger] outs@[i]),
    ensures
        results_view(r@) == results_of(cmds@, outs@),
{
    let ghost cs0 = cmds@;
    let ghost os0 = outs@;
    let mut cmds = cmds;
    let mut outs = outs;
    let mut r: Vec<WorkerResult> = Vec::new();
    proof {
        assert(results_view(r@) =~= Seq::<ResultModel>::empty());
        assert(results_view(r@) + results_of(cmds@, outs@) =~= results_of(cs0, os0));
    }
    while cmds.len() > 0
        invariant
            cmds@.len() == outs@.len(),
            forall|i: int| 0 <= i < cmds@.len() ==> outcome_fits(cmds@[i], #[trigger] outs@[i]),
            results_view(r@) + results_of(cmds@, outs@) == results_of(cs0, os0),
        decreases cmds@.len(),
    {
        let ghost cs_pre = cmds@;
        let ghost os_pre = outs@;
        let c = cmds.remove(0);
        let o = outs.remove(0);
        proof {
            assert(cmds@ =~= cs_pre.subrange(1, cs_pre.len() as int));
            assert(outs@ =~= os_pre.subrange(1, os_pre.len() as int));
            assert(forall|i: int|
                0 <= i < cmds@.len() ==> outcome_fits(cmds@[i], #[trigger] outs@[i]));
        }
        let ghost r_pre = r@;
        match execute(&c, o) {
            Some(res) => {
                r.push(res);
                proof {
                    assert(results_view(r@) =~= results_view(r_pre) + seq![res@]);
                    assert((results_view(r_pre) + seq![res@]) + results_of(cmds@, outs@) =~= results_view(
                        r_pre,
                    ) + (seq![res@] + results_of(cmds@, outs@)));
                }
            },
            None => {
                proof {
                    assert(Seq::<ResultModel>::empty() + results_of(cmds@, outs@) =~= results_of(
                        cmds@,
                        outs@,
                    ));
                }
            },
        }
    }
    proof {
        assert(results_of(cmds@, outs@) == Seq::<ResultModel>::empty());
        assert(results_view(r@) + Seq::<ResultModel>::empty() =~= results_view(r@));
    }
    r
}

} // verus!
