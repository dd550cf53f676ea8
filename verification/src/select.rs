use vstd::prelude::*;
use vstd::string::StringExecFns;
use vstd::utf8::encode_utf8;
use crate::catalog::DeviceView;
use crate::catalog::EnumeratedDevice;
use crate::catalog::devices_view;
use crate::errors::CaptureError;
use crate::text::contains_bytes;
use crate::text::contains_seq;
use crate::text::lower_bytes;
use crate::text::to_lower_bytes;

verus! {

// Device selection. Working over a catalog of plain values, the policy
// either picks an entry, asks the caller to enumerate exhaustively and try
// again, or fails. Picking never falls back silently when the caller named
// a device.

/// The chosen catalog entry: its index, whether the index refers to the
/// expanded (exhaustively enumerated) catalog, and the fields a session
/// needs from it.
pub struct SelectedDevice {
    pub index: usize,
    pub from_expanded: bool,
    pub name: String,
    pub is_loopback: bool,
}

/// What one selection step decided.
pub enum SelectionStep {
    Chosen(SelectedDevice),
    /// Nothing preferable in the default-only catalog: enumerate every
    /// input and call `select_after_exhaustive`.
    NeedExhaustive,
    Failed(CaptureError),
}

/// `i` is the first catalog position satisfying `p`.
pub open spec fn first_such(cat: Seq<DeviceView>, i: int, p: spec_fn(DeviceView) -> bool) -> bool {
    &&& 0 <= i < cat.len()
    &&& p(cat[i])
    &&& forall|k: int| 0 <= k < i ==> !p(#[trigger] cat[k])
}

/// No catalog position satisfies `p`.
pub open spec fn none_such(cat: Seq<DeviceView>, p: spec_fn(DeviceView) -> bool) -> bool {
    forall|k: int| 0 <= k < cat.len() ==> !p(#[trigger] cat[k])
}

/// A source worth preferring in a virtualized context: not a loopback, and
/// its display name names a remote-desktop or audio-server source.
pub open spec fn preferred_spec(d: DeviceView) -> bool {
    let lower = lower_bytes(encode_utf8(d.name));
    &&& !d.is_loopback
    &&& {
        ||| contains_seq(lower, seq![114u8, 100u8, 112u8, 115u8, 111u8, 117u8, 114u8, 99u8, 101u8])  // rdpsource
        ||| contains_seq(lower, seq![112u8, 117u8, 108u8, 115u8, 101u8])  // pulse
    }
}

pub open spec fn has_id(d: DeviceView, id: Seq<char>) -> bool {
    d.id == id
}

pub open spec fn is_default_entry(d: DeviceView) -> bool {
    d.is_default
}

pub open spec fn is_loopback_entry(d: DeviceView) -> bool {
    d.is_loopback
}

/// A default, non-loopback entry: the fallback after an exhaustive pass.
pub open spec fn default_non_loopback(d: DeviceView) -> bool {
    d.is_default && !d.is_loopback
}

fn is_preferred(d: &EnumeratedDevice) -> (r: bool)
    ensures
        r == preferred_spec(d.view()),
{
    if d.is_loopback {
        return false;
    }
    let lower = to_lower_bytes(d.name.as_str().as_bytes());
    let rdpsource: Vec<u8> = vec![114u8, 100u8, 112u8, 115u8, 111u8, 117u8, 114u8, 99u8, 101u8];
    let pulse: Vec<u8> = vec![112u8, 117u8, 108u8, 115u8, 101u8];
    let r = contains_bytes(lower.as_slice(), rdpsource.as_slice()) || contains_bytes(
        lower.as_slice(),
        pulse.as_slice(),
    );
    proof {
        assert(rdpsource@ =~= seq![114u8, 100u8, 112u8, 115u8, 111u8, 117u8, 114u8, 99u8, 101u8]);
        assert(pulse@ =~= seq![112u8, 117u8, 108u8, 115u8, 101u8]);
    }
    r
}

fn find_preferred(catalog: &Vec<EnumeratedDevice>) -> (r: Option<usize>)
    ensures
        r matches Some(i) ==> first_such(
            devices_view(catalog@),
            i as int,
            |d: DeviceView| preferred_spec(d),
        ),
        r is None ==> none_such(devices_view(catalog@), |d: DeviceView| preferred_spec(d)),
{
    let ghost cv = devices_view(catalog@);
    let n = catalog.len();
    let mut i: usize = 0;
    while i < n
        invariant
            cv == devices_view(catalog@),
            n == catalog@.len(),
            i <= n,
            forall|k: int| 0 <= k < i ==> !preferred_spec(#[trigger] cv[k]),
        decreases n - i,
    {
        if is_preferred(&catalog[i]) {
            proof {
                assert(cv[i as int] == catalog@[i as int].view());
            }
            return Some(i);
        }
        proof {
            assert(cv[i as int] == catalog@[i as int].view());
        }
        i = i + 1;
    }
    None
}

fn find_by_id(catalog: &Vec<EnumeratedDevice>, id: &String) -> (r: Option<usize>)
    ensures
        r matches Some(i) ==> first_such(
            devices_view(catalog@),
            i as int,
            |d: DeviceView| has_id(d, id@),
        ),
        r is None ==> none_such(devices_view(catalog@), |d: DeviceView| has_id(d, id@)),
{
    let ghost cv = devices_view(catalog@);
    let n = catalog.len();
    let mut i: usize = 0;
    while i < n
        invariant
            cv == devices_view(catalog@),
            n == catalog@.len(),
            i <= n,
            forall|k: int| 0 <= k < i ==> !has_id(#[trigger] cv[k], id@),
        decreases n - i,
    {
        proof {
            assert(cv[i as int] == catalog@[i as int].view());
        }
        let e = &catalog[i].id;
        if *e == *id {
            return Some(i);
        }
        i = i + 1;
    }
    None
}

fn find_default(catalog: &Vec<EnumeratedDevice>, require_non_loopback: bool) -> (r: Option<usize>)
    ensures
        !require_non_loopback ==> (r matches Some(i) ==> first_such(
            devices_view(catalog@),
            i as int,
            |d: DeviceView| is_default_entry(d),
        )),
        !require_non_loopback ==> (r is None ==> none_such(
            devices_view(catalog@),
            |d: DeviceView| is_default_entry(d),
        )),
        require_non_loopback ==> (r matches Some(i) ==> first_such(
            devices_view(catalog@),
            i as int,
            |d: DeviceView| default_non_loopback(d),
        )),
        require_non_loopback ==> (r is None ==> none_such(
            devices_view(catalog@),
            |d: DeviceView| default_non_loopback(d),
        )),
{
    let ghost cv = devices_view(catalog@);
    let n = catalog.len();
    let mut i: usize = 0;
    while i < n
        invariant
            cv == devices_view(catalog@),
            n == catalog@.len(),
            i <= n,
            !require_non_loopback ==> forall|k: int|
                0 <= k < i ==> !is_default_entry(#[trigger] cv[k]),
            require_non_loopback ==> forall|k: int|
                0 <= k < i ==> !default_non_loopback(#[trigger] cv[k]),
        decreases n - i,
    {
        proof {
            assert(cv[i as int] == catalog@[i as int].view());
        }
        let hit = if require_non_loopback {
            catalog[i].is_default && !catalog[i].is_loopback
        } else {
            catalog[i].is_default
        };
        if hit {
            return Some(i);
        }
        i = i + 1;
    }
    None
}

fn find_loopback(catalog: &Vec<EnumeratedDevice>) -> (r: Option<usize>)
    ensures
        r matches Some(i) ==> first_such(
            devices_view(catalog@),
            i as int,
            |d: DeviceView| is_loopback_entry(d),
        ),
        r is None ==> none_such(devices_view(catalog@), |d: DeviceView| is_loopback_entry(d)),
{
    let ghost cv = devices_view(catalog@);
    let n = catalog.len();
    let mut i: usize = 0;
    while i < n
        invariant
            cv == devices_view(catalog@),
            n == catalog@.len(),
            i <= n,
            forall|k: int| 0 <= k < i ==> !is_loopback_entry(#[trigger] cv[k]),
        decreases n - i,
    {
        proof {
            assert(cv[i as int] == catalog@[i as int].view());
        }
        if catalog[i].is_loopback {
            return Some(i);
        }
        i = i + 1;
    }
    None
}

fn chosen_at(catalog: &Vec<EnumeratedDevice>, index: usize, from_expanded: bool) -> (r:
    SelectedDevice)
    requires
        index < catalog@.len(),
    ensures
        r.index == index,
        r.from_expanded == from_expanded,
        r.name@ == devices_view(catalog@)[index as int].name,
        r.is_loopback == devices_view(catalog@)[index as int].is_loopback,
{
    proof {
        assert(devices_view(catalog@)[index as int] == catalog@[index as int].view());
    }
    SelectedDevice {
        index,
        from_expanded,
        name: catalog[index].name.clone(),
        is_loopback: catalog[index].is_loopback,
    }
}

/// The fallback outcome over a catalog: the first default entry; else the
/// first loopback entry; else the first entry; an empty catalog fails.
pub open spec fn fallback_outcome_ok(cat: Seq<DeviceView>, r: SelectionStep) -> bool {
    if exists|k: int| 0 <= k < cat.len() && is_default_entry(#[trigger] cat[k]) {
        r matches SelectionStep::Chosen(s) && !s.from_expanded && first_such(
            cat,
            s.index as int,
            |d: DeviceView| is_default_entry(d),
        ) && s.name@ == cat[s.index as int].name && s.is_loopback == cat[s.index as int].is_loopback
    } else if exists|k: int| 0 <= k < cat.len() && is_loopback_entry(#[trigger] cat[k]) {
        r matches SelectionStep::Chosen(s) && !s.from_expanded && first_such(
            cat,
            s.index as int,
            |d: DeviceView| is_loopback_entry(d),
        ) && s.name@ == cat[s.index as int].name && s.is_loopback == cat[s.index as int].is_loopback
    } else if cat.len() > 0 {
        r matches SelectionStep::Chosen(s) && !s.from_expanded && s.index == 0 && s.name@ == cat[
            0
        ].name && s.is_loopback == cat[0].is_loopback
    } else {
        r matches SelectionStep::Failed(e) && e matches CaptureError::NoDevicesFound(m) && m@
            == "No Linux input devices found. If running in WSL2, ensure WSLg/PulseAudio is available and the host microphone is enabled."@
    }
}

fn select_fallback(catalog: &Vec<EnumeratedDevice>) -> (r: SelectionStep)
    ensures
        fallback_outcome_ok(devices_view(catalog@), r),
{
    match find_default(catalog, false) {
        Some(i) => {
            return SelectionStep::Chosen(chosen_at(catalog, i, false));
        },
        None => {},
    }
    match find_loopback(catalog) {
        Some(i) => {
            return SelectionStep::Chosen(chosen_at(catalog, i, false));
        },
        None => {},
    }
    if catalog.len() > 0 {
        return SelectionStep::Chosen(chosen_at(catalog, 0, false));
    }
    SelectionStep::Failed(
        CaptureError::NoDevicesFound(
            String::from_str(
                "No Linux input devices found. If running in WSL2, ensure WSLg/PulseAudio is available and the host microphone is enabled.",
            ),
        ),
    )
}

/// Select an input device from the catalog.
///
/// An explicitly requested id must match a cataloged device exactly, or the
/// step fails with `DeviceNotFound` — never a silent fallback. With no
/// requested id, a virtualized or audio-server context first looks for a
/// preferred source and may ask for an exhaustive pass; otherwise the
/// default device, the first loopback, or the first entry is taken, and an
/// empty catalog fails.
pub fn select_input_device(
    catalog: &Vec<EnumeratedDevice>,
    requested: &Option<String>,
    wsl_or_pulse: bool,
    enumerate_all_default: bool,
) -> (r: SelectionStep)
    ensures
        ({
            let cat = devices_view(catalog@);
            match requested {
                Some(id) => {
                    if exists|k: int| 0 <= k < cat.len() && has_id(#[trigger] cat[k], id@) {
                        r matches SelectionStep::Chosen(s) && !s.from_expanded && first_such(
                            cat,
                            s.index as int,
                            |d: DeviceView| has_id(d, id@),
                        ) && s.name@ == cat[s.index as int].name && s.is_loopback == cat[
                            s.index as int
                        ].is_loopback
                    } else {
                        r matches SelectionStep::Failed(e) && e matches
                            CaptureError::DeviceNotFound(m) && m@ == "Selected input device '"@
                            + id@
                            + "' is not available. Refresh the device list and try again."@
                    }
                },
                None => {
                    if wsl_or_pulse && exists|k: int|
                        0 <= k < cat.len() && preferred_spec(#[trigger] cat[k]) {
                        r matches SelectionStep::Chosen(s) && !s.from_expanded && first_such(
                            cat,
                            s.index as int,
                            |d: DeviceView| preferred_spec(d),
                        ) && s.name@ == cat[s.index as int].name && s.is_loopback == cat[
                            s.index as int
                        ].is_loopback
                    } else if wsl_or_pulse && !enumerate_all_default {
                        r is NeedExhaustive
                    } else {
                        fallback_outcome_ok(cat, r)
                    }
                },
            }
        }),
{
    match requested {
        Some(id) => {
            match find_by_id(catalog, id) {
                Some(i) => SelectionStep::Chosen(chosen_at(catalog, i, false)),
                None => {
                    let mut m = String::from_str("Selected input device '");
                    m.append(id.as_str());
                    m.append("' is not available. Refresh the device list and try again.");
                    SelectionStep::Failed(CaptureError::DeviceNotFound(m))
                },
            }
        },
        None => {
            if wsl_or_pulse {
                match find_preferred(catalog) {
                    Some(i) => {
                        return SelectionStep::Chosen(chosen_at(catalog, i, false));
                    },
                    None => {
                        if !enumerate_all_default {
                            return SelectionStep::NeedExhaustive;
                        }
                    },
                }
            }
            select_fallback(catalog)
        },
    }
}

/// Resume selection after the exhaustive pass `NeedExhaustive` asked for:
/// prefer a remote-desktop or audio-server source in the expanded catalog,
/// then its default non-loopback device, then fall back over the original
/// catalog as the plain policy would.
pub fn select_after_exhaustive(
    catalog: &Vec<EnumeratedDevice>,
    expanded: &Vec<EnumeratedDevice>,
) -> (r: SelectionStep)
    ensures
        ({
            let cat = devices_view(catalog@);
            let exp = devices_view(expanded@);
            if exists|k: int| 0 <= k < exp.len() && preferred_spec(#[trigger] exp[k]) {
                r matches SelectionStep::Chosen(s) && s.from_expanded && first_such(
                    exp,
                    s.index as int,
                    |d: DeviceView| preferred_spec(d),
                ) && s.name@ == exp[s.index as int].name && s.is_loopback == exp[
                    s.index as int
                ].is_loopback
            } else if exists|k: int| 0 <= k < exp.len() && default_non_loopback(#[trigger] exp[k]) {
                r matches SelectionStep::Chosen(s) && s.from_expanded && first_such(
                    exp,
                    s.index as int,
                    |d: DeviceView| default_non_loopback(d),
                ) && s.name@ == exp[s.index as int].name && s.is_loopback == exp[
                    s.index as int
                ].is_loopback
            } else {
                fallback_outcome_ok(cat, r)
            }
        }),
{
    match find_preferred(expanded) {
        Some(i) => {
            return SelectionStep::Chosen(chosen_at(expanded, i, true));
        },
        None => {},
    }
    match find_default(expanded, true) {
        Some(i) => {
            return SelectionStep::Chosen(chosen_at(expanded, i, true));
        },
        None => {},
    }
    select_fallback(catalog)
}

} // verus!
