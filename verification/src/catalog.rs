use vstd::prelude::*;
use vstd::string::StringExecFns;
use vstd::string::StringSliceAdditionalSpecFns;
use vstd::utf8::encode_utf8;
use crate::errors::CaptureError;
use crate::text::all_ascii;
use crate::text::ascii_chars;
use crate::text::ascii_to_string;
use crate::text::contains_bytes;
use crate::text::contains_seq;
use crate::text::dec_bytes;
use crate::text::dec_digits;
use crate::text::lower_bytes;
use crate::text::map_slug;
use crate::text::slug_bytes;
use crate::text::slug_of;
use crate::text::to_lower_bytes;
use crate::text::collapse_us;
use crate::text::trim_us;
use crate::text::UNDERSCORE;

verus! {

// The device catalog. One enumeration pass reads, per host backend, the
// default input device's name and (on request) every input device's name;
// that snapshot of plain values is all the catalog is built from, so two
// passes over an unchanged device set give byte-identical results.

/// What one host backend reported: its label, the resolved name of its
/// default input device if it has one, and the names of all its inputs in
/// enumeration order (empty unless exhaustive enumeration ran).
pub struct HostSnapshot {
    pub label: String,
    pub default_name: Option<String>,
    pub other_names: Vec<String>,
}

pub ghost struct HostView {
    pub label: Seq<char>,
    pub default_name: Option<Seq<char>>,
    pub other_names: Seq<Seq<char>>,
}

impl HostSnapshot {
    pub open spec fn view(&self) -> HostView {
        HostView {
            label: self.label@,
            default_name: match self.default_name {
                Some(n) => Some(n@),
                None => None,
            },
            other_names: self.other_names@.map_values(|n: String| n@),
        }
    }
}

/// One cataloged input device.
pub struct EnumeratedDevice {
    /// Stable identifier derived from host label, slot and raw name.
    pub id: String,
    /// Display name: the raw name with the host label appended.
    pub name: String,
    pub raw_name: String,
    pub is_default: bool,
    pub is_loopback: bool,
    pub host: String,
    /// Index of the host in the snapshot list.
    pub host_pos: usize,
    /// 0 for the host's default device, k + 1 for the k-th enumerated one.
    pub slot: usize,
}

pub ghost struct DeviceView {
    pub id: Seq<char>,
    pub name: Seq<char>,
    pub raw_name: Seq<char>,
    pub is_default: bool,
    pub is_loopback: bool,
    pub host: Seq<char>,
    pub host_pos: int,
    pub slot: int,
}

impl EnumeratedDevice {
    pub open spec fn view(&self) -> DeviceView {
        DeviceView {
            id: self.id@,
            name: self.name@,
            raw_name: self.raw_name@,
            is_default: self.is_default,
            is_loopback: self.is_loopback,
            host: self.host@,
            host_pos: self.host_pos as int,
            slot: self.slot as int,
        }
    }
}

pub open spec fn hosts_view(s: Seq<HostSnapshot>) -> Seq<HostView> {
    s.map_values(|h: HostSnapshot| h.view())
}

pub open spec fn devices_view(s: Seq<EnumeratedDevice>) -> Seq<DeviceView> {
    s.map_values(|d: EnumeratedDevice| d.view())
}

// --- Identifiers ------------------------------------------------------------

/// An identifier's bytes: `input_`, the host label's slug, the slot in
/// decimal, and the raw name's slug, separated by underscores.
pub open spec fn id_bytes_spec(label: Seq<u8>, index: nat, name: Seq<u8>) -> Seq<u8> {
    seq![105u8, 110u8, 112u8, 117u8, 116u8, 95u8] + slug_of(label) + seq![95u8] + dec_digits(index)
        + seq![95u8] + slug_of(name)
}

pub open spec fn id_chars_spec(label: Seq<char>, index: nat, name: Seq<char>) -> Seq<char> {
    ascii_chars(id_bytes_spec(encode_utf8(label), index, encode_utf8(name)))
}

proof fn lemma_map_slug_ascii(s: Seq<u8>)
    ensures
        all_ascii(map_slug(s)),
{
    assert forall|i: int| 0 <= i < map_slug(s).len() implies map_slug(s)[i] < 128 by {}
}

proof fn lemma_collapse_ascii(s: Seq<u8>, prev: bool)
    requires
        all_ascii(s),
    ensures
        all_ascii(collapse_us(s, prev)),
    decreases s.len(),
{
    if s.len() > 0 {
        assert(all_ascii(s.drop_first()));
        lemma_collapse_ascii(s.drop_first(), true);
        lemma_collapse_ascii(s.drop_first(), s[0] == UNDERSCORE);
    }
}

proof fn lemma_slug_ascii(s: Seq<u8>)
    ensures
        all_ascii(slug_of(s)),
{
    lemma_map_slug_ascii(s);
    lemma_collapse_ascii(map_slug(s), false);
    let c = collapse_us(map_slug(s), false);
    assert(all_ascii(trim_us(c)));
}

proof fn lemma_dec_digits_ascii(n: nat)
    ensures
        all_ascii(dec_digits(n)),
        forall|i: int| 0 <= i < dec_digits(n).len() ==> 48 <= #[trigger] dec_digits(n)[i] <= 57,
    decreases n,
{
    if n >= 10 {
        lemma_dec_digits_ascii(n / 10);
    }
}

proof fn lemma_id_bytes_ascii(label: Seq<u8>, index: nat, name: Seq<u8>)
    ensures
        all_ascii(id_bytes_spec(label, index, name)),
{
    lemma_slug_ascii(label);
    lemma_slug_ascii(name);
    lemma_dec_digits_ascii(index);
}

/// The stable identifier of a device: host label slug, slot, name slug.
pub fn build_input_device_id(host_label: &str, index: usize, name: &str) -> (r: String)
    ensures
        r@ == ascii_chars(id_bytes_spec(host_label.spec_bytes(), index as nat, name.spec_bytes())),
{
    let mut b: Vec<u8> = vec![105u8, 110u8, 112u8, 117u8, 116u8, 95u8];
    let mut label_slug = slug_bytes(host_label.as_bytes());
    b.append(&mut label_slug);
    b.push(95);
    let mut digits = dec_bytes(index);
    b.append(&mut digits);
    b.push(95);
    let mut name_slug = slug_bytes(name.as_bytes());
    b.append(&mut name_slug);
    proof {
        assert(b@ =~= id_bytes_spec(host_label.spec_bytes(), index as nat, name.spec_bytes()));
        lemma_id_bytes_ascii(host_label.spec_bytes(), index as nat, name.spec_bytes());
    }
    ascii_to_string(b)
}

// --- Loopback classification -------------------------------------------------

/// The case-folded name contains one of the fixed monitor/loopback marks.
pub open spec fn loopback_spec(name_bytes: Seq<u8>) -> bool {
    let lower = lower_bytes(name_bytes);
    ||| contains_seq(lower, seq![109u8, 111u8, 110u8, 105u8, 116u8, 111u8, 114u8])  // monitor
    ||| contains_seq(lower, seq![108u8, 111u8, 111u8, 112u8, 98u8, 97u8, 99u8, 107u8])  // loopback
    ||| contains_seq(
        lower,
        seq![115u8, 116u8, 101u8, 114u8, 101u8, 111u8, 32u8, 109u8, 105u8, 120u8],
    )  // stereo mix
    ||| contains_seq(
        lower,
        seq![119u8, 104u8, 97u8, 116u8, 32u8, 117u8, 32u8, 104u8, 101u8, 97u8, 114u8],
    )  // what u hear
}

/// Classify a device name as a loopback/monitor source. A heuristic, not a
/// guarantee: it looks for fixed substrings in the case-folded name.
pub fn is_loopback_source(name: &str) -> (r: bool)
    ensures
        r == loopback_spec(name.spec_bytes()),
{
    let lower = to_lower_bytes(name.as_bytes());
    let monitor: Vec<u8> = vec![109u8, 111u8, 110u8, 105u8, 116u8, 111u8, 114u8];
    let loopback: Vec<u8> = vec![108u8, 111u8, 111u8, 112u8, 98u8, 97u8, 99u8, 107u8];
    let stereo_mix: Vec<u8> = vec![
        115u8,
        116u8,
        101u8,
        114u8,
        101u8,
        111u8,
        32u8,
        109u8,
        105u8,
        120u8,
    ];
    let what_u_hear: Vec<u8> = vec![
        119u8,
        104u8,
        97u8,
        116u8,
        32u8,
        117u8,
        32u8,
        104u8,
        101u8,
        97u8,
        114u8,
    ];
    let r = contains_bytes(lower.as_slice(), monitor.as_slice()) || contains_bytes(
        lower.as_slice(),
        loopback.as_slice(),
    ) || contains_bytes(lower.as_slice(), stereo_mix.as_slice()) || contains_bytes(
        lower.as_slice(),
        what_u_hear.as_slice(),
    );
    proof {
        assert(monitor@ =~= seq![109u8, 111u8, 110u8, 105u8, 116u8, 111u8, 114u8]);
        assert(loopback@ =~= seq![108u8, 111u8, 111u8, 112u8, 98u8, 97u8, 99u8, 107u8]);
        assert(stereo_mix@ =~= seq![
            115u8,
            116u8,
            101u8,
            114u8,
            101u8,
            111u8,
            32u8,
            109u8,
            105u8,
            120u8,
        ]);
        assert(what_u_hear@ =~= seq![
            119u8,
            104u8,
            97u8,
            116u8,
            32u8,
            117u8,
            32u8,
            104u8,
            101u8,
            97u8,
            114u8,
        ]);
    }
    r
}

// --- Catalog construction ----------------------------------------------------

pub open spec fn display_name_spec(raw: Seq<char>, label: Seq<char>) -> Seq<char> {
    raw + " ["@ + label + "]"@
}

pub open spec fn device_view_spec(
    label: Seq<char>,
    host_pos: int,
    slot: int,
    raw: Seq<char>,
    is_default: bool,
) -> DeviceView {
    DeviceView {
        id: id_chars_spec(label, slot as nat, raw),
        name: display_name_spec(raw, label),
        raw_name: raw,
        is_default,
        is_loopback: loopback_spec(encode_utf8(raw)),
        host: label,
        host_pos,
        slot,
    }
}

/// Entries from a host's full device list, starting at position `k`, with
/// the raw names already taken (`seen`) skipped.
pub open spec fn rest_entries_spec(
    h: HostView,
    host_pos: int,
    k: int,
    seen: Set<Seq<char>>,
) -> Seq<DeviceView>
    decreases h.other_names.len() - k,
{
    if k < 0 || k >= h.other_names.len() {
        Seq::<DeviceView>::empty()
    } else {
        let raw = h.other_names[k];
        if seen.contains(raw) {
            rest_entries_spec(h, host_pos, k + 1, seen)
        } else {
            seq![
                device_view_spec(h.label, host_pos, k + 1, raw, h.default_name == Some(raw)),
            ] + rest_entries_spec(h, host_pos, k + 1, seen.insert(raw))
        }
    }
}

/// A host's contribution to the catalog: its default device first, then,
/// when exhaustive enumeration is on, every further device not already
/// present by raw name.
pub open spec fn host_entries_spec(h: HostView, host_pos: int, enumerate_all: bool) -> Seq<
    DeviceView,
> {
    let dft = match h.default_name {
        Some(raw) => seq![device_view_spec(h.label, host_pos, 0, raw, true)],
        None => Seq::<DeviceView>::empty(),
    };
    let seen0 = match h.default_name {
        Some(raw) => Set::<Seq<char>>::empty().insert(raw),
        None => Set::<Seq<char>>::empty(),
    };
    dft + if enumerate_all {
        rest_entries_spec(h, host_pos, 0, seen0)
    } else {
        Seq::<DeviceView>::empty()
    }
}

pub open spec fn catalog_from(hosts: Seq<HostView>, pos: int, enumerate_all: bool) -> Seq<
    DeviceView,
>
    decreases hosts.len(),
{
    if hosts.len() == 0 {
        Seq::<DeviceView>::empty()
    } else {
        host_entries_spec(hosts[0], pos, enumerate_all) + catalog_from(
            hosts.drop_first(),
            pos + 1,
            enumerate_all,
        )
    }
}

/// The whole catalog a snapshot gives rise to.
pub open spec fn catalog_spec(hosts: Seq<HostView>, enumerate_all: bool) -> Seq<DeviceView> {
    catalog_from(hosts, 0, enumerate_all)
}

fn mk_device(label: &String, host_pos: usize, slot: usize, raw: &String, is_default: bool) -> (d:
    EnumeratedDevice)
    ensures
        d.view() == device_view_spec(label@, host_pos as int, slot as int, raw@, is_default),
{
    let id = build_input_device_id(label.as_str(), slot, raw.as_str());
    let mut name = raw.clone();
    name.append(" [");
    name.append(label.as_str());
    name.append("]");
    let is_loopback = is_loopback_source(raw.as_str());
    EnumeratedDevice {
        id,
        name,
        raw_name: raw.clone(),
        is_default,
        is_loopback,
        host: label.clone(),
        host_pos,
        slot,
    }
}

fn contains_name(seen: &Vec<String>, name: &String) -> (r: bool)
    ensures
        r == (exists|j: int| 0 <= j < seen@.len() && #[trigger] seen@[j]@ == name@),
{
    let n = seen.len();
    let mut i: usize = 0;
    while i < n
        invariant
            n == seen@.len(),
            i <= n,
            forall|j: int| 0 <= j < i ==> #[trigger] seen@[j]@ != name@,
        decreases n - i,
    {
        let e = &seen[i];
        if *e == *name {
            return true;
        }
        i = i + 1;
    }
    false
}

fn host_entries(h: &HostSnapshot, host_pos: usize, enumerate_all: bool) -> (r: Vec<
    EnumeratedDevice,
>)
    ensures
        devices_view(r@) == host_entries_spec(h.view(), host_pos as int, enumerate_all),
{
    let ghost hv = h.view();
    let mut r: Vec<EnumeratedDevice> = Vec::new();
    let mut seen: Vec<String> = Vec::new();
    let ghost seen0 = match hv.default_name {
        Some(raw) => Set::<Seq<char>>::empty().insert(raw),
        None => Set::<Seq<char>>::empty(),
    };
    let ghost dft = match hv.default_name {
        Some(raw) => seq![device_view_spec(hv.label, host_pos as int, 0, raw, true)],
        None => Seq::<DeviceView>::empty(),
    };
    match &h.default_name {
        Some(dn) => {
            let d = mk_device(&h.label, host_pos, 0, dn, true);
            r.push(d);
            seen.push(dn.clone());
        },
        None => {},
    }
    proof {
        assert(devices_view(r@) =~= dft);
    }
    if !enumerate_all {
        proof {
            assert(host_entries_spec(hv, host_pos as int, false) =~= dft);
        }
        return r;
    }
    let n = h.other_names.len();
    let mut k: usize = 0;
    let ghost mut seen_set = seen0;
    proof {
        assert forall|s: Seq<char>| #[trigger]
            seen_set.contains(s) implies (exists|j: int|
            0 <= j < seen@.len() && #[trigger] seen@[j]@ == s) by {
            assert(seen@[0]@ == s);
        }
        assert forall|s: Seq<char>|
            (exists|j: int| 0 <= j < seen@.len() && #[trigger] seen@[j]@ == s) implies #[trigger]
            seen_set.contains(s) by {
            let j = choose|j: int| 0 <= j < seen@.len() && #[trigger] seen@[j]@ == s;
            assert(j == 0);
        }
    }
    while k < n
        invariant
            hv == h.view(),
            n == hv.other_names.len(),
            k <= n,
            dft + rest_entries_spec(hv, host_pos as int, 0, seen0) == devices_view(r@)
                + rest_entries_spec(hv, host_pos as int, k as int, seen_set),
            forall|s: Seq<char>|
                #[trigger] seen_set.contains(s) <==> (exists|j: int|
                    0 <= j < seen@.len() && #[trigger] seen@[j]@ == s),
        decreases n - k,
    {
        let raw = &h.other_names[k];
        proof {
            assert(hv.other_names[k as int] == raw@);
        }
        if contains_name(&seen, raw) {
            proof {
                assert(seen_set.contains(raw@));
                assert(rest_entries_spec(hv, host_pos as int, k as int, seen_set)
                    == rest_entries_spec(hv, host_pos as int, k + 1, seen_set));
            }
        } else {
            proof {
                assert(!seen_set.contains(raw@));
            }
            let is_default = match &h.default_name {
                Some(dn) => *dn == *raw,
                None => false,
            };
            proof {
                assert(is_default == (hv.default_name == Some(raw@)));
            }
            let d = mk_device(&h.label, host_pos, k + 1, raw, is_default);
            let ghost r_pre = r@;
            let ghost seen_pre = seen@;
            let ghost set_pre = seen_set;
            r.push(d);
            seen.push(raw.clone());
            proof {
                assert(devices_view(r@) =~= devices_view(r_pre) + seq![d.view()]);
                assert(rest_entries_spec(hv, host_pos as int, k as int, seen_set) == seq![
                    device_view_spec(
                        hv.label,
                        host_pos as int,
                        k + 1,
                        raw@,
                        hv.default_name == Some(raw@),
                    ),
                ] + rest_entries_spec(hv, host_pos as int, k + 1, seen_set.insert(raw@)));
                seen_set = seen_set.insert(raw@);
                assert forall|s: Seq<char>| #[trigger]
                    seen_set.contains(s) implies (exists|j: int|
                    0 <= j < seen@.len() && #[trigger] seen@[j]@ == s) by {
                    if s == raw@ {
                        assert(seen@[seen@.len() - 1]@ == s);
                    } else {
                        assert(set_pre.contains(s));
                        let j = choose|j: int| 0 <= j < seen_pre.len() && #[trigger] seen_pre[j]@
                            == s;
                        assert(seen@[j]@ == s);
                    }
                }
                assert forall|s: Seq<char>|
                    (exists|j: int| 0 <= j < seen@.len() && #[trigger] seen@[j]@ == s)
                    implies #[trigger] seen_set.contains(s) by {
                    let j = choose|j: int| 0 <= j < seen@.len() && #[trigger] seen@[j]@ == s;
                    if j < seen_pre.len() {
                        assert(seen_pre[j]@ == s);
                        assert(set_pre.contains(s));
                    } else {
                        assert(s == raw@);
                    }
                }
                assert(dft + rest_entries_spec(hv, host_pos as int, 0, seen0) =~= devices_view(r@)
                    + rest_entries_spec(hv, host_pos as int, k + 1, seen_set));
            }
        }
        k = k + 1;
    }
    proof {
        assert(rest_entries_spec(hv, host_pos as int, n as int, seen_set)
            =~= Seq::<DeviceView>::empty());
        assert(devices_view(r@) =~= dft + rest_entries_spec(hv, host_pos as int, 0, seen0));
        assert(host_entries_spec(hv, host_pos as int, true) == dft + rest_entries_spec(
            hv,
            host_pos as int,
            0,
            seen0,
        ));
    }
    r
}

/// Build the catalog from an enumeration snapshot. The same snapshot always
/// yields the same catalog, ids included.
pub fn enumerate_from_snapshots(hosts: &Vec<HostSnapshot>, enumerate_all: bool) -> (r: Vec<
    EnumeratedDevice,
>)
    ensures
        devices_view(r@) == catalog_spec(hosts_view(hosts@), enumerate_all),
{
    let ghost hs = hosts_view(hosts@);
    let mut r: Vec<EnumeratedDevice> = Vec::new();
    let mut p: usize = 0;
    let n = hosts.len();
    proof {
        assert(hs.skip(0) =~= hs);
        assert(devices_view(r@) =~= Seq::<DeviceView>::empty());
    }
    while p < n
        invariant
            hs == hosts_view(hosts@),
            n == hosts@.len(),
            p <= n,
            catalog_spec(hs, enumerate_all) == devices_view(r@) + catalog_from(
                hs.skip(p as int),
                p as int,
                enumerate_all,
            ),
        decreases n - p,
    {
        let mut entries = host_entries(&hosts[p], p, enumerate_all);
        let ghost r_pre = r@;
        let ghost entries_v = devices_view(entries@);
        r.append(&mut entries);
        proof {
            assert(hs.skip(p as int)[0] == hs[p as int]);
            assert(hs[p as int] == hosts@[p as int].view());
            assert(hs.skip(p as int).drop_first() =~= hs.skip(p + 1));
            assert(devices_view(r@) =~= devices_view(r_pre) + entries_v);
            assert(catalog_from(hs.skip(p as int), p as int, enumerate_all) == host_entries_spec(
                hs[p as int],
                p as int,
                enumerate_all,
            ) + catalog_from(hs.skip(p + 1), p + 1, enumerate_all));
        }
        p = p + 1;
    }
    proof {
        assert(hs.skip(n as int) =~= Seq::<HostView>::empty());
        assert(devices_view(r@) + Seq::<DeviceView>::empty() =~= devices_view(r@));
    }
    r
}

/// Device ids are stable across consecutive enumeration calls when the
/// underlying device set is unchanged: `enumerate_from_snapshots` returns
/// exactly `catalog_spec` of its snapshot, so two passes over equal
/// snapshots give equal catalogs, ids included.
pub proof fn lemma_enumeration_stable(h1: Seq<HostView>, h2: Seq<HostView>, enumerate_all: bool)
    requires
        h1 == h2,
    ensures
        catalog_spec(h1, enumerate_all) == catalog_spec(h2, enumerate_all),
{
}

// --- The public listing ------------------------------------------------------

/// One input device as the command surface reports it.
#[derive(Debug)]
pub struct AudioInputDevice {
    pub id: String,
    pub name: String,
    pub is_default: bool,
    pub availability: String,
    pub permission_state: String,
    pub host: Option<String>,
    pub diagnostics: Option<String>,
}

/// Relies on `std::path::Path::exists`; the answer depends on what is on
/// disk, so nothing is promised of it.
#[verifier::external_body]
fn path_exists(path: &str) -> bool {
    std::path::Path::new(path).exists()
}

/// Whether the ALSA plugin that routes through the audio server is
/// installed at either of its usual locations.
pub fn alsa_pulse_plugin_installed() -> bool {
    path_exists("/usr/lib/x86_64-linux-gnu/alsa-lib/libasound_module_pcm_pulse.so") || path_exists(
        "/usr/lib64/alsa-lib/libasound_module_pcm_pulse.so",
    )
}

/// At least one input device is cataloged.
pub fn is_supported(hosts: &Vec<HostSnapshot>, enumerate_all: bool) -> (r: bool)
    ensures
        r == (catalog_spec(hosts_view(hosts@), enumerate_all).len() > 0),
{
    let devices = enumerate_from_snapshots(hosts, enumerate_all);
    devices.len() > 0
}

/// The empty-catalog error text: the base remediation, the hint about the
/// missing audio-server plugin when it applies, and the collected warnings.
pub open spec fn no_devices_message_spec(
    plugin_hint: bool,
    warnings: Seq<Seq<char>>,
) -> Seq<char> {
    let base =
        "No Linux input devices found across CPAL hosts. On WSL2, ensure WSLg/PulseAudio is available and Windows microphone privacy access is enabled for desktop apps."@;
    let plugin = if plugin_hint {
        " ALSA Pulse plugin is missing. Install it in WSL: sudo apt-get update && sudo apt-get install -y libasound2-plugins pulseaudio-utils alsa-utils"@
    } else {
        Seq::<char>::empty()
    };
    let suffix = if warnings.len() == 0 {
        Seq::<char>::empty()
    } else {
        " Details: "@ + join_semicolon(warnings)
    };
    base + plugin + suffix
}

pub open spec fn join_semicolon(parts: Seq<Seq<char>>) -> Seq<char>
    decreases parts.len(),
{
    if parts.len() == 0 {
        Seq::<char>::empty()
    } else if parts.len() == 1 {
        parts[0]
    } else {
        parts[0] + "; "@ + join_semicolon(parts.drop_first())
    }
}

fn join_warnings(warnings: &Vec<String>) -> (r: String)
    ensures
        r@ == join_semicolon(warnings@.map_values(|w: String| w@)),
{
    let ghost wv = warnings@.map_values(|w: String| w@);
    let mut r = String::new();
    let n = warnings.len();
    let mut i: usize = 0;
    while i < n
        invariant
            n == warnings@.len(),
            wv == warnings@.map_values(|w: String| w@),
            i <= n,
            i == 0 ==> r@ == Seq::<char>::empty(),
            i > 0 ==> join_semicolon(wv) == r@ + prefix_join_rest(wv, i as int),
        decreases n - i,
    {
        if i > 0 {
            r.append("; ");
        }
        r.append(warnings[i].as_str());
        proof {
            lemma_join_step(wv, i as int);
        }
        i = i + 1;
    }
    proof {
        if n == 0 {
        } else {
            lemma_join_rest_end(wv);
        }
    }
    r
}

/// What remains of the joined text after the first `k` parts (and their
/// separators) are written.
pub open spec fn prefix_join_rest(parts: Seq<Seq<char>>, k: int) -> Seq<char>
    decreases parts.len() - k,
{
    if k < 0 || k >= parts.len() {
        Seq::<char>::empty()
    } else {
        "; "@ + parts[k] + prefix_join_rest(parts, k + 1)
    }
}

proof fn lemma_join_unfold(parts: Seq<Seq<char>>)
    requires
        parts.len() >= 1,
    ensures
        join_semicolon(parts) == parts[0] + prefix_join_rest(parts, 1),
    decreases parts.len(),
{
    if parts.len() == 1 {
        assert(prefix_join_rest(parts, 1) =~= Seq::<char>::empty());
        assert(join_semicolon(parts) =~= parts[0] + prefix_join_rest(parts, 1));
    } else {
        lemma_join_unfold(parts.drop_first());
        let d = parts.drop_first();
        assert forall|k: int| 1 <= k <= d.len() implies prefix_join_rest(d, k)
            == prefix_join_rest(parts, k + 1) by {
            lemma_join_rest_shift(parts, k);
        }
        assert(join_semicolon(parts) == parts[0] + "; "@ + (d[0] + prefix_join_rest(d, 1)));
        assert(d[0] == parts[1]);
        assert(prefix_join_rest(parts, 1) == "; "@ + parts[1] + prefix_join_rest(parts, 2));
        assert(parts[0] + "; "@ + (d[0] + prefix_join_rest(d, 1)) =~= parts[0] + ("; "@ + parts[1]
            + prefix_join_rest(parts, 2)));
    }
}

proof fn lemma_join_rest_shift(parts: Seq<Seq<char>>, k: int)
    requires
        1 <= k <= parts.len(),
    ensures
        prefix_join_rest(parts.drop_first(), k) == prefix_join_rest(parts, k + 1),
    decreases parts.len() - k,
{
    let d = parts.drop_first();
    if k < d.len() {
        lemma_join_rest_shift(parts, k + 1);
        assert(d[k] == parts[k + 1]);
    }
}

proof fn lemma_join_step(parts: Seq<Seq<char>>, i: int)
    requires
        0 <= i < parts.len(),
    ensures
        i == 0 ==> join_semicolon(parts) == parts[0] + prefix_join_rest(parts, 1),
        i > 0 ==> prefix_join_rest(parts, i) == "; "@ + parts[i] + prefix_join_rest(parts, i + 1),
{
    if i == 0 {
        lemma_join_unfold(parts);
    }
}

proof fn lemma_join_rest_end(parts: Seq<Seq<char>>)
    ensures
        prefix_join_rest(parts, parts.len() as int) == Seq::<char>::empty(),
{
}

/// List the cataloged input devices as the command surface reports them,
/// or fail with the remediation text when the catalog is empty.
pub fn list_input_devices(
    hosts: &Vec<HostSnapshot>,
    enumerate_all: bool,
    pulse_server_set: bool,
    plugin_installed: bool,
    warnings: &Vec<String>,
) -> (r: Result<Vec<AudioInputDevice>, CaptureError>)
    ensures
        ({
            let cat = catalog_spec(hosts_view(hosts@), enumerate_all);
            match r {
                Ok(list) => {
                    &&& cat.len() > 0
                    &&& list@.len() == cat.len()
                    &&& forall|k: int|
                        0 <= k < cat.len() ==> {
                            let d = #[trigger] list@[k];
                            &&& d.id@ == cat[k].id
                            &&& d.name@ == cat[k].name
                            &&& d.is_default == cat[k].is_default
                            &&& d.availability@ == "available"@
                            &&& d.permission_state@ == "unknown"@
                            &&& d.host matches Some(hl) && hl@ == cat[k].host
                            &&& cat[k].is_loopback ==> (d.diagnostics matches Some(g) && g@
                                == "loopback_source"@)
                            &&& !cat[k].is_loopback ==> d.diagnostics is None
                        }
                },
                Err(e) => {
                    &&& cat.len() == 0
                    &&& e matches CaptureError::NoDevicesFound(m) && m@ == no_devices_message_spec(
                        pulse_server_set && !plugin_installed,
                        warnings@.map_values(|w: String| w@),
                    )
                },
            }
        }),
{
    let devices = enumerate_from_snapshots(hosts, enumerate_all);
    if devices.len() == 0 {
        let mut message = String::from_str(
            "No Linux input devices found across CPAL hosts. On WSL2, ensure WSLg/PulseAudio is available and Windows microphone privacy access is enabled for desktop apps.",
        );
        if pulse_server_set && !plugin_installed {
            message.append(
                " ALSA Pulse plugin is missing. Install it in WSL: sudo apt-get update && sudo apt-get install -y libasound2-plugins pulseaudio-utils alsa-utils",
            );
        }
        if warnings.len() > 0 {
            message.append(" Details: ");
            let joined = join_warnings(warnings);
            message.append(joined.as_str());
        }
        return Err(CaptureError::NoDevicesFound(message));
    }
    let ghost cat = catalog_spec(hosts_view(hosts@), enumerate_all);
    let n = devices.len();
    let mut list: Vec<AudioInputDevice> = Vec::new();
    let mut i: usize = 0;
    while i < n
        invariant
            n == devices@.len(),
            devices_view(devices@) == cat,
            i <= n,
            list@.len() == i,
            forall|k: int|
                0 <= k < i ==> {
                    let d = #[trigger] list@[k];
                    &&& d.id@ == cat[k].id
                    &&& d.name@ == cat[k].name
                    &&& d.is_default == cat[k].is_default
                    &&& d.availability@ == "available"@
                    &&& d.permission_state@ == "unknown"@
                    &&& d.host matches Some(hl) && hl@ == cat[k].host
                    &&& cat[k].is_loopback ==> (d.diagnostics matches Some(g) && g@
                        == "loopback_source"@)
                    &&& !cat[k].is_loopback ==> d.diagnostics is None
                },
        decreases n - i,
    {
        let src = &devices[i];
        let diagnostics = if src.is_loopback {
            Some(String::from_str("loopback_source"))
        } else {
            None
        };
        let entry = AudioInputDevice {
            id: src.id.clone(),
            name: src.name.clone(),
            is_default: src.is_default,
            availability: String::from_str("available"),
            permission_state: String::from_str("unknown"),
            host: Some(src.host.clone()),
            diagnostics,
        };
        proof {
            assert(devices_view(devices@)[i as int] == devices@[i as int].view());
        }
        list.push(entry);
        i = i + 1;
    }
    Ok(list)
}

} // verus!
