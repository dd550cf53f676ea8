use vstd::prelude::*;
use vstd::string::StringSliceAdditionalSpecFns;
use vstd::utf8::encode_utf8;
use crate::text::lower_bytes;
use crate::text::to_lower_bytes;

verus! {

// The process environment, as far as the capture heuristics read it. The
// caller snapshots the relevant variables once and hands them in as plain
// values: whether the WSL marker pair is present, whether an audio-server
// address is set, and the raw values of the two opt-in flags.

/// What the environment says about the host.
pub struct EnvSnapshot {
    /// `WSL_DISTRO_NAME` is present.
    pub wsl_distro_set: bool,
    /// `WSL_INTEROP` is present.
    pub wsl_interop_set: bool,
    /// `PULSE_SERVER` is present.
    pub pulse_server_set: bool,
    /// Value of the flag that opts into the low-level JACK backend.
    pub jack_flag: Option<String>,
    /// Value of the flag that opts into exhaustive device enumeration.
    pub enumerate_all_flag: Option<String>,
}

pub open spec fn is_ws_byte(b: u8) -> bool {
    b == 32 || b == 9 || b == 10 || b == 13 || b == 11 || b == 12
}

pub open spec fn trim_front_ws(s: Seq<u8>) -> Seq<u8>
    decreases s.len(),
{
    if s.len() > 0 && is_ws_byte(s[0]) {
        trim_front_ws(s.drop_first())
    } else {
        s
    }
}

pub open spec fn trim_back_ws(s: Seq<u8>) -> Seq<u8>
    decreases s.len(),
{
    if s.len() > 0 && is_ws_byte(s[s.len() - 1]) {
        trim_back_ws(s.drop_last())
    } else {
        s
    }
}

pub open spec fn trim_ws_spec(s: Seq<u8>) -> Seq<u8> {
    trim_back_ws(trim_front_ws(s))
}

/// A flag value switches a feature on when, trimmed and case-folded, it
/// reads "1", "true", "yes" or "on".
pub open spec fn truthy_spec(s: Seq<u8>) -> bool {
    let t = lower_bytes(trim_ws_spec(s));
    ||| t == seq![49u8]
    ||| t == seq![116u8, 114u8, 117u8, 101u8]
    ||| t == seq![121u8, 101u8, 115u8]
    ||| t == seq![111u8, 110u8]
}

pub open spec fn is_wsl_spec(env: &EnvSnapshot) -> bool {
    env.wsl_distro_set || env.wsl_interop_set
}

pub open spec fn jack_enabled_spec(env: &EnvSnapshot) -> bool {
    match env.jack_flag {
        Some(v) => truthy_spec(encode_utf8(v@)),
        None => false,
    }
}

/// Exhaustive enumeration: on request by the flag; otherwise only outside
/// virtualized or audio-server setups, where probing every input is slow
/// and noisy.
pub open spec fn enumerate_all_spec(env: &EnvSnapshot) -> bool {
    match env.enumerate_all_flag {
        Some(v) => truthy_spec(encode_utf8(v@)),
        None => !(is_wsl_spec(env) || env.pulse_server_set),
    }
}

/// Strip leading and trailing ASCII whitespace.
fn trim_ws(s: &[u8]) -> (r: Vec<u8>)
    ensures
        r@ == trim_ws_spec(s@),
{
    let s_len = s.len();
    let mut i: usize = 0;
    proof {
        assert(s@.skip(0) =~= s@);
    }
    while i < s_len && (s[i] == 32 || s[i] == 9 || s[i] == 10 || s[i] == 13 || s[i] == 11 || s[i]
        == 12)
        invariant
            s_len == s@.len(),
            i <= s_len,
            trim_front_ws(s@) == trim_front_ws(s@.skip(i as int)),
        decreases s_len - i,
    {
        proof {
            assert(s@.skip(i as int).drop_first() =~= s@.skip(i + 1));
        }
        i = i + 1;
    }
    proof {
        assert(trim_front_ws(s@) == s@.skip(i as int));
    }
    let mut j: usize = s_len;
    while j > i && (s[j - 1] == 32 || s[j - 1] == 9 || s[j - 1] == 10 || s[j - 1] == 13 || s[j - 1]
        == 11 || s[j - 1] == 12)
        invariant
            s_len == s@.len(),
            i <= j <= s_len,
            trim_front_ws(s@) == s@.skip(i as int),
            trim_back_ws(s@.skip(i as int)) == trim_back_ws(s@.subrange(i as int, j as int)),
        decreases j,
    {
        proof {
            assert(s@.subrange(i as int, j as int).drop_last() =~= s@.subrange(i as int, j - 1));
            assert(s@.subrange(i as int, j as int).len() == j - i);
            assert(s@.subrange(i as int, j as int)[j - i - 1] == s@[j - 1]);
        }
        j = j - 1;
    }
    proof {
        if j == i {
            assert(s@.subrange(i as int, j as int).len() == 0);
        }
        assert(trim_back_ws(s@.subrange(i as int, j as int)) == s@.subrange(i as int, j as int));
    }
    let sub = vstd::slice::slice_subrange(s, i, j);
    let r = vstd::slice::slice_to_vec(sub);
    proof {
        assert(s@.skip(s@.len() as int - (s@.len() - i as int)) == s@.skip(i as int));
    }
    r
}

/// Bytewise equality of two byte strings.
fn bytes_eq(a: &[u8], b: &[u8]) -> (r: bool)
    ensures
        r == (a@ == b@),
{
    if a.len() != b.len() {
        proof {
            assert(a@.len() != b@.len());
        }
        return false;
    }
    let n = a.len();
    let mut i: usize = 0;
    while i < n
        invariant
            n == a@.len() == b@.len(),
            i <= n,
            forall|k: int| 0 <= k < i ==> a@[k] == b@[k],
        decreases n - i,
    {
        if a[i] != b[i] {
            return false;
        }
        i = i + 1;
    }
    proof {
        assert(a@ =~= b@);
    }
    true
}

/// Does a flag value switch its feature on?
pub fn is_truthy_flag(value: &str) -> (r: bool)
    ensures
        r == truthy_spec(value.spec_bytes()),
{
    let bytes = value.as_bytes();
    let trimmed = trim_ws(bytes);
    let folded = to_lower_bytes(trimmed.as_slice());
    let one: Vec<u8> = vec![49u8];
    let word_true: Vec<u8> = vec![116u8, 114u8, 117u8, 101u8];
    let word_yes: Vec<u8> = vec![121u8, 101u8, 115u8];
    let word_on: Vec<u8> = vec![111u8, 110u8];
    let r = bytes_eq(folded.as_slice(), one.as_slice()) || bytes_eq(
        folded.as_slice(),
        word_true.as_slice(),
    ) || bytes_eq(folded.as_slice(), word_yes.as_slice()) || bytes_eq(
        folded.as_slice(),
        word_on.as_slice(),
    );
    proof {
        assert(one@ =~= seq![49u8]);
        assert(word_true@ =~= seq![116u8, 114u8, 117u8, 101u8]);
        assert(word_yes@ =~= seq![121u8, 101u8, 115u8]);
        assert(word_on@ =~= seq![111u8, 110u8]);
    }
    r
}

/// The environment indicates a WSL host: either marker variable is present.
pub fn is_wsl_environment(env: &EnvSnapshot) -> (r: bool)
    ensures
        r == is_wsl_spec(env),
{
    env.wsl_distro_set || env.wsl_interop_set
}

/// The opt-in flag for the JACK backend is set to a truthy value.
pub fn jack_host_enabled(env: &EnvSnapshot) -> (r: bool)
    ensures
        r == jack_enabled_spec(env),
{
    match &env.jack_flag {
        Some(v) => is_truthy_flag(v.as_str()),
        None => false,
    }
}

/// Whether enumeration should walk every input of every host rather than
/// only each host's default device.
pub fn should_enumerate_all_inputs(env: &EnvSnapshot) -> (r: bool)
    ensures
        r == enumerate_all_spec(env),
{
    match &env.enumerate_all_flag {
        Some(v) => is_truthy_flag(v.as_str()),
        None => !(is_wsl_environment(env) || env.pulse_server_set),
    }
}

} // verus!
