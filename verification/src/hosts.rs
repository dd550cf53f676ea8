use vstd::prelude::*;
use vstd::string::StringSliceAdditionalSpecFns;
use vstd::utf8::encode_utf8;
use crate::envinfo::EnvSnapshot;
use crate::envinfo::is_wsl_spec;
use crate::envinfo::jack_enabled_spec;
use crate::envinfo::jack_host_enabled;
use crate::text::lower_bytes;
use crate::text::to_lower_bytes;

verus! {

// Priority order of the host backends. The low-level JACK backend is
// excluded unless explicitly opted into, and under an audio-server or WSL
// context the direct-hardware backend is tried before the server-mediated
// one.

pub open spec fn label_is(l: Seq<char>, word: Seq<u8>) -> bool {
    lower_bytes(encode_utf8(l)) == word
}

pub open spec fn is_jack_label(l: Seq<char>) -> bool {
    label_is(l, seq![106u8, 97u8, 99u8, 107u8])
}

pub open spec fn is_alsa_label(l: Seq<char>) -> bool {
    label_is(l, seq![97u8, 108u8, 115u8, 97u8])
}

pub open spec fn is_pulse_label(l: Seq<char>) -> bool {
    label_is(l, seq![112u8, 117u8, 108u8, 115u8, 101u8])
}

pub open spec fn labels_view(s: Seq<String>) -> Seq<Seq<char>> {
    s.map_values(|l: String| l@)
}

/// The prioritized order: drop JACK unless opted in; with an audio server
/// or WSL present, direct hardware first, then the server backend, then the
/// rest, keeping relative order; if filtering left nothing, fall back to
/// the unfiltered list.
pub open spec fn prioritized_spec(labels: Seq<Seq<char>>, env: &EnvSnapshot) -> Seq<Seq<char>> {
    let kept = if jack_enabled_spec(env) {
        labels
    } else {
        labels.filter(|l: Seq<char>| !is_jack_label(l))
    };
    let ordered = if is_wsl_spec(env) || env.pulse_server_set {
        kept.filter(|l: Seq<char>| is_alsa_label(l)) + kept.filter(
            |l: Seq<char>| is_pulse_label(l),
        ) + kept.filter(|l: Seq<char>| !is_alsa_label(l) && !is_pulse_label(l))
    } else {
        kept
    };
    if ordered.len() == 0 {
        labels
    } else {
        ordered
    }
}

fn label_matches(label: &String, word: &Vec<u8>) -> (r: bool)
    ensures
        r == (lower_bytes(encode_utf8(label@)) == word@),
{
    let label_str = label.as_str();
    let folded = to_lower_bytes(label_str.as_bytes());
    proof {
        assert(label_str.spec_bytes() == encode_utf8(label@));
        assert(folded@ == lower_bytes(encode_utf8(label@)));
    }
    let a = folded.as_slice();
    let b = word.as_slice();
    if a.len() != b.len() {
        proof {
            assert(a@.len() != b@.len());
        }
        return false;
    }
    let n = a.len();
    let mut i: usize = 0;
    while i < n
        invariant
            a@ == lower_bytes(encode_utf8(label@)),
            b@ == word@,
            n == a@.len() == b@.len(),
            i <= n,
            forall|k: int| 0 <= k < i ==> a@[k] == b@[k],
        decreases n - i,
    {
        if a[i] != b[i] {
            proof {
                assert(a@ != b@) by {
                    if a@ == b@ {
                        assert(a@[i as int] == b@[i as int]);
                    }
                }
            }
            return false;
        }
        i = i + 1;
    }
    proof {
        assert(a@ =~= b@);
    }
    true
}

fn filter_labels(labels: &Vec<String>, which: u8, jack_word: &Vec<u8>, alsa_word: &Vec<u8>, pulse_word: &Vec<u8>) -> (r: Vec<String>)
    requires
        jack_word@ == seq![106u8, 97u8, 99u8, 107u8],
        alsa_word@ == seq![97u8, 108u8, 115u8, 97u8],
        pulse_word@ == seq![112u8, 117u8, 108u8, 115u8, 101u8],
        which == 0 || which == 1 || which == 2 || which == 3,
    ensures
        which == 0 ==> labels_view(r@) == labels_view(labels@).filter(
            |l: Seq<char>| !is_jack_label(l),
        ),
        which == 1 ==> labels_view(r@) == labels_view(labels@).filter(
            |l: Seq<char>| is_alsa_label(l),
        ),
        which == 2 ==> labels_view(r@) == labels_view(labels@).filter(
            |l: Seq<char>| is_pulse_label(l),
        ),
        which == 3 ==> labels_view(r@) == labels_view(labels@).filter(
            |l: Seq<char>| !is_alsa_label(l) && !is_pulse_label(l),
        ),
{
    let ghost lv = labels_view(labels@);
    let mut r: Vec<String> = Vec::new();
    let n = labels.len();
    let mut i: usize = 0;
    proof {
        reveal(Seq::filter);
        assert(lv.take(0) =~= Seq::<Seq<char>>::empty());
    }
    while i < n
        invariant
            lv == labels_view(labels@),
            n == labels@.len(),
            i <= n,
            which == 0 || which == 1 || which == 2 || which == 3,
            which == 0 ==> labels_view(r@) == lv.take(i as int).filter(
                |l: Seq<char>| !is_jack_label(l),
            ),
            which == 1 ==> labels_view(r@) == lv.take(i as int).filter(
                |l: Seq<char>| is_alsa_label(l),
            ),
            which == 2 ==> labels_view(r@) == lv.take(i as int).filter(
                |l: Seq<char>| is_pulse_label(l),
            ),
            which == 3 ==> labels_view(r@) == lv.take(i as int).filter(
                |l: Seq<char>| !is_alsa_label(l) && !is_pulse_label(l),
            ),
            jack_word@ == seq![106u8, 97u8, 99u8, 107u8],
            alsa_word@ == seq![97u8, 108u8, 115u8, 97u8],
            pulse_word@ == seq![112u8, 117u8, 108u8, 115u8, 101u8],
        decreases n - i,
    {
        let label = &labels[i];
        proof {
            assert(lv[i as int] == labels@[i as int]@);
        }
        let hit: bool = if which == 0 {
            !label_matches(label, jack_word)
        } else if which == 1 {
            label_matches(label, alsa_word)
        } else if which == 2 {
            label_matches(label, pulse_word)
        } else {
            !label_matches(label, alsa_word) && !label_matches(label, pulse_word)
        };
        let ghost r_pre = r@;
        if hit {
            r.push(label.clone());
        }
        proof {
            reveal(Seq::filter);
            assert(lv.take(i + 1).drop_last() =~= lv.take(i as int));
            assert(lv.take(i + 1).last() == lv[i as int]);
            if hit {
                assert(labels_view(r@) =~= labels_view(r_pre).push(lv[i as int]));
            }
        }
        i = i + 1;
    }
    proof {
        assert(lv.take(n as int) =~= lv);
    }
    r
}

/// Host backends in the order enumeration should try them.
pub fn prioritized_host_labels(labels: &Vec<String>, env: &EnvSnapshot) -> (r: Vec<String>)
    ensures
        labels_view(r@) == prioritized_spec(labels_view(labels@), env),
{
    let jack_word: Vec<u8> = vec![106u8, 97u8, 99u8, 107u8];
    let alsa_word: Vec<u8> = vec![97u8, 108u8, 115u8, 97u8];
    let pulse_word: Vec<u8> = vec![112u8, 117u8, 108u8, 115u8, 101u8];
    proof {
        assert(jack_word@ =~= seq![106u8, 97u8, 99u8, 107u8]);
        assert(alsa_word@ =~= seq![97u8, 108u8, 115u8, 97u8]);
        assert(pulse_word@ =~= seq![112u8, 117u8, 108u8, 115u8, 101u8]);
    }
    let kept: Vec<String> = if jack_host_enabled(env) {
        labels.clone()
    } else {
        filter_labels(labels, 0, &jack_word, &alsa_word, &pulse_word)
    };
    proof {
        if jack_enabled_spec(env) {
            assert(labels_view(kept@) =~= labels_view(labels@));
        }
    }
    let prefer = crate::envinfo::is_wsl_environment(env) || env.pulse_server_set;
    let ordered: Vec<String> = if prefer {
        let mut alsa = filter_labels(&kept, 1, &jack_word, &alsa_word, &pulse_word);
        let mut pulse = filter_labels(&kept, 2, &jack_word, &alsa_word, &pulse_word);
        let mut rest = filter_labels(&kept, 3, &jack_word, &alsa_word, &pulse_word);
        let ghost av = labels_view(alsa@);
        let ghost pv = labels_view(pulse@);
        let ghost rv = labels_view(rest@);
        let mut combined = alsa;
        combined.append(&mut pulse);
        combined.append(&mut rest);
        proof {
            assert(labels_view(combined@) =~= av + pv + rv);
        }
        combined
    } else {
        kept
    };
    if ordered.len() == 0 {
        labels.clone()
    } else {
        ordered
    }
}

} // verus!
