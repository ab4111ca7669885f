//! The backend registry and voice-spec resolution.
//!
//! A voice spec on the wire is `"{backendId}:{voiceId}"`, a bare voice id,
//! or absent. It is resolved at dispatch time: a recognized backend prefix
//! picks that backend and is stripped from the voice id; otherwise the
//! configured default backend serves the request; and a backend that
//! requires a fixed default voice gets it substituted when none was
//! supplied.

use vstd::prelude::*;
use crate::backends::Voice;
use crate::text;

verus! {

/// One registered backend: its id, and the fixed default voice it
/// requires when a request names none (if it requires one).
pub struct BackendInfo {
    pub id: String,
    pub default_voice: Option<String>,
}

/// Whether `v` starts with this backend's id followed by a colon.
pub open spec fn spec_has_backend_prefix(v: Seq<char>, id: Seq<char>) -> bool {
    (id + ":"@).is_prefix_of(v)
}

/// A resolved request: which backend serves it, and with which voice (or
/// the backend's own default, when none).
pub struct ResolvedVoice {
    pub backend_id: String,
    pub voice_id: Option<String>,
}

/// The registry of synthesis backends, keyed by id.
pub struct BackendRegistry {
    pub entries: Vec<BackendInfo>,
}

impl BackendRegistry {
    /// Well-formedness: backend ids are unique.
    pub open spec fn wf(&self) -> bool {
        forall|i: int, j: int|
            #![trigger self.entries@[i], self.entries@[j]]
            0 <= i < j < self.entries@.len() ==> self.entries@[i].id@ != self.entries@[j].id@
    }

    /// An empty registry.
    pub fn new() -> (r: BackendRegistry)
        ensures
            r.wf(),
            r.entries@.len() == 0,
    {
        BackendRegistry { entries: Vec::new() }
    }

    /// Register a backend. Refused, changing nothing, when the id is
    /// already taken.
    pub fn register(&mut self, id: String, default_voice: Option<String>) -> (ok: bool)
        requires
            old(self).wf(),
        ensures
            final(self).wf(),
            ok == !spec_has_id(old(self).entries@, id@),
            ok ==> final(self).entries@.len() == old(self).entries@.len() + 1
                && final(self).entries@.subrange(0, old(self).entries@.len() as int) == old(self).entries@ && final(self).entries@.last().id@ == id@ && (match final(self).entries@.last().default_voice {
                Some(d) => default_voice matches Some(v) && d@ == v@,
                None => default_voice is None,
            }),
            !ok ==> *final(self) == *old(self),
    {
        let n = self.entries.len();
        let mut i: usize = 0;
        while i < n
            invariant
                i <= n,
                n == self.entries@.len(),
                *self == *old(self),
                old(self).wf(),
                forall|j: int| 0 <= j < i ==> (#[trigger] self.entries@[j]).id@ != id@,
            decreases n - i,
        {
            if text::str_eq(self.entries[i].id.as_str(), id.as_str()) {
                return false;
            }
            i = i + 1;
        }
        self.entries.push(BackendInfo { id, default_voice });
        proof {
            assert(final(self).entries@.subrange(0, old(self).entries@.len() as int) =~= old(self).entries@);
        }
        true
    }

    /// The position of a backend id, if registered.
    pub fn find_index(&self, id: &str) -> (r: Option<usize>)
        ensures
            match r {
                Some(i) => i < self.entries@.len() && self.entries@[i as int].id@ == id@,
                None => !spec_has_id(self.entries@, id@),
            },
    {
        let n = self.entries.len();
        let mut i: usize = 0;
        while i < n
            invariant
                i <= n,
                n == self.entries@.len(),
                forall|j: int| 0 <= j < i ==> (#[trigger] self.entries@[j]).id@ != id@,
            decreases n - i,
        {
            if text::str_eq(self.entries[i].id.as_str(), id) {
                return Some(i);
            }
            i = i + 1;
        }
        None
    }

    /// The first registered backend, in registration order, whose id
    /// followed by a colon prefixes the voice spec.
    fn find_prefix_index(&self, v: &str) -> (r: Option<usize>)
        ensures
            match r {
                Some(i) => i < self.entries@.len() && spec_has_backend_prefix(
                    v@,
                    self.entries@[i as int].id@,
                ) && forall|j: int|
                    0 <= j < i ==> !spec_has_backend_prefix(v@, (#[trigger] self.entries@[j]).id@),
                None => forall|j: int|
                    0 <= j < self.entries@.len() ==> !spec_has_backend_prefix(
                        v@,
                        (#[trigger] self.entries@[j]).id@,
                    ),
            },
    {
        let n = self.entries.len();
        let mut i: usize = 0;
        while i < n
            invariant
                i <= n,
                n == self.entries@.len(),
                forall|j: int|
                    0 <= j < i ==> !spec_has_backend_prefix(v@, (#[trigger] self.entries@[j]).id@),
            decreases n - i,
        {
            let prefix = self.entries[i].id.clone().concat(":");
            if text::starts_with(v, prefix.as_str()) {
                return Some(i);
            }
            i = i + 1;
        }
        None
    }

    /// Resolve a voice spec against this registry, with the configured
    /// default backend. A recognized backend prefix (the first registered
    /// id, in registration order, that prefixes the spec) picks that
    /// backend, stripped from the voice id; a bare spec, or none, falls to
    /// the default backend; a backend that requires a fixed default voice
    /// supplies it when the request names none. `None` means the chosen
    /// backend is not registered.
    #[verifier::rlimit(30)]
    pub fn resolve(&self, voice_spec: &Option<String>, default_backend: &str) -> (r: Option<
        ResolvedVoice,
    >)
        requires
            self.wf(),
        ensures
            match voice_spec {
                Some(v) => {
                    if exists|i: int|
                        0 <= i < self.entries@.len() && spec_has_backend_prefix(
                            v@,
                            (#[trigger] self.entries@[i]).id@,
                        ) {
                        exists|i: int|
                            {
                                &&& 0 <= i < self.entries@.len()
                                &&& spec_has_backend_prefix(v@, (#[trigger] self.entries@[i]).id@)
                                &&& forall|j: int|
                                    0 <= j < i ==> !spec_has_backend_prefix(
                                        v@,
                                        (#[trigger] self.entries@[j]).id@,
                                    )
                                &&& r matches Some(res) && res.backend_id@ == self.entries@[i].id@
                                    && (res.voice_id matches Some(u) && u@ == v@.skip(
                                    self.entries@[i].id@.len() as int + 1,
                                ))
                            }
                    } else if spec_has_id(self.entries@, default_backend@) {
                        r matches Some(res) && res.backend_id@ == default_backend@
                            && (res.voice_id matches Some(u) && u@ == v@)
                    } else {
                        r is None
                    }
                },
                None => {
                    if exists|i: int|
                        0 <= i < self.entries@.len() && (#[trigger] self.entries@[i]).id@
                            == default_backend@ {
                        exists|i: int|
                            {
                                &&& 0 <= i < self.entries@.len()
                                &&& (#[trigger] self.entries@[i]).id@ == default_backend@
                                &&& r matches Some(res) && res.backend_id@ == default_backend@
                                    && (match self.entries@[i].default_voice {
                                    Some(d) => (res.voice_id matches Some(u) && u@ == d@),
                                    None => res.voice_id is None,
                                })
                            }
                    } else {
                        r is None
                    }
                },
            },
    {
        match voice_spec {
            Some(v) => {
                match self.find_prefix_index(v.as_str()) {
                    Some(i) => {
                        proof {
                            reveal_strlit(":");
                        }
                        let entry_id = &self.entries[i].id;
                        let prefix = entry_id.clone().concat(":");
                        let plen = prefix.unicode_len();
                        let vlen = v.as_str().unicode_len();
                        let stripped = v.as_str().substring_char(plen, vlen);
                        proof {
                            assert(stripped@ =~= v@.skip(
                                self.entries@[i as int].id@.len() as int + 1,
                            ));
                        }
                        let res = ResolvedVoice {
                            backend_id: entry_id.clone(),
                            voice_id: Some(stripped.to_owned()),
                        };
                        proof {
                            let ghost w = i as int;
                            assert({
                                &&& 0 <= w < self.entries@.len()
                                &&& spec_has_backend_prefix(v@, self.entries@[w].id@)
                                &&& forall|j: int|
                                    0 <= j < w ==> !spec_has_backend_prefix(
                                        v@,
                                        (#[trigger] self.entries@[j]).id@,
                                    )
                                &&& res.backend_id@ == self.entries@[w].id@
                                &&& (res.voice_id matches Some(u) && u@ == v@.skip(
                                    self.entries@[w].id@.len() as int + 1,
                                ))
                            });
                        }
                        return Some(res);
                    },
                    None => {},
                }
                match self.find_index(default_backend) {
                    Some(_) => Some(
                        ResolvedVoice {
                            backend_id: default_backend.to_owned(),
                            voice_id: Some(v.clone()),
                        },
                    ),
                    None => None,
                }
            },
            None => {
                match self.find_index(default_backend) {
                    Some(i) => {
                        let voice_id = match &self.entries[i].default_voice {
                            Some(d) => Some(d.clone()),
                            None => None,
                        };
                        Some(ResolvedVoice { backend_id: default_backend.to_owned(), voice_id })
                    },
                    None => None,
                }
            },
        }
    }
}

/// Whether some entry carries this id.
pub open spec fn spec_has_id(s: Seq<BackendInfo>, id: Seq<char>) -> bool {
    exists|i: int| 0 <= i < s.len() && (#[trigger] s[i]).id@ == id
}

/// Each voice id prefixed with its backend's id, keeping the id space
/// unambiguous when voices of every backend are listed together.
pub fn prefix_voices(backend_id: &str, voices: Vec<Voice>) -> (out: Vec<Voice>)
    ensures
        out@.len() == voices@.len(),
        forall|k: int|
            0 <= k < out@.len() ==> (#[trigger] out@[k]).id@ == backend_id@ + ":"@ + voices@[k].id@
                && out@[k].name@ == voices@[k].name@ && out@[k].language@ == voices@[k].language@,
{
    let mut rest = voices;
    let mut out: Vec<Voice> = Vec::new();
    let ghost orig = rest@;
    while rest.len() > 0
        invariant
            out@.len() + rest@.len() == orig.len(),
            rest@ =~= orig.skip(out@.len() as int),
            forall|k: int|
                0 <= k < out@.len() ==> (#[trigger] out@[k]).id@ == backend_id@ + ":"@
                    + orig[k].id@ && out@[k].name@ == orig[k].name@ && out@[k].language@
                    == orig[k].language@,
        decreases rest@.len(),
    {
        let ghost pre = rest@;
        let v = rest.remove(0);
        proof {
            assert(rest@ =~= pre.drop_first());
            assert(pre.drop_first() =~= orig.skip(out@.len() as int + 1));
        }
        let mut id = backend_id.to_owned();
        id.append(":");
        id.append(v.id.as_str());
        out.push(Voice { id, name: v.name, language: v.language });
    }
    out
}

/// Where a download request goes: a spec `"{backendId}:{voiceId}"` is
/// split at its first colon; a bare voice id goes to the voice-download
/// backend, `piper`.
pub fn download_voice_target(full_id: &str) -> (r: (String, String))
    ensures
        match text_first_colon(full_id@) {
            Some(k) => r.0@ == full_id@.take(k) && r.1@ == full_id@.skip(k + 1),
            None => r.0@ == "piper"@ && r.1@ == full_id@,
        },
{
    match text::find_char(full_id, ':') {
        Some(k) => {
            let len = full_id.unicode_len();
            let backend = full_id.substring_char(0, k);
            let voice = full_id.substring_char(k + 1, len);
            proof {
                assert(text_first_colon(full_id@) matches Some(kk) && kk == k as int) by {
                    assert(full_id@[k as int] == ':');
                }
                assert(backend@ =~= full_id@.take(k as int));
                assert(voice@ =~= full_id@.skip(k as int + 1));
            }
            (backend.to_owned(), voice.to_owned())
        },
        None => {
            assert(text_first_colon(full_id@) is None);
            (String::from_str("piper"), full_id.to_owned())
        },
    }
}

/// The first position of a colon, if any.
pub open spec fn text_first_colon(s: Seq<char>) -> Option<int> {
    if exists|k: int| 0 <= k < s.len() && s[k] == ':' {
        Some(choose|k: int| 0 <= k < s.len() && s[k] == ':' && forall|j: int| 0 <= j < k ==> s[j] != ':')
    } else {
        None
    }
}

} // verus!
