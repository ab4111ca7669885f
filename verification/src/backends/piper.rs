//! The piper backend's verified side: model file naming, the voice
//! records built from catalog and model metadata, and the selection of
//! catalog files worth downloading. Reading the model directory, fetching
//! the catalog and parsing its JSON happen outside the library, which
//! hands the extracted plain values in.

use vstd::prelude::*;
use crate::backends::Voice;
use crate::text;

verus! {

/// A voice id with underscores read as spaces, for display.
pub open spec fn spec_display_name(id: Seq<char>) -> Seq<char> {
    id.map_values(|c: char| if c == '_' { ' ' } else { c })
}

/// The piper synthesis backend: a neural engine run as an external
/// process over voice models stored on disk.
pub struct PiperBackend {
    pub binary_path: String,
    pub models_dir: String,
}

impl PiperBackend {
    /// A piper backend over the given binary and model directory.
    pub fn new(binary_path: String, models_dir: String) -> (r: PiperBackend)
        ensures
            r.binary_path == binary_path,
            r.models_dir == models_dir,
    {
        PiperBackend { binary_path, models_dir }
    }

    /// The voice piper falls back to when a request names none.
    pub fn fallback_voice(&self) -> (r: String)
        ensures
            r@ == "en_US-lessac-medium"@,
    {
        String::from_str("en_US-lessac-medium")
    }

    /// Where a voice's model and its metadata live: `<dir>/<voice>.onnx`
    /// and `<dir>/<voice>.onnx.json`.
    pub fn model_file_paths(&self, voice_id: &str) -> (r: (String, String))
        ensures
            r.0@ == self.models_dir@ + "/"@ + voice_id@ + ".onnx"@,
            r.1@ == self.models_dir@ + "/"@ + voice_id@ + ".onnx.json"@,
    {
        let mut onnx = self.models_dir.clone();
        onnx.append("/");
        onnx.append(voice_id);
        let mut config = onnx.clone();
        onnx.append(".onnx");
        config.append(".onnx.json");
        (onnx, config)
    }

    /// The voice record for a locally installed model, from the fields its
    /// metadata yields: the display name carries the quality when the
    /// metadata gives one, and the language falls back to `unknown`.
    pub fn voice_from_metadata(
        &self,
        voice_id: &str,
        quality: Option<String>,
        language: Option<String>,
    ) -> (r: Voice)
        ensures
            r.id@ == voice_id@,
            match quality {
                Some(q) => r.name@ == spec_display_name(voice_id@) + " ("@ + q@ + ")"@,
                None => r.name@ == spec_display_name(voice_id@),
            },
            match language {
                Some(l) => r.language@ == l@,
                None => r.language@ == "unknown"@,
            },
    {
        let base = replace_underscores(voice_id);
        let name = match quality {
            Some(q) => {
                let mut n = base;
                n.append(" (");
                n.append(q.as_str());
                n.append(")");
                n
            },
            None => base,
        };
        let language = match language {
            Some(l) => l,
            None => String::from_str("unknown"),
        };
        Voice { id: voice_id.to_owned(), name, language }
    }

    /// The voice record for one downloadable-catalog entry: keyed by the
    /// catalog key, displayed with its quality, with `unknown` filling any
    /// missing field.
    pub fn catalog_voice(
        &self,
        key: &str,
        name: Option<String>,
        quality: Option<String>,
        language: Option<String>,
    ) -> (r: Voice)
        ensures
            r.id@ == key@,
            ({
                let base = match name {
                    Some(n) => n@,
                    None => key@,
                };
                let q = match quality {
                    Some(q) => q@,
                    None => "unknown"@,
                };
                r.name@ == base + " ("@ + q + ")"@
            }),
            match language {
                Some(l) => r.language@ == l@,
                None => r.language@ == "unknown"@,
            },
    {
        let mut display = match name {
            Some(n) => n,
            None => key.to_owned(),
        };
        display.append(" (");
        match quality {
            Some(q) => display.append(q.as_str()),
            None => display.append("unknown"),
        }
        display.append(")");
        let language = match language {
            Some(l) => l,
            None => String::from_str("unknown"),
        };
        Voice { id: key.to_owned(), name: display, language }
    }

    /// Whether a catalog file path belongs to a voice's assets: the model
    /// itself or its metadata.
    pub fn is_voice_asset(&self, path: &str) -> (r: bool)
        ensures
            r == (".onnx"@.is_suffix_of(path@) || ".onnx.json"@.is_suffix_of(path@)),
    {
        text::ends_with(path, ".onnx") || text::ends_with(path, ".onnx.json")
    }

    /// Where a catalog file is fetched from.
    pub fn download_url(&self, path: &str) -> (r: String)
        ensures
            r@ == "https://huggingface.co/rhasspy/piper-voices/resolve/main/"@ + path@,
    {
        let mut url = String::from_str("https://huggingface.co/rhasspy/piper-voices/resolve/main/");
        url.append(path);
        url
    }
}

/// Underscores read as spaces.
pub fn replace_underscores(s: &str) -> (r: String)
    ensures
        r@ == spec_display_name(s@),
{
    let len = s.unicode_len();
    let mut r = String::new();
    let mut i: usize = 0;
    while i < len
        invariant
            i <= len,
            len == s@.len(),
            r@ =~= spec_display_name(s@.subrange(0, i as int)),
        decreases len - i,
    {
        let c = s.get_char(i);
        if c == '_' {
            r.append(" ");
            proof {
                reveal_strlit(" ");
            }
        } else {
            let piece = s.substring_char(i, i + 1);
            r.append(piece);
        }
        proof {
            assert(spec_display_name(s@.subrange(0, i + 1)) =~= spec_display_name(
                s@.subrange(0, i as int),
            ).push(if s@[i as int] == '_' { ' ' } else { s@[i as int] }));
        }
        i = i + 1;
    }
    proof {
        assert(s@.subrange(0, len as int) =~= s@);
    }
    r
}

} // verus!
