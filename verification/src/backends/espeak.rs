//! The espeak-ng backend's verified side: the command line its synthesis
//! call is built from. The process itself is spawned outside the library
//! (with its five-second wall-clock timeout) and hands its output back as
//! plain bytes.

use vstd::prelude::*;

verus! {

/// The espeak-ng synthesis backend. It shells out to the `espeak-ng`
/// binary, so the calls themselves live outside the library.
pub struct EspeakBackend;

impl EspeakBackend {
    pub fn new() -> (r: EspeakBackend)
        ensures
            r == EspeakBackend,
    {
        EspeakBackend
    }

    /// The arguments of one synthesis invocation: WAV to stdout, the
    /// requested voice if any, then the text.
    pub fn synthesize_args(&self, text: &str, voice: Option<&str>) -> (args: Vec<String>)
        ensures
            match voice {
                Some(v) => args@.len() == 4 && args@[0]@ == "--stdout"@ && args@[1]@ == "-v"@
                    && args@[2]@ == v@ && args@[3]@ == text@,
                None => args@.len() == 2 && args@[0]@ == "--stdout"@ && args@[1]@ == text@,
            },
    {
        let mut args: Vec<String> = Vec::new();
        args.push(String::from_str("--stdout"));
        match voice {
            Some(v) => {
                args.push(String::from_str("-v"));
                args.push(v.to_owned());
            },
            None => {},
        }
        args.push(text.to_owned());
        args
    }
}

} // verus!
