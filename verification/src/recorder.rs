//! Utterance recording decisions. While idle, a configured wakeword whose
//! score exceeds the trigger starts a recording; otherwise the delayed tap
//! is drained and dropped. While recording, delayed samples accumulate until
//! the last voice activity is more than two seconds old; the recording is
//! then handed out to be written, and the configured utterance command, if
//! any, is built around the file's name.

use vstd::prelude::*;

use crate::matcher::first_score;
use crate::Chunk;

verus! {

/// Wakeword score beyond which a recording starts: 0.6.
pub const RECORD_TRIGGER: i64 = 600_000;

/// Seconds of VAD silence after which a recording stops.
pub const SILENCE_SECS: u64 = 2;

pub struct Recorder {
    wakeword: Option<String>,
    buffer: Option<Vec<i64>>,
}

impl Recorder {
    /// The configured wakeword, if any.
    pub closed spec fn wakeword_spec(&self) -> Option<Seq<char>> {
        match self.wakeword {
            Some(ref w) => Some(w@),
            None => None,
        }
    }

    /// A recording is in progress.
    pub closed spec fn recording(&self) -> bool {
        self.buffer is Some
    }

    /// The samples recorded so far; empty when idle.
    pub closed spec fn recorded(&self) -> Seq<i64> {
        match self.buffer {
            Some(ref b) => b@,
            None => Seq::empty(),
        }
    }

    pub fn new(wakeword: Option<String>) -> (r: Self)
        ensures
            !r.recording(),
            r.wakeword_spec() == match wakeword {
                Some(ref w) => Some::<Seq<char>>(w@),
                None => None::<Seq<char>>,
            },
    {
        Recorder { wakeword, buffer: None }
    }

    pub fn is_recording(&self) -> (r: bool)
        ensures
            r == self.recording(),
    {
        self.buffer.is_some()
    }

    /// React to one activation set. When idle with a configured wakeword:
    /// a score strictly above the trigger starts a recording, anything else
    /// asks the caller to drain and drop the delayed tap (the result is true
    /// exactly then).
    pub fn observe_activations(&mut self, acts: &Vec<(String, i64)>) -> (discard: bool)
        ensures
            final(self).wakeword_spec() == old(self).wakeword_spec(),
            ({
                let triggered = match old(self).wakeword_spec() {
                    Some(w) => match first_score(acts@, w) {
                        Some(score) => score > RECORD_TRIGGER,
                        None => false,
                    },
                    None => false,
                };
                if old(self).recording() || old(self).wakeword_spec() is None {
                    &&& final(self).recording() == old(self).recording()
                    &&& final(self).recorded() == old(self).recorded()
                    &&& !discard
                } else if triggered {
                    &&& final(self).recording()
                    &&& final(self).recorded() == Seq::<i64>::empty()
                    &&& !discard
                } else {
                    &&& !final(self).recording()
                    &&& discard
                }
            }),
    {
        if self.buffer.is_some() {
            return false;
        }
        let triggered = match &self.wakeword {
            Some(w) => {
                match crate::matcher::find_score(acts, w) {
                    Some(score) => score > RECORD_TRIGGER,
                    None => false,
                }
            },
            None => { return false; },
        };
        if triggered {
            self.buffer = Some(Vec::new());
            false
        } else {
            true
        }
    }

    /// Append one delayed chunk's samples to the recording in progress.
    pub fn append_chunk<const S: usize>(&mut self, chunk: &Chunk<S>)
        requires
            old(self).recording(),
        ensures
            final(self).recording(),
            final(self).wakeword_spec() == old(self).wakeword_spec(),
            final(self).recorded() == old(self).recorded() + chunk@.samples,
    {
        match &mut self.buffer {
            Some(buf) => {
                let mut k: usize = 0;
                while k < chunk.samples.len()
                    invariant
                        k <= chunk.samples@.len(),
                        buf@ == old(self).recorded() + chunk.samples@.take(k as int),
                    decreases chunk.samples@.len() - k,
                {
                    buf.push(chunk.samples[k]);
                    k = k + 1;
                }
                proof {
                    assert(old(self).recorded() + chunk.samples@.take(chunk.samples@.len() as int)
                        =~= old(self).recorded() + chunk@.samples);
                }
            },
            None => {
                proof {
                    assert(false);
                }
            },
        }
    }

    /// While recording, stop once the last voice activity is more than two
    /// seconds old: the recorded samples are handed out and the recorder
    /// goes idle. Otherwise nothing changes.
    pub fn check_silence(&mut self, now_secs: u64, last_activity_secs: u64) -> (done: Option<
        Vec<i64>,
    >)
        ensures
            final(self).wakeword_spec() == old(self).wakeword_spec(),
            ({
                let silent = (last_activity_secs as int + SILENCE_SECS as int) < now_secs as int;
                if old(self).recording() && silent {
                    &&& done is Some
                    &&& done->Some_0@ == old(self).recorded()
                    &&& !final(self).recording()
                } else {
                    &&& done is None
                    &&& final(self).recording() == old(self).recording()
                    &&& final(self).recorded() == old(self).recorded()
                }
            }),
    {
        if self.buffer.is_some() && last_activity_secs < u64::MAX - SILENCE_SECS
            && last_activity_secs + SILENCE_SECS < now_secs {
            let buf = self.buffer.take();
            match buf {
                Some(b) => Some(b),
                None => None,
            }
        } else {
            proof {
                if (last_activity_secs as int + SILENCE_SECS as int) < now_secs as int {
                    assert(last_activity_secs < u64::MAX - SILENCE_SECS);
                }
            }
            None
        }
    }
}

/// What `shlex` makes of a command line: its shell words, or nothing when
/// the quoting is erroneous. A pure function of the string.
pub uninterp spec fn shell_words(s: Seq<char>) -> Option<Seq<Seq<char>>>;

/// Relies on shlex::split: lexes a POSIX shell command line into its words,
/// returning None on erroneous input; deterministic in the string alone.
#[verifier::external_body]
fn shell_split(s: &str) -> (r: Option<Vec<String>>)
    ensures
        match r {
            Some(words) => shell_words(s@) == Some(words@.map_values(|w: String| w@)),
            None => shell_words(s@) is None,
        },
{
    shlex::split(s)
}

/// Build the utterance command: the configured line is shell-lexed, the
/// first word is the program, and the recording's file name is inserted as
/// the first argument before the remaining words. A malformed or empty line
/// yields nothing.
pub fn utterance_command(command: &String, fname: &String) -> (r: Option<(String, Vec<String>)>)
    ensures
        ({
            match shell_words(command@) {
                Some(words) => {
                    if words.len() > 0 {
                        match r {
                            Some((prog, args)) => {
                                &&& prog@ == words[0]
                                &&& args@.len() == words.len()
                                &&& args@[0]@ == fname@
                                &&& forall|k: int|
                                    1 <= k < args@.len() ==> (#[trigger] args@[k])@ == words[k]
                            },
                            None => false,
                        }
                    } else {
                        r is None
                    }
                },
                None => r is None,
            }
        }),
{
    match shell_split(command.as_str()) {
        Some(words) => {
            if words.len() == 0 {
                return None;
            }
            let program = words[0].clone();
            let mut args: Vec<String> = Vec::new();
            args.push(fname.clone());
            let mut k: usize = 1;
            while k < words.len()
                invariant
                    1 <= k <= words@.len(),
                    args@.len() == k as int,
                    args@[0]@ == fname@,
                    forall|j: int| 1 <= j < k as int ==> (#[trigger] args@[j])@ == words@[j]@,
                decreases words@.len() - k,
            {
                args.push(words[k].clone());
                k = k + 1;
            }
            Some((program, args))
        },
        None => None,
    }
}

} // verus!
