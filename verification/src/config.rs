//! The recording configuration that is handed to the engine when a channel is
//! created: whether the streams are mixed, and the directory that recordings
//! are written to.

use crate::text::{
    decoded, find_nul, from_nul_terminated, has_nul, lemma_terminated_has_nul,
    lemma_terminated_round_trip, nul_free, terminated, to_nul_terminated, DecodeError,
};
use vstd::prelude::*;

verus! {

/// What a `Config` holds, as plain values.
pub struct ConfigView {
    /// Whether the engine mixes the streams of a channel into one recording.
    pub mixing_enabled: bool,
    /// The buffer that the engine reads the recording directory from, as
    /// nul-terminated text; `None` until a path has been set.
    pub recording_path: Option<Seq<u8>>,
}

impl ConfigView {
    /// True when the engine can read the recording path without running off
    /// the end of its buffer: the buffer, if there is one, holds a zero byte.
    pub open spec fn well_formed(self) -> bool {
        self.recording_path matches Some(buffer) ==> has_nul(buffer)
    }

    /// The configuration that the engine starts from: no mixing, no path.
    pub open spec fn initial() -> ConfigView {
        ConfigView { mixing_enabled: false, recording_path: None }
    }

    /// This configuration with the mixing flag replaced.
    pub open spec fn with_mixing_enabled(self, enabled: bool) -> ConfigView {
        ConfigView { mixing_enabled: enabled, ..self }
    }

    /// This configuration with the recording path replaced by the
    /// nul-terminated form of `path`.
    pub open spec fn with_recording_path(self, path: Seq<char>) -> ConfigView {
        ConfigView { recording_path: Some(terminated(path)), ..self }
    }

    /// What reading the recording path back gives, once one is set.
    pub open spec fn read_recording_path(self) -> Result<Seq<char>, DecodeError>
        recommends
            self.recording_path is Some,
    {
        decoded(self.recording_path->0)
    }
}

/// A recording configuration. Its view is well formed at all times.
pub struct Config {
    mixing_enabled: bool,
    recording_path: Option<Vec<u8>>,
}

impl View for Config {
    type V = ConfigView;

    closed spec fn view(&self) -> ConfigView {
        ConfigView {
            mixing_enabled: self.mixing_enabled,
            recording_path: match self.recording_path {
                Some(buffer) => Some(buffer@),
                None => None,
            },
        }
    }
}

impl Config {
    #[verifier::type_invariant]
    spec fn path_is_terminated(self) -> bool {
        self@.well_formed()
    }

    /// The default configuration: mixing disabled, recording path unset.
    pub fn new() -> (config: Config)
        ensures
            config@ == ConfigView::initial(),
    {
        Config { mixing_enabled: false, recording_path: None }
    }

    /// A configuration made of the values that the engine holds: the mixing
    /// flag, and the buffer behind the recording path as it stands. The
    /// bytes in the buffer need not be text, but a buffer without a zero
    /// byte is refused.
    pub fn from_raw_parts(mixing_enabled: bool, recording_path: Option<Vec<u8>>) -> (r: Result<
        Config,
        DecodeError,
    >)
        ensures
            match r {
                Ok(config) => {
                    &&& config@.well_formed()
                    &&& config@.mixing_enabled == mixing_enabled
                    &&& match recording_path {
                        Some(buffer) => config@.recording_path == Some(buffer@),
                        None => config@.recording_path is None,
                    }
                },
                Err(e) => {
                    &&& e == DecodeError::Unterminated
                    &&& recording_path matches Some(buffer) && !has_nul(buffer@)
                },
            },
    {
        let terminated = match &recording_path {
            Some(buffer) => find_nul(buffer.as_slice()).is_some(),
            None => true,
        };
        if terminated {
            Ok(Config { mixing_enabled, recording_path })
        } else {
            Err(DecodeError::Unterminated)
        }
    }

    /// Whether mixing is enabled.
    pub fn is_mixing_enabled(&self) -> (enabled: bool)
        ensures
            enabled == self@.mixing_enabled,
    {
        self.mixing_enabled
    }

    /// Replaces the mixing flag, whatever it was; the path stays.
    pub fn set_mixing_enabled(&mut self, enabled: bool)
        ensures
            final(self)@ == old(self)@.with_mixing_enabled(enabled),
    {
        proof {
            use_type_invariant(&*self);
        }
        self.mixing_enabled = enabled;
    }

    /// Replaces the recording path by the nul-terminated form of `path`; the
    /// mixing flag stays. The engine reads text up to the first zero byte, so
    /// `path` must hold none.
    pub fn set_recording_path(&mut self, path: &str)
        requires
            nul_free(path@),
        ensures
            final(self)@ == old(self)@.with_recording_path(path@),
    {
        let buffer = to_nul_terminated(path).unwrap();
        proof {
            lemma_terminated_has_nul(path@);
        }
        self.recording_path = Some(buffer);
    }

    /// Whether a recording path has been set.
    pub fn has_recording_path(&self) -> (set: bool)
        ensures
            set == (self@.recording_path is Some),
    {
        self.recording_path.is_some()
    }

    /// The buffer that the engine is to read the recording path from, if a
    /// path has been set.
    pub fn recording_path_buffer(&self) -> (buffer: Option<&[u8]>)
        ensures
            match buffer {
                Some(bytes) => self@.recording_path == Some(bytes@) && has_nul(bytes@),
                None => self@.recording_path is None,
            },
    {
        proof {
            use_type_invariant(self);
        }
        match &self.recording_path {
            Some(buffer) => Some(buffer.as_slice()),
            None => None,
        }
    }

    /// Reads the recording path back as text. Nothing is said of a
    /// configuration whose path was never set.
    pub fn recording_path(&self) -> (r: Result<&str, DecodeError>)
        requires
            self@.recording_path is Some,
        ensures
            match r {
                Ok(path) => self@.read_recording_path() == Ok::<Seq<char>, DecodeError>(path@),
                Err(e) => self@.read_recording_path() == Err::<Seq<char>, DecodeError>(e)
                    && e == DecodeError::InvalidUtf8,
            },
    {
        proof {
            use_type_invariant(self);
        }
        match &self.recording_path {
            Some(buffer) => from_nul_terminated(buffer.as_slice()),
            None => vstd::pervasive::unreached(),
        }
    }
}

/// Every configuration that can be reached is well formed: the initial one
/// is, a write of the mixing flag keeps it so, and a write of the recording
/// path makes it so.
pub proof fn lemma_well_formed_kept(before: ConfigView, enabled: bool, path: Seq<char>)
    ensures
        ConfigView::initial().well_formed(),
        before.well_formed() ==> before.with_mixing_enabled(enabled).well_formed(),
        before.with_recording_path(path).well_formed(),
{
    lemma_terminated_has_nul(path);
}

/// Each write of the mixing flag replaces it: after a write the flag is what
/// was written, whatever was written before, and writing the same value
/// again changes nothing.
pub proof fn lemma_mixing_flag_overwritten(before: ConfigView, first: bool, second: bool)
    ensures
        before.with_mixing_enabled(second).mixing_enabled == second,
        before.with_mixing_enabled(first).with_mixing_enabled(second) == before.with_mixing_enabled(
            second,
        ),
        before.with_mixing_enabled(second).with_mixing_enabled(second)
            == before.with_mixing_enabled(second),
{
}

/// The mixing flag and the recording path do not touch each other: writing
/// both gives the same configuration in either order.
pub proof fn lemma_writes_commute(before: ConfigView, enabled: bool, path: Seq<char>)
    ensures
        before.with_mixing_enabled(enabled).with_recording_path(path)
            == before.with_recording_path(path).with_mixing_enabled(enabled),
        before.with_recording_path(path).mixing_enabled == before.mixing_enabled,
        before.with_mixing_enabled(enabled).recording_path == before.recording_path,
{
}

/// A path without a zero byte, once set, is read back as it was given,
/// whatever the configuration held before.
pub proof fn lemma_recording_path_round_trip(before: ConfigView, path: Seq<char>)
    requires
        nul_free(path),
    ensures
        before.with_recording_path(path).read_recording_path() == Ok::<Seq<char>, DecodeError>(
            path,
        ),
{
    lemma_terminated_round_trip(path);
}

} // verus!
