//! Per-codec quality settings and their range validation.

use vstd::prelude::*;
use crate::algorithm::Algorithm;

verus! {

/// One quality value per codec, shared read-only by all workers of a run.
#[derive(Debug, Clone, Copy, PartialEq, Eq, Structural)]
pub struct Quality {
    pub brotli: i8,
    pub deflate: i8,
    pub gzip: i8,
    pub zstd: i8,
}

impl Quality {
    /// The quality held for `algorithm`.
    pub open spec fn level(self, algorithm: Algorithm) -> int {
        match algorithm {
            Algorithm::Brotli => self.brotli as int,
            Algorithm::Deflate => self.deflate as int,
            Algorithm::Gzip => self.gzip as int,
            Algorithm::Zstd => self.zstd as int,
        }
    }

    /// Every held quality lies in the domain of its codec.
    pub open spec fn wf(self) -> bool {
        &&& Algorithm::Brotli.accepts(self.brotli as int)
        &&& Algorithm::Deflate.accepts(self.deflate as int)
        &&& Algorithm::Gzip.accepts(self.gzip as int)
        &&& Algorithm::Zstd.accepts(self.zstd as int)
    }

    /// The same settings with the quality of `algorithm` replaced by `quality`.
    pub open spec fn with(self, algorithm: Algorithm, quality: i8) -> Quality {
        match algorithm {
            Algorithm::Brotli => Quality { brotli: quality, ..self },
            Algorithm::Deflate => Quality { deflate: quality, ..self },
            Algorithm::Gzip => Quality { gzip: quality, ..self },
            Algorithm::Zstd => Quality { zstd: quality, ..self },
        }
    }

    /// The settings in which every codec has its default quality.
    pub open spec fn initial() -> Quality {
        Quality { brotli: 10, deflate: 7, gzip: 7, zstd: 19 }
    }

    /// The settings left by `set`: replaced if the codec accepts the value, untouched if not.
    pub open spec fn after_set(self, algorithm: Algorithm, quality: i8) -> Quality {
        if algorithm.accepts(quality as int) {
            self.with(algorithm, quality)
        } else {
            self
        }
    }

    /// Stores `quality` for `algorithm` if it lies in the codec's domain and
    /// reports whether it did; a rejected value leaves the settings untouched.
    pub fn set(&mut self, algorithm: Algorithm, quality: i8) -> (accepted: bool)
        ensures
            accepted == algorithm.accepts(quality as int),
            *final(self) == old(self).after_set(algorithm, quality),
            old(self).wf() ==> final(self).wf(),
    {
        match algorithm {
            Algorithm::Brotli => {
                if 0 <= quality && quality <= 11 {
                    self.brotli = quality;
                    true
                } else {
                    false
                }
            },
            Algorithm::Deflate => {
                if 1 <= quality && quality <= 9 {
                    self.deflate = quality;
                    true
                } else {
                    false
                }
            },
            Algorithm::Gzip => {
                if 1 <= quality && quality <= 9 {
                    self.gzip = quality;
                    true
                } else {
                    false
                }
            },
            Algorithm::Zstd => {
                if -7 <= quality && quality <= 22 {
                    self.zstd = quality;
                    true
                } else {
                    false
                }
            },
        }
    }

    /// Returns the quality held for `algorithm`.
    pub fn get(&self, algorithm: Algorithm) -> (out: i8)
        ensures
            out as int == self.level(algorithm),
    {
        match algorithm {
            Algorithm::Brotli => self.brotli,
            Algorithm::Deflate => self.deflate,
            Algorithm::Gzip => self.gzip,
            Algorithm::Zstd => self.zstd,
        }
    }

    /// Tells whether every held quality lies in the domain of its codec.
    pub fn is_valid(&self) -> (out: bool)
        ensures
            out == self.wf(),
    {
        0 <= self.brotli && self.brotli <= 11 && 1 <= self.deflate && self.deflate <= 9 && 1
            <= self.gzip && self.gzip <= 9 && -7 <= self.zstd && self.zstd <= 22
    }
}

impl Default for Quality {
    /// Every codec starts at its default quality.
    fn default() -> (out: Quality)
        ensures
            out == Quality::initial(),
            out.wf(),
            forall|a: Algorithm| out.level(a) == a.default_quality(),
    {
        Quality { brotli: 10, deflate: 7, gzip: 7, zstd: 19 }
    }
}

} // verus!
