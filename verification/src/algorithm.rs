//! The closed set of supported codecs and the set of codecs enabled for a run.

use vstd::prelude::*;

verus! {

/// One of the supported compression codecs.
#[derive(Debug, Clone, Copy, PartialEq, Eq, Structural)]
pub enum Algorithm {
    Brotli,
    Deflate,
    Gzip,
    Zstd,
}

impl Algorithm {
    /// The suffix appended to a source file name to name its compressed sibling.
    pub open spec fn suffix(self) -> Seq<char> {
        match self {
            Algorithm::Brotli => seq!['.', 'b', 'r'],
            Algorithm::Deflate => seq!['.', 'z', 'z'],
            Algorithm::Gzip => seq!['.', 'g', 'z'],
            Algorithm::Zstd => seq!['.', 'z', 's', 't'],
        }
    }

    /// The lower-case name under which the codec is reported.
    pub open spec fn label(self) -> Seq<char> {
        match self {
            Algorithm::Brotli => seq!['b', 'r', 'o', 't', 'l', 'i'],
            Algorithm::Deflate => seq!['d', 'e', 'f', 'l', 'a', 't', 'e'],
            Algorithm::Gzip => seq!['g', 'z', 'i', 'p'],
            Algorithm::Zstd => seq!['z', 's', 't', 'd'],
        }
    }

    /// Smallest quality value the codec accepts.
    pub open spec fn min_quality(self) -> int {
        match self {
            Algorithm::Brotli => 0,
            Algorithm::Deflate => 1,
            Algorithm::Gzip => 1,
            Algorithm::Zstd => -7,
        }
    }

    /// Largest quality value the codec accepts.
    pub open spec fn max_quality(self) -> int {
        match self {
            Algorithm::Brotli => 11,
            Algorithm::Deflate => 9,
            Algorithm::Gzip => 9,
            Algorithm::Zstd => 22,
        }
    }

    /// Quality used when the configuration names none.
    pub open spec fn default_quality(self) -> int {
        match self {
            Algorithm::Brotli => 10,
            Algorithm::Deflate => 7,
            Algorithm::Gzip => 7,
            Algorithm::Zstd => 19,
        }
    }

    /// Whether `quality` lies in the codec's quality domain.
    pub open spec fn accepts(self, quality: int) -> bool {
        self.min_quality() <= quality <= self.max_quality()
    }

    /// Every codec, in the fixed order in which jobs are emitted and results reported.
    pub open spec fn every() -> Seq<Algorithm> {
        seq![Algorithm::Brotli, Algorithm::Deflate, Algorithm::Gzip, Algorithm::Zstd]
    }

    /// Returns the destination suffix of the codec, leading dot included.
    pub fn extension(self) -> (out: &'static str)
        ensures
            out@ == self.suffix(),
    {
        proof {
            reveal_strlit(".br");
            reveal_strlit(".zz");
            reveal_strlit(".gz");
            reveal_strlit(".zst");
        }
        let out = match self {
            Algorithm::Brotli => ".br",
            Algorithm::Deflate => ".zz",
            Algorithm::Gzip => ".gz",
            Algorithm::Zstd => ".zst",
        };
        out
    }

    /// Returns the codec's display name.
    pub fn name(self) -> (out: &'static str)
        ensures
            out@ == self.label(),
    {
        proof {
            reveal_strlit("brotli");
            reveal_strlit("deflate");
            reveal_strlit("gzip");
            reveal_strlit("zstd");
        }
        let out = match self {
            Algorithm::Brotli => "brotli",
            Algorithm::Deflate => "deflate",
            Algorithm::Gzip => "gzip",
            Algorithm::Zstd => "zstd",
        };
        out
    }

    /// Returns the codec's display name as an owned string.
    pub fn to_string(self) -> (out: String)
        ensures
            out@ == self.label(),
    {
        self.name().to_owned()
    }

    /// Tells whether `quality` lies in the codec's quality domain.
    pub fn admits(self, quality: i8) -> (out: bool)
        ensures
            out == self.accepts(quality as int),
    {
        match self {
            Algorithm::Brotli => 0 <= quality && quality <= 11,
            Algorithm::Deflate => 1 <= quality && quality <= 9,
            Algorithm::Gzip => 1 <= quality && quality <= 9,
            Algorithm::Zstd => -7 <= quality && quality <= 22,
        }
    }

    /// Returns all codecs in their fixed order.
    pub fn iter() -> (out: Vec<Algorithm>)
        ensures
            out@ == Algorithm::every(),
    {
        let mut out: Vec<Algorithm> = Vec::new();
        out.push(Algorithm::Brotli);
        out.push(Algorithm::Deflate);
        out.push(Algorithm::Gzip);
        out.push(Algorithm::Zstd);
        out
    }
}

/// The codecs enabled for a run, one flag per codec.
#[derive(Debug, Clone, Copy, PartialEq, Eq, Structural)]
pub struct Algorithms {
    pub brotli: bool,
    pub deflate: bool,
    pub gzip: bool,
    pub zstd: bool,
}

impl Algorithms {
    /// Whether codec `algorithm` is enabled.
    pub open spec fn enabled(self, algorithm: Algorithm) -> bool {
        match algorithm {
            Algorithm::Brotli => self.brotli,
            Algorithm::Deflate => self.deflate,
            Algorithm::Gzip => self.gzip,
            Algorithm::Zstd => self.zstd,
        }
    }

    /// The enabled codecs, in the fixed codec order.
    pub open spec fn selected(self) -> Seq<Algorithm> {
        Algorithms::pick(self.brotli, Algorithm::Brotli) + Algorithms::pick(
            self.deflate,
            Algorithm::Deflate,
        ) + Algorithms::pick(self.gzip, Algorithm::Gzip) + Algorithms::pick(
            self.zstd,
            Algorithm::Zstd,
        )
    }

    /// The one-element sequence of `algorithm` if `flag` is set, else the empty one.
    pub open spec fn pick(flag: bool, algorithm: Algorithm) -> Seq<Algorithm> {
        if flag {
            seq![algorithm]
        } else {
            Seq::empty()
        }
    }

    /// The set in which no codec is enabled.
    pub open spec fn none() -> Algorithms {
        Algorithms { brotli: false, deflate: false, gzip: false, zstd: false }
    }

    /// The set in which every codec is enabled.
    pub open spec fn all() -> Algorithms {
        Algorithms { brotli: true, deflate: true, gzip: true, zstd: true }
    }

    /// The number of enabled codecs.
    pub open spec fn count(self) -> nat {
        self.selected().len()
    }

    /// The same set with `algorithm` switched on.
    pub open spec fn with(self, algorithm: Algorithm) -> Algorithms {
        match algorithm {
            Algorithm::Brotli => Algorithms { brotli: true, ..self },
            Algorithm::Deflate => Algorithms { deflate: true, ..self },
            Algorithm::Gzip => Algorithms { gzip: true, ..self },
            Algorithm::Zstd => Algorithms { zstd: true, ..self },
        }
    }

    /// A codec is among the selected ones exactly when its flag is set, the
    /// selection keeps the fixed codec order, and no codec is selected twice.
    pub proof fn lemma_selected_members(self)
        ensures
            forall|a: Algorithm| self.selected().contains(a) <==> self.enabled(a),
            self.selected().no_duplicates(),
            self.count() <= 4,
    {
        let s = self.selected();
        let b: int = if self.brotli { 1 } else { 0 };
        let d: int = if self.deflate { 1 } else { 0 };
        let g: int = if self.gzip { 1 } else { 0 };
        assert forall|a: Algorithm| s.contains(a) <==> self.enabled(a) by {
            if self.enabled(a) {
                let at: int = match a {
                    Algorithm::Brotli => 0,
                    Algorithm::Deflate => b,
                    Algorithm::Gzip => b + d,
                    Algorithm::Zstd => b + d + g,
                };
                assert(s[at] == a);
            }
        }
    }

    /// Returns the set with every codec enabled.
    pub fn all_enabled() -> (out: Algorithms)
        ensures
            out == Algorithms::all(),
            forall|a: Algorithm| out.enabled(a),
            out.selected() == Algorithm::every(),
    {
        let out = Algorithms { brotli: true, deflate: true, gzip: true, zstd: true };
        out
    }

    /// Returns the set with no codec enabled.
    pub fn empty() -> (out: Algorithms)
        ensures
            out == Algorithms::none(),
            forall|a: Algorithm| !out.enabled(a),
            out.selected() == Seq::<Algorithm>::empty(),
    {
        let out = Algorithms { brotli: false, deflate: false, gzip: false, zstd: false };
        out
    }

    /// Tells whether `algorithm` is enabled.
    pub fn is_enabled(&self, algorithm: Algorithm) -> (out: bool)
        ensures
            out == self.enabled(algorithm),
    {
        match algorithm {
            Algorithm::Brotli => self.brotli,
            Algorithm::Deflate => self.deflate,
            Algorithm::Gzip => self.gzip,
            Algorithm::Zstd => self.zstd,
        }
    }

    /// Switches `algorithm` on and leaves the other flags as they are.
    pub fn enable(&mut self, algorithm: Algorithm)
        ensures
            *final(self) == old(self).with(algorithm),
    {
        match algorithm {
            Algorithm::Brotli => self.brotli = true,
            Algorithm::Deflate => self.deflate = true,
            Algorithm::Gzip => self.gzip = true,
            Algorithm::Zstd => self.zstd = true,
        }
    }

    /// Returns the enabled codecs in the fixed codec order.
    pub fn iter(self) -> (out: Vec<Algorithm>)
        ensures
            out@ == self.selected(),
    {
        let mut out: Vec<Algorithm> = Vec::new();
        if self.brotli {
            out.push(Algorithm::Brotli);
        }
        if self.deflate {
            out.push(Algorithm::Deflate);
        }
        if self.gzip {
            out.push(Algorithm::Gzip);
        }
        if self.zstd {
            out.push(Algorithm::Zstd);
        }
        out
    }
}

impl Default for Algorithms {
    /// No codec is enabled by default.
    fn default() -> (out: Algorithms)
        ensures
            out == Algorithms::none(),
    {
        Algorithms::empty()
    }
}

} // verus!
