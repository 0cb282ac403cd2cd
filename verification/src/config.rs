//! The compression option: which codecs a run enables and at what quality.
//!
//! The option is a list of texts, each a comma-separated list of items. An
//! item is a codec name, optionally followed by `:` and a quality.

use vstd::prelude::*;
use crate::algorithm::{Algorithm, Algorithms};
use crate::quality::Quality;
use crate::text::{
    decimal_i8, parse_i8, same_text, split_each, split_list, split_once, texts,
};

verus! {

/// Why a compression option is refused.
#[derive(Debug, PartialEq, Eq)]
pub enum ConfigError {
    /// The text after `:` does not write an 8-bit signed integer.
    InvalidQuality(String),
    /// The quality lies outside the domain of the named codec.
    QualityOutOfRange(Algorithm, i8),
    /// The item names no codec; the whole item is held.
    UnknownAlgorithm(String),
    /// The option enables no codec at all.
    NoAlgorithm,
}

/// A refusal, with its texts as sequences of characters.
pub enum ConfigFault {
    InvalidQuality(Seq<char>),
    QualityOutOfRange(Algorithm, i8),
    UnknownAlgorithm(Seq<char>),
    NoAlgorithm,
}

impl View for ConfigError {
    type V = ConfigFault;

    open spec fn view(&self) -> ConfigFault {
        match *self {
            ConfigError::InvalidQuality(text) => ConfigFault::InvalidQuality(text@),
            ConfigError::QualityOutOfRange(a, q) => ConfigFault::QualityOutOfRange(a, q),
            ConfigError::UnknownAlgorithm(text) => ConfigFault::UnknownAlgorithm(text@),
            ConfigError::NoAlgorithm => ConfigFault::NoAlgorithm,
        }
    }
}

/// The short name under which the option may name a codec.
pub open spec fn abbreviation(algorithm: Algorithm) -> Seq<char> {
    match algorithm {
        Algorithm::Brotli => seq!['b', 'r'],
        Algorithm::Deflate => seq!['d', 'e'],
        Algorithm::Gzip => seq!['g', 'z'],
        Algorithm::Zstd => seq!['z', 's', 't'],
    }
}

/// Whether `name` is the short or the full name of `algorithm`.
pub open spec fn names(name: Seq<char>, algorithm: Algorithm) -> bool {
    name == abbreviation(algorithm) || name == algorithm.label()
}

/// The codec that `name` names, by its short or its full name.
pub open spec fn named(name: Seq<char>) -> Option<Algorithm> {
    if names(name, Algorithm::Brotli) {
        Some(Algorithm::Brotli)
    } else if names(name, Algorithm::Deflate) {
        Some(Algorithm::Deflate)
    } else if names(name, Algorithm::Gzip) {
        Some(Algorithm::Gzip)
    } else if names(name, Algorithm::Zstd) {
        Some(Algorithm::Zstd)
    } else {
        None
    }
}

/// The quality that `raw` writes for `algorithm`, or the reason it writes none.
pub open spec fn quality_of(algorithm: Algorithm, raw: Seq<char>) -> Result<i8, ConfigFault> {
    match decimal_i8(raw) {
        None => Err(ConfigFault::InvalidQuality(raw)),
        Some(q) => if algorithm.accepts(q as int) {
            Ok(q)
        } else {
            Err(ConfigFault::QualityOutOfRange(algorithm, q))
        },
    }
}

/// The part of `item` that names the codec: all of it, or what stands before the first `:`.
pub open spec fn item_name(item: Seq<char>) -> Seq<char> {
    match split_once(item, ':') {
        Some(parts) => parts.0,
        None => item,
    }
}

/// The part of `item` that writes the quality: what stands after the first `:`, if there is one.
pub open spec fn item_quality(item: Seq<char>) -> Option<Seq<char>> {
    match split_once(item, ':') {
        Some(parts) => Some(parts.1),
        None => None,
    }
}

/// The selection after `item`. A quality that is no number is refused first,
/// then an unknown name, then a quality outside the codec's domain. An
/// accepted item enables its codec and, if it writes a quality, stores it.
pub open spec fn apply_item(state: (Algorithms, Quality), item: Seq<char>) -> Result<
    (Algorithms, Quality),
    ConfigFault,
> {
    match item_quality(item) {
        None => match named(item_name(item)) {
            None => Err(ConfigFault::UnknownAlgorithm(item)),
            Some(a) => Ok((state.0.with(a), state.1)),
        },
        Some(raw) => match decimal_i8(raw) {
            None => Err(ConfigFault::InvalidQuality(raw)),
            Some(q) => match named(item_name(item)) {
                None => Err(ConfigFault::UnknownAlgorithm(item)),
                Some(a) => if a.accepts(q as int) {
                    Ok((state.0.with(a), state.1.with(a, q)))
                } else {
                    Err(ConfigFault::QualityOutOfRange(a, q))
                },
            },
        },
    }
}

/// The selection after all of `items`, taken in order; the first refusal ends it.
pub open spec fn apply_items(state: (Algorithms, Quality), items: Seq<Seq<char>>) -> Result<
    (Algorithms, Quality),
    ConfigFault,
>
    decreases items.len(),
{
    if items.len() == 0 {
        Ok(state)
    } else {
        match apply_item(state, items[0]) {
            Err(fault) => Err(fault),
            Ok(next) => apply_items(next, items.skip(1)),
        }
    }
}

/// The selection a run starts from: no codec enabled, default qualities.
pub open spec fn initial_selection() -> (Algorithms, Quality) {
    (Algorithms::none(), Quality::initial())
}

/// What the option `compression` selects: nothing but the defaults if it is
/// absent, else the selection after the comma-separated items of all its texts.
pub open spec fn selection_of(compression: Option<Seq<Seq<char>>>) -> Result<
    (Algorithms, Quality),
    ConfigFault,
> {
    match compression {
        None => Ok(initial_selection()),
        Some(list) => apply_items(initial_selection(), split_each(list, ',')),
    }
}

/// The configuration of a run: what the option selects, refused where it
/// enables no codec.
pub open spec fn configuration_of(compression: Option<Seq<Seq<char>>>) -> Result<
    (Algorithms, Quality),
    ConfigFault,
> {
    match selection_of(compression) {
        Err(fault) => Err(fault),
        Ok(selection) => if selection.0 == Algorithms::none() {
            Err(ConfigFault::NoAlgorithm)
        } else {
            Ok(selection)
        },
    }
}

/// Whether `result` is `expected`, errors taken by their view.
pub open spec fn agrees<T>(result: Result<T, ConfigError>, expected: Result<T, ConfigFault>) -> bool {
    match expected {
        Ok(value) => result == Ok::<T, ConfigError>(value),
        Err(fault) => result is Err && result->Err_0@ == fault,
    }
}

/// Returns the codec that `name` names, by its short or its full name.
pub fn lookup(name: &str) -> (out: Option<Algorithm>)
    ensures
        out == named(name@),
{
    proof {
        reveal_strlit("br");
        reveal_strlit("brotli");
        reveal_strlit("de");
        reveal_strlit("deflate");
        reveal_strlit("gz");
        reveal_strlit("gzip");
        reveal_strlit("zst");
        reveal_strlit("zstd");
        assert("br"@ =~= abbreviation(Algorithm::Brotli));
        assert("brotli"@ =~= Algorithm::Brotli.label());
        assert("de"@ =~= abbreviation(Algorithm::Deflate));
        assert("deflate"@ =~= Algorithm::Deflate.label());
        assert("gz"@ =~= abbreviation(Algorithm::Gzip));
        assert("gzip"@ =~= Algorithm::Gzip.label());
        assert("zst"@ =~= abbreviation(Algorithm::Zstd));
        assert("zstd"@ =~= Algorithm::Zstd.label());
    }
    if same_text(name, "br") || same_text(name, "brotli") {
        Some(Algorithm::Brotli)
    } else if same_text(name, "de") || same_text(name, "deflate") {
        Some(Algorithm::Deflate)
    } else if same_text(name, "gz") || same_text(name, "gzip") {
        Some(Algorithm::Gzip)
    } else if same_text(name, "zst") || same_text(name, "zstd") {
        Some(Algorithm::Zstd)
    } else {
        None
    }
}

/// Reads `raw` as a quality for `algorithm`: the number it writes, if it
/// writes one and the codec accepts it.
pub fn validate_quality(algorithm: Algorithm, raw: &str) -> (out: Result<i8, ConfigError>)
    ensures
        agrees(out, quality_of(algorithm, raw@)),
{
    match parse_i8(raw) {
        None => Err(ConfigError::InvalidQuality(raw.to_owned())),
        Some(q) => if algorithm.admits(q) {
            Ok(q)
        } else {
            Err(ConfigError::QualityOutOfRange(algorithm, q))
        },
    }
}

/// Applies one item of the option to the selection `(algorithms, quality)`.
pub fn parse_item(algorithms: Algorithms, quality: Quality, item: &str) -> (out: Result<
    (Algorithms, Quality),
    ConfigError,
>)
    ensures
        agrees(out, apply_item((algorithms, quality), item@)),
{
    let n = item.unicode_len();
    let mut colon: usize = 0;
    while colon < n && item.get_char(colon) != ':'
        invariant
            n == item@.len(),
            colon <= n,
            forall|j: int| 0 <= j < colon ==> item@[j] != ':',
        decreases n - colon,
    {
        colon = colon + 1;
    }
    proof {
        crate::text::lemma_find_is(item@, ':', colon as int);
    }
    let mut algorithms = algorithms;
    let mut quality = quality;
    if colon == n {
        match lookup(item) {
            None => Err(ConfigError::UnknownAlgorithm(item.to_owned())),
            Some(a) => {
                algorithms.enable(a);
                Ok((algorithms, quality))
            },
        }
    } else {
        let name = item.substring_char(0, colon);
        let raw = item.substring_char(colon + 1, n);
        match lookup(name) {
            None => match parse_i8(raw) {
                None => Err(ConfigError::InvalidQuality(raw.to_owned())),
                Some(_) => Err(ConfigError::UnknownAlgorithm(item.to_owned())),
            },
            Some(a) => match validate_quality(a, raw) {
                Err(e) => Err(e),
                Ok(q) => {
                    algorithms.enable(a);
                    quality.set(a, q);
                    Ok((algorithms, quality))
                },
            },
        }
    }
}

/// Reads the compression option: the codecs it enables and the quality of
/// each codec, defaults where it writes none.
pub fn parse_compression(compression: Option<Vec<String>>) -> (out: Result<
    (Algorithms, Quality),
    ConfigError,
>)
    ensures
        agrees(
            out,
            selection_of(
                match compression {
                    Some(list) => Some(texts(list@)),
                    None => None,
                },
            ),
        ),
        out matches Ok(selection) ==> selection.1.wf(),
{
    let mut algorithms = Algorithms::empty();
    let mut quality = Quality::default();
    let list = match compression {
        None => {
            return Ok((algorithms, quality));
        },
        Some(list) => list,
    };
    let items = split_list(&list, ',');
    let ghost all = texts(items@);
    let mut i: usize = 0;
    assert(all.skip(0) =~= all);
    while i < items.len()
        invariant
            i <= items.len(),
            compression == Some(list),
            all == texts(items@),
            all == split_each(texts(list@), ','),
            quality.wf(),
            apply_items((algorithms, quality), all.skip(i as int)) == apply_items(
                initial_selection(),
                all,
            ),
        decreases items.len() - i,
    {
        assert(all.skip(i as int).skip(1) =~= all.skip(i + 1));
        match parse_item(algorithms, quality, items[i].as_str()) {
            Err(e) => {
                return Err(e);
            },
            Ok(next) => {
                proof {
                    lemma_item_keeps_wf((algorithms, quality), items@[i as int]@);
                }
                algorithms = next.0;
                quality = next.1;
            },
        }
        i = i + 1;
    }
    Ok((algorithms, quality))
}

/// An accepted item leaves valid qualities valid and never disables a codec.
pub proof fn lemma_item_keeps_wf(state: (Algorithms, Quality), item: Seq<char>)
    requires
        state.1.wf(),
    ensures
        apply_item(state, item) matches Ok(next) ==> next.1.wf() && forall|a: Algorithm|
            state.0.enabled(a) ==> next.0.enabled(a),
{
}

/// Reads the compression option as the configuration of a run: as
/// `parse_compression` does, but an option that enables no codec is refused.
pub fn configure(compression: Option<Vec<String>>) -> (out: Result<
    (Algorithms, Quality),
    ConfigError,
>)
    ensures
        agrees(
            out,
            configuration_of(
                match compression {
                    Some(list) => Some(texts(list@)),
                    None => None,
                },
            ),
        ),
        out matches Ok(selection) ==> selection.1.wf() && selection.0.count() > 0,
{
    match parse_compression(compression) {
        Err(e) => Err(e),
        Ok(selection) => {
            let algorithms = selection.0;
            if algorithms.brotli || algorithms.deflate || algorithms.gzip || algorithms.zstd {
                Ok(selection)
            } else {
                Err(ConfigError::NoAlgorithm)
            }
        },
    }
}

} // verus!
