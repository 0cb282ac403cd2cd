//! The outside codec engines, each call behind a contract that is taken on trust.
//!
//! Every encoder writes into memory. What an engine makes of its input is
//! not modelled: each stream has a name, a function of what the engine was
//! given, and the contracts say which arguments a stream belongs to. With
//! nothing but memory behind it, whether a call succeeds is a function of
//! what the engine was given too, and has a name of its own. Running out of
//! memory is left out of the model, here as for `Vec`.

use vstd::prelude::*;

verus! {

/// `std::io::Error`, the error of every engine call, carried as an opaque value.
#[verifier::external_type_specification]
#[verifier::external_body]
pub struct ExIoError(std::io::Error);

/// `std::io::Error`'s `Display` text, for reports. Nothing is claimed of it.
#[verifier::external_body]
pub(crate) fn io_error_text(error: &std::io::Error) -> String {
    format!("{}", error)
}

/// The brotli stream that `brotli::BrotliCompressCustomAlloc` writes for
/// `input` at `quality`, with default parameters otherwise, when it reads
/// through a buffer of `read_len` bytes and writes through one of
/// `write_len`. The crate is built with its `portable-float` feature, which
/// keeps the platform's math library out of the encoder, so that the stream
/// is the same on every target.
pub uninterp spec fn brotli_stream(input: Seq<u8>, quality: int, read_len: int, write_len: int) -> Seq<u8>;

/// Whether `brotli::BrotliCompressCustomAlloc` succeeds on `input` at
/// `quality`, reading from memory and writing to memory through buffers of
/// `read_len` and `write_len` bytes.
pub uninterp spec fn brotli_accepts(input: Seq<u8>, quality: int, read_len: int, write_len: int) -> bool;

/// `brotli::BrotliCompressCustomAlloc`, reading `input` and appending to
/// `output`, with `read_buf` and `write_buf` as its two scratch buffers,
/// which must not be empty. The buffers keep their length; `output` only
/// grows at its end, and on success by exactly the stream named above. It
/// succeeds exactly where the name above says so.
#[verifier::external_body]
pub(crate) fn brotli_encode(
    input: &[u8],
    output: &mut Vec<u8>,
    read_buf: &mut Vec<u8>,
    write_buf: &mut Vec<u8>,
    quality: i32,
) -> (done: Result<usize, std::io::Error>)
    requires
        old(read_buf)@.len() > 0,
        old(write_buf)@.len() > 0,
    ensures
        final(read_buf)@.len() == old(read_buf)@.len(),
        final(write_buf)@.len() == old(write_buf)@.len(),
        old(output)@.is_prefix_of(final(output)@),
        done is Ok <==> brotli_accepts(
            input@,
            quality as int,
            old(read_buf)@.len() as int,
            old(write_buf)@.len() as int,
        ),
        done is Ok ==> final(output)@ == old(output)@ + brotli_stream(
            input@,
            quality as int,
            old(read_buf)@.len() as int,
            old(write_buf)@.len() as int,
        ),
{
    let params = brotli::enc::BrotliEncoderParams { quality, ..Default::default() };
    let mut source = input;
    brotli::BrotliCompressCustomAlloc(
        &mut source,
        output,
        read_buf,
        write_buf,
        &params,
        brotli::enc::StandardAlloc::default(),
    )
}

/// A raw-deflate encoder of the flate2 crate that writes into memory.
#[verifier::external_body]
pub struct DeflateStream {
    inner: flate2::write::DeflateEncoder<Vec<u8>>,
}

/// The blocks handed to a raw-deflate encoder so far, in call order.
pub uninterp spec fn deflate_blocks(encoder: DeflateStream) -> Seq<Seq<u8>>;

/// The compression level a raw-deflate encoder was made with.
pub uninterp spec fn deflate_level(encoder: DeflateStream) -> int;

/// The raw-deflate stream that a flate2 encoder made at `level` returns
/// from `finish` after it was handed `blocks`, one per call.
pub uninterp spec fn deflate_stream(blocks: Seq<Seq<u8>>, level: int) -> Seq<u8>;

/// Whether a flate2 raw-deflate encoder made at `level` that was handed
/// `blocks`, one per call, takes `block` in one more `write_all`.
pub uninterp spec fn deflate_takes(blocks: Seq<Seq<u8>>, level: int, block: Seq<u8>) -> bool;

/// Whether `finish` succeeds on a flate2 raw-deflate encoder made at `level`
/// that was handed `blocks`, one per call.
pub uninterp spec fn deflate_closes(blocks: Seq<Seq<u8>>, level: int) -> bool;

/// `flate2::write::DeflateEncoder::new` over an empty sink in memory, at
/// `flate2::Compression::new(level)`: the encoder has been handed nothing
/// and holds the level. Levels above 9 are left out.
#[verifier::external_body]
pub(crate) fn deflate_new(level: u32) -> (encoder: DeflateStream)
    requires
        level <= 9,
    ensures
        deflate_blocks(encoder) == Seq::<Seq<u8>>::empty(),
        deflate_level(encoder) == level,
{
    DeflateStream {
        inner: flate2::write::DeflateEncoder::new(Vec::new(), flate2::Compression::new(level)),
    }
}

/// `std::io::Write::write_all` on a raw-deflate encoder: the level stays,
/// and on success the encoder has been handed `block` after all before it.
/// It succeeds exactly where `deflate_takes` says so.
#[verifier::external_body]
pub(crate) fn deflate_write_all(encoder: &mut DeflateStream, block: &[u8]) -> (done: Result<
    (),
    std::io::Error,
>)
    ensures
        deflate_level(*final(encoder)) == deflate_level(*old(encoder)),
        done is Ok <==> deflate_takes(
            deflate_blocks(*old(encoder)),
            deflate_level(*old(encoder)),
            block@,
        ),
        done is Ok ==> deflate_blocks(*final(encoder)) == deflate_blocks(*old(encoder)).push(
            block@,
        ),
{
    std::io::Write::write_all(&mut encoder.inner, block)
}

/// `flate2::write::DeflateEncoder::finish`: on success it returns the sink,
/// which holds the stream for the blocks handed over and the level. It
/// succeeds exactly where `deflate_closes` says so.
#[verifier::external_body]
pub(crate) fn deflate_finish(encoder: DeflateStream) -> (stream: Result<Vec<u8>, std::io::Error>)
    ensures
        stream is Ok <==> deflate_closes(deflate_blocks(encoder), deflate_level(encoder)),
        stream matches Ok(bytes) ==> bytes@ == deflate_stream(
            deflate_blocks(encoder),
            deflate_level(encoder),
        ),
{
    encoder.inner.finish()
}

/// A gzip encoder of the flate2 crate that writes into memory.
#[verifier::external_body]
pub struct GzipStream {
    inner: flate2::write::GzEncoder<Vec<u8>>,
}

/// The blocks handed to a gzip encoder so far, in call order.
pub uninterp spec fn gzip_blocks(encoder: GzipStream) -> Seq<Seq<u8>>;

/// The compression level a gzip encoder was made with.
pub uninterp spec fn gzip_level(encoder: GzipStream) -> int;

/// The gzip stream, header and trailer included, that a flate2 encoder made
/// at `level` returns from `finish` after it was handed `blocks`, one per call.
pub uninterp spec fn gzip_stream(blocks: Seq<Seq<u8>>, level: int) -> Seq<u8>;

/// Whether a flate2 gzip encoder made at `level` that was handed
/// `blocks`, one per call, takes `block` in one more `write_all`.
pub uninterp spec fn gzip_takes(blocks: Seq<Seq<u8>>, level: int, block: Seq<u8>) -> bool;

/// Whether `finish` succeeds on a flate2 gzip encoder made at `level`
/// that was handed `blocks`, one per call.
pub uninterp spec fn gzip_closes(blocks: Seq<Seq<u8>>, level: int) -> bool;

/// `flate2::write::GzEncoder::new` over an empty sink in memory, at
/// `flate2::Compression::new(level)`: the encoder has been handed nothing
/// and holds the level. Levels above 9 are left out.
#[verifier::external_body]
pub(crate) fn gzip_new(level: u32) -> (encoder: GzipStream)
    requires
        level <= 9,
    ensures
        gzip_blocks(encoder) == Seq::<Seq<u8>>::empty(),
        gzip_level(encoder) == level,
{
    GzipStream {
        inner: flate2::write::GzEncoder::new(Vec::new(), flate2::Compression::new(level)),
    }
}

/// `std::io::Write::write_all` on a gzip encoder: the level stays, and on
/// success the encoder has been handed `block` after all before it. It
/// succeeds exactly where `gzip_takes` says so.
#[verifier::external_body]
pub(crate) fn gzip_write_all(encoder: &mut GzipStream, block: &[u8]) -> (done: Result<
    (),
    std::io::Error,
>)
    ensures
        gzip_level(*final(encoder)) == gzip_level(*old(encoder)),
        done is Ok <==> gzip_takes(
            gzip_blocks(*old(encoder)),
            gzip_level(*old(encoder)),
            block@,
        ),
        done is Ok ==> gzip_blocks(*final(encoder)) == gzip_blocks(*old(encoder)).push(block@),
{
    std::io::Write::write_all(&mut encoder.inner, block)
}

/// `flate2::write::GzEncoder::finish`: on success it returns the sink,
/// which holds the stream for the blocks handed over and the level. It
/// succeeds exactly where `gzip_closes` says so.
#[verifier::external_body]
pub(crate) fn gzip_finish(encoder: GzipStream) -> (stream: Result<Vec<u8>, std::io::Error>)
    ensures
        stream is Ok <==> gzip_closes(gzip_blocks(encoder), gzip_level(encoder)),
        stream matches Ok(bytes) ==> bytes@ == gzip_stream(
            gzip_blocks(encoder),
            gzip_level(encoder),
        ),
{
    encoder.inner.finish()
}

/// A streaming encoder of the zstd crate that writes into memory.
#[verifier::external_body]
pub struct ZstdStream {
    inner: zstd::stream::write::Encoder<'static, Vec<u8>>,
}

/// The blocks handed to a zstd encoder so far, in call order.
pub uninterp spec fn zstd_blocks(encoder: ZstdStream) -> Seq<Seq<u8>>;

/// The compression level a zstd encoder was made with.
pub uninterp spec fn zstd_level(encoder: ZstdStream) -> int;

/// The window log set on a zstd encoder, if one was set.
pub uninterp spec fn zstd_window(encoder: ZstdStream) -> Option<int>;

/// The long-distance-matching switch set on a zstd encoder, if it was set.
pub uninterp spec fn zstd_long_distance(encoder: ZstdStream) -> Option<bool>;

/// The zstd frame that an encoder made at `level`, with the window log and
/// the long-distance switch set as given, returns from `finish` after it
/// was handed `blocks`, one per call.
pub uninterp spec fn zstd_stream(
    blocks: Seq<Seq<u8>>,
    level: int,
    window: Option<int>,
    long_distance: Option<bool>,
) -> Seq<u8>;

/// Whether `zstd::stream::write::Encoder::new` makes an encoder at `level`.
pub uninterp spec fn zstd_starts(level: int) -> bool;

/// Whether `window_log` with `log` succeeds on a zstd encoder made at
/// `level`, with its settings as given, that was handed `blocks`.
pub uninterp spec fn zstd_sets_window(
    blocks: Seq<Seq<u8>>,
    level: int,
    window: Option<int>,
    long_distance: Option<bool>,
    log: int,
) -> bool;

/// Whether `long_distance_matching` with `enable` succeeds on a zstd
/// encoder made at `level`, with its settings as given, that was handed `blocks`.
pub uninterp spec fn zstd_sets_long_distance(
    blocks: Seq<Seq<u8>>,
    level: int,
    window: Option<int>,
    long_distance: Option<bool>,
    enable: bool,
) -> bool;

/// Whether a zstd encoder made at `level`, with its settings as given, that
/// was handed `blocks`, one per call, takes `block` in one more `write_all`.
pub uninterp spec fn zstd_takes(
    blocks: Seq<Seq<u8>>,
    level: int,
    window: Option<int>,
    long_distance: Option<bool>,
    block: Seq<u8>,
) -> bool;

/// Whether `finish` succeeds on a zstd encoder made at `level`, with its
/// settings as given, that was handed `blocks`, one per call.
pub uninterp spec fn zstd_closes(
    blocks: Seq<Seq<u8>>,
    level: int,
    window: Option<int>,
    long_distance: Option<bool>,
) -> bool;

/// `zstd::stream::write::Encoder::new` over an empty sink in memory: on
/// success the encoder has been handed nothing, holds the level, and has
/// neither the window log nor the long-distance switch set. It succeeds
/// exactly where `zstd_starts` says so.
#[verifier::external_body]
pub(crate) fn zstd_new(level: i32) -> (made: Result<ZstdStream, std::io::Error>)
    ensures
        made is Ok <==> zstd_starts(level as int),
        made matches Ok(encoder) ==> {
            &&& zstd_blocks(encoder) == Seq::<Seq<u8>>::empty()
            &&& zstd_level(encoder) == level
            &&& zstd_window(encoder) is None
            &&& zstd_long_distance(encoder) is None
        },
{
    match zstd::stream::write::Encoder::new(Vec::new(), level) {
        Ok(inner) => Ok(ZstdStream { inner }),
        Err(error) => Err(error),
    }
}

/// `zstd::stream::write::Encoder::window_log`: on success the window log is
/// set to `log`; nothing else of the encoder changes. It succeeds exactly
/// where `zstd_sets_window` says so.
#[verifier::external_body]
pub(crate) fn zstd_window_log(encoder: &mut ZstdStream, log: u32) -> (done: Result<
    (),
    std::io::Error,
>)
    ensures
        zstd_blocks(*final(encoder)) == zstd_blocks(*old(encoder)),
        zstd_level(*final(encoder)) == zstd_level(*old(encoder)),
        zstd_long_distance(*final(encoder)) == zstd_long_distance(*old(encoder)),
        done is Ok <==> zstd_sets_window(
            zstd_blocks(*old(encoder)),
            zstd_level(*old(encoder)),
            zstd_window(*old(encoder)),
            zstd_long_distance(*old(encoder)),
            log as int,
        ),
        done is Ok ==> zstd_window(*final(encoder)) == Some(log as int),
{
    encoder.inner.window_log(log)
}

/// `zstd::stream::write::Encoder::long_distance_matching`: on success the
/// switch is set to `enable`; nothing else of the encoder changes. It
/// succeeds exactly where `zstd_sets_long_distance` says so.
#[verifier::external_body]
pub(crate) fn zstd_long_distance_matching(encoder: &mut ZstdStream, enable: bool) -> (done: Result<
    (),
    std::io::Error,
>)
    ensures
        zstd_blocks(*final(encoder)) == zstd_blocks(*old(encoder)),
        zstd_level(*final(encoder)) == zstd_level(*old(encoder)),
        zstd_window(*final(encoder)) == zstd_window(*old(encoder)),
        done is Ok <==> zstd_sets_long_distance(
            zstd_blocks(*old(encoder)),
            zstd_level(*old(encoder)),
            zstd_window(*old(encoder)),
            zstd_long_distance(*old(encoder)),
            enable,
        ),
        done is Ok ==> zstd_long_distance(*final(encoder)) == Some(enable),
{
    encoder.inner.long_distance_matching(enable)
}

/// `std::io::Write::write_all` on a zstd encoder: level and settings stay,
/// and on success the encoder has been handed `block` after all before it.
/// It succeeds exactly where `zstd_takes` says so.
#[verifier::external_body]
pub(crate) fn zstd_write_all(encoder: &mut ZstdStream, block: &[u8]) -> (done: Result<
    (),
    std::io::Error,
>)
    ensures
        zstd_level(*final(encoder)) == zstd_level(*old(encoder)),
        zstd_window(*final(encoder)) == zstd_window(*old(encoder)),
        zstd_long_distance(*final(encoder)) == zstd_long_distance(*old(encoder)),
        done is Ok <==> zstd_takes(
            zstd_blocks(*old(encoder)),
            zstd_level(*old(encoder)),
            zstd_window(*old(encoder)),
            zstd_long_distance(*old(encoder)),
            block@,
        ),
        done is Ok ==> zstd_blocks(*final(encoder)) == zstd_blocks(*old(encoder)).push(block@),
{
    std::io::Write::write_all(&mut encoder.inner, block)
}

/// `zstd::stream::write::Encoder::finish`: on success it returns the sink,
/// which holds the frame for the blocks handed over, the level and the
/// settings. It succeeds exactly where `zstd_closes` says so.
#[verifier::external_body]
pub(crate) fn zstd_finish(encoder: ZstdStream) -> (stream: Result<Vec<u8>, std::io::Error>)
    ensures
        stream is Ok <==> zstd_closes(
            zstd_blocks(encoder),
            zstd_level(encoder),
            zstd_window(encoder),
            zstd_long_distance(encoder),
        ),
        stream matches Ok(bytes) ==> bytes@ == zstd_stream(
            zstd_blocks(encoder),
            zstd_level(encoder),
            zstd_window(encoder),
            zstd_long_distance(encoder),
        ),
{
    encoder.inner.finish()
}

} // verus!
