//! The encoding context of a worker: two reusable blocks and the resolved
//! quality of each codec, with one compress operation per codec.

use vstd::prelude::*;
use vstd::slice::slice_subrange;
use crate::algorithm::Algorithm;
use crate::buffer::{copy_range, BufWriter};
use crate::codec::{
    brotli_accepts, brotli_encode, brotli_stream, deflate_blocks, deflate_closes, deflate_finish,
    deflate_level, deflate_new, deflate_stream, deflate_takes, deflate_write_all, gzip_blocks,
    gzip_closes, gzip_finish, gzip_level, gzip_new, gzip_stream, gzip_takes, gzip_write_all,
    io_error_text, zstd_blocks, zstd_closes, zstd_finish, zstd_level, zstd_long_distance,
    zstd_long_distance_matching, zstd_new, zstd_sets_long_distance, zstd_sets_window,
    zstd_starts, zstd_stream, zstd_takes, zstd_window, zstd_window_log, zstd_write_all,
};
use crate::quality::Quality;

verus! {

/// The window log pinned on every zstd stream: 8 MiB, which browsers accept.
pub const ZSTD_WINDOW_LOG: u32 = 23;

/// A failed compression: the codec and what the engine reported.
#[derive(Debug)]
pub struct CompressError {
    pub algorithm: Algorithm,
    pub message: String,
}

/// The blocks in which an input is read: each of `size` bytes but the last,
/// which holds what is left; an empty input has no block.
pub open spec fn blocks_of(input: Seq<u8>, size: int) -> Seq<Seq<u8>>
    decreases input.len(),
{
    if size <= 0 || input.len() == 0 {
        Seq::empty()
    } else {
        let n = if input.len() < size {
            input.len() as int
        } else {
            size
        };
        seq![input.take(n)] + blocks_of(input.skip(n), size)
    }
}

/// What the codec `algorithm` writes for `input` at `level` when the input
/// is read in blocks of `size` bytes. Zstd streams have their window pinned
/// and long-distance matching switched off.
pub open spec fn encoded(algorithm: Algorithm, input: Seq<u8>, level: int, size: int) -> Seq<u8> {
    match algorithm {
        Algorithm::Brotli => brotli_stream(input, level, size, size),
        Algorithm::Deflate => deflate_stream(blocks_of(input, size), level),
        Algorithm::Gzip => gzip_stream(blocks_of(input, size), level),
        Algorithm::Zstd => zstd_stream(
            blocks_of(input, size),
            level,
            Some(ZSTD_WINDOW_LOG as int),
            Some(false),
        ),
    }
}

/// Whether the raw-deflate engine at `level` takes every block of `blocks`
/// in turn and then finishes.
pub open spec fn deflate_succeeds(blocks: Seq<Seq<u8>>, level: int) -> bool {
    &&& forall|k: int|
        0 <= k < blocks.len() ==> #[trigger] deflate_takes(blocks.take(k), level, blocks[k])
    &&& deflate_closes(blocks, level)
}

/// Whether the gzip engine at `level` takes every block of `blocks` in turn
/// and then finishes.
pub open spec fn gzip_succeeds(blocks: Seq<Seq<u8>>, level: int) -> bool {
    &&& forall|k: int|
        0 <= k < blocks.len() ==> #[trigger] gzip_takes(blocks.take(k), level, blocks[k])
    &&& gzip_closes(blocks, level)
}

/// Whether the zstd engine is made at `level`, takes the pinned window and
/// the switching off of long-distance matching, then takes every block of
/// `blocks` in turn, and then finishes.
pub open spec fn zstd_succeeds(blocks: Seq<Seq<u8>>, level: int) -> bool {
    &&& zstd_starts(level)
    &&& zstd_sets_window(Seq::empty(), level, None, None, ZSTD_WINDOW_LOG as int)
    &&& zstd_sets_long_distance(
        Seq::empty(),
        level,
        Some(ZSTD_WINDOW_LOG as int),
        None,
        false,
    )
    &&& forall|k: int|
        0 <= k < blocks.len() ==> #[trigger] zstd_takes(
            blocks.take(k),
            level,
            Some(ZSTD_WINDOW_LOG as int),
            Some(false),
            blocks[k],
        )
    &&& zstd_closes(blocks, level, Some(ZSTD_WINDOW_LOG as int), Some(false))
}

/// Whether the codec `algorithm` compresses `input` at `level` when the
/// input is read in blocks of `size` bytes: whether every call into its
/// engine succeeds.
pub open spec fn accepted(algorithm: Algorithm, input: Seq<u8>, level: int, size: int) -> bool {
    match algorithm {
        Algorithm::Brotli => brotli_accepts(input, level, size, size),
        Algorithm::Deflate => deflate_succeeds(blocks_of(input, size), level),
        Algorithm::Gzip => gzip_succeeds(blocks_of(input, size), level),
        Algorithm::Zstd => zstd_succeeds(blocks_of(input, size), level),
    }
}

/// The blocks of an input are not empty, none is longer than the block
/// size, and put end to end they are the input.
pub proof fn lemma_blocks_partition(input: Seq<u8>, size: int)
    requires
        size > 0,
    ensures
        forall|i: int|
            0 <= i < blocks_of(input, size).len() ==> 0 < (#[trigger] blocks_of(
                input,
                size,
            )[i]).len() <= size,
        blocks_of(input, size).flatten() == input,
    decreases input.len(),
{
    if input.len() != 0 {
        let n = if input.len() < size {
            input.len() as int
        } else {
            size
        };
        lemma_blocks_partition(input.skip(n), size);
        assert(blocks_of(input, size).drop_first() =~= blocks_of(input.skip(n), size));
    }
}

/// Reads the next block of `input` from position `pos` into the front of
/// `buf` and returns its length, which is zero only at the end of the input.
pub fn read_block(input: &[u8], pos: usize, buf: &mut Vec<u8>) -> (n: usize)
    requires
        pos <= input@.len(),
        old(buf)@.len() > 0,
    ensures
        final(buf)@.len() == old(buf)@.len(),
        n <= old(buf)@.len(),
        pos + n <= input@.len(),
        n == if input@.len() - pos < old(buf)@.len() {
            input@.len() - pos
        } else {
            old(buf)@.len() as int
        },
        final(buf)@.take(n as int) == input@.subrange(pos as int, pos + n),
{
    let left = input.len() - pos;
    let n = if left < buf.len() {
        left
    } else {
        buf.len()
    };
    copy_range(buf, 0, input, pos, n);
    n
}

/// One read step in terms of blocks: the block read at `pos` is the first
/// block of what is left, and the blocks after it are those of the rest.
pub proof fn lemma_next_block(input: Seq<u8>, size: int, pos: int, n: int)
    requires
        size > 0,
        0 <= pos <= input.len(),
        n == if input.len() - pos < size {
            input.len() - pos
        } else {
            size
        },
    ensures
        n == 0 ==> blocks_of(input.skip(pos), size) == Seq::<Seq<u8>>::empty(),
        n > 0 ==> blocks_of(input.skip(pos), size) == seq![input.subrange(pos, pos + n)]
            + blocks_of(input.skip(pos + n), size),
{
    let rest = input.skip(pos);
    if n > 0 {
        assert(rest.take(n) =~= input.subrange(pos, pos + n));
        assert(rest.skip(n) =~= input.skip(pos + n));
    }
}

/// What a call into the engine of `algorithm` comes to: the value it
/// returned, or the failure of that codec with the engine's own message.
pub fn engine_result<T>(algorithm: Algorithm, result: Result<T, std::io::Error>) -> (out: Result<
    T,
    CompressError,
>)
    ensures
        match result {
            Ok(value) => out == Ok::<T, CompressError>(value),
            Err(_) => out is Err && out->Err_0.algorithm == algorithm,
        },
{
    match result {
        Ok(value) => Ok(value),
        Err(error) => Err(CompressError { algorithm, message: io_error_text(&error) }),
    }
}

/// The per-worker encoding context.
pub struct Context {
    read_buf: Vec<u8>,
    write_buf: Vec<u8>,
    brotli_quality: i32,
    deflate_quality: u32,
    gzip_quality: u32,
    zstd_quality: i32,
}

impl Context {
    /// The size of the read block, which in a context fit to compress with
    /// is the size of the write block too.
    pub closed spec fn block_size(&self) -> int {
        self.read_buf@.len() as int
    }

    /// The size of the write block.
    pub closed spec fn write_block_size(&self) -> int {
        self.write_buf@.len() as int
    }

    /// The quality at which the context runs `algorithm`.
    pub closed spec fn level(&self, algorithm: Algorithm) -> int {
        match algorithm {
            Algorithm::Brotli => self.brotli_quality as int,
            Algorithm::Deflate => self.deflate_quality as int,
            Algorithm::Gzip => self.gzip_quality as int,
            Algorithm::Zstd => self.zstd_quality as int,
        }
    }

    /// The blocks are of one size, which is not zero, and every quality lies
    /// in the domain of its codec.
    pub closed spec fn wf(&self) -> bool {
        &&& self.read_buf@.len() > 0
        &&& self.write_buf@.len() == self.read_buf@.len()
        &&& Algorithm::Brotli.accepts(self.brotli_quality as int)
        &&& Algorithm::Deflate.accepts(self.deflate_quality as int)
        &&& Algorithm::Gzip.accepts(self.gzip_quality as int)
        &&& Algorithm::Zstd.accepts(self.zstd_quality as int)
    }

    /// Whether `other` has the block sizes and the qualities of this context.
    pub open spec fn same_setup(&self, other: &Context) -> bool {
        &&& other.block_size() == self.block_size()
        &&& other.write_block_size() == self.write_block_size()
        &&& forall|a: Algorithm| other.level(a) == self.level(a)
    }

    /// Whether this context compresses `input` with codec `algorithm`.
    pub open spec fn succeeds(&self, algorithm: Algorithm, input: Seq<u8>) -> bool {
        accepted(algorithm, input, self.level(algorithm), self.block_size())
    }

    /// What this context writes for `input` with codec `algorithm`.
    pub open spec fn output_of(&self, algorithm: Algorithm, input: Seq<u8>) -> Seq<u8> {
        encoded(algorithm, input, self.level(algorithm), self.block_size())
    }

    /// Makes a context with two blocks of `buf_size` bytes and the qualities
    /// of `quality`. It is fit to compress with unless the blocks are empty.
    pub fn new(buf_size: usize, quality: Quality) -> (out: Context)
        requires
            quality.wf(),
        ensures
            out.wf() <==> buf_size > 0,
            out.block_size() == buf_size,
            out.write_block_size() == buf_size,
            forall|a: Algorithm| out.level(a) == quality.level(a),
    {
        Context {
            read_buf: vec![0u8; buf_size],
            write_buf: vec![0u8; buf_size],
            brotli_quality: quality.brotli as i32,
            deflate_quality: quality.deflate as u32,
            gzip_quality: quality.gzip as u32,
            zstd_quality: quality.zstd as i32,
        }
    }

    /// Returns the size of the read block.
    pub fn block_len(&self) -> (out: usize)
        ensures
            out == self.block_size(),
    {
        self.read_buf.len()
    }

    /// Returns the size of the write block.
    pub fn write_block_len(&self) -> (out: usize)
        ensures
            out == self.write_block_size(),
    {
        self.write_buf.len()
    }

    /// In a context fit to compress with, the two blocks are of one size.
    pub proof fn lemma_blocks_of_one_size(&self)
        requires
            self.wf(),
        ensures
            self.write_block_size() == self.block_size(),
            self.block_size() > 0,
    {
    }

    /// Appends `stream` to `output` through the write block.
    pub fn emit(&mut self, stream: &[u8], output: &mut Vec<u8>)
        requires
            old(self).wf(),
        ensures
            final(self).wf(),
            old(self).same_setup(final(self)),
            final(output)@ == old(output)@ + stream@,
    {
        let mut sink: Vec<u8> = Vec::new();
        core::mem::swap(output, &mut sink);
        let mut block: Vec<u8> = Vec::new();
        core::mem::swap(&mut self.write_buf, &mut block);
        let mut writer = BufWriter::new(sink, block);
        writer.write(stream);
        let (sink, block) = writer.finish();
        *output = sink;
        self.write_buf = block;
    }

    /// Compresses `input` as brotli and appends the stream to `output`, in
    /// one call that works through both blocks. It succeeds exactly where
    /// the engine accepts the input at the context's quality and block size.
    /// On failure `output` may hold the part of a stream that was written before.
    pub fn write_brotli(&mut self, input: &[u8], output: &mut Vec<u8>) -> (done: Result<
        (),
        CompressError,
    >)
        requires
            old(self).wf(),
        ensures
            final(self).wf(),
            old(self).same_setup(final(self)),
            old(output)@.is_prefix_of(final(output)@),
            done is Ok <==> old(self).succeeds(Algorithm::Brotli, input@),
            match done {
                Ok(()) => final(output)@ == old(output)@ + old(self).output_of(
                    Algorithm::Brotli,
                    input@,
                ),
                Err(error) => error.algorithm == Algorithm::Brotli,
            },
    {
        let done = brotli_encode(
            input,
            output,
            &mut self.read_buf,
            &mut self.write_buf,
            self.brotli_quality,
        );
        match engine_result(Algorithm::Brotli, done) {
            Err(error) => Err(error),
            Ok(_) => Ok(()),
        }
    }

    /// Compresses `input` as raw deflate and appends the stream to `output`.
    /// The input is read block by block into the read block and handed to
    /// the encoder; the finished stream goes out through the write block.
    /// It succeeds exactly where the engine takes every call made of it.
    /// On failure `output` is left as it was.
    pub fn write_deflate(&mut self, input: &[u8], output: &mut Vec<u8>) -> (done: Result<
        (),
        CompressError,
    >)
        requires
            old(self).wf(),
        ensures
            final(self).wf(),
            old(self).same_setup(final(self)),
            done is Ok <==> old(self).succeeds(Algorithm::Deflate, input@),
            match done {
                Ok(()) => final(output)@ == old(output)@ + old(self).output_of(
                    Algorithm::Deflate,
                    input@,
                ),
                Err(error) => final(output)@ == old(output)@ && error.algorithm
                    == Algorithm::Deflate,
            },
    {
        let mut encoder = deflate_new(self.deflate_quality);
        let total = input.len();
        let mut pos: usize = 0;
        let ghost size = self.block_size();
        let ghost level = self.level(Algorithm::Deflate);
        let ghost all = blocks_of(input@, size);
        assert(input@.skip(0) =~= input@);
        loop
            invariant
                self.wf(),
                old(self).same_setup(self),
                size == self.block_size(),
                level == self.level(Algorithm::Deflate),
                all == blocks_of(input@, size),
                output@ == old(output)@,
                total == input@.len(),
                pos <= total,
                deflate_level(encoder) == level,
                deflate_blocks(encoder) + blocks_of(input@.skip(pos as int), size) == all,
                forall|k: int|
                    0 <= k < deflate_blocks(encoder).len() ==> #[trigger] deflate_takes(
                        all.take(k),
                        level,
                        all[k],
                    ),
            ensures
                self.wf(),
                old(self).same_setup(self),
                output@ == old(output)@,
                deflate_level(encoder) == level,
                deflate_blocks(encoder) == all,
                forall|k: int|
                    0 <= k < all.len() ==> #[trigger] deflate_takes(
                        all.take(k),
                        level,
                        all[k],
                    ),
            decreases total - pos,
        {
            let n = read_block(input, pos, &mut self.read_buf);
            proof {
                lemma_next_block(input@, size, pos as int, n as int);
            }
            if n == 0 {
                break ;
            }
            let block = slice_subrange(self.read_buf.as_slice(), 0, n);
            proof {
                let fed = deflate_blocks(encoder);
                assert(all.take(fed.len() as int) =~= fed);
                assert(all[fed.len() as int] == block@);
            }
            if let Err(error) = engine_result(
                Algorithm::Deflate,
                deflate_write_all(&mut encoder, block),
            ) {
                return Err(error);
            }
            pos = pos + n;
        }
        match engine_result(Algorithm::Deflate, deflate_finish(encoder)) {
            Err(error) => Err(error),
            Ok(stream) => {
                self.emit(stream.as_slice(), output);
                Ok(())
            },
        }
    }

    /// Compresses `input` as gzip and appends the stream to `output`.
    /// The input is read block by block into the read block and handed to
    /// the encoder; the finished stream goes out through the write block.
    /// It succeeds exactly where the engine takes every call made of it.
    /// On failure `output` is left as it was.
    pub fn write_gzip(&mut self, input: &[u8], output: &mut Vec<u8>) -> (done: Result<
        (),
        CompressError,
    >)
        requires
            old(self).wf(),
        ensures
            final(self).wf(),
            old(self).same_setup(final(self)),
            done is Ok <==> old(self).succeeds(Algorithm::Gzip, input@),
            match done {
                Ok(()) => final(output)@ == old(output)@ + old(self).output_of(
                    Algorithm::Gzip,
                    input@,
                ),
                Err(error) => final(output)@ == old(output)@ && error.algorithm
                    == Algorithm::Gzip,
            },
    {
        let mut encoder = gzip_new(self.gzip_quality);
        let total = input.len();
        let mut pos: usize = 0;
        let ghost size = self.block_size();
        let ghost level = self.level(Algorithm::Gzip);
        let ghost all = blocks_of(input@, size);
        assert(input@.skip(0) =~= input@);
        loop
            invariant
                self.wf(),
                old(self).same_setup(self),
                size == self.block_size(),
                level == self.level(Algorithm::Gzip),
                all == blocks_of(input@, size),
                output@ == old(output)@,
                total == input@.len(),
                pos <= total,
                gzip_level(encoder) == level,
                gzip_blocks(encoder) + blocks_of(input@.skip(pos as int), size) == all,
                forall|k: int|
                    0 <= k < gzip_blocks(encoder).len() ==> #[trigger] gzip_takes(
                        all.take(k),
                        level,
                        all[k],
                    ),
            ensures
                self.wf(),
                old(self).same_setup(self),
                output@ == old(output)@,
                gzip_level(encoder) == level,
                gzip_blocks(encoder) == all,
                forall|k: int|
                    0 <= k < all.len() ==> #[trigger] gzip_takes(
                        all.take(k),
                        level,
                        all[k],
                    ),
            decreases total - pos,
        {
            let n = read_block(input, pos, &mut self.read_buf);
            proof {
                lemma_next_block(input@, size, pos as int, n as int);
            }
            if n == 0 {
                break ;
            }
            let block = slice_subrange(self.read_buf.as_slice(), 0, n);
            proof {
                let fed = gzip_blocks(encoder);
                assert(all.take(fed.len() as int) =~= fed);
                assert(all[fed.len() as int] == block@);
            }
            if let Err(error) = engine_result(
                Algorithm::Gzip,
                gzip_write_all(&mut encoder, block),
            ) {
                return Err(error);
            }
            pos = pos + n;
        }
        match engine_result(Algorithm::Gzip, gzip_finish(encoder)) {
            Err(error) => Err(error),
            Ok(stream) => {
                self.emit(stream.as_slice(), output);
                Ok(())
            },
        }
    }

    /// Compresses `input` as zstd and appends the frame to `output`. The
    /// window is pinned to `ZSTD_WINDOW_LOG` and long-distance matching is
    /// switched off before any input is handed over. The input is read block
    /// by block into the read block and handed to the encoder; the finished
    /// frame goes out through the write block. It succeeds exactly where the
    /// engine takes every call made of it. On failure `output` is left as
    /// it was.
    pub fn write_zstd(&mut self, input: &[u8], output: &mut Vec<u8>) -> (done: Result<
        (),
        CompressError,
    >)
        requires
            old(self).wf(),
        ensures
            final(self).wf(),
            old(self).same_setup(final(self)),
            done is Ok <==> old(self).succeeds(Algorithm::Zstd, input@),
            match done {
                Ok(()) => final(output)@ == old(output)@ + old(self).output_of(
                    Algorithm::Zstd,
                    input@,
                ),
                Err(error) => final(output)@ == old(output)@ && error.algorithm
                    == Algorithm::Zstd,
            },
    {
        let mut encoder = match engine_result(Algorithm::Zstd, zstd_new(self.zstd_quality)) {
            Err(error) => {
                return Err(error);
            },
            Ok(encoder) => encoder,
        };
        if let Err(error) = engine_result(
            Algorithm::Zstd,
            zstd_window_log(&mut encoder, ZSTD_WINDOW_LOG),
        ) {
            return Err(error);
        }
        if let Err(error) = engine_result(
            Algorithm::Zstd,
            zstd_long_distance_matching(&mut encoder, false),
        ) {
            return Err(error);
        }
        let total = input.len();
        let mut pos: usize = 0;
        let ghost size = self.block_size();
        let ghost level = self.level(Algorithm::Zstd);
        let ghost all = blocks_of(input@, size);
        assert(input@.skip(0) =~= input@);
        loop
            invariant
                self.wf(),
                old(self).same_setup(self),
                size == self.block_size(),
                level == self.level(Algorithm::Zstd),
                all == blocks_of(input@, size),
                output@ == old(output)@,
                total == input@.len(),
                pos <= total,
                zstd_level(encoder) == level,
                zstd_starts(level),
                zstd_sets_window(Seq::empty(), level, None, None, ZSTD_WINDOW_LOG as int),
                zstd_sets_long_distance(
                    Seq::empty(),
                    level,
                    Some(ZSTD_WINDOW_LOG as int),
                    None,
                    false,
                ),
                zstd_window(encoder) == Some(ZSTD_WINDOW_LOG as int),
                zstd_long_distance(encoder) == Some(false),
                zstd_blocks(encoder) + blocks_of(input@.skip(pos as int), size) == all,
                forall|k: int|
                    0 <= k < zstd_blocks(encoder).len() ==> #[trigger] zstd_takes(
                        all.take(k),
                        level,
                        Some(ZSTD_WINDOW_LOG as int),
                        Some(false),
                        all[k],
                    ),
            ensures
                self.wf(),
                old(self).same_setup(self),
                output@ == old(output)@,
                zstd_level(encoder) == level,
                zstd_starts(level),
                zstd_sets_window(Seq::empty(), level, None, None, ZSTD_WINDOW_LOG as int),
                zstd_sets_long_distance(
                    Seq::empty(),
                    level,
                    Some(ZSTD_WINDOW_LOG as int),
                    None,
                    false,
                ),
                zstd_window(encoder) == Some(ZSTD_WINDOW_LOG as int),
                zstd_long_distance(encoder) == Some(false),
                zstd_blocks(encoder) == all,
                forall|k: int|
                    0 <= k < all.len() ==> #[trigger] zstd_takes(
                        all.take(k),
                        level,
                        Some(ZSTD_WINDOW_LOG as int),
                        Some(false),
                        all[k],
                    ),
            decreases total - pos,
        {
            let n = read_block(input, pos, &mut self.read_buf);
            proof {
                lemma_next_block(input@, size, pos as int, n as int);
            }
            if n == 0 {
                break ;
            }
            let block = slice_subrange(self.read_buf.as_slice(), 0, n);
            proof {
                let fed = zstd_blocks(encoder);
                assert(all.take(fed.len() as int) =~= fed);
                assert(all[fed.len() as int] == block@);
            }
            if let Err(error) = engine_result(
                Algorithm::Zstd,
                zstd_write_all(&mut encoder, block),
            ) {
                return Err(error);
            }
            pos = pos + n;
        }
        match engine_result(Algorithm::Zstd, zstd_finish(encoder)) {
            Err(error) => Err(error),
            Ok(stream) => {
                self.emit(stream.as_slice(), output);
                Ok(())
            },
        }
    }

    /// Compresses `input` with codec `algorithm` and appends the result to
    /// `output`. It succeeds exactly where the codec's engine takes every
    /// call made of it for this input at the context's quality and block
    /// size. On success `output` has grown by exactly what the codec writes.
    /// On failure the error names the codec, and `output` holds what it
    /// held, followed for brotli by whatever part of a stream was written.
    pub fn compress(&mut self, algorithm: Algorithm, input: &[u8], output: &mut Vec<u8>) -> (done:
        Result<(), CompressError>)
        requires
            old(self).wf(),
        ensures
            final(self).wf(),
            old(self).same_setup(final(self)),
            old(output)@.is_prefix_of(final(output)@),
            done is Ok <==> old(self).succeeds(algorithm, input@),
            match done {
                Ok(()) => final(output)@ == old(output)@ + old(self).output_of(algorithm, input@),
                Err(error) => error.algorithm == algorithm && (algorithm != Algorithm::Brotli
                    ==> final(output)@ == old(output)@),
            },
    {
        match algorithm {
            Algorithm::Brotli => self.write_brotli(input, output),
            Algorithm::Deflate => self.write_deflate(input, output),
            Algorithm::Gzip => self.write_gzip(input, output),
            Algorithm::Zstd => self.write_zstd(input, output),
        }
    }
}

} // verus!
