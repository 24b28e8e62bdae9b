//! Splitting large compressed sources into chunks of whole lines.

use vstd::prelude::*;
use vstd::string::*;
use crate::files::sorted_paths;
use crate::files;
use crate::order;
use crate::paths::{file_stem, join_path, parent};
use crate::paths;
use crate::plan::FilePair;
use crate::plan;
use crate::text::push_zero_padded;
use crate::text;

verus! {

/// What `flate2` and `BufRead::lines` make of a compressed file: its lines, or
/// the message of the first error on the way.
pub uninterp spec fn gz_lines_of(data: Seq<u8>) -> Result<Seq<Seq<char>>, Seq<char>>;

/// How many bytes `flate2` reads out of a compressed file, or the message of the
/// error that ends it.
pub uninterp spec fn inflated_size(data: Seq<u8>) -> Result<u64, Seq<char>>;

pub open spec fn lines_view(r: Result<Vec<String>, String>) -> Result<Seq<Seq<char>>, Seq<char>> {
    match r {
        Ok(v) => Ok(text::texts(v@)),
        Err(e) => Err(e@),
    }
}

pub open spec fn size_view(r: Result<u64, String>) -> Result<u64, Seq<char>> {
    match r {
        Ok(n) => Ok(n),
        Err(e) => Err(e@),
    }
}

/// `flate2::read::GzDecoder` on the bytes of a file, read line by line: the lines
/// without their ends, or the first error. What comes out depends on the bytes
/// alone.
#[verifier::external_body]
fn gz_lines(data: &[u8]) -> (r: Result<Vec<String>, String>)
    ensures
        lines_view(r) == gz_lines_of(data@),
{
    let decoder = flate2::read::GzDecoder::new(data);
    std::io::BufRead::lines(std::io::BufReader::new(decoder))
        .collect::<Result<Vec<String>, std::io::Error>>()
        .map_err(|e| e.to_string())
}

/// `flate2::read::GzDecoder` on the bytes of a file, read to its end: how many
/// bytes come out, or the error. It depends on the bytes alone.
#[verifier::external_body]
fn inflate_size(data: &[u8]) -> (r: Result<u64, String>)
    ensures
        size_view(r) == inflated_size(data@),
{
    let mut decoder = flate2::read::GzDecoder::new(data);
    std::io::copy(&mut decoder, &mut std::io::sink()).map_err(|e| e.to_string())
}

/// Whether a compressed file holds the text: the lines of the text, and as many bytes, are
/// read out of it.
pub open spec fn holds_text(data: Seq<u8>, s: Seq<char>) -> bool {
    &&& gz_lines_of(data) == Ok::<Seq<Seq<char>>, Seq<char>>(text::lines(s))
    &&& inflated_size(data) == Ok::<u64, Seq<char>>(vstd::utf8::encode_utf8(s).len() as u64)
}

/// `flate2::write::GzEncoder` on the bytes of a text, with the crate's default level. What
/// comes out is one gzip member from which `flate2` reads that text: as many bytes, and the
/// lines of the text. Writing to a `Vec` gives no error. How well the text is compressed is
/// not stated: it is up to the compressor that `flate2` was built with.
#[verifier::external_body]
fn gz_bytes(s: &str) -> (r: Vec<u8>)
    ensures
        holds_text(r@, s@),
{
    let mut encoder = flate2::write::GzEncoder::new(Vec::new(), flate2::Compression::default());
    std::io::Write::write_all(&mut encoder, s.as_bytes())
        .and_then(|_| encoder.finish())
        .expect("a vector takes what is written to it")
}

/// Whether a compressed file can be read to its end.
pub fn gzip_integrity_ok(data: &[u8]) -> (r: Result<(), String>)
    ensures
        match (r, inflated_size(data@)) {
            (Ok(_), Ok(_)) => true,
            (Err(e), Err(m)) => e@ == m,
            _ => false,
        },
{
    match inflate_size(data) {
        Ok(_) => Ok(()),
        Err(e) => Err(e),
    }
}

/// How many bytes a line takes in a file, with its end.
pub open spec fn line_bytes(line: Seq<char>) -> int {
    vstd::utf8::encode_utf8(line).len() as int + 1
}

/// How many bytes the lines take in a file.
pub open spec fn chunk_bytes(lines: Seq<Seq<char>>) -> int
    decreases lines.len(),
{
    if lines.len() == 0 {
        0
    } else {
        chunk_bytes(lines.drop_last()) + line_bytes(lines.last())
    }
}

/// The lines, each with its end.
pub open spec fn chunk_text(lines: Seq<Seq<char>>) -> Seq<char>
    decreases lines.len(),
{
    if lines.len() == 0 {
        Seq::empty()
    } else {
        chunk_text(lines.drop_last()) + lines.last() + "\n"@
    }
}

/// The chunks with one line more: it goes into the last chunk, or into a new one
/// where that is full. An empty line is left out.
pub open spec fn with_line(
    chunks: Seq<Seq<Seq<char>>>,
    line: Seq<char>,
    target: int,
) -> Seq<Seq<Seq<char>>> {
    let full = chunk_bytes(chunks.last()) >= target && chunk_bytes(chunks.last()) > 0;
    if line.len() == 0 {
        chunks
    } else if full {
        chunks.push(seq![line])
    } else {
        chunks.drop_last().push(chunks.last().push(line))
    }
}

/// The lines of a file in chunks, of which each is begun when the one before it
/// holds `target` bytes.
pub open spec fn chunks_of(lines: Seq<Seq<char>>, target: int) -> Seq<Seq<Seq<char>>>
    decreases lines.len(),
{
    if lines.len() == 0 {
        seq![Seq::empty()]
    } else {
        with_line(chunks_of(lines.drop_last(), target), lines.last(), target)
    }
}

/// A chunk of a source, ready to be written.
#[derive(Debug)]
pub struct ChunkFile {
    pub path: String,
    /// The chunk, compressed.
    pub bytes: Vec<u8>,
}

/// Whether `f` is chunk number `n` of a source, a gzip file that holds the lines.
pub open spec fn is_chunk_file(
    f: ChunkFile,
    chunk_dir: Seq<char>,
    stem: Seq<char>,
    n: int,
    lines: Seq<Seq<char>>,
) -> bool {
    &&& f.path@ == chunk_file_of(chunk_dir, stem, n)
    &&& holds_text(f.bytes@, chunk_text(lines))
}

/// Whether `files` are the chunks of a source, in their order and counted from one.
pub open spec fn are_chunk_files(
    files: Seq<ChunkFile>,
    chunk_dir: Seq<char>,
    stem: Seq<char>,
    chunks: Seq<Seq<Seq<char>>>,
) -> bool {
    &&& files.len() == chunks.len()
    &&& forall|i: int|
        0 <= i < files.len() ==> is_chunk_file(
            #[trigger] files[i],
            chunk_dir,
            stem,
            i + 1,
            chunks[i],
        )
}

/// Takes the lines of a source one after another, and gives out its chunks.
pub struct Chunker {
    pub chunk_dir: String,
    pub stem: String,
    pub target: usize,
    /// The number of the chunk that is being filled, counted from one.
    pub number: usize,
    /// What it holds.
    pub text: String,
    /// How many bytes it holds, as far as a `usize` can tell.
    pub bytes: usize,
    /// The lines that were taken.
    pub seen: Ghost<Seq<Seq<char>>>,
}

impl Chunker {
    /// The lines in chunks; the last one is being filled.
    pub open spec fn chunks(self) -> Seq<Seq<Seq<char>>> {
        chunks_of(self.seen@, self.target as int)
    }

    pub open spec fn wf(self) -> bool {
        &&& self.chunks().len() > 0
        &&& self.number == self.chunks().len()
        &&& self.text@ == chunk_text(self.chunks().last())
        &&& self.bytes == plan::min_int(chunk_bytes(self.chunks().last()), usize::MAX as int)
    }

    /// Before the first line.
    pub fn start(chunk_dir: &str, stem: &str, target: usize) -> (r: Self)
        ensures
            r.wf(),
            r.chunk_dir@ == chunk_dir@,
            r.stem@ == stem@,
            r.target == target,
            r.seen@ == Seq::<Seq<char>>::empty(),
    {
        Chunker {
            chunk_dir: chunk_dir.to_owned(),
            stem: stem.to_owned(),
            target,
            number: 1,
            text: String::new(),
            bytes: 0,
            seen: Ghost(Seq::empty()),
        }
    }

    fn current(&self) -> (r: ChunkFile)
        requires
            self.wf(),
        ensures
            is_chunk_file(
                r,
                self.chunk_dir@,
                self.stem@,
                self.number as int,
                self.chunks().last(),
            ),
    {
        ChunkFile {
            path: chunk_file(self.chunk_dir.as_str(), self.stem.as_str(), self.number),
            bytes: gz_bytes(self.text.as_str()),
        }
    }

    /// Takes the next line. Gives out the chunk that was being filled where the line begins
    /// a new one.
    pub fn take(&mut self, line: &str) -> (r: Option<ChunkFile>)
        requires
            old(self).wf(),
            old(self).number < usize::MAX,
        ensures
            final(self).wf(),
            *final(self) == (Chunker {
                number: final(self).number,
                text: final(self).text,
                bytes: final(self).bytes,
                seen: final(self).seen,
                ..*old(self)
            }),
            final(self).seen@ == old(self).seen@.push(line@),
            match r {
                Some(f) => final(self).number == old(self).number + 1 && is_chunk_file(
                    f,
                    old(self).chunk_dir@,
                    old(self).stem@,
                    old(self).number as int,
                    old(self).chunks().last(),
                ),
                None => final(self).number == old(self).number,
            },
    {
        let ghost before = self.chunks();
        let ghost after = with_line(before, line@, self.target as int);
        proof {
            assert(self.seen@.push(line@).drop_last() =~= self.seen@);
            lemma_chunk_bytes_positive(before.last());
        }
        let mut out: Option<ChunkFile> = None;
        if !line.is_empty() {
            if self.bytes >= self.target && self.bytes > 0 {
                out = Some(self.current());
                self.number = self.number + 1;
                self.text = String::new();
                self.bytes = 0;
                proof {
                    assert(seq![line@].drop_last() =~= Seq::<Seq<char>>::empty());
                    reveal_with_fuel(chunk_bytes, 2);
                    reveal_with_fuel(chunk_text, 2);
                    assert(chunk_text(after.last()) =~= line@ + "\n"@);
                }
            } else {
                assert(after.last().drop_last() =~= before.last());
            }
            let size: usize = line.as_bytes().len();
            self.text.append(line);
            self.text.append("\n");
            self.bytes = self.bytes.saturating_add(size).saturating_add(1);
            assert(self.text@ =~= chunk_text(after.last()));
        }
        proof {
            self.seen@ = self.seen@.push(line@);
        }
        out
    }

    /// The last chunk, when no line is left.
    pub fn finish(self) -> (r: ChunkFile)
        requires
            self.wf(),
        ensures
            is_chunk_file(
                r,
                self.chunk_dir@,
                self.stem@,
                self.number as int,
                self.chunks().last(),
            ),
    {
        self.current()
    }
}

/// The chunk files of a file with these lines.
pub fn chunk_lines(lines: &Vec<String>, chunk_dir: &str, stem: &str, target: usize) -> (r: Vec<
    ChunkFile,
>)
    ensures
        are_chunk_files(
            r@,
            chunk_dir@,
            stem@,
            chunks_of(text::texts(lines@), target as int),
        ),
{
    let ghost all = text::texts(lines@);
    let mut done: Vec<ChunkFile> = Vec::new();
    let mut chunker = Chunker::start(chunk_dir, stem, target);
    let mut i: usize = 0;
    assert(all.take(0) =~= Seq::<Seq<char>>::empty());
    while i < lines.len()
        invariant
            i <= lines@.len(),
            all == text::texts(lines@),
            chunker.wf(),
            chunker.chunk_dir@ == chunk_dir@,
            chunker.stem@ == stem@,
            chunker.target == target,
            chunker.seen@ == all.take(i as int),
            chunker.number <= i || chunker.number == 1,
            are_chunk_files(done@, chunk_dir@, stem@, chunker.chunks().drop_last()),
        decreases lines@.len() - i,
    {
        let ghost before = chunker.chunks();
        let ghost files = done@;
        assert(all.take(i + 1) =~= all.take(i as int).push(lines@[i as int]@));
        assert(all.take(i as int).push(lines@[i as int]@).drop_last() =~= all.take(i as int));
        if let Some(f) = chunker.take(lines[i].as_str()) {
            done.push(f);
            assert(chunker.chunks().drop_last() =~= before);
        } else {
            assert(chunker.chunks().drop_last() =~= before.drop_last());
        }
        i += 1;
    }
    assert(all.take(i as int) =~= all);
    let ghost c = chunker.chunks();
    let last = chunker.finish();
    done.push(last);
    assert(c.drop_last().push(c.last()) =~= c);
    done
}

/// The message for a source that cannot be read to its end.
pub open spec fn read_error_of(input: Seq<char>, why: Seq<char>) -> Seq<char> {
    "read error in "@ + input + ": "@ + why
}

/// The message for a source that cannot be read to its end.
pub fn read_error(input: &str, why: &str) -> (r: String)
    ensures
        r@ == read_error_of(input@, why@),
{
    let mut m = "read error in ".to_owned();
    m.append(input);
    m.append(": ");
    m.append(why);
    m
}

/// Splits a compressed source into its chunk files; `input` is its path.
pub fn split_gz_lines(
    input: &str,
    data: &[u8],
    chunk_dir: &str,
    stem: &str,
    target_uncompressed_bytes: usize,
) -> (r: Result<Vec<ChunkFile>, String>)
    ensures
        match (r, gz_lines_of(data@)) {
            (Ok(v), Ok(lines)) => are_chunk_files(
                v@,
                chunk_dir@,
                stem@,
                chunks_of(lines, target_uncompressed_bytes as int),
            ),
            (Err(e), Err(m)) => e@ == read_error_of(input@, m),
            _ => false,
        },
{
    match gz_lines(data) {
        Ok(lines) => Ok(chunk_lines(&lines, chunk_dir, stem, target_uncompressed_bytes)),
        Err(e) => Err(read_error(input, e.as_str())),
    }
}

/// All lines of the chunks, one chunk behind the other.
pub open spec fn all_lines(chunks: Seq<Seq<Seq<char>>>) -> Seq<Seq<char>>
    decreases chunks.len(),
{
    if chunks.len() == 0 {
        Seq::empty()
    } else {
        all_lines(chunks.drop_last()) + chunks.last()
    }
}

/// Splitting loses nothing: the chunks hold, one behind the other, every line
/// that is not empty, in its order.
pub proof fn law_split_keeps_lines(lines: Seq<Seq<char>>, target: int)
    ensures
        chunks_of(lines, target).len() > 0,
        all_lines(chunks_of(lines, target)) == lines.filter(|l: Seq<char>| l.len() > 0),
    decreases lines.len(),
{
    reveal(Seq::filter);
    if lines.len() == 0 {
        reveal_with_fuel(all_lines, 2);
        assert(chunks_of(lines, target).drop_last() =~= Seq::<Seq<Seq<char>>>::empty());
        assert(all_lines(chunks_of(lines, target)) =~= Seq::<Seq<char>>::empty());
    } else {
        law_split_keeps_lines(lines.drop_last(), target);
        let c = chunks_of(lines.drop_last(), target);
        let l = lines.last();
        let r = with_line(c, l, target);
        if l.len() > 0 {
            if chunk_bytes(c.last()) >= target && chunk_bytes(c.last()) > 0 {
                assert(r.drop_last() =~= c);
                assert(all_lines(r) =~= all_lines(c).push(l));
            } else {
                assert(r.drop_last() =~= c.drop_last());
                assert(all_lines(r) =~= all_lines(c).push(l));
            }
        }
    }
}

/// Every chunk but the last holds at least `target` bytes, and none holds so many
/// without its last line.
pub proof fn law_chunks_are_full(lines: Seq<Seq<char>>, target: int, i: int)
    requires
        0 <= i < chunks_of(lines, target).len(),
    ensures
        i < chunks_of(lines, target).len() - 1 ==> chunk_bytes(chunks_of(lines, target)[i]) >= target
            && chunk_bytes(chunks_of(lines, target)[i]) > 0,
        chunks_of(lines, target)[i].len() > 1 ==> chunk_bytes(
            chunks_of(lines, target)[i].drop_last(),
        ) < target,
    decreases lines.len(),
{
    if lines.len() > 0 {
        law_split_keeps_lines(lines.drop_last(), target);
        let c = chunks_of(lines.drop_last(), target);
        let l = lines.last();
        let r = with_line(c, l, target);
        if i < c.len() {
            law_chunks_are_full(lines.drop_last(), target, i);
        }
        if l.len() > 0 {
            if chunk_bytes(c.last()) >= target && chunk_bytes(c.last()) > 0 {
            } else if i == c.len() - 1 {
                assert(r[i].drop_last() =~= c.last());
                if c.last().len() > 0 {
                    lemma_chunk_bytes_positive(c.last());
                }
            }
        }
    }
}

proof fn lemma_chunk_bytes_positive(lines: Seq<Seq<char>>)
    ensures
        chunk_bytes(lines) >= lines.len(),
    decreases lines.len(),
{
    if lines.len() > 0 {
        lemma_chunk_bytes_positive(lines.drop_last());
    }
}

/// Whether a line comes out as it went in when a file is written and read again: it holds no
/// end of a line, and does not seem to end with half of one.
pub open spec fn is_whole_line(line: Seq<char>) -> bool {
    &&& !line.contains('\n')
    &&& line.len() > 0 ==> line.last() != '\r'
}

proof fn lemma_split_after(s: Seq<char>, line: Seq<char>)
    requires
        !line.contains('\n'),
    ensures
        text::split(s, '\n').len() > 0,
        text::split(s + line, '\n') == text::split(s, '\n').drop_last().push(
            text::split(s, '\n').last() + line,
        ),
    decreases line.len(),
{
    let p = text::split(s, '\n');
    text::lemma_split_nonempty(s, '\n');
    if line.len() == 0 {
        assert(s + line =~= s);
        assert(p.last() + line =~= p.last());
        assert(p.drop_last().push(p.last()) =~= p);
    } else {
        let front = line.drop_last();
        assert forall|i: int| 0 <= i < front.len() implies front[i] != '\n' by {
            assert(line.contains(line[i]));
        }
        lemma_split_after(s, front);
        assert(line.contains(line.last()));
        assert((s + line).drop_last() =~= s + front);
        assert((p.last() + front).push(line.last()) =~= p.last() + line);
        let q = text::split(s + front, '\n');
        assert(q.update(q.len() - 1, q.last().push(line.last())) =~= p.drop_last().push(
            p.last() + line,
        ));
    }
}

proof fn lemma_chunk_text_split(lines: Seq<Seq<char>>)
    requires
        forall|i: int| 0 <= i < lines.len() ==> is_whole_line(#[trigger] lines[i]),
    ensures
        text::split(chunk_text(lines), '\n') == lines.push(Seq::empty()),
    decreases lines.len(),
{
    reveal_strlit("\n");
    if lines.len() == 0 {
        assert(text::split(chunk_text(lines), '\n') =~= lines.push(Seq::empty()));
    } else {
        let front = lines.drop_last();
        assert forall|i: int| 0 <= i < front.len() implies is_whole_line(#[trigger] front[i]) by {
            assert(front[i] == lines[i]);
        }
        lemma_chunk_text_split(front);
        let head = chunk_text(front) + lines.last();
        lemma_split_after(chunk_text(front), lines.last());
        assert(front.push(Seq::empty()).drop_last() =~= front);
        assert(Seq::<char>::empty() + lines.last() =~= lines.last());
        assert(front.push(lines.last()) =~= lines);
        assert(chunk_text(lines).drop_last() =~= head);
    }
}

/// The lines of a chunk are read out of its file as they were written.
pub proof fn law_chunk_file_gives_back_its_lines(
    f: ChunkFile,
    chunk_dir: Seq<char>,
    stem: Seq<char>,
    n: int,
    lines: Seq<Seq<char>>,
)
    requires
        forall|i: int| 0 <= i < lines.len() ==> is_whole_line(#[trigger] lines[i]),
    ensures
        text::lines(chunk_text(lines)) == lines,
        is_chunk_file(f, chunk_dir, stem, n, lines) ==> gz_lines_of(f.bytes@) == Ok::<
            Seq<Seq<char>>,
            Seq<char>,
        >(lines),
{
    lemma_chunk_text_split(lines);
    assert(text::lines(chunk_text(lines)) =~= lines);
}

proof fn lemma_chunks_hold_whole_lines(lines: Seq<Seq<char>>, target: int, c: int)
    requires
        forall|i: int| 0 <= i < lines.len() ==> is_whole_line(#[trigger] lines[i]),
        0 <= c < chunks_of(lines, target).len(),
    ensures
        forall|i: int|
            0 <= i < chunks_of(lines, target)[c].len() ==> is_whole_line(
                #[trigger] chunks_of(lines, target)[c][i],
            ),
    decreases lines.len(),
{
    if lines.len() > 0 {
        let front = lines.drop_last();
        law_split_keeps_lines(front, target);
        assert forall|i: int| 0 <= i < front.len() implies is_whole_line(#[trigger] front[i]) by {
            assert(front[i] == lines[i]);
        }
        let before = chunks_of(front, target);
        if c < before.len() {
            lemma_chunks_hold_whole_lines(front, target, c);
        }
    }
}

/// Splitting loses nothing on its way through the files: every chunk file holds the lines of
/// its chunk, and the chunks hold, one behind the other, every line that is not empty.
pub proof fn law_chunk_files_give_back_the_source(
    lines: Seq<Seq<char>>,
    target: int,
    files: Seq<ChunkFile>,
    chunk_dir: Seq<char>,
    stem: Seq<char>,
)
    requires
        forall|i: int| 0 <= i < lines.len() ==> is_whole_line(#[trigger] lines[i]),
    ensures
        are_chunk_files(files, chunk_dir, stem, chunks_of(lines, target)) ==> forall|c: int|
            0 <= c < files.len() ==> gz_lines_of((#[trigger] files[c]).bytes@) == Ok::<
                Seq<Seq<char>>,
                Seq<char>,
            >(chunks_of(lines, target)[c]),
        all_lines(chunks_of(lines, target)) == lines.filter(|l: Seq<char>| l.len() > 0),
{
    law_split_keeps_lines(lines, target);
    let chunks = chunks_of(lines, target);
    if are_chunk_files(files, chunk_dir, stem, chunks) {
        assert forall|c: int| 0 <= c < files.len() implies gz_lines_of((#[trigger] files[c]).bytes@)
            == Ok::<Seq<Seq<char>>, Seq<char>>(chunks[c]) by {
            lemma_chunks_hold_whole_lines(lines, target, c);
            law_chunk_file_gives_back_its_lines(files[c], chunk_dir, stem, c + 1, chunks[c]);
        }
    }
}

/// The name of a chunk file, counted from one.
pub open spec fn chunk_name(stem: Seq<char>, n: int, ending: Seq<char>) -> Seq<char> {
    stem + "_"@ + text::zero_padded(n as nat, 3) + ending
}

fn make_chunk_name(stem: &str, n: u128, ending: &str) -> (r: String)
    ensures
        r@ == chunk_name(stem@, n as int, ending@),
{
    let mut s = stem.to_owned();
    s.append("_");
    push_zero_padded(&mut s, n, 3);
    s.append(ending);
    s
}

/// Where a chunk of a source is written while it is converted.
pub open spec fn chunk_file_of(chunk_dir: Seq<char>, stem: Seq<char>, n: int) -> Seq<char> {
    paths::join_of(chunk_dir, chunk_name(stem, n, ".gz"@))
}

/// Where a chunk of a source is written while it is converted.
pub fn chunk_file(chunk_dir: &str, stem: &str, n: usize) -> (r: String)
    ensures
        r@ == chunk_file_of(chunk_dir@, stem@, n as int),
{
    let name = make_chunk_name(stem, n as u128, ".gz");
    join_path(chunk_dir, name.as_str())
}

/// The name of a parquet file without its ending.
pub open spec fn stem_of(p: Seq<char>) -> Seq<char> {
    paths::file_stem_of(p).unwrap_or(Seq::empty())
}

fn stem_text(p: &str) -> (r: String)
    ensures
        r@ == stem_of(p@),
{
    match file_stem(p) {
        Some(s) => s,
        None => String::new(),
    }
}

/// Where a split part of a parquet file stands, counted from one.
pub open spec fn split_parquet_path_of(out_path: Seq<char>, n: int) -> Seq<char> {
    paths::join_of(
        paths::parent_of(out_path).unwrap_or("."@),
        chunk_name(stem_of(out_path), n, ".parquet"@),
    )
}

/// Where a split part of a parquet file stands, counted from one. The file was
/// made in parts exactly if the first of them exists.
pub fn split_parquet_path(out_path: &str, n: usize) -> (r: String)
    ensures
        r@ == split_parquet_path_of(out_path@, n as int),
{
    let stem = stem_text(out_path);
    let dir = match parent(out_path) {
        Some(d) => d,
        None => ".".to_owned(),
    };
    let name = make_chunk_name(stem.as_str(), n as u128, ".parquet");
    join_path(dir.as_str(), name.as_str())
}

/// The first `count` parts of a parquet file.
pub open spec fn split_parts(out_path: Seq<char>, count: int) -> Seq<Seq<char>> {
    Seq::new(count as nat, |i: int| split_parquet_path_of(out_path, i + 1))
}

/// The parts of a parquet file, of which `count` exist, in the order of their
/// paths.
pub fn list_split_parquets(out_path: &str, count: usize) -> (r: Vec<String>)
    ensures
        text::texts(r@) == order::sorted_by(split_parts(out_path@, count as int), files::by_path()),
{
    let mut out: Vec<String> = Vec::new();
    let mut i: usize = 0;
    let ghost all = split_parts(out_path@, count as int);
    assert(text::texts(out@) =~= all.take(0));
    while i < count
        invariant
            i <= count,
            all == split_parts(out_path@, count as int),
            text::texts(out@) == all.take(i as int),
        decreases count - i,
    {
        broadcast use text::lemma_texts_push;

        i += 1;
        out.push(split_parquet_path(out_path, i));
        assert(all.take(i as int) =~= all.take(i - 1).push(all[i - 1]));
    }
    assert(all.take(i as int) =~= all);
    sorted_paths(&out)
}

/// Where the chunks of a source are written while they are converted.
pub open spec fn chunk_dir_of(tmp_root: Seq<char>, dataset: Seq<char>, rel: Seq<char>) -> Seq<char> {
    paths::join_of(
        paths::join_of(tmp_root, dataset),
        paths::parent_of(rel).unwrap_or(Seq::empty()),
    )
}

/// Where the chunks of a source are written while they are converted.
pub fn chunk_dir(tmp_root: &str, dataset: &str, rel: &str) -> (r: String)
    ensures
        r@ == chunk_dir_of(tmp_root@, dataset@, rel@),
{
    let base = join_path(tmp_root, dataset);
    let below = parent_or_empty(rel);
    join_path(base.as_str(), below.as_str())
}

fn parent_or_empty(p: &str) -> (r: String)
    ensures
        r@ == paths::parent_of(p@).unwrap_or(Seq::empty()),
{
    match parent(p) {
        Some(d) => d,
        None => String::new(),
    }
}

/// The pair of a chunk: it is converted to a parquet file beside that of its
/// source.
pub open spec fn chunk_pair_of(
    source: plan::PairView,
    tmp_root: Seq<char>,
    dataset: Seq<char>,
    n: int,
) -> plan::PairView {
    let stem = stem_of(source.output_parquet);
    plan::PairView {
        input_gz: chunk_file_of(chunk_dir_of(tmp_root, dataset, source.rel), stem, n),
        output_parquet: paths::join_of(
            paths::parent_of(source.output_parquet).unwrap_or(Seq::empty()),
            chunk_name(stem, n, ".parquet"@),
        ),
        rel: paths::join_of(
            paths::parent_of(source.rel).unwrap_or(Seq::empty()),
            chunk_name(stem, n, ".gz"@),
        ),
        gz_size_bytes: 0,
    }
}

pub open spec fn chunk_pairs_of(
    source: plan::PairView,
    tmp_root: Seq<char>,
    dataset: Seq<char>,
    count: int,
) -> Seq<plan::PairView> {
    Seq::new(count as nat, |i: int| chunk_pair_of(source, tmp_root, dataset, i + 1))
}

/// The pairs of the chunks of a source.
pub fn chunk_pairs(source: &FilePair, tmp_root: &str, dataset: &str, count: usize) -> (r: Vec<FilePair>)
    ensures
        plan::pair_views(r@) == chunk_pairs_of(source@, tmp_root@, dataset@, count as int),
{
    let stem = stem_text(source.output_parquet.as_str());
    let dir = chunk_dir(tmp_root, dataset, source.rel.as_str());
    let out_dir = parent_or_empty(source.output_parquet.as_str());
    let rel_dir = parent_or_empty(source.rel.as_str());
    let ghost all = chunk_pairs_of(source@, tmp_root@, dataset@, count as int);
    let mut out: Vec<FilePair> = Vec::new();
    let mut i: usize = 0;
    assert(plan::pair_views(out@) =~= all.take(0));
    while i < count
        invariant
            i <= count,
            all == chunk_pairs_of(source@, tmp_root@, dataset@, count as int),
            plan::pair_views(out@) == all.take(i as int),
            stem@ == stem_of(source@.output_parquet),
            dir@ == chunk_dir_of(tmp_root@, dataset@, source@.rel),
            out_dir@ == paths::parent_of(source@.output_parquet).unwrap_or(Seq::empty()),
            rel_dir@ == paths::parent_of(source@.rel).unwrap_or(Seq::empty()),
        decreases count - i,
    {
        broadcast use plan::lemma_pair_views_push;

        i += 1;
        let parquet = make_chunk_name(stem.as_str(), i as u128, ".parquet");
        let name = make_chunk_name(stem.as_str(), i as u128, ".gz");
        let pair = FilePair {
            input_gz: chunk_file(dir.as_str(), stem.as_str(), i),
            output_parquet: join_path(out_dir.as_str(), parquet.as_str()),
            rel: join_path(rel_dir.as_str(), name.as_str()),
            gz_size_bytes: 0,
        };
        assert(pair@ =~= chunk_pair_of(source@, tmp_root@, dataset@, i as int));
        out.push(pair);
        assert(all.take(i as int) =~= all.take(i - 1).push(all[i - 1]));
    }
    assert(all.take(i as int) =~= all);
    out
}

proof fn lemma_utf8_concat(a: Seq<char>, b: Seq<char>)
    ensures
        vstd::utf8::encode_utf8(a + b) == vstd::utf8::encode_utf8(a) + vstd::utf8::encode_utf8(b),
    decreases a.len(),
{
    if a.len() == 0 {
        assert(a + b =~= b);
        assert(vstd::utf8::encode_utf8(a) + vstd::utf8::encode_utf8(b) =~= vstd::utf8::encode_utf8(b));
    } else {
        lemma_utf8_concat(a.drop_first(), b);
        assert((a + b).drop_first() =~= a.drop_first() + b);
        assert((a + b)[0] == a[0]);
        assert(vstd::utf8::encode_utf8(a + b) =~= vstd::utf8::encode_utf8(a)
            + vstd::utf8::encode_utf8(b));
    }
}

/// The size of a chunk is the number of bytes of what is written of it, the newline
/// behind each line counted.
pub proof fn law_size_of_a_chunk(lines: Seq<Seq<char>>)
    ensures
        chunk_bytes(lines) == vstd::utf8::encode_utf8(chunk_text(lines)).len(),
    decreases lines.len(),
{
    reveal_strlit("\n");
    if lines.len() > 0 {
        let t = chunk_text(lines.drop_last());
        law_size_of_a_chunk(lines.drop_last());
        lemma_utf8_concat(t, lines.last());
        lemma_utf8_concat(t + lines.last(), "\n"@);
        assert(vstd::utf8::is_ascii_chars("\n"@));
        vstd::utf8::is_ascii_chars_encode_utf8("\n"@);
    }
}

/// The chunks of one source have different names, and a chunk's number is read back
/// from its name.
pub proof fn law_chunk_names(stem: Seq<char>, i: nat, j: nat, ending: Seq<char>)
    ensures
        chunk_name(stem, i as int, ending) == chunk_name(stem, j as int, ending) ==> i == j,
        ({
            let name = chunk_name(stem, i as int, ending);
            let number = name.subrange(stem.len() as int + 1, name.len() - ending.len());
            &&& name.take(stem.len() as int) == stem
            &&& name[stem.len() as int] == '_'
            &&& name.skip(name.len() - ending.len()) == ending
            &&& number.len() >= 3
            &&& text::is_decimal(number)
            &&& text::decimal_value(number) == i
        }),
{
    reveal_strlit("_");
    text::law_zero_padded_is_the_number(i, 3);
    text::law_zero_padded_is_the_number(j, 3);
    let a = chunk_name(stem, i as int, ending);
    let b = chunk_name(stem, j as int, ending);
    let p = text::zero_padded(i, 3);
    let q = text::zero_padded(j, 3);
    assert(a.take(stem.len() as int) =~= stem);
    assert(a.skip(a.len() - ending.len()) =~= ending);
    assert(a.subrange(stem.len() as int + 1, a.len() - ending.len()) =~= p);
    assert(b.subrange(stem.len() as int + 1, b.len() - ending.len()) =~= q);
}

/// The chunks of a source are read from the directory of chunks and written beside
/// where the whole would be, each chunk's parquet file being that part of the whole.
pub proof fn law_chunks_stand_where_the_whole_would(
    source: plan::PairView,
    dir: Seq<char>,
    stem: Seq<char>,
    tmp_root: Seq<char>,
    dataset: Seq<char>,
    n: nat,
)
    requires
        paths::is_tidy(dir),
        paths::is_component(stem),
        source.output_parquet == paths::join_of(dir, stem + ".parquet"@),
    ensures
        ({
            let c = chunk_pair_of(source, tmp_root, dataset, n as int);
            &&& c.output_parquet == paths::join_of(dir, chunk_name(stem, n as int, ".parquet"@))
            &&& c.output_parquet == split_parquet_path_of(source.output_parquet, n as int)
            &&& c.input_gz == paths::join_of(
                chunk_dir_of(tmp_root, dataset, source.rel),
                chunk_name(stem, n as int, ".gz"@),
            )
            &&& c.gz_size_bytes == 0
        }),
{
    reveal_strlit("parquet");
    reveal_strlit(".parquet");
    assert(stem + seq!['.'] + "parquet"@ =~= stem + ".parquet"@);
    paths::law_stem_and_extension(dir, stem, "parquet"@, "parquet"@);
    paths::lemma_named(stem, "parquet"@);
    paths::law_parent_and_file_name_of_a_joined_path(dir, stem + ".parquet"@);
}

/// The parts of a whole are numbered from one, and there are as many pairs of chunks as
/// parts.
pub proof fn law_parts_are_numbered_from_one(
    source: plan::PairView,
    tmp_root: Seq<char>,
    dataset: Seq<char>,
    out_path: Seq<char>,
    count: int,
    i: int,
)
    requires
        0 <= i < count,
    ensures
        split_parts(out_path, count).len() == count,
        split_parts(out_path, count)[i] == split_parquet_path_of(out_path, i + 1),
        chunk_pairs_of(source, tmp_root, dataset, count).len() == count,
        chunk_pairs_of(source, tmp_root, dataset, count)[i] == chunk_pair_of(
            source,
            tmp_root,
            dataset,
            i + 1,
        ),
{
}

/// A line goes to the last chunk as long as that one is below the size, and to a new
/// one where it is not; an empty line goes nowhere.
pub proof fn law_chunks_fill_up(lines: Seq<Seq<char>>, line: Seq<char>, target: int)
    requires
        target > 0,
    ensures
        ({
            let before = chunks_of(lines, target);
            let after = chunks_of(lines.push(line), target);
            &&& line.len() == 0 ==> after == before
            &&& line.len() > 0 && chunk_bytes(before.last()) >= target ==> after == before.push(
                seq![line],
            )
            &&& line.len() > 0 && chunk_bytes(before.last()) < target ==> after.drop_last()
                == before.drop_last() && after.last() == before.last().push(line)
        }),
{
    assert(lines.push(line).drop_last() =~= lines);
    let before = chunks_of(lines, target);
    let after = chunks_of(lines.push(line), target);
    if line.len() > 0 && chunk_bytes(before.last()) < target {
        assert(after.drop_last() =~= before.drop_last());
    }
}
} // verus!
