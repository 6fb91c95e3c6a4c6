//! The manifest: one line per chunk, `<id>: <path>`.

use vstd::prelude::*;
use vstd::slice::{slice_subrange, slice_to_vec};
use crate::chunk_manager::ChunkId;
use crate::error::ConfigError;
use crate::text::{parse_u16, parse_u16_text, pieces_of, ranges_within, split, split_ranges};

verus! {

/// Whether a colon and a space stand at `i` in `line`.
pub open spec fn separator_at(line: Seq<u8>, i: int) -> bool {
    0 <= i && i + 1 < line.len() && line[i] == 58 && line[i + 1] == 32
}

/// Where the first colon and space at or behind `from` stand in `line`.
pub open spec fn find_separator(line: Seq<u8>, from: int) -> Option<int>
    decreases line.len() - from,
{
    if from < 0 || from + 1 >= line.len() {
        None
    } else if separator_at(line, from) {
        Some(from)
    } else {
        find_separator(line, from + 1)
    }
}

/// What `find_separator` finds is a separator, and the first one: none
/// stands between `from` and it, and none at or behind `from` when it finds
/// nothing.
pub proof fn lemma_find_separator_is_first(line: Seq<u8>, from: int)
    requires
        0 <= from,
    ensures
        match find_separator(line, from) {
            Some(at) => from <= at && separator_at(line, at) && forall|j: int|
                from <= j < at ==> !separator_at(line, j),
            None => forall|j: int| from <= j ==> !separator_at(line, j),
        },
    decreases line.len() - from,
{
    if from + 1 < line.len() && !separator_at(line, from) {
        lemma_find_separator_is_first(line, from + 1);
    }
}

/// The part of `text` before its first colon and space, or all of it when
/// it has none.
pub open spec fn first_field(text: Seq<u8>) -> Seq<u8> {
    match find_separator(text, 0) {
        Some(at) => text.take(at),
        None => text,
    }
}

/// What one manifest line says: the identifier written before the first
/// colon and space, and the path between that separator and the next one or
/// the line's end. The identifier is judged first.
pub open spec fn parse_manifest_line_text(line: Seq<u8>) -> Result<
    (ChunkId, Seq<u8>),
    ConfigError,
> {
    match parse_u16_text(first_field(line)) {
        None => Err(ConfigError::KeyNotANumber),
        Some(id) => match find_separator(line, 0) {
            None => Err(ConfigError::UnknownLineFormat),
            Some(at) => Ok((id, first_field(line.skip(at + 2)))),
        },
    }
}

/// `lines` without the empty lines at its end.
pub open spec fn strip_trailing_empty(lines: Seq<Seq<u8>>) -> Seq<Seq<u8>>
    decreases lines.len(),
{
    if lines.len() > 0 && lines.last().len() == 0 {
        strip_trailing_empty(lines.drop_last())
    } else {
        lines
    }
}

/// What the lines say, in order, or what is wrong with the first line that
/// says nothing.
pub open spec fn parse_lines(lines: Seq<Seq<u8>>) -> Result<Seq<(ChunkId, Seq<u8>)>, ConfigError>
    decreases lines.len(),
{
    if lines.len() == 0 {
        Ok(Seq::empty())
    } else {
        match parse_lines(lines.drop_last()) {
            Err(error) => Err(error),
            Ok(entries) => match parse_manifest_line_text(lines.last()) {
                Ok(entry) => Ok(entries.push(entry)),
                Err(error) => Err(error),
            },
        }
    }
}

/// What a manifest says. Lines end at line feeds; empty lines at the end
/// count for nothing.
pub open spec fn parse_manifest_text(text: Seq<u8>) -> Result<
    Seq<(ChunkId, Seq<u8>)>,
    ConfigError,
> {
    parse_lines(strip_trailing_empty(split(text, 10)))
}

/// One line of a manifest: a chunk and the path of the file that holds it.
#[derive(Debug, PartialEq, Eq)]
pub struct ManifestEntry {
    pub id: ChunkId,
    pub path: Vec<u8>,
}

impl View for ManifestEntry {
    type V = (ChunkId, Seq<u8>);

    open spec fn view(&self) -> (ChunkId, Seq<u8>) {
        (self.id, self.path@)
    }
}

/// The values of a sequence of entries, in order.
pub open spec fn entry_views(entries: Seq<ManifestEntry>) -> Seq<(ChunkId, Seq<u8>)> {
    entries.map_values(|entry: ManifestEntry| entry@)
}

/// Finds the first colon and space in `line`.
pub fn first_separator(line: &[u8]) -> (found: Option<usize>)
    ensures
        match found {
            Some(at) => find_separator(line@, 0) == Some(at as int) && separator_at(
                line@,
                at as int,
            ),
            None => find_separator(line@, 0) is None,
        },
{
    let mut i: usize = 0;
    while i < line.len() && i + 1 < line.len()
        invariant
            find_separator(line@, 0) == find_separator(line@, i as int),
        decreases line.len() - i,
    {
        if line[i] == 58 && line[i + 1] == 32 {
            return Some(i);
        }
        i += 1;
    }
    None
}

/// The part of `text` before its first colon and space, or all of it.
fn take_first_field(text: &[u8]) -> (field: &[u8])
    ensures
        field@ == first_field(text@),
{
    match first_separator(text) {
        Some(at) => {
            let field = slice_subrange(text, 0, at);
            assert(field@ =~= text@.take(at as int));
            field
        },
        None => text,
    }
}

/// Reads one manifest line.
///
/// Fails with `KeyNotANumber` when what stands before the first colon and
/// space (the whole line, when it has none) is no decimal 16-bit number, and
/// otherwise with `UnknownLineFormat` when the line has no colon and space.
pub fn parse_manifest_line(line: &[u8]) -> (result: Result<ManifestEntry, ConfigError>)
    ensures
        match result {
            Ok(entry) => parse_manifest_line_text(line@) == Ok::<(ChunkId, Seq<u8>), ConfigError>(
                entry@,
            ),
            Err(error) => parse_manifest_line_text(line@) == Err::<
                (ChunkId, Seq<u8>),
                ConfigError,
            >(error),
        },
{
    let id = match parse_u16(take_first_field(line)) {
        Some(id) => id,
        None => {
            return Err(ConfigError::KeyNotANumber);
        },
    };
    match first_separator(line) {
        None => Err(ConfigError::UnknownLineFormat),
        Some(at) => {
            let end = line.len();
            let rest = slice_subrange(line, at + 2, end);
            assert(rest@ =~= line@.skip(at + 2));
            let path = slice_to_vec(take_first_field(rest));
            Ok(ManifestEntry { id, path })
        },
    }
}

/// Once a line says nothing, the manifest says nothing, and for that
/// reason.
pub proof fn lemma_first_error_stands(lines: Seq<Seq<u8>>, k: int, error: ConfigError)
    requires
        0 <= k <= lines.len(),
        parse_lines(lines.take(k)) == Err::<Seq<(ChunkId, Seq<u8>)>, ConfigError>(error),
    ensures
        parse_lines(lines) == Err::<Seq<(ChunkId, Seq<u8>)>, ConfigError>(error),
    decreases lines.len() - k,
{
    if k < lines.len() {
        assert(lines.take(k + 1).drop_last() =~= lines.take(k));
        lemma_first_error_stands(lines, k + 1, error);
    } else {
        assert(lines.take(k) =~= lines);
    }
}

/// Reads a manifest.
///
/// Gives the entries in the order of their lines, or the error of the first
/// line that cannot be read.
pub fn parse_manifest(text: &[u8]) -> (result: Result<Vec<ManifestEntry>, ConfigError>)
    ensures
        match result {
            Ok(entries) => parse_manifest_text(text@) == Ok::<
                Seq<(ChunkId, Seq<u8>)>,
                ConfigError,
            >(entry_views(entries@)),
            Err(error) => parse_manifest_text(text@) == Err::<
                Seq<(ChunkId, Seq<u8>)>,
                ConfigError,
            >(error),
        },
{
    let mut ranges = split_ranges(text, 10);
    while ranges.len() > 0 && ranges[ranges.len() - 1].0 == ranges[ranges.len() - 1].1
        invariant
            ranges_within(ranges@, text@.len()),
            strip_trailing_empty(pieces_of(text@, ranges@)) == strip_trailing_empty(
                split(text@, 10),
            ),
        decreases ranges.len(),
    {
        let ghost before = pieces_of(text@, ranges@);
        ranges.pop();
        assert(pieces_of(text@, ranges@) =~= before.drop_last());
    }
    let ghost lines = pieces_of(text@, ranges@);
    assert(lines == strip_trailing_empty(split(text@, 10)));
    let mut entries: Vec<ManifestEntry> = Vec::new();
    let mut k: usize = 0;
    proof {
        assert(lines.take(0) =~= Seq::<Seq<u8>>::empty());
        assert(entry_views(entries@) =~= Seq::<(ChunkId, Seq<u8>)>::empty());
    }
    while k < ranges.len()
        invariant
            k <= ranges.len(),
            ranges_within(ranges@, text@.len()),
            lines == pieces_of(text@, ranges@),
            lines == strip_trailing_empty(split(text@, 10)),
            parse_lines(lines.take(k as int)) == Ok::<Seq<(ChunkId, Seq<u8>)>, ConfigError>(
                entry_views(entries@),
            ),
        decreases ranges.len() - k,
    {
        let range = ranges[k];
        let line = slice_subrange(text, range.0, range.1);
        assert(line@ == lines[k as int]);
        assert(lines.take(k + 1).drop_last() =~= lines.take(k as int));
        match parse_manifest_line(line) {
            Ok(entry) => {
                let ghost before = entries@;
                entries.push(entry);
                assert(entry_views(entries@) =~= entry_views(before).push(entry@));
            },
            Err(error) => {
                proof {
                    assert(parse_lines(lines.take(k + 1)) == Err::<
                        Seq<(ChunkId, Seq<u8>)>,
                        ConfigError,
                    >(error));
                    lemma_first_error_stands(lines, k + 1, error);
                }
                return Err(error);
            },
        }
        k += 1;
    }
    assert(lines.take(k as int) =~= lines);
    Ok(entries)
}

} // verus!
