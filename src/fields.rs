use vstd::prelude::*;
use vstd::string::*;
use vstd::utf8::encode_utf8;

use crate::record::{BlockSequence, ErrorView, ParseError, SequenceView, Strand, sequences_view};
use crate::text::{parse_u64, parse_u64_spec, split_ws};

verus! {

/// `+` is the forward strand, `-` the reverse one; nothing else is a strand.
pub open spec fn strand_spec(t: Seq<char>) -> Option<Strand> {
    if t == seq!['+'] {
        Some(Strand::Forward)
    } else if t == seq!['-'] {
        Some(Strand::Reverse)
    } else {
        None
    }
}

/// The record that the fields of an `s` line (its marker left out) describe.
/// Fewer than six fields is an incomplete line. Otherwise fields are taken
/// from the end: residues, source length, strand, aligned length, start,
/// name; the first malformed one decides the error, and tokens before the
/// name are not read.
pub open spec fn decode_fields_spec(f: Seq<Seq<char>>) -> Result<SequenceView, ErrorView> {
    let n = f.len();
    if n < 6 {
        Err(ErrorView::IncompleteLine)
    } else if parse_u64_spec(f[n - 2]) is None {
        Err(ErrorView::InvalidSequenceLength)
    } else if strand_spec(f[n - 3]) is None {
        Err(ErrorView::InvalidStrand)
    } else if parse_u64_spec(f[n - 4]) is None {
        Err(ErrorView::InvalidAlignedLength)
    } else if parse_u64_spec(f[n - 5]) is None {
        Err(ErrorView::InvalidStart)
    } else {
        Ok(
            SequenceView {
                seqname: f[n - 6],
                start: parse_u64_spec(f[n - 5])->0,
                alignsize: parse_u64_spec(f[n - 4])->0,
                strand: strand_spec(f[n - 3])->0,
                seqsize: parse_u64_spec(f[n - 2])->0,
                alignment: encode_utf8(f[n - 1]),
            },
        )
    }
}

/// What a non-blank body line of a block decodes to: an `s` line gives a
/// record, any other first token is refused. (A blank line has no first
/// token; it ends a body and is never decoded.)
pub open spec fn body_line_spec(line: Seq<char>) -> Result<SequenceView, ErrorView> {
    let t = split_ws(line);
    if t.len() == 0 {
        Err(ErrorView::BadLineType(seq![]))
    } else if t[0] != seq!['s'] {
        Err(ErrorView::BadLineType(t[0]))
    } else {
        decode_fields_spec(t.drop_first())
    }
}

pub open spec fn strings_view(v: Seq<String>) -> Seq<Seq<char>> {
    v.map_values(|s: String| s@)
}

/// Whether `t` is the one character `c`.
pub fn is_single(t: &str, c: char) -> (r: bool)
    ensures
        r == (t@ == seq![c]),
{
    if t.unicode_len() == 1 {
        let r = t.get_char(0) == c;
        assert(r ==> t@ == seq![c]);
        r
    } else {
        false
    }
}

/// Decodes a strand field.
pub fn parse_strand(strand: &str) -> (r: Result<Strand, ParseError>)
    ensures
        match strand_spec(strand@) {
            Some(s) => r == Ok::<Strand, ParseError>(s),
            None => r == Err::<Strand, ParseError>(ParseError::InvalidStrand),
        },
{
    if is_single(strand, '+') {
        Ok(Strand::Forward)
    } else if is_single(strand, '-') {
        Ok(Strand::Reverse)
    } else {
        Err(ParseError::InvalidStrand)
    }
}

/// Decodes the fields of an `s` line, its marker left out, and appends the
/// record to `block_pair`; on an error `block_pair` is left as it was.
pub fn update_from_s_line(fields: &Vec<String>, block_pair: &mut Vec<BlockSequence>) -> (r: Result<
    (),
    ParseError,
>)
    ensures
        match decode_fields_spec(strings_view(fields@)) {
            Ok(rec) => r is Ok && sequences_view(final(block_pair)@) == sequences_view(
                old(block_pair)@,
            ).push(rec),
            Err(e) => r is Err && r->Err_0@ == e && final(block_pair)@ == old(block_pair)@,
        },
{
    let ghost f = strings_view(fields@);
    let n = fields.len();
    assert(f.len() == n);
    if n < 6 {
        return Err(ParseError::IncompleteLine);
    }
    assert(f[n - 2] == fields@[n - 2]@);
    let seqsize = match parse_u64(fields[n - 2].as_str()) {
        Some(v) => v,
        None => {
            return Err(ParseError::InvalidSequenceLength);
        },
    };
    assert(f[n - 3] == fields@[n - 3]@);
    let strand = match parse_strand(fields[n - 3].as_str()) {
        Ok(s) => s,
        Err(e) => {
            return Err(e);
        },
    };
    assert(f[n - 4] == fields@[n - 4]@);
    let alignsize = match parse_u64(fields[n - 4].as_str()) {
        Some(v) => v,
        None => {
            return Err(ParseError::InvalidAlignedLength);
        },
    };
    assert(f[n - 5] == fields@[n - 5]@);
    let start = match parse_u64(fields[n - 5].as_str()) {
        Some(v) => v,
        None => {
            return Err(ParseError::InvalidStart);
        },
    };
    assert(f[n - 6] == fields@[n - 6]@);
    assert(f[n - 1] == fields@[n - 1]@);
    let rec = BlockSequence {
        seqname: fields[n - 6].clone(),
        start,
        alignsize,
        strand,
        seqsize,
        alignment: fields[n - 1].as_str().as_bytes_vec(),
    };
    let ghost before = old(block_pair)@;
    block_pair.push(rec);
    assert(sequences_view(block_pair@) == sequences_view(before).push(rec@));
    Ok(())
}

} // verus!
