use vstd::prelude::*;
use vstd::string::*;

use crate::fields::{body_line_spec, is_single, strings_view, update_from_s_line};
use crate::record::{
    Block, BlockSequence, BlockView, ErrorView, ItemView, MAFItem, ParseError, SequenceView, result_view,
    sequences_view,
};
use crate::text::{is_blank, lemma_blank_iff_no_tokens, line_is_blank, split_tokens, split_ws, strip_line_end, strip_line_end_of};

verus! {

/// The lines still to come from a source, terminators removed, and whether
/// reading fails after them.
pub struct LinesView {
    pub lines: Seq<Seq<char>>,
    pub failed: bool,
}

/// A single-pass cursor over the text that a stream yielded: one string per
/// read of a line, terminator included, and whether the read after the last
/// one failed. It borrows that text and hands out normalized lines.
pub struct LinesRef<'a> {
    linebuf: &'a [String],
    pos: usize,
    failed: bool,
}

/// The lines that raw reads stand for.
pub open spec fn lines_of(raw: Seq<String>) -> Seq<Seq<char>> {
    raw.map_values(|s: String| strip_line_end(s@))
}

pub open spec fn rest_of(v: LinesView) -> LinesView {
    LinesView { lines: v.lines.drop_first(), failed: v.failed }
}

/// What is left of a source once a read has failed.
pub open spec fn exhausted() -> LinesView {
    LinesView { lines: seq![], failed: false }
}

/// One pull from a source: the next line, else the pending failure, else
/// nothing; and what is left.
pub open spec fn next_line_spec(v: LinesView) -> (Option<Result<Seq<char>, ErrorView>>, LinesView) {
    if v.lines.len() > 0 {
        (Some(Ok(v.lines[0])), rest_of(v))
    } else if v.failed {
        (Some(Err(ErrorView::IOFailure)), exhausted())
    } else {
        (None, v)
    }
}

/// The body of a block after its header: `s` lines appended to `acc` up to a
/// blank line, empty or of whitespace only (consumed), or the end of the
/// source.
pub open spec fn scan_body(v: LinesView, acc: Seq<SequenceView>) -> (
    Result<Seq<SequenceView>, ErrorView>,
    LinesView,
)
    decreases v.lines.len(),
{
    if v.lines.len() == 0 {
        if v.failed {
            (Err(ErrorView::IOFailure), exhausted())
        } else {
            (Ok(acc), v)
        }
    } else {
        let line = v.lines[0];
        if is_blank(line) {
            (Ok(acc), rest_of(v))
        } else {
            match body_line_spec(line) {
                Ok(rec) => scan_body(rest_of(v), acc.push(rec)),
                Err(e) => (Err(e), rest_of(v)),
            }
        }
    }
}

/// The next item of a source and what is left of it: blank lines are
/// skipped; a `#` line is a comment, an `a` line starts a block.
pub open spec fn scan_item(v: LinesView) -> (Result<ItemView, ErrorView>, LinesView)
    decreases v.lines.len(),
{
    if v.lines.len() == 0 {
        if v.failed {
            (Err(ErrorView::IOFailure), exhausted())
        } else {
            (Err(ErrorView::EndOfInput), v)
        }
    } else {
        let line = v.lines[0];
        if is_blank(line) {
            scan_item(rest_of(v))
        } else if line[0] == '#' {
            (Ok(ItemView::Comment(line.drop_first())), rest_of(v))
        } else if line[0] == 'a' {
            let (r, after) = scan_body(rest_of(v), seq![]);
            (
                match r {
                    Ok(s) => Ok(ItemView::Block(BlockView { aline: line, sequences: s })),
                    Err(e) => Err(e),
                },
                after,
            )
        } else {
            (Err(ErrorView::UnexpectedLine(line)), rest_of(v))
        }
    }
}

impl<'a> View for LinesRef<'a> {
    type V = LinesView;

    closed spec fn view(&self) -> LinesView {
        LinesView {
            lines: if self.pos <= self.linebuf@.len() {
                lines_of(self.linebuf@).skip(self.pos as int)
            } else {
                seq![]
            },
            failed: self.failed,
        }
    }
}

pub open spec fn line_result_view(r: Option<Result<String, ParseError>>) -> Option<
    Result<Seq<char>, ErrorView>,
> {
    match r {
        Some(Ok(s)) => Some(Ok(s@)),
        Some(Err(e)) => Some(Err(e@)),
        None => None,
    }
}

impl<'a> LinesRef<'a> {
    /// A cursor at the start of `linebuf`; `read_failed` tells that the read
    /// after its last string failed.
    pub fn new(linebuf: &'a [String], read_failed: bool) -> (r: LinesRef<'a>)
        ensures
            r@ == (LinesView { lines: lines_of(linebuf@), failed: read_failed }),
    {
        let r = LinesRef { linebuf, pos: 0, failed: read_failed };
        assert(lines_of(linebuf@).skip(0) =~= lines_of(linebuf@));
        r
    }

    /// The next line without its terminator; the failure once the text is
    /// used up, if there is one; then nothing.
    pub fn next(&mut self) -> (r: Option<Result<String, ParseError>>)
        ensures
            (line_result_view(r), final(self)@) == next_line_spec(old(self)@),
    {
        if self.pos < self.linebuf.len() {
            let line = strip_line_end_of(self.linebuf[self.pos].as_str());
            let ghost before = self@;
            self.pos = self.pos + 1;
            assert(self@.lines =~= before.lines.drop_first());
            assert(before.lines[0] == line@);
            Some(Ok(line))
        } else if self.failed {
            self.failed = false;
            assert(self@.lines =~= Seq::<Seq<char>>::empty());
            Some(Err(ParseError::IOFailure))
        } else {
            None
        }
    }
}

/// Decodes a non-blank body line of a block and appends its record to
/// `sequences`; on an error `sequences` is left as it was.
pub fn add_body_line(line: &String, sequences: &mut Vec<BlockSequence>) -> (r: Result<
    (),
    ParseError,
>)
    requires
        !is_blank(line@),
    ensures
        match body_line_spec(line@) {
            Ok(rec) => r is Ok && sequences_view(final(sequences)@) == sequences_view(
                old(sequences)@,
            ).push(rec),
            Err(e) => r is Err && r->Err_0@ == e && final(sequences)@ == old(sequences)@,
        },
{
    let mut fields = split_tokens(line.as_str());
    let ghost t = split_ws(line@);
    assert(strings_view(fields@) == t);
    proof {
        lemma_blank_iff_no_tokens(line@);
    }
    if !is_single(fields[0].as_str(), 's') {
        return Err(ParseError::BadLineType(fields[0].clone()));
    }
    fields.remove(0);
    assert(strings_view(fields@) == t.drop_first());
    update_from_s_line(&fields, sequences)
}

/// Reads the body of a block whose header is `header`.
pub fn parse_block(header: String, input: &mut LinesRef) -> (r: Result<Block, ParseError>)
    ensures
        ({
            let (res, after) = scan_body(old(input)@, seq![]);
            &&& final(input)@ == after
            &&& match res {
                Ok(s) => r is Ok && r->Ok_0@ == (BlockView { aline: header@, sequences: s }),
                Err(e) => r is Err && r->Err_0@ == e,
            }
        }),
{
    let mut sequences: Vec<BlockSequence> = Vec::new();
    assert(sequences_view(sequences@) == Seq::<SequenceView>::empty());
    loop
        invariant
            scan_body(input@, sequences_view(sequences@)) == scan_body(old(input)@, seq![]),
        decreases input@.lines.len(),
    {
        match input.next() {
            None => {
                return Ok(Block { aline: header, sequences });
            },
            Some(Err(e)) => {
                return Err(e);
            },
            Some(Ok(line)) => {
                if line_is_blank(line.as_str()) {
                    return Ok(Block { aline: header, sequences });
                }
                match add_body_line(&line, &mut sequences) {
                    Ok(()) => {},
                    Err(e) => {
                        return Err(e);
                    },
                }
            },
        }
    }
}

/// Reads the next item from `input`: a comment or a whole block.
pub fn get_maf_item(input: &mut LinesRef) -> (r: Result<MAFItem, ParseError>)
    ensures
        (result_view(r), final(input)@) == scan_item(old(input)@),
{
    loop
        invariant
            scan_item(input@) == scan_item(old(input)@),
        decreases input@.lines.len(),
    {
        match input.next() {
            None => {
                return Err(ParseError::EndOfInput);
            },
            Some(Err(e)) => {
                return Err(e);
            },
            Some(Ok(line)) => {
                if !line_is_blank(line.as_str()) {
                    let first = line.as_str().get_char(0);
                    if first == '#' {
                        let n = line.as_str().unicode_len();
                        let text = String::from_str(line.as_str().substring_char(1, n));
                        assert(text@ == line@.drop_first());
                        return Ok(MAFItem::Comment(text));
                    } else if first == 'a' {
                        return match parse_block(line, input) {
                            Ok(b) => Ok(MAFItem::Block(b)),
                            Err(e) => Err(e),
                        };
                    } else {
                        return Err(ParseError::UnexpectedLine(line));
                    }
                }
            },
        }
    }
}

} // verus!
