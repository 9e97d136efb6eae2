use vstd::prelude::*;
use vstd::string::*;

use crate::fields::body_line_spec;
use crate::parser::{LinesView, add_body_line, next_line_spec, rest_of, scan_body, scan_item};
use crate::record::{Block, BlockView, ErrorView, ItemView, MAFItem, ParseError, SequenceView};
use crate::text::{is_blank, line_is_blank};

verus! {

/// One step of item parsing, fed one pull from a source: the item or error it
/// completes, if any, and the block still open after it.
pub open spec fn step_spec(s: Option<BlockView>, ev: Option<Result<Seq<char>, ErrorView>>) -> (
    Option<Result<ItemView, ErrorView>>,
    Option<BlockView>,
) {
    match s {
        None => match ev {
            None => (Some(Err(ErrorView::EndOfInput)), None),
            Some(Err(e)) => (Some(Err(e)), None),
            Some(Ok(line)) => if is_blank(line) {
                (None, None)
            } else if line[0] == '#' {
                (Some(Ok(ItemView::Comment(line.drop_first()))), None)
            } else if line[0] == 'a' {
                (None, Some(BlockView { aline: line, sequences: seq![] }))
            } else {
                (Some(Err(ErrorView::UnexpectedLine(line))), None)
            },
        },
        Some(b) => match ev {
            None => (Some(Ok(ItemView::Block(b))), None),
            Some(Err(e)) => (Some(Err(e)), None),
            Some(Ok(line)) => if is_blank(line) {
                (Some(Ok(ItemView::Block(b))), None)
            } else {
                match body_line_spec(line) {
                    Ok(rec) => (
                        None,
                        Some(BlockView { aline: b.aline, sequences: b.sequences.push(rec) }),
                    ),
                    Err(e) => (Some(Err(e)), None),
                }
            },
        },
    }
}

/// Feeds the pulls of `v` to the steps from state `s` until one completes.
pub open spec fn run(s: Option<BlockView>, v: LinesView) -> (Result<ItemView, ErrorView>, LinesView)
    decreases v.lines.len(),
{
    let (ev, v2) = next_line_spec(v);
    let (out, s2) = step_spec(s, ev);
    if out is Some {
        (out->0, v2)
    } else if v.lines.len() > 0 {
        run(s2, rest_of(v))
    } else {
        (Err(ErrorView::EndOfInput), v2)
    }
}

/// A block result made from its header and the result of its body.
pub open spec fn block_result(
    aline: Seq<char>,
    body: (Result<Seq<SequenceView>, ErrorView>, LinesView),
) -> (Result<ItemView, ErrorView>, LinesView) {
    (
        match body.0 {
            Ok(s) => Ok(ItemView::Block(BlockView { aline, sequences: s })),
            Err(e) => Err(e),
        },
        body.1,
    )
}

proof fn lemma_run_body(b: BlockView, v: LinesView)
    ensures
        run(Some(b), v) == block_result(b.aline, scan_body(v, b.sequences)),
    decreases v.lines.len(),
{
    if v.lines.len() > 0 && !is_blank(v.lines[0]) {
        if let Ok(rec) = body_line_spec(v.lines[0]) {
            lemma_run_body(
                BlockView { aline: b.aline, sequences: b.sequences.push(rec) },
                rest_of(v),
            );
        }
    }
}

/// Feeding a source's lines one at a time to an `ItemParser` that has no
/// open block completes the same item, and leaves the same rest of the
/// source, as `get_maf_item` on that source.
pub proof fn lemma_steps_match_items(v: LinesView)
    ensures
        run(None, v) == scan_item(v),
    decreases v.lines.len(),
{
    if v.lines.len() > 0 {
        let line = v.lines[0];
        if is_blank(line) {
            lemma_steps_match_items(rest_of(v));
        } else if line[0] == 'a' {
            lemma_run_body(BlockView { aline: line, sequences: seq![] }, rest_of(v));
        }
    }
}

pub open spec fn step_output_view(r: Option<Result<MAFItem, ParseError>>) -> Option<
    Result<ItemView, ErrorView>,
> {
    match r {
        Some(Ok(i)) => Some(Ok(i@)),
        Some(Err(e)) => Some(Err(e@)),
        None => None,
    }
}

pub open spec fn event_view(ev: Option<Result<String, ParseError>>) -> Option<
    Result<Seq<char>, ErrorView>,
> {
    match ev {
        Some(Ok(s)) => Some(Ok(s@)),
        Some(Err(e)) => Some(Err(e@)),
        None => None,
    }
}

/// Item parsing driven one line at a time, for sources that are read as they
/// are parsed: it holds no more than the block being read.
pub struct ItemParser {
    block: Option<Block>,
}

impl View for ItemParser {
    type V = Option<BlockView>;

    closed spec fn view(&self) -> Option<BlockView> {
        match self.block {
            Some(b) => Some(b@),
            None => None,
        }
    }
}

impl ItemParser {
    pub fn new() -> (r: ItemParser)
        ensures
            r@ is None,
    {
        ItemParser { block: None }
    }

    /// Takes the next pull from the source, as `LinesRef::next` gives it: a
    /// line without terminator, a read error, or `None` at the end. Returns the
    /// item or error that this completes, if any.
    pub fn feed(&mut self, event: Option<Result<String, ParseError>>) -> (r: Option<
        Result<MAFItem, ParseError>,
    >)
        ensures
            (step_output_view(r), final(self)@) == step_spec(old(self)@, event_view(event)),
    {
        match self.block.take() {
            None => match event {
                None => Some(Err(ParseError::EndOfInput)),
                Some(Err(e)) => Some(Err(e)),
                Some(Ok(line)) => {
                    if line_is_blank(line.as_str()) {
                        None
                    } else {
                        let first = line.as_str().get_char(0);
                        if first == '#' {
                            let n = line.as_str().unicode_len();
                            let text = String::from_str(line.as_str().substring_char(1, n));
                            assert(text@ == line@.drop_first());
                            Some(Ok(MAFItem::Comment(text)))
                        } else if first == 'a' {
                            let b = Block { aline: line, sequences: Vec::new() };
                            assert(b@.sequences =~= Seq::<SequenceView>::empty());
                            self.block = Some(b);
                            None
                        } else {
                            Some(Err(ParseError::UnexpectedLine(line)))
                        }
                    }
                },
            },
            Some(mut b) => match event {
                None => Some(Ok(MAFItem::Block(b))),
                Some(Err(e)) => Some(Err(e)),
                Some(Ok(line)) => {
                    if line_is_blank(line.as_str()) {
                        Some(Ok(MAFItem::Block(b)))
                    } else {
                        match add_body_line(&line, &mut b.sequences) {
                            Ok(()) => {
                                self.block = Some(b);
                                None
                            },
                            Err(e) => Some(Err(e)),
                        }
                    }
                },
            },
        }
    }
}

} // verus!
