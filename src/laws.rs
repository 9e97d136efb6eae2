use vstd::prelude::*;

use crate::fields::{body_line_spec, decode_fields_spec, strand_spec};
use crate::record::{ErrorView, ItemView, SequenceView};
use crate::parser::{LinesView, lines_of, scan_body, scan_item};
use crate::text::{is_blank, is_ws, lemma_blank_iff_no_tokens, parse_u64_spec, split_ws};

verus! {

/// A comment line `#text` yields the comment `text`, exactly, and consumes
/// that line alone.
pub proof fn lemma_comment_item(text: Seq<char>, rest: LinesView)
    ensures
        scan_item(LinesView { lines: seq![seq!['#'] + text] + rest.lines, failed: rest.failed })
            == (Ok::<ItemView, ErrorView>(ItemView::Comment(text)), rest),
{
    let line = seq!['#'] + text;
    let v = LinesView { lines: seq![line] + rest.lines, failed: rest.failed };
    assert(line[0] == '#');
    assert(!is_ws(line[0]));
    assert(!is_blank(line));
    assert(line.drop_first() == text);
    assert(v.lines.drop_first() == rest.lines);
}

/// A well-formed `s` line: the marker `s`, then a name, a start, an aligned
/// length, a strand, a source length and the residues, each well formed.
pub open spec fn well_formed_s_line(line: Seq<char>) -> bool {
    let t = split_ws(line);
    &&& t.len() == 7
    &&& t[0] == seq!['s']
    &&& parse_u64_spec(t[2]) is Some
    &&& parse_u64_spec(t[3]) is Some
    &&& strand_spec(t[4]) is Some
    &&& parse_u64_spec(t[5]) is Some
}

/// A well-formed `s` line is not blank and decodes to a record.
pub proof fn lemma_well_formed_s_line(line: Seq<char>)
    requires
        well_formed_s_line(line),
    ensures
        !is_blank(line),
        body_line_spec(line) is Ok,
{
    lemma_blank_iff_no_tokens(line);
    let t = split_ws(line);
    let f = t.drop_first();
    assert(f[1] == t[2] && f[2] == t[3] && f[3] == t[4] && f[4] == t[5]);
}

/// The body lines that make a block: each one a well-formed `s` line.
pub open spec fn valid_body(body: Seq<Seq<char>>) -> bool {
    forall|i: int| 0 <= i < body.len() ==> well_formed_s_line(#[trigger] body[i])
}

/// How a block's body ends: a blank line followed by anything, or the end of a
/// source that does not fail.
pub open spec fn block_end(tail: LinesView) -> bool {
    (tail.lines.len() > 0 && is_blank(tail.lines[0])) || (tail.lines.len() == 0 && !tail.failed)
}

/// A block body of well-formed `s` lines, up to a blank line or the end of
/// the source, adds one record per line to those already read.
pub proof fn lemma_body_sequence_count(body: Seq<Seq<char>>, tail: LinesView, acc: Seq<SequenceView>)
    requires
        valid_body(body),
        block_end(tail),
    ensures
        scan_body(LinesView { lines: body + tail.lines, failed: tail.failed }, acc).0 is Ok,
        scan_body(LinesView { lines: body + tail.lines, failed: tail.failed }, acc).0->Ok_0.len()
            == acc.len() + body.len(),
    decreases body.len(),
{
    let v = LinesView { lines: body + tail.lines, failed: tail.failed };
    if body.len() == 0 {
        assert(v.lines == tail.lines);
    } else {
        assert(v.lines[0] == body[0]);
        lemma_well_formed_s_line(body[0]);
        let rec = body_line_spec(body[0])->Ok_0;
        let rest = body.drop_first();
        assert(valid_body(rest)) by {
            assert forall|i: int| 0 <= i < rest.len() implies well_formed_s_line(#[trigger] rest[i]) by {
                assert(rest[i] == body[i + 1]);
            }
        }
        assert(v.lines.drop_first() == rest + tail.lines);
        lemma_body_sequence_count(rest, tail, acc.push(rec));
    }
}

/// A block whose header is followed by valid `s` lines up to a blank line or
/// the end of the source holds one sequence per `s` line, under that header.
pub proof fn lemma_block_sequence_count(header: Seq<char>, body: Seq<Seq<char>>, tail: LinesView)
    requires
        header.len() > 0,
        header[0] == 'a',
        valid_body(body),
        block_end(tail),
    ensures
        ({
            let r = scan_item(
                LinesView { lines: seq![header] + body + tail.lines, failed: tail.failed },
            ).0;
            &&& r is Ok
            &&& r->Ok_0 is Block
            &&& r->Ok_0->Block_0.aline == header
            &&& r->Ok_0->Block_0.sequences.len() == body.len()
        }),
{
    let v = LinesView { lines: seq![header] + body + tail.lines, failed: tail.failed };
    assert(v.lines[0] == header);
    assert(!is_ws(header[0]));
    assert(!is_blank(header));
    assert(v.lines.drop_first() == body + tail.lines);
    lemma_body_sequence_count(body, tail, seq![]);
}

/// A body line whose first token is not `s` ends the block with
/// `BadLineType` of that token; the lines after it are left unread.
pub proof fn lemma_bad_line_type(
    header: Seq<char>,
    body: Seq<Seq<char>>,
    line: Seq<char>,
    rest: LinesView,
)
    requires
        header.len() > 0,
        header[0] == 'a',
        valid_body(body),
        split_ws(line).len() > 0,
        split_ws(line)[0] != seq!['s'],
    ensures
        scan_item(
            LinesView { lines: seq![header] + body + seq![line] + rest.lines, failed: rest.failed },
        ) == (Err::<ItemView, ErrorView>(ErrorView::BadLineType(split_ws(line)[0])), rest),
{
    let v = LinesView { lines: seq![header] + body + seq![line] + rest.lines, failed: rest.failed };
    assert(v.lines[0] == header);
    assert(!is_ws(header[0]));
    assert(!is_blank(header));
    assert(v.lines.drop_first() == body + (seq![line] + rest.lines));
    lemma_blank_iff_no_tokens(line);
    lemma_body_bad_line(body, line, rest, seq![]);
}

/// In a block body of well-formed `s` lines, the first non-blank line that
/// does not decode ends the block with its error; the lines after it are left
/// unread.
pub proof fn lemma_body_bad_line(
    body: Seq<Seq<char>>,
    line: Seq<char>,
    rest: LinesView,
    acc: Seq<SequenceView>,
)
    requires
        valid_body(body),
        !is_blank(line),
        body_line_spec(line) is Err,
    ensures
        scan_body(LinesView { lines: body + (seq![line] + rest.lines), failed: rest.failed }, acc)
            == (Err::<Seq<SequenceView>, ErrorView>(body_line_spec(line)->Err_0), rest),
    decreases body.len(),
{
    let v = LinesView { lines: body + (seq![line] + rest.lines), failed: rest.failed };
    if body.len() == 0 {
        assert(v.lines == seq![line] + rest.lines);
        assert(v.lines.drop_first() == rest.lines);
    } else {
        lemma_well_formed_s_line(body[0]);
        let rec = body_line_spec(body[0])->Ok_0;
        let tail = body.drop_first();
        assert(valid_body(tail)) by {
            assert forall|i: int| 0 <= i < tail.len() implies well_formed_s_line(#[trigger] tail[i]) by {
                assert(tail[i] == body[i + 1]);
            }
        }
        assert(v.lines[0] == body[0]);
        assert(v.lines.drop_first() == tail + (seq![line] + rest.lines));
        lemma_body_bad_line(tail, line, rest, acc.push(rec));
    }
}

/// A non-blank line that starts neither with `#` nor with `a`, where an item
/// is to start, is refused as it stands, and nothing after it is read.
pub proof fn lemma_unexpected_line(line: Seq<char>, rest: LinesView)
    requires
        !is_blank(line),
        line[0] != '#',
        line[0] != 'a',
    ensures
        scan_item(LinesView { lines: seq![line] + rest.lines, failed: rest.failed }) == (
            Err::<ItemView, ErrorView>(ErrorView::UnexpectedLine(line)),
            rest,
        ),
{
    let v = LinesView { lines: seq![line] + rest.lines, failed: rest.failed };
    assert(v.lines[0] == line);
    assert(v.lines.drop_first() == rest.lines);
}

/// An `s` line with fewer than six fields after its marker is an incomplete
/// line, whatever those fields hold.
pub proof fn lemma_missing_field(f: Seq<Seq<char>>)
    requires
        f.len() < 6,
    ensures
        decode_fields_spec(f) == Err::<SequenceView, ErrorView>(ErrorView::IncompleteLine),
{
}

/// The items read one after another from a source, `k` of them at most,
/// stopping after the first error.
pub open spec fn items(v: LinesView, k: nat) -> Seq<Result<ItemView, ErrorView>>
    decreases k,
{
    if k == 0 {
        seq![]
    } else {
        let (r, after) = scan_item(v);
        if r is Ok {
            seq![r] + items(after, (k - 1) as nat)
        } else {
            seq![r]
        }
    }
}

/// Parsing is deterministic: two sources that hold the same text, read from
/// the start, yield the same items.
pub proof fn lemma_same_text_same_items(a: Seq<String>, b: Seq<String>, failed: bool, k: nat)
    requires
        a.map_values(|s: String| s@) == b.map_values(|s: String| s@),
    ensures
        items(LinesView { lines: lines_of(a), failed }, k) == items(
            LinesView { lines: lines_of(b), failed },
            k,
        ),
{
    let ma = a.map_values(|s: String| s@);
    let mb = b.map_values(|s: String| s@);
    assert(a.len() == ma.len() && b.len() == mb.len());
    assert forall|i: int| 0 <= i < a.len() implies lines_of(a)[i] == lines_of(b)[i] by {
        assert(ma[i] == a[i]@ && mb[i] == b[i]@);
    }
    assert(lines_of(a) =~= lines_of(b));
}

} // verus!
