use mafcaller::{
    get_maf_item, parse_strand, update_from_s_line, Block, BlockSequence, LinesRef, MAFItem,
    ParseError, Strand,
};

/// The strings that successive `read_line` calls would give for `text`.
fn reads(text: &str) -> Vec<String> {
    text.split_inclusive('\n').map(|s| s.to_string()).collect()
}

fn tokens(fields: &[&str]) -> Vec<String> {
    fields.iter().map(|s| s.to_string()).collect()
}

fn all_items(text: &str) -> Vec<Result<MAFItem, ParseError>> {
    let raw = reads(text);
    let mut lines = LinesRef::new(&raw, false);
    let mut out = Vec::new();
    loop {
        let r = get_maf_item(&mut lines);
        let stop = r.is_err();
        out.push(r);
        if stop {
            break;
        }
    }
    out
}

fn record(name: &str, start: u64, alignsize: u64, strand: Strand, seqsize: u64, alignment: &str) -> BlockSequence {
    BlockSequence {
        seqname: name.to_string(),
        start,
        alignsize,
        strand,
        seqsize,
        alignment: alignment.as_bytes().to_vec(),
    }
}

#[test]
fn comment_keeps_text_after_marker() {
    let raw = reads("# a comment  \n");
    let mut lines = LinesRef::new(&raw, false);
    assert_eq!(get_maf_item(&mut lines), Ok(MAFItem::Comment(" a comment  ".to_string())));
    assert_eq!(get_maf_item(&mut lines), Err(ParseError::EndOfInput));
}

#[test]
fn bare_marker_is_empty_comment() {
    let raw = reads("\n   \n#\n");
    let mut lines = LinesRef::new(&raw, false);
    assert_eq!(get_maf_item(&mut lines), Ok(MAFItem::Comment(String::new())));
}

#[test]
fn block_counts_s_lines() {
    let items = all_items("a score=1\ns a 0 1 + 5 A\ns b 2 2 - 9 AC\ns c 3 3 + 7 A-CG\n\n#end\n");
    match &items[0] {
        Ok(MAFItem::Block(b)) => {
            assert_eq!(b.aline, "a score=1");
            assert_eq!(b.sequences.len(), 3);
            assert_eq!(b.sequences[1], record("b", 2, 2, Strand::Reverse, 9, "AC"));
        }
        other => panic!("unexpected {:?}", other),
    }
    assert_eq!(items[1], Ok(MAFItem::Comment("end".to_string())));
    assert_eq!(items[2], Err(ParseError::EndOfInput));
}

#[test]
fn block_at_end_of_stream_needs_no_blank_line() {
    let items = all_items("a\ns x 1 2 + 3 AC");
    assert_eq!(
        items[0],
        Ok(MAFItem::Block(Block {
            aline: "a".to_string(),
            sequences: vec![record("x", 1, 2, Strand::Forward, 3, "AC")],
        }))
    );
    assert_eq!(items[1], Err(ParseError::EndOfInput));
}

#[test]
fn empty_block() {
    let items = all_items("a score=0\n\na score=1\n");
    assert_eq!(
        items[0],
        Ok(MAFItem::Block(Block { aline: "a score=0".to_string(), sequences: vec![] }))
    );
    assert_eq!(
        items[1],
        Ok(MAFItem::Block(Block { aline: "a score=1".to_string(), sequences: vec![] }))
    );
}

#[test]
fn decode_round_trip() {
    let mut out = Vec::new();
    let r = update_from_s_line(&tokens(&["chr1", "100", "50", "+", "1000", "ACGT--GT"]), &mut out);
    assert_eq!(r, Ok(()));
    assert_eq!(out, vec![record("chr1", 100, 50, Strand::Forward, 1000, "ACGT--GT")]);
}

#[test]
fn decode_appends_in_order() {
    let mut out = vec![record("a", 0, 0, Strand::Forward, 0, "-")];
    update_from_s_line(&tokens(&["b", "1", "1", "-", "2", "G"]), &mut out).unwrap();
    assert_eq!(out.len(), 2);
    assert_eq!(out[1], record("b", 1, 1, Strand::Reverse, 2, "G"));
}

#[test]
fn strand_is_strict() {
    assert_eq!(parse_strand("+"), Ok(Strand::Forward));
    assert_eq!(parse_strand("-"), Ok(Strand::Reverse));
    assert_eq!(parse_strand("++"), Err(ParseError::InvalidStrand));
    assert_eq!(parse_strand(""), Err(ParseError::InvalidStrand));
    assert_eq!(parse_strand("0"), Err(ParseError::InvalidStrand));
}

#[test]
fn five_fields_is_incomplete() {
    let mut out = Vec::new();
    let r = update_from_s_line(&tokens(&["0", "4", "+", "10", "ACGT"]), &mut out);
    assert_eq!(r, Err(ParseError::IncompleteLine));
    assert!(out.is_empty());
    let items = all_items("a\ns 0 4 + 10 ACGT\n");
    assert_eq!(items[0], Err(ParseError::IncompleteLine));
}

#[test]
fn missing_residues_is_incomplete() {
    let mut out = Vec::new();
    let r = update_from_s_line(&tokens(&["chr1", "0", "4", "+", "10"]), &mut out);
    assert_eq!(r, Err(ParseError::IncompleteLine));
    assert!(out.is_empty());
    let items = all_items("a\ns chr1 0 4 + 10\n");
    assert_eq!(items[0], Err(ParseError::IncompleteLine));
    let mut out = Vec::new();
    let r = update_from_s_line(&tokens(&["x", "y", "z"]), &mut out);
    assert_eq!(r, Err(ParseError::IncompleteLine));
}

#[test]
fn no_fields_is_incomplete() {
    let items = all_items("a\ns\n");
    assert_eq!(items[0], Err(ParseError::IncompleteLine));
}

#[test]
fn field_errors() {
    let mut out = Vec::new();
    assert_eq!(
        update_from_s_line(&tokens(&["n", "x", "4", "+", "10", "ACGT"]), &mut out),
        Err(ParseError::InvalidStart)
    );
    assert_eq!(
        update_from_s_line(&tokens(&["n", "0", "-4", "+", "10", "ACGT"]), &mut out),
        Err(ParseError::InvalidAlignedLength)
    );
    assert_eq!(
        update_from_s_line(&tokens(&["n", "0", "4", "*", "10", "ACGT"]), &mut out),
        Err(ParseError::InvalidStrand)
    );
    assert_eq!(
        update_from_s_line(&tokens(&["n", "0", "4", "+", "", "ACGT"]), &mut out),
        Err(ParseError::InvalidSequenceLength)
    );
    assert_eq!(
        update_from_s_line(&tokens(&["n", "18446744073709551616", "4", "+", "10", "A"]), &mut out),
        Err(ParseError::InvalidStart)
    );
    assert!(out.is_empty());
}

#[test]
fn numbers_at_the_limits() {
    let mut out = Vec::new();
    update_from_s_line(&tokens(&["n", "18446744073709551615", "+7", "-", "0", "A"]), &mut out).unwrap();
    assert_eq!(out[0].start, u64::MAX);
    assert_eq!(out[0].alignsize, 7);
    assert_eq!(out[0].seqsize, 0);
}

#[test]
fn fields_are_read_from_the_end() {
    let mut out = Vec::new();
    update_from_s_line(&tokens(&["extra", "chr2", "5", "6", "+", "7", "AC"]), &mut out).unwrap();
    assert_eq!(out[0], record("chr2", 5, 6, Strand::Forward, 7, "AC"));
}

#[test]
fn residues_are_kept_as_bytes() {
    let mut out = Vec::new();
    update_from_s_line(&tokens(&["n", "0", "1", "+", "1", "aé*"]), &mut out).unwrap();
    assert_eq!(out[0].alignment, vec![b'a', 0xc3, 0xa9, b'*']);
}

#[test]
fn unknown_body_line_fails_block() {
    let raw = reads("a\ns a 0 1 + 1 A\nq foo bar\ns b 0 1 + 1 A\n\n");
    let mut lines = LinesRef::new(&raw, false);
    assert_eq!(get_maf_item(&mut lines), Err(ParseError::BadLineType("q".to_string())));
    assert_eq!(lines.next(), Some(Ok("s b 0 1 + 1 A".to_string())));
}

#[test]
fn whitespace_line_ends_block() {
    let items = all_items("a x\ns chr1 0 4 + 10 ACGT\n  \t\n#after\n");
    assert_eq!(
        items[0],
        Ok(MAFItem::Block(Block {
            aline: "a x".to_string(),
            sequences: vec![record("chr1", 0, 4, Strand::Forward, 10, "ACGT")],
        }))
    );
    assert_eq!(items[1], Ok(MAFItem::Comment("after".to_string())));
}

#[test]
fn stray_top_level_line() {
    let raw = reads("x foo\n#next\n");
    let mut lines = LinesRef::new(&raw, false);
    assert_eq!(get_maf_item(&mut lines), Err(ParseError::UnexpectedLine("x foo".to_string())));
    assert_eq!(get_maf_item(&mut lines), Ok(MAFItem::Comment("next".to_string())));
}

#[test]
fn end_to_end_block() {
    let raw = reads("a score=5\ns chr1 0 4 + 10 ACGT\n\n");
    let mut lines = LinesRef::new(&raw, false);
    assert_eq!(
        get_maf_item(&mut lines),
        Ok(MAFItem::Block(Block {
            aline: "a score=5".to_string(),
            sequences: vec![record("chr1", 0, 4, Strand::Forward, 10, "ACGT")],
        }))
    );
    assert_eq!(get_maf_item(&mut lines), Err(ParseError::EndOfInput));
}

#[test]
fn reparsing_gives_the_same_items() {
    let text = "#c\na s=1\ns x 0 1 + 1 A\n\nz\n";
    let first = all_items(text);
    let second = all_items(text);
    assert_eq!(first, second);
    assert_eq!(first.len(), 3);
}

#[test]
fn crlf_line_endings() {
    let items = all_items("#hi\r\na\r\ns x 0 1 + 1 A\r\n\r\n");
    assert_eq!(items[0], Ok(MAFItem::Comment("hi".to_string())));
    assert_eq!(
        items[1],
        Ok(MAFItem::Block(Block {
            aline: "a".to_string(),
            sequences: vec![record("x", 0, 1, Strand::Forward, 1, "A")],
        }))
    );
}

#[test]
fn lone_carriage_return_is_kept() {
    let raw = reads("abc\r");
    let mut lines = LinesRef::new(&raw, false);
    assert_eq!(lines.next(), Some(Ok("abc\r".to_string())));
    assert_eq!(lines.next(), None);
}

#[test]
fn read_failure_is_reported_once() {
    let raw = reads("#c\n");
    let mut lines = LinesRef::new(&raw, true);
    assert_eq!(get_maf_item(&mut lines), Ok(MAFItem::Comment("c".to_string())));
    assert_eq!(get_maf_item(&mut lines), Err(ParseError::IOFailure));
    assert_eq!(get_maf_item(&mut lines), Err(ParseError::EndOfInput));
}

#[test]
fn read_failure_inside_block() {
    let raw = reads("a\ns x 0 1 + 1 A\n");
    let mut lines = LinesRef::new(&raw, true);
    assert_eq!(get_maf_item(&mut lines), Err(ParseError::IOFailure));
}

#[test]
fn empty_input_is_end() {
    let raw: Vec<String> = Vec::new();
    let mut lines = LinesRef::new(&raw, false);
    assert_eq!(get_maf_item(&mut lines), Err(ParseError::EndOfInput));
}
