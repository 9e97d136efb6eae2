use vstd::prelude::*;

verus! {

/// Orientation of an aligned sequence relative to its source.
#[derive(Clone, Copy, Debug, PartialEq, Eq)]
pub enum Strand {
    Forward,
    Reverse,
}

/// One `s` line of a block: where the aligned text comes from and the text itself.
#[derive(Debug, PartialEq, Eq)]
pub struct BlockSequence {
    pub seqname: String,
    /// 0-based offset of the aligned region in the source sequence.
    pub start: u64,
    /// Number of non-gap residues in the aligned region.
    pub alignsize: u64,
    pub strand: Strand,
    /// Length of the whole source sequence.
    pub seqsize: u64,
    /// The aligned residues and gaps, as the bytes of the line.
    pub alignment: Vec<u8>,
}

/// An alignment block: its header line, kept verbatim with its leading `a`,
/// and its sequences in input order.
#[derive(Debug, PartialEq, Eq)]
pub struct Block {
    pub aline: String,
    pub sequences: Vec<BlockSequence>,
}

/// What one successful parse step yields.
#[derive(Debug, PartialEq, Eq)]
pub enum MAFItem {
    Block(Block),
    /// The text of a comment line after its `#`.
    Comment(String),
}

#[derive(Debug, PartialEq, Eq)]
pub enum ParseError {
    /// Reading the underlying stream failed.
    IOFailure,
    /// A non-blank line that is neither a comment nor a block header, where an
    /// item was to start.
    UnexpectedLine(String),
    /// The first token of a body line inside a block is not `s`.
    BadLineType(String),
    /// An `s` line with fewer than six fields after its marker.
    IncompleteLine,
    InvalidStrand,
    InvalidStart,
    InvalidAlignedLength,
    InvalidSequenceLength,
    /// The stream ended before an item started.
    EndOfInput,
}

pub struct SequenceView {
    pub seqname: Seq<char>,
    pub start: u64,
    pub alignsize: u64,
    pub strand: Strand,
    pub seqsize: u64,
    pub alignment: Seq<u8>,
}

pub struct BlockView {
    pub aline: Seq<char>,
    pub sequences: Seq<SequenceView>,
}

pub enum ItemView {
    Block(BlockView),
    Comment(Seq<char>),
}

pub enum ErrorView {
    IOFailure,
    UnexpectedLine(Seq<char>),
    BadLineType(Seq<char>),
    IncompleteLine,
    InvalidStrand,
    InvalidStart,
    InvalidAlignedLength,
    InvalidSequenceLength,
    EndOfInput,
}

impl View for BlockSequence {
    type V = SequenceView;

    open spec fn view(&self) -> SequenceView {
        SequenceView {
            seqname: self.seqname@,
            start: self.start,
            alignsize: self.alignsize,
            strand: self.strand,
            seqsize: self.seqsize,
            alignment: self.alignment@,
        }
    }
}

pub open spec fn sequences_view(v: Seq<BlockSequence>) -> Seq<SequenceView> {
    v.map_values(|b: BlockSequence| b@)
}

impl View for Block {
    type V = BlockView;

    open spec fn view(&self) -> BlockView {
        BlockView { aline: self.aline@, sequences: sequences_view(self.sequences@) }
    }
}

impl View for MAFItem {
    type V = ItemView;

    open spec fn view(&self) -> ItemView {
        match self {
            MAFItem::Block(b) => ItemView::Block(b@),
            MAFItem::Comment(c) => ItemView::Comment(c@),
        }
    }
}

impl View for ParseError {
    type V = ErrorView;

    open spec fn view(&self) -> ErrorView {
        match self {
            ParseError::IOFailure => ErrorView::IOFailure,
            ParseError::UnexpectedLine(l) => ErrorView::UnexpectedLine(l@),
            ParseError::BadLineType(t) => ErrorView::BadLineType(t@),
            ParseError::IncompleteLine => ErrorView::IncompleteLine,
            ParseError::InvalidStrand => ErrorView::InvalidStrand,
            ParseError::InvalidStart => ErrorView::InvalidStart,
            ParseError::InvalidAlignedLength => ErrorView::InvalidAlignedLength,
            ParseError::InvalidSequenceLength => ErrorView::InvalidSequenceLength,
            ParseError::EndOfInput => ErrorView::EndOfInput,
        }
    }
}

/// The view of a parse result.
pub open spec fn result_view<T: View>(r: Result<T, ParseError>) -> Result<T::V, ErrorView> {
    match r {
        Ok(v) => Ok(v@),
        Err(e) => Err(e@),
    }
}

} // verus!
