//! A named, immutable source buffer with precomputed line spans.

use vstd::prelude::*;

use crate::location::Location;

verus! {

/// The half-open byte span of one line, with its terminator.
#[derive(Debug, Clone, Copy, PartialEq, Eq, Structural)]
pub struct Line {
    pub start: usize,
    pub end: usize,
}

/// A source buffer together with its name and the spans of its lines. An
/// empty buffer still has one (empty) line.
#[derive(Debug, Clone, PartialEq)]
pub struct SourceUnit {
    pub name: String,
    pub data: Vec<u8>,
    pub lines: Vec<Line>,
}

/// The line spans of `data` from scan position `idx`, where the pending line
/// began at `start`. A line ends after a line feed or after a carriage
/// return followed by a line feed; the last line ends at the end of the
/// buffer.
pub open spec fn line_spans_from(data: Seq<u8>, start: nat, idx: nat) -> Seq<Line>
    decreases data.len() - idx,
{
    if idx >= data.len() {
        seq![Line { start: start as usize, end: idx as usize }]
    } else if data[idx as int] == 10 {
        seq![Line { start: start as usize, end: (idx + 1) as usize }] + line_spans_from(
            data,
            idx + 1,
            idx + 1,
        )
    } else if data[idx as int] == 13 && idx + 1 < data.len() && data[idx as int + 1] == 10 {
        seq![Line { start: start as usize, end: (idx + 2) as usize }] + line_spans_from(
            data,
            idx + 2,
            idx + 2,
        )
    } else {
        line_spans_from(data, start, idx + 1)
    }
}

/// The line spans of a whole buffer.
pub open spec fn line_spans(data: Seq<u8>) -> Seq<Line> {
    line_spans_from(data, 0, 0)
}

/// The index of the first line span containing byte position `pos`, if any.
pub open spec fn spec_find_line(lines: Seq<Line>, pos: int) -> Option<int>
    decreases lines.len(),
{
    if lines.len() == 0 {
        None
    } else if lines[0].start <= pos < lines[0].end {
        Some(0int)
    } else {
        match spec_find_line(lines.drop_first(), pos) {
            Some(i) => Some(i + 1),
            None => None,
        }
    }
}

/// Every byte position inside the buffer falls in some line span.
pub proof fn lemma_line_spans_cover(data: Seq<u8>, start: nat, idx: nat, pos: int)
    requires
        idx <= data.len(),
        start <= pos < data.len(),
        data.len() <= usize::MAX,
    ensures
        spec_find_line(line_spans_from(data, start, idx), pos) is Some,
    decreases data.len() - idx,
{
    let spans = line_spans_from(data, start, idx);
    if idx >= data.len() {
        assert(spans[0] == (Line { start: start as usize, end: idx as usize }));
    } else if data[idx as int] == 10 {
        assert(spans[0] == (Line { start: start as usize, end: (idx + 1) as usize }));
        if pos >= idx + 1 {
            lemma_line_spans_cover(data, idx + 1, idx + 1, pos);
            assert(spans.drop_first() =~= line_spans_from(data, idx + 1, idx + 1));
        }
    } else if data[idx as int] == 13 && idx + 1 < data.len() && data[idx as int + 1] == 10 {
        assert(spans[0] == (Line { start: start as usize, end: (idx + 2) as usize }));
        if pos >= idx + 2 {
            lemma_line_spans_cover(data, idx + 2, idx + 2, pos);
            assert(spans.drop_first() =~= line_spans_from(data, idx + 2, idx + 2));
        }
    } else {
        lemma_line_spans_cover(data, start, idx + 1, pos);
    }
}

impl SourceUnit {
    /// A source unit whose line spans agree with its buffer, as `new`
    /// computes them.
    pub open spec fn wf(self) -> bool {
        self.lines@ == line_spans(self.data@)
    }

    /// Wraps a buffer and computes its line spans.
    pub fn new(name: String, data: Vec<u8>) -> (r: Self)
        ensures
            r.name == name,
            r.data == data,
            r.lines@ == line_spans(data@),
            r.wf(),
    {
        let mut lines: Vec<Line> = Vec::new();
        let mut idx: usize = 0;
        let mut start: usize = 0;
        while idx < data.len()
            invariant
                start <= idx <= data@.len(),
                lines@ + line_spans_from(data@, start as nat, idx as nat) == line_spans(data@),
            decreases data@.len() - idx,
        {
            let byte = data[idx];
            if byte == 10 {
                lines.push(Line { start, end: idx + 1 });
                start = idx + 1;
            } else if byte == 13 && idx + 1 < data.len() && data[idx + 1] == 10 {
                lines.push(Line { start, end: idx + 2 });
                start = idx + 2;
                idx += 1;
            }
            idx += 1;
        }
        lines.push(Line { start, end: idx });
        SourceUnit { name, data, lines }
    }

    /// Wraps a buffer under the anonymous name.
    pub fn new_anonymous(data: Vec<u8>) -> (r: Self)
        ensures
            r.name@ == "<anonymous>"@,
            r.data == data,
            r.lines@ == line_spans(data@),
            r.wf(),
    {
        Self::new("<anonymous>".to_owned(), data)
    }

    pub fn name(&self) -> (r: &str)
        ensures
            r@ == self.name@,
    {
        self.name.as_str()
    }

    pub fn data(&self) -> (r: &[u8])
        ensures
            r@ == self.data@,
    {
        self.data.as_slice()
    }

    pub fn lines_count(&self) -> (r: usize)
        ensures
            r == self.lines@.len(),
    {
        self.lines.len()
    }

    /// The line, column and offset of byte `position`, or None when the
    /// position lies past the last line.
    pub fn find_location(&self, position: usize) -> (r: Option<Location>)
        ensures
            match spec_find_line(self.lines@, position as int) {
                Some(i) => r == Some(
                    Location {
                        line: (i + 1) as usize,
                        column: (position - self.lines@[i].start + 1) as usize,
                        offset: position,
                    },
                ),
                None => r is None,
            },
    {
        let n = self.lines.len();
        let mut idx: usize = 0;
        proof {
            assert(self.lines@.skip(0) =~= self.lines@);
        }
        while idx < n
            invariant
                idx <= n == self.lines@.len(),
                spec_find_line(self.lines@, position as int) == match spec_find_line(
                    self.lines@.skip(idx as int),
                    position as int,
                ) {
                    Some(i) => Some(i + idx),
                    None => None::<int>,
                },
            decreases n - idx,
        {
            let line = self.lines[idx];
            proof {
                assert(self.lines@.skip(idx as int)[0] == self.lines@[idx as int]);
                assert(self.lines@.skip(idx as int).drop_first() =~= self.lines@.skip(
                    idx as int + 1,
                ));
            }
            if line.start <= position && position < line.end {
                return Some(
                    Location { line: idx + 1, column: position - line.start + 1, offset: position },
                );
            }
            idx += 1;
        }
        None
    }
}

} // verus!
