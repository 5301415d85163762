//! The side channels of the back-end with local models: the progress of a
//! download and the text of a completion, each a body of lines of JSON.
use super::client::{generated_of_line, progress_of_line, OllamaClient, PullProgressView};
use crate::framing::{carry_of, frames_of, line_separator, FrameDecoder, FrameDecoderView};
use crate::types::PullProgress;
use vstd::prelude::*;

verus! {

/// What the first `upto` lines of the download channel report, in order.
/// An empty line reports nothing.
pub open spec fn progress_upto(lines: Seq<Seq<u8>>, upto: int) -> Seq<PullProgressView>
    decreases upto,
{
    if upto <= 0 || upto > lines.len() {
        Seq::empty()
    } else if lines[upto - 1].len() == 0 {
        progress_upto(lines, upto - 1)
    } else {
        progress_upto(lines, upto - 1).push(progress_of_line(lines[upto - 1]))
    }
}

/// What the lines of the download channel report.
pub open spec fn progress_of_lines(lines: Seq<Seq<u8>>) -> Seq<PullProgressView> {
    progress_upto(lines, lines.len() as int)
}

/// What the first `upto` lines of the completion channel give, in order.
/// An empty line gives nothing.
pub open spec fn generated_upto(lines: Seq<Seq<u8>>, upto: int) -> Seq<
    Result<Seq<char>, Seq<char>>,
>
    decreases upto,
{
    if upto <= 0 || upto > lines.len() {
        Seq::empty()
    } else if lines[upto - 1].len() == 0 {
        generated_upto(lines, upto - 1)
    } else {
        match generated_of_line(lines[upto - 1]) {
            Some(result) => generated_upto(lines, upto - 1).push(result),
            None => generated_upto(lines, upto - 1),
        }
    }
}

/// What the lines of the completion channel give.
pub open spec fn generated_of_lines(lines: Seq<Seq<u8>>) -> Seq<Result<Seq<char>, Seq<char>>> {
    generated_upto(lines, lines.len() as int)
}

/// A text or an error, as contracts see it.
pub open spec fn result_view(result: Result<String, String>) -> Result<Seq<char>, Seq<char>> {
    match result {
        Ok(text) => Ok(text@),
        Err(message) => Err(message@),
    }
}

/// Texts and errors, as contracts see them.
pub open spec fn results_view(results: Seq<Result<String, String>>) -> Seq<
    Result<Seq<char>, Seq<char>>,
> {
    Seq::new(results.len(), |i: int| result_view(results[i]))
}

/// The last line of a body, which needs no newline behind it: what was
/// carried over, unless that is nothing.
pub open spec fn last_lines(carry: Seq<u8>) -> Seq<Seq<u8>> {
    if carry.len() > 0 {
        seq![carry]
    } else {
        Seq::empty()
    }
}

fn read_progress(lines: &Vec<Vec<u8>>) -> (reports: Vec<PullProgress>)
    ensures
        reports.deep_view() == progress_of_lines(lines.deep_view()),
{
    let mut reports: Vec<PullProgress> = Vec::new();
    let mut i: usize = 0;
    assert(reports.deep_view() =~= Seq::<PullProgressView>::empty());
    while i < lines.len()
        invariant
            i <= lines.len(),
            reports.deep_view() == progress_upto(lines.deep_view(), i as int),
        decreases lines.len() - i,
    {
        assert(lines.deep_view()[i as int] =~= lines@[i as int]@);
        if lines[i].len() > 0 {
            let ghost so_far = reports.deep_view();
            let report = OllamaClient::parse_pull_progress(lines[i].as_slice());
            reports.push(report);
            assert(reports.deep_view() =~= so_far.push(report@));
        }
        i += 1;
    }
    reports
}

fn read_generated(lines: &Vec<Vec<u8>>) -> (results: Vec<Result<String, String>>)
    ensures
        results_view(results@) == generated_of_lines(lines.deep_view()),
{
    let mut results: Vec<Result<String, String>> = Vec::new();
    let mut i: usize = 0;
    assert(results_view(results@) =~= Seq::<Result<Seq<char>, Seq<char>>>::empty());
    while i < lines.len()
        invariant
            i <= lines.len(),
            results_view(results@) == generated_upto(lines.deep_view(), i as int),
        decreases lines.len() - i,
    {
        assert(lines.deep_view()[i as int] =~= lines@[i as int]@);
        if lines[i].len() > 0 {
            let ghost so_far = results_view(results@);
            match OllamaClient::parse_generate_line(lines[i].as_slice()) {
                Some(result) => {
                    results.push(result);
                    assert(results_view(results@) =~= so_far.push(result_view(result)));
                },
                None => {},
            }
        }
        i += 1;
    }
    results
}

fn one_line(rest: Vec<u8>) -> (lines: Vec<Vec<u8>>)
    ensures
        lines.deep_view() == last_lines(rest@),
{
    let mut lines: Vec<Vec<u8>> = Vec::new();
    if rest.len() > 0 {
        let ghost bytes = rest@;
        assert(rest.deep_view() =~= bytes);
        lines.push(rest);
        assert(lines.deep_view() =~= seq![bytes]);
    } else {
        assert(lines.deep_view() =~= Seq::<Seq<u8>>::empty());
    }
    lines
}

/// Reads the download channel.
pub struct PullProgressReader {
    decoder: FrameDecoder,
}

impl View for PullProgressReader {
    type V = FrameDecoderView;

    /// The separator of lines, and the bytes of the trailing line that is
    /// not complete yet.
    closed spec fn view(&self) -> FrameDecoderView {
        self.decoder@
    }
}

impl PullProgressReader {
    /// A reader at the start of a body.
    pub fn new() -> (reader: Self)
        ensures
            reader@.separator == line_separator(),
            reader@.carry == Seq::<u8>::empty(),
    {
        Self { decoder: FrameDecoder::line_delimited() }
    }

    /// Takes the next chunk of the body and returns what the lines that it
    /// completes report, in order.
    pub fn push_chunk(&mut self, chunk: &[u8]) -> (reports: Vec<PullProgress>)
        ensures
            reports.deep_view() == progress_of_lines(
                frames_of(old(self)@.separator, old(self)@.carry + chunk@),
            ),
            final(self)@.separator == old(self)@.separator,
            final(self)@.carry == carry_of(old(self)@.separator, old(self)@.carry + chunk@),
    {
        let lines = self.decoder.push(chunk);
        read_progress(&lines)
    }

    /// Ends the body: what was carried over is read as the last line.
    pub fn finish(&mut self) -> (reports: Vec<PullProgress>)
        ensures
            reports.deep_view() == progress_of_lines(last_lines(old(self)@.carry)),
            final(self)@.separator == old(self)@.separator,
            final(self)@.carry == Seq::<u8>::empty(),
    {
        let lines = one_line(self.decoder.take_rest());
        read_progress(&lines)
    }
}

/// Reads the completion channel.
pub struct GenerateReader {
    decoder: FrameDecoder,
}

impl View for GenerateReader {
    type V = FrameDecoderView;

    /// The separator of lines, and the bytes of the trailing line that is
    /// not complete yet.
    closed spec fn view(&self) -> FrameDecoderView {
        self.decoder@
    }
}

impl GenerateReader {
    /// A reader at the start of a body.
    pub fn new() -> (reader: Self)
        ensures
            reader@.separator == line_separator(),
            reader@.carry == Seq::<u8>::empty(),
    {
        Self { decoder: FrameDecoder::line_delimited() }
    }

    /// Takes the next chunk of the body and returns what the lines that it
    /// completes give, in order.
    pub fn push_chunk(&mut self, chunk: &[u8]) -> (results: Vec<Result<String, String>>)
        ensures
            results_view(results@) == generated_of_lines(
                frames_of(old(self)@.separator, old(self)@.carry + chunk@),
            ),
            final(self)@.separator == old(self)@.separator,
            final(self)@.carry == carry_of(old(self)@.separator, old(self)@.carry + chunk@),
    {
        let lines = self.decoder.push(chunk);
        read_generated(&lines)
    }

    /// Ends the body: what was carried over is read as the last line.
    pub fn finish(&mut self) -> (results: Vec<Result<String, String>>)
        ensures
            results_view(results@) == generated_of_lines(last_lines(old(self)@.carry)),
            final(self)@.separator == old(self)@.separator,
            final(self)@.carry == Seq::<u8>::empty(),
    {
        let lines = one_line(self.decoder.take_rest());
        read_generated(&lines)
    }
}

} // verus!
