use vstd::prelude::*;

use crate::body::BodySource;
use crate::body::ReadOutcome;
use crate::header::parse;
use crate::header::parse_spec;
use crate::response::HeaderEntry;
use crate::response::ResponseBuilder;
use crate::response::add_header_model;
use crate::response::lemma_add_header_values;
use crate::response::lemma_add_header_wf;
use crate::response::unique_names;
use crate::response::values_of;

verus! {

/// Reserved answer of the outbound-body callback that tells the engine
/// to cancel the transfer now; distinct from every valid byte count a
/// callback buffer can hold.
pub const READ_ABORT: usize = 0x1000_0000;

/// Maps one body-source outcome to the callback's answer: the bytes to
/// hand the engine and the count to report. Bytes answer their own
/// count, end of stream answers zero, and any other failure answers
/// the abort sentinel.
pub fn map_read_outcome(outcome: ReadOutcome, max: usize) -> (r: (Vec<u8>, usize))
    requires
        outcome matches ReadOutcome::Data(d) ==> d@.len() <= max,
    ensures
        outcome matches ReadOutcome::Data(d) ==> r.0@ == d@ && r.1 == d@.len(),
        outcome is Eof ==> r.0@ == Seq::<u8>::empty() && r.1 == 0,
        outcome is Failed ==> r.0@ == Seq::<u8>::empty() && r.1 == READ_ABORT,
{
    match outcome {
        ReadOutcome::Data(d) => {
            let len = d.len();
            (d, len)
        },
        ReadOutcome::Eof => (Vec::new(), 0),
        ReadOutcome::Failed => (Vec::new(), READ_ABORT),
    }
}

/// One invocation of the outbound-body callback with a live source:
/// pulls at most `max` bytes and answers the engine. Whatever the
/// source reported, the answer is the abort sentinel with no bytes, or
/// exactly the pulled bytes with their own count.
pub fn read_bridge_step<B: BodySource>(body: &mut B, max: usize) -> (r: (Vec<u8>, usize))
    ensures
        r.0@.len() <= max,
        r.1 == r.0@.len() || (r.1 == READ_ABORT && r.0@.len() == 0),
{
    let outcome = body.pull(max);
    map_read_outcome(outcome, max)
}

/// One invocation of the inbound-body callback: the chunk's bytes join
/// the body verbatim, and the full chunk length is reported as
/// consumed.
pub fn write_bridge_step(builder: &mut ResponseBuilder, chunk: &Vec<u8>) -> (r: usize)
    requires
        old(builder).wf(),
    ensures
        final(builder).wf(),
        final(builder).code == old(builder).code,
        final(builder).hdrs@ == old(builder).hdrs@,
        final(builder).body@ == old(builder).body@ + chunk@,
        r == chunk@.len(),
{
    builder.append_body(chunk);
    chunk.len()
}

/// One invocation of the inbound-header callback: a line that parses
/// to a name and a value is recorded, any other line is ignored, and
/// the full line length is reported as consumed either way.
pub fn header_bridge_step(builder: &mut ResponseBuilder, line: &Vec<u8>) -> (r: usize)
    requires
        old(builder).wf(),
    ensures
        final(builder).wf(),
        final(builder).code == old(builder).code,
        final(builder).body@ == old(builder).body@,
        parse_spec(line@) matches Some(p) ==> final(builder).hdrs_view() == add_header_model(
            old(builder).hdrs_view(),
            p.0,
            p.1,
        ),
        parse_spec(line@) is None ==> final(builder).hdrs@ == old(builder).hdrs@,
        r == line@.len(),
{
    match parse(line) {
        Some(pair) => {
            builder.add_header(pair.0.as_str(), pair.1.as_str());
        },
        None => {},
    }
    line.len()
}

/// Concatenation of byte chunks in call order.
pub open spec fn concat_chunks(chunks: Seq<Seq<u8>>) -> Seq<u8>
    decreases chunks.len(),
{
    if chunks.len() == 0 {
        Seq::empty()
    } else {
        concat_chunks(chunks.drop_last()) + chunks.last()
    }
}

/// The body bytes after a run of inbound-body callbacks, each chunk
/// appended as `write_bridge_step` ensures.
pub open spec fn body_after_writes(init: Seq<u8>, chunks: Seq<Seq<u8>>) -> Seq<u8>
    decreases chunks.len(),
{
    if chunks.len() == 0 {
        init
    } else {
        body_after_writes(init, chunks.drop_last()) + chunks.last()
    }
}

/// Law: over any run of inbound-body callbacks, the accumulated body
/// is exactly the concatenation of the chunks in call order.
pub proof fn lemma_body_is_concat(init: Seq<u8>, chunks: Seq<Seq<u8>>)
    ensures
        body_after_writes(init, chunks) == init + concat_chunks(chunks),
    decreases chunks.len(),
{
    if chunks.len() == 0 {
        assert(init + concat_chunks(chunks) =~= init);
    } else {
        lemma_body_is_concat(init, chunks.drop_last());
        assert((init + concat_chunks(chunks.drop_last())) + chunks.last() =~= init + (
        concat_chunks(chunks.drop_last()) + chunks.last()));
    }
}

/// The header table after a run of inbound-header callbacks with the
/// given raw lines, each handled as `header_bridge_step` ensures.
pub open spec fn hdrs_after_lines(h: Seq<HeaderEntry>, lines: Seq<Seq<u8>>) -> Seq<HeaderEntry>
    decreases lines.len(),
{
    if lines.len() == 0 {
        h
    } else {
        let prev = hdrs_after_lines(h, lines.drop_last());
        match parse_spec(lines.last()) {
            Some(p) => add_header_model(prev, p.0, p.1),
            None => prev,
        }
    }
}

/// The values a run of raw header lines contributes under `name`, in
/// arrival order; lines that do not parse contribute nothing.
pub open spec fn parsed_values_for(lines: Seq<Seq<u8>>, name: Seq<char>) -> Seq<Seq<char>>
    decreases lines.len(),
{
    if lines.len() == 0 {
        Seq::empty()
    } else {
        let prev = parsed_values_for(lines.drop_last(), name);
        match parse_spec(lines.last()) {
            Some(p) => if p.0 == name {
                prev.push(p.1)
            } else {
                prev
            },
            None => prev,
        }
    }
}

/// Law: over any run of inbound-header callbacks, each name
/// accumulates exactly the values parsed for it, in call order, under
/// one entry; lines that do not parse leave the table untouched.
pub proof fn lemma_headers_accumulate(
    h: Seq<HeaderEntry>,
    lines: Seq<Seq<u8>>,
    name: Seq<char>,
)
    requires
        unique_names(h),
    ensures
        unique_names(hdrs_after_lines(h, lines)),
        values_of(hdrs_after_lines(h, lines), name) == values_of(h, name)
            + parsed_values_for(lines, name),
    decreases lines.len(),
{
    if lines.len() == 0 {
        assert(values_of(h, name) + parsed_values_for(lines, name) =~= values_of(h, name));
    } else {
        lemma_headers_accumulate(h, lines.drop_last(), name);
        let prev = hdrs_after_lines(h, lines.drop_last());
        match parse_spec(lines.last()) {
            Some(p) => {
                lemma_add_header_wf(prev, p.0, p.1);
                lemma_add_header_values(prev, p.0, p.1, name);
                if p.0 == name {
                    assert((values_of(h, name) + parsed_values_for(lines.drop_last(), name)).push(
                        p.1,
                    ) =~= values_of(h, name) + parsed_values_for(lines.drop_last(), name).push(
                        p.1,
                    ));
                }
            },
            None => {},
        }
    }
}

} // verus!
