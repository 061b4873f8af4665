//! Re-emitting the trace events of cells on the host: span ids for the
//! cells' spans, and the text and level of each forwarded event.

use vstd::prelude::*;
use crate::logging::Level;
use crate::text::{append_chars, append_str, chars_to_string, eq_str, join, join_chars, str_chars};

verus! {

/// A field of a cell's trace event.
#[derive(Clone, Debug)]
pub struct Field {
    pub name: String,
    pub value: String,
}

/// A trace event of a cell.
#[derive(Clone, Debug)]
pub struct EventMeta {
    /// `ERROR`, `WARN`, `INFO`, `DEBUG` or `TRACE`
    pub level: String,
    pub target: String,
    pub message: String,
    pub fields: Vec<Field>,
}

/// Forwards the trace events of cells to the host's subscriber.
#[derive(Clone, Debug)]
pub struct ForwardingTracingSink {
    next_span_id: u64,
}

impl View for ForwardingTracingSink {
    type V = u64;

    closed spec fn view(&self) -> u64 {
        self.next_span_id
    }
}

impl ForwardingTracingSink {
    /// A sink whose first span id is 1.
    pub fn new() -> (r: ForwardingTracingSink)
        ensures
            r@ == 1,
    {
        ForwardingTracingSink { next_span_id: 1 }
    }

    /// An id for a new span of a cell: the ids count up from 1 (wrapping
    /// around after the largest `u64`).
    pub fn new_span(&mut self) -> (r: u64)
        ensures
            r == old(self)@,
            final(self)@ == if old(self)@ == u64::MAX {
                0
            } else {
                (old(self)@ + 1) as u64
            },
    {
        let id = self.next_span_id;
        self.next_span_id = id.wrapping_add(1);
        id
    }
}

/// The fields other than `message`, as `name=value`.
pub open spec fn shown_fields(fields: Seq<Field>) -> Seq<Seq<char>>
    decreases fields.len(),
{
    if fields.len() == 0 {
        Seq::empty()
    } else {
        let rest = shown_fields(fields.drop_last());
        let f = fields.last();
        if f.name@ == "message"@ {
            rest
        } else {
            rest.push(f.name@ + seq!['='] + f.value@)
        }
    }
}

/// Formats the fields for display: `name=value` pairs separated by spaces,
/// the `message` field left out.
pub fn format_fields(fields: &Vec<Field>) -> (r: String)
    ensures
        r@ == join(shown_fields(fields@), seq![' ']),
{
    let mut parts: Vec<Vec<char>> = Vec::new();
    let mut i: usize = 0;
    while i < fields.len()
        invariant
            i <= fields.len(),
            parts@.map_values(|p: Vec<char>| p@) == shown_fields(fields@.take(i as int)),
        decreases fields.len() - i,
    {
        proof {
            assert(fields@.take(i + 1).drop_last() =~= fields@.take(i as int));
        }
        let name = str_chars(fields[i].name.as_str());
        if !eq_str(&name, "message") {
            let mut p = name;
            p.push('=');
            append_str(&mut p, fields[i].value.as_str());
            let ghost before = parts@;
            let ghost pv = p@;
            assert(pv == fields@[i as int].name@ + seq!['='] + fields@[i as int].value@);
            parts.push(p);
            proof {
                assert(parts@.map_values(|p: Vec<char>| p@) =~= before.map_values(
                    |p: Vec<char>| p@,
                ).push(fields@[i as int].name@ + seq!['='] + fields@[i as int].value@));
            }
        }
        i += 1;
    }
    proof {
        assert(fields@.take(fields@.len() as int) =~= fields@);
    }
    let sep: Vec<char> = vec![' '];
    assert(sep@ =~= seq![' ']);
    let joined = join_chars(&parts, &sep);
    chars_to_string(&joined)
}

/// The level an event is re-emitted at (unknown levels as info).
pub open spec fn forwarded_level(level: Seq<char>) -> Level {
    if level == "ERROR"@ {
        Level::Error
    } else if level == "WARN"@ {
        Level::Warn
    } else if level == "INFO"@ {
        Level::Info
    } else if level == "DEBUG"@ {
        Level::Debug
    } else if level == "TRACE"@ {
        Level::Trace
    } else {
        Level::Info
    }
}

/// The text an event is re-emitted with: `[target] message`, followed by
/// its fields when it has any to show.
pub open spec fn forwarded_text(e: EventMeta) -> Seq<char> {
    let fields = join(shown_fields(e.fields@), seq![' ']);
    let msg = if fields.len() == 0 {
        e.message@
    } else {
        e.message@ + seq![' '] + fields
    };
    seq!['['] + e.target@ + "] "@ + msg
}

/// The level and text with which the host re-emits a cell's event (under
/// the target `cell`).
pub fn forwarded_event(event: &EventMeta) -> (r: (Level, String))
    ensures
        r.0 == forwarded_level(event.level@),
        r.1@ == forwarded_text(*event),
{
    let fields = format_fields(&event.fields);
    let f = str_chars(fields.as_str());
    let mut text: Vec<char> = vec!['['];
    append_str(&mut text, event.target.as_str());
    append_str(&mut text, "] ");
    append_str(&mut text, event.message.as_str());
    if f.len() > 0 {
        text.push(' ');
        append_chars(&mut text, &f);
    }
    let l = str_chars(event.level.as_str());
    let level = if eq_str(&l, "ERROR") {
        Level::Error
    } else if eq_str(&l, "WARN") {
        Level::Warn
    } else if eq_str(&l, "INFO") {
        Level::Info
    } else if eq_str(&l, "DEBUG") {
        Level::Debug
    } else if eq_str(&l, "TRACE") {
        Level::Trace
    } else {
        Level::Info
    };
    assert(text@ =~= forwarded_text(*event));
    (level, chars_to_string(&text))
}

} // verus!
