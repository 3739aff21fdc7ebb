//! Streaming output lines for live runs: one line per fact as it is merged,
//! and a final status line, in a human-readable or a JSON-lines form. This
//! module renders the lines and counts the facts; writing them out is the
//! caller's business.

use vstd::prelude::*;
use vstd::string::StringExecFns;

use crate::evals::spec_bool_str;
use crate::facts::{ContextKey, Fact, FactModel};
use crate::text::{dec_str, push_decimal, str_to_chars};

verus! {

/// Output format for streaming.
#[derive(Debug, Clone, Copy, PartialEq, Eq, Structural)]
pub enum OutputFormat {
    /// Human-readable lines with cycle prefixes.
    Human,
    /// JSON lines, one object per line.
    Json,
}

/// The printed name of a category.
pub open spec fn spec_key_name(key: ContextKey) -> Seq<char> {
    match key {
        ContextKey::Seeds => "Seeds"@,
        ContextKey::Signals => "Signals"@,
        ContextKey::Competitors => "Competitors"@,
        ContextKey::Strategies => "Strategies"@,
        ContextKey::Evaluations => "Evaluations"@,
        ContextKey::Hypotheses => "Hypotheses"@,
        ContextKey::Constraints => "Constraints"@,
    }
}

/// Exec mirror of [`spec_key_name`].
pub fn key_name(key: ContextKey) -> (r: &'static str)
    ensures
        r@ == spec_key_name(key),
{
    match key {
        ContextKey::Seeds => "Seeds",
        ContextKey::Signals => "Signals",
        ContextKey::Competitors => "Competitors",
        ContextKey::Strategies => "Strategies",
        ContextKey::Evaluations => "Evaluations",
        ContextKey::Hypotheses => "Hypotheses",
        ContextKey::Constraints => "Constraints",
    }
}

/// The hexadecimal digit character for `d` (meaningful for `d < 16`).
pub open spec fn hex_digit(d: nat) -> char {
    if d < 10 {
        crate::text::digit_char(d)
    } else if d == 10 {
        'a'
    } else if d == 11 {
        'b'
    } else if d == 12 {
        'c'
    } else if d == 13 {
        'd'
    } else if d == 14 {
        'e'
    } else {
        'f'
    }
}

fn hex_char(d: u32) -> (c: char)
    requires
        d < 16,
    ensures
        c == hex_digit(d as nat),
{
    if d == 0 {
        '0'
    } else if d == 1 {
        '1'
    } else if d == 2 {
        '2'
    } else if d == 3 {
        '3'
    } else if d == 4 {
        '4'
    } else if d == 5 {
        '5'
    } else if d == 6 {
        '6'
    } else if d == 7 {
        '7'
    } else if d == 8 {
        '8'
    } else if d == 9 {
        '9'
    } else if d == 10 {
        'a'
    } else if d == 11 {
        'b'
    } else if d == 12 {
        'c'
    } else if d == 13 {
        'd'
    } else if d == 14 {
        'e'
    } else {
        'f'
    }
}

/// How one character renders inside a JSON string: quotes and backslashes
/// are escaped, the named control characters use their short escapes, other
/// control characters use `\u00..`, and everything else stands for itself.
pub open spec fn json_escaped_char(c: char) -> Seq<char> {
    if c == '"' {
        seq!['\\', '"']
    } else if c == '\\' {
        seq!['\\', '\\']
    } else if c == '\u{0008}' {
        seq!['\\', 'b']
    } else if c == '\t' {
        seq!['\\', 't']
    } else if c == '\n' {
        seq!['\\', 'n']
    } else if c == '\u{000C}' {
        seq!['\\', 'f']
    } else if c == '\r' {
        seq!['\\', 'r']
    } else if (c as u32) < 32 {
        seq!['\\', 'u', '0', '0', hex_digit((c as u32 / 16) as nat), hex_digit(
            (c as u32 % 16) as nat,
        )]
    } else {
        seq![c]
    }
}

/// A whole character sequence rendered inside a JSON string.
pub open spec fn json_escaped(s: Seq<char>) -> Seq<char>
    decreases s.len(),
{
    if s.len() == 0 {
        Seq::empty()
    } else {
        json_escaped(s.drop_last()) + json_escaped_char(s.last())
    }
}

/// Appends the JSON-escaped rendering of `s`.
fn push_json_escaped(out: &mut String, s: &str)
    ensures
        final (out)@ == old(out)@ + json_escaped(s@),
{
    let ghost orig = out@;
    let chars = str_to_chars(s);
    let mut i: usize = 0;
    proof {
        assert(chars@.take(0) =~= Seq::<char>::empty());
        assert(out@ =~= orig + json_escaped(chars@.take(0)));
    }
    while i < chars.len()
        invariant
            i <= chars.len(),
            chars@ == s@,
            out@ =~= orig + json_escaped(chars@.take(i as int)),
        decreases chars.len() - i,
    {
        let c = chars[i];
        if c == '"' {
            out.push('\\');
            out.push('"');
        } else if c == '\\' {
            out.push('\\');
            out.push('\\');
        } else if c == '\u{0008}' {
            out.push('\\');
            out.push('b');
        } else if c == '\t' {
            out.push('\\');
            out.push('t');
        } else if c == '\n' {
            out.push('\\');
            out.push('n');
        } else if c == '\u{000C}' {
            out.push('\\');
            out.push('f');
        } else if c == '\r' {
            out.push('\\');
            out.push('r');
        } else if (c as u32) < 32 {
            out.push('\\');
            out.push('u');
            out.push('0');
            out.push('0');
            let h1 = hex_char(c as u32 / 16);
            out.push(h1);
            let h2 = hex_char(c as u32 % 16);
            out.push(h2);
        } else {
            out.push(c);
        }
        proof {
            assert(chars@.take(i as int + 1).drop_last() =~= chars@.take(i as int));
            assert(chars@.take(i as int + 1).last() == chars@[i as int]);
            assert(out@ =~= orig + json_escaped(chars@.take(i as int + 1)));
        }
        i = i + 1;
    }
    proof {
        assert(chars@.take(chars@.len() as int) =~= chars@);
    }
}

/// The line emitted for one merged fact.
pub open spec fn spec_fact_line(format: OutputFormat, cycle: u32, f: FactModel) -> Seq<char> {
    match format {
        OutputFormat::Human => "[cycle:"@ + dec_str(cycle as nat) + "] fact:"@ + spec_key_name(
            f.key,
        ) + ":"@ + f.id + " | "@ + f.content,
        OutputFormat::Json => "{\"cycle\":"@ + dec_str(cycle as nat)
            + ",\"type\":\"fact\",\"key\":\""@ + spec_key_name(f.key) + "\",\"id\":\""@
            + json_escaped(f.id) + "\",\"content\":\""@ + json_escaped(f.content) + "\"}"@,
    }
}

/// The final status line of a run.
pub open spec fn spec_status_line(
    format: OutputFormat,
    converged: bool,
    cycles: u32,
    facts: nat,
) -> Seq<char> {
    match format {
        OutputFormat::Human => "[cycle:"@ + dec_str(cycles as nat) + "] "@ + (if converged {
            "converged"@
        } else {
            "halted"@
        }) + " | "@ + dec_str(cycles as nat) + " cycles, "@ + dec_str(facts) + " facts"@,
        OutputFormat::Json => "{\"cycle\":"@ + dec_str(cycles as nat)
            + ",\"type\":\"status\",\"converged\":"@ + spec_bool_str(converged) + ",\"cycles\":"@
            + dec_str(cycles as nat) + ",\"facts\":"@ + dec_str(facts) + "}"@,
    }
}

/// Mathematical model of a streaming handler.
pub struct StreamingModel {
    pub format: OutputFormat,
    pub fact_count: nat,
}

/// Renders streaming lines and counts the facts that pass through.
pub struct StreamingHandler {
    format: OutputFormat,
    fact_count: usize,
}

impl View for StreamingHandler {
    type V = StreamingModel;

    closed spec fn view(&self) -> StreamingModel {
        StreamingModel { format: self.format, fact_count: self.fact_count as nat }
    }
}

impl StreamingHandler {
    /// A handler with the given output format and no facts seen yet.
    pub fn new(format: OutputFormat) -> (h: StreamingHandler)
        ensures
            h@.format == format,
            h@.fact_count == 0,
    {
        StreamingHandler { format, fact_count: 0 }
    }

    /// A handler for human-readable output.
    pub fn human() -> (h: StreamingHandler)
        ensures
            h@.format == OutputFormat::Human,
            h@.fact_count == 0,
    {
        StreamingHandler::new(OutputFormat::Human)
    }

    /// A handler for JSON-lines output.
    pub fn json() -> (h: StreamingHandler)
        ensures
            h@.format == OutputFormat::Json,
            h@.fact_count == 0,
    {
        StreamingHandler::new(OutputFormat::Json)
    }

    /// How many facts have been handled.
    pub fn fact_count(&self) -> (n: usize)
        ensures
            n == self@.fact_count,
    {
        self.fact_count
    }

    /// Counts one merged fact and renders its line; the caller writes it
    /// out.
    pub fn on_fact(&mut self, cycle: u32, fact: &Fact) -> (line: String)
        requires
            old(self)@.fact_count < usize::MAX,
        ensures
            final (self)@.format == old(self)@.format,
            final (self)@.fact_count == old(self)@.fact_count + 1,
            line@ == spec_fact_line(old(self)@.format, cycle, fact@),
    {
        self.fact_count = self.fact_count + 1;
        match self.format {
            OutputFormat::Human => {
                let mut line = "[cycle:".to_owned();
                push_decimal(&mut line, cycle as u64);
                line.append("] fact:");
                line.append(key_name(fact.key));
                line.append(":");
                line.append(fact.id.as_str());
                line.append(" | ");
                line.append(fact.content.as_str());
                proof {
                    assert(line@ =~= spec_fact_line(OutputFormat::Human, cycle, fact@));
                }
                line
            },
            OutputFormat::Json => {
                let mut line = "{\"cycle\":".to_owned();
                push_decimal(&mut line, cycle as u64);
                line.append(",\"type\":\"fact\",\"key\":\"");
                line.append(key_name(fact.key));
                line.append("\",\"id\":\"");
                push_json_escaped(&mut line, fact.id.as_str());
                line.append("\",\"content\":\"");
                push_json_escaped(&mut line, fact.content.as_str());
                line.append("\"}");
                proof {
                    assert(line@ =~= spec_fact_line(OutputFormat::Json, cycle, fact@));
                }
                line
            },
        }
    }

    /// Renders the final status line; the caller writes it out.
    pub fn emit_final_status(&self, converged: bool, cycles: u32) -> (line: String)
        ensures
            line@ == spec_status_line(self@.format, converged, cycles, self@.fact_count),
    {
        match self.format {
            OutputFormat::Human => {
                let mut line = "[cycle:".to_owned();
                push_decimal(&mut line, cycles as u64);
                line.append("] ");
                if converged {
                    line.append("converged");
                } else {
                    line.append("halted");
                }
                line.append(" | ");
                push_decimal(&mut line, cycles as u64);
                line.append(" cycles, ");
                push_decimal(&mut line, self.fact_count as u64);
                line.append(" facts");
                proof {
                    assert(line@ =~= spec_status_line(
                        OutputFormat::Human,
                        converged,
                        cycles,
                        self@.fact_count,
                    ));
                }
                line
            },
            OutputFormat::Json => {
                let mut line = "{\"cycle\":".to_owned();
                push_decimal(&mut line, cycles as u64);
                line.append(",\"type\":\"status\",\"converged\":");
                if converged {
                    line.append("true");
                } else {
                    line.append("false");
                }
                line.append(",\"cycles\":");
                push_decimal(&mut line, cycles as u64);
                line.append(",\"facts\":");
                push_decimal(&mut line, self.fact_count as u64);
                line.append("}");
                proof {
                    assert(line@ =~= spec_status_line(
                        OutputFormat::Json,
                        converged,
                        cycles,
                        self@.fact_count,
                    ));
                }
                line
            },
        }
    }
}

} // verus!
