//! The log-line format.
//!
//! Every emitted event becomes one line: the timestamp, the level, the
//! enclosing spans joined with `" / "`, the event's fields, and the source
//! location, each part bracketed as the format prescribes. The composition
//! of the line from its parts is verified here; the unverified shell
//! renders the parts (timestamp, level, spans, fields) and writes the line
//! out.

use vstd::prelude::*;

verus! {

/// The log sink's event formatter.
#[derive(Debug)]
pub struct LogFormatter;

/// Span segments joined with `" / "`.
pub open spec fn joined_spans(spans: Seq<Seq<char>>) -> Seq<char>
    decreases spans.len(),
{
    if spans.len() == 0 {
        Seq::empty()
    } else if spans.len() == 1 {
        spans[0]
    } else {
        joined_spans(spans.drop_last()) + " / "@ + spans.last()
    }
}

/// The whole log line: `[timestamp] [level] [spans] fields [file:line]`
/// and a newline, the span block present only when spans exist.
pub open spec fn line_spec(
    timestamp: Seq<char>,
    level: Seq<char>,
    spans: Seq<Seq<char>>,
    fields: Seq<char>,
    file: Seq<char>,
    line: Seq<char>,
) -> Seq<char> {
    "["@ + timestamp + "] ["@ + level + "] "@ + (if spans.len() > 0 {
        "["@ + joined_spans(spans) + "] "@
    } else {
        Seq::empty()
    }) + fields + " ["@ + file + ":"@ + line + "]\n"@
}

impl LogFormatter {
    /// Composes one log line from its rendered parts.
    #[verifier::loop_isolation(false)]
    pub fn format_line(
        timestamp: &str,
        level: &str,
        spans: &Vec<String>,
        fields: &str,
        file: &str,
        line: &str,
    ) -> (r: String)
        ensures
            r@ == line_spec(
                timestamp@,
                level@,
                spans@.map_values(|s: String| s@),
                fields@,
                file@,
                line@,
            ),
    {
        let ghost sv = spans@.map_values(|s: String| s@);
        let mut r: String = "[".to_owned();
        r.append(timestamp);
        r.append("] [");
        r.append(level);
        r.append("] ");
        if spans.len() > 0 {
            r.append("[");
            let n: usize = spans.len();
            let mut i: usize = 0;
            while i < n
                invariant
                    n == spans@.len(),
                    0 < n,
                    i <= n,
                    r@ == "["@ + timestamp@ + "] ["@ + level@ + "] "@ + "["@ + joined_spans(
                        sv.take(i as int),
                    ),
                decreases n - i,
            {
                if i > 0 {
                    r.append(" / ");
                }
                r.append(spans[i].as_str());
                proof {
                    assert(sv.take(i + 1).drop_last() =~= sv.take(i as int));
                    assert(sv.take(i + 1).last() == sv[i as int]);
                    assert(sv.take(1) =~= seq![sv[0]]);
                }
                i = i + 1;
            }
            proof {
                assert(sv.take(n as int) =~= sv);
            }
            r.append("] ");
        }
        r.append(fields);
        r.append(" [");
        r.append(file);
        r.append(":");
        r.append(line);
        r.append("]\n");
        r
    }
}

} // verus!
