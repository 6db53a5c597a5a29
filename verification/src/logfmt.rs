use vstd::prelude::*;
use vstd::string::StringExecFns;
use crate::outcome::{CheckOutcome, Config, OutcomeModel, StatusModel, WebsiteStatus};
use crate::strfmt::{append_dec, dec_digits, digit_char_spec, push_char};

verus! {

/// The hexadecimal digit character for a value below sixteen.
pub open spec fn hex_char_spec(d: nat) -> char {
    if d < 10 {
        digit_char_spec(d)
    } else if d == 10 {
        'a'
    } else if d == 11 {
        'b'
    } else if d == 12 {
        'c'
    } else if d == 13 {
        'd'
    } else if d == 14 {
        'e'
    } else {
        'f'
    }
}

/// How one character is written inside a JSON string: quotes and
/// backslashes are escaped, control characters are written with the usual
/// short escapes or as a `\u00..` sequence, everything else stands as is.
pub open spec fn escape_char(c: char) -> Seq<char> {
    if c == '"' {
        seq!['\\', '"']
    } else if c == '\\' {
        seq!['\\', '\\']
    } else if c == '\n' {
        seq!['\\', 'n']
    } else if c == '\r' {
        seq!['\\', 'r']
    } else if c == '\t' {
        seq!['\\', 't']
    } else if (c as u32) < 32 {
        seq!['\\', 'u', '0', '0', hex_char_spec((c as u32 / 16) as nat), hex_char_spec(
            (c as u32 % 16) as nat,
        )]
    } else {
        seq![c]
    }
}

/// The body of a JSON string: each character escaped as needed.
pub open spec fn json_escape(s: Seq<char>) -> Seq<char>
    decreases s.len(),
{
    if s.len() == 0 {
        Seq::empty()
    } else {
        escape_char(s[0]) + json_escape(s.drop_first())
    }
}

/// A complete JSON string: the escaped body between double quotes.
pub open spec fn json_string(s: Seq<char>) -> Seq<char> {
    seq!['"'] + json_escape(s) + seq!['"']
}

proof fn lemma_json_escape_push(s: Seq<char>, c: char)
    ensures
        json_escape(s.push(c)) == json_escape(s) + escape_char(c),
    decreases s.len(),
{
    if s.len() == 0 {
        assert(s.push(c)[0] == c);
        assert(s.push(c).drop_first() =~= Seq::<char>::empty());
        assert(json_escape(Seq::<char>::empty()) == Seq::<char>::empty());
        assert(json_escape(s.push(c)) == escape_char(c) + json_escape(Seq::<char>::empty()));
        assert(escape_char(c) + Seq::<char>::empty() =~= escape_char(c));
        assert(json_escape(s) == Seq::<char>::empty());
        assert(Seq::<char>::empty() + escape_char(c) =~= escape_char(c));
    } else {
        assert(s.push(c)[0] == s[0]);
        assert(s.push(c).drop_first() =~= s.drop_first().push(c));
        assert(json_escape(s.push(c)) == escape_char(s[0]) + json_escape(s.drop_first().push(c)));
        lemma_json_escape_push(s.drop_first(), c);
        assert(json_escape(s) == escape_char(s[0]) + json_escape(s.drop_first()));
        assert(escape_char(s[0]) + (json_escape(s.drop_first()) + escape_char(c)) =~= (escape_char(
            s[0],
        ) + json_escape(s.drop_first())) + escape_char(c));
    }
}

fn hex_char(d: u32) -> (c: char)
    requires
        d < 16,
    ensures
        c == hex_char_spec(d as nat),
{
    if d == 0 {
        '0'
    } else if d == 1 {
        '1'
    } else if d == 2 {
        '2'
    } else if d == 3 {
        '3'
    } else if d == 4 {
        '4'
    } else if d == 5 {
        '5'
    } else if d == 6 {
        '6'
    } else if d == 7 {
        '7'
    } else if d == 8 {
        '8'
    } else if d == 9 {
        '9'
    } else if d == 10 {
        'a'
    } else if d == 11 {
        'b'
    } else if d == 12 {
        'c'
    } else if d == 13 {
        'd'
    } else if d == 14 {
        'e'
    } else {
        'f'
    }
}

/// Appends the escaped JSON-string body of the given text.
pub fn append_escaped(out: &mut String, s: &str)
    ensures
        final(out)@ == old(out)@ + json_escape(s@),
{
    let n = s.unicode_len();
    let ghost start = out@;
    let mut i: usize = 0;
    while i < n
        invariant
            n == s@.len(),
            i <= n,
            out@ == start + json_escape(s@.take(i as int)),
        decreases n - i,
    {
        let c = s.get_char(i);
        proof {
            assert(s@.take(i + 1) =~= s@.take(i as int).push(s@[i as int]));
            lemma_json_escape_push(s@.take(i as int), s@[i as int]);
        }
        if c == '"' {
            push_char(out, '\\');
            push_char(out, '"');
        } else if c == '\\' {
            push_char(out, '\\');
            push_char(out, '\\');
        } else if c == '\n' {
            push_char(out, '\\');
            push_char(out, 'n');
        } else if c == '\r' {
            push_char(out, '\\');
            push_char(out, 'r');
        } else if c == '\t' {
            push_char(out, '\\');
            push_char(out, 't');
        } else if (c as u32) < 32 {
            push_char(out, '\\');
            push_char(out, 'u');
            push_char(out, '0');
            push_char(out, '0');
            push_char(out, hex_char((c as u32) / 16));
            push_char(out, hex_char((c as u32) % 16));
        } else {
            push_char(out, c);
        }
        proof {
            assert(out@ =~= start + json_escape(s@.take(i + 1)));
        }
        i = i + 1;
    }
    proof {
        assert(s@.take(n as int) =~= s@);
    }
}

/// Appends a complete JSON string for the given text.
pub fn append_json_string(out: &mut String, s: &str)
    ensures
        final(out)@ == old(out)@ + json_string(s@),
{
    let ghost start = out@;
    push_char(out, '"');
    append_escaped(out, s);
    push_char(out, '"');
    proof {
        assert(out@ =~= start + json_string(s@));
    }
}

/// The status field of a result line: the bare status code when the server
/// was reached, otherwise the failure reason as a JSON string.
pub open spec fn status_field(o: OutcomeModel) -> Seq<char> {
    match o {
        OutcomeModel::Reached(code) => dec_digits(code as nat),
        OutcomeModel::Unreachable(reason) => json_string(reason),
    }
}

/// The structured log line for one finished target.
pub open spec fn result_line_model(r: StatusModel) -> Seq<char> {
    "{\"url\":\""@ + json_escape(r.url) + "\",\"status\":"@ + status_field(r.outcome)
        + ",\"response_time_ms\":"@ + dec_digits(r.elapsed_ms as nat) + ",\"timestamp\":\""@
        + json_escape(r.timestamp) + "\"}"@
}

/// Renders the structured log line for one finished target.
pub fn result_line(r: &WebsiteStatus) -> (out: String)
    ensures
        out@ == result_line_model(r@),
{
    let mut out = String::new();
    out.append("{\"url\":\"");
    append_escaped(&mut out, r.url.as_str());
    out.append("\",\"status\":");
    match &r.outcome {
        CheckOutcome::Reached(code) => {
            append_dec(&mut out, *code as u64);
        },
        CheckOutcome::Unreachable(reason) => {
            append_json_string(&mut out, reason.as_str());
        },
    }
    out.append(",\"response_time_ms\":");
    append_dec(&mut out, r.elapsed_ms);
    out.append(",\"timestamp\":\"");
    append_escaped(&mut out, r.timestamp.as_str());
    out.append("\"}");
    proof {
        assert(out@ =~= result_line_model(r@));
    }
    out
}

/// The run-start marker line, carrying the effective settings.
pub open spec fn run_started_model(
    workers: nat,
    timeout_secs: u64,
    max_retries: u32,
    ts: Seq<char>,
) -> Seq<char> {
    "{\"run_started\":\""@ + json_escape(ts) + "\",\"worker_threads\":"@ + dec_digits(workers)
        + ",\"timeout_secs\":"@ + dec_digits(timeout_secs as nat) + ",\"max_retries\":"@
        + dec_digits(max_retries as nat) + "}"@
}

/// Renders the run-start marker for the given settings and timestamp.
pub fn run_started_line(cfg: &Config, ts: &str) -> (out: String)
    ensures
        out@ == run_started_model(
            crate::outcome::effective_workers_model(*cfg),
            cfg.request_timeout_secs,
            cfg.max_retries,
            ts@,
        ),
{
    let workers = cfg.effective_workers();
    let mut out = String::new();
    out.append("{\"run_started\":\"");
    append_escaped(&mut out, ts);
    out.append("\",\"worker_threads\":");
    append_dec(&mut out, workers as u64);
    out.append(",\"timeout_secs\":");
    append_dec(&mut out, cfg.request_timeout_secs);
    out.append(",\"max_retries\":");
    append_dec(&mut out, cfg.max_retries as u64);
    out.append("}");
    proof {
        assert(out@ =~= run_started_model(
            crate::outcome::effective_workers_model(*cfg),
            cfg.request_timeout_secs,
            cfg.max_retries,
            ts@,
        ));
    }
    out
}

/// The run-finish marker line.
pub open spec fn run_finished_model(ts: Seq<char>) -> Seq<char> {
    "{\"run_finished\":\""@ + json_escape(ts) + "\"}"@
}

/// Renders the run-finish marker for the given timestamp.
pub fn run_finished_line(ts: &str) -> (out: String)
    ensures
        out@ == run_finished_model(ts@),
{
    let mut out = String::new();
    out.append("{\"run_finished\":\"");
    append_escaped(&mut out, ts);
    out.append("\"}");
    proof {
        assert(out@ =~= run_finished_model(ts@));
    }
    out
}

/// The human-readable console line for one finished target.
pub open spec fn console_line_model(r: StatusModel) -> Seq<char> {
    "["@ + r.timestamp + "] "@ + r.url + " | "@ + (match r.outcome {
        OutcomeModel::Reached(code) => "status="@ + dec_digits(code as nat),
        OutcomeModel::Unreachable(reason) => "error="@ + reason,
    }) + " | rt="@ + dec_digits(r.elapsed_ms as nat) + "ms"@
}

/// Renders the human-readable console line for one finished target.
pub fn console_line(r: &WebsiteStatus) -> (out: String)
    ensures
        out@ == console_line_model(r@),
{
    let mut out = String::new();
    out.append("[");
    out.append(r.timestamp.as_str());
    out.append("] ");
    out.append(r.url.as_str());
    out.append(" | ");
    match &r.outcome {
        CheckOutcome::Reached(code) => {
            out.append("status=");
            append_dec(&mut out, *code as u64);
        },
        CheckOutcome::Unreachable(reason) => {
            out.append("error=");
            out.append(reason.as_str());
        },
    }
    out.append(" | rt=");
    append_dec(&mut out, r.elapsed_ms);
    out.append("ms");
    proof {
        assert(out@ =~= console_line_model(r@));
    }
    out
}

} // verus!
