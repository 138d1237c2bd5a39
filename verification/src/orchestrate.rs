//! The run orchestrator: given the outcome of reading each configured
//! source, render one report line per measured source, one diagnostic line
//! per failed source, and — for a multi-source run — exactly one total line
//! whose fields are the field-wise sums of the measured sources.
use vstd::prelude::*;
use vstd::string::*;
use crate::config::Config;
use crate::fields::format_field;
use crate::fields::spec_field;
use crate::measure::FileInfo;

verus! {

/// What the run saw of one source: its measurement, or the message of the
/// failure (open, read or decode) that made the source be skipped.
pub enum SourceOutcome {
    Measured(FileInfo),
    Failed(String),
}

/// The lines of a finished run: report lines for the output stream and one
/// diagnostic line per failed source for the error stream.
pub struct RunOutput {
    pub out_lines: Vec<String>,
    pub err_lines: Vec<String>,
}

/// The four formatted fields of one report line, in the fixed order lines,
/// words, bytes, chars, concatenated with no separator.
pub open spec fn spec_fields(c: Config, l: nat, w: nat, b: nat, ch: nat) -> Seq<char> {
    spec_field(l, c.lines) + spec_field(w, c.words) + spec_field(b, c.bytes) + spec_field(
        ch,
        c.chars,
    )
}

/// One measured source's report line: the fields, then a space and the
/// source's name; the name is omitted for standard input.
pub open spec fn spec_source_line(c: Config, m: FileInfo, name: Seq<char>) -> Seq<char> {
    spec_fields(c, m.num_lines as nat, m.num_words as nat, m.num_bytes as nat, m.num_chars as nat)
        + if name == seq!['-'] {
        Seq::<char>::empty()
    } else {
        seq![' '] + name
    }
}

/// The total line of a multi-source run.
pub open spec fn spec_total_line(c: Config, l: nat, w: nat, b: nat, ch: nat) -> Seq<char> {
    spec_fields(c, l, w, b, ch) + seq![' ', 't', 'o', 't', 'a', 'l']
}

/// One failed source's diagnostic line: its name, a colon and a space, and
/// the failure's message.
pub open spec fn spec_diag_line(name: Seq<char>, msg: Seq<char>) -> Seq<char> {
    name + seq![':', ' '] + msg
}

/// Sum of the line counts of the measured outcomes; failed sources
/// contribute nothing.
pub open spec fn sum_lines(outs: Seq<SourceOutcome>) -> nat
    decreases outs.len(),
{
    if outs.len() == 0 {
        0
    } else {
        (match outs[0] {
            SourceOutcome::Measured(m) => m.num_lines as nat,
            SourceOutcome::Failed(_) => 0nat,
        }) + sum_lines(outs.drop_first())
    }
}

/// Sum of the word counts of the measured outcomes; failed sources
/// contribute nothing.
pub open spec fn sum_words(outs: Seq<SourceOutcome>) -> nat
    decreases outs.len(),
{
    if outs.len() == 0 {
        0
    } else {
        (match outs[0] {
            SourceOutcome::Measured(m) => m.num_words as nat,
            SourceOutcome::Failed(_) => 0nat,
        }) + sum_words(outs.drop_first())
    }
}

/// Sum of the byte counts of the measured outcomes; failed sources
/// contribute nothing.
pub open spec fn sum_bytes(outs: Seq<SourceOutcome>) -> nat
    decreases outs.len(),
{
    if outs.len() == 0 {
        0
    } else {
        (match outs[0] {
            SourceOutcome::Measured(m) => m.num_bytes as nat,
            SourceOutcome::Failed(_) => 0nat,
        }) + sum_bytes(outs.drop_first())
    }
}

/// Sum of the character counts of the measured outcomes; failed sources
/// contribute nothing.
pub open spec fn sum_chars(outs: Seq<SourceOutcome>) -> nat
    decreases outs.len(),
{
    if outs.len() == 0 {
        0
    } else {
        (match outs[0] {
            SourceOutcome::Measured(m) => m.num_chars as nat,
            SourceOutcome::Failed(_) => 0nat,
        }) + sum_chars(outs.drop_first())
    }
}

/// The report lines of the first `n` sources, one per measured source, in
/// source order.
pub open spec fn report_lines(c: Config, outs: Seq<SourceOutcome>, n: int) -> Seq<Seq<char>>
    decreases n,
{
    if n <= 0 {
        Seq::<Seq<char>>::empty()
    } else {
        report_lines(c, outs, n - 1) + (match outs[n - 1] {
            SourceOutcome::Measured(m) => seq![spec_source_line(c, m, c.files.deep_view()[n - 1])],
            SourceOutcome::Failed(_) => Seq::<Seq<char>>::empty(),
        })
    }
}

/// The diagnostic lines of the first `n` sources, one per failed source, in
/// source order.
pub open spec fn diag_lines(c: Config, outs: Seq<SourceOutcome>, n: int) -> Seq<Seq<char>>
    decreases n,
{
    if n <= 0 {
        Seq::<Seq<char>>::empty()
    } else {
        diag_lines(c, outs, n - 1) + (match outs[n - 1] {
            SourceOutcome::Measured(_) => Seq::<Seq<char>>::empty(),
            SourceOutcome::Failed(msg) => seq![spec_diag_line(c.files.deep_view()[n - 1], msg@)],
        })
    }
}

/// Render the four fields of one measurement.
fn format_fields(config: &Config, info: &FileInfo) -> (r: String)
    ensures
        r@ == spec_fields(
            *config,
            info.num_lines as nat,
            info.num_words as nat,
            info.num_bytes as nat,
            info.num_chars as nat,
        ),
{
    let mut r = format_field(info.num_lines, config.lines);
    let f2 = format_field(info.num_words, config.words);
    r.append(f2.as_str());
    let f3 = format_field(info.num_bytes, config.bytes);
    r.append(f3.as_str());
    let f4 = format_field(info.num_chars, config.chars);
    r.append(f4.as_str());
    r
}

/// Render one measured source's report line.
pub fn format_source_line(config: &Config, info: &FileInfo, name: &String) -> (r: String)
    ensures
        r@ == spec_source_line(*config, *info, name@),
{
    let mut r = format_fields(config, info);
    let dash = String::from_str("-");
    proof {
        reveal_strlit("-");
        assert("-"@ =~= seq!['-']);
    }
    if !name.eq(&dash) {
        r.push(' ');
        r.append(name.as_str());
        proof {
            assert(r@ =~= spec_source_line(*config, *info, name@));
        }
    }
    r
}

/// Render the total line of a multi-source run from the accumulated totals.
pub fn format_total_line(config: &Config, totals: &FileInfo) -> (r: String)
    ensures
        r@ == spec_total_line(
            *config,
            totals.num_lines as nat,
            totals.num_words as nat,
            totals.num_bytes as nat,
            totals.num_chars as nat,
        ),
{
    let mut r = format_fields(config, totals);
    r.append(" total");
    proof {
        reveal_strlit(" total");
        assert(" total"@ =~= seq![' ', 't', 'o', 't', 'a', 'l']);
    }
    r
}

/// Render one failed source's diagnostic line.
pub fn format_diag_line(name: &String, msg: &String) -> (r: String)
    ensures
        r@ == spec_diag_line(name@, msg@),
{
    let mut r = String::new();
    r.append(name.as_str());
    r.push(':');
    r.push(' ');
    r.append(msg.as_str());
    proof {
        assert(r@ =~= spec_diag_line(name@, msg@));
    }
    r
}

/// Process the sources' outcomes in order: a report line per measured
/// source, a diagnostic line per failed source, and — exactly when more
/// than one source was configured, however many of them failed — one final
/// total line whose fields are the field-wise sums of the measured sources.
pub fn run(config: Config, outcomes: Vec<SourceOutcome>) -> (r: RunOutput)
    requires
        outcomes@.len() == config.files@.len(),
        sum_lines(outcomes@) <= usize::MAX,
        sum_words(outcomes@) <= usize::MAX,
        sum_bytes(outcomes@) <= usize::MAX,
        sum_chars(outcomes@) <= usize::MAX,
    ensures
        r.err_lines.deep_view() == diag_lines(config, outcomes@, outcomes@.len() as int),
        r.out_lines.deep_view() == report_lines(config, outcomes@, outcomes@.len() as int) + (
        if config.files@.len() > 1 {
            seq![
                spec_total_line(
                    config,
                    sum_lines(outcomes@),
                    sum_words(outcomes@),
                    sum_bytes(outcomes@),
                    sum_chars(outcomes@),
                ),
            ]
        } else {
            Seq::<Seq<char>>::empty()
        }),
{
    let len = outcomes.len();
    let mut out_lines: Vec<String> = Vec::new();
    let mut err_lines: Vec<String> = Vec::new();
    let mut total_lines: usize = 0;
    let mut total_words: usize = 0;
    let mut total_bytes: usize = 0;
    let mut total_chars: usize = 0;
    let mut i: usize = 0;
    proof {
        assert(outcomes@.skip(0) =~= outcomes@);
        assert(out_lines.deep_view() =~= report_lines(config, outcomes@, 0));
        assert(err_lines.deep_view() =~= diag_lines(config, outcomes@, 0));
    }
    while i < len
        invariant
            i <= len,
            len == outcomes@.len(),
            outcomes@.len() == config.files@.len(),
            sum_lines(outcomes@) == total_lines + sum_lines(outcomes@.skip(i as int)),
            sum_words(outcomes@) == total_words + sum_words(outcomes@.skip(i as int)),
            sum_bytes(outcomes@) == total_bytes + sum_bytes(outcomes@.skip(i as int)),
            sum_chars(outcomes@) == total_chars + sum_chars(outcomes@.skip(i as int)),
            sum_lines(outcomes@) <= usize::MAX,
            sum_words(outcomes@) <= usize::MAX,
            sum_bytes(outcomes@) <= usize::MAX,
            sum_chars(outcomes@) <= usize::MAX,
            out_lines.deep_view() == report_lines(config, outcomes@, i as int),
            err_lines.deep_view() == diag_lines(config, outcomes@, i as int),
        decreases len - i,
    {
        proof {
            assert(outcomes@.skip(i as int)[0] == outcomes@[i as int]);
            assert(outcomes@.skip(i as int).drop_first() =~= outcomes@.skip(i as int + 1));
        }
        let name = &config.files[i];
        let ghost old_out = out_lines.deep_view();
        let ghost old_err = err_lines.deep_view();
        match &outcomes[i] {
            SourceOutcome::Measured(m) => {
                total_lines = total_lines + m.num_lines;
                total_words = total_words + m.num_words;
                total_bytes = total_bytes + m.num_bytes;
                total_chars = total_chars + m.num_chars;
                let line = format_source_line(&config, m, name);
                let ghost line_view = line@;
                out_lines.push(line);
                proof {
                    assert(out_lines.deep_view() =~= old_out.push(line_view));
                    assert(report_lines(config, outcomes@, i as int + 1) =~= old_out.push(
                        line_view,
                    ));
                }
            },
            SourceOutcome::Failed(msg) => {
                let line = format_diag_line(name, msg);
                let ghost line_view = line@;
                err_lines.push(line);
                proof {
                    assert(err_lines.deep_view() =~= old_err.push(line_view));
                    assert(diag_lines(config, outcomes@, i as int + 1) =~= old_err.push(line_view));
                }
            },
        }
        i = i + 1;
    }
    proof {
        assert(outcomes@.skip(len as int) =~= Seq::<SourceOutcome>::empty());
    }
    if config.files.len() > 1 {
        let totals = FileInfo {
            num_lines: total_lines,
            num_words: total_words,
            num_bytes: total_bytes,
            num_chars: total_chars,
        };
        let line = format_total_line(&config, &totals);
        let ghost line_view = line@;
        let ghost old_out = out_lines.deep_view();
        out_lines.push(line);
        proof {
            assert(out_lines.deep_view() =~= old_out.push(line_view));
        }
    }
    RunOutput { out_lines, err_lines }
}

} // verus!
