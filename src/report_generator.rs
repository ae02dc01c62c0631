use vstd::prelude::*;
use vstd::string::StringExecFns;

use crate::model::ProfileReport;

verus! {

/// Renders sizes for people.
pub struct ReportGenerator;

/// The character of a decimal digit.
pub open spec fn digit_char(d: nat) -> char {
    seq!['0', '1', '2', '3', '4', '5', '6', '7', '8', '9'][(d % 10) as int]
}

/// The decimal numeral of `n`, without leading zeros.
pub open spec fn decimal_text(n: nat) -> Seq<char>
    decreases n,
{
    if n < 10 {
        seq![digit_char(n)]
    } else {
        decimal_text(n / 10).push(digit_char(n % 10))
    }
}

/// `n` below a hundred as exactly two digits.
pub open spec fn two_digit_text(n: nat) -> Seq<char> {
    seq![digit_char(n / 10), digit_char(n % 10)]
}

/// `1024` to the power `k`.
pub open spec fn pow1024(k: nat) -> nat
    decreases k,
{
    if k == 0 {
        1
    } else {
        1024 * pow1024((k - 1) as nat)
    }
}

/// The unit a size is shown in: the largest of B, KB, MB, GB and TB whose
/// step it reaches.
pub open spec fn unit_index(bytes: nat) -> nat {
    if bytes >= pow1024(4) {
        4
    } else if bytes >= pow1024(3) {
        3
    } else if bytes >= pow1024(2) {
        2
    } else if bytes >= pow1024(1) {
        1
    } else {
        0
    }
}

pub open spec fn unit_text(k: nat) -> Seq<char> {
    if k == 0 {
        seq!['B']
    } else if k == 1 {
        seq!['K', 'B']
    } else if k == 2 {
        seq!['M', 'B']
    } else if k == 3 {
        seq!['G', 'B']
    } else {
        seq!['T', 'B']
    }
}

/// `n / d` rounded to the nearest integer, ties to the even one.
pub open spec fn div_round_half_even(n: nat, d: nat) -> nat
    recommends
        d > 0,
{
    let q = n / d;
    let r = n % d;
    if 2 * r > d || (2 * r == d && q % 2 == 1) {
        q + 1
    } else {
        q
    }
}

/// A size in its unit: whole bytes as they are, larger units with two
/// decimals of the exact quotient.
pub open spec fn format_bytes_text(bytes: nat) -> Seq<char> {
    let k = unit_index(bytes);
    if k == 0 {
        decimal_text(bytes) + seq![' '] + unit_text(0)
    } else {
        let h = div_round_half_even(bytes * 100, pow1024(k));
        decimal_text(h / 100) + seq!['.'] + two_digit_text(h % 100) + seq![' '] + unit_text(k)
    }
}

/// The text of one decimal digit.
fn digit_str(d: u64) -> (r: &'static str)
    requires
        d < 10,
    ensures
        r@ == seq![digit_char(d as nat)],
{
    proof {
        reveal_strlit("0");
        reveal_strlit("1");
        reveal_strlit("2");
        reveal_strlit("3");
        reveal_strlit("4");
        reveal_strlit("5");
        reveal_strlit("6");
        reveal_strlit("7");
        reveal_strlit("8");
        reveal_strlit("9");
    }
    if d == 0 {
        "0"
    } else if d == 1 {
        "1"
    } else if d == 2 {
        "2"
    } else if d == 3 {
        "3"
    } else if d == 4 {
        "4"
    } else if d == 5 {
        "5"
    } else if d == 6 {
        "6"
    } else if d == 7 {
        "7"
    } else if d == 8 {
        "8"
    } else {
        "9"
    }
}

/// The decimal numeral of `n`.
fn decimal_string(n: u64) -> (r: String)
    ensures
        r@ == decimal_text(n as nat),
    decreases n,
{
    if n < 10 {
        String::from_str(digit_str(n))
    } else {
        let mut s = decimal_string(n / 10);
        s.append(digit_str(n % 10));
        s
    }
}

fn unit_str(k: u64) -> (r: &'static str)
    requires
        k <= 4,
    ensures
        r@ == unit_text(k as nat),
{
    proof {
        reveal_strlit("B");
        reveal_strlit("KB");
        reveal_strlit("MB");
        reveal_strlit("GB");
        reveal_strlit("TB");
    }
    if k == 0 {
        "B"
    } else if k == 1 {
        "KB"
    } else if k == 2 {
        "MB"
    } else if k == 3 {
        "GB"
    } else {
        "TB"
    }
}

/// What chrono shows for an instant given in milliseconds since the Unix
/// epoch.
pub uninterp spec fn utc_text(ms: i64) -> Seq<char>;

/// What std's `{:.2?}` shows for a duration given in milliseconds.
pub uninterp spec fn duration_text(ms: u64) -> Seq<char>;

/// Relies on chrono's `DateTime::<Utc>::from_timestamp_millis` and its
/// `Display`: the text depends on the milliseconds alone (an instant out of
/// chrono's range shows as the epoch).
#[verifier::external_body]
fn render_utc(ms: i64) -> (r: String)
    ensures
        r@ == utc_text(ms),
{
    chrono::DateTime::<chrono::Utc>::from_timestamp_millis(ms).unwrap_or_default().to_string()
}

/// Relies on std's `Duration::from_millis` and its `Debug` with two decimals:
/// the text depends on the milliseconds alone.
#[verifier::external_body]
fn render_duration(ms: u64) -> (r: String)
    ensures
        r@ == duration_text(ms),
{
    format!("{:.2?}", std::time::Duration::from_millis(ms))
}

/// One row of the leaks-by-size table.
pub open spec fn leak_row_text(size: usize, count: usize) -> Seq<char> {
    "| "@ + format_bytes_text(size as nat) + " | "@ + decimal_text(count as nat) + " | "@
        + format_bytes_text((size * count) as nat) + " |\n"@
}

/// The rows of the leaks-by-size table, in order.
pub open spec fn leak_rows_text(groups: Seq<(usize, usize)>) -> Seq<char>
    decreases groups.len(),
{
    if groups.len() == 0 {
        Seq::empty()
    } else {
        leak_rows_text(groups.drop_last()) + leak_row_text(groups.last().0, groups.last().1)
    }
}

/// The leak part of the detailed report.
pub open spec fn leak_section_text(r: ProfileReport) -> Seq<char> {
    let l = r.leak_summary;
    if l.leak_count == 0 {
        "✅ No memory leaks detected!\n"@
    } else {
        "⚠️ **"@ + decimal_text(l.leak_count as nat) + " memory leaks detected**\n"@ + "\n"@
            + "- **Total Leaked:** "@ + format_bytes_text(l.total_leaked_bytes as nat) + "\n"@
            + match l.largest_leak {
            Some(m) => "- **Largest Leak:** "@ + format_bytes_text(m as nat) + "\n"@,
            None => Seq::empty(),
        } + "\n"@ + "### Leaks by Size\n"@ + "\n"@ + "| Size | Count | Total |\n"@
            + "|------|-------|-------|\n"@ + leak_rows_text(l.leaks_by_size@)
    }
}

/// The detailed Markdown report of a session, given how its duration, start
/// and end are shown.
pub open spec fn detailed_report_text(
    r: ProfileReport,
    duration: Seq<char>,
    start: Seq<char>,
    end: Seq<char>,
) -> Seq<char> {
    let st = r.memory_stats;
    "# Memory Profile Report\n"@ + "\n"@ + "**Process:** "@ + r.command@ + " (PID: "@ + decimal_text(
        r.pid as nat,
    ) + ")\n"@ + "**Duration:** "@ + duration + "\n"@ + "**Start Time:** "@ + start + "\n"@
        + "**End Time:** "@ + end + "\n"@ + "\n"@ + "## Memory Statistics\n"@ + "\n"@
        + "- **Total Allocated:** "@ + format_bytes_text(st.total_allocated as nat) + "\n"@
        + "- **Total Freed:** "@ + format_bytes_text(st.total_freed as nat) + "\n"@
        + "- **Current Usage:** "@ + format_bytes_text(st.current_usage as nat) + "\n"@
        + "- **Peak Usage:** "@ + format_bytes_text(st.peak_usage as nat) + "\n"@
        + "- **Allocation Count:** "@ + decimal_text(st.allocation_count as nat) + "\n"@
        + "- **Free Count:** "@ + decimal_text(st.free_count as nat) + "\n"@ + "\n"@
        + "## Leak Analysis\n"@ + "\n"@ + leak_section_text(r)
}

/// Every row's total fits the machine word.
pub open spec fn leak_rows_fit(groups: Seq<(usize, usize)>) -> bool {
    forall|i: int| 0 <= i < groups.len() ==> (#[trigger] groups[i]).0 * groups[i].1 <= usize::MAX
}

impl ReportGenerator {
    pub fn new() -> (r: Self) {
        ReportGenerator
    }

    /// The detailed Markdown report of a session, with its times shown by
    /// chrono and std.
    pub fn generate_detailed_report(&self, report: &ProfileReport) -> (r: String)
        requires
            leak_rows_fit(report.leak_summary.leaks_by_size@),
        ensures
            r@ == detailed_report_text(
                *report,
                duration_text(report.duration_ms),
                utc_text(report.start_time),
                utc_text(report.end_time),
            ),
    {
        let duration = render_duration(report.duration_ms);
        let start = render_utc(report.start_time);
        let end = render_utc(report.end_time);
        Self::detailed_report_with(report, duration.as_str(), start.as_str(), end.as_str())
    }

    /// The detailed Markdown report of a session, given the texts of its
    /// duration, start and end.
    pub fn detailed_report_with(report: &ProfileReport, duration: &str, start: &str, end: &str) -> (r:
        String)
        requires
            leak_rows_fit(report.leak_summary.leaks_by_size@),
        ensures
            r@ == detailed_report_text(*report, duration@, start@, end@),
    {
        let st = &report.memory_stats;
        let mut out = String::from_str("# Memory Profile Report\n");
        out.append("\n");
        out.append("**Process:** ");
        out.append(report.command.as_str());
        out.append(" (PID: ");
        out.append(decimal_string(report.pid as u64).as_str());
        out.append(")\n");
        out.append("**Duration:** ");
        out.append(duration);
        out.append("\n");
        out.append("**Start Time:** ");
        out.append(start);
        out.append("\n");
        out.append("**End Time:** ");
        out.append(end);
        out.append("\n");
        out.append("\n");
        out.append("## Memory Statistics\n");
        out.append("\n");
        out.append("- **Total Allocated:** ");
        out.append(Self::format_bytes(st.total_allocated).as_str());
        out.append("\n");
        out.append("- **Total Freed:** ");
        out.append(Self::format_bytes(st.total_freed).as_str());
        out.append("\n");
        out.append("- **Current Usage:** ");
        out.append(Self::format_bytes(st.current_usage).as_str());
        out.append("\n");
        out.append("- **Peak Usage:** ");
        out.append(Self::format_bytes(st.peak_usage).as_str());
        out.append("\n");
        out.append("- **Allocation Count:** ");
        out.append(decimal_string(st.allocation_count).as_str());
        out.append("\n");
        out.append("- **Free Count:** ");
        out.append(decimal_string(st.free_count).as_str());
        out.append("\n");
        out.append("\n");
        out.append("## Leak Analysis\n");
        out.append("\n");
        let section = Self::leak_section(report);
        out.append(section.as_str());
        out
    }

    #[verifier::rlimit(60)]
    fn leak_section(report: &ProfileReport) -> (r: String)
        requires
            leak_rows_fit(report.leak_summary.leaks_by_size@),
        ensures
            r@ == leak_section_text(*report),
    {
        let l = &report.leak_summary;
        if l.leak_count == 0 {
            return String::from_str("✅ No memory leaks detected!\n");
        }
        let mut out = String::from_str("⚠️ **");
        out.append(decimal_string(l.leak_count as u64).as_str());
        out.append(" memory leaks detected**\n");
        out.append("\n");
        out.append("- **Total Leaked:** ");
        out.append(Self::format_bytes(l.total_leaked_bytes).as_str());
        out.append("\n");
        let ghost before_largest = out@;
        match l.largest_leak {
            Some(m) => {
                out.append("- **Largest Leak:** ");
                out.append(Self::format_bytes(m).as_str());
                out.append("\n");
            },
            None => {
                assert(out@ =~= before_largest + Seq::<char>::empty());
            },
        }
        out.append("\n");
        out.append("### Leaks by Size\n");
        out.append("\n");
        out.append("| Size | Count | Total |\n");
        out.append("|------|-------|-------|\n");
        let ghost table_head = out@;
        let groups = &l.leaks_by_size;
        let mut i: usize = 0;
        while i < groups.len()
            invariant
                i <= groups@.len(),
                leak_rows_fit(groups@),
                out@ == table_head + leak_rows_text(groups@.take(i as int)),
            decreases groups@.len() - i,
        {
            assert(groups@.take(i + 1).drop_last() =~= groups@.take(i as int));
            let (size, count) = groups[i];
            assert(groups@[i as int].0 * groups@[i as int].1 <= usize::MAX);
            let ghost before_row = out@;
            out.append("| ");
            out.append(Self::format_bytes(size).as_str());
            out.append(" | ");
            out.append(decimal_string(count as u64).as_str());
            out.append(" | ");
            out.append(Self::format_bytes(size * count).as_str());
            out.append(" |\n");
            assert(out@ =~= before_row + leak_row_text(size, count));
            i = i + 1;
        }
        assert(groups@.take(groups@.len() as int) =~= groups@);
        out
    }

    /// A size in bytes as text, such as `512 B` or `1.50 KB`.
    pub fn format_bytes(bytes: usize) -> (r: String)
        ensures
            r@ == format_bytes_text(bytes as nat),
    {
        proof {
            reveal_with_fuel(pow1024, 6);
        }
        assert(pow1024(0) == 1 && pow1024(1) == 1024 && pow1024(2) == 1048576 && pow1024(3)
            == 1073741824 && pow1024(4) == 1099511627776 && pow1024(5) == 1125899906842624);
        let mut unit: u64 = 0;
        let mut step: u128 = 1;
        while unit < 4 && bytes as u128 >= step * 1024
            invariant
                unit <= 4,
                step == pow1024(unit as nat),
                unit > 0 ==> bytes >= step,
                pow1024(0) == 1 && pow1024(1) == 1024 && pow1024(2) == 1048576 && pow1024(3)
                    == 1073741824 && pow1024(4) == 1099511627776 && pow1024(5) == 1125899906842624,
            decreases 4 - unit,
        {
            step = step * 1024;
            unit = unit + 1;
        }
        assert(unit == unit_index(bytes as nat));
        proof {
            reveal_strlit(" ");
            reveal_strlit(".");
        }
        if unit == 0 {
            let mut out = decimal_string(bytes as u64);
            out.append(" ");
            out.append(unit_str(0));
            return out;
        }
        let n: u128 = bytes as u128 * 100;
        let q: u128 = n / step;
        let rem: u128 = n % step;
        let rounded: u128 = if 2 * rem > step || (2 * rem == step && q % 2 == 1) {
            q + 1
        } else {
            q
        };
        let hundredths: u64 = (rounded % 100) as u64;
        let mut out = decimal_string((rounded / 100) as u64);
        out.append(".");
        out.append(digit_str(hundredths / 10));
        out.append(digit_str(hundredths % 10));
        out.append(" ");
        out.append(unit_str(unit));
        out
    }
}

} // verus!
