//! The parts of performance reports that are text: HTML escaping, report
//! formats and time windows named on the command line.
use vstd::prelude::*;
use crate::models::metrics::{window_text, TimeWindow};
use crate::text::{chars_of, concat3, folds_to, matches_keyword, push_char, push_str};

verus! {

/// A character as it stands in HTML text.
pub open spec fn html_escaped_char(c: char) -> Seq<char> {
    if c == '&' {
        "&amp;"@
    } else if c == '<' {
        "&lt;"@
    } else if c == '>' {
        "&gt;"@
    } else if c == '"' {
        "&quot;"@
    } else if c == '\'' {
        "&#x27;"@
    } else {
        seq![c]
    }
}

/// `s` with `&`, `<`, `>`, `"` and `'` replaced by their HTML entities.
pub open spec fn html_escaped(s: Seq<char>) -> Seq<char>
    decreases s.len(),
{
    if s.len() == 0 {
        Seq::empty()
    } else {
        html_escaped(s.drop_last()) + html_escaped_char(s.last())
    }
}

/// `s` made safe to put in HTML text.
pub fn html_escape(s: &str) -> (r: String)
    ensures
        r@ == html_escaped(s@),
{
    let cs = chars_of(s);
    let mut out = String::new();
    let mut i: usize = 0;
    while i < cs.len()
        invariant
            i <= cs@.len(),
            cs@ == s@,
            out@ == html_escaped(s@.take(i as int)),
        decreases cs@.len() - i,
    {
        let c = cs[i];
        proof {
            assert(s@.take(i + 1).drop_last() =~= s@.take(i as int));
        }
        if c == '&' {
            push_str(&mut out, "&amp;");
        } else if c == '<' {
            push_str(&mut out, "&lt;");
        } else if c == '>' {
            push_str(&mut out, "&gt;");
        } else if c == '"' {
            push_str(&mut out, "&quot;");
        } else if c == '\'' {
            push_str(&mut out, "&#x27;");
        } else {
            push_char(&mut out, c);
            assert(out@ =~= html_escaped(s@.take(i as int)) + seq![c]);
        }
        i = i + 1;
    }
    assert(s@.take(cs@.len() as int) =~= s@);
    out
}

/// No character of an escaped text can open a tag or end an attribute value.
pub proof fn lemma_html_escaped_is_safe(s: Seq<char>)
    ensures
        forall|i: int| 0 <= i < html_escaped(s).len() ==> {
            let c = #[trigger] html_escaped(s)[i];
            c != '<' && c != '>' && c != '"' && c != '\''
        },
    decreases s.len(),
{
    reveal_strlit("&amp;");
    reveal_strlit("&lt;");
    reveal_strlit("&gt;");
    reveal_strlit("&quot;");
    reveal_strlit("&#x27;");
    if s.len() > 0 {
        lemma_html_escaped_is_safe(s.drop_last());
        let a = html_escaped(s.drop_last());
        let b = html_escaped_char(s.last());
        assert forall|i: int| 0 <= i < (a + b).len() implies {
            let c = #[trigger] (a + b)[i];
            c != '<' && c != '>' && c != '"' && c != '\''
        } by {
            if i >= a.len() {
                let k = i - a.len();
                assert((a + b)[i] == b[k]);
            } else {
                assert((a + b)[i] == a[i]);
            }
        }
    }
}

/// Output format of a report.
#[derive(PartialEq, Eq, Structural, Clone, Copy, Debug)]
pub enum ReportFormat {
    /// A table for the console.
    Console,
    Json,
    Html,
}

/// The report format that `s` names, letter case ignored.
pub open spec fn report_format_named(s: Seq<char>) -> Option<ReportFormat> {
    if folds_to(s, "console"@) {
        Some(ReportFormat::Console)
    } else if folds_to(s, "json"@) {
        Some(ReportFormat::Json)
    } else if folds_to(s, "html"@) {
        Some(ReportFormat::Html)
    } else {
        None
    }
}

/// The time window that `s` names, letter case ignored: `1h`, `24h`, `7d`.
pub open spec fn time_window_named(s: Seq<char>) -> Option<TimeWindow> {
    if folds_to(s, "1h"@) {
        Some(TimeWindow::LastHour)
    } else if folds_to(s, "24h"@) {
        Some(TimeWindow::Last24Hours)
    } else if folds_to(s, "7d"@) {
        Some(TimeWindow::Last7Days)
    } else {
        None
    }
}

/// The time window that `s` names, or an error that lists the valid ones.
pub fn parse_time_window(s: &str) -> (r: Result<TimeWindow, String>)
    ensures
        r matches Ok(w) ==> time_window_named(s@) == Some(w),
        r matches Err(m) ==> time_window_named(s@) is None
            && m@ == "Invalid time window: "@ + s@ + ". Valid values: 1h, 24h, 7d"@,
{
    if matches_keyword(s, "1h") {
        Ok(TimeWindow::LastHour)
    } else if matches_keyword(s, "24h") {
        Ok(TimeWindow::Last24Hours)
    } else if matches_keyword(s, "7d") {
        Ok(TimeWindow::Last7Days)
    } else {
        Err(concat3("Invalid time window: ", s, ". Valid values: 1h, 24h, 7d"))
    }
}

/// The report format that `s` names, or an error that lists the valid ones.
pub fn parse_report_format(s: &str) -> (r: Result<ReportFormat, String>)
    ensures
        r matches Ok(f) ==> report_format_named(s@) == Some(f),
        r matches Err(m) ==> report_format_named(s@) is None
            && m@ == "Invalid report format: "@ + s@ + ". Valid values: console, json, html"@,
{
    if matches_keyword(s, "console") {
        Ok(ReportFormat::Console)
    } else if matches_keyword(s, "json") {
        Ok(ReportFormat::Json)
    } else if matches_keyword(s, "html") {
        Ok(ReportFormat::Html)
    } else {
        Err(concat3("Invalid report format: ", s, ". Valid values: console, json, html"))
    }
}

/// The label of a time window in reports.
pub fn format_time_window_label(window: TimeWindow) -> (r: String)
    ensures
        r@ == window_text(window),
{
    window.to_string()
}

// ---------------------------------------------------------------------------
// The HTML report
// ---------------------------------------------------------------------------

/// The metrics table of one tool, under its name.
pub struct HtmlToolTable {
    pub tool_name: String,
    pub table: String,
}

/// One server of an HTML report: its name, the tool when the metrics are
/// those of one tool, the metrics table, and the tables of its tools.
pub struct HtmlServerGroup {
    pub server_name: String,
    pub tool_name: Option<String>,
    pub table: String,
    pub tools: Vec<HtmlToolTable>,
}

/// The tool sections: each tool's escaped name as a heading, then its table.
pub open spec fn tools_html(ts: Seq<HtmlToolTable>) -> Seq<char>
    decreases ts.len(),
{
    if ts.len() == 0 {
        Seq::empty()
    } else {
        tools_html(ts.drop_last()) + "  <h4>"@ + html_escaped(ts.last().tool_name@) + "</h4>\n"@ + ts.last().table@
    }
}

/// The section of one server. Names stand only escaped.
pub open spec fn group_html(g: HtmlServerGroup) -> Seq<char> {
    "  <h2>Server: "@ + html_escaped(g.server_name@) + "</h2>\n"@ + match g.tool_name {
        Some(t) => "  <h3>Tool Metrics</h3>\n"@ + "  <h4>"@ + html_escaped(t@) + "</h4>\n"@ + g.table@,
        None => "  <h3>Server Overview</h3>\n"@ + g.table@ + (if g.tools@.len() > 0 {
            "  <h3>Tool Metrics</h3>\n"@ + tools_html(g.tools@)
        } else {
            Seq::empty()
        }),
    }
}

/// The sections of all servers, in order.
pub open spec fn groups_html(gs: Seq<HtmlServerGroup>) -> Seq<char>
    decreases gs.len(),
{
    if gs.len() == 0 {
        Seq::empty()
    } else {
        groups_html(gs.drop_last()) + group_html(gs.last())
    }
}

/// The whole HTML report: head with the escaped window label and the styles,
/// a notice when there are no metrics, the server sections, and the time of
/// generation.
pub open spec fn html_report_text(label: Seq<char>, styles: Seq<char>, gs: Seq<HtmlServerGroup>, generated_at: Seq<char>) -> Seq<char> {
    "<!DOCTYPE html>\n<html lang=\"en\">\n<head>\n  <meta charset=\"UTF-8\">\n"@
        + "  <meta name=\"viewport\" content=\"width=device-width, initial-scale=1.0\">\n"@
        + "  <title>Performance Report - "@ + html_escaped(label) + "</title>\n"@
        + "  <style>\n"@ + styles + "  </style>\n</head>\n<body>\n"@
        + "  <h1>Performance Report ("@ + html_escaped(label) + ")</h1>\n"@
        + (if gs.len() == 0 {
            "  <p>No metrics available for the specified time window.</p>\n"@
        } else {
            Seq::empty()
        })
        + groups_html(gs)
        + "  <footer>Generated at: "@ + generated_at + "</footer>\n"@
        + "</body>\n</html>\n"@
}

fn push_tools_html(out: &mut String, ts: &Vec<HtmlToolTable>)
    ensures
        final(out)@ == old(out)@ + tools_html(ts@),
{
    let ghost start = out@;
    let mut i: usize = 0;
    while i < ts.len()
        invariant
            i <= ts@.len(),
            out@ == start + tools_html(ts@.take(i as int)),
        decreases ts@.len() - i,
    {
        proof {
            assert(ts@.take(i + 1).drop_last() =~= ts@.take(i as int));
        }
        push_str(out, "  <h4>");
        let name = html_escape(ts[i].tool_name.as_str());
        push_str(out, name.as_str());
        push_str(out, "</h4>\n");
        push_str(out, ts[i].table.as_str());
        i = i + 1;
    }
    proof {
        assert(ts@.take(ts@.len() as int) =~= ts@);
    }
}

fn push_group_html(out: &mut String, g: &HtmlServerGroup)
    ensures
        final(out)@ == old(out)@ + group_html(*g),
{
    push_str(out, "  <h2>Server: ");
    let name = html_escape(g.server_name.as_str());
    push_str(out, name.as_str());
    push_str(out, "</h2>\n");
    match &g.tool_name {
        Some(t) => {
            push_str(out, "  <h3>Tool Metrics</h3>\n");
            push_str(out, "  <h4>");
            let tn = html_escape(t.as_str());
            push_str(out, tn.as_str());
            push_str(out, "</h4>\n");
            push_str(out, g.table.as_str());
        },
        None => {
            push_str(out, "  <h3>Server Overview</h3>\n");
            push_str(out, g.table.as_str());
            if g.tools.len() > 0 {
                push_str(out, "  <h3>Tool Metrics</h3>\n");
                push_tools_html(out, &g.tools);
            }
        },
    }
}

/// The HTML performance report for the window named `label`, with `styles`
/// in its head, one section per server of `groups` (the metrics tables come
/// ready made), and `generated_at` as the time of generation. Every name is
/// escaped.
pub fn html_report(label: &str, styles: &str, groups: &Vec<HtmlServerGroup>, generated_at: &str) -> (r: String)
    ensures
        r@ == html_report_text(label@, styles@, groups@, generated_at@),
{
    let mut out = String::new();
    push_str(&mut out, "<!DOCTYPE html>\n<html lang=\"en\">\n<head>\n  <meta charset=\"UTF-8\">\n");
    push_str(&mut out, "  <meta name=\"viewport\" content=\"width=device-width, initial-scale=1.0\">\n");
    let escaped = html_escape(label);
    push_str(&mut out, "  <title>Performance Report - ");
    push_str(&mut out, escaped.as_str());
    push_str(&mut out, "</title>\n");
    push_str(&mut out, "  <style>\n");
    push_str(&mut out, styles);
    push_str(&mut out, "  </style>\n</head>\n<body>\n");
    push_str(&mut out, "  <h1>Performance Report (");
    push_str(&mut out, escaped.as_str());
    push_str(&mut out, ")</h1>\n");
    if groups.len() == 0 {
        push_str(&mut out, "  <p>No metrics available for the specified time window.</p>\n");
    }
    let ghost start = out@;
    let mut i: usize = 0;
    while i < groups.len()
        invariant
            i <= groups@.len(),
            out@ == start + groups_html(groups@.take(i as int)),
        decreases groups@.len() - i,
    {
        proof {
            assert(groups@.take(i + 1).drop_last() =~= groups@.take(i as int));
        }
        push_group_html(&mut out, &groups[i]);
        i = i + 1;
    }
    proof {
        assert(groups@.take(groups@.len() as int) =~= groups@);
    }
    push_str(&mut out, "  <footer>Generated at: ");
    push_str(&mut out, generated_at);
    push_str(&mut out, "</footer>\n");
    push_str(&mut out, "</body>\n</html>\n");
    assert(out@ =~= html_report_text(label@, styles@, groups@, generated_at@));
    out
}

} // verus!
