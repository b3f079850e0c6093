//! Terminal styling: ANSI colors around messages, table cells and report
//! rows. Without colors every function gives the plain text.
use vstd::prelude::*;
use crate::text::{append_padded_right, append_str, pad_right, starts_with, str_eq, str_has_prefix};

verus! {

pub const ANSI_RESET: &'static str = "\x1b[0m";
pub const ANSI_GREEN: &'static str = "\x1b[32m";
pub const ANSI_CYAN: &'static str = "\x1b[36m";
pub const ANSI_YELLOW: &'static str = "\x1b[33m";
pub const ANSI_RED: &'static str = "\x1b[31m";
pub const ANSI_PURPLE: &'static str = "\x1b[35m";
pub const ANSI_WHITE: &'static str = "\x1b[37m";
pub const ANSI_GOLD: &'static str = "\x1b[1;33m";
pub const ANSI_HEADING: &'static str = "\x1b[1;36m";
pub const ANSI_HINT: &'static str = "\x1b[2;37m";

/// A message in a color, or plain.
pub open spec fn styled(message: Seq<char>, color: Seq<char>, colors: bool) -> Seq<char> {
    if colors {
        color + message + ANSI_RESET@
    } else {
        message
    }
}

/// `<prefix>'<name>'<suffix>`, the name in gold.
pub open spec fn profile_status_text(
    prefix: Seq<char>,
    name: Seq<char>,
    suffix: Seq<char>,
    color: Seq<char>,
    colors: bool,
) -> Seq<char> {
    if colors {
        color + prefix + ANSI_GOLD@ + "'"@ + name + "'"@ + ANSI_RESET@ + color + suffix + ANSI_RESET@
    } else {
        prefix + "'"@ + name + "'"@ + suffix
    }
}

/// A message in a color, or plain.
pub fn styled_message(message: &str, color: &str, colors: bool) -> (r: String)
    ensures
        r@ == styled(message@, color@, colors),
{
    if colors {
        let mut r = String::from_str(color);
        append_str(&mut r, message);
        append_str(&mut r, ANSI_RESET);
        r
    } else {
        message.to_owned()
    }
}

/// A status line that names a profile: `<prefix>'<name>'<suffix>`.
pub fn profile_status(prefix: &str, name: &str, suffix: &str, color: &str, colors: bool) -> (r:
    String)
    ensures
        r@ == profile_status_text(prefix@, name@, suffix@, color@, colors),
{
    let mut r = String::new();
    if colors {
        append_str(&mut r, color);
    }
    append_str(&mut r, prefix);
    if colors {
        append_str(&mut r, ANSI_GOLD);
    }
    append_str(&mut r, "'");
    append_str(&mut r, name);
    append_str(&mut r, "'");
    if colors {
        append_str(&mut r, ANSI_RESET);
        append_str(&mut r, color);
    }
    append_str(&mut r, suffix);
    if colors {
        append_str(&mut r, ANSI_RESET);
    }
    proof {
        assert(Seq::<char>::empty() + color@ =~= color@);
        assert(Seq::<char>::empty() + prefix@ =~= prefix@);
    }
    r
}

/// The two lines printed after switching profiles.
pub fn switch_confirmation(name: &str, colors: bool) -> (r: [String; 2])
    ensures
        r[0]@ == profile_status_text("Switched to profile "@, name@, "."@, ANSI_GREEN@, colors),
        r[1]@ == styled(
            "Restart the Codex chat in your IDE if it was already open."@,
            ANSI_HINT@,
            colors,
        ),
{
    [
        profile_status("Switched to profile ", name, ".", ANSI_GREEN, colors),
        styled_message(
            "Restart the Codex chat in your IDE if it was already open.",
            ANSI_HINT,
            colors,
        ),
    ]
}

/// A statistics row: the label padded to 20 columns in the hint color,
/// then the value in its color.
pub fn format_stat_row(label: &str, value: &str, value_color: &str, colors: bool) -> (r: String)
    ensures
        r@ == styled(pad_right(label@, 20), ANSI_HINT@, colors) + styled(
            value@,
            value_color@,
            colors,
        ),
{
    let mut padded = String::new();
    append_padded_right(&mut padded, label, 20);
    assert(padded@ =~= pad_right(label@, 20));
    let mut r = styled_message(padded.as_str(), ANSI_HINT, colors);
    let v = styled_message(value, value_color, colors);
    append_str(&mut r, v.as_str());
    r
}

/// The color of an activity trend: green for growth or new activity, red
/// for decline, the hint color otherwise.
pub open spec fn trend_style(trend: Seq<char>) -> Seq<char> {
    if starts_with(trend, "trend +"@) || trend == "trend new activity"@ {
        ANSI_GREEN@
    } else if starts_with(trend, "trend -"@) {
        ANSI_RED@
    } else {
        ANSI_HINT@
    }
}

/// The color of an activity trend.
pub fn trend_color(trend: &str) -> (r: &'static str)
    ensures
        r@ == trend_style(trend@),
{
    if str_has_prefix(trend, "trend +") || str_eq(trend, "trend new activity") {
        ANSI_GREEN
    } else if str_has_prefix(trend, "trend -") {
        ANSI_RED
    } else {
        ANSI_HINT
    }
}

/// The color of a table cell: headings in bold cyan; the active profile in
/// gold, plans in purple, remaining quota in `remaining` (the color for its
/// level), reset times in white.
pub open spec fn cell_style(value: Seq<char>, index: nat, header: bool, remaining: Seq<char>) -> Seq<char> {
    if header {
        "\x1b[1;36m"@
    } else if index == 0 && starts_with(value, "* "@) {
        "\x1b[1;33m"@
    } else if index == 1 {
        "\x1b[35m"@
    } else if index == 2 || index == 4 {
        remaining
    } else if index == 3 || index == 5 {
        "\x1b[37m"@
    } else {
        Seq::empty()
    }
}

/// A table cell (`cell`, the padded form of `value`) in its color.
pub open spec fn colorized(
    cell: Seq<char>,
    value: Seq<char>,
    index: nat,
    header: bool,
    colors: bool,
    remaining: Seq<char>,
) -> Seq<char> {
    if !colors || cell_style(value, index, header, remaining).len() == 0 {
        cell
    } else {
        cell_style(value, index, header, remaining) + cell + "\x1b[0m"@
    }
}

/// A table cell in its color; `remaining` is the color for the quota level
/// `value` shows, used in the two remaining-quota columns.
pub fn colorize_cell(
    cell: &str,
    value: &str,
    index: usize,
    header: bool,
    colors: bool,
    remaining: &str,
) -> (r: String)
    ensures
        r@ == colorized(cell@, value@, index as nat, header, colors, remaining@),
{
    if !colors {
        return cell.to_owned();
    }
    let style: &str = if header {
        "\x1b[1;36m"
    } else if index == 0 && str_has_prefix(value, "* ") {
        "\x1b[1;33m"
    } else if index == 1 {
        "\x1b[35m"
    } else if index == 2 || index == 4 {
        remaining
    } else if index == 3 || index == 5 {
        "\x1b[37m"
    } else {
        ""
    };
    proof {
        reveal_strlit("");
    }
    if style.is_empty() {
        cell.to_owned()
    } else {
        let mut r = String::from_str(style);
        append_str(&mut r, cell);
        append_str(&mut r, "\x1b[0m");
        r
    }
}

/// A line of `doctor`: `[ok]` or `[!!]`, then the message.
pub open spec fn report_text(ok: bool, message: Seq<char>, colors: bool) -> Seq<char> {
    let marker = if ok {
        "[ok]"@
    } else {
        "[!!]"@
    };
    let color = if ok {
        ANSI_GREEN@
    } else {
        ANSI_RED@
    };
    if colors {
        color + marker + ANSI_RESET@ + " "@ + message
    } else {
        marker + " "@ + message
    }
}

/// A line of `doctor`'s report.
pub fn report_line(ok: bool, message: &str, colors: bool) -> (r: String)
    ensures
        r@ == report_text(ok, message@, colors),
{
    let marker = if ok {
        "[ok]"
    } else {
        "[!!]"
    };
    let color = if ok {
        ANSI_GREEN
    } else {
        ANSI_RED
    };
    let mut r = String::new();
    if colors {
        append_str(&mut r, color);
        append_str(&mut r, marker);
        append_str(&mut r, ANSI_RESET);
    } else {
        append_str(&mut r, marker);
    }
    append_str(&mut r, " ");
    append_str(&mut r, message);
    proof {
        assert(Seq::<char>::empty() + color@ =~= color@);
        assert(Seq::<char>::empty() + marker@ =~= marker@);
    }
    r
}

} // verus!
