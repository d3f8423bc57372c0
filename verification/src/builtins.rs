//! The fixed table of built-in formatting arguments.
//!
//! These `(name, ANSI escape)` pairs are always appended after the
//! caller-supplied arguments, in the fixed order below, so a built-in
//! substitution always runs after every user substitution.

use vstd::prelude::*;

use crate::substitution::pairs_view;

verus! {

/// The built-in `(name, value)` pairs, in the order they are applied:
/// formatting codes, foreground colors, bright foreground colors, background
/// colors, bright background colors.
pub open spec fn builtin_pairs() -> Seq<(Seq<char>, Seq<char>)> {
    seq![
        ("end"@, "\x1b[0m"@),
        ("bold"@, "\x1b[1m"@),
        ("italic"@, "\x1b[3m"@),
        ("underline"@, "\x1b[4m"@),
        ("overline"@, "\x1b[53m"@),
        ("color.black"@, "\x1b[30m"@),
        ("color.red"@, "\x1b[31m"@),
        ("color.green"@, "\x1b[32m"@),
        ("color.yellow"@, "\x1b[33m"@),
        ("color.blue"@, "\x1b[34m"@),
        ("color.magenta"@, "\x1b[35m"@),
        ("color.cyan"@, "\x1b[36m"@),
        ("color.white"@, "\x1b[37m"@),
        ("color.bright_black"@, "\x1b[90m"@),
        ("color.bright_red"@, "\x1b[91m"@),
        ("color.bright_green"@, "\x1b[92m"@),
        ("color.bright_yellow"@, "\x1b[93m"@),
        ("color.bright_blue"@, "\x1b[94m"@),
        ("color.bright_magenta"@, "\x1b[95m"@),
        ("color.bright_cyan"@, "\x1b[96m"@),
        ("color.bright_white"@, "\x1b[97m"@),
        ("back.black"@, "\x1b[40m"@),
        ("back.red"@, "\x1b[41m"@),
        ("back.green"@, "\x1b[42m"@),
        ("back.yellow"@, "\x1b[43m"@),
        ("back.blue"@, "\x1b[44m"@),
        ("back.magenta"@, "\x1b[45m"@),
        ("back.cyan"@, "\x1b[46m"@),
        ("back.white"@, "\x1b[47m"@),
        ("back.bright_black"@, "\x1b[100m"@),
        ("back.bright_red"@, "\x1b[101m"@),
        ("back.bright_green"@, "\x1b[102m"@),
        ("back.bright_yellow"@, "\x1b[103m"@),
        ("back.bright_blue"@, "\x1b[104m"@),
        ("back.bright_magenta"@, "\x1b[105m"@),
        ("back.bright_cyan"@, "\x1b[106m"@),
        ("back.bright_white"@, "\x1b[107m"@),
    ]
}

/// The built-in argument table as an executable vector, in the fixed order of
/// [`builtin_pairs`].
pub(crate) fn builtin_arguments() -> (r: Vec<(&'static str, &'static str)>)
    ensures
        pairs_view(r@) == builtin_pairs(),
{
    let mut v: Vec<(&'static str, &'static str)> = Vec::new();
    v.push(("end", "\x1b[0m"));
    v.push(("bold", "\x1b[1m"));
    v.push(("italic", "\x1b[3m"));
    v.push(("underline", "\x1b[4m"));
    v.push(("overline", "\x1b[53m"));
    v.push(("color.black", "\x1b[30m"));
    v.push(("color.red", "\x1b[31m"));
    v.push(("color.green", "\x1b[32m"));
    v.push(("color.yellow", "\x1b[33m"));
    v.push(("color.blue", "\x1b[34m"));
    v.push(("color.magenta", "\x1b[35m"));
    v.push(("color.cyan", "\x1b[36m"));
    v.push(("color.white", "\x1b[37m"));
    v.push(("color.bright_black", "\x1b[90m"));
    v.push(("color.bright_red", "\x1b[91m"));
    v.push(("color.bright_green", "\x1b[92m"));
    v.push(("color.bright_yellow", "\x1b[93m"));
    v.push(("color.bright_blue", "\x1b[94m"));
    v.push(("color.bright_magenta", "\x1b[95m"));
    v.push(("color.bright_cyan", "\x1b[96m"));
    v.push(("color.bright_white", "\x1b[97m"));
    v.push(("back.black", "\x1b[40m"));
    v.push(("back.red", "\x1b[41m"));
    v.push(("back.green", "\x1b[42m"));
    v.push(("back.yellow", "\x1b[43m"));
    v.push(("back.blue", "\x1b[44m"));
    v.push(("back.magenta", "\x1b[45m"));
    v.push(("back.cyan", "\x1b[46m"));
    v.push(("back.white", "\x1b[47m"));
    v.push(("back.bright_black", "\x1b[100m"));
    v.push(("back.bright_red", "\x1b[101m"));
    v.push(("back.bright_green", "\x1b[102m"));
    v.push(("back.bright_yellow", "\x1b[103m"));
    v.push(("back.bright_blue", "\x1b[104m"));
    v.push(("back.bright_magenta", "\x1b[105m"));
    v.push(("back.bright_cyan", "\x1b[106m"));
    v.push(("back.bright_white", "\x1b[107m"));
    proof {
        assert(pairs_view(v@) =~= builtin_pairs());
    }
    v
}

} // verus!
