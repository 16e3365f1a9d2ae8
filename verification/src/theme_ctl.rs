//! The decisions of the `theme-ctl` command: reading its arguments and
//! answering a colour query.

use vstd::prelude::*;
use crate::theme::{color_text, serialize, theme_color, Theme};

verus! {

/// How `theme-ctl` is invoked.
pub fn usage() -> (s: &'static str)
    ensures
        s@ == "usage: theme-ctl <theme.json> [color-name]"@,
{
    "usage: theme-ctl <theme.json> [color-name]"
}

/// What `theme-ctl` is asked to do: the theme file to read and, optionally,
/// the one colour to print.
pub struct Request {
    pub path: String,
    pub key: Option<String>,
}

/// Reads the arguments after the program name: a theme path and an
/// optional colour name. Nothing, or more than two arguments, is answered
/// with the usage text.
pub fn parse_args(args: &Vec<String>) -> (r: Result<Request, String>)
    ensures
        args.len() == 0 || args.len() > 2 ==> (r matches Err(e) && e@
            == "usage: theme-ctl <theme.json> [color-name]"@),
        args.len() == 1 ==> (r matches Ok(req) && req.path@ == args@[0]@ && req.key is None),
        args.len() == 2 ==> (r matches Ok(req) && req.path@ == args@[0]@ && (req.key matches Some(
            k,
        ) && k@ == args@[1]@)),
{
    if args.len() == 0 || args.len() > 2 {
        return Err(String::from_str(usage()));
    }
    let path = args[0].clone();
    let key = if args.len() == 2 {
        Some(args[1].clone())
    } else {
        None
    };
    Ok(Request { path, key })
}

/// The line `theme-ctl` prints for a colour name: the colour as `#rrggbb`,
/// or an error naming the unknown value.
pub fn color_line(theme: &Theme, key: &str) -> (r: Result<String, String>)
    ensures
        match theme_color(*theme, key@) {
            Some(c) => r matches Ok(line) && line@ == color_text(c),
            None => r matches Err(e) && e@ == "unknown theme value `"@ + key@ + "`"@,
        },
{
    match theme.color(key) {
        Some(c) => Ok(serialize(c)),
        None => {
            let mut message = String::from_str("unknown theme value `");
            message.append(key);
            message.append("`");
            Err(message)
        },
    }
}

} // verus!
