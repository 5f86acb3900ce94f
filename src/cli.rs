//! Command-line flags of the monitor.
use vstd::prelude::*;
use vstd::string::StringExecFns;

verus! {

/// Text shown when the flag is not recognised.
pub open spec fn usage_text() -> Seq<char> {
    "USAGE: rtop [FLAG]?\nFLAG: -u, --current_usage: Sets process CPU% usage to be based on the current system CPU% rather than total CPU usage."@
}

/// Reads the arguments (program name first): `Ok(true)` selects
/// current-total CPU accounting (`-u` or `--current_usage`), `Ok(false)`
/// overall-total (no flag); any other flag gives the usage text, and more
/// than one flag an error.
pub fn check_args(args: Vec<String>) -> (r: Result<bool, &'static str>)
    ensures
        args.len() < 2 ==> r == Ok::<bool, &'static str>(false),
        args.len() == 2 && (args[1]@ == "-u"@ || args[1]@ == "--current_usage"@)
            ==> r == Ok::<bool, &'static str>(true),
        args.len() == 2 && !(args[1]@ == "-u"@ || args[1]@ == "--current_usage"@)
            ==> r is Err && r->Err_0@ == usage_text(),
        args.len() > 2 ==> r is Err && r->Err_0@ == "Too many arguments"@,
{
    if args.len() == 2 {
        let short = String::from_str("-u");
        let long = String::from_str("--current_usage");
        if args[1] == short || args[1] == long {
            return Ok(true);
        } else {
            return Err(
                "USAGE: rtop [FLAG]?\nFLAG: -u, --current_usage: Sets process CPU% usage to be based on the current system CPU% rather than total CPU usage.",
            );
        }
    } else if args.len() > 2 {
        return Err("Too many arguments");
    }
    Ok(false)
}

} // verus!
