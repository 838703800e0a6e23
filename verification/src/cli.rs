//! The command line's options.
use crate::native::opt_view;
use crate::text::{chars_eq_str, chars_of, push_str, string_from_chars};
use vstd::prelude::*;

verus! {

/// The options after the command: the paths each flag names, and whether
/// help was asked for (parsing stops there).
#[derive(Clone, Debug, PartialEq, Eq)]
pub struct CliOptions {
    pub job: Option<String>,
    pub out: Option<String>,
    pub pdf: Option<String>,
    pub icc_profile: Option<String>,
    pub preflight_json: Option<String>,
    pub help: bool,
}

/// The options as plain values.
pub struct CliModel {
    pub job: Option<Seq<char>>,
    pub out: Option<Seq<char>>,
    pub pdf: Option<Seq<char>>,
    pub icc_profile: Option<Seq<char>>,
    pub preflight_json: Option<Seq<char>>,
    pub help: bool,
}

pub open spec fn cli_model(o: CliOptions) -> CliModel {
    CliModel {
        job: opt_view(o.job),
        out: opt_view(o.out),
        pdf: opt_view(o.pdf),
        icc_profile: opt_view(o.icc_profile),
        preflight_json: opt_view(o.preflight_json),
        help: o.help,
    }
}

/// The flag a path option is given with, by its position in `CliModel`.
pub open spec fn path_flag(k: int) -> Seq<char> {
    if k == 0 {
        "--job"@
    } else if k == 1 {
        "--out"@
    } else if k == 2 {
        "--pdf"@
    } else if k == 3 {
        "--icc-profile"@
    } else {
        "--preflight-json"@
    }
}

/// Which path option a flag sets, if it is one.
pub open spec fn flag_index(a: Seq<char>) -> Option<int> {
    if a == "--job"@ {
        Some(0)
    } else if a == "--out"@ {
        Some(1)
    } else if a == "--pdf"@ {
        Some(2)
    } else if a == "--icc-profile"@ {
        Some(3)
    } else if a == "--preflight-json"@ {
        Some(4)
    } else {
        None
    }
}

pub open spec fn set_path(m: CliModel, k: int, v: Seq<char>) -> CliModel {
    if k == 0 {
        CliModel { job: Some(v), ..m }
    } else if k == 1 {
        CliModel { out: Some(v), ..m }
    } else if k == 2 {
        CliModel { pdf: Some(v), ..m }
    } else if k == 3 {
        CliModel { icc_profile: Some(v), ..m }
    } else {
        CliModel { preflight_json: Some(v), ..m }
    }
}

/// Parsing the arguments from position `i` on, with the options read so
/// far: each path flag takes the next argument (a later one wins), help
/// stops the parse, anything else is refused.
pub open spec fn parse_from(args: Seq<Seq<char>>, i: nat, m: CliModel) -> Result<CliModel, Seq<char>>
    decreases args.len() - i,
{
    if i >= args.len() {
        Ok(m)
    } else {
        let a = args[i as int];
        match flag_index(a) {
            Some(k) => if i + 1 < args.len() {
                parse_from(args, i + 2, set_path(m, k, args[i + 1int]))
            } else {
                Err(path_flag(k) + " requires a path"@)
            },
            None => if a == "-h"@ || a == "--help"@ {
                Ok(CliModel { help: true, ..m })
            } else {
                Err("unknown option: "@ + a)
            },
        }
    }
}

pub open spec fn no_options() -> CliModel {
    CliModel { job: None, out: None, pdf: None, icc_profile: None, preflight_json: None, help: false }
}

pub open spec fn arg_texts(args: Seq<String>) -> Seq<Seq<char>> {
    args.map_values(|s: String| s@)
}

fn flag_index_exec(a: &[char]) -> (r: Option<usize>)
    ensures
        match flag_index(a@) {
            Some(k) => r == Some(k as usize),
            None => r is None,
        },
{
    if chars_eq_str(a, "--job") {
        Some(0)
    } else if chars_eq_str(a, "--out") {
        Some(1)
    } else if chars_eq_str(a, "--pdf") {
        Some(2)
    } else if chars_eq_str(a, "--icc-profile") {
        Some(3)
    } else if chars_eq_str(a, "--preflight-json") {
        Some(4)
    } else {
        None
    }
}

impl CliOptions {
    /// Parses the options that follow the command.
    pub fn parse(args: &[String]) -> (res: Result<CliOptions, String>)
        ensures
            match parse_from(arg_texts(args@), 0, no_options()) {
                Ok(m) => res matches Ok(o) && cli_model(o) == m,
                Err(msg) => res matches Err(e) && e@ == msg,
            },
    {
        let mut o = CliOptions { job: None, out: None, pdf: None, icc_profile: None, preflight_json: None, help: false };
        let ghost texts = arg_texts(args@);
        let mut i: usize = 0;
        while i < args.len()
            invariant
                texts == arg_texts(args@),
                i <= args@.len(),
                !o.help,
                parse_from(texts, i as nat, cli_model(o)) == parse_from(texts, 0, no_options()),
            decreases args@.len() - i,
        {
            let a = chars_of(args[i].as_str());
            assert(a@ == texts[i as int]);
            match flag_index_exec(a.as_slice()) {
                Some(k) => {
                    if i + 1 >= args.len() {
                        let mut m: Vec<char> = Vec::new();
                        if k == 0 {
                            push_str(&mut m, "--job");
                        } else if k == 1 {
                            push_str(&mut m, "--out");
                        } else if k == 2 {
                            push_str(&mut m, "--pdf");
                        } else if k == 3 {
                            push_str(&mut m, "--icc-profile");
                        } else {
                            push_str(&mut m, "--preflight-json");
                        }
                        push_str(&mut m, " requires a path");
                        return Err(string_from_chars(m.as_slice()));
                    }
                    let v = args[i + 1].clone();
                    assert(v@ == texts[i + 1]);
                    if k == 0 {
                        o.job = Some(v);
                    } else if k == 1 {
                        o.out = Some(v);
                    } else if k == 2 {
                        o.pdf = Some(v);
                    } else if k == 3 {
                        o.icc_profile = Some(v);
                    } else {
                        o.preflight_json = Some(v);
                    }
                    i = i + 2;
                },
                None => {
                    if chars_eq_str(a.as_slice(), "-h") || chars_eq_str(a.as_slice(), "--help") {
                        o.help = true;
                        return Ok(o);
                    }
                    let mut m = chars_of("unknown option: ");
                    push_str(&mut m, args[i].as_str());
                    return Err(string_from_chars(m.as_slice()));
                },
            }
        }
        Ok(o)
    }
}

} // verus!
