//! The two compact command-line tools: `blitz-host` of the transport crate
//! (inspect by default, `click <NODE_ID>`, `settle <FRAMES>`) and
//! `blitz-inspect`. Each reads its arguments (those after the program name)
//! into a plan: what to print, which node to click, how many frames to
//! settle, and which descriptor to attach to.

use vstd::prelude::*;

use crate::cli::{find_flag_value, flag_value, lits, texts, then_u32, then_u64};
use crate::text::{chars_end_with, chars_of, has_suffix, parse_u32_chars, parse_u64_chars, spec_parse_u32, spec_parse_u64, str_is};

verus! {

/// Whether one of the arguments is one of `names`.
pub open spec fn mentions(args: Seq<Seq<char>>, names: Seq<Seq<char>>) -> bool {
    exists|i: int, k: int| 0 <= i < args.len() && 0 <= k < names.len() && args[i] == names[k]
}

fn mentions_any(args: &[String], names: &[&str]) -> (r: bool)
    ensures
        r == mentions(texts(args@), lits(names@)),
{
    let mut i: usize = 0;
    while i < args.len()
        invariant
            i <= args@.len(),
            forall|j: int, k: int|
                0 <= j < i && 0 <= k < names@.len() ==> texts(args@)[j] != lits(names@)[k],
        decreases args@.len() - i,
    {
        let mut k: usize = 0;
        while k < names.len()
            invariant
                i < args@.len(),
                k <= names@.len(),
                forall|j: int, m: int|
                    0 <= j < i && 0 <= m < names@.len() ==> texts(args@)[j] != lits(names@)[m],
                forall|m: int| 0 <= m < k ==> texts(args@)[i as int] != lits(names@)[m],
            decreases names@.len() - k,
        {
            if str_is(args[i].as_str(), names[k]) {
                assert(texts(args@)[i as int] == lits(names@)[k as int]);
                return true;
            }
            k = k + 1;
        }
        i = i + 1;
    }
    false
}

/// Whether an argument is a flag: it starts with `-`.
pub open spec fn is_dash(a: Seq<char>) -> bool {
    a.len() > 0 && a[0] == '-'
}

/// The arguments that are not flags, in order.
pub open spec fn non_flags(args: Seq<Seq<char>>) -> Seq<Seq<char>>
    decreases args.len(),
{
    if args.len() == 0 {
        Seq::empty()
    } else {
        non_flags(args.drop_last()) + if is_dash(args.last()) {
            Seq::empty()
        } else {
            seq![args.last()]
        }
    }
}

fn non_flag_args(args: &[String]) -> (r: Vec<String>)
    ensures
        texts(r@) == non_flags(texts(args@)),
{
    let ghost a = texts(args@);
    let mut out: Vec<String> = Vec::new();
    let mut i: usize = 0;
    assert(a.take(0) =~= Seq::<Seq<char>>::empty());
    assert(texts(out@) =~= Seq::<Seq<char>>::empty());
    while i < args.len()
        invariant
            i <= args@.len(),
            a == texts(args@),
            texts(out@) == non_flags(a.take(i as int)),
        decreases args@.len() - i,
    {
        let chars = chars_of(args[i].as_str());
        let ghost before = texts(out@);
        assert(a.take(i + 1).drop_last() =~= a.take(i as int));
        assert(a.take(i + 1).last() == a[i as int]);
        assert(a[i as int] == chars@);
        if !(chars.len() > 0 && chars[0] == '-') {
            out.push(args[i].clone());
            assert(texts(out@) =~= before + seq![a[i as int]]);
        } else {
            assert(before + Seq::<Seq<char>>::empty() =~= before);
        }
        i = i + 1;
    }
    assert(a.take(i as int) =~= a);
    out
}

/// The click, settle and descriptor the transport tool reads from its
/// subcommand: `click <NODE_ID> [PATH]`, `settle <FRAMES> [PATH]`,
/// `inspect [PATH]`, or a first argument ending in `.json` as the path.
pub open spec fn subcommand_choice(nf: Seq<Seq<char>>) -> (Option<u64>, Option<u32>, Option<Seq<char>>) {
    let third = if nf.len() > 2 {
        Some(nf[2])
    } else {
        None
    };
    if nf.len() == 0 {
        (None, None, None)
    } else if nf[0] == "click"@ {
        (if nf.len() > 1 {
            spec_parse_u64(nf[1])
        } else {
            None
        }, None, third)
    } else if nf[0] == "settle"@ {
        (None, if nf.len() > 1 {
            spec_parse_u32(nf[1])
        } else {
            None
        }, third)
    } else if nf[0] == "inspect"@ {
        (None, None, if nf.len() > 1 {
            Some(nf[1])
        } else {
            None
        })
    } else if has_suffix(nf[0], ".json"@) {
        (None, None, Some(nf[0]))
    } else {
        (None, None, None)
    }
}

/// `-c <NODE_ID>` or `--click <NODE_ID>`.
pub open spec fn click_flag(args: Seq<Seq<char>>) -> Option<Seq<char>> {
    flag_value(args, seq!["-c"@, "--click"@], Seq::empty())
}

/// `-s <FRAMES>` or `--settle <FRAMES>`.
pub open spec fn settle_flag(args: Seq<Seq<char>>) -> Option<Seq<char>> {
    flag_value(args, seq!["-s"@, "--settle"@], Seq::empty())
}

/// Frames to settle: as asked, else two after a click, else none.
pub open spec fn settle_after(click: Option<u64>, settle: Option<u32>) -> Option<u32> {
    if click is Some && settle is None {
        Some(2)
    } else {
        settle
    }
}

/// What the transport tool does.
#[derive(Debug, Clone, PartialEq, Eq)]
pub struct TransportPlan {
    /// `-h` or `--help`: print the help and stop.
    pub help: bool,
    /// `-V` or `--version`: print the version and stop.
    pub version: bool,
    /// `--json`: print the inspection as JSON.
    pub json: bool,
    /// The node to click first.
    pub click: Option<u64>,
    /// The frames to settle before inspecting.
    pub settle: Option<u32>,
    /// The descriptor to attach to; automatic discovery when `None`.
    pub descriptor: Option<String>,
}

/// Reads the transport tool's arguments. The `-c/--click` and
/// `-s/--settle` flags override what a `click` or `settle` subcommand gives
/// (a value that does not parse clears it), and a click settles two frames
/// unless told otherwise.
pub fn plan_transport_cli(args: &[String]) -> (p: TransportPlan)
    ensures
        ({
            let a = texts(args@);
            let (c0, s0, d) = subcommand_choice(non_flags(a));
            let click = match click_flag(a) {
                Some(v) => spec_parse_u64(v),
                None => c0,
            };
            let settle = match settle_flag(a) {
                Some(v) => spec_parse_u32(v),
                None => s0,
            };
            &&& p.help == mentions(a, seq!["-h"@, "--help"@])
            &&& p.version == mentions(a, seq!["-V"@, "--version"@])
            &&& p.json == mentions(a, seq!["--json"@])
            &&& p.click == click
            &&& p.settle == settle_after(click, settle)
            &&& match d {
                Some(path) => p.descriptor matches Some(q) && q@ == path,
                None => p.descriptor is None,
            }
        }),
{
    let help_names: [&str; 2] = ["-h", "--help"];
    let version_names: [&str; 2] = ["-V", "--version"];
    let json_names: [&str; 1] = ["--json"];
    let click_names: [&str; 2] = ["-c", "--click"];
    let settle_names: [&str; 2] = ["-s", "--settle"];
    let none: [&str; 0] = [];
    assert(lits(help_names@) =~= seq!["-h"@, "--help"@]);
    assert(lits(version_names@) =~= seq!["-V"@, "--version"@]);
    assert(lits(json_names@) =~= seq!["--json"@]);
    assert(lits(click_names@) =~= seq!["-c"@, "--click"@]);
    assert(lits(settle_names@) =~= seq!["-s"@, "--settle"@]);
    assert(lits(none@) =~= Seq::<Seq<char>>::empty());
    let help = mentions_any(args, help_names.as_slice());
    let version = mentions_any(args, version_names.as_slice());
    let json = mentions_any(args, json_names.as_slice());
    let nf = non_flag_args(args);
    let ghost nft = texts(nf@);
    let mut click: Option<u64> = None;
    let mut settle: Option<u32> = None;
    let mut descriptor: Option<String> = None;
    if nf.len() > 0 {
        let sub = nf[0].as_str();
        let third = if nf.len() > 2 {
            Some(nf[2].clone())
        } else {
            None
        };
        assert(nft[0] == nf@[0]@);
        if nf.len() > 2 {
            assert(nft[2] == nf@[2]@);
        }
        if nf.len() > 1 {
            assert(nft[1] == nf@[1]@);
        }
        if str_is(sub, "click") {
            if nf.len() > 1 {
                let v = chars_of(nf[1].as_str());
                click = parse_u64_chars(v.as_slice());
            }
            descriptor = third;
        } else if str_is(sub, "settle") {
            if nf.len() > 1 {
                let v = chars_of(nf[1].as_str());
                settle = parse_u32_chars(v.as_slice());
            }
            descriptor = third;
        } else if str_is(sub, "inspect") {
            if nf.len() > 1 {
                descriptor = Some(nf[1].clone());
            }
        } else {
            let s = chars_of(sub);
            let json_ext = chars_of(".json");
            if chars_end_with(s.as_slice(), json_ext.as_slice()) {
                descriptor = Some(nf[0].clone());
            }
        }
    }
    match find_flag_value(args, click_names.as_slice(), none.as_slice()) {
        Some(v) => {
            click = parse_u64_chars(v.as_slice());
        },
        None => {},
    }
    match find_flag_value(args, settle_names.as_slice(), none.as_slice()) {
        Some(v) => {
            settle = parse_u32_chars(v.as_slice());
        },
        None => {},
    }
    if click.is_some() && settle.is_none() {
        settle = Some(2);
    }
    TransportPlan { help, version, json, click, settle, descriptor }
}

/// The first argument that is not a flag and ends in `.json`.
pub open spec fn first_json_from(args: Seq<Seq<char>>, i: int) -> Option<Seq<char>>
    decreases args.len() - i,
{
    if i < 0 || i >= args.len() {
        None
    } else if !is_dash(args[i]) && has_suffix(args[i], ".json"@) {
        Some(args[i])
    } else {
        first_json_from(args, i + 1)
    }
}

fn first_json_arg(args: &[String]) -> (r: Option<String>)
    ensures
        match first_json_from(texts(args@), 0) {
            Some(path) => r matches Some(q) && q@ == path,
            None => r is None,
        },
{
    let ghost a = texts(args@);
    let json_ext = chars_of(".json");
    let mut i: usize = 0;
    while i < args.len()
        invariant
            i <= args@.len(),
            a == texts(args@),
            json_ext@ == ".json"@,
            first_json_from(a, 0) == first_json_from(a, i as int),
        decreases args@.len() - i,
    {
        let s = chars_of(args[i].as_str());
        assert(a[i as int] == s@);
        if !(s.len() > 0 && s[0] == '-') && chars_end_with(s.as_slice(), json_ext.as_slice()) {
            return Some(args[i].clone());
        }
        i = i + 1;
    }
    None
}

/// What `blitz-inspect` does.
#[derive(Debug, Clone, PartialEq, Eq)]
pub struct InspectorPlan {
    /// `-h` or `--help`: print the help and stop.
    pub help: bool,
    /// `--json`: print the inspection as JSON.
    pub json: bool,
    /// The node to click first.
    pub click: Option<u64>,
    /// The frames to settle before inspecting.
    pub settle: Option<u32>,
    /// The descriptor to attach to; automatic discovery when `None`.
    pub descriptor: Option<String>,
}

/// Reads `blitz-inspect`'s arguments: `--click` and `--settle` flags (a
/// click settles two frames unless told otherwise) and the first non-flag
/// argument ending in `.json` as the descriptor.
pub fn plan_inspector_cli(args: &[String]) -> (p: InspectorPlan)
    ensures
        ({
            let a = texts(args@);
            let click = then_u64(click_flag(a));
            &&& p.help == mentions(a, seq!["-h"@, "--help"@])
            &&& p.json == mentions(a, seq!["--json"@])
            &&& p.click == click
            &&& p.settle == settle_after(click, then_u32(settle_flag(a)))
            &&& match first_json_from(a, 0) {
                Some(path) => p.descriptor matches Some(q) && q@ == path,
                None => p.descriptor is None,
            }
        }),
{
    let help_names: [&str; 2] = ["-h", "--help"];
    let json_names: [&str; 1] = ["--json"];
    let click_names: [&str; 2] = ["-c", "--click"];
    let settle_names: [&str; 2] = ["-s", "--settle"];
    let none: [&str; 0] = [];
    assert(lits(help_names@) =~= seq!["-h"@, "--help"@]);
    assert(lits(json_names@) =~= seq!["--json"@]);
    assert(lits(click_names@) =~= seq!["-c"@, "--click"@]);
    assert(lits(settle_names@) =~= seq!["-s"@, "--settle"@]);
    assert(lits(none@) =~= Seq::<Seq<char>>::empty());
    let help = mentions_any(args, help_names.as_slice());
    let json = mentions_any(args, json_names.as_slice());
    let click = match find_flag_value(args, click_names.as_slice(), none.as_slice()) {
        Some(v) => parse_u64_chars(v.as_slice()),
        None => None,
    };
    let mut settle = match find_flag_value(args, settle_names.as_slice(), none.as_slice()) {
        Some(v) => parse_u32_chars(v.as_slice()),
        None => None,
    };
    if click.is_some() && settle.is_none() {
        settle = Some(2);
    }
    let descriptor = first_json_arg(args);
    InspectorPlan { help, json, click, settle, descriptor }
}

} // verus!
