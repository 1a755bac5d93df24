//! Reading the command line of the control tool: flags, positional
//! arguments, compound key specifiers and the plan of each subcommand.

use vstd::prelude::*;

use crate::discovery::{is_pipe_path, TargetSelector};
use crate::protocol::{names_target, ElementTarget, KeyModifiers};
use crate::text::{
    chars_end_with, chars_eq, chars_from, chars_of, chars_start_with, has_prefix, has_suffix,
    parse_u32_chars, parse_u64_chars, spec_parse_u32, spec_parse_u64, string_from_chars,
    chars_until, chars_eq_ignore_ascii_case, eq_ascii_ci, find_char, first_index_of,
    lemma_first_index_of, lemma_first_index_of_facts, lemma_trimmed_len, trim_chars, trimmed,
    append_str, owned, str_is,
};

verus! {

/// The texts of a list of strings.
pub open spec fn texts(args: Seq<String>) -> Seq<Seq<char>> {
    args.map_values(|a: String| a@)
}

/// The texts of a list of string literals.
pub open spec fn lits(names: Seq<&str>) -> Seq<Seq<char>> {
    names.map_values(|a: &str| a@)
}

/// Whether `a` is one of `names`.
pub open spec fn is_one_of(a: Seq<char>, names: Seq<Seq<char>>) -> bool {
    exists|k: int| 0 <= k < names.len() && names[k] == a
}

/// The first of `prefixes` that `a` begins with.
pub open spec fn first_prefix(a: Seq<char>, prefixes: Seq<Seq<char>>) -> Option<int> {
    if exists|k: int| 0 <= k < prefixes.len() && has_prefix(a, prefixes[k]) {
        Some(
            choose|k: int|
                0 <= k < prefixes.len() && has_prefix(a, prefixes[k]) && forall|j: int|
                    0 <= j < k ==> !has_prefix(a, prefixes[j]),
        )
    } else {
        None
    }
}

/// The value of the first flag occurrence at or after `i`: the argument after
/// one of `names` (when there is one), or the rest of an argument that starts
/// with one of `prefixes` (such as `--pid=`).
pub open spec fn flag_value_from(
    args: Seq<Seq<char>>,
    names: Seq<Seq<char>>,
    prefixes: Seq<Seq<char>>,
    i: int,
) -> Option<Seq<char>>
    decreases args.len() - i,
{
    if i < 0 || i >= args.len() {
        None
    } else if is_one_of(args[i], names) && i + 1 < args.len() {
        Some(args[i + 1])
    } else {
        match first_prefix(args[i], prefixes) {
            Some(k) => Some(args[i].skip(prefixes[k].len() as int)),
            None => flag_value_from(args, names, prefixes, i + 1),
        }
    }
}

pub open spec fn flag_value(
    args: Seq<Seq<char>>,
    names: Seq<Seq<char>>,
    prefixes: Seq<Seq<char>>,
) -> Option<Seq<char>> {
    flag_value_from(args, names, prefixes, 0)
}

fn text_is_one_of(a: &[char], names: &[&str]) -> (r: bool)
    ensures
        r == is_one_of(a@, lits(names@)),
{
    let mut k: usize = 0;
    while k < names.len()
        invariant
            k <= names@.len(),
            forall|j: int| 0 <= j < k ==> lits(names@)[j] != a@,
        decreases names@.len() - k,
    {
        let n = chars_of(names[k]);
        if chars_eq(a, n.as_slice()) {
            assert(lits(names@)[k as int] == a@);
            return true;
        }
        k = k + 1;
    }
    false
}

proof fn lemma_first_prefix(a: Seq<char>, prefixes: Seq<Seq<char>>, k: int)
    requires
        0 <= k < prefixes.len(),
        has_prefix(a, prefixes[k]),
        forall|j: int| 0 <= j < k ==> !has_prefix(a, prefixes[j]),
    ensures
        first_prefix(a, prefixes) == Some(k),
{
    assert(exists|m: int|
        0 <= m < prefixes.len() && has_prefix(a, prefixes[m]) && forall|j: int|
            0 <= j < m ==> !has_prefix(a, prefixes[j]));
    let m = choose|m: int|
        0 <= m < prefixes.len() && has_prefix(a, prefixes[m]) && forall|j: int|
            0 <= j < m ==> !has_prefix(a, prefixes[j]);
    if m < k {
        assert(!has_prefix(a, prefixes[m]));
    } else if m > k {
        assert(!has_prefix(a, prefixes[k]));
    }
}

/// The rest of `a` after the first of `prefixes` that it begins with.
fn strip_first_prefix(a: &[char], prefixes: &[&str]) -> (r: Option<Vec<char>>)
    ensures
        match first_prefix(a@, lits(prefixes@)) {
            Some(k) => r matches Some(rest) && rest@ == a@.skip(lits(prefixes@)[k].len() as int),
            None => r is None,
        },
{
    let mut k: usize = 0;
    while k < prefixes.len()
        invariant
            k <= prefixes@.len(),
            forall|j: int| 0 <= j < k ==> !has_prefix(a@, lits(prefixes@)[j]),
        decreases prefixes@.len() - k,
    {
        let p = chars_of(prefixes[k]);
        if chars_start_with(a, p.as_slice()) {
            proof {
                lemma_first_prefix(a@, lits(prefixes@), k as int);
            }
            return Some(chars_from(a, p.len()));
        }
        k = k + 1;
    }
    None
}

/// The value given to a flag: see [`flag_value_from`].
pub fn find_flag_value(args: &[String], names: &[&str], prefixes: &[&str]) -> (r: Option<Vec<char>>)
    ensures
        match flag_value(texts(args@), lits(names@), lits(prefixes@)) {
            Some(v) => r matches Some(w) && w@ == v,
            None => r is None,
        },
{
    let ghost a = texts(args@);
    let ghost ns = lits(names@);
    let ghost ps = lits(prefixes@);
    let mut i: usize = 0;
    while i < args.len()
        invariant
            i <= args@.len(),
            a == texts(args@),
            ns == lits(names@),
            ps == lits(prefixes@),
            flag_value(a, ns, ps) == flag_value_from(a, ns, ps, i as int),
        decreases args@.len() - i,
    {
        let arg = chars_of(args[i].as_str());
        if text_is_one_of(arg.as_slice(), names) && i + 1 < args.len() {
            let v = chars_of(args[i + 1].as_str());
            return Some(v);
        }
        match strip_first_prefix(arg.as_slice(), prefixes) {
            Some(rest) => {
                return Some(rest);
            },
            None => {},
        }
        i = i + 1;
    }
    None
}

/// Whether a help flag (`-h` or `--help`) is among the arguments.
pub open spec fn asks_help(args: Seq<Seq<char>>) -> bool {
    exists|i: int| 0 <= i < args.len() && (args[i] == "-h"@ || args[i] == "--help"@)
}

pub fn wants_help(args: &[String]) -> (r: bool)
    ensures
        r == asks_help(texts(args@)),
{
    let mut i: usize = 0;
    while i < args.len()
        invariant
            i <= args@.len(),
            forall|k: int|
                0 <= k < i ==> !(texts(args@)[k] == "-h"@ || texts(args@)[k] == "--help"@),
        decreases args@.len() - i,
    {
        if crate::text::str_is(args[i].as_str(), "-h") || crate::text::str_is(
            args[i].as_str(),
            "--help",
        ) {
            assert(texts(args@)[i as int] == args@[i as int]@);
            return true;
        }
        i = i + 1;
    }
    false
}

} // verus!

verus! {

/// What a flag value reads as, when the flag occurs.
pub open spec fn then_u32(v: Option<Seq<char>>) -> Option<u32> {
    match v {
        Some(t) => spec_parse_u32(t),
        None => None,
    }
}

pub open spec fn then_u64(v: Option<Seq<char>>) -> Option<u64> {
    match v {
        Some(t) => spec_parse_u64(t),
        None => None,
    }
}

/// `--pid <PID>` or `--pid=<PID>`.
pub open spec fn pid_flag(args: Seq<Seq<char>>) -> Option<Seq<char>> {
    flag_value(args, seq!["--pid"@], seq!["--pid="@])
}

/// `--button <B>` or `--button=<B>`.
pub open spec fn button_flag(args: Seq<Seq<char>>) -> Option<Seq<char>> {
    flag_value(args, seq!["--button"@], seq!["--button="@])
}

/// `--window <ID>`, `--window-id <ID>`, `--window=<ID>` or `--window-id=<ID>`.
pub open spec fn window_flag(args: Seq<Seq<char>>) -> Option<Seq<char>> {
    flag_value(args, seq!["--window"@, "--window-id"@], seq!["--window="@, "--window-id="@])
}

/// `-o <PATH>`, `--output <PATH>`, `--output=<PATH>` or `-o=<PATH>`.
pub open spec fn output_flag(args: Seq<Seq<char>>) -> Option<Seq<char>> {
    flag_value(args, seq!["-o"@, "--output"@], seq!["--output="@, "-o="@])
}

/// `--selector`, `-s`, `--node` or `-n`, followed by a value or joined to it with `=`.
pub open spec fn target_flag(args: Seq<Seq<char>>) -> Option<Seq<char>> {
    flag_value(
        args,
        seq!["--selector"@, "-s"@, "--node"@, "-n"@],
        seq!["--selector="@, "-s="@, "--node="@, "-n="@],
    )
}

/// The process ID given with `--pid`.
pub fn parse_pid_arg(args: &[String]) -> (r: Option<u32>)
    ensures
        r == then_u32(pid_flag(texts(args@))),
{
    let names: [&str; 1] = ["--pid"];
    let prefixes: [&str; 1] = ["--pid="];
    assert(lits(names@) =~= seq!["--pid"@]);
    assert(lits(prefixes@) =~= seq!["--pid="@]);
    match find_flag_value(args, names.as_slice(), prefixes.as_slice()) {
        Some(v) => parse_u32_chars(v.as_slice()),
        None => None,
    }
}

/// The mouse button given with `--button`.
pub fn parse_button_arg(args: &[String]) -> (r: Option<String>)
    ensures
        match button_flag(texts(args@)) {
            Some(v) => r matches Some(b) && b@ == v,
            None => r is None,
        },
{
    let names: [&str; 1] = ["--button"];
    let prefixes: [&str; 1] = ["--button="];
    assert(lits(names@) =~= seq!["--button"@]);
    assert(lits(prefixes@) =~= seq!["--button="@]);
    match find_flag_value(args, names.as_slice(), prefixes.as_slice()) {
        Some(v) => Some(string_from_chars(v.as_slice())),
        None => None,
    }
}

/// The window ID given with `--window` or `--window-id`.
pub fn parse_window_arg(args: &[String]) -> (r: Option<u64>)
    ensures
        r == then_u64(window_flag(texts(args@))),
{
    let names: [&str; 2] = ["--window", "--window-id"];
    let prefixes: [&str; 2] = ["--window=", "--window-id="];
    assert(lits(names@) =~= seq!["--window"@, "--window-id"@]);
    assert(lits(prefixes@) =~= seq!["--window="@, "--window-id="@]);
    match find_flag_value(args, names.as_slice(), prefixes.as_slice()) {
        Some(v) => parse_u64_chars(v.as_slice()),
        None => None,
    }
}

/// The output path given with `-o` or `--output`.
pub fn parse_output_arg(args: &[String]) -> (r: Option<String>)
    ensures
        match output_flag(texts(args@)) {
            Some(v) => r matches Some(p) && p@ == v,
            None => r is None,
        },
{
    let names: [&str; 2] = ["-o", "--output"];
    let prefixes: [&str; 2] = ["--output=", "-o="];
    assert(lits(names@) =~= seq!["-o"@, "--output"@]);
    assert(lits(prefixes@) =~= seq!["--output="@, "-o="@]);
    match find_flag_value(args, names.as_slice(), prefixes.as_slice()) {
        Some(v) => Some(string_from_chars(v.as_slice())),
        None => None,
    }
}

/// The element target given with `--selector`, `-s`, `--node` or `-n`.
pub fn parse_target_flag(args: &[String]) -> (r: Option<ElementTarget>)
    ensures
        match target_flag(texts(args@)) {
            Some(v) => r matches Some(t) && names_target(v, t),
            None => r is None,
        },
{
    let names: [&str; 4] = ["--selector", "-s", "--node", "-n"];
    let prefixes: [&str; 4] = ["--selector=", "-s=", "--node=", "-n="];
    assert(lits(names@) =~= seq!["--selector"@, "-s"@, "--node"@, "-n"@]);
    assert(lits(prefixes@) =~= seq!["--selector="@, "-s="@, "--node="@, "-n="@]);
    match find_flag_value(args, names.as_slice(), prefixes.as_slice()) {
        Some(v) => {
            let text = string_from_chars(v.as_slice());
            Some(ElementTarget::from_text(text.as_str()))
        },
        None => None,
    }
}

/// The node ID given with a target flag, when the target is a node ID.
pub fn parse_node_arg(args: &[String]) -> (r: Option<u64>)
    ensures
        match target_flag(texts(args@)) {
            Some(v) => r == spec_parse_u64(crate::text::trimmed(v)),
            None => r is None,
        },
{
    match parse_target_flag(args) {
        Some(ElementTarget::Id(id)) => Some(id),
        _ => None,
    }
}

} // verus!

verus! {

/// Whether the argument looks like a descriptor file, a socket path, or a
/// Windows named pipe (`\\.\pipe\...`).
pub open spec fn is_endpoint_text(a: Seq<char>) -> bool {
    has_suffix(a, ".json"@) || has_suffix(a, ".sock"@) || is_pipe_path(a)
}

/// Whether the argument is a flag.
pub open spec fn is_flag_text(a: Seq<char>) -> bool {
    a.len() > 0 && a[0] == '-'
}

fn endpoint_text(a: &[char]) -> (r: bool)
    ensures
        r == is_endpoint_text(a@),
{
    let json = chars_of(".json");
    let sock = chars_of(".sock");
    let pipe = chars_of("\\\\.\\pipe\\");
    proof {
        reveal_strlit("\\\\.\\pipe\\");
        assert("\\\\.\\pipe\\"@ =~= seq!['\\', '\\', '.', '\\', 'p', 'i', 'p', 'e', '\\']);
    }
    chars_end_with(a, json.as_slice()) || chars_end_with(a, sock.as_slice())
        || chars_start_with(a, pipe.as_slice())
}

fn flag_text(a: &[char]) -> (r: bool)
    ensures
        r == is_flag_text(a@),
{
    a.len() > 0 && a[0] == '-'
}

/// The arguments that are neither flags, nor values of the flags in
/// `value_flags`, nor descriptor, socket or pipe paths, from index `i` on; `skip`
/// says that the argument at `i` is the value of the preceding flag.
pub open spec fn positional_from(
    args: Seq<Seq<char>>,
    value_flags: Seq<Seq<char>>,
    i: int,
    skip: bool,
) -> Seq<Seq<char>>
    decreases args.len() - i,
{
    if i < 0 || i >= args.len() {
        Seq::empty()
    } else if skip {
        positional_from(args, value_flags, i + 1, false)
    } else if is_one_of(args[i], value_flags) {
        positional_from(args, value_flags, i + 1, true)
    } else if is_flag_text(args[i]) || is_endpoint_text(args[i]) {
        positional_from(args, value_flags, i + 1, false)
    } else {
        seq![args[i]] + positional_from(args, value_flags, i + 1, false)
    }
}

pub open spec fn positional(args: Seq<Seq<char>>, value_flags: Seq<Seq<char>>) -> Seq<Seq<char>> {
    positional_from(args, value_flags, 0, false)
}

/// The positional arguments: see [`positional_from`].
pub fn positional_args(args: &[String], value_flags: &[&str]) -> (r: Vec<String>)
    ensures
        texts(r@) == positional(texts(args@), lits(value_flags@)),
{
    let ghost a = texts(args@);
    let ghost vf = lits(value_flags@);
    let mut out: Vec<String> = Vec::new();
    let mut skip = false;
    let mut i: usize = 0;
    while i < args.len()
        invariant
            i <= args@.len(),
            a == texts(args@),
            vf == lits(value_flags@),
            positional(a, vf) == texts(out@) + positional_from(a, vf, i as int, skip),
        decreases args@.len() - i,
    {
        let ghost before = texts(out@);
        let arg = chars_of(args[i].as_str());
        assert(a[i as int] == arg@);
        if skip {
            skip = false;
        } else if text_is_one_of(arg.as_slice(), value_flags) {
            skip = true;
        } else if flag_text(arg.as_slice()) || endpoint_text(arg.as_slice()) {
        } else {
            out.push(args[i].clone());
            assert(texts(out@) =~= before + seq![a[i as int]]);
            assert(positional_from(a, vf, i as int, false) == seq![a[i as int]] + positional_from(
                a,
                vf,
                i + 1,
                false,
            ));
            assert(before + positional_from(a, vf, i as int, false) =~= texts(out@)
                + positional_from(a, vf, i + 1, false));
        }
        i = i + 1;
    }
    assert(positional_from(a, vf, i as int, skip) =~= Seq::<Seq<char>>::empty());
    assert(texts(out@) + Seq::<Seq<char>>::empty() =~= texts(out@));
    out
}

/// The flags of the tool whose next argument is their value.
pub open spec fn all_value_flags() -> Seq<Seq<char>> {
    seq![
        "--pid"@,
        "--window"@,
        "--window-id"@,
        "--node"@,
        "-n"@,
        "--selector"@,
        "-s"@,
        "-o"@,
        "--output"@,
        "--x"@,
        "--y"@,
        "--button"@,
        "--dx"@,
        "--dy"@,
        "--delta-x"@,
        "--delta-y"@,
    ]
}

/// The index of the first descriptor or socket path argument at or after `i`
/// that is neither a flag nor the value of a flag; `skip` says that the
/// argument at `i` is the value of the preceding flag.
pub open spec fn endpoint_from(args: Seq<Seq<char>>, i: int, skip: bool) -> Option<int>
    decreases args.len() - i,
{
    if i < 0 || i >= args.len() {
        None
    } else if skip {
        endpoint_from(args, i + 1, false)
    } else if is_one_of(args[i], all_value_flags()) {
        endpoint_from(args, i + 1, true)
    } else if !is_flag_text(args[i]) && is_endpoint_text(args[i]) {
        Some(i)
    } else {
        endpoint_from(args, i + 1, false)
    }
}

/// The first descriptor or socket path argument that is neither a flag nor a
/// flag's value.
pub open spec fn first_endpoint(args: Seq<Seq<char>>) -> Option<int> {
    endpoint_from(args, 0, false)
}

/// Which host the command line selects: a valid `--pid` first, then the first
/// descriptor or socket path argument that is not a flag's value, and
/// automatic discovery otherwise.
pub fn determine_selector(args: &[String]) -> (r: TargetSelector)
    ensures
        match then_u32(pid_flag(texts(args@))) {
            Some(pid) => r == TargetSelector::Pid(pid),
            None => match first_endpoint(texts(args@)) {
                Some(i) => r matches TargetSelector::ExplicitPath(p) && p@ == texts(args@)[i],
                None => r == TargetSelector::Auto,
            },
        },
{
    if let Some(pid) = parse_pid_arg(args) {
        return TargetSelector::Pid(pid);
    }
    let ghost a = texts(args@);
    let flags: [&str; 16] = [
        "--pid",
        "--window",
        "--window-id",
        "--node",
        "-n",
        "--selector",
        "-s",
        "-o",
        "--output",
        "--x",
        "--y",
        "--button",
        "--dx",
        "--dy",
        "--delta-x",
        "--delta-y",
    ];
    assert(lits(flags@) =~= all_value_flags());
    let mut skip = false;
    let mut i: usize = 0;
    while i < args.len()
        invariant
            i <= args@.len(),
            a == texts(args@),
            lits(flags@) == all_value_flags(),
            then_u32(pid_flag(a)) is None,
            first_endpoint(a) == endpoint_from(a, i as int, skip),
        decreases args@.len() - i,
    {
        let arg = chars_of(args[i].as_str());
        assert(a[i as int] == arg@);
        if skip {
            skip = false;
        } else if text_is_one_of(arg.as_slice(), flags.as_slice()) {
            skip = true;
        } else if !flag_text(arg.as_slice()) && endpoint_text(arg.as_slice()) {
            return TargetSelector::ExplicitPath(args[i].clone());
        }
        i = i + 1;
    }
    TargetSelector::Auto
}

} // verus!

verus! {

/// The modifiers after reading one `+`-separated token of a key specifier.
pub open spec fn with_token(m: KeyModifiers, tok: Seq<char>) -> KeyModifiers {
    if eq_ascii_ci(tok, "shift"@) {
        KeyModifiers { shift: true, ctrl: m.ctrl, alt: m.alt, meta: m.meta }
    } else if eq_ascii_ci(tok, "ctrl"@) || eq_ascii_ci(tok, "control"@) {
        KeyModifiers { shift: m.shift, ctrl: true, alt: m.alt, meta: m.meta }
    } else if eq_ascii_ci(tok, "cmd"@) || eq_ascii_ci(tok, "command"@) || eq_ascii_ci(tok, "meta"@)
        || eq_ascii_ci(tok, "super"@) {
        KeyModifiers { shift: m.shift, ctrl: m.ctrl, alt: m.alt, meta: true }
    } else if eq_ascii_ci(tok, "alt"@) || eq_ascii_ci(tok, "opt"@) || eq_ascii_ci(tok, "option"@) {
        KeyModifiers { shift: m.shift, ctrl: m.ctrl, alt: true, meta: m.meta }
    } else {
        m
    }
}

/// Splitting `s` at each `+`: every trimmed piece before a `+` is a modifier
/// token, and the trimmed piece after the last `+` is the key.
pub open spec fn split_compound(s: Seq<char>, m: KeyModifiers) -> (Seq<char>, KeyModifiers)
    decreases s.len(),
{
    match first_index_of(s, '+') {
        None => (s, m),
        Some(i) => {
            proof {
                lemma_first_index_of_facts(s, '+');
                lemma_trimmed_len(s.skip(i + 1));
            }
            split_compound(trimmed(s.skip(i + 1)), with_token(m, trimmed(s.take(i))))
        },
    }
}

/// A compound key specifier such as `cmd+shift+z`: the key, and the modifiers
/// when at least one is named.
pub open spec fn compound_key(raw: Seq<char>) -> (Seq<char>, Option<KeyModifiers>) {
    let (key, m) = split_compound(trimmed(raw), KeyModifiers::spec_none());
    (key, if !m.shift && !m.ctrl && !m.alt && !m.meta {
        None
    } else {
        Some(m)
    })
}

fn token_is(tok: &[char], lit: &str) -> (r: bool)
    ensures
        r == eq_ascii_ci(tok@, lit@),
{
    let l = chars_of(lit);
    chars_eq_ignore_ascii_case(tok, l.as_slice())
}

fn apply_token(m: KeyModifiers, tok: &[char]) -> (r: KeyModifiers)
    ensures
        r == with_token(m, tok@),
{
    if token_is(tok, "shift") {
        KeyModifiers { shift: true, ctrl: m.ctrl, alt: m.alt, meta: m.meta }
    } else if token_is(tok, "ctrl") || token_is(tok, "control") {
        KeyModifiers { shift: m.shift, ctrl: true, alt: m.alt, meta: m.meta }
    } else if token_is(tok, "cmd") || token_is(tok, "command") || token_is(tok, "meta") || token_is(
        tok,
        "super",
    ) {
        KeyModifiers { shift: m.shift, ctrl: m.ctrl, alt: m.alt, meta: true }
    } else if token_is(tok, "alt") || token_is(tok, "opt") || token_is(tok, "option") {
        KeyModifiers { shift: m.shift, ctrl: m.ctrl, alt: true, meta: m.meta }
    } else {
        m
    }
}

/// Parses compound key expressions like `cmd+a`, `command+shift+z`, `shift+tab`.
pub fn parse_compound_key(raw: &str) -> (r: (String, Option<KeyModifiers>))
    ensures
        r.0@ == compound_key(raw@).0,
        r.1 == compound_key(raw@).1,
{
    let raw_chars = chars_of(raw);
    let mut key = trim_chars(raw_chars.as_slice());
    let mut m = KeyModifiers::none();
    let ghost target = split_compound(trimmed(raw@), KeyModifiers::spec_none());
    loop
        invariant
            split_compound(key@, m) == target,
        ensures
            split_compound(key@, m) == target,
            first_index_of(key@, '+') is None,
        decreases key@.len(),
    {
        match find_char(key.as_slice(), '+') {
            None => {
                proof {
                    if exists|i: int| 0 <= i < key@.len() && key@[i] == '+' {
                        let w = choose|i: int| 0 <= i < key@.len() && key@[i] == '+';
                        assert(key@[w] != '+');
                    }
                }
                break ;
            },
            Some(idx) => {
                proof {
                    lemma_first_index_of(key@, '+', idx as int);
                    lemma_trimmed_len(key@.skip(idx + 1));
                }
                let before = chars_until(key.as_slice(), idx);
                let tok = trim_chars(before.as_slice());
                m = apply_token(m, tok.as_slice());
                let after = chars_from(key.as_slice(), idx + 1);
                key = trim_chars(after.as_slice());
            },
        }
    }
    let modifiers = if m.is_empty() {
        None
    } else {
        Some(m)
    };
    (string_from_chars(key.as_slice()), modifiers)
}

} // verus!

verus! {

/// The flags, common to the targeted subcommands, whose next argument is their value.
pub open spec fn common_value_flags() -> Seq<Seq<char>> {
    seq!["--pid"@, "--window"@, "--window-id"@, "--node"@, "-n"@, "--selector"@, "-s"@]
}

/// `r` is the element a subcommand addresses: the target flag when given,
/// otherwise the first positional argument, otherwise none.
pub open spec fn picks_cli_target(
    args: Seq<Seq<char>>,
    value_flags: Seq<Seq<char>>,
    r: Option<ElementTarget>,
) -> bool {
    match target_flag(args) {
        Some(v) => r matches Some(t) && names_target(v, t),
        None => if positional(args, value_flags).len() > 0 {
            r matches Some(t) && names_target(positional(args, value_flags)[0], t)
        } else {
            r is None
        },
    }
}

/// The host and window a subcommand addresses.
pub open spec fn addresses_host(args: Seq<Seq<char>>, plan: CommandPlan) -> bool {
    &&& plan.window_id == then_u64(window_flag(args))
    &&& match then_u32(pid_flag(args)) {
        Some(pid) => plan.selector == TargetSelector::Pid(pid),
        None => match first_endpoint(args) {
            Some(i) => plan.selector matches TargetSelector::ExplicitPath(p) && p@ == args[i],
            None => plan.selector == TargetSelector::Auto,
        },
    }
}

/// What a targeted subcommand will address.
#[derive(Debug, Clone, PartialEq, Eq)]
pub struct CommandPlan {
    /// The element, when one is given.
    pub target: Option<ElementTarget>,
    /// The window, when one is given.
    pub window_id: Option<u64>,
    /// Which host to attach to.
    pub selector: TargetSelector,
}

fn choose_target(args: &[String], value_flags: &[&str]) -> (r: Option<ElementTarget>)
    ensures
        picks_cli_target(texts(args@), lits(value_flags@), r),
{
    match parse_target_flag(args) {
        Some(t) => Some(t),
        None => {
            let pos = positional_args(args, value_flags);
            if pos.len() > 0 {
                assert(texts(pos@)[0] == pos@[0]@);
                Some(ElementTarget::from_text(pos[0].as_str()))
            } else {
                None
            }
        },
    }
}

/// Plans a subcommand whose value flags are `value_flags`.
pub fn plan_command(args: &[String], value_flags: &[&str]) -> (p: CommandPlan)
    ensures
        picks_cli_target(texts(args@), lits(value_flags@), p.target),
        addresses_host(texts(args@), p),
{
    let target = choose_target(args, value_flags);
    let window_id = parse_window_arg(args);
    let selector = determine_selector(args);
    CommandPlan { target, window_id, selector }
}

/// The usage error of a targeted subcommand given no target.
pub open spec fn missing_target_text(usage: Seq<char>, help: Seq<char>) -> Seq<char> {
    "Error: '"@ + usage + "' requires a target <TARGET> argument (node ID or CSS selector).\nRun 'blitz-host "@
        + help + " --help' for usage."@
}

fn missing_target(usage: &str, help: &str) -> (s: String)
    ensures
        s@ == missing_target_text(usage@, help@),
{
    let mut s = crate::text::owned("Error: '");
    crate::text::append_str(&mut s, usage);
    crate::text::append_str(
        &mut s,
        "' requires a target <TARGET> argument (node ID or CSS selector).\nRun 'blitz-host ",
    );
    crate::text::append_str(&mut s, help);
    crate::text::append_str(&mut s, " --help' for usage.");
    s
}

/// Plans `mouse click <TARGET>`: a target is required.
pub fn plan_click(args: &[String]) -> (r: Result<CommandPlan, String>)
    ensures
        match r {
            Ok(p) => p.target is Some && picks_cli_target(texts(args@), common_value_flags(), p.target)
                && addresses_host(texts(args@), p),
            Err(msg) => picks_cli_target(texts(args@), common_value_flags(), None) && msg@
                == missing_target_text("click"@, "mouse click"@),
        },
{
    let flags: [&str; 7] = ["--pid", "--window", "--window-id", "--node", "-n", "--selector", "-s"];
    assert(lits(flags@) =~= common_value_flags());
    let p = plan_command(args, flags.as_slice());
    if p.target.is_none() {
        return Err(missing_target("click", "mouse click"));
    }
    Ok(p)
}

/// Plans `focus <TARGET>`: a target is required.
pub fn plan_focus(args: &[String]) -> (r: Result<CommandPlan, String>)
    ensures
        match r {
            Ok(p) => p.target is Some && picks_cli_target(texts(args@), common_value_flags(), p.target)
                && addresses_host(texts(args@), p),
            Err(msg) => picks_cli_target(texts(args@), common_value_flags(), None) && msg@
                == missing_target_text("focus"@, "focus"@),
        },
{
    let flags: [&str; 7] = ["--pid", "--window", "--window-id", "--node", "-n", "--selector", "-s"];
    assert(lits(flags@) =~= common_value_flags());
    let p = plan_command(args, flags.as_slice());
    if p.target.is_none() {
        return Err(missing_target("focus", "focus"));
    }
    Ok(p)
}

/// The value flags of `mouse move`.
pub open spec fn move_value_flags() -> Seq<Seq<char>> {
    common_value_flags() + seq!["--x"@, "--y"@]
}

/// The value flags of `mouse down` and `mouse up`.
pub open spec fn button_value_flags() -> Seq<Seq<char>> {
    common_value_flags() + seq!["--x"@, "--y"@, "--button"@]
}

/// The value flags of `mouse wheel`.
pub open spec fn wheel_value_flags() -> Seq<Seq<char>> {
    common_value_flags() + seq!["--x"@, "--y"@, "--dx"@, "--dy"@, "--delta-x"@, "--delta-y"@]
}

/// Plans `mouse move [TARGET]`: a target or both coordinates are required;
/// `has_coords` says whether `--x` and `--y` both gave numbers.
pub fn plan_move(args: &[String], has_coords: bool) -> (r: Result<CommandPlan, String>)
    ensures
        match r {
            Ok(p) => (p.target is Some || has_coords) && picks_cli_target(
                texts(args@),
                move_value_flags(),
                p.target,
            ) && addresses_host(texts(args@), p),
            Err(msg) => !has_coords && picks_cli_target(texts(args@), move_value_flags(), None)
                && msg@ == "Error: 'move' requires either a target <TARGET> (node ID or CSS selector) or coordinates (--x and --y).\nRun 'blitz-host mouse move --help' for usage."@,
        },
{
    let flags: [&str; 9] = [
        "--pid",
        "--window",
        "--window-id",
        "--node",
        "-n",
        "--selector",
        "-s",
        "--x",
        "--y",
    ];
    assert(lits(flags@) =~= move_value_flags());
    let p = plan_command(args, flags.as_slice());
    if p.target.is_none() && !has_coords {
        return Err(
            crate::text::owned(
                "Error: 'move' requires either a target <TARGET> (node ID or CSS selector) or coordinates (--x and --y).\nRun 'blitz-host mouse move --help' for usage.",
            ),
        );
    }
    Ok(p)
}

/// Plans `mouse down [TARGET]` or `mouse up [TARGET]`, with the `--button` given.
pub fn plan_button(args: &[String]) -> (r: (CommandPlan, Option<String>))
    ensures
        picks_cli_target(texts(args@), button_value_flags(), r.0.target),
        addresses_host(texts(args@), r.0),
        match button_flag(texts(args@)) {
            Some(v) => r.1 matches Some(b) && b@ == v,
            None => r.1 is None,
        },
{
    let flags: [&str; 10] = [
        "--pid",
        "--window",
        "--window-id",
        "--node",
        "-n",
        "--selector",
        "-s",
        "--x",
        "--y",
        "--button",
    ];
    assert(lits(flags@) =~= button_value_flags());
    let p = plan_command(args, flags.as_slice());
    let button = parse_button_arg(args);
    (p, button)
}

/// Plans `mouse wheel [TARGET]`.
pub fn plan_wheel(args: &[String]) -> (p: CommandPlan)
    ensures
        picks_cli_target(texts(args@), wheel_value_flags(), p.target),
        addresses_host(texts(args@), p),
{
    let flags: [&str; 13] = [
        "--pid",
        "--window",
        "--window-id",
        "--node",
        "-n",
        "--selector",
        "-s",
        "--x",
        "--y",
        "--dx",
        "--dy",
        "--delta-x",
        "--delta-y",
    ];
    assert(lits(flags@) =~= wheel_value_flags());
    plan_command(args, flags.as_slice())
}

} // verus!

verus! {

/// The value flags of `mouse drag`.
pub open spec fn drag_value_flags() -> Seq<Seq<char>> {
    seq!["--pid"@, "--window"@, "--window-id"@]
}

/// The value flags of `capture`.
pub open spec fn capture_value_flags() -> Seq<Seq<char>> {
    common_value_flags() + seq!["-o"@, "--output"@]
}

/// What `mouse drag <FROM> <TO>` will do.
#[derive(Debug, Clone, PartialEq, Eq)]
pub struct DragPlan {
    pub from: ElementTarget,
    pub to: ElementTarget,
    pub window_id: Option<u64>,
    pub selector: TargetSelector,
}

/// Plans `mouse drag <FROM> <TO>`: two positional targets are required.
pub fn plan_drag(args: &[String]) -> (r: Result<DragPlan, String>)
    ensures
        ({
            let pos = positional(texts(args@), drag_value_flags());
            match r {
                Ok(p) => pos.len() >= 2 && names_target(pos[0], p.from) && names_target(
                    pos[1],
                    p.to,
                ) && addresses_host(
                    texts(args@),
                    CommandPlan { target: None, window_id: p.window_id, selector: p.selector },
                ),
                Err(msg) => pos.len() < 2 && msg@
                    == "Error: 'drag' requires <FROM_TARGET> and <TO_TARGET> positional arguments (node IDs or CSS selectors).\nRun 'blitz-host mouse drag --help' for usage."@,
            }
        }),
{
    let flags: [&str; 3] = ["--pid", "--window", "--window-id"];
    assert(lits(flags@) =~= drag_value_flags());
    let pos = positional_args(args, flags.as_slice());
    if pos.len() < 2 {
        return Err(
            crate::text::owned(
                "Error: 'drag' requires <FROM_TARGET> and <TO_TARGET> positional arguments (node IDs or CSS selectors).\nRun 'blitz-host mouse drag --help' for usage.",
            ),
        );
    }
    assert(texts(pos@)[0] == pos@[0]@ && texts(pos@)[1] == pos@[1]@);
    let from = ElementTarget::from_text(pos[0].as_str());
    let to = ElementTarget::from_text(pos[1].as_str());
    let window_id = parse_window_arg(args);
    let selector = determine_selector(args);
    Ok(DragPlan { from, to, window_id, selector })
}

/// What `set-value <TARGET> <VALUE>` will do.
#[derive(Debug, Clone, PartialEq, Eq)]
pub struct SetValuePlan {
    pub target: ElementTarget,
    pub value: String,
    pub window_id: Option<u64>,
    pub selector: TargetSelector,
}

/// The `k`-th positional argument, or the empty text.
pub open spec fn nth_or_empty(pos: Seq<Seq<char>>, k: int) -> Seq<char> {
    if 0 <= k < pos.len() {
        pos[k]
    } else {
        Seq::empty()
    }
}

/// Plans `set-value`: with a target flag the value is the first positional
/// argument; otherwise the target is the first positional argument and the
/// value the second (empty when missing).
pub fn plan_set_value(args: &[String]) -> (r: Result<SetValuePlan, String>)
    ensures
        ({
            let a = texts(args@);
            let pos = positional(a, common_value_flags());
            match r {
                Ok(p) => addresses_host(
                    a,
                    CommandPlan { target: None, window_id: p.window_id, selector: p.selector },
                ) && match target_flag(a) {
                    Some(v) => names_target(v, p.target) && p.value@ == nth_or_empty(pos, 0),
                    None => pos.len() > 0 && names_target(pos[0], p.target) && p.value@
                        == nth_or_empty(pos, 1),
                },
                Err(msg) => target_flag(a) is None && pos.len() == 0 && msg@
                    == "Error: 'set-value' requires target <TARGET> and <VALUE> arguments (e.g. '#test-input' 'hello').\nRun 'blitz-host set-value --help' for usage."@,
            }
        }),
{
    let flags: [&str; 7] = ["--pid", "--window", "--window-id", "--node", "-n", "--selector", "-s"];
    assert(lits(flags@) =~= common_value_flags());
    let pos = positional_args(args, flags.as_slice());
    let ghost tp = texts(pos@);
    let (target, value) = match parse_target_flag(args) {
        Some(t) => {
            let v = if pos.len() > 0 {
                assert(tp[0] == pos@[0]@);
                pos[0].clone()
            } else {
                String::new()
            };
            (t, v)
        },
        None => {
            if pos.len() == 0 {
                return Err(
                    crate::text::owned(
                        "Error: 'set-value' requires target <TARGET> and <VALUE> arguments (e.g. '#test-input' 'hello').\nRun 'blitz-host set-value --help' for usage.",
                    ),
                );
            }
            assert(tp[0] == pos@[0]@);
            let t = ElementTarget::from_text(pos[0].as_str());
            let v = if pos.len() > 1 {
                assert(tp[1] == pos@[1]@);
                pos[1].clone()
            } else {
                String::new()
            };
            (t, v)
        },
    };
    let window_id = parse_window_arg(args);
    let selector = determine_selector(args);
    Ok(SetValuePlan { target, value, window_id, selector })
}

/// What `key <KEY_SPEC>` will do.
#[derive(Debug, Clone, PartialEq, Eq)]
pub struct KeyPlan {
    pub key: String,
    pub modifiers: Option<KeyModifiers>,
    pub target: Option<ElementTarget>,
    pub window_id: Option<u64>,
    pub selector: TargetSelector,
}

/// Plans `key <KEY_SPEC>`: the first positional argument is a compound key
/// specifier; the target comes only from a target flag.
pub fn plan_key(args: &[String]) -> (r: Result<KeyPlan, String>)
    ensures
        ({
            let a = texts(args@);
            let pos = positional(a, common_value_flags());
            match r {
                Ok(p) => pos.len() > 0 && p.key@ == compound_key(pos[0]).0 && p.modifiers
                    == compound_key(pos[0]).1 && match target_flag(a) {
                    Some(v) => p.target matches Some(t) && names_target(v, t),
                    None => p.target is None,
                } && addresses_host(
                    a,
                    CommandPlan { target: None, window_id: p.window_id, selector: p.selector },
                ),
                Err(msg) => pos.len() == 0 && msg@
                    == "Error: 'key' requires a <KEY_SPEC> argument (e.g. cmd+a, shift+tab, enter, escape).\nRun 'blitz-host key --help' for usage."@,
            }
        }),
{
    let flags: [&str; 7] = ["--pid", "--window", "--window-id", "--node", "-n", "--selector", "-s"];
    assert(lits(flags@) =~= common_value_flags());
    let pos = positional_args(args, flags.as_slice());
    if pos.len() == 0 {
        return Err(
            crate::text::owned(
                "Error: 'key' requires a <KEY_SPEC> argument (e.g. cmd+a, shift+tab, enter, escape).\nRun 'blitz-host key --help' for usage.",
            ),
        );
    }
    assert(texts(pos@)[0] == pos@[0]@);
    let (key, modifiers) = parse_compound_key(pos[0].as_str());
    let target = parse_target_flag(args);
    let window_id = parse_window_arg(args);
    let selector = determine_selector(args);
    Ok(KeyPlan { key, modifiers, target, window_id, selector })
}

/// What `inspect [TARGET] [-o <PATH>]` will do.
#[derive(Debug, Clone, PartialEq, Eq)]
pub struct InspectPlan {
    pub request: crate::protocol::InspectRequest,
    pub selector: TargetSelector,
    /// Where to save the snapshot instead of printing it, when given.
    pub output_path: Option<String>,
}

/// Plans `inspect`: the request carries the window and, when a target is
/// given, its node ID as the root or its selector; `-o`/`--output` names a
/// file for the snapshot (its value is never taken for a target).
pub fn plan_inspect(args: &[String]) -> (r: InspectPlan)
    ensures
        ({
            let a = texts(args@);
            &&& r.request.window_id == then_u64(window_flag(a))
            &&& r.request.target is None
            &&& r.request.max_depth is None
            &&& exists|t: Option<ElementTarget>|
                picks_cli_target(a, capture_value_flags(), t) && match t {
                    Some(ElementTarget::Id(id)) => r.request.root_node_id == Some(id)
                        && r.request.selector is None,
                    Some(ElementTarget::Selector(s)) => r.request.root_node_id is None
                        && r.request.selector == Some(s),
                    None => r.request.root_node_id is None && r.request.selector is None,
                }
            &&& addresses_host(
                a,
                CommandPlan { target: None, window_id: r.request.window_id, selector: r.selector },
            )
            &&& match output_flag(a) {
                Some(v) => r.output_path matches Some(o) && o@ == v,
                None => r.output_path is None,
            }
        }),
{
    let flags: [&str; 9] = [
        "--pid",
        "--window",
        "--window-id",
        "--node",
        "-n",
        "--selector",
        "-s",
        "-o",
        "--output",
    ];
    assert(lits(flags@) =~= capture_value_flags());
    let p = plan_command(args, flags.as_slice());
    let ghost t = p.target;
    let (root_node_id, selector) = match p.target {
        Some(ElementTarget::Id(id)) => (Some(id), None),
        Some(ElementTarget::Selector(s)) => (None, Some(s)),
        None => (None, None),
    };
    let request = crate::protocol::InspectRequest {
        window_id: p.window_id,
        root_node_id,
        selector,
        target: None,
        max_depth: None,
    };
    InspectPlan { request, selector: p.selector, output_path: parse_output_arg(args) }
}

/// The summary printed when an inspection snapshot is saved to a file.
#[derive(Debug, Clone, PartialEq, Eq)]
pub struct SnapshotSaved {
    pub success: bool,
    pub file_path: String,
    pub root_id: u64,
    pub node_count: usize,
    pub bytes: usize,
    pub message: String,
}

/// The summary of a snapshot of `node_count` nodes under `root_id` saved as
/// `bytes` bytes to `file_path`.
pub fn snapshot_saved(file_path: String, root_id: u64, node_count: usize, bytes: usize) -> (r:
    SnapshotSaved)
    ensures
        r.success,
        r.file_path == file_path,
        r.root_id == root_id,
        r.node_count == node_count,
        r.bytes == bytes,
        r.message@ == "Saved DOM inspection snapshot ("@ + crate::text::decimal(node_count as nat)
            + " nodes) to "@ + file_path@,
{
    let mut message = owned("Saved DOM inspection snapshot (");
    crate::text::append_decimal(&mut message, node_count as u64);
    append_str(&mut message, " nodes) to ");
    append_str(&mut message, file_path.as_str());
    SnapshotSaved { success: true, file_path, root_id, node_count, bytes, message }
}

/// What `capture [TARGET] -o <PATH>` will do.
#[derive(Debug, Clone, PartialEq, Eq)]
pub struct CapturePlan {
    pub output_path: String,
    pub target: Option<ElementTarget>,
    pub window_id: Option<u64>,
    pub selector: TargetSelector,
}

/// Plans `capture`: an output path is required.
pub fn plan_capture(args: &[String]) -> (r: Result<CapturePlan, String>)
    ensures
        ({
            let a = texts(args@);
            match r {
                Ok(p) => output_flag(a) == Some(p.output_path@) && picks_cli_target(
                    a,
                    capture_value_flags(),
                    p.target,
                ) && addresses_host(
                    a,
                    CommandPlan { target: None, window_id: p.window_id, selector: p.selector },
                ),
                Err(msg) => output_flag(a) is None && msg@
                    == "Error: Output path is required. Use '-o <PATH>' or '--output <PATH>' to specify where to save the screenshot.\nRun 'blitz-host capture --help' for usage."@,
            }
        }),
{
    let output_path = match parse_output_arg(args) {
        Some(p) => p,
        None => {
            return Err(
                crate::text::owned(
                    "Error: Output path is required. Use '-o <PATH>' or '--output <PATH>' to specify where to save the screenshot.\nRun 'blitz-host capture --help' for usage.",
                ),
            );
        },
    };
    let flags: [&str; 9] = [
        "--pid",
        "--window",
        "--window-id",
        "--node",
        "-n",
        "--selector",
        "-s",
        "-o",
        "--output",
    ];
    assert(lits(flags@) =~= capture_value_flags());
    let p = plan_command(args, flags.as_slice());
    Ok(CapturePlan { output_path, target: p.target, window_id: p.window_id, selector: p.selector })
}

} // verus!

verus! {

/// A pointer command of the `mouse` namespace.
#[derive(Debug, Clone, Copy, PartialEq, Eq, Structural)]
pub enum Pointer {
    Click,
    Move,
    Down,
    Up,
    Wheel,
    Drag,
}

/// What the tool's command line asks for.
#[derive(Debug, Clone, PartialEq, Eq)]
pub enum Command {
    /// Print the main help.
    MainHelp,
    /// Print the tool's version.
    Version,
    List,
    Inspect,
    Capture,
    Focus,
    SetValue,
    Key,
    /// Print the help of the `mouse` namespace.
    MouseHelp,
    Mouse(Pointer),
    /// The command line is refused with this message (exit status 1).
    Refused(String),
}

/// The pointer command named `name`, if any.
pub open spec fn pointer_named(name: Seq<char>) -> Option<Pointer> {
    if name == "click"@ {
        Some(Pointer::Click)
    } else if name == "move"@ {
        Some(Pointer::Move)
    } else if name == "down"@ {
        Some(Pointer::Down)
    } else if name == "up"@ {
        Some(Pointer::Up)
    } else if name == "wheel"@ {
        Some(Pointer::Wheel)
    } else if name == "drag"@ {
        Some(Pointer::Drag)
    } else {
        None
    }
}

fn pointer_of(name: &str) -> (r: Option<Pointer>)
    ensures
        r == pointer_named(name@),
{
    if str_is(name, "click") {
        Some(Pointer::Click)
    } else if str_is(name, "move") {
        Some(Pointer::Move)
    } else if str_is(name, "down") {
        Some(Pointer::Down)
    } else if str_is(name, "up") {
        Some(Pointer::Up)
    } else if str_is(name, "wheel") {
        Some(Pointer::Wheel)
    } else if str_is(name, "drag") {
        Some(Pointer::Drag)
    } else {
        None
    }
}

/// The subcommand named `name` (other than `mouse` and the pointer commands).
pub open spec fn plain_command(name: Seq<char>) -> Option<Command> {
    if name == "list"@ {
        Some(Command::List)
    } else if name == "inspect"@ {
        Some(Command::Inspect)
    } else if name == "capture"@ {
        Some(Command::Capture)
    } else if name == "focus"@ {
        Some(Command::Focus)
    } else if name == "set-value"@ {
        Some(Command::SetValue)
    } else if name == "key"@ {
        Some(Command::Key)
    } else {
        None
    }
}

/// What the command line `args` (program name first) asks for.
pub open spec fn routes_to(args: Seq<Seq<char>>, r: Command) -> bool {
    if args.len() <= 1 || (args.len() == 2 && (args[1] == "-h"@ || args[1] == "--help"@)) {
        r == Command::MainHelp
    } else if exists|i: int| 0 <= i < args.len() && (args[i] == "-V"@ || args[i] == "--version"@) {
        r == Command::Version
    } else if args[1] == "mouse"@ {
        let sub = args.skip(2);
        if sub.len() == 0 || asks_help(sub) {
            r == Command::MouseHelp
        } else {
            match pointer_named(sub[0]) {
                Some(p) => r == Command::Mouse(p),
                None => r matches Command::Refused(m) && m@ == "Unknown mouse subcommand: '"@
                    + sub[0] + "'. Use 'blitz-host mouse --help' for available subcommands."@,
            }
        }
    } else {
        match plain_command(args[1]) {
            Some(c) => r == c,
            None => if pointer_named(args[1]) is Some {
                r matches Command::Refused(m) && m@ == "Error: '"@ + args[1]
                    + "' is a pointer command and belongs under the 'mouse' namespace. Run 'blitz-host mouse "@
                    + args[1] + " ...' instead."@
            } else {
                r matches Command::Refused(m) && m@ == "Unknown subcommand: '"@ + args[1]
                    + "'. Use 'blitz-host --help' for available subcommands."@
            },
        }
    }
}

/// The arguments from index `from` on.
pub fn args_from(args: &[String], from: usize) -> (r: Vec<String>)
    requires
        from <= args@.len(),
    ensures
        texts(r@) == texts(args@).skip(from as int),
{
    let mut out: Vec<String> = Vec::new();
    let mut i: usize = from;
    assert(texts(out@) =~= texts(args@).subrange(from as int, i as int));
    while i < args.len()
        invariant
            from <= i <= args@.len(),
            texts(out@) == texts(args@).subrange(from as int, i as int),
        decreases args@.len() - i,
    {
        let ghost before = texts(out@);
        out.push(args[i].clone());
        assert(texts(out@) =~= before + seq![args@[i as int]@]);
        assert(texts(args@).subrange(from as int, i + 1) =~= texts(args@).subrange(from as int, i as int) + seq![args@[i as int]@]);
        i = i + 1;
    }
    assert(texts(args@).subrange(from as int, i as int) =~= texts(args@).skip(from as int));
    out
}

/// Decides what the command line asks for; `args` starts with the program name.
pub fn route_command(args: &[String]) -> (r: Command)
    ensures
        routes_to(texts(args@), r),
{
    let ghost a = texts(args@);
    let n = args.len();
    if n <= 1 {
        return Command::MainHelp;
    }
    proof {
        assert(a[1] == args@[1]@);
    }
    if n == 2 && (str_is(args[1].as_str(), "-h") || str_is(args[1].as_str(), "--help")) {
        return Command::MainHelp;
    }
    let mut i: usize = 0;
    while i < n
        invariant
            n == args@.len(),
            a == texts(args@),
            i <= n,
            n >= 2,
            !(n == 2 && (a[1] == "-h"@ || a[1] == "--help"@)),
            forall|k: int| 0 <= k < i ==> !(a[k] == "-V"@ || a[k] == "--version"@),
        decreases n - i,
    {
        if str_is(args[i].as_str(), "-V") || str_is(args[i].as_str(), "--version") {
            assert(a[i as int] == args@[i as int]@);
            assert(0 <= i < a.len() && (a[i as int] == "-V"@ || a[i as int] == "--version"@));
            assert(!(n <= 1 || (n == 2 && (a[1] == "-h"@ || a[1] == "--help"@))));
            return Command::Version;
        }
        assert(a[i as int] == args@[i as int]@);
        i = i + 1;
    }
    let name = args[1].as_str();
    if str_is(name, "mouse") {
        let sub_args = args_from(args, 2);
        let sub = sub_args.as_slice();
        assert(texts(sub@) =~= a.skip(2));
        if sub.len() == 0 || wants_help(sub) {
            return Command::MouseHelp;
        }
        assert(texts(sub@)[0] == sub@[0]@);
        let which = sub[0].as_str();
        return match pointer_of(which) {
            Some(p) => Command::Mouse(p),
            None => {
                let mut m = owned("Unknown mouse subcommand: '");
                append_str(&mut m, which);
                append_str(&mut m, "'. Use 'blitz-host mouse --help' for available subcommands.");
                Command::Refused(m)
            },
        };
    }
    if str_is(name, "list") {
        Command::List
    } else if str_is(name, "inspect") {
        Command::Inspect
    } else if str_is(name, "capture") {
        Command::Capture
    } else if str_is(name, "focus") {
        Command::Focus
    } else if str_is(name, "set-value") {
        Command::SetValue
    } else if str_is(name, "key") {
        Command::Key
    } else if pointer_of(name).is_some() {
        let mut m = owned("Error: '");
        append_str(&mut m, name);
        append_str(
            &mut m,
            "' is a pointer command and belongs under the 'mouse' namespace. Run 'blitz-host mouse ",
        );
        append_str(&mut m, name);
        append_str(&mut m, " ...' instead.");
        Command::Refused(m)
    } else {
        let mut m = owned("Unknown subcommand: '");
        append_str(&mut m, name);
        append_str(&mut m, "'. Use 'blitz-host --help' for available subcommands.");
        Command::Refused(m)
    }
}

} // verus!
