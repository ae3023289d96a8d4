//! The command line: `jar run [OPTIONS] <program> [args...]`.
use crate::cgroup::ResourceLimits;
use crate::decimal::{parse_u64, spec_parse_u64};
use crate::error::JarError;
use crate::text::{concat_text, starts_with_char, str_eq};
use vstd::prelude::*;

verus! {

/// What `jar run` was asked to do.
#[derive(Debug, PartialEq)]
pub struct RunOptions {
    pub executable: String,
    pub args: Vec<String>,
    pub rootfs: Option<String>,
    pub image: Option<String>,
    pub limits: ResourceLimits,
    pub enable_seccomp: bool,
    pub drop_capabilities: bool,
}

/// A command of the command line.
#[derive(Debug, PartialEq)]
pub enum Command {
    Run(RunOptions),
}

/// The texts of a sequence of strings.
pub open spec fn string_views(v: Seq<String>) -> Seq<Seq<char>> {
    v.map_values(|s: String| s@)
}

/// The text of an optional string.
pub open spec fn option_view(o: Option<String>) -> Option<Seq<char>> {
    match o {
        Some(s) => Some(s@),
        None => None,
    }
}

/// `RunOptions` with its strings taken as texts.
pub struct RunOptionsView {
    pub executable: Seq<char>,
    pub args: Seq<Seq<char>>,
    pub rootfs: Option<Seq<char>>,
    pub image: Option<Seq<char>>,
    pub limits: ResourceLimits,
    pub enable_seccomp: bool,
    pub drop_capabilities: bool,
}

impl View for RunOptions {
    type V = RunOptionsView;

    open spec fn view(&self) -> RunOptionsView {
        RunOptionsView {
            executable: self.executable@,
            args: string_views(self.args@),
            rootfs: option_view(self.rootfs),
            image: option_view(self.image),
            limits: self.limits,
            enable_seccomp: self.enable_seccomp,
            drop_capabilities: self.drop_capabilities,
        }
    }
}

/// The options read so far.
pub struct ScanState {
    pub rootfs: Option<Seq<char>>,
    pub image: Option<Seq<char>>,
    pub memory_max_bytes: Option<u64>,
    pub pids_max: Option<u64>,
    pub enable_seccomp: bool,
    pub drop_capabilities: bool,
}

/// Where reading the options ends: with the options and the words that name
/// the program and its arguments, or with the text of an error.
pub enum Scan {
    Done(ScanState, Seq<Seq<char>>),
    Failed(Seq<char>),
}

/// The options before any is read: seccomp on, capabilities dropped.
pub open spec fn initial_scan_state() -> ScanState {
    ScanState {
        rootfs: None,
        image: None,
        memory_max_bytes: None,
        pids_max: None,
        enable_seccomp: true,
        drop_capabilities: true,
    }
}

/// Reads the options from word `i` of `args` on. An option that takes a value
/// takes the next word; a later option overrides an earlier one; `--` ends the
/// options; any other word that begins with `-` is an error; the first word
/// that does not ends the options and is the program.
pub open spec fn scan_options(args: Seq<Seq<char>>, i: int, st: ScanState) -> Scan
    decreases args.len() - i,
{
    if i < 0 || i >= args.len() {
        Scan::Done(st, Seq::empty())
    } else {
        let a = args[i];
        let has_value = i + 1 < args.len();
        if a == "--rootfs"@ {
            if has_value {
                scan_options(args, i + 2, ScanState { rootfs: Some(args[i + 1]), ..st })
            } else {
                Scan::Failed("Missing path for --rootfs option"@)
            }
        } else if a == "--image"@ {
            if has_value {
                scan_options(args, i + 2, ScanState { image: Some(args[i + 1]), ..st })
            } else {
                Scan::Failed("Missing path for --image option"@)
            }
        } else if a == "--memory"@ {
            if !has_value {
                Scan::Failed("Missing value for --memory option"@)
            } else if let Some(bytes) = spec_parse_u64(args[i + 1]) {
                scan_options(args, i + 2, ScanState { memory_max_bytes: Some(bytes), ..st })
            } else {
                Scan::Failed("Invalid memory byte limit: "@ + args[i + 1])
            }
        } else if a == "--pids"@ {
            if !has_value {
                Scan::Failed("Missing value for --pids option"@)
            } else if let Some(max) = spec_parse_u64(args[i + 1]) {
                scan_options(args, i + 2, ScanState { pids_max: Some(max), ..st })
            } else {
                Scan::Failed("Invalid pids max limit: "@ + args[i + 1])
            }
        } else if a == "--no-seccomp"@ {
            scan_options(args, i + 1, ScanState { enable_seccomp: false, ..st })
        } else if a == "--no-caps-drop"@ {
            scan_options(args, i + 1, ScanState { drop_capabilities: false, ..st })
        } else if a == "--"@ {
            Scan::Done(st, args.subrange(i + 1, args.len() as int))
        } else if a.len() > 0 && a[0] == '-' {
            Scan::Failed("Unknown option: "@ + a)
        } else {
            Scan::Done(st, args.subrange(i, args.len() as int))
        }
    }
}

/// What the command line `args` (the program's own name first) asks for, or
/// the text of the error it is refused with.
pub open spec fn spec_parse_args(args: Seq<Seq<char>>) -> Result<RunOptionsView, Seq<char>> {
    if args.len() < 2 {
        Err("Missing command. Usage: jar run [OPTIONS] <program> [args...]"@)
    } else if args[1] != "run"@ {
        Err("Unknown command: "@ + args[1])
    } else {
        match scan_options(args, 2, initial_scan_state()) {
            Scan::Failed(m) => Err(m),
            Scan::Done(st, words) => {
                if words.len() == 0 {
                    Err("Missing executable path. Usage: jar run [OPTIONS] <program> [args...]"@)
                } else {
                    Ok(
                        RunOptionsView {
                            executable: words[0],
                            args: words.drop_first(),
                            rootfs: st.rootfs,
                            image: st.image,
                            limits: ResourceLimits {
                                memory_max_bytes: st.memory_max_bytes,
                                cpu_max_quota_us: None,
                                cpu_max_period_us: None,
                                pids_max: st.pids_max,
                            },
                            enable_seccomp: st.enable_seccomp,
                            drop_capabilities: st.drop_capabilities,
                        },
                    )
                }
            },
        }
    }
}

/// The options read so far, from the parser's variables.
pub open spec fn current_state(
    rootfs: Option<String>,
    image: Option<String>,
    memory_max_bytes: Option<u64>,
    pids_max: Option<u64>,
    enable_seccomp: bool,
    drop_capabilities: bool,
) -> ScanState {
    ScanState {
        rootfs: option_view(rootfs),
        image: option_view(image),
        memory_max_bytes,
        pids_max,
        enable_seccomp,
        drop_capabilities,
    }
}

fn invalid_args(message: String) -> (r: JarError)
    ensures
        r == JarError::InvalidArgs(message),
{
    JarError::InvalidArgs(message)
}

/// Reads the command line; `args[0]` is the program's own name.
pub fn parse_args(args: Vec<String>) -> (r: Result<Command, JarError>)
    ensures
        match spec_parse_args(string_views(args@)) {
            Ok(o) => r matches Ok(Command::Run(opts)) && opts@ == o,
            Err(m) => r matches Err(JarError::InvalidArgs(e)) && e@ == m,
        },
{
    let ghost views = string_views(args@);
    let n = args.len();
    if n < 2 {
        return Err(
            invalid_args(
                String::from_str("Missing command. Usage: jar run [OPTIONS] <program> [args...]"),
            ),
        );
    }
    assert(views[1] == args@[1]@);
    if !str_eq(args[1].as_str(), "run") {
        return Err(invalid_args(concat_text("Unknown command: ", args[1].as_str())));
    }
    let mut rootfs: Option<String> = None;
    let mut image: Option<String> = None;
    let mut memory_max_bytes: Option<u64> = None;
    let mut pids_max: Option<u64> = None;
    let mut enable_seccomp = true;
    let mut drop_capabilities = true;
    let mut i: usize = 2;
    let mut stopped = false;
    let mut start: usize = n;
    while i < n && !stopped
        invariant
            2 <= i <= n,
            start <= n,
            !stopped ==> start == n,
            n == args@.len(),
            views == string_views(args@),
            views.len() == n,
            views[1] == "run"@,
            !stopped ==> scan_options(
                views,
                i as int,
                current_state(
                    rootfs,
                    image,
                    memory_max_bytes,
                    pids_max,
                    enable_seccomp,
                    drop_capabilities,
                ),
            ) == scan_options(views, 2, initial_scan_state()),
            stopped ==> scan_options(views, 2, initial_scan_state()) == Scan::Done(
                current_state(
                    rootfs,
                    image,
                    memory_max_bytes,
                    pids_max,
                    enable_seccomp,
                    drop_capabilities,
                ),
                views.subrange(start as int, n as int),
            ),
        decreases n - i + (if stopped { 0int } else { 1int }),
    {
        let a = args[i].as_str();
        assert(a@ == views[i as int]);
        let has_value = i + 1 < n;
        if has_value {
            assert(args@[i + 1]@ == views[i + 1]);
        }
        if str_eq(a, "--rootfs") {
            if !has_value {
                return Err(invalid_args(String::from_str("Missing path for --rootfs option")));
            }
            rootfs = Some(args[i + 1].clone());
            i = i + 2;
        } else if str_eq(a, "--image") {
            if !has_value {
                return Err(invalid_args(String::from_str("Missing path for --image option")));
            }
            image = Some(args[i + 1].clone());
            i = i + 2;
        } else if str_eq(a, "--memory") {
            if !has_value {
                return Err(invalid_args(String::from_str("Missing value for --memory option")));
            }
            let val = args[i + 1].as_str();
            match parse_u64(val) {
                Some(bytes) => {
                    memory_max_bytes = Some(bytes);
                    i = i + 2;
                },
                None => {
                    return Err(invalid_args(concat_text("Invalid memory byte limit: ", val)));
                },
            }
        } else if str_eq(a, "--pids") {
            if !has_value {
                return Err(invalid_args(String::from_str("Missing value for --pids option")));
            }
            let val = args[i + 1].as_str();
            match parse_u64(val) {
                Some(max) => {
                    pids_max = Some(max);
                    i = i + 2;
                },
                None => {
                    return Err(invalid_args(concat_text("Invalid pids max limit: ", val)));
                },
            }
        } else if str_eq(a, "--no-seccomp") {
            enable_seccomp = false;
            i = i + 1;
        } else if str_eq(a, "--no-caps-drop") {
            drop_capabilities = false;
            i = i + 1;
        } else if str_eq(a, "--") {
            start = i + 1;
            stopped = true;
        } else if starts_with_char(a, '-') {
            return Err(invalid_args(concat_text("Unknown option: ", a)));
        } else {
            start = i;
            stopped = true;
        }
    }
    if !stopped {
        assert(views.subrange(n as int, n as int) =~= Seq::<Seq<char>>::empty());
    }
    if start >= n {
        return Err(
            invalid_args(
                String::from_str(
                    "Missing executable path. Usage: jar run [OPTIONS] <program> [args...]",
                ),
            ),
        );
    }
    let executable = args[start].clone();
    let mut rest: Vec<String> = Vec::new();
    let mut j: usize = start + 1;
    while j < n
        invariant
            start < j <= n,
            n == args@.len(),
            views.len() == n,
            views == string_views(args@),
            string_views(rest@) =~= views.subrange(start + 1, j as int),
        decreases n - j,
    {
        let ghost before = rest@;
        rest.push(args[j].clone());
        assert(string_views(rest@) =~= string_views(before).push(views[j as int]));
        j = j + 1;
    }
    let opts = RunOptions {
        executable,
        args: rest,
        rootfs,
        image,
        limits: ResourceLimits {
            memory_max_bytes,
            cpu_max_quota_us: None,
            cpu_max_period_us: None,
            pids_max,
        },
        enable_seccomp,
        drop_capabilities,
    };
    let ghost words = views.subrange(start as int, n as int);
    assert(words.drop_first() =~= views.subrange(start + 1, n as int));
    assert(opts@.args =~= words.drop_first());
    Ok(Command::Run(opts))
}

/// What a command line with no options asks for: `program` with `words`,
/// seccomp on, capabilities dropped, no root file system, image or limits.
pub open spec fn plain_run(program: Seq<char>, words: Seq<Seq<char>>) -> RunOptionsView {
    RunOptionsView {
        executable: program,
        args: words,
        rootfs: None,
        image: None,
        limits: ResourceLimits {
            memory_max_bytes: None,
            cpu_max_quota_us: None,
            cpu_max_period_us: None,
            pids_max: None,
        },
        enable_seccomp: true,
        drop_capabilities: true,
    }
}

proof fn lemma_options_begin_with_dash()
    ensures
        "--rootfs"@[0] == '-',
        "--image"@[0] == '-',
        "--memory"@[0] == '-',
        "--pids"@[0] == '-',
        "--no-seccomp"@[0] == '-',
        "--no-caps-drop"@[0] == '-',
        "--"@.len() == 2,
        "--"@[0] == '-',
        "--rootfs"@.len() > 2,
        "--image"@.len() > 2,
        "--memory"@.len() > 2,
        "--pids"@.len() > 2,
        "--no-seccomp"@.len() > 2,
        "--no-caps-drop"@.len() > 2,
{
    reveal_strlit("--rootfs");
    reveal_strlit("--image");
    reveal_strlit("--memory");
    reveal_strlit("--pids");
    reveal_strlit("--no-seccomp");
    reveal_strlit("--no-caps-drop");
    reveal_strlit("--");
}

/// A word that does not begin with `-` ends the options and names the
/// program: `jar run <program> <words...>` runs `program` with `words`, as
/// given, under the default isolation.
pub proof fn lemma_program_and_words_as_given(
    own_name: Seq<char>,
    program: Seq<char>,
    words: Seq<Seq<char>>,
)
    requires
        !(program.len() > 0 && program[0] == '-'),
    ensures
        spec_parse_args(seq![own_name, "run"@, program] + words) == Ok::<
            RunOptionsView,
            Seq<char>,
        >(plain_run(program, words)),
{
    lemma_options_begin_with_dash();
    let args = seq![own_name, "run"@, program] + words;
    assert(program != "--rootfs"@);
    assert(program != "--image"@);
    assert(program != "--memory"@);
    assert(program != "--pids"@);
    assert(program != "--no-seccomp"@);
    assert(program != "--no-caps-drop"@);
    assert(program != "--"@);
    assert(args[1] == "run"@);
    assert(args[2] == program);
    assert(args.subrange(2, args.len() as int) =~= seq![program] + words);
    assert((seq![program] + words).drop_first() =~= words);
}

/// After `--` every word is the program or one of its words, even one that
/// begins with `-`: `jar run -- <program> <words...>` runs `program` with
/// `words` under the default isolation.
pub proof fn lemma_words_after_separator(
    own_name: Seq<char>,
    program: Seq<char>,
    words: Seq<Seq<char>>,
)
    ensures
        spec_parse_args(seq![own_name, "run"@, "--"@, program] + words) == Ok::<
            RunOptionsView,
            Seq<char>,
        >(plain_run(program, words)),
{
    lemma_options_begin_with_dash();
    let args = seq![own_name, "run"@, "--"@, program] + words;
    assert(args[1] == "run"@);
    assert(args[2] == "--"@);
    assert("--"@ != "--rootfs"@);
    assert("--"@ != "--image"@);
    assert("--"@ != "--memory"@);
    assert("--"@ != "--pids"@);
    assert("--"@ != "--no-seccomp"@);
    assert("--"@ != "--no-caps-drop"@);
    assert(args.subrange(3, args.len() as int) =~= seq![program] + words);
    assert((seq![program] + words).drop_first() =~= words);
}

proof fn lemma_scan_extend(args: Seq<Seq<char>>, extra: Seq<Seq<char>>, i: int, st: ScanState)
    requires
        0 <= i,
        scan_options(args, i, st) matches Scan::Done(_, words) && words.len() > 0,
    ensures
        scan_options(args + extra, i, st) == (match scan_options(args, i, st) {
            Scan::Done(st2, words) => Scan::Done(st2, words + extra),
            Scan::Failed(m) => Scan::Failed(m),
        }),
    decreases args.len() - i,
{
    let ext = args + extra;
    if i < args.len() {
        let a = args[i];
        assert(ext[i] == a);
        if i + 1 < args.len() {
            assert(ext[i + 1] == args[i + 1]);
        }
        if a == "--rootfs"@ {
            lemma_scan_extend(args, extra, i + 2, ScanState { rootfs: Some(args[i + 1]), ..st });
        } else if a == "--image"@ {
            lemma_scan_extend(args, extra, i + 2, ScanState { image: Some(args[i + 1]), ..st });
        } else if a == "--memory"@ {
            if let Some(bytes) = spec_parse_u64(args[i + 1]) {
                lemma_scan_extend(
                    args,
                    extra,
                    i + 2,
                    ScanState { memory_max_bytes: Some(bytes), ..st },
                );
            }
        } else if a == "--pids"@ {
            if let Some(max) = spec_parse_u64(args[i + 1]) {
                lemma_scan_extend(args, extra, i + 2, ScanState { pids_max: Some(max), ..st });
            }
        } else if a == "--no-seccomp"@ {
            lemma_scan_extend(args, extra, i + 1, ScanState { enable_seccomp: false, ..st });
        } else if a == "--no-caps-drop"@ {
            lemma_scan_extend(args, extra, i + 1, ScanState { drop_capabilities: false, ..st });
        } else if a == "--"@ {
            assert(ext.subrange(i + 1, ext.len() as int) =~= args.subrange(i + 1, args.len() as int)
                + extra);
        } else if a.len() > 0 && a[0] == '-' {
        } else {
            assert(ext.subrange(i, ext.len() as int) =~= args.subrange(i, args.len() as int)
                + extra);
        }
    }
}

/// Words added at the end of an accepted command line are passed to the
/// program, after its other words, and change nothing else.
pub proof fn lemma_trailing_words_reach_program(args: Seq<Seq<char>>, extra: Seq<Seq<char>>)
    requires
        spec_parse_args(args) is Ok,
    ensures
        spec_parse_args(args) matches Ok(o) ==> spec_parse_args(args + extra) == Ok::<
            RunOptionsView,
            Seq<char>,
        >(RunOptionsView { args: o.args + extra, ..o }),
{
    let ext = args + extra;
    assert(ext[1] == args[1]);
    lemma_scan_extend(args, extra, 2, initial_scan_state());
    if let Scan::Done(st, words) = scan_options(args, 2, initial_scan_state()) {
        assert((words + extra)[0] == words[0]);
        assert((words + extra).drop_first() =~= words.drop_first() + extra);
    }
}

/// An option that takes the next word as its value.
pub open spec fn takes_value(a: Seq<char>) -> bool {
    a == "--rootfs"@ || a == "--image"@ || a == "--memory"@ || a == "--pids"@
}

/// An option that takes no value.
pub open spec fn is_flag(a: Seq<char>) -> bool {
    a == "--no-seccomp"@ || a == "--no-caps-drop"@
}

/// The option words read from word `i` of `args` on, their values left out,
/// up to the program, `--` or an unknown option.
pub open spec fn option_words(args: Seq<Seq<char>>, i: int) -> Seq<Seq<char>>
    decreases args.len() - i,
{
    if i < 0 || i >= args.len() {
        Seq::empty()
    } else if takes_value(args[i]) {
        if i + 1 < args.len() {
            seq![args[i]] + option_words(args, i + 2)
        } else {
            seq![args[i]]
        }
    } else if is_flag(args[i]) {
        seq![args[i]] + option_words(args, i + 1)
    } else {
        Seq::empty()
    }
}

/// The values given to the option `name` from word `i` of `args` on, in order.
pub open spec fn option_values(args: Seq<Seq<char>>, i: int, name: Seq<char>) -> Seq<Seq<char>>
    decreases args.len() - i,
{
    if i < 0 || i >= args.len() {
        Seq::empty()
    } else if takes_value(args[i]) {
        if i + 1 < args.len() {
            (if args[i] == name {
                seq![args[i + 1]]
            } else {
                Seq::empty()
            }) + option_values(args, i + 2, name)
        } else {
            Seq::empty()
        }
    } else if is_flag(args[i]) {
        option_values(args, i + 1, name)
    } else {
        Seq::empty()
    }
}

/// The last of `values`, if any.
pub open spec fn last_value(values: Seq<Seq<char>>) -> Option<Seq<char>> {
    if values.len() == 0 {
        None
    } else {
        Some(values.last())
    }
}

/// The number that the last of `values` gives, if any.
pub open spec fn last_number(values: Seq<Seq<char>>) -> Option<u64> {
    if values.len() == 0 {
        None
    } else {
        spec_parse_u64(values.last())
    }
}

proof fn lemma_option_names_differ()
    ensures
        "--rootfs"@ != "--image"@,
        "--rootfs"@ != "--memory"@,
        "--rootfs"@ != "--pids"@,
        "--image"@ != "--memory"@,
        "--image"@ != "--pids"@,
        "--memory"@ != "--pids"@,
        "--no-seccomp"@ != "--no-caps-drop"@,
        !takes_value("--no-seccomp"@),
        !takes_value("--no-caps-drop"@),
        !takes_value("--"@),
        !is_flag("--"@),
{
    reveal_strlit("--rootfs");
    reveal_strlit("--image");
    reveal_strlit("--memory");
    reveal_strlit("--pids");
    reveal_strlit("--no-seccomp");
    reveal_strlit("--no-caps-drop");
    reveal_strlit("--");
    assert("--rootfs"@[2] != "--image"@[2]);
    assert("--rootfs"@[2] != "--memory"@[2]);
    assert("--rootfs"@[2] != "--pids"@[2]);
    assert("--image"@[2] != "--memory"@[2]);
    assert("--image"@[2] != "--pids"@[2]);
    assert("--memory"@[2] != "--pids"@[2]);
    assert("--no-seccomp"@[5] != "--no-caps-drop"@[5]);
    assert("--no-seccomp"@.len() != "--rootfs"@.len());
    assert("--no-caps-drop"@.len() != "--rootfs"@.len());
    assert("--"@.len() != "--rootfs"@.len());
    assert("--"@.len() != "--image"@.len());
    assert("--"@.len() != "--memory"@.len());
    assert("--"@.len() != "--pids"@.len());
    assert("--"@.len() != "--no-seccomp"@.len());
    assert("--"@.len() != "--no-caps-drop"@.len());
}

proof fn lemma_contains_after_head(a: Seq<char>, rest: Seq<Seq<char>>, x: Seq<char>)
    ensures
        (seq![a] + rest).contains(x) == (a == x || rest.contains(x)),
{
    let w = seq![a] + rest;
    if rest.contains(x) {
        let k = choose|k: int| 0 <= k < rest.len() && rest[k] == x;
        assert(w[k + 1] == x);
    }
    if w.contains(x) && a != x {
        let k = choose|k: int| 0 <= k < w.len() && w[k] == x;
        assert(rest[k - 1] == x);
    }
    if a == x {
        assert(w[0] == x);
    }
}

proof fn lemma_scan_options_read(args: Seq<Seq<char>>, i: int, st: ScanState)
    requires
        0 <= i,
    ensures
        scan_options(args, i, st) matches Scan::Done(st2, _) ==> {
            &&& st2.enable_seccomp == (st.enable_seccomp && !option_words(args, i).contains(
                "--no-seccomp"@,
            ))
            &&& st2.drop_capabilities == (st.drop_capabilities && !option_words(args, i).contains(
                "--no-caps-drop"@,
            ))
            &&& st2.rootfs == (if option_values(args, i, "--rootfs"@).len() == 0 {
                st.rootfs
            } else {
                last_value(option_values(args, i, "--rootfs"@))
            })
            &&& st2.image == (if option_values(args, i, "--image"@).len() == 0 {
                st.image
            } else {
                last_value(option_values(args, i, "--image"@))
            })
            &&& st2.memory_max_bytes == (if option_values(args, i, "--memory"@).len() == 0 {
                st.memory_max_bytes
            } else {
                last_number(option_values(args, i, "--memory"@))
            })
            &&& st2.pids_max == (if option_values(args, i, "--pids"@).len() == 0 {
                st.pids_max
            } else {
                last_number(option_values(args, i, "--pids"@))
            })
        },
    decreases args.len() - i,
{
    lemma_option_names_differ();
    if i < args.len() {
        let a = args[i];
        let w = option_words(args, i);
        if a == "--rootfs"@ {
            if i + 1 < args.len() {
                let st1 = ScanState { rootfs: Some(args[i + 1]), ..st };
                lemma_scan_options_read(args, i + 2, st1);
                let rest = option_words(args, i + 2);
                assert(w == seq![a] + rest);
                lemma_contains_after_head(a, rest, "--no-seccomp"@);
                lemma_contains_after_head(a, rest, "--no-caps-drop"@);
                let v = option_values(args, i + 2, "--rootfs"@);
                assert(option_values(args, i, "--rootfs"@) == seq![args[i + 1]] + v);
                assert((seq![args[i + 1]] + v).last() == (if v.len() == 0 {
                    args[i + 1]
                } else {
                    v.last()
                }));
                assert(option_values(args, i, "--image"@) =~= option_values(args, i + 2, "--image"@));
                assert(option_values(args, i, "--memory"@) =~= option_values(args, i + 2, "--memory"@));
                assert(option_values(args, i, "--pids"@) =~= option_values(args, i + 2, "--pids"@));
            }
        } else if a == "--image"@ {
            if i + 1 < args.len() {
                let st1 = ScanState { image: Some(args[i + 1]), ..st };
                lemma_scan_options_read(args, i + 2, st1);
                let rest = option_words(args, i + 2);
                assert(w == seq![a] + rest);
                lemma_contains_after_head(a, rest, "--no-seccomp"@);
                lemma_contains_after_head(a, rest, "--no-caps-drop"@);
                let v = option_values(args, i + 2, "--image"@);
                assert(option_values(args, i, "--image"@) == seq![args[i + 1]] + v);
                assert((seq![args[i + 1]] + v).last() == (if v.len() == 0 {
                    args[i + 1]
                } else {
                    v.last()
                }));
                assert(option_values(args, i, "--rootfs"@) =~= option_values(args, i + 2, "--rootfs"@));
                assert(option_values(args, i, "--memory"@) =~= option_values(args, i + 2, "--memory"@));
                assert(option_values(args, i, "--pids"@) =~= option_values(args, i + 2, "--pids"@));
            }
        } else if a == "--memory"@ {
            if i + 1 < args.len() {
                if let Some(bytes) = spec_parse_u64(args[i + 1]) {
                    let st1 = ScanState { memory_max_bytes: Some(bytes), ..st };
                    lemma_scan_options_read(args, i + 2, st1);
                    let rest = option_words(args, i + 2);
                    assert(w == seq![a] + rest);
                    lemma_contains_after_head(a, rest, "--no-seccomp"@);
                    lemma_contains_after_head(a, rest, "--no-caps-drop"@);
                    let v = option_values(args, i + 2, "--memory"@);
                    assert(option_values(args, i, "--memory"@) == seq![args[i + 1]] + v);
                    assert((seq![args[i + 1]] + v).last() == (if v.len() == 0 {
                        args[i + 1]
                    } else {
                        v.last()
                    }));
                    assert(option_values(args, i, "--rootfs"@) =~= option_values(args, i + 2, "--rootfs"@));
                    assert(option_values(args, i, "--image"@) =~= option_values(args, i + 2, "--image"@));
                    assert(option_values(args, i, "--pids"@) =~= option_values(args, i + 2, "--pids"@));
                }
            }
        } else if a == "--pids"@ {
            if i + 1 < args.len() {
                if let Some(max) = spec_parse_u64(args[i + 1]) {
                    let st1 = ScanState { pids_max: Some(max), ..st };
                    lemma_scan_options_read(args, i + 2, st1);
                    let rest = option_words(args, i + 2);
                    assert(w == seq![a] + rest);
                    lemma_contains_after_head(a, rest, "--no-seccomp"@);
                    lemma_contains_after_head(a, rest, "--no-caps-drop"@);
                    let v = option_values(args, i + 2, "--pids"@);
                    assert(option_values(args, i, "--pids"@) == seq![args[i + 1]] + v);
                    assert((seq![args[i + 1]] + v).last() == (if v.len() == 0 {
                        args[i + 1]
                    } else {
                        v.last()
                    }));
                    assert(option_values(args, i, "--rootfs"@) =~= option_values(args, i + 2, "--rootfs"@));
                    assert(option_values(args, i, "--image"@) =~= option_values(args, i + 2, "--image"@));
                    assert(option_values(args, i, "--memory"@) =~= option_values(args, i + 2, "--memory"@));
                }
            }
        } else if a == "--no-seccomp"@ || a == "--no-caps-drop"@ {
            let st1 = if a == "--no-seccomp"@ {
                ScanState { enable_seccomp: false, ..st }
            } else {
                ScanState { drop_capabilities: false, ..st }
            };
            lemma_scan_options_read(args, i + 1, st1);
            let rest = option_words(args, i + 1);
            assert(w == seq![a] + rest);
            assert(w[0] == a);
            lemma_contains_after_head(a, rest, "--no-seccomp"@);
            lemma_contains_after_head(a, rest, "--no-caps-drop"@);
        } else {
            assert(w.len() == 0);
        }
    }
}

/// What an accepted command line asks for follows from its option words:
/// seccomp stays on unless `--no-seccomp` is among them, capabilities are
/// dropped unless `--no-caps-drop` is, no cpu limit is set, and each of
/// `--rootfs`, `--image`, `--memory` and `--pids` keeps the last value given
/// to it, or is unset when it is not given.
pub proof fn lemma_options_as_given(args: Seq<Seq<char>>)
    requires
        spec_parse_args(args) is Ok,
    ensures
        spec_parse_args(args) matches Ok(o) ==> {
            let words = option_words(args, 2);
            &&& o.enable_seccomp == !words.contains("--no-seccomp"@)
            &&& o.drop_capabilities == !words.contains("--no-caps-drop"@)
            &&& o.limits.cpu_max_quota_us is None
            &&& o.limits.cpu_max_period_us is None
            &&& o.rootfs == last_value(option_values(args, 2, "--rootfs"@))
            &&& o.image == last_value(option_values(args, 2, "--image"@))
            &&& o.limits.memory_max_bytes == last_number(option_values(args, 2, "--memory"@))
            &&& o.limits.pids_max == last_number(option_values(args, 2, "--pids"@))
        },
{
    lemma_scan_options_read(args, 2, initial_scan_state());
}

} // verus!
