//! The command-line grammar: one input path, an optional output path and
//! four switches.
use vstd::prelude::*;
use crate::text::{chars_of, string_views};

verus! {

/// The arguments of one run.
#[derive(Clone, Debug)]
pub struct CLIArgs {
    /// An image file or a directory of images.
    pub input_path: String,
    /// Where results go: a file for a file input, a directory for a
    /// directory input; in place when absent.
    pub output_path: Option<String>,
    /// Process the files one after another on the calling thread.
    pub single_thread: bool,
    /// Overwrite existing outputs without asking.
    pub force: bool,
    /// Include GIF images.
    pub allow_gif: bool,
    /// Keep embedded color profiles.
    pub remain_profile: bool,
}

/// Why the arguments do not describe a run.
#[derive(Clone, Copy, Debug, PartialEq, Eq, Structural)]
pub enum ArgsError {
    /// `-h` or `--help` was given.
    HelpRequested,
    /// `-V` or `--version` was given.
    VersionRequested,
    /// No input path was given.
    MissingInput,
    /// The output option has no value: it ends the arguments, or the next
    /// argument is an option.
    MissingValue,
    /// A path value is empty.
    EmptyValue,
    /// An option that the grammar does not know.
    UnknownOption,
    /// A second positional argument, or a value given to a switch.
    UnexpectedArgument,
    /// An option given twice.
    RepeatedOption,
}

/// What the arguments read so far say.
pub struct ArgsModel {
    pub input_path: Option<Seq<char>>,
    pub output_path: Option<Seq<char>>,
    pub single_thread: bool,
    pub force: bool,
    pub allow_gif: bool,
    pub remain_profile: bool,
}

/// The four switches, which take no value.
#[derive(Clone, Copy, Debug, PartialEq, Eq, Structural)]
pub enum Switch {
    SingleThread,
    Force,
    AllowGif,
    RemainProfile,
}

/// How far an option reaches: to the end of its own argument, or over the
/// next argument too, which holds its value.
pub enum Step {
    Next(ArgsModel),
    TookValue(ArgsModel),
}

/// Nothing read yet.
pub open spec fn empty_model() -> ArgsModel {
    ArgsModel {
        input_path: None,
        output_path: None,
        single_thread: false,
        force: false,
        allow_gif: false,
        remain_profile: false,
    }
}

/// An argument that names an option rather than a value: a `-` followed by
/// at least one character.
pub open spec fn is_option_like(t: Seq<char>) -> bool {
    t.len() > 1 && t[0] == '-'
}

/// A long option: `--` followed by its name.
pub open spec fn is_long(t: Seq<char>) -> bool {
    t.len() > 2 && t[0] == '-' && t[1] == '-'
}

/// The argument `--`, after which every argument is positional.
pub open spec fn is_end_of_options(t: Seq<char>) -> bool {
    t.len() == 2 && t[0] == '-' && t[1] == '-'
}

/// The index of the first `c` in `s`, or -1.
pub open spec fn first_index(s: Seq<char>, c: char) -> int
    decreases s.len(),
{
    if s.len() == 0 {
        -1
    } else if s[0] == c {
        0
    } else {
        let k = first_index(s.drop_first(), c);
        if k < 0 {
            -1
        } else {
            k + 1
        }
    }
}

/// Turns a switch on; a switch may be given once.
pub open spec fn switch_on(m: ArgsModel, s: Switch) -> Result<ArgsModel, ArgsError> {
    match s {
        Switch::SingleThread => if m.single_thread {
            Err(ArgsError::RepeatedOption)
        } else {
            Ok(ArgsModel { single_thread: true, ..m })
        },
        Switch::Force => if m.force {
            Err(ArgsError::RepeatedOption)
        } else {
            Ok(ArgsModel { force: true, ..m })
        },
        Switch::AllowGif => if m.allow_gif {
            Err(ArgsError::RepeatedOption)
        } else {
            Ok(ArgsModel { allow_gif: true, ..m })
        },
        Switch::RemainProfile => if m.remain_profile {
            Err(ArgsError::RepeatedOption)
        } else {
            Ok(ArgsModel { remain_profile: true, ..m })
        },
    }
}

/// Sets the output path; it may be given once, and not empty.
pub open spec fn output_to(m: ArgsModel, v: Seq<char>) -> Result<ArgsModel, ArgsError> {
    if v.len() == 0 {
        Err(ArgsError::EmptyValue)
    } else if m.output_path is Some {
        Err(ArgsError::RepeatedOption)
    } else {
        Ok(ArgsModel { output_path: Some(v), ..m })
    }
}

/// Takes a positional argument as the input path; there is one, not empty.
pub open spec fn positional(m: ArgsModel, t: Seq<char>) -> Result<ArgsModel, ArgsError> {
    if t.len() == 0 {
        Err(ArgsError::EmptyValue)
    } else if m.input_path is Some {
        Err(ArgsError::UnexpectedArgument)
    } else {
        Ok(ArgsModel { input_path: Some(t), ..m })
    }
}

/// `r`, reaching to the end of the current argument.
pub open spec fn then_next(r: Result<ArgsModel, ArgsError>) -> Result<Step, ArgsError> {
    match r {
        Ok(m) => Ok(Step::Next(m)),
        Err(e) => Err(e),
    }
}

/// `r`, reaching over the next argument too.
pub open spec fn then_took(r: Result<ArgsModel, ArgsError>) -> Result<Step, ArgsError> {
    match r {
        Ok(m) => Ok(Step::TookValue(m)),
        Err(e) => Err(e),
    }
}

/// The output option takes the next argument as its value, unless there is
/// none or it names an option.
pub open spec fn value_from_next(m: ArgsModel, next: Option<Seq<char>>) -> Result<Step, ArgsError> {
    match next {
        Some(v) => if is_option_like(v) {
            Err(ArgsError::MissingValue)
        } else {
            then_took(output_to(m, v))
        },
        None => Err(ArgsError::MissingValue),
    }
}

/// The switch that a short option letter names.
pub open spec fn short_switch(c: char) -> Option<Switch> {
    if c == 's' {
        Some(Switch::SingleThread)
    } else if c == 'f' {
        Some(Switch::Force)
    } else if c == 'r' {
        Some(Switch::RemainProfile)
    } else {
        None
    }
}

/// The switch that a long option name names.
pub open spec fn long_switch(name: Seq<char>) -> Option<Switch> {
    if name == "single-thread"@ {
        Some(Switch::SingleThread)
    } else if name == "force"@ {
        Some(Switch::Force)
    } else if name == "allow-gif"@ {
        Some(Switch::AllowGif)
    } else if name == "remain-profile"@ {
        Some(Switch::RemainProfile)
    } else {
        None
    }
}

/// Reads the letters of a group of short options such as `-sf`, from index
/// `j` of the argument `t` on. `-o` takes the rest of the group as its
/// value, without a leading `=`, or else the next argument.
pub open spec fn short_group(t: Seq<char>, j: int, m: ArgsModel, next: Option<Seq<char>>) -> Result<Step, ArgsError>
    decreases t.len() - j,
{
    if j < 1 || j >= t.len() {
        Ok(Step::Next(m))
    } else if t[j] == 'h' {
        Err(ArgsError::HelpRequested)
    } else if t[j] == 'V' {
        Err(ArgsError::VersionRequested)
    } else if t[j] == 'o' {
        if j + 1 < t.len() {
            let rest = t.skip(j + 1);
            then_next(output_to(m, if rest[0] == '=' { rest.skip(1) } else { rest }))
        } else {
            value_from_next(m, next)
        }
    } else {
        match short_switch(t[j]) {
            Some(s) => match switch_on(m, s) {
                Ok(m2) => short_group(t, j + 1, m2, next),
                Err(e) => Err(e),
            },
            None => Err(ArgsError::UnknownOption),
        }
    }
}

/// Reads a long option `--name` or `--name=value`. The output option is
/// `--output-path`, or `--output`; it takes the text after `=` as its value,
/// or else the next argument. The other options take no value.
pub open spec fn long_option(t: Seq<char>, m: ArgsModel, next: Option<Seq<char>>) -> Result<Step, ArgsError> {
    let body = t.skip(2);
    let k = first_index(body, '=');
    let name = if k >= 0 { body.take(k) } else { body };
    if name == "help"@ {
        if k >= 0 { Err(ArgsError::UnexpectedArgument) } else { Err(ArgsError::HelpRequested) }
    } else if name == "version"@ {
        if k >= 0 { Err(ArgsError::UnexpectedArgument) } else { Err(ArgsError::VersionRequested) }
    } else if name == "output-path"@ || name == "output"@ {
        if k >= 0 {
            then_next(output_to(m, body.skip(k + 1)))
        } else {
            value_from_next(m, next)
        }
    } else {
        match long_switch(name) {
            Some(s) => if k >= 0 {
                Err(ArgsError::UnexpectedArgument)
            } else {
                then_next(switch_on(m, s))
            },
            None => Err(ArgsError::UnknownOption),
        }
    }
}

/// Reads `toks` from index `i` on, on top of what `m` holds already;
/// `ended` tells whether `--` has been read.
pub open spec fn parse_from(toks: Seq<Seq<char>>, i: int, m: ArgsModel, ended: bool) -> Result<ArgsModel, ArgsError>
    decreases toks.len() - i,
{
    if i < 0 || i >= toks.len() {
        if m.input_path is Some {
            Ok(m)
        } else {
            Err(ArgsError::MissingInput)
        }
    } else {
        let t = toks[i];
        let next = if i + 1 < toks.len() { Some(toks[i + 1]) } else { None };
        if ended {
            match positional(m, t) {
                Ok(m2) => parse_from(toks, i + 1, m2, true),
                Err(e) => Err(e),
            }
        } else if is_end_of_options(t) {
            parse_from(toks, i + 1, m, true)
        } else {
            let s = if is_long(t) {
                long_option(t, m, next)
            } else if is_option_like(t) {
                short_group(t, 1, m, next)
            } else {
                then_next(positional(m, t))
            };
            match s {
                Ok(Step::Next(m2)) => parse_from(toks, i + 1, m2, false),
                Ok(Step::TookValue(m2)) => if i + 2 <= toks.len() {
                    parse_from(toks, i + 2, m2, false)
                } else {
                    parse_from(toks, toks.len() as int, m2, false)
                },
                Err(e) => Err(e),
            }
        }
    }
}

/// The outcome of reading a whole argument list.
pub open spec fn parse_args(toks: Seq<Seq<char>>) -> Result<ArgsModel, ArgsError> {
    parse_from(toks, 0, empty_model(), false)
}

impl CLIArgs {
    /// The model that these arguments stand for.
    pub open spec fn model(&self) -> ArgsModel {
        ArgsModel {
            input_path: Some(self.input_path@),
            output_path: match self.output_path {
                Some(o) => Some(o@),
                None => None,
            },
            single_thread: self.single_thread,
            force: self.force,
            allow_gif: self.allow_gif,
            remain_profile: self.remain_profile,
        }
    }
}

/// The arguments read so far.
struct Partial {
    input_path: Option<String>,
    output_path: Option<String>,
    single_thread: bool,
    force: bool,
    allow_gif: bool,
    remain_profile: bool,
}

spec fn opt_view(o: Option<String>) -> Option<Seq<char>> {
    match o {
        Some(s) => Some(s@),
        None => None,
    }
}

impl Partial {
    spec fn model(&self) -> ArgsModel {
        ArgsModel {
            input_path: opt_view(self.input_path),
            output_path: opt_view(self.output_path),
            single_thread: self.single_thread,
            force: self.force,
            allow_gif: self.allow_gif,
            remain_profile: self.remain_profile,
        }
    }
}

spec fn partial_model(r: Result<Partial, ArgsError>) -> Result<ArgsModel, ArgsError> {
    match r {
        Ok(p) => Ok(p.model()),
        Err(e) => Err(e),
    }
}

/// How far an option reached, with the arguments read so far.
enum Advance {
    Next(Partial),
    TookValue(Partial),
}

spec fn advance_model(r: Result<Advance, ArgsError>) -> Result<Step, ArgsError> {
    match r {
        Ok(Advance::Next(p)) => Ok(Step::Next(p.model())),
        Ok(Advance::TookValue(p)) => Ok(Step::TookValue(p.model())),
        Err(e) => Err(e),
    }
}

fn switch_on_exec(p: Partial, s: Switch) -> (r: Result<Partial, ArgsError>)
    ensures
        partial_model(r) == switch_on(p.model(), s),
{
    let mut p = p;
    match s {
        Switch::SingleThread => {
            if p.single_thread {
                return Err(ArgsError::RepeatedOption);
            }
            p.single_thread = true;
        },
        Switch::Force => {
            if p.force {
                return Err(ArgsError::RepeatedOption);
            }
            p.force = true;
        },
        Switch::AllowGif => {
            if p.allow_gif {
                return Err(ArgsError::RepeatedOption);
            }
            p.allow_gif = true;
        },
        Switch::RemainProfile => {
            if p.remain_profile {
                return Err(ArgsError::RepeatedOption);
            }
            p.remain_profile = true;
        },
    }
    Ok(p)
}

fn output_to_exec(p: Partial, v: String) -> (r: Result<Partial, ArgsError>)
    ensures
        partial_model(r) == output_to(p.model(), v@),
{
    if v.as_str().unicode_len() == 0 {
        return Err(ArgsError::EmptyValue);
    }
    if p.output_path.is_some() {
        return Err(ArgsError::RepeatedOption);
    }
    let mut p = p;
    p.output_path = Some(v);
    Ok(p)
}

fn positional_exec(p: Partial, t: &String) -> (r: Result<Partial, ArgsError>)
    ensures
        partial_model(r) == positional(p.model(), t@),
{
    if t.as_str().unicode_len() == 0 {
        return Err(ArgsError::EmptyValue);
    }
    if p.input_path.is_some() {
        return Err(ArgsError::UnexpectedArgument);
    }
    let mut p = p;
    p.input_path = Some(t.clone());
    Ok(p)
}

fn next_exec(r: Result<Partial, ArgsError>) -> (a: Result<Advance, ArgsError>)
    ensures
        advance_model(a) == then_next(partial_model(r)),
{
    match r {
        Ok(p) => Ok(Advance::Next(p)),
        Err(e) => Err(e),
    }
}

fn value_from_next_exec(p: Partial, next: Option<&String>) -> (r: Result<Advance, ArgsError>)
    ensures
        r matches Ok(Advance::TookValue(_)) ==> next is Some,
        advance_model(r) == value_from_next(
            p.model(),
            match next {
                Some(v) => Some(v@),
                None => None,
            },
        ),
{
    match next {
        Some(v) => {
            if starts_option(v) {
                Err(ArgsError::MissingValue)
            } else {
                match output_to_exec(p, v.clone()) {
                    Ok(q) => Ok(Advance::TookValue(q)),
                    Err(e) => Err(e),
                }
            }
        },
        None => Err(ArgsError::MissingValue),
    }
}

/// Tells whether `v[from..to]` is the literal `lit`.
fn span_is(v: &Vec<char>, from: usize, to: usize, lit: &str) -> (r: bool)
    requires
        from <= to <= v.len(),
    ensures
        r == (v@.subrange(from as int, to as int) == lit@),
{
    let l = chars_of(lit);
    if to - from != l.len() {
        return false;
    }
    let mut i: usize = 0;
    while i < l.len()
        invariant
            from <= to <= v.len(),
            to - from == l.len(),
            l@ == lit@,
            i <= l.len(),
            forall|k: int| 0 <= k < i ==> v@[from + k] == l@[k],
        decreases l.len() - i,
    {
        if v[from + i] != l[i] {
            assert(v@.subrange(from as int, to as int)[i as int] != lit@[i as int]);
            return false;
        }
        i += 1;
    }
    assert(v@.subrange(from as int, to as int) =~= lit@);
    true
}

/// The position of the first `c` in `s`, as `first_index` gives it.
proof fn lemma_first_index(s: Seq<char>, c: char, i: int)
    requires
        0 <= i <= s.len(),
        forall|k: int| 0 <= k < i ==> s[k] != c,
        i < s.len() ==> s[i] == c,
    ensures
        first_index(s, c) == if i < s.len() { i } else { -1 },
    decreases i,
{
    if i > 0 {
        let d = s.drop_first();
        assert forall|k: int| 0 <= k < i - 1 implies d[k] != c by {
            assert(d[k] == s[k + 1]);
        }
        lemma_first_index(d, c, i - 1);
    }
}

/// The substring of `t` from character `from` on.
fn rest_of(t: &String, from: usize) -> (r: String)
    requires
        from <= t@.len(),
    ensures
        r@ == t@.skip(from as int),
{
    let n = t.as_str().unicode_len();
    let s = t.as_str().substring_char(from, n);
    String::from_str(s)
}

/// Reads a long option argument `t`, whose characters are `tv`.
fn long_option_exec(t: &String, tv: &Vec<char>, p: Partial, next: Option<&String>) -> (r: Result<Advance, ArgsError>)
    requires
        tv@ == t@,
        is_long(t@),
    ensures
        r matches Ok(Advance::TookValue(_)) ==> next is Some,
        advance_model(r) == long_option(
            t@,
            p.model(),
            match next {
                Some(v) => Some(v@),
                None => None,
            },
        ),
{
    let n = tv.len();
    let mut e: usize = 2;
    while e < n && tv[e] != '='
        invariant
            2 <= e <= n,
            n == tv.len(),
            forall|k: int| 2 <= k < e ==> tv@[k] != '=',
        decreases n - e,
    {
        e += 1;
    }
    let ghost body = t@.skip(2);
    proof {
        assert forall|k: int| 0 <= k < e - 2 implies body[k] != '=' by {
            assert(body[k] == tv@[k + 2]);
        }
        lemma_first_index(body, '=', e - 2);
    }
    let has_value = e < n;
    assert(body.take(e - 2) =~= tv@.subrange(2, e as int));
    assert(!has_value ==> body =~= tv@.subrange(2, e as int));
    let is_output = span_is(tv, 2, e, "output-path") || span_is(tv, 2, e, "output");
    if span_is(tv, 2, e, "help") {
        if has_value { Err(ArgsError::UnexpectedArgument) } else { Err(ArgsError::HelpRequested) }
    } else if span_is(tv, 2, e, "version") {
        if has_value { Err(ArgsError::UnexpectedArgument) } else { Err(ArgsError::VersionRequested) }
    } else if is_output {
        if has_value {
            let v = rest_of(t, e + 1);
            assert(v@ =~= body.skip(e - 2 + 1));
            next_exec(output_to_exec(p, v))
        } else {
            value_from_next_exec(p, next)
        }
    } else {
        let s = if span_is(tv, 2, e, "single-thread") {
            Switch::SingleThread
        } else if span_is(tv, 2, e, "force") {
            Switch::Force
        } else if span_is(tv, 2, e, "allow-gif") {
            Switch::AllowGif
        } else if span_is(tv, 2, e, "remain-profile") {
            Switch::RemainProfile
        } else {
            return Err(ArgsError::UnknownOption);
        };
        if has_value {
            Err(ArgsError::UnexpectedArgument)
        } else {
            next_exec(switch_on_exec(p, s))
        }
    }
}

/// Reads a group of short options `t`, whose characters are `tv`.
fn short_group_exec(t: &String, tv: &Vec<char>, start: Partial, next: Option<&String>) -> (r: Result<Advance, ArgsError>)
    requires
        tv@ == t@,
        is_option_like(t@),
    ensures
        r matches Ok(Advance::TookValue(_)) ==> next is Some,
        advance_model(r) == short_group(
            t@,
            1,
            start.model(),
            match next {
                Some(v) => Some(v@),
                None => None,
            },
        ),
{
    let ghost nv = match next {
        Some(v) => Some(v@),
        None => None,
    };
    let ghost whole = short_group(t@, 1, start.model(), nv);
    let mut p = start;
    let mut j: usize = 1;
    while j < tv.len()
        invariant
            1 <= j <= tv.len(),
            tv@ == t@,
            nv == match next {
                Some(v) => Some(v@),
                None => None,
            },
            whole == short_group(t@, 1, start.model(), nv),
            whole == short_group(t@, j as int, p.model(), nv),
        decreases tv.len() - j,
    {
        let c = tv[j];
        if c == 'h' {
            return Err(ArgsError::HelpRequested);
        } else if c == 'V' {
            return Err(ArgsError::VersionRequested);
        } else if c == 'o' {
            if j + 1 < tv.len() {
                let from = if tv[j + 1] == '=' { j + 2 } else { j + 1 };
                let v = rest_of(t, from);
                let ghost rest = t@.skip(j + 1);
                assert(v@ =~= if rest[0] == '=' { rest.skip(1) } else { rest });
                return next_exec(output_to_exec(p, v));
            } else {
                return value_from_next_exec(p, next);
            }
        } else {
            let s = if c == 's' {
                Switch::SingleThread
            } else if c == 'f' {
                Switch::Force
            } else if c == 'r' {
                Switch::RemainProfile
            } else {
                return Err(ArgsError::UnknownOption);
            };
            match switch_on_exec(p, s) {
                Ok(q) => {
                    p = q;
                },
                Err(e) => {
                    return Err(e);
                },
            }
        }
        j += 1;
    }
    Ok(Advance::Next(p))
}

/// Reads the arguments that follow the program name, by the rules of the
/// original command line: one input path; `-o`, `--output-path` or
/// `--output` with a value (`-o V`, `-oV`, `-o=V`, `--output V`,
/// `--output=V`); the switches `-s`/`--single-thread`, `-f`/`--force`,
/// `--allow-gif`, `-r`/`--remain-profile`, short ones groupable (`-sf`);
/// `-h`/`--help`, `-V`/`--version`; and `--`, after which every argument
/// is positional. No option may be given twice.
pub fn get_args(args: &Vec<String>) -> (r: Result<CLIArgs, ArgsError>)
    ensures
        match (r, parse_args(string_views(args@))) {
            (Ok(a), Ok(m)) => a.model() == m,
            (Err(e), Err(f)) => e == f,
            _ => false,
        },
{
    let ghost toks = string_views(args@);
    let mut p = Partial {
        input_path: None,
        output_path: None,
        single_thread: false,
        force: false,
        allow_gif: false,
        remain_profile: false,
    };
    let mut ended = false;
    let mut i: usize = 0;
    while i < args.len()
        invariant
            i <= args.len(),
            toks == string_views(args@),
            parse_args(toks) == parse_from(toks, i as int, p.model(), ended),
        decreases args.len() - i,
    {
        let t = &args[i];
        assert(toks[i as int] == t@);
        let next = if i + 1 < args.len() {
            assert(toks[i + 1] == args@[i + 1]@);
            Some(&args[i + 1])
        } else {
            None
        };
        if ended {
            match positional_exec(p, t) {
                Ok(q) => {
                    p = q;
                },
                Err(e) => {
                    return Err(e);
                },
            }
            i += 1;
        } else {
            let tv = chars_of(t.as_str());
            if tv.len() == 2 && tv[0] == '-' && tv[1] == '-' {
                ended = true;
                i += 1;
            } else {
                let s = if tv.len() > 2 && tv[0] == '-' && tv[1] == '-' {
                    long_option_exec(t, &tv, p, next)
                } else if tv.len() > 1 && tv[0] == '-' {
                    short_group_exec(t, &tv, p, next)
                } else {
                    next_exec(positional_exec(p, t))
                };
                match s {
                    Ok(Advance::Next(q)) => {
                        p = q;
                        i += 1;
                    },
                    Ok(Advance::TookValue(q)) => {
                        p = q;
                        i += 2;
                    },
                    Err(e) => {
                        return Err(e);
                    },
                }
            }
        }
    }
    match p.input_path {
        Some(input_path) => Ok(
            CLIArgs {
                input_path,
                output_path: p.output_path,
                single_thread: p.single_thread,
                force: p.force,
                allow_gif: p.allow_gif,
                remain_profile: p.remain_profile,
            },
        ),
        None => Err(ArgsError::MissingInput),
    }
}

fn starts_option(t: &String) -> (r: bool)
    ensures
        r == is_option_like(t@),
{
    let v = chars_of(t.as_str());
    v.len() > 1 && v[0] == '-'
}

} // verus!
