use vstd::prelude::*;

use crate::literal::{from_str_radix_spec, parse_integer, IntError};
use crate::report::ReportLevel;
use crate::text::{push_char, str_eq, string_of};

verus! {

/// An option's value, and whether the command line set it.
pub struct Arg<T> {
    pub value: T,
    set: bool,
}

impl<T> Arg<T> {
    pub closed spec fn is_set(&self) -> bool {
        self.set
    }

    pub closed spec fn val(&self) -> T {
        self.value
    }

    fn new(default: T) -> (r: Arg<T>)
        ensures
            r.val() == default,
            !r.is_set(),
    {
        Arg { value: default, set: false }
    }

    /// Sets the value; an option may be set once only.
    fn try_mut(&mut self, value: T) -> (r: bool)
        ensures
            r == !old(self).is_set(),
            r ==> final(self).val() == value && final(self).is_set(),
            !r ==> *final(self) == *old(self),
    {
        if self.set {
            return false;
        }
        self.set = true;
        self.value = value;
        true
    }

    pub fn to_value(self) -> (r: T)
        ensures
            r == self.val(),
    {
        self.value
    }
}

/// The options of the command line.
pub struct Args {
    pub input: Arg<Option<String>>,
    pub debug: Arg<bool>,
    pub report_level: Arg<ReportLevel>,
    pub compact: Arg<bool>,
    pub context: Arg<bool>,
    pub max_reports: Arg<usize>,
}

/// The model of `Args`: each option's value and whether it was set.
pub struct ArgsModel {
    pub input: (Option<Seq<char>>, bool),
    pub debug: (bool, bool),
    pub report_level: (ReportLevel, bool),
    pub compact: (bool, bool),
    pub context: (bool, bool),
    pub max_reports: (usize, bool),
}

impl View for Args {
    type V = ArgsModel;

    open spec fn view(&self) -> ArgsModel {
        ArgsModel {
            input: (
                match self.input.val() {
                    Some(s) => Some(s@),
                    None => None,
                },
                self.input.is_set(),
            ),
            debug: (self.debug.val(), self.debug.is_set()),
            report_level: (self.report_level.val(), self.report_level.is_set()),
            compact: (self.compact.val(), self.compact.is_set()),
            context: (self.context.val(), self.context.is_set()),
            max_reports: (self.max_reports.val(), self.max_reports.is_set()),
        }
    }
}

/// The options before the command line is read.
pub open spec fn default_args() -> ArgsModel {
    ArgsModel {
        input: (None, false),
        debug: (false, false),
        report_level: (ReportLevel::Warn, false),
        compact: (false, false),
        context: (true, false),
        max_reports: (usize::MAX, false),
    }
}

/// What the command line asks for besides running a program.
#[derive(Clone, Copy, Debug, PartialEq, Eq, Structural)]
pub enum Exit {
    Usage,
    Help,
    Version,
    License,
}

/// What the command line asks for.
pub enum Command {
    Run(Args),
    Exit(Exit),
}

pub enum CommandModel {
    Run(ArgsModel),
    Exit(Exit),
}

impl View for Command {
    type V = CommandModel;

    open spec fn view(&self) -> CommandModel {
        match self {
            Command::Run(a) => CommandModel::Run(a@),
            Command::Exit(e) => CommandModel::Exit(*e),
        }
    }
}

/// What is wrong with a command line; the text is the argument concerned.
#[derive(Clone, Copy, Debug, PartialEq, Eq, Structural)]
pub enum ArgErrorKind {
    /// An option given twice.
    Repeated,
    /// An option that takes a value, inside a group but not at its end.
    NotAtEnd,
    MissingLevel,
    BadLevel,
    MissingNumber,
    BadNumber(IntError),
    Unrecognized,
    /// An argument after the input file.
    Unexpected,
}

pub struct ArgError {
    pub kind: ArgErrorKind,
    pub text: String,
}

impl View for ArgError {
    type V = (ArgErrorKind, Seq<char>);

    open spec fn view(&self) -> (ArgErrorKind, Seq<char>) {
        (self.kind, self.text@)
    }
}

pub open spec fn starts_with_dash(a: Seq<char>) -> bool {
    a.len() >= 1 && a[0] == '-'
}

pub open spec fn is_long(a: Seq<char>) -> bool {
    a.len() >= 2 && a[0] == '-' && a[1] == '-'
}

/// The options an argument stands for: a long option stands for itself, and
/// `-abc` for `-a`, `-b` and `-c`.
pub open spec fn flags_of(a: Seq<char>) -> Seq<Seq<char>> {
    if is_long(a) {
        seq![a]
    } else {
        Seq::new((a.len() - 1) as nat, |i: int| seq!['-', a[i + 1]])
    }
}

pub open spec fn level_named(v: Seq<char>) -> Option<ReportLevel> {
    if v == "advice"@ {
        Some(ReportLevel::Advice)
    } else if v == "warn"@ {
        Some(ReportLevel::Warn)
    } else if v == "error"@ {
        Some(ReportLevel::Error)
    } else if v == "silent"@ {
        Some(ReportLevel::Silent)
    } else {
        None
    }
}

/// Setting an option that was not set yet.
pub open spec fn set_once<T>(a: (T, bool), v: T, name: Seq<char>) -> Result<(T, bool), (ArgErrorKind, Seq<char>)> {
    if a.1 {
        Err((ArgErrorKind::Repeated, name))
    } else {
        Ok((v, true))
    }
}

/// After one option: an exit it asks for, the options, and the arguments left.
pub type FlagResult = Result<(Option<Exit>, ArgsModel, Seq<Seq<char>>), (ArgErrorKind, Seq<char>)>;

/// The effect of one option `f`; `at_end` tells whether it ends its group,
/// `rest` holds the arguments after the one it came from.
pub open spec fn flag_spec(st: ArgsModel, f: Seq<char>, at_end: bool, rest: Seq<Seq<char>>) -> FlagResult {
    if f == "-h"@ {
        Ok((Some(Exit::Usage), st, rest))
    } else if f == "--help"@ {
        Ok((Some(Exit::Help), st, rest))
    } else if f == "-V"@ || f == "--version"@ {
        Ok((Some(Exit::Version), st, rest))
    } else if f == "-L"@ || f == "--license"@ {
        Ok((Some(Exit::License), st, rest))
    } else if f == "-l"@ || f == "--report-level"@ {
        if !at_end {
            Err((ArgErrorKind::NotAtEnd, f))
        } else if rest.len() == 0 {
            Err((ArgErrorKind::MissingLevel, f))
        } else {
            match level_named(rest[0]) {
                None => Err((ArgErrorKind::BadLevel, rest[0])),
                Some(l) => match set_once(st.report_level, l, f) {
                    Ok(a) => Ok((None, ArgsModel { report_level: a, ..st }, rest.skip(1))),
                    Err(e) => Err(e),
                },
            }
        }
    } else if f == "-d"@ || f == "--debug"@ {
        match set_once(st.debug, true, f) {
            Ok(a) => Ok((None, ArgsModel { debug: a, ..st }, rest)),
            Err(e) => Err(e),
        }
    } else if f == "-c"@ || f == "--compact"@ {
        match set_once(st.compact, true, f) {
            Ok(a) => Ok((None, ArgsModel { compact: a, ..st }, rest)),
            Err(e) => Err(e),
        }
    } else if f == "--disable-context"@ {
        match set_once(st.context, false, f) {
            Ok(a) => Ok((None, ArgsModel { context: a, ..st }, rest)),
            Err(e) => Err(e),
        }
    } else if f == "--max-reports"@ {
        if rest.len() == 0 {
            Err((ArgErrorKind::MissingNumber, f))
        } else {
            match from_str_radix_spec(rest[0], 10) {
                Err(e) => Err((ArgErrorKind::BadNumber(e), rest[0])),
                Ok(n) => if n > usize::MAX {
                    Err((ArgErrorKind::BadNumber(IntError::PosOverflow), rest[0]))
                } else {
                    match set_once(st.max_reports, n as usize, f) {
                        Ok(a) => Ok((None, ArgsModel { max_reports: a, ..st }, rest.skip(1))),
                        Err(e) => Err(e),
                    }
                },
            }
        }
    } else {
        Err((ArgErrorKind::Unrecognized, f))
    }
}

/// The effect of the options of one group, from the `i`th on.
pub open spec fn group_spec(st: ArgsModel, flags: Seq<Seq<char>>, i: int, rest: Seq<Seq<char>>) -> FlagResult
    decreases flags.len() - i,
{
    if i < 0 || i >= flags.len() {
        Ok((None, st, rest))
    } else {
        match flag_spec(st, flags[i], i == flags.len() - 1, rest) {
            Err(e) => Err(e),
            Ok((Some(x), s, r)) => Ok((Some(x), s, r)),
            Ok((None, s, r)) => group_spec(s, flags, i + 1, r),
        }
    }
}

/// Reading a command line from `st`: options until the input file, which must
/// be the last argument.
pub open spec fn parse_spec(st: ArgsModel, args: Seq<Seq<char>>) -> Result<CommandModel, (ArgErrorKind, Seq<char>)>
    decreases args.len(),
{
    if args.len() == 0 {
        Ok(CommandModel::Run(st))
    } else {
        let a = args[0];
        let rest = args.skip(1);
        if starts_with_dash(a) {
            match group_spec(st, flags_of(a), 0, rest) {
                Err(e) => Err(e),
                Ok((Some(x), _, _)) => Ok(CommandModel::Exit(x)),
                Ok((None, s, r)) => if r.len() < args.len() {
                    parse_spec(s, r)
                } else {
                    Ok(CommandModel::Run(s))
                },
            }
        } else if st.input.1 {
            Err((ArgErrorKind::Repeated, "Filename"@))
        } else if rest.len() > 0 {
            Err((ArgErrorKind::Unexpected, rest[0]))
        } else {
            Ok(CommandModel::Run(ArgsModel { input: (Some(a), true), ..st }))
        }
    }
}

pub open spec fn texts(v: Seq<String>) -> Seq<Seq<char>> {
    v.map_values(|s: String| s@)
}

fn arg_error(kind: ArgErrorKind, text: &String) -> (r: ArgError)
    ensures
        r@ == (kind, text@),
{
    ArgError { kind, text: text.clone() }
}

/// The options an argument stands for.
fn flags(argument: &String) -> (r: Vec<String>)
    requires
        argument@.len() >= 1,
    ensures
        texts(r@) == flags_of(argument@),
{
    let a = argument.as_str();
    let n = a.unicode_len();
    let mut out: Vec<String> = Vec::new();
    if n >= 2 && a.get_char(0) == '-' && a.get_char(1) == '-' {
        out.push(argument.clone());
        proof {
            assert(texts(out@) =~= flags_of(argument@));
        }
        return out;
    }
    let mut i: usize = 1;
    while i < n
        invariant
            n == a@.len(),
            a@ == argument@,
            1 <= i <= n,
            !is_long(a@),
            texts(out@) == Seq::new((i - 1) as nat, |j: int| seq!['-', a@[j + 1]]),
        decreases n - i,
    {
        let mut f = string_of("-");
        proof {
            reveal_strlit("-");
        }
        push_char(&mut f, a.get_char(i));
        assert(f@ =~= seq!['-', a@[i as int]]);
        let ghost before = texts(out@);
        let ghost fv = f@;
        out.push(f);
        proof {
            assert(texts(out@) =~= before.push(fv));
            assert(texts(out@) =~= Seq::new(i as nat, |j: int| seq!['-', a@[j + 1]]));
        }
        i = i + 1;
    }
    assert(texts(out@) =~= flags_of(argument@));
    out
}

fn level_of(v: &String) -> (r: Option<ReportLevel>)
    ensures
        r == level_named(v@),
{
    let s = v.as_str();
    if str_eq(s, "advice") {
        Some(ReportLevel::Advice)
    } else if str_eq(s, "warn") {
        Some(ReportLevel::Warn)
    } else if str_eq(s, "error") {
        Some(ReportLevel::Error)
    } else if str_eq(s, "silent") {
        Some(ReportLevel::Silent)
    } else {
        None
    }
}

pub open spec fn flag_agrees(r: Result<(Option<Exit>, usize), ArgError>, s: FlagResult, st: ArgsModel, all: Seq<Seq<char>>) -> bool {
    match (r, s) {
        (Ok((x, pos)), Ok((y, st2, rest))) => x == y && st == st2 && pos <= all.len() && all.skip(pos as int) == rest,
        (Err(e), Err(m)) => e@ == m,
        _ => false,
    }
}

impl Args {
    /// The options before the command line is read.
    pub fn default() -> (r: Args)
        ensures
            r@ == default_args(),
    {
        Args {
            input: Arg::new(None),
            debug: Arg::new(false),
            report_level: Arg::new(ReportLevel::Warn),
            compact: Arg::new(false),
            context: Arg::new(true),
            max_reports: Arg::new(usize::MAX),
        }
    }

    /// Applies one option `f`; the arguments after its own start at `pos`.
    fn handle_flag(&mut self, f: &String, at_end: bool, args: &Vec<String>, pos: usize) -> (r: Result<(Option<Exit>, usize), ArgError>)
        requires
            pos <= args@.len(),
        ensures
            flag_agrees(r, flag_spec(old(self)@, f@, at_end, texts(args@).skip(pos as int)), final(self)@, texts(args@)),
            r matches Ok((_, q)) ==> q >= pos,
    {
        let ghost all = texts(args@);
        let ghost rest = all.skip(pos as int);
        let s = f.as_str();
        let n = args.len();
        if str_eq(s, "-h") {
            return Ok((Some(Exit::Usage), pos));
        }
        if str_eq(s, "--help") {
            return Ok((Some(Exit::Help), pos));
        }
        if str_eq(s, "-V") || str_eq(s, "--version") {
            return Ok((Some(Exit::Version), pos));
        }
        if str_eq(s, "-L") || str_eq(s, "--license") {
            return Ok((Some(Exit::License), pos));
        }
        if str_eq(s, "-l") || str_eq(s, "--report-level") {
            if !at_end {
                return Err(arg_error(ArgErrorKind::NotAtEnd, f));
            }
            if pos >= n {
                return Err(arg_error(ArgErrorKind::MissingLevel, f));
            }
            let value = &args[pos];
            assert(rest[0] == value@);
            let level = match level_of(value) {
                Some(l) => l,
                None => return Err(arg_error(ArgErrorKind::BadLevel, value)),
            };
            if !self.report_level.try_mut(level) {
                return Err(arg_error(ArgErrorKind::Repeated, f));
            }
            assert(all.skip(pos + 1) =~= rest.skip(1));
            return Ok((None, pos + 1));
        }
        if str_eq(s, "-d") || str_eq(s, "--debug") {
            if !self.debug.try_mut(true) {
                return Err(arg_error(ArgErrorKind::Repeated, f));
            }
            return Ok((None, pos));
        }
        if str_eq(s, "-c") || str_eq(s, "--compact") {
            if !self.compact.try_mut(true) {
                return Err(arg_error(ArgErrorKind::Repeated, f));
            }
            return Ok((None, pos));
        }
        if str_eq(s, "--disable-context") {
            if !self.context.try_mut(false) {
                return Err(arg_error(ArgErrorKind::Repeated, f));
            }
            return Ok((None, pos));
        }
        if str_eq(s, "--max-reports") {
            if pos >= n {
                return Err(arg_error(ArgErrorKind::MissingNumber, f));
            }
            let value = &args[pos];
            assert(rest[0] == value@);
            let v = match parse_integer(value.as_str(), 10) {
                Ok(v) => v,
                Err(e) => return Err(arg_error(ArgErrorKind::BadNumber(e), value)),
            };
            if v > usize::MAX as u64 {
                return Err(arg_error(ArgErrorKind::BadNumber(IntError::PosOverflow), value));
            }
            if !self.max_reports.try_mut(v as usize) {
                return Err(arg_error(ArgErrorKind::Repeated, f));
            }
            assert(all.skip(pos + 1) =~= rest.skip(1));
            return Ok((None, pos + 1));
        }
        Err(arg_error(ArgErrorKind::Unrecognized, f))
    }
}

impl Args {
    /// Applies the options of one argument starting with `-`; the arguments after
    /// it start at `pos`.
    fn handle_arg(&mut self, argument: &String, args: &Vec<String>, pos: usize) -> (r: Result<(Option<Exit>, usize), ArgError>)
        requires
            pos <= args@.len(),
            argument@.len() >= 1,
        ensures
            flag_agrees(r, group_spec(old(self)@, flags_of(argument@), 0, texts(args@).skip(pos as int)), final(self)@, texts(args@)),
            r matches Ok((_, q)) ==> q >= pos,
    {
        let ghost all = texts(args@);
        let fs = flags(argument);
        let ghost fl = flags_of(argument@);
        let n = fs.len();
        let mut i: usize = 0;
        let mut p = pos;
        while i < n
            invariant
                n == fs@.len(),
                texts(fs@) == fl,
                fl == flags_of(argument@),
                all == texts(args@),
                i <= n,
                pos <= p <= args@.len(),
                group_spec(self@, fl, i as int, all.skip(p as int))
                    == group_spec(old(self)@, fl, 0, all.skip(pos as int)),
            decreases n - i,
        {
            let ghost before = self@;
            let r = self.handle_flag(&fs[i], i == n - 1, args, p);
            match r {
                Err(e) => return Err(e),
                Ok((Some(x), q)) => return Ok((Some(x), q)),
                Ok((None, q)) => {
                    p = q;
                },
            }
            i = i + 1;
        }
        Ok((None, p))
    }

    /// Reads a command line (without the program's name): options, then at most
    /// one input file, which must come last.
    pub fn parse(args: Vec<String>) -> (r: Result<Command, ArgError>)
        ensures
            match (r, parse_spec(default_args(), texts(args@))) {
                (Ok(c), Ok(m)) => c@ == m,
                (Err(e), Err(m)) => e@ == m,
                _ => false,
            },
    {
        let ghost all = texts(args@);
        let mut out = Args::default();
        let n = args.len();
        let mut pos: usize = 0;
        assert(all.skip(0) =~= all);
        while pos < n
            invariant
                n == args@.len(),
                all == texts(args@),
                pos <= n,
                parse_spec(out@, all.skip(pos as int)) == parse_spec(default_args(), all),
            decreases n - pos,
        {
            let arg = &args[pos];
            let ghost rest_all = all.skip(pos as int);
            assert(rest_all[0] == arg@);
            assert(rest_all.skip(1) =~= all.skip(pos + 1));
            let a = arg.as_str();
            let starts = a.unicode_len() >= 1 && a.get_char(0) == '-';
            if starts {
                match out.handle_arg(arg, &args, pos + 1) {
                    Err(e) => return Err(e),
                    Ok((Some(x), _)) => return Ok(Command::Exit(x)),
                    Ok((None, q)) => {
                        pos = q;
                    },
                }
            } else {
                if !out.input.try_mut(Some(arg.clone())) {
                    proof {
                        reveal_strlit("Filename");
                    }
                    return Err(ArgError { kind: ArgErrorKind::Repeated, text: string_of("Filename") });
                }
                if pos + 1 < n {
                    return Err(arg_error(ArgErrorKind::Unexpected, &args[pos + 1]));
                }
                return Ok(Command::Run(out));
            }
        }
        proof {
            assert(all.skip(pos as int) =~= Seq::<Seq<char>>::empty());
        }
        Ok(Command::Run(out))
    }

    pub fn input(&self) -> (r: Option<String>)
        ensures
            match (r, self@.input.0) {
                (Some(s), Some(t)) => s@ == t,
                (None, None) => true,
                _ => false,
            },
    {
        match &self.input.value {
            Some(s) => Some(s.clone()),
            None => None,
        }
    }

    pub fn debug(&self) -> (r: bool)
        ensures
            r == self@.debug.0,
    {
        self.debug.value
    }

    pub fn report_level(&self) -> (r: ReportLevel)
        ensures
            r == self@.report_level.0,
    {
        self.report_level.value
    }

    pub fn compact(&self) -> (r: bool)
        ensures
            r == self@.compact.0,
    {
        self.compact.value
    }

    pub fn context(&self) -> (r: bool)
        ensures
            r == self@.context.0,
    {
        self.context.value
    }

    pub fn max_reports(&self) -> (r: usize)
        ensures
            r == self@.max_reports.0,
    {
        self.max_reports.value
    }
}

} // verus!
