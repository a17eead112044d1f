//! Planning the program entry that wraps a user's startup routine.
//!
//! The caller parses the routine and the attribute's arguments, hands their
//! shape in as plain values, and turns the [`Expansion`] it gets back into
//! code. Every rule about what is accepted, what is reported and what is
//! emitted in spite of an error is decided here.

use std::str::FromStr;
use vstd::prelude::*;

verus! {

/// The kind of entry code a target needs.
#[derive(Clone, Copy, Debug, PartialEq, Eq, Structural)]
pub enum Flavor {
    Standard,
    Wasm,
    Tock,
}

/// What is known about the target the entry is generated for.
#[derive(Clone, Copy, Debug)]
pub struct Arch {
    /// Attribute put on the generated entry unless the user names another.
    pub default_entry: Option<&'static str>,
    pub flavor: Flavor,
    /// Whether the user has to name the executor type.
    pub executor_required: bool,
}

/// The arguments a user may give to the attribute.
#[derive(Clone, Debug)]
pub struct Args {
    pub entry: Option<String>,
    pub executor: Option<String>,
    pub stack_size: Option<usize>,
}

/// The return type written on the startup routine.
#[derive(Clone, Copy, Debug, PartialEq, Eq, Structural)]
pub enum Output {
    /// No return type.
    Default,
    /// The empty tuple.
    Unit,
    /// The never type.
    Never,
    /// Anything else.
    Other,
}

/// The parts of the startup routine's signature that the rules look at.
#[derive(Clone, Copy, Debug)]
pub struct Signature {
    pub is_async: bool,
    pub generic_params: usize,
    pub has_where_clause: bool,
    pub has_abi: bool,
    pub is_variadic: bool,
    pub output: Output,
    pub inputs: usize,
}

/// One thing wrong with the routine or the arguments.
#[derive(Clone, Copy, Debug, PartialEq, Eq, Structural)]
pub enum MainError {
    /// The attribute's arguments could not be read.
    Arguments,
    NotAsync,
    Generic,
    WhereClause,
    Abi,
    Variadic,
    ReturnType,
    ArgumentCount,
    /// The entry attribute is not a sequence of tokens.
    EntryTokens,
    ExecutorRequired,
    /// The executor path is not a sequence of tokens.
    ExecutorTokens,
    StackSize,
}

/// The return type of the generated entry.
#[derive(Clone, Copy, Debug, PartialEq, Eq, Structural)]
pub enum MainReturn {
    Never,
    WasmResult,
    TockResult,
}

/// The body of the generated entry.
#[derive(Clone, Copy, Debug, PartialEq, Eq, Structural)]
pub enum MainBody {
    /// Build an executor on the stack and run it.
    Standard,
    /// Leak a boxed executor and start it.
    Wasm,
    /// Subscribe to the kernel's upcalls, then run an executor.
    Tock,
    /// An empty endless loop, emitted when anything was reported.
    Halt,
}

/// What the attribute expands to, as decisions.
pub struct Expansion<'a> {
    /// Everything to report, in the order it is reported.
    pub errors: Vec<MainError>,
    /// The attribute to put on the entry, if any.
    pub entry: Option<&'a str>,
    /// The executor type to construct; `None` where its path was refused.
    pub executor: Option<&'a str>,
    /// The stack size to declare together with the entry symbol.
    pub stack_size: Option<usize>,
    pub main_return: MainReturn,
    pub main_body: MainBody,
}

/// An [`Expansion`] as a mathematical value.
pub ghost struct ExpansionView {
    pub errors: Seq<MainError>,
    pub entry: Option<Seq<char>>,
    pub executor: Option<Seq<char>>,
    pub stack_size: Option<usize>,
    pub main_return: MainReturn,
    pub main_body: MainBody,
}

impl<'a> View for Expansion<'a> {
    type V = ExpansionView;

    open spec fn view(&self) -> ExpansionView {
        ExpansionView {
            errors: self.errors@,
            entry: text(self.entry),
            executor: text(self.executor),
            stack_size: self.stack_size,
            main_return: self.main_return,
            main_body: self.main_body,
        }
    }
}

pub const NOT_ASYNC: &'static str = "main function must be async";

pub const GENERIC: &'static str = "main function must not be generic";

pub const WHERE_CLAUSE: &'static str = "main function must not have `where` clauses";

pub const ABI: &'static str = "main function must not have an ABI qualifier";

pub const VARIADIC: &'static str = "main function must not be variadic";

pub const RETURN_TYPE: &'static str =
    "main function must either not return a value, return `()` or return `!`";

pub const ARGUMENT_COUNT: &'static str = "main function must have 1 argument: the spawner.";

pub const EXECUTOR_REQUIRED: &'static str = "\
No architecture selected for embassy-executor. Make sure you've enabled one of the `arch-*` features in your Cargo.toml.

Alternatively, if you would like to use a custom executor implementation, specify it with the `executor` argument.
For example: `#[embassy_executor::main(entry = ..., executor = \"some_crate::Executor\")]";

pub const STACK_SIZE: &'static str = "\
No stack size specified for `tock` arch. Make sure you've specified a stack size, like so:
`#[embassy_executor::main(stack_size = 3000)]`";

/// The executor that is constructed where the user names none.
pub const DEFAULT_EXECUTOR: &'static str = "::embassy_executor::Executor";

/// The characters of an optional string slice.
pub open spec fn text(s: Option<&str>) -> Option<Seq<char>> {
    match s {
        Some(s) => Some(s@),
        None => None,
    }
}

/// The characters of an optional owned string.
pub open spec fn owned_text(s: Option<String>) -> Option<Seq<char>> {
    match s {
        Some(s) => Some(s@),
        None => None,
    }
}

/// `e` if `cond` holds, nothing otherwise.
pub open spec fn when(cond: bool, e: MainError) -> Seq<MainError> {
    if cond {
        seq![e]
    } else {
        Seq::empty()
    }
}

/// What is wrong with a signature, in the order it is reported.
pub open spec fn signature_errors(sig: Signature) -> Seq<MainError> {
    when(!sig.is_async, MainError::NotAsync) + when(sig.generic_params != 0, MainError::Generic)
        + when(sig.has_where_clause, MainError::WhereClause) + when(sig.has_abi, MainError::Abi)
        + when(sig.is_variadic, MainError::Variadic) + when(
        sig.output == Output::Other,
        MainError::ReturnType,
    ) + when(sig.inputs != 1, MainError::ArgumentCount)
}

/// The entry attribute that is asked for: the user's if there is one, else
/// the target's; an empty one asks for none.
pub open spec fn chosen_entry(arg: Option<Seq<char>>, default: Option<Seq<char>>) -> Option<
    Seq<char>,
> {
    let chosen = if arg is Some {
        arg
    } else {
        default
    };
    match chosen {
        Some(x) => if x.len() == 0 {
            None
        } else {
            Some(x)
        },
        None => None,
    }
}

/// The executor path that is asked for: the user's if there is one, else
/// the default one, or an empty one where the target has no default.
pub open spec fn chosen_executor(arg: Option<Seq<char>>, required: bool) -> Seq<char> {
    match arg {
        Some(x) => x,
        None => if required {
            Seq::empty()
        } else {
            DEFAULT_EXECUTOR@
        },
    }
}

/// The entry attribute among the arguments that are in force: the user's
/// arguments, or none at all where they could not be read.
pub open spec fn effective_entry(args: Option<&Args>) -> Option<Seq<char>> {
    match args {
        Some(a) => owned_text(a.entry),
        None => None,
    }
}

/// The executor path among the arguments that are in force.
pub open spec fn effective_executor(args: Option<&Args>) -> Option<Seq<char>> {
    match args {
        Some(a) => owned_text(a.executor),
        None => None,
    }
}

/// The stack size among the arguments that are in force.
pub open spec fn effective_stack_size(args: Option<&Args>) -> Option<usize> {
    match args {
        Some(a) => a.stack_size,
        None => None,
    }
}

/// Everything that is reported for the given inputs, in order.
/// `entry_lexes` and `executor_lexes` say whether the lexer took the entry
/// attribute and the executor path.
pub open spec fn expansion_errors(
    args: Option<&Args>,
    sig: Signature,
    arch: Arch,
    entry_lexes: bool,
    executor_lexes: bool,
) -> Seq<MainError> {
    when(args is None, MainError::Arguments) + signature_errors(sig) + when(
        chosen_entry(effective_entry(args), text(arch.default_entry)) is Some && !entry_lexes,
        MainError::EntryTokens,
    ) + when(
        effective_executor(args) is None && arch.executor_required,
        MainError::ExecutorRequired,
    ) + when(!executor_lexes, MainError::ExecutorTokens) + when(
        arch.flavor == Flavor::Tock && effective_stack_size(args) is None,
        MainError::StackSize,
    )
}

/// The return type of the entry that a flavor generates.
pub open spec fn flavor_return(flavor: Flavor) -> MainReturn {
    match flavor {
        Flavor::Standard => MainReturn::Never,
        Flavor::Wasm => MainReturn::WasmResult,
        Flavor::Tock => MainReturn::TockResult,
    }
}

/// The body of the entry that a flavor generates when nothing is wrong.
pub open spec fn flavor_body(flavor: Flavor) -> MainBody {
    match flavor {
        Flavor::Standard => MainBody::Standard,
        Flavor::Wasm => MainBody::Wasm,
        Flavor::Tock => MainBody::Tock,
    }
}

/// The whole expansion for the given inputs.
pub open spec fn expansion(
    args: Option<&Args>,
    sig: Signature,
    arch: Arch,
    entry_lexes: bool,
    executor_lexes: bool,
) -> ExpansionView {
    let errors = expansion_errors(args, sig, arch, entry_lexes, executor_lexes);
    let entry = chosen_entry(effective_entry(args), text(arch.default_entry));
    ExpansionView {
        errors,
        entry: if entry_lexes {
            entry
        } else {
            None
        },
        executor: if executor_lexes {
            Some(chosen_executor(effective_executor(args), arch.executor_required))
        } else {
            None
        },
        stack_size: if arch.flavor == Flavor::Tock {
            effective_stack_size(args)
        } else {
            None
        },
        main_return: flavor_return(arch.flavor),
        main_body: if errors.len() == 0 {
            flavor_body(arch.flavor)
        } else {
            MainBody::Halt
        },
    }
}

impl Arch {
    /// AVR microcontrollers.
    pub fn avr() -> (arch: Arch)
        ensures
            text(arch.default_entry) == Some("avr_device::entry"@),
            arch.flavor == Flavor::Standard,
            !arch.executor_required,
    {
        Arch {
            default_entry: Some("avr_device::entry"),
            flavor: Flavor::Standard,
            executor_required: false,
        }
    }

    /// RISC-V microcontrollers.
    pub fn riscv() -> (arch: Arch)
        ensures
            text(arch.default_entry) == Some("riscv_rt::entry"@),
            arch.flavor == Flavor::Standard,
            !arch.executor_required,
    {
        Arch {
            default_entry: Some("riscv_rt::entry"),
            flavor: Flavor::Standard,
            executor_required: false,
        }
    }

    /// Cortex-M microcontrollers.
    pub fn cortex_m() -> (arch: Arch)
        ensures
            text(arch.default_entry) == Some("cortex_m_rt::entry"@),
            arch.flavor == Flavor::Standard,
            !arch.executor_required,
    {
        Arch {
            default_entry: Some("cortex_m_rt::entry"),
            flavor: Flavor::Standard,
            executor_required: false,
        }
    }

    /// Cortex-A and Cortex-R processors.
    pub fn cortex_ar() -> (arch: Arch)
        ensures
            arch.default_entry is None,
            arch.flavor == Flavor::Standard,
            !arch.executor_required,
    {
        Arch { default_entry: None, flavor: Flavor::Standard, executor_required: false }
    }

    /// Any target, with an executor that spins while it has no work.
    pub fn spin() -> (arch: Arch)
        ensures
            arch.default_entry is None,
            arch.flavor == Flavor::Standard,
            !arch.executor_required,
    {
        Arch { default_entry: None, flavor: Flavor::Standard, executor_required: false }
    }

    /// Hosts with the standard library.
    pub fn hosted() -> (arch: Arch)
        ensures
            arch.default_entry is None,
            arch.flavor == Flavor::Standard,
            !arch.executor_required,
    {
        Arch { default_entry: None, flavor: Flavor::Standard, executor_required: false }
    }

    /// Browsers.
    pub fn wasm() -> (arch: Arch)
        ensures
            text(arch.default_entry) == Some("wasm_bindgen::prelude::wasm_bindgen(start)"@),
            arch.flavor == Flavor::Wasm,
            !arch.executor_required,
    {
        Arch {
            default_entry: Some("wasm_bindgen::prelude::wasm_bindgen(start)"),
            flavor: Flavor::Wasm,
            executor_required: false,
        }
    }

    /// Processes of the Tock kernel.
    pub fn tock() -> (arch: Arch)
        ensures
            arch.default_entry is None,
            arch.flavor == Flavor::Tock,
            !arch.executor_required,
    {
        Arch { default_entry: None, flavor: Flavor::Tock, executor_required: false }
    }

    /// No target chosen: the user has to name the executor.
    pub fn unspecified() -> (arch: Arch)
        ensures
            arch.default_entry is None,
            arch.flavor == Flavor::Standard,
            arch.executor_required,
    {
        Arch { default_entry: None, flavor: Flavor::Standard, executor_required: true }
    }
}

impl MainError {
    /// The text of the report, where it is a fixed one. What the lexer has
    /// to say about text it refused is the lexer's own.
    pub open spec fn message_text(self) -> Option<&'static str> {
        match self {
            MainError::Arguments => None,
            MainError::NotAsync => Some(NOT_ASYNC),
            MainError::Generic => Some(GENERIC),
            MainError::WhereClause => Some(WHERE_CLAUSE),
            MainError::Abi => Some(ABI),
            MainError::Variadic => Some(VARIADIC),
            MainError::ReturnType => Some(RETURN_TYPE),
            MainError::ArgumentCount => Some(ARGUMENT_COUNT),
            MainError::EntryTokens => None,
            MainError::ExecutorRequired => Some(EXECUTOR_REQUIRED),
            MainError::ExecutorTokens => None,
            MainError::StackSize => Some(STACK_SIZE),
        }
    }

    /// The text of the report, or `None` where the text comes from whoever
    /// refused the input: the argument parser or the lexer.
    pub fn message(&self) -> (m: Option<&'static str>)
        ensures
            m == self.message_text(),
    {
        match self {
            MainError::Arguments => None,
            MainError::NotAsync => Some(NOT_ASYNC),
            MainError::Generic => Some(GENERIC),
            MainError::WhereClause => Some(WHERE_CLAUSE),
            MainError::Abi => Some(ABI),
            MainError::Variadic => Some(VARIADIC),
            MainError::ReturnType => Some(RETURN_TYPE),
            MainError::ArgumentCount => Some(ARGUMENT_COUNT),
            MainError::EntryTokens => None,
            MainError::ExecutorRequired => Some(EXECUTOR_REQUIRED),
            MainError::ExecutorTokens => None,
            MainError::StackSize => Some(STACK_SIZE),
        }
    }
}

/// Checks the shape of the startup routine: it has to be a plain `async`
/// function of one argument that returns nothing, `()` or `!`.
pub fn check_signature(sig: &Signature) -> (errors: Vec<MainError>)
    ensures
        errors@ == signature_errors(*sig),
{
    let mut errors: Vec<MainError> = Vec::new();
    push_when(&mut errors, !sig.is_async, MainError::NotAsync);
    assert(errors@ =~= when(!sig.is_async, MainError::NotAsync));
    push_when(&mut errors, sig.generic_params != 0, MainError::Generic);
    push_when(&mut errors, sig.has_where_clause, MainError::WhereClause);
    push_when(&mut errors, sig.has_abi, MainError::Abi);
    push_when(&mut errors, sig.is_variadic, MainError::Variadic);
    let other = match sig.output {
        Output::Other => true,
        _ => false,
    };
    push_when(&mut errors, other, MainError::ReturnType);
    push_when(&mut errors, sig.inputs != 1, MainError::ArgumentCount);
    errors
}

/// Appends `e` to `errors` if `cond` holds.
fn push_when(errors: &mut Vec<MainError>, cond: bool, e: MainError)
    ensures
        final(errors)@ == old(errors)@ + when(cond, e),
{
    if cond {
        errors.push(e);
    }
    assert(errors@ =~= old(errors)@ + when(cond, e));
}

/// Picks the entry attribute to lex: the user's if given, else the target's;
/// `None` where neither is there or the one picked is empty.
pub fn choose_entry<'a>(arg: Option<&'a str>, default: Option<&'a str>) -> (entry: Option<&'a str>)
    ensures
        text(entry) == chosen_entry(text(arg), text(default)),
{
    let chosen = match arg {
        Some(x) => Some(x),
        None => default,
    };
    match chosen {
        Some(x) => {
            if x.is_empty() {
                None
            } else {
                Some(x)
            }
        },
        None => None,
    }
}

/// Picks the executor path to lex: the user's if given, else the default
/// one, or the empty path where the target demands that the user names one.
pub fn choose_executor<'a>(arg: Option<&'a str>, required: bool) -> (path: &'a str)
    ensures
        path@ == chosen_executor(text(arg), required),
{
    match arg {
        Some(x) => x,
        None => {
            if required {
                let empty: &'static str = "";
                proof {
                    reveal_strlit("");
                }
                assert(empty@ =~= Seq::<char>::empty());
                empty
            } else {
                DEFAULT_EXECUTOR
            }
        },
    }
}

/// Lexes `text` with `proc_macro2::TokenStream::from_str` and says whether
/// it was accepted. Nothing is claimed about which texts are: inside a
/// procedural macro the compiler's lexer decides, elsewhere the crate's own.
#[verifier::external_body]
fn lexes(text: &str) -> (ok: bool) {
    proc_macro2::TokenStream::from_str(text).is_ok()
}

/// Plans the expansion once the lexer has been asked about the entry
/// attribute (`entry_lexes`) and the executor path (`executor_lexes`).
///
/// `args` is `None` where the attribute's arguments could not be read; the
/// expansion then goes on as if none had been given. Anything reported
/// replaces the entry's body by an endless loop, so that the rest of the
/// generated code still stands.
pub fn expand<'a>(
    args: Option<&'a Args>,
    sig: &Signature,
    arch: &'a Arch,
    entry_lexes: bool,
    executor_lexes: bool,
) -> (out: Expansion<'a>)
    ensures
        out@ == expansion(args, *sig, *arch, entry_lexes, executor_lexes),
{
    let mut errors: Vec<MainError> = Vec::new();
    push_when(&mut errors, args.is_none(), MainError::Arguments);
    assert(errors@ =~= when(args is None, MainError::Arguments));
    let mut found = check_signature(sig);
    errors.append(&mut found);
    let entry = choose_entry(entry_arg(args), arch.default_entry);
    push_when(&mut errors, entry.is_some() && !entry_lexes, MainError::EntryTokens);
    let executor_arg = executor_arg(args);
    push_when(
        &mut errors,
        executor_arg.is_none() && arch.executor_required,
        MainError::ExecutorRequired,
    );
    let executor = choose_executor(executor_arg, arch.executor_required);
    push_when(&mut errors, !executor_lexes, MainError::ExecutorTokens);
    let given = stack_size_arg(args);
    let (main_return, body, stack_size) = match arch.flavor {
        Flavor::Standard => (MainReturn::Never, MainBody::Standard, None),
        Flavor::Wasm => (MainReturn::WasmResult, MainBody::Wasm, None),
        Flavor::Tock => (MainReturn::TockResult, MainBody::Tock, given),
    };
    let tock = match arch.flavor {
        Flavor::Tock => true,
        _ => false,
    };
    push_when(&mut errors, tock && given.is_none(), MainError::StackSize);
    let main_body = if errors.len() == 0 {
        body
    } else {
        MainBody::Halt
    };
    Expansion {
        errors,
        entry: if entry_lexes {
            entry
        } else {
            None
        },
        executor: if executor_lexes {
            Some(executor)
        } else {
            None
        },
        stack_size,
        main_return,
        main_body,
    }
}

/// Plans the expansion of the attribute on a routine with signature `sig`,
/// given the arguments `args` (`None` where they could not be read) and the
/// target `arch`.
///
/// The lexer is asked about the entry attribute, if one is chosen, and
/// about the executor path; [`expand`] says what follows from each answer.
pub fn run<'a>(args: Option<&'a Args>, sig: &Signature, arch: &'a Arch) -> (out: Expansion<'a>)
    ensures
        exists|entry_lexes: bool, executor_lexes: bool|
            out@ == expansion(args, *sig, *arch, entry_lexes, executor_lexes),
{
    let entry_lexes = match choose_entry(entry_arg(args), arch.default_entry) {
        Some(x) => lexes(x),
        None => true,
    };
    let executor_lexes = lexes(choose_executor(executor_arg(args), arch.executor_required));
    expand(args, sig, arch, entry_lexes, executor_lexes)
}

/// The entry attribute among the arguments in force.
fn entry_arg<'a>(args: Option<&'a Args>) -> (entry: Option<&'a str>)
    ensures
        text(entry) == effective_entry(args),
{
    match args {
        Some(a) => match &a.entry {
            Some(s) => Some(s.as_str()),
            None => None,
        },
        None => None,
    }
}

/// The executor path among the arguments in force.
fn executor_arg<'a>(args: Option<&'a Args>) -> (path: Option<&'a str>)
    ensures
        text(path) == effective_executor(args),
{
    match args {
        Some(a) => match &a.executor {
            Some(s) => Some(s.as_str()),
            None => None,
        },
        None => None,
    }
}

/// The stack size among the arguments in force.
fn stack_size_arg(args: Option<&Args>) -> (size: Option<usize>)
    ensures
        size == effective_stack_size(args),
{
    match args {
        Some(a) => a.stack_size,
        None => None,
    }
}

} // verus!
