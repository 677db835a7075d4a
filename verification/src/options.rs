//! The attacker's command line, once it is split into its options.
//!
//! The caller hands over what each option was given as: how often `-v`
//! occurred, the connector and OS specifications with their positions on the
//! command line, and the texts of the other options. This module turns that
//! into a configuration: the log level, the chain of connectors and OS layers
//! as memflow builds it, the names to look up, and the address override.

use crate::numeral::{digit_of, digit_value, digits_value, is_digit, parse_radix, parsed};
use crate::probe::{ConfigCause, ProbeError};
use crate::text::{chars_of, contains_text, mentions};
use memflow::error::Error;
use memflow::plugins::OsChain;
use vstd::prelude::*;

verus! {

/// memflow's chain of connectors and OS layers, ready to be built. What is
/// known of one is said through `chain_steps`.
#[verifier::external_type_specification]
#[verifier::external_body]
pub struct ExOsChain<'a>(memflow::plugins::OsChain<'a>);

/// The process that is probed when none is named.
pub const DEFAULT_PROCESS: &'static str = "side-channel-client";

/// The symbol that is looked up when none is named.
pub const DEFAULT_SYMBOL: &'static str = "SC_BUFFER";

/// The name of the connector option that sets the size of the page cache, as
/// a hexadecimal number followed by a unit.
pub const CACHE_SIZE_OPTION: &'static str = "cache_size";

/// How much is logged.
#[derive(Clone, Copy, Debug, PartialEq, Eq)]
pub enum LogLevel {
    /// Errors only.
    Error,
    /// Warnings too.
    Warn,
    /// Information too.
    Info,
    /// Debugging output too.
    Debug,
    /// Everything.
    Trace,
}

/// The log level that `occurrences` times `-v` ask for: each one step more,
/// from errors only up to everything.
pub open spec fn level_of(occurrences: u64) -> LogLevel {
    if occurrences == 0 {
        LogLevel::Error
    } else if occurrences == 1 {
        LogLevel::Warn
    } else if occurrences == 2 {
        LogLevel::Info
    } else if occurrences == 3 {
        LogLevel::Debug
    } else {
        LogLevel::Trace
    }
}

/// The log level that `occurrences` times `-v` ask for.
pub fn verbosity_level(occurrences: u64) -> (level: LogLevel)
    ensures
        level == level_of(occurrences),
{
    match occurrences {
        0 => LogLevel::Error,
        1 => LogLevel::Warn,
        2 => LogLevel::Info,
        3 => LogLevel::Debug,
        _ => LogLevel::Trace,
    }
}

/// One `--connector` or `--os` option: its specification and where on the
/// command line it stood.
#[derive(Clone, Debug, PartialEq, Eq)]
pub struct ChainArg {
    /// The index of the option's value among the command line's arguments.
    pub position: usize,
    /// The specification: a name, and after a `:` its arguments.
    pub spec: String,
}

/// The options of the command line, as they were given.
#[derive(Clone, Debug, PartialEq, Eq)]
pub struct RawArgs {
    /// How often `-v` occurred.
    pub verbose: u64,
    /// The `--connector` options.
    pub connectors: Vec<ChainArg>,
    /// The `--os` options.
    pub os_layers: Vec<ChainArg>,
    /// The `--process` option.
    pub process: Option<String>,
    /// The `--symbol` option.
    pub symbol: Option<String>,
    /// The `--module` option.
    pub module: Option<String>,
    /// The `--address` option.
    pub address: Option<String>,
}

/// What the attacker is to do, as far as the command line says.
pub struct ProbeConfig<'a> {
    /// The connectors and OS layers, in the order memflow builds them in.
    pub chain: OsChain<'a>,
    /// How much to log.
    pub level: LogLevel,
    /// The name of the victim's process.
    pub process: &'a str,
    /// The name the monitored buffer is exported under.
    pub symbol: &'a str,
    /// The module whose exports are searched; the primary module if none.
    pub module: Option<&'a str>,
    /// The address to probe, where it is given outright.
    pub address: Option<u64>,
}

/// The positions and specifications of `args`, as plain values.
pub open spec fn chain_view(args: Seq<ChainArg>) -> Seq<(usize, Seq<char>)> {
    args.map_values(|arg: ChainArg| (arg.position, arg.spec@))
}

/// What memflow's `OsChain::new` makes of these connectors and OS layers,
/// each given by its position and its specification: the steps of the chain
/// in their order, for each whether it is an OS layer, and its name; or the
/// error that it refuses them with.
pub uninterp spec fn chain_built(
    connectors: Seq<(usize, Seq<char>)>,
    os_layers: Seq<(usize, Seq<char>)>,
) -> Result<Seq<(bool, Seq<char>)>, Error>;

/// The steps that a chain holds: for each, in the order they are built in,
/// whether it is an OS layer, and its name.
pub uninterp spec fn chain_steps(chain: OsChain) -> Seq<(bool, Seq<char>)>;

/// The number of bytes in one of the unit whose name begins with `c`: `k`
/// for kilobytes, `m` for megabytes, `g` for gigabytes.
pub open spec fn unit_factor(c: char) -> Option<nat> {
    if c == 'k' {
        Some(1024)
    } else if c == 'm' {
        Some(1024 * 1024)
    } else if c == 'g' {
        Some(1024 * 1024 * 1024)
    } else {
        None
    }
}

/// Whether `text` holds a size from index `at` up to index `end`: a
/// hexadecimal number that begins at `at`, with its unit beginning at `end`.
pub open spec fn is_size_at(text: Seq<char>, at: int, end: int) -> bool {
    &&& 0 <= at < end < text.len()
    &&& forall|k: int| at <= k < end ==> is_digit(#[trigger] text[k], 16)
    &&& at > 0 ==> !is_digit(text[at - 1], 16)
    &&& unit_factor(text[end]) is Some
}

/// Whether `text` holds from index `at` up to index `end` a size that fits
/// in a `usize` while its number of bytes does not.
pub open spec fn overflows_at(text: Seq<char>, at: int, end: int) -> bool {
    &&& is_size_at(text, at, end)
    &&& digits_value(text.subrange(at, end), 16) <= usize::MAX
    &&& digits_value(text.subrange(at, end), 16) * unit_factor(text[end]).unwrap() > usize::MAX
}

/// Whether `text` holds somewhere a size that fits in a `usize` while its
/// number of bytes does not.
pub open spec fn holds_overflowing_size(text: Seq<char>) -> bool {
    exists|at: int, end: int| overflows_at(text, at, end)
}

/// Whether a connector specification keeps the size of the page cache within
/// what memflow can take: if it holds the text `cache_size` at all, it holds
/// no size whose number of bytes overflows.
pub open spec fn cache_size_fits_in(spec: Seq<char>) -> bool {
    contains_text(spec, CACHE_SIZE_OPTION@) ==> !holds_overflowing_size(spec)
}

/// Whether every connector specification keeps the size of the page cache
/// within what memflow can take.
pub open spec fn cache_size_fits(connectors: Seq<ChainArg>) -> bool {
    forall|i: int| 0 <= i < connectors.len() ==> cache_size_fits_in((#[trigger] connectors[i]).spec@)
}

/// Whether the `--address` option is given as text that is no hexadecimal
/// number.
pub open spec fn address_malformed(option: Option<String>) -> bool {
    option matches Some(text) && parsed(text@, 16) is None
}

/// The text of an option, or `default` where the option was not given.
pub open spec fn text_or(option: Option<String>, default: Seq<char>) -> Seq<char> {
    match option {
        Some(text) => text@,
        None => default,
    }
}

/// The text of an option that may be missing.
pub open spec fn text_of(option: Option<String>) -> Option<Seq<char>> {
    match option {
        Some(text) => Some(text@),
        None => None,
    }
}

/// The view of a borrowed text that may be missing.
pub open spec fn borrowed_text(option: Option<&str>) -> Option<Seq<char>> {
    match option {
        Some(text) => Some(text@),
        None => None,
    }
}

/// The address that the `--address` option gives: its text read as a
/// hexadecimal number.
pub open spec fn address_of(option: Option<String>) -> Option<u64> {
    match option {
        Some(text) => parsed(text@, 16),
        None => None,
    }
}

/// Builds the chain of connectors and OS layers with memflow's
/// `OsChain::new`, which gets the position and the specification of every
/// connector and of every OS layer, each list in its own order.
///
/// `OsChain::new` makes one step of each specification, orders the steps by
/// position, and accepts the chain if every specification parses, connectors
/// and OS layers alternate, and an OS layer comes last. Which steps come out,
/// or which error, depends on the positions and texts alone; the contract
/// names that outcome and says that the chain returned holds those steps.
/// It adds what the source shows at a glance: a chain has one step for each
/// specification, and there is no chain without an OS layer.
///
/// memflow reads the size of a connector's page cache as a hexadecimal
/// `usize` and multiplies it by the bytes of its unit without a check for
/// overflow. It takes the size from the value of the option `cache_size`, and
/// both that name and the size stand in the specification as they are: the
/// digits after `=`, a quote or `+`, and after them `k`, `m` or `g`. So what
/// is ruled out is a specification that holds that name and, anywhere, such
/// a size whose number of bytes overflows.
#[verifier::external_body]
fn build_chain<'a>(connectors: &'a Vec<ChainArg>, os_layers: &'a Vec<ChainArg>) -> (chain: Result<
    OsChain<'a>,
    Error,
>)
    requires
        cache_size_fits(connectors@),
    ensures
        chain_built(chain_view(connectors@), chain_view(os_layers@)) == match chain {
            Ok(chain) => Ok::<Seq<(bool, Seq<char>)>, Error>(chain_steps(chain)),
            Err(error) => Err(error),
        },
        chain matches Ok(chain) ==> chain_steps(chain).len() == connectors@.len()
            + os_layers@.len(),
        os_layers@.len() == 0 ==> chain is Err,
{
    OsChain::new(
        connectors.iter().map(|arg| (arg.position, arg.spec.as_str())),
        os_layers.iter().map(|arg| (arg.position, arg.spec.as_str())),
    )
}

/// The number of bytes in one of the unit whose name begins with `c`.
fn factor_of_unit(c: char) -> (factor: Option<u64>)
    ensures
        match factor {
            Some(factor) => unit_factor(c) == Some(factor as nat),
            None => unit_factor(c) is None,
        },
{
    if c == 'k' {
        Some(1024)
    } else if c == 'm' {
        Some(1024 * 1024)
    } else if c == 'g' {
        Some(1024 * 1024 * 1024)
    } else {
        None
    }
}

/// The digit of base 16 that `c` is, if it is one.
fn hex_digit_of(c: char) -> (digit: Option<u64>)
    ensures
        match digit {
            Some(d) => is_digit(c, 16) && d < 16 && digit_value(c) == Some(d as nat),
            None => !is_digit(c, 16),
        },
{
    match digit_of(c) {
        Some(d) => if d < 16 {
            Some(d)
        } else {
            None
        },
        None => None,
    }
}

/// Whether `text` holds somewhere a size that fits in a `usize` while its
/// number of bytes does not.
pub fn names_overflowing_size(text: &str) -> (found: bool)
    ensures
        found == holds_overflowing_size(text@),
{
    let chars = chars_of(text);
    // The number that the digits since `begin` spell, unless it is beyond
    // 64 bits; `begin` is where the digits began, if the last character was
    // one.
    let mut number: Option<u64> = None;
    let mut in_number = false;
    let ghost mut begin: int = 0;
    let mut i: usize = 0;
    while i < chars.len()
        invariant
            chars@ == text@,
            i <= chars.len(),
            forall|at: int, end: int| end < i ==> !overflows_at(text@, at, end),
            in_number ==> {
                &&& 0 <= begin < i
                &&& forall|k: int| begin <= k < i ==> is_digit(#[trigger] text@[k], 16)
                &&& begin > 0 ==> !is_digit(text@[begin - 1], 16)
                &&& match number {
                    Some(n) => digits_value(text@.subrange(begin, i as int), 16) == n,
                    None => digits_value(text@.subrange(begin, i as int), 16) > u64::MAX,
                }
            },
            !in_number ==> i > 0 ==> !is_digit(text@[i - 1], 16),
        decreases chars.len() - i,
    {
        let c = chars[i];
        match hex_digit_of(c) {
            Some(d) => {
                proof {
                    assert(unit_factor(c) is None);
                    if in_number {
                        let longer = text@.subrange(begin, i + 1);
                        assert(longer.drop_last() == text@.subrange(begin, i as int));
                        assert(longer.last() == c);
                    } else {
                        let single = text@.subrange(i as int, i + 1);
                        assert(single.drop_last() == Seq::<char>::empty());
                        assert(single.last() == c);
                        assert(digits_value(single.drop_last(), 16) == 0);
                    }
                }
                if in_number {
                    number = match number {
                        Some(n) => match n.checked_mul(16) {
                            Some(scaled) => scaled.checked_add(d),
                            None => None,
                        },
                        None => None,
                    };
                } else {
                    number = Some(d);
                    in_number = true;
                    proof {
                        begin = i as int;
                    }
                }
            },
            None => {
                let overflows = in_number && match (number, factor_of_unit(c)) {
                    (Some(n), Some(factor)) => {
                        assert(n * factor <= 0xffff_ffff_ffff_ffff * 0x4000_0000) by (nonlinear_arith)
                            requires
                                n <= 0xffff_ffff_ffff_ffff,
                                factor <= 0x4000_0000,
                        ;
                        n as u128 <= usize::MAX as u128 && n as u128 * factor as u128
                            > usize::MAX as u128
                    },
                    _ => false,
                };
                if overflows {
                    assert(overflows_at(text@, begin, i as int));
                    return true;
                }
                assert forall|at: int| !overflows_at(text@, at, i as int) by {
                    if is_size_at(text@, at, i as int) {
                        assert(is_digit(text@[i - 1], 16));
                        assert(in_number);
                        if at < begin {
                            assert(is_digit(text@[begin - 1], 16));
                        }
                        if at > begin {
                            assert(is_digit(text@[at - 1], 16));
                        }
                        assert(at == begin);
                    }
                }
                in_number = false;
            },
        }
        i = i + 1;
    }
    false
}

/// Whether every connector specification keeps the size of the page cache
/// within what memflow can take.
pub fn fits_cache_size(connectors: &Vec<ChainArg>) -> (fits: bool)
    ensures
        fits == cache_size_fits(connectors@),
{
    let mut i: usize = 0;
    while i < connectors.len()
        invariant
            i <= connectors.len(),
            forall|j: int| 0 <= j < i ==> cache_size_fits_in((#[trigger] connectors@[j]).spec@),
        decreases connectors.len() - i,
    {
        let spec = connectors[i].spec.as_str();
        if mentions(spec, CACHE_SIZE_OPTION) && names_overflowing_size(spec) {
            assert(!cache_size_fits_in(connectors@[i as int].spec@));
            return false;
        }
        i = i + 1;
    }
    true
}

/// Puts the configuration together, given what building the chain came to.
///
/// A chain that memflow refused makes the command line a configuration
/// error, which holds memflow's. So does, with a chain that memflow took, an
/// address that is given but is no hexadecimal number. Otherwise the log
/// level follows the number of `-v`, and the process and the symbol fall
/// back to their defaults.
pub fn assemble<'a>(chain: Result<OsChain<'a>, Error>, raw: &'a RawArgs) -> (config: Result<
    ProbeConfig<'a>,
    ProbeError,
>)
    ensures
        match config {
            Ok(config) => {
                &&& chain == Ok::<OsChain<'a>, Error>(config.chain)
                &&& !address_malformed(raw.address)
                &&& config.level == level_of(raw.verbose)
                &&& config.process@ == text_or(raw.process, DEFAULT_PROCESS@)
                &&& config.symbol@ == text_or(raw.symbol, DEFAULT_SYMBOL@)
                &&& borrowed_text(config.module) == text_of(raw.module)
                &&& config.address == address_of(raw.address)
            },
            Err(error) => error == match chain {
                Err(cause) => ProbeError::Config(ConfigCause::Chain(cause)),
                Ok(_) => ProbeError::Config(ConfigCause::Address),
            } && (chain is Err || address_malformed(raw.address)),
        },
{
    let chain = match chain {
        Ok(chain) => chain,
        Err(cause) => {
            return Err(ProbeError::Config(ConfigCause::Chain(cause)));
        },
    };
    let address = match &raw.address {
        Some(text) => match parse_radix(text.as_str(), 16) {
            Some(address) => Some(address),
            None => {
                return Err(ProbeError::Config(ConfigCause::Address));
            },
        },
        None => None,
    };
    let process: &'a str = match &raw.process {
        Some(name) => name.as_str(),
        None => DEFAULT_PROCESS,
    };
    let symbol: &'a str = match &raw.symbol {
        Some(name) => name.as_str(),
        None => DEFAULT_SYMBOL,
    };
    let module: Option<&'a str> = match &raw.module {
        Some(name) => Some(name.as_str()),
        None => None,
    };
    Ok(ProbeConfig { chain, level: verbosity_level(raw.verbose), process, symbol, module, address })
}

/// Turns the options of the command line into a configuration.
///
/// memflow is handed the position and the specification of every connector
/// and of every OS layer, each list in the order of the command line, and
/// what it makes of them is the chain of the configuration. The command line
/// is a configuration error, and the error says why,
/// - if a connector names a page-cache size whose number of bytes memflow
///   cannot compute; memflow is not asked then;
/// - else if memflow refuses the connectors and OS layers, as it does where
///   no OS layer is given; the error then holds memflow's;
/// - else if the address is given but is no hexadecimal number.
pub fn extract_args<'a>(raw: &'a RawArgs) -> (config: Result<ProbeConfig<'a>, ProbeError>)
    ensures
        match config {
            Ok(config) => {
                &&& cache_size_fits(raw.connectors@)
                &&& chain_built(chain_view(raw.connectors@), chain_view(raw.os_layers@))
                    == Ok::<Seq<(bool, Seq<char>)>, Error>(chain_steps(config.chain))
                &&& chain_steps(config.chain).len() == raw.connectors@.len()
                    + raw.os_layers@.len()
                &&& !address_malformed(raw.address)
                &&& config.level == level_of(raw.verbose)
                &&& config.process@ == text_or(raw.process, DEFAULT_PROCESS@)
                &&& config.symbol@ == text_or(raw.symbol, DEFAULT_SYMBOL@)
                &&& borrowed_text(config.module) == text_of(raw.module)
                &&& config.address == address_of(raw.address)
            },
            Err(ProbeError::Config(ConfigCause::CacheSize)) => !cache_size_fits(raw.connectors@),
            Err(ProbeError::Config(ConfigCause::Chain(error))) => {
                &&& cache_size_fits(raw.connectors@)
                &&& chain_built(chain_view(raw.connectors@), chain_view(raw.os_layers@))
                    == Err::<Seq<(bool, Seq<char>)>, Error>(error)
            },
            Err(ProbeError::Config(ConfigCause::Address)) => {
                &&& cache_size_fits(raw.connectors@)
                &&& chain_built(chain_view(raw.connectors@), chain_view(raw.os_layers@)) is Ok
                &&& address_malformed(raw.address)
            },
            Err(ProbeError::NotFound) => false,
        },
        raw.os_layers@.len() == 0 ==> config is Err,
{
    if !fits_cache_size(&raw.connectors) {
        return Err(ProbeError::Config(ConfigCause::CacheSize));
    }
    assemble(build_chain(&raw.connectors, &raw.os_layers), raw)
}

} // verus!
