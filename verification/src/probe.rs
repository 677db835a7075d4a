//! The attacker's side: where to probe, and the count of its reads.
//!
//! The attacker reads one word of the victim's monitored buffer over and
//! over. This module decides which address that is, from an address given
//! outright or from the export table of the victim's module, and keeps the
//! count of the reads. Opening the process, listing its exports and reading
//! its memory are the caller's part.

use crate::numeral::{render_radix, rendered};
use memflow::error::Error;
use memflow::types::Address;
use vstd::prelude::*;
use vstd::string::*;

verus! {

/// memflow's error. Nothing is known of what is in one.
#[verifier::external_type_specification]
#[verifier::external_body]
pub struct ExError(memflow::error::Error);

/// What is wrong with a command line.
#[derive(Clone, Copy, Debug, PartialEq, Eq)]
pub enum ConfigCause {
    /// A connector names a page-cache size that memflow cannot multiply by
    /// its unit.
    CacheSize,
    /// memflow refuses the chain of connectors and OS layers, with this
    /// error.
    Chain(Error),
    /// The address is no hexadecimal number.
    Address,
}

/// Why no probing can start.
#[derive(Clone, Copy, Debug, PartialEq, Eq)]
pub enum ProbeError {
    /// The command line does not describe a usable setup.
    Config(ConfigCause),
    /// No export of the module has the name that was asked for.
    NotFound,
}

/// One entry of a module's export table.
#[derive(Clone, Debug, PartialEq, Eq)]
pub struct Export {
    /// The name the entry is exported under.
    pub name: String,
    /// Where the entry lies, counted from the module's base address.
    pub offset: u64,
}

/// The index of the first export of `exports` that is named exactly
/// `symbol`, if there is one.
pub open spec fn first_named(exports: Seq<Export>, symbol: Seq<char>) -> Option<int>
    decreases exports.len(),
{
    if exports.len() == 0 {
        None
    } else if exports[0].name@ == symbol {
        Some(0)
    } else {
        match first_named(exports.drop_first(), symbol) {
            Some(i) => Some(i + 1),
            None => None,
        }
    }
}

/// The address that `symbol` stands for in a module loaded at `base`: the
/// base plus the offset of the first export of that name.
pub open spec fn resolved(base: u64, exports: Seq<Export>, symbol: Seq<char>) -> Option<int> {
    match first_named(exports, symbol) {
        Some(i) => Some(base + exports[i].offset),
        None => None,
    }
}

/// `first_named` finds an export of the name that no export of the name
/// stands before, and finds none only where there is none.
pub proof fn lemma_first_named(exports: Seq<Export>, symbol: Seq<char>)
    ensures
        match first_named(exports, symbol) {
            Some(i) => {
                &&& 0 <= i < exports.len()
                &&& exports[i].name@ == symbol
                &&& forall|j: int| 0 <= j < i ==> exports[j].name@ != symbol
            },
            None => forall|j: int| 0 <= j < exports.len() ==> exports[j].name@ != symbol,
        },
    decreases exports.len(),
{
    if exports.len() > 0 && exports[0].name@ != symbol {
        let rest = exports.drop_first();
        lemma_first_named(rest, symbol);
        assert(forall|j: int| 0 < j < exports.len() ==> exports[j] == rest[j - 1]);
    }
}

/// The address `offset` bytes after `base`, added up by memflow.
///
/// The body makes an `Address` of `base`, adds `offset` to it with memflow's
/// `Add<umem>` for `Address`, and takes the number back out with `to_umem`.
/// That addition is a plain `+` on the two numbers, which is why a sum that
/// does not fit in 64 bits is ruled out.
#[verifier::external_body]
fn address_after(base: u64, offset: u64) -> (address: u64)
    requires
        base + offset <= u64::MAX,
    ensures
        address == base + offset,
{
    (Address::from(base) + offset).to_umem()
}

/// The position of the first export that is named exactly `symbol`.
pub fn find_export(exports: &Vec<Export>, symbol: &str) -> (position: Option<usize>)
    ensures
        match position {
            Some(i) => i < exports.len() && first_named(exports@, symbol@) == Some(i as int),
            None => first_named(exports@, symbol@) is None,
        },
{
    let wanted = symbol.to_owned();
    let mut i: usize = 0;
    while i < exports.len()
        invariant
            i <= exports.len(),
            wanted@ == symbol@,
            forall|j: int| 0 <= j < i ==> exports@[j].name@ != symbol@,
        decreases exports.len() - i,
    {
        if exports[i].name == wanted {
            proof {
                lemma_first_named(exports@, symbol@);
            }
            return Some(i);
        }
        i = i + 1;
    }
    proof {
        lemma_first_named(exports@, symbol@);
    }
    None
}

/// Resolves `symbol` against the export table of a module loaded at `base`.
///
/// The first export of that name decides; `NotFound` says that there is
/// none. The address of the export that decides has to fit in 64 bits.
pub fn resolve_symbol(base: u64, exports: &Vec<Export>, symbol: &str) -> (target: Result<
    u64,
    ProbeError,
>)
    requires
        resolved(base, exports@, symbol@) matches Some(address) ==> address <= u64::MAX,
    ensures
        target == match resolved(base, exports@, symbol@) {
            Some(address) => Ok::<u64, ProbeError>(address as u64),
            None => Err(ProbeError::NotFound),
        },
        target is Err <==> forall|i: int| 0 <= i < exports.len() ==> exports[i].name@ != symbol@,
{
    proof {
        lemma_first_named(exports@, symbol@);
    }
    match find_export(exports, symbol) {
        Some(i) => Ok(address_after(base, exports[i].offset)),
        None => Err(ProbeError::NotFound),
    }
}

/// What to do next about the probe target.
#[derive(Clone, Copy, Debug, PartialEq, Eq)]
pub enum TargetStep {
    /// The target is known: probe this address.
    Probe(u64),
    /// The export table of the module is needed: list it and ask again.
    ListExports,
    /// There is no target: give up with this error.
    Fail(ProbeError),
}

/// What `next_target_step` answers.
pub open spec fn target_step(
    address: Option<u64>,
    base: u64,
    exports: Option<Seq<Export>>,
    symbol: Seq<char>,
) -> TargetStep {
    match address {
        Some(address) => TargetStep::Probe(address),
        None => match exports {
            None => TargetStep::ListExports,
            Some(exports) => match resolved(base, exports, symbol) {
                Some(address) => TargetStep::Probe(address as u64),
                None => TargetStep::Fail(ProbeError::NotFound),
            },
        },
    }
}

/// The view of an export table that may not have been listed yet.
pub open spec fn listed(exports: Option<&Vec<Export>>) -> Option<Seq<Export>> {
    match exports {
        Some(exports) => Some(exports@),
        None => None,
    }
}

/// Decides the probe target, or what is missing to decide it.
///
/// An address given outright is the target, whatever the export table holds
/// and whether or not it was listed. Without one, the export table is asked
/// for, and once it is there `symbol` is resolved against it.
pub fn next_target_step(
    address: Option<u64>,
    base: u64,
    exports: Option<&Vec<Export>>,
    symbol: &str,
) -> (step: TargetStep)
    requires
        address is None && exports is Some ==> (resolved(base, exports.unwrap()@, symbol@) matches Some(
            target,
        ) ==> target <= u64::MAX),
    ensures
        step == target_step(address, base, listed(exports), symbol@),
        address matches Some(given) ==> step == TargetStep::Probe(given),
        address is None && exports is None ==> step == TargetStep::ListExports,
        step is Fail <==> address is None && exports is Some && forall|i: int|
            0 <= i < exports.unwrap().len() ==> exports.unwrap()[i].name@ != symbol@,
{
    match address {
        Some(address) => TargetStep::Probe(address),
        None => match exports {
            None => TargetStep::ListExports,
            Some(exports) => match resolve_symbol(base, exports, symbol) {
                Ok(address) => TargetStep::Probe(address),
                Err(error) => TargetStep::Fail(error),
            },
        },
    }
}

/// One read of the victim's counter, as the attacker reports it.
#[derive(Clone, Copy, Debug, PartialEq, Eq)]
pub struct ReadRecord {
    /// The number of reads so far, this one included.
    pub reads: u64,
    /// The word that was read: the victim's detection count.
    pub counter: u64,
    /// The address that was read.
    pub address: u64,
}

/// The line that reports a read: the number of reads and the counter in
/// decimal, the address in hexadecimal.
pub open spec fn read_line(record: ReadRecord) -> Seq<char> {
    rendered(record.reads as nat, 10) + " | "@ + rendered(record.counter as nat, 10) + " | "@
        + rendered(record.address as nat, 16)
}

impl ReadRecord {
    /// The line that reports this read.
    pub fn line(&self) -> (line: String)
        ensures
            line@ == read_line(*self),
    {
        let mut line = render_radix(self.reads, 10);
        line.append(" | ");
        line.append(render_radix(self.counter, 10).as_str());
        line.append(" | ");
        line.append(render_radix(self.address, 16).as_str());
        line
    }
}

/// The attacker's steady state: the address it probes and the number of
/// reads it has made.
pub struct ProbeSession {
    target: u64,
    reads: u64,
}

impl ProbeSession {
    /// The address that is probed.
    pub closed spec fn spec_target(&self) -> u64 {
        self.target
    }

    /// The number of reads made so far.
    pub closed spec fn spec_reads(&self) -> u64 {
        self.reads
    }

    /// A session that probes `target` and has not read yet.
    pub fn new(target: u64) -> (session: ProbeSession)
        ensures
            session.spec_target() == target,
            session.spec_reads() == 0,
    {
        ProbeSession { target, reads: 0 }
    }

    /// The address that is probed.
    #[verifier::when_used_as_spec(spec_target)]
    pub fn target(&self) -> (target: u64)
        ensures
            target == self.spec_target(),
    {
        self.target
    }

    /// The number of reads made so far.
    #[verifier::when_used_as_spec(spec_reads)]
    pub fn reads(&self) -> (reads: u64)
        ensures
            reads == self.spec_reads(),
    {
        self.reads
    }

    /// Counts one read of the target that found `counter` there.
    pub fn record(&mut self, counter: u64) -> (record: ReadRecord)
        requires
            old(self).reads() < u64::MAX,
        ensures
            final(self).target() == old(self).target(),
            final(self).reads() == old(self).reads() + 1,
            record == (ReadRecord {
                reads: final(self).reads(),
                counter,
                address: old(self).target(),
            }),
    {
        self.reads = self.reads + 1;
        ReadRecord { reads: self.reads, counter, address: self.target }
    }
}

} // verus!
