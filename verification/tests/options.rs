use memflow::error::{Error, ErrorKind, ErrorOrigin};
use side_channel::options::{
    assemble, extract_args, fits_cache_size, names_overflowing_size, verbosity_level, ChainArg,
    LogLevel, RawArgs, CACHE_SIZE_OPTION, DEFAULT_PROCESS, DEFAULT_SYMBOL,
};
use side_channel::probe::{ConfigCause, ProbeError};

const OUT_OF_ORDER: ProbeError = ProbeError::Config(ConfigCause::Chain(Error(
    ErrorOrigin::Other,
    ErrorKind::ArgValidation,
)));

const UNPARSED: ProbeError = ProbeError::Config(ConfigCause::Chain(Error(
    ErrorOrigin::OsLayer,
    ErrorKind::Configuration,
)));

const BAD_ADDRESS: ProbeError = ProbeError::Config(ConfigCause::Address);

const BAD_CACHE_SIZE: ProbeError = ProbeError::Config(ConfigCause::CacheSize);

fn arg(position: usize, spec: &str) -> ChainArg {
    ChainArg { position, spec: String::from(spec) }
}

fn raw(connectors: Vec<ChainArg>, os_layers: Vec<ChainArg>) -> RawArgs {
    RawArgs {
        verbose: 0,
        connectors,
        os_layers,
        process: None,
        symbol: None,
        module: None,
        address: None,
    }
}

fn raw_with_connector(spec: &str) -> RawArgs {
    raw(vec![arg(2, spec)], vec![arg(4, "native")])
}

#[test]
fn defaults_are_the_documented_ones() {
    assert_eq!(DEFAULT_PROCESS, "side-channel-client");
    assert_eq!(DEFAULT_SYMBOL, "SC_BUFFER");
    assert_eq!(CACHE_SIZE_OPTION, "cache_size");
}

#[test]
fn verbosity_maps_to_levels() {
    assert_eq!(verbosity_level(0), LogLevel::Error);
    assert_eq!(verbosity_level(1), LogLevel::Warn);
    assert_eq!(verbosity_level(2), LogLevel::Info);
    assert_eq!(verbosity_level(3), LogLevel::Debug);
    assert_eq!(verbosity_level(4), LogLevel::Trace);
    assert_eq!(verbosity_level(5), LogLevel::Trace);
    assert_eq!(verbosity_level(u64::MAX), LogLevel::Trace);
}

#[test]
fn os_alone_is_a_chain() {
    let raw = raw(vec![], vec![arg(2, "native")]);
    let config = extract_args(&raw);
    assert!(config.is_ok());
}

#[test]
fn defaults_apply_where_options_are_missing() {
    let raw = raw(vec![], vec![arg(2, "native")]);
    let config = extract_args(&raw).ok().unwrap();
    assert_eq!(config.level, LogLevel::Error);
    assert_eq!(config.process, "side-channel-client");
    assert_eq!(config.symbol, "SC_BUFFER");
    assert_eq!(config.module, None);
    assert_eq!(config.address, None);
}

#[test]
fn options_are_taken_over() {
    let mut raw = raw(vec![arg(2, "qemu:win10")], vec![arg(4, "win32")]);
    raw.verbose = 2;
    raw.process = Some(String::from("victim.exe"));
    raw.symbol = Some(String::from("MY_BUFFER"));
    raw.module = Some(String::from("victim.dll"));
    raw.address = Some(String::from("deadbeef"));
    let config = extract_args(&raw).ok().unwrap();
    assert_eq!(config.level, LogLevel::Info);
    assert_eq!(config.process, "victim.exe");
    assert_eq!(config.symbol, "MY_BUFFER");
    assert_eq!(config.module, Some("victim.dll"));
    assert_eq!(config.address, Some(0xdead_beef));
}

#[test]
fn address_that_is_no_hex_number_is_a_configuration_error() {
    for text in ["", "zz", "0xdeadbeef", "xyz", "-1", "10000000000000000", "dead beef", "+"] {
        let mut raw = raw(vec![], vec![arg(1, "native")]);
        raw.address = Some(String::from(text));
        assert_eq!(extract_args(&raw).err(), Some(BAD_ADDRESS));
    }
}

#[test]
fn chain_is_looked_at_before_the_address() {
    let mut raw = raw(vec![arg(2, "kvm")], vec![]);
    raw.address = Some(String::from("zz"));
    assert_eq!(extract_args(&raw).err(), Some(OUT_OF_ORDER));
    let mut raw = raw_with_connector("a:::cache_size=400000000g");
    raw.address = Some(String::from("zz"));
    assert_eq!(extract_args(&raw).err(), Some(BAD_CACHE_SIZE));
}

#[test]
fn address_is_read_as_hexadecimal() {
    for (text, address) in [("10", 0x10u64), ("DEADBEEF", 0xdead_beef), ("+ff", 0xff), ("0", 0)] {
        let mut raw = raw(vec![], vec![arg(1, "native")]);
        raw.address = Some(String::from(text));
        let config = extract_args(&raw).ok().unwrap();
        assert_eq!(config.address, Some(address));
    }
}

#[test]
fn chain_without_os_is_a_configuration_error() {
    let none = raw(vec![], vec![]);
    assert_eq!(extract_args(&none).err(), Some(OUT_OF_ORDER));
    let connector_only = raw(vec![arg(2, "kvm")], vec![]);
    assert_eq!(extract_args(&connector_only).err(), Some(OUT_OF_ORDER));
}

#[test]
fn chain_in_wrong_order_is_a_configuration_error() {
    let connector_last = raw(vec![arg(4, "kvm")], vec![arg(2, "win32")]);
    assert_eq!(extract_args(&connector_last).err(), Some(OUT_OF_ORDER));
    let two_layers = raw(vec![], vec![arg(2, "win32"), arg(4, "win32")]);
    assert_eq!(extract_args(&two_layers).err(), Some(OUT_OF_ORDER));
    let two_connectors = raw(vec![arg(2, "kvm"), arg(4, "qemu")], vec![arg(6, "win32")]);
    assert_eq!(extract_args(&two_connectors).err(), Some(OUT_OF_ORDER));
}

#[test]
fn connectors_and_layers_are_not_exchanged() {
    let as_given = raw(vec![arg(2, "kvm")], vec![arg(4, "win32")]);
    assert!(extract_args(&as_given).is_ok());
    let exchanged = raw(vec![arg(4, "win32")], vec![arg(2, "kvm")]);
    assert_eq!(extract_args(&exchanged).err(), Some(OUT_OF_ORDER));
}

#[test]
fn positions_decide_the_order_of_the_chain() {
    let nested = raw(vec![arg(4, "qemu"), arg(8, "kvm")], vec![arg(10, "linux"), arg(6, "win32")]);
    assert!(extract_args(&nested).is_ok());
    let listed_in_any_order = raw(vec![arg(8, "kvm"), arg(4, "qemu")], vec![arg(6, "win32"), arg(10, "linux")]);
    assert!(extract_args(&listed_in_any_order).is_ok());
}

#[test]
fn connector_arguments_are_accepted() {
    let with_args = raw(vec![arg(2, "qemu:win10-vm:map_base=0x1000")], vec![arg(4, "win32::dtb=0x1000")]);
    assert!(extract_args(&with_args).is_ok());
    let with_cache = raw(vec![arg(2, "qemu:vm::cache=true,cache_time=1000")], vec![arg(4, "win32")]);
    assert!(extract_args(&with_cache).is_ok());
}

#[test]
fn memflow_error_is_handed_on() {
    for spec in [
        "qemu:vm::delay=soon",
        "qemu:vm::cache_size=12",
        "qemu:vm::cache_size=12KB",
        "qemu:vm::cache_size=xkb",
        "qemu:vm::cache_size=fffffffffffffffffg",
        "qemu:vm::cache_size=10000000000000000k",
    ] {
        assert_eq!(extract_args(&raw_with_connector(spec)).err(), Some(UNPARSED));
    }
}

#[test]
fn connector_that_sets_a_cache_size_is_accepted() {
    for spec in [
        "qemu:vm::cache_size=2m",
        "kvm:::cache_size=1kb",
        "kvm:::cache_size=ffffffffg",
        "kvm:::cache_size=3ffffffffg",
        "kvm:::cache_size=3ffffffffgb",
        "kvm:::cache_size=fffffffffffm",
        "kvm:::cache_size=3fffffffffffffk",
        "kvm:::cache_size=000000001kb",
        "kvm:::cache_size=0000000000000000000000003ffffffffg",
        "kvm:::cache_size=100000000kb",
        "kvm:000000000::cache_size=1kb",
        "kvm:::cache=true,cache_size=FFFFFFFFgb,cache_time=10",
        "kvm:::cache_size=\"400kb\"",
        "kvm:::cache_size=+400kb",
    ] {
        let sized = raw_with_connector(spec);
        assert!(fits_cache_size(&sized.connectors));
        assert!(extract_args(&sized).is_ok());
    }
}

#[test]
fn cache_size_that_overflows_is_a_configuration_error() {
    for spec in [
        "a:::cache_size=400000000g",
        "a:::cache_size=400000000gb",
        "a:::cache_size=ffffffffffffffffg",
        "a:::cache_size=100000000000m",
        "a:::cache_size=40000000000000k",
        "a:::cache_size=40000000000000kb",
        "a:::cache_size=ffffffffffffffffk",
        "a:::cache_size=0000400000000g",
        "a:::cache_size=+400000000g",
        "a:::cache_size=\"400000000g\"",
        "a:::cache_size=1k,cache_size=400000000g",
    ] {
        let sized = raw_with_connector(spec);
        assert!(!fits_cache_size(&sized.connectors));
        assert_eq!(extract_args(&sized).err(), Some(BAD_CACHE_SIZE));
    }
}

#[test]
fn large_sizes_are_fine_without_a_cache_size() {
    let mapped = raw_with_connector("qemu:400000000g:map_base=0123456789abcdef0");
    assert!(fits_cache_size(&mapped.connectors));
    assert!(extract_args(&mapped).is_ok());
    let layer = raw(vec![], vec![arg(4, "win32::cache_size=ffffffffffffffffg")]);
    assert!(extract_args(&layer).is_ok());
}

#[test]
fn every_connector_is_looked_at() {
    assert!(fits_cache_size(&vec![]));
    assert!(fits_cache_size(&vec![arg(2, "qemu:vm::cache=true"), arg(4, "kvm")]));
    assert!(fits_cache_size(&vec![arg(2, "kvm"), arg(4, "qemu:vm::cache_size=1k")]));
    assert!(!fits_cache_size(&vec![arg(2, "kvm"), arg(4, "qemu:vm::cache_size=400000000g")]));
    assert!(!fits_cache_size(&vec![arg(2, "qemu:vm::cache_size=400000000g"), arg(4, "kvm")]));
}

#[test]
fn overflowing_sizes_are_found() {
    assert!(names_overflowing_size("400000000g"));
    assert!(names_overflowing_size("=400000000g,"));
    assert!(!names_overflowing_size("3ffffffffg"));
    assert!(!names_overflowing_size("400000000"));
    assert!(!names_overflowing_size("400000000G"));
    assert!(!names_overflowing_size("400000000 g"));
    assert!(!names_overflowing_size("400000000x"));
    assert!(names_overflowing_size("100000000000m"));
    assert!(!names_overflowing_size("fffffffffffm"));
    assert!(names_overflowing_size("40000000000000k"));
    assert!(!names_overflowing_size("3fffffffffffffk"));
    assert!(!names_overflowing_size("10000000000000000k"));
    assert!(names_overflowing_size("é400000000gé"));
    assert!(names_overflowing_size("1k 2m 400000000g"));
    assert!(!names_overflowing_size(""));
    assert!(!names_overflowing_size("g"));
}

#[test]
fn refused_chain_makes_assembling_fail() {
    let raw = raw(vec![], vec![arg(1, "native")]);
    let refused = memflow::plugins::OsChain::new(
        vec![(1usize, "kvm")].into_iter(),
        vec![].into_iter(),
    );
    assert!(refused.is_err());
    assert_eq!(assemble(refused, &raw).err(), Some(OUT_OF_ORDER));
}

#[test]
fn malformed_address_makes_assembling_fail() {
    let mut raw = raw(vec![], vec![]);
    raw.address = Some(String::from("zz"));
    let accepted = memflow::plugins::OsChain::new(
        vec![].into_iter(),
        vec![(1usize, "native")].into_iter(),
    );
    assert_eq!(assemble(accepted, &raw).err(), Some(BAD_ADDRESS));
    let refused = memflow::plugins::OsChain::new(
        vec![(1usize, "kvm")].into_iter(),
        vec![].into_iter(),
    );
    assert_eq!(assemble(refused, &raw).err(), Some(OUT_OF_ORDER));
}

#[test]
fn accepted_chain_makes_assembling_succeed() {
    let mut raw = raw(vec![], vec![]);
    raw.verbose = 7;
    raw.address = Some(String::from("1000"));
    let accepted = memflow::plugins::OsChain::new(
        vec![].into_iter(),
        vec![(1usize, "native")].into_iter(),
    );
    assert!(accepted.is_ok());
    let config = assemble(accepted, &raw).ok().unwrap();
    assert_eq!(config.level, LogLevel::Trace);
    assert_eq!(config.address, Some(0x1000));
    assert_eq!(config.process, "side-channel-client");
}
