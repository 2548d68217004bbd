use svdgen::device::{block_present, core_peripheral, render, Item};
use svdgen::interrupt::Line;
use svdgen::expand::Handle;
use svdgen::model::{Cpu, Device, Dim, Error, Interrupt, Peripheral, Register, Target};
use svdgen::register::no_properties;
use svdgen::singleton::TakenFlag;

fn register(name: &[u8], offset: u64) -> Register {
    Register {
        name: name.to_vec(),
        offset,
        properties: no_properties(),
        fields: Vec::new(),
        dim: None,
        derived_from: None,
    }
}

fn peripheral(name: &[u8], registers: usize, derived_from: Option<&[u8]>) -> Peripheral {
    let mut list = Vec::new();
    for k in 0..registers {
        list.push(register(b"REG", 4 * k as u64));
    }
    Peripheral {
        name: name.to_vec(),
        base_address: 0x4000_0000,
        derived_from: derived_from.map(|n| n.to_vec()),
        registers: if registers == 0 { None } else { Some(list) },
        interrupts: Vec::new(),
        defaults: no_properties(),
        dim: None,
    }
}

fn device(cpu: Option<Cpu>, peripherals: Vec<Peripheral>) -> Device {
    Device { name: b"stm32f30x".to_vec(), cpu, peripherals, defaults: no_properties() }
}

fn sample() -> Device {
    let mut uart = peripheral(b"UART-1", 2, None);
    uart.interrupts.push(Interrupt { name: b"UART1".to_vec(), number: 1 });
    device(
        Some(Cpu { nvic_priority_bits: 4, fpu_present: false }),
        vec![
            uart,
            peripheral(b"nvic", 3, None),
            peripheral(b"FPU", 1, None),
            peripheral(b"EMPTY", 0, None),
            peripheral(b"UART2", 0, Some(b"UART-1")),
        ],
    )
}

#[test]
fn cortex_m_device_without_fpu() {
    let d = sample();
    let mut device_x = b"/* x */\n".to_vec();
    let out = render(&d, Target::CortexM, false, false, true, &mut device_x).unwrap();
    assert_eq!(
        out.tokens,
        vec![
            Item::CrateAttributes,
            Item::SupportCrates(Target::CortexM),
            Item::Imports { allow_unused: true },
            Item::NvicPrioBits(4),
            Item::Interrupts,
            Item::CoreRuntime,
            Item::CorePeripherals { fpu: false },
            Item::Facade,
            Item::Block(0),
            Item::Block(2),
            Item::Block(3),
            Item::Block(4),
            Item::Singleton { take: true, gated: true },
        ]
    );
    assert_eq!(out.members, vec![0, 2, 4]);
    assert_eq!(out.features, vec![b"uart_1".to_vec(), b"fpu".to_vec(), b"uart2".to_vec()]);
    assert_eq!(out.vectors, vec![None, Some(Line { peripheral: 0, index: 0 })]);
    assert!(!out.facade_file);
    assert!(!out.nightly);
    assert_eq!(device_x, b"/* x */\nPROVIDE(UART1 = DefaultHandler);\n".to_vec());
}

#[test]
fn cortex_m_device_with_fpu_skips_it() {
    let mut d = sample();
    d.cpu = None;
    let mut device_x = Vec::new();
    let out = render(&d, Target::CortexM, true, true, false, &mut device_x).unwrap();
    assert_eq!(
        out.tokens,
        vec![
            Item::CrateAttributes,
            Item::SupportCrates(Target::CortexM),
            Item::Imports { allow_unused: false },
            Item::Interrupts,
            Item::CoreRuntime,
            Item::CorePeripherals { fpu: true },
            Item::Block(0),
            Item::Block(3),
            Item::Block(4),
            Item::Singleton { take: true, gated: false },
        ]
    );
    assert_eq!(out.members, vec![0, 4]);
    assert_eq!(out.features, Vec::<Vec<u8>>::new());
    assert!(out.facade_file);
    assert!(out.nightly);
}

#[test]
fn msp430_device_gets_abi_and_runtime_attributes() {
    let d = sample();
    let mut device_x = Vec::new();
    let out = render(&d, Target::Msp430, false, false, false, &mut device_x).unwrap();
    assert_eq!(
        out.tokens,
        vec![
            Item::Msp430Abi,
            Item::RuntimeFeatures,
            Item::CrateAttributes,
            Item::SupportCrates(Target::Msp430),
            Item::Imports { allow_unused: false },
            Item::NvicPrioBits(4),
            Item::Interrupts,
            Item::Facade,
            Item::Block(0),
            Item::Block(1),
            Item::Block(2),
            Item::Block(3),
            Item::Block(4),
            Item::Singleton { take: true, gated: false },
        ]
    );
    assert_eq!(out.members, vec![0, 1, 2, 4]);
}

#[test]
fn bare_target_has_no_take() {
    let d = device(None, vec![peripheral(b"GPIO", 1, None)]);
    let mut device_x = Vec::new();
    let out = render(&d, Target::Bare, false, false, false, &mut device_x).unwrap();
    assert_eq!(
        out.tokens,
        vec![
            Item::CrateAttributes,
            Item::Imports { allow_unused: false },
            Item::Interrupts,
            Item::Facade,
            Item::Block(0),
            Item::Singleton { take: false, gated: false },
        ]
    );
    assert_eq!(device_x, Vec::<u8>::new());
}

#[test]
fn riscv_target_names_its_crates() {
    let d = device(None, Vec::new());
    let mut device_x = Vec::new();
    let out = render(&d, Target::RISCV, false, true, false, &mut device_x).unwrap();
    assert_eq!(
        out.tokens,
        vec![
            Item::CrateAttributes,
            Item::SupportCrates(Target::RISCV),
            Item::Imports { allow_unused: false },
            Item::Interrupts,
            Item::Singleton { take: true, gated: false },
        ]
    );
    assert_eq!(out.members, Vec::<usize>::new());
}

#[test]
fn interrupt_conflict_stops_generation() {
    let mut d = sample();
    d.peripherals[2].interrupts.push(Interrupt { name: b"OTHER".to_vec(), number: 1 });
    let mut device_x = b"keep".to_vec();
    let r = render(&d, Target::CortexM, false, false, false, &mut device_x);
    assert!(matches!(r, Err(Error::InterruptConflict(1))));
    assert_eq!(device_x, b"keep".to_vec());
}

#[test]
fn core_peripherals_are_recognised_in_any_case() {
    assert!(core_peripheral(b"nvic", Target::CortexM, true));
    assert!(core_peripheral(b"Tpiu", Target::CortexM, false));
    assert!(core_peripheral(b"FPU", Target::CortexM, true));
    assert!(!core_peripheral(b"FPU", Target::CortexM, false));
    assert!(!core_peripheral(b"NVIC", Target::RISCV, true));
    assert!(!core_peripheral(b"UART", Target::CortexM, true));
}

#[test]
fn block_present_needs_registers_or_a_parent() {
    assert!(block_present(&peripheral(b"A", 1, None)));
    assert!(block_present(&peripheral(b"A", 0, Some(b"B"))));
    assert!(!block_present(&peripheral(b"A", 0, None)));
    let mut empty = peripheral(b"A", 0, None);
    empty.registers = Some(Vec::new());
    assert!(!block_present(&empty));
}

#[test]
fn take_then_take() {
    let mut flag = TakenFlag::new();
    assert!(flag.take().is_some());
    assert!(flag.take().is_none());
}

#[test]
fn steal_after_take() {
    let mut flag = TakenFlag::new();
    assert!(flag.take().is_some());
    let _grant = flag.steal();
    assert!(flag.take().is_none());
}

#[test]
fn take_after_steal() {
    let mut flag = TakenFlag::new();
    let _grant = flag.steal();
    assert!(flag.take().is_none());
}

#[test]
fn two_contenders_get_one_grant() {
    let mut flag = TakenFlag::new();
    let first = flag.take();
    let second = flag.take();
    assert!(first.is_some() != second.is_some());
    assert!(first.is_some());
}

#[test]
fn unresolved_derivation_stops_generation() {
    let mut d = sample();
    d.peripherals[4].derived_from = Some(b"UART9".to_vec());
    let mut device_x = b"keep".to_vec();
    let r = render(&d, Target::CortexM, false, false, false, &mut device_x);
    assert!(matches!(r, Err(Error::MissingParent(4))));
    assert_eq!(device_x, b"keep".to_vec());
}

#[test]
fn unsupported_register_width_stops_generation() {
    let mut d = sample();
    d.peripherals[0].registers.as_mut().unwrap()[1].properties.width = Some(20);
    let mut device_x = Vec::new();
    let r = render(&d, Target::Bare, false, false, false, &mut device_x);
    assert!(matches!(r, Err(Error::UnsupportedWidth(20))));
    assert_eq!(device_x, Vec::<u8>::new());
}

#[test]
fn core_peripherals_are_not_looked_into() {
    let mut d = sample();
    d.peripherals[1].registers.as_mut().unwrap()[0].properties.width = Some(20);
    let mut device_x = Vec::new();
    assert!(render(&d, Target::CortexM, false, false, false, &mut device_x).is_ok());
    let mut device_x = Vec::new();
    let r = render(&d, Target::RISCV, false, false, false, &mut device_x);
    assert!(matches!(r, Err(Error::UnsupportedWidth(20))));
}

fn uart_array() -> Peripheral {
    let mut uart = peripheral(b"UART%s", 2, None);
    uart.dim = Some(Dim {
        count: 4,
        increment: 0x1000,
        indexes: Some(vec![b"A".to_vec(), b"B".to_vec(), b"C".to_vec(), b"D".to_vec()]),
    });
    uart
}

#[test]
fn peripheral_array_gives_four_handles() {
    let d = device(None, vec![peripheral(b"GPIO", 1, None), uart_array(), peripheral(b"SPI", 1, None)]);
    let mut device_x = Vec::new();
    let out = render(&d, Target::Bare, false, true, true, &mut device_x).unwrap();
    assert_eq!(
        out.handles,
        vec![
            Handle { source: 0, name: b"GPIO".to_vec(), address: 0x4000_0000 },
            Handle { source: 1, name: b"UARTA".to_vec(), address: 0x4000_0000 },
            Handle { source: 1, name: b"UARTB".to_vec(), address: 0x4000_1000 },
            Handle { source: 1, name: b"UARTC".to_vec(), address: 0x4000_2000 },
            Handle { source: 1, name: b"UARTD".to_vec(), address: 0x4000_3000 },
            Handle { source: 2, name: b"SPI".to_vec(), address: 0x4000_0000 },
        ]
    );
    assert_eq!(
        out.tokens,
        vec![
            Item::CrateAttributes,
            Item::Imports { allow_unused: true },
            Item::Interrupts,
            Item::Block(0),
            Item::Block(1),
            Item::Block(2),
            Item::Block(3),
            Item::Block(4),
            Item::Block(5),
            Item::Singleton { take: false, gated: true },
        ]
    );
    assert_eq!(out.members, vec![0, 1, 2, 3, 4, 5]);
    assert_eq!(
        out.features,
        vec![
            b"gpio".to_vec(),
            b"uarta".to_vec(),
            b"uartb".to_vec(),
            b"uartc".to_vec(),
            b"uartd".to_vec(),
            b"spi".to_vec(),
        ]
    );
}

#[test]
fn only_peripheral_array_gives_four_members() {
    let d = device(None, vec![uart_array()]);
    let mut device_x = Vec::new();
    let out = render(&d, Target::Bare, false, true, false, &mut device_x).unwrap();
    assert_eq!(out.members, vec![0, 1, 2, 3]);
    let names: Vec<Vec<u8>> = out.handles.iter().map(|h| h.name.clone()).collect();
    assert_eq!(names, vec![b"UARTA".to_vec(), b"UARTB".to_vec(), b"UARTC".to_vec(), b"UARTD".to_vec()]);
    let addresses: Vec<u64> = out.handles.iter().map(|h| h.address).collect();
    assert_eq!(addresses, vec![0x4000_0000, 0x4000_1000, 0x4000_2000, 0x4000_3000]);
}

#[test]
fn peripheral_array_past_the_end_stops_generation() {
    let mut far = uart_array();
    far.base_address = u64::MAX - 0x2000;
    let d = device(None, vec![peripheral(b"GPIO", 1, None), far]);
    let mut device_x = b"keep".to_vec();
    let r = render(&d, Target::Bare, false, true, false, &mut device_x);
    assert!(matches!(r, Err(Error::AddressOverflow)));
    assert_eq!(device_x, b"keep".to_vec());
}

#[test]
fn copies_that_meet_another_name_collide() {
    let d = device(None, vec![peripheral(b"uarta", 0, None), uart_array()]);
    let mut device_x = Vec::new();
    let r = render(&d, Target::Bare, false, true, false, &mut device_x);
    assert!(matches!(r, Err(Error::Collision(0, 1))));
}

#[test]
fn empty_peripheral_array_gives_no_handle() {
    let mut none = uart_array();
    none.dim = Some(Dim { count: 0, increment: 4, indexes: None });
    let d = device(None, vec![none, peripheral(b"SPI", 1, None)]);
    let mut device_x = Vec::new();
    let out = render(&d, Target::Bare, false, true, false, &mut device_x).unwrap();
    assert_eq!(out.handles, vec![Handle { source: 1, name: b"SPI".to_vec(), address: 0x4000_0000 }]);
    assert_eq!(out.members, vec![0]);
}
