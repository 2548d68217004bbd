use svdgen::derivation::{block_owner, find_named, find_peripheral, marker_owner, resolve_owner};
use svdgen::expand::{copy_name, expand, expand_addresses, substitute, Instance};
use svdgen::field::{check_fields, check_values, clashing};
use svdgen::interrupt::{linker_fragment, lines, vector_table, Line};
use svdgen::model::{
    Access, Dim, EnumeratedValue, Error, Field, Interrupt, Peripheral, Properties, Register,
};
use svdgen::register::{
    all_ones, capability, no_properties, padding, reset_constant, resolve_properties, Capability,
    Resolved,
};

fn peripheral(name: &[u8], base: u64, derived_from: Option<&[u8]>) -> Peripheral {
    Peripheral {
        name: name.to_vec(),
        base_address: base,
        derived_from: derived_from.map(|n| n.to_vec()),
        registers: None,
        interrupts: Vec::new(),
        defaults: no_properties(),
        dim: None,
    }
}

fn with_interrupts(name: &[u8], list: &[(&[u8], u16)]) -> Peripheral {
    let mut p = peripheral(name, 0, None);
    for (n, number) in list {
        p.interrupts.push(Interrupt { name: n.to_vec(), number: *number });
    }
    p
}

fn field(name: &[u8], offset: u32, width: u32) -> Field {
    Field { name: name.to_vec(), offset, width, access: None, values: None, alternate: false }
}

#[test]
fn peripheral_array_expands_to_four_handles() {
    let dim = Dim {
        count: 4,
        increment: 0x1000,
        indexes: Some(vec![b"A".to_vec(), b"B".to_vec(), b"C".to_vec(), b"D".to_vec()]),
    };
    let base: u64 = 0x4000_0000;
    assert_eq!(
        expand_addresses(base, &dim),
        Ok(vec![base, base + 0x1000, base + 0x2000, base + 0x3000])
    );
    assert_eq!(copy_name(b"UART%s", &dim, 0), b"UARTA".to_vec());
    assert_eq!(copy_name(b"UART%s", &dim, 1), b"UARTB".to_vec());
    assert_eq!(copy_name(b"UART%s", &dim, 2), b"UARTC".to_vec());
    assert_eq!(copy_name(b"UART%s", &dim, 3), b"UARTD".to_vec());
}

#[test]
fn expansion_without_index_list_counts_in_decimal() {
    let dim = Dim { count: 12, increment: 4, indexes: None };
    assert_eq!(copy_name(b"CH%s_CTRL", &dim, 0), b"CH0_CTRL".to_vec());
    assert_eq!(copy_name(b"CH%s_CTRL", &dim, 11), b"CH11_CTRL".to_vec());
    let addresses = expand_addresses(0x10, &dim).unwrap();
    assert_eq!(addresses.len(), 12);
    assert_eq!(addresses[0], 0x10);
    assert_eq!(addresses[11], 0x10 + 44);
}

#[test]
fn expansion_covers_every_copy() {
    let dim = Dim { count: 3, increment: 8, indexes: None };
    let addresses = expand_addresses(0x100, &dim).unwrap();
    let mut bytes: Vec<u64> = Vec::new();
    for a in &addresses {
        for b in 0..4 {
            bytes.push(a + b);
        }
    }
    assert_eq!(
        bytes,
        vec![0x100, 0x101, 0x102, 0x103, 0x108, 0x109, 0x10a, 0x10b, 0x110, 0x111, 0x112, 0x113]
    );
}

#[test]
fn expansion_of_nothing_and_past_the_end() {
    let none = Dim { count: 0, increment: 4, indexes: None };
    assert_eq!(expand_addresses(u64::MAX, &none), Ok(Vec::new()));
    let one = Dim { count: 1, increment: u64::MAX, indexes: None };
    assert_eq!(expand_addresses(u64::MAX, &one), Ok(vec![u64::MAX]));
    let two = Dim { count: 2, increment: 2, indexes: None };
    assert_eq!(expand_addresses(u64::MAX - 1, &two), Err(Error::AddressOverflow));
    assert_eq!(expand_addresses(u64::MAX - 2, &two), Ok(vec![u64::MAX - 2, u64::MAX]));
}

#[test]
fn substitute_replaces_every_placeholder() {
    assert_eq!(substitute(b"A%sB%s", b"12"), b"A12B12".to_vec());
    assert_eq!(substitute(b"%", b"1"), b"%".to_vec());
    assert_eq!(substitute(b"%%s", b"x"), b"%x".to_vec());
    assert_eq!(substitute(b"plain", b"x"), b"plain".to_vec());
    assert_eq!(substitute(b"", b"x"), Vec::<u8>::new());
}

#[test]
fn derived_peripheral_shares_block() {
    let ps = vec![
        peripheral(b"UART1", 0x4000_0000, None),
        peripheral(b"UART2", 0x4000_1000, Some(b"UART1")),
    ];
    assert_eq!(block_owner(&ps, 0), Ok(0));
    assert_eq!(block_owner(&ps, 1), Ok(0));
    assert_ne!(ps[0].base_address, ps[1].base_address);
}

#[test]
fn derivation_chains_resolve_to_the_root() {
    let ps = vec![
        peripheral(b"C", 0, Some(b"B")),
        peripheral(b"B", 0, Some(b"A")),
        peripheral(b"A", 0, None),
    ];
    assert_eq!(block_owner(&ps, 0), Ok(2));
    assert_eq!(block_owner(&ps, 1), Ok(2));
    assert_eq!(block_owner(&ps, 2), Ok(2));
}

#[test]
fn missing_parent_is_refused() {
    let ps = vec![peripheral(b"A", 0, None), peripheral(b"B", 0, Some(b"Z"))];
    assert_eq!(block_owner(&ps, 1), Err(Error::MissingParent(1)));
    let ps = vec![peripheral(b"C", 0, Some(b"B")), peripheral(b"B", 0, Some(b"Z"))];
    assert_eq!(block_owner(&ps, 0), Err(Error::MissingParent(1)));
}

#[test]
fn derivation_cycle_is_refused() {
    let ps = vec![peripheral(b"A", 0, Some(b"B")), peripheral(b"B", 0, Some(b"A"))];
    assert_eq!(block_owner(&ps, 0), Err(Error::DerivationCycle(0)));
    let ps = vec![peripheral(b"A", 0, Some(b"A"))];
    assert_eq!(block_owner(&ps, 0), Err(Error::DerivationCycle(0)));
}

#[test]
fn find_peripheral_takes_the_first() {
    let ps = vec![peripheral(b"A", 0, None), peripheral(b"B", 0, None), peripheral(b"B", 4, None)];
    assert_eq!(find_peripheral(&ps, b"B"), Some(1));
    assert_eq!(find_peripheral(&ps, b"b"), None);
}

#[test]
fn unset_properties_take_builtin_defaults() {
    let none = no_properties();
    assert_eq!(
        resolve_properties(&none, &none, &none, &none),
        Ok(Resolved {
            width: 32,
            access: Access::ReadWrite,
            reset_value: 0,
            reset_mask: 0xffff_ffff
        })
    );
}

#[test]
fn properties_fall_back_outwards() {
    let none = no_properties();
    let register = Properties { width: None, access: Some(Access::ReadOnly), reset_value: None, reset_mask: None };
    let cluster = Properties { width: Some(16), access: Some(Access::WriteOnly), reset_value: None, reset_mask: None };
    let peripheral = Properties { width: Some(8), access: None, reset_value: Some(7), reset_mask: None };
    let device = Properties { width: Some(64), access: None, reset_value: Some(9), reset_mask: Some(0xf0) };
    assert_eq!(
        resolve_properties(&register, &cluster, &peripheral, &device),
        Ok(Resolved { width: 16, access: Access::ReadOnly, reset_value: 7, reset_mask: 0xf0 })
    );
    assert_eq!(
        resolve_properties(&none, &none, &peripheral, &none),
        Ok(Resolved { width: 8, access: Access::ReadWrite, reset_value: 7, reset_mask: 0xff })
    );
}

#[test]
fn unsupported_width_is_refused() {
    let none = no_properties();
    let odd = Properties { width: Some(24), access: None, reset_value: None, reset_mask: None };
    assert_eq!(resolve_properties(&odd, &none, &none, &none), Err(Error::UnsupportedWidth(24)));
    assert_eq!(resolve_properties(&none, &none, &none, &odd), Err(Error::UnsupportedWidth(24)));
}

#[test]
fn all_ones_of_each_width() {
    assert_eq!(all_ones(8), 0xff);
    assert_eq!(all_ones(16), 0xffff);
    assert_eq!(all_ones(32), 0xffff_ffff);
    assert_eq!(all_ones(64), u64::MAX);
}

#[test]
fn each_access_has_one_capability() {
    assert_eq!(capability(Access::ReadOnly), Capability::ReadOnly);
    assert_eq!(capability(Access::WriteOnly), Capability::WriteOnly);
    assert_eq!(capability(Access::WriteOnce), Capability::WriteOnly);
    assert_eq!(capability(Access::ReadWrite), Capability::ReadWrite);
    assert_eq!(capability(Access::ReadWriteOnce), Capability::ReadWrite);
}

#[test]
fn reset_constant_is_masked_reset_value() {
    let r = Resolved { width: 16, access: Access::ReadWrite, reset_value: 0x1234, reset_mask: 0x00ff };
    assert_eq!(reset_constant(&r), Some(0x34));
    let w = Resolved { width: 32, access: Access::WriteOnly, reset_value: 0xffff, reset_mask: 0xf0f0 };
    assert_eq!(reset_constant(&w), Some(0xf0f0));
    let ro = Resolved { width: 32, access: Access::ReadOnly, reset_value: 1, reset_mask: 1 };
    assert_eq!(reset_constant(&ro), None);
}

#[test]
fn padding_between_registers() {
    assert_eq!(padding(0, 32, 4), Some(0));
    assert_eq!(padding(0, 32, 8), Some(4));
    assert_eq!(padding(0x10, 8, 0x20), Some(15));
    assert_eq!(padding(0, 32, 3), None);
    assert_eq!(padding(4, 32, 4), None);
    assert_eq!(padding(u64::MAX, 64, u64::MAX), None);
}

#[test]
fn valid_fields_pass() {
    let fields = vec![field(b"EN", 0, 1), field(b"DIV", 8, 4), field(b"TOP", 31, 1)];
    assert_eq!(check_fields(&fields, 32), Ok(()));
    assert_eq!(check_fields(&Vec::new(), 8), Ok(()));
}

#[test]
fn field_out_of_bounds_is_refused() {
    let fields = vec![field(b"EN", 0, 1), field(b"WIDE", 30, 3)];
    assert_eq!(check_fields(&fields, 32), Err(Error::OutOfBounds(1)));
    let fields = vec![field(b"EMPTY", 4, 0)];
    assert_eq!(check_fields(&fields, 32), Err(Error::OutOfBounds(0)));
    let fields = vec![field(b"FAR", u32::MAX, u32::MAX)];
    assert_eq!(check_fields(&fields, 64), Err(Error::OutOfBounds(0)));
}

#[test]
fn enumerated_value_too_wide_is_refused() {
    let mut mode = field(b"MODE", 0, 2);
    mode.values = Some(vec![
        EnumeratedValue { name: b"OFF".to_vec(), value: 0 },
        EnumeratedValue { name: b"ON".to_vec(), value: 1 },
        EnumeratedValue { name: b"STANDBY".to_vec(), value: 2 },
    ]);
    assert!(check_values(&mode));
    assert_eq!(check_fields(&vec![mode.clone()], 32), Ok(()));
    mode.values.as_mut().unwrap().push(EnumeratedValue { name: b"BAD".to_vec(), value: 4 });
    assert!(!check_values(&mode));
    assert_eq!(check_fields(&vec![field(b"EN", 8, 1), mode], 32), Err(Error::ValueTooWide(1)));
}

#[test]
fn overlapping_fields_are_refused_unless_alternate() {
    let a = field(b"A", 0, 4);
    let b = field(b"B", 3, 2);
    assert!(clashing(&a, &b));
    assert!(!clashing(&a, &field(b"C", 4, 2)));
    assert_eq!(check_fields(&vec![field(b"Z", 16, 1), a.clone(), b.clone()], 32), Err(Error::Overlap(1, 2)));
    let mut alt = b.clone();
    alt.alternate = true;
    assert!(!clashing(&a, &alt));
    assert_eq!(check_fields(&vec![a, alt], 32), Ok(()));
}

#[test]
fn vector_table_orders_by_number_and_reserves_gaps() {
    let ps = vec![
        with_interrupts(b"UART", &[(b"UART_RX", 3), (b"UART_TX", 1)]),
        with_interrupts(b"TIMER", &[(b"TIM", 0)]),
    ];
    assert_eq!(
        lines(&ps),
        vec![
            Line { peripheral: 0, index: 0 },
            Line { peripheral: 0, index: 1 },
            Line { peripheral: 1, index: 0 }
        ]
    );
    let table = vector_table(&ps).unwrap();
    assert_eq!(
        table,
        vec![
            Some(Line { peripheral: 1, index: 0 }),
            Some(Line { peripheral: 0, index: 1 }),
            None,
            Some(Line { peripheral: 0, index: 0 })
        ]
    );
    assert_eq!(
        linker_fragment(&ps, &table),
        b"PROVIDE(TIM = DefaultHandler);\nPROVIDE(UART_TX = DefaultHandler);\nPROVIDE(UART_RX = DefaultHandler);\n".to_vec()
    );
}

#[test]
fn repeated_interrupt_takes_one_slot() {
    let ps = vec![
        with_interrupts(b"DMA1", &[(b"DMA", 2)]),
        with_interrupts(b"DMA2", &[(b"DMA", 2)]),
    ];
    let table = vector_table(&ps).unwrap();
    assert_eq!(table, vec![None, None, Some(Line { peripheral: 0, index: 0 })]);
    assert_eq!(linker_fragment(&ps, &table), b"PROVIDE(DMA = DefaultHandler);\n".to_vec());
}

#[test]
fn conflicting_interrupt_names_are_refused() {
    let ps = vec![
        with_interrupts(b"DMA1", &[(b"DMA", 2), (b"X", 5)]),
        with_interrupts(b"DMA2", &[(b"OTHER", 2)]),
    ];
    assert_eq!(vector_table(&ps), Err(Error::InterruptConflict(2)));
}

#[test]
fn device_without_interrupts_has_empty_table() {
    let ps = vec![peripheral(b"A", 0, None)];
    assert_eq!(vector_table(&ps), Ok(Vec::new()));
    assert_eq!(linker_fragment(&ps, &Vec::new()), Vec::<u8>::new());
}

#[test]
fn expand_gives_names_and_addresses() {
    let dim = Dim {
        count: 4,
        increment: 0x1000,
        indexes: Some(vec![b"A".to_vec(), b"B".to_vec(), b"C".to_vec(), b"D".to_vec()]),
    };
    assert_eq!(
        expand(b"UART%s", 0x4000_0000, &dim),
        Ok(vec![
            Instance { name: b"UARTA".to_vec(), address: 0x4000_0000 },
            Instance { name: b"UARTB".to_vec(), address: 0x4000_1000 },
            Instance { name: b"UARTC".to_vec(), address: 0x4000_2000 },
            Instance { name: b"UARTD".to_vec(), address: 0x4000_3000 },
        ])
    );
    let far = Dim { count: 3, increment: u64::MAX / 2, indexes: None };
    assert_eq!(expand(b"X%s", 2, &far), Err(Error::AddressOverflow));
    let short = Dim { count: 2, increment: 4, indexes: Some(vec![b"A".to_vec()]) };
    assert_eq!(
        expand(b"X%s", 0, &short),
        Ok(vec![
            Instance { name: b"XA".to_vec(), address: 0 },
            Instance { name: b"X1".to_vec(), address: 4 },
        ])
    );
}

fn register(name: &[u8], derived_from: Option<&[u8]>) -> Register {
    Register {
        name: name.to_vec(),
        offset: 0,
        properties: no_properties(),
        fields: Vec::new(),
        dim: None,
        derived_from: derived_from.map(|n| n.to_vec()),
    }
}

#[test]
fn derived_register_uses_the_marker_of_its_source() {
    let rs = vec![
        register(b"CH1", Some(b"CH0")),
        register(b"CH0", None),
        register(b"CH2", Some(b"CH1")),
    ];
    assert_eq!(marker_owner(&rs, 0), Ok(1));
    assert_eq!(marker_owner(&rs, 1), Ok(1));
    assert_eq!(marker_owner(&rs, 2), Ok(1));
    assert_eq!(resolve_owner(&rs, 2), Ok(1));
    assert_eq!(find_named(&rs, b"CH2"), Some(2));
    assert_eq!(find_named(&rs, b"CH3"), None);
    let rs = vec![register(b"A", Some(b"B"))];
    assert_eq!(marker_owner(&rs, 0), Err(Error::MissingParent(0)));
    let rs = vec![register(b"A", Some(b"B")), register(b"B", Some(b"A"))];
    assert_eq!(marker_owner(&rs, 1), Err(Error::DerivationCycle(1)));
}

#[test]
fn first_conflicting_interrupt_is_reported() {
    let ps = vec![
        with_interrupts(b"P", &[(b"A", 1), (b"B", 2)]),
        with_interrupts(b"Q", &[(b"C", 2), (b"D", 1)]),
    ];
    assert_eq!(vector_table(&ps), Err(Error::InterruptConflict(2)));
    let ps = vec![
        with_interrupts(b"P", &[(b"A", 1), (b"B", 2)]),
        with_interrupts(b"Q", &[(b"D", 1), (b"C", 2)]),
    ];
    assert_eq!(vector_table(&ps), Err(Error::InterruptConflict(1)));
}
