//! Whole-device generation: which pieces the produced library consists of, in
//! which order, and which peripherals its `Peripherals` singleton holds.

use vstd::prelude::*;
use crate::ident::{
    first_repeat, same_bytes, sanitized, to_sanitized_snake_case, to_sanitized_upper_case,
};
use crate::interrupt::{
    conflict, first_conflict, fragment_of, is_table, linker_fragment, vector_table, Line,
};
use crate::model::{Cpu, Device, Error, Peripheral, Properties, Target};
use crate::peripheral::{block_error, plan_block, plan_fails, plan_ok};
use crate::expand::{expand_peripherals, expanded, shape_of, shapes, too_far, Handle, HandleView};
use crate::text::{append_bytes, upper_case, upper_of};

verus! {

/// One piece of the produced library. The pieces are emitted in order; each
/// names a fixed text or a part of the device tree to lay out.
#[derive(Clone, Copy, Debug, PartialEq, Eq, Structural)]
pub enum Item {
    /// The crate attribute that enables the MSP430 interrupt ABI.
    Msp430Abi,
    /// The crate attributes that the runtime feature needs on targets
    /// without a stable runtime crate.
    RuntimeFeatures,
    /// The crate's documentation and lint attributes.
    CrateAttributes,
    /// The declarations of the target's support crate and runtime crate.
    SupportCrates(Target),
    /// The declarations and imports that every target shares; with
    /// `allow_unused` they may go unused without a warning.
    Imports { allow_unused: bool },
    /// The constant that holds the number of priority bits.
    NvicPrioBits(u32),
    /// The interrupt enumeration and vector table.
    Interrupts,
    /// The re-exports of the Cortex-M runtime and of its peripherals' container.
    CoreRuntime,
    /// The re-exported core peripherals, with the FPU among them or without.
    CorePeripherals { fpu: bool },
    /// The register facade as a nested module.
    Facade,
    /// The peripheral at this index of the list of handles.
    Block(usize),
    /// The taken flag and the `Peripherals` singleton, with `take` where the
    /// target has a critical section, and with each field behind its
    /// feature where `gated`.
    Singleton { take: bool, gated: bool },
}

/// What generation of a device yields.
pub struct RenderOutput {
    /// The pieces of the library, in order.
    pub tokens: Vec<Item>,
    /// The feature names: one for each field of the singleton where the
    /// fields are behind features, none otherwise.
    pub features: Vec<Vec<u8>>,
    /// The peripherals of the library: those of the description, each
    /// repeated one replaced by its copies.
    pub handles: Vec<Handle>,
    /// The handles that are fields of the singleton, by index.
    pub members: Vec<usize>,
    /// The vector table.
    pub vectors: Vec<Option<Line>>,
    /// Whether the register facade goes to a file of its own.
    pub facade_file: bool,
    /// Whether constructs of the unstable toolchain may be emitted.
    pub nightly: bool,
}

/// The core peripherals that the Cortex-M support crate provides, in upper case.
pub open spec fn core_names() -> Seq<Seq<u8>> {
    seq![
        // CBP
        seq![67u8, 66u8, 80u8],
        // CPUID
        seq![67u8, 80u8, 85u8, 73u8, 68u8],
        // DCB
        seq![68u8, 67u8, 66u8],
        // DWT
        seq![68u8, 87u8, 84u8],
        // FPB
        seq![70u8, 80u8, 66u8],
        // FPU
        seq![70u8, 80u8, 85u8],
        // ITM
        seq![73u8, 84u8, 77u8],
        // MPU
        seq![77u8, 80u8, 85u8],
        // NVIC
        seq![78u8, 86u8, 73u8, 67u8],
        // SCB
        seq![83u8, 67u8, 66u8],
        // SYST
        seq![83u8, 89u8, 83u8, 84u8],
        // TPIU
        seq![84u8, 80u8, 73u8, 85u8],
    ]
}

/// The name of the floating-point unit among the core peripherals.
pub open spec fn fpu_name() -> Seq<u8> {
    seq![70u8, 80u8, 85u8]
}

/// Whether the device has a floating-point unit; one that says nothing of
/// its core is taken to have one.
pub open spec fn has_fpu(cpu: Option<Cpu>) -> bool {
    match cpu {
        Some(c) => c.fpu_present,
        None => true,
    }
}

/// `name` is that of a core peripheral that the support crate of the target
/// provides: on Cortex-M, one that in upper case is in the list, the FPU only
/// where the device has one.
pub open spec fn is_core(name: Seq<u8>, target: Target, fpu: bool) -> bool {
    target == Target::CortexM && core_names().contains(upper_of(name)) && (fpu || upper_of(name)
        != fpu_name())
}

/// `p` has a register block of its own or borrows one by derivation.
pub open spec fn has_block(p: Peripheral) -> bool {
    p.derived_from.is_some() || match p.registers {
        Some(registers) => registers@.len() > 0,
        None => false,
    }
}

/// The pieces that come before the peripherals.
pub open spec fn preamble(target: Target, generic_mod: bool, conditional: bool, cpu: Option<Cpu>) -> Seq<
    Item,
> {
    (if target == Target::Msp430 {
        seq![Item::Msp430Abi, Item::RuntimeFeatures]
    } else {
        Seq::empty()
    }) + seq![Item::CrateAttributes] + (if target != Target::Bare {
        seq![Item::SupportCrates(target)]
    } else {
        Seq::empty()
    }) + seq![(Item::Imports { allow_unused: conditional })] + (match cpu {
        Some(c) => seq![Item::NvicPrioBits(c.nvic_priority_bits)],
        None => Seq::empty(),
    }) + seq![Item::Interrupts] + (if target == Target::CortexM {
        seq![Item::CoreRuntime, (Item::CorePeripherals { fpu: has_fpu(cpu) })]
    } else {
        Seq::empty()
    }) + (if generic_mod {
        Seq::empty()
    } else {
        seq![Item::Facade]
    })
}

/// The pieces for the first `n` handles: one for each that is no core peripheral.
pub open spec fn blocks(hv: Seq<HandleView>, target: Target, fpu: bool, n: int) -> Seq<Item>
    decreases n,
{
    if n <= 0 {
        Seq::empty()
    } else if is_core(hv[n - 1].name, target, fpu) {
        blocks(hv, target, fpu, n - 1)
    } else {
        blocks(hv, target, fpu, n - 1).push(Item::Block((n - 1) as usize))
    }
}

/// The handles among the first `n` that are emitted: each that is no core peripheral.
pub open spec fn emitted(hv: Seq<HandleView>, target: Target, fpu: bool, n: int) -> Seq<usize>
    decreases n,
{
    if n <= 0 {
        Seq::empty()
    } else if is_core(hv[n - 1].name, target, fpu) {
        emitted(hv, target, fpu, n - 1)
    } else {
        emitted(hv, target, fpu, n - 1).push((n - 1) as usize)
    }
}

/// The fields of the singleton among the first `n` handles: each that is
/// emitted and comes from a peripheral with a block.
pub open spec fn members(
    ps: Seq<Peripheral>,
    hv: Seq<HandleView>,
    target: Target,
    fpu: bool,
    n: int,
) -> Seq<usize>
    decreases n,
{
    if n <= 0 {
        Seq::empty()
    } else if is_core(hv[n - 1].name, target, fpu) || !has_block(ps[hv[n - 1].source as int]) {
        members(ps, hv, target, fpu, n - 1)
    } else {
        members(ps, hv, target, fpu, n - 1).push((n - 1) as usize)
    }
}

/// All the pieces of a device's library.
pub open spec fn rendered(d: Device, target: Target, generic_mod: bool, conditional: bool) -> Seq<
    Item,
> {
    let hv = expanded(d.peripherals@, d.peripherals@.len() as int);
    preamble(target, generic_mod, conditional, d.cpu) + blocks(
        hv,
        target,
        has_fpu(d.cpu),
        hv.len() as int,
    ) + seq![(Item::Singleton { take: target != Target::Bare, gated: conditional })]
}

/// `name` is the feature name of the handle at `index`: its snake-case identifier.
pub open spec fn named_after(hv: Seq<HandleView>, index: usize, name: Seq<u8>) -> bool {
    (index as int) < hv.len() && name == sanitized(hv[index as int].name, false)
}

/// The feature names for the members: with `conditional` the snake-case
/// identifier of each member, in order; none otherwise.
pub open spec fn features_match(
    hv: Seq<HandleView>,
    members: Seq<usize>,
    conditional: bool,
    features: Seq<Vec<u8>>,
) -> bool {
    if conditional {
        &&& features.len() == members.len()
        &&& forall|k: int|
            #![trigger features[k]]
            0 <= k < features.len() ==> named_after(hv, members[k], features[k]@)
    } else {
        features.len() == 0
    }
}

/// Every handle among the first `n` that is emitted can be: the derivation
/// of its peripheral resolves and the block is in order.
pub open spec fn all_planned(
    ps: Seq<Peripheral>,
    hv: Seq<HandleView>,
    device: Properties,
    target: Target,
    fpu: bool,
    n: int,
) -> bool {
    forall|i: int|
        0 <= i < n && i < hv.len() && !is_core((#[trigger] hv[i]).name, target, fpu) ==> plan_ok(
            ps,
            device,
            hv[i].source,
        )
}

/// The first handle in order that is emitted and cannot be fails with `e`.
pub open spec fn first_plan_fails(
    ps: Seq<Peripheral>,
    hv: Seq<HandleView>,
    device: Properties,
    target: Target,
    fpu: bool,
    e: Error,
) -> bool {
    exists|i: int|
        0 <= i < hv.len() && !is_core((#[trigger] hv[i]).name, target, fpu) && all_planned(
            ps,
            hv,
            device,
            target,
            fpu,
            i,
        ) && plan_fails(ps, device, hv[i].source, e)
}

/// Two emitted handles would get the same name: those at `i` and `j` are both
/// emitted and have the same upper-case identifier.
pub open spec fn names_collide(hv: Seq<HandleView>, shown: Seq<usize>, i: usize, j: usize) -> bool {
    &&& i != j
    &&& shown.contains(i)
    &&& shown.contains(j)
    &&& sanitized(hv[i as int].name, true) == sanitized(hv[j as int].name, true)
}

/// A repeated peripheral of the device has a copy that would start past the
/// end of the address space.
pub open spec fn overflows(ps: Seq<Peripheral>) -> bool {
    exists|i: int| 0 <= i < ps.len() && too_far(#[trigger] ps[i])
}

fn core_table() -> (table: Vec<Vec<u8>>)
    ensures
        table@.len() == core_names().len(),
        forall|i: int| 0 <= i < table@.len() ==> #[trigger] table@[i]@ == core_names()[i],
{
    let table = vec![
        // CBP
        vec![67u8, 66u8, 80u8],
        // CPUID
        vec![67u8, 80u8, 85u8, 73u8, 68u8],
        // DCB
        vec![68u8, 67u8, 66u8],
        // DWT
        vec![68u8, 87u8, 84u8],
        // FPB
        vec![70u8, 80u8, 66u8],
        // FPU
        vec![70u8, 80u8, 85u8],
        // ITM
        vec![73u8, 84u8, 77u8],
        // MPU
        vec![77u8, 80u8, 85u8],
        // NVIC
        vec![78u8, 86u8, 73u8, 67u8],
        // SCB
        vec![83u8, 67u8, 66u8],
        // SYST
        vec![83u8, 89u8, 83u8, 84u8],
        // TPIU
        vec![84u8, 80u8, 73u8, 85u8],
    ];
    assert forall|i: int| 0 <= i < table@.len() implies #[trigger] table@[i]@ == core_names()[i] by {
        assert(table@[i]@ =~= core_names()[i]);
    }
    table
}

/// Whether the support crate of the target provides a peripheral of this name.
pub fn core_peripheral(name: &[u8], target: Target, fpu: bool) -> (r: bool)
    ensures
        r == is_core(name@, target, fpu),
{
    match target {
        Target::CortexM => {},
        _ => {
            return false;
        },
    }
    let upper = upper_case(name);
    let table = core_table();
    let fpu_word: Vec<u8> = vec![70u8, 80u8, 85u8];
    assert(fpu_word@ =~= fpu_name());
    if !fpu && same_bytes(upper.as_slice(), fpu_word.as_slice()) {
        return false;
    }
    let mut i: usize = 0;
    while i < table.len()
        invariant
            i <= table@.len(),
            table@.len() == core_names().len(),
            forall|k: int| 0 <= k < table@.len() ==> #[trigger] table@[k]@ == core_names()[k],
            forall|k: int| 0 <= k < i ==> core_names()[k] != upper@,
            target == Target::CortexM,
            upper@ == upper_of(name@),
            fpu || upper@ != fpu_name(),
        decreases table@.len() - i,
    {
        if same_bytes(table[i].as_slice(), upper.as_slice()) {
            assert(core_names()[i as int] == upper@);
            assert(core_names().contains(upper@));
            return true;
        }
        i += 1;
    }
    false
}

/// Whether the peripheral becomes a field of the singleton once it is emitted.
pub fn block_present(p: &Peripheral) -> (r: bool)
    ensures
        r == has_block(*p),
{
    if p.derived_from.is_some() {
        return true;
    }
    match &p.registers {
        Some(registers) => registers.len() > 0,
        None => false,
    }
}

/// Plans the library of a device. Repeated peripherals are first replaced by
/// their copies; what follows speaks of the resulting handles. The pieces
/// come in a fixed order: crate attributes and support crates as the target
/// needs them, the shared imports, the priority-bits constant where the core
/// is described, the interrupt table, the re-exported core peripherals on
/// Cortex-M, the facade unless it goes to its own file, every handle that the
/// support crate does not already provide, and the singleton. The linker
/// fragment of the interrupt table is appended to `device_x`. Generation
/// stops, and nothing is appended, where interrupts disagree on a number
/// (the first that disagrees with an earlier one decides),
/// where a copy of a repeated peripheral or register would lie past the end
/// of the address space, where a handle to emit has a derivation that does not
/// resolve or a block that is not in order (the first such handle decides),
/// and where two emitted handles would get one name.
pub fn render(
    d: &Device,
    target: Target,
    nightly: bool,
    generic_mod: bool,
    conditional: bool,
    device_x: &mut Vec<u8>,
) -> (r: Result<RenderOutput, Error>)
    ensures
        match r {
            Ok(out) => {
                let hv = expanded(d.peripherals@, d.peripherals@.len() as int);
                &&& shapes(out.handles@) == hv
                &&& out.tokens@ == rendered(*d, target, generic_mod, conditional)
                &&& out.members@ == members(
                    d.peripherals@,
                    hv,
                    target,
                    has_fpu(d.cpu),
                    hv.len() as int,
                )
                &&& features_match(hv, out.members@, conditional, out.features@)
                &&& is_table(d.peripherals@, out.vectors@)
                &&& forall|n: u16| !conflict(d.peripherals@, n)
                &&& !overflows(d.peripherals@)
                &&& all_planned(
                    d.peripherals@,
                    hv,
                    d.defaults,
                    target,
                    has_fpu(d.cpu),
                    hv.len() as int,
                )
                &&& forall|i: usize, j: usize|
                    !names_collide(
                        hv,
                        emitted(hv, target, has_fpu(d.cpu), hv.len() as int),
                        i,
                        j,
                    )
                &&& out.facade_file == generic_mod
                &&& out.nightly == nightly
                &&& final(device_x)@ == old(device_x)@ + fragment_of(d.peripherals@, out.vectors@)
            },
            Err(Error::InterruptConflict(n)) => conflict(d.peripherals@, n) && first_conflict(
                d.peripherals@,
                n,
            ) && final(device_x)@ == old(device_x)@,
            Err(Error::AddressOverflow) => {
                let hv = expanded(d.peripherals@, d.peripherals@.len() as int);
                &&& forall|n: u16| !conflict(d.peripherals@, n)
                &&& overflows(d.peripherals@) || first_plan_fails(
                    d.peripherals@,
                    hv,
                    d.defaults,
                    target,
                    has_fpu(d.cpu),
                    Error::AddressOverflow,
                )
                &&& final(device_x)@ == old(device_x)@
            },
            Err(Error::Collision(i, j)) => {
                let hv = expanded(d.peripherals@, d.peripherals@.len() as int);
                &&& forall|n: u16| !conflict(d.peripherals@, n)
                &&& !overflows(d.peripherals@)
                &&& all_planned(
                    d.peripherals@,
                    hv,
                    d.defaults,
                    target,
                    has_fpu(d.cpu),
                    hv.len() as int,
                )
                &&& names_collide(hv, emitted(hv, target, has_fpu(d.cpu), hv.len() as int), i, j)
                &&& final(device_x)@ == old(device_x)@
            },
            Err(e) => {
                let hv = expanded(d.peripherals@, d.peripherals@.len() as int);
                &&& forall|n: u16| !conflict(d.peripherals@, n)
                &&& !overflows(d.peripherals@)
                &&& block_error(e)
                &&& first_plan_fails(d.peripherals@, hv, d.defaults, target, has_fpu(d.cpu), e)
                &&& final(device_x)@ == old(device_x)@
            },
        },
{
    let vectors = match vector_table(&d.peripherals) {
        Ok(table) => table,
        Err(e) => {
            return Err(e);
        },
    };
    let handles = match expand_peripherals(&d.peripherals) {
        Ok(handles) => handles,
        Err(e) => {
            return Err(e);
        },
    };
    let ghost hv = shapes(handles@);
    let mut tokens: Vec<Item> = Vec::new();
    match target {
        Target::Msp430 => {
            tokens.push(Item::Msp430Abi);
            tokens.push(Item::RuntimeFeatures);
        },
        _ => {},
    }
    tokens.push(Item::CrateAttributes);
    match target {
        Target::Bare => {},
        _ => {
            tokens.push(Item::SupportCrates(target));
        },
    }
    tokens.push(Item::Imports { allow_unused: conditional });
    let mut fpu_present: bool = true;
    match d.cpu {
        Some(cpu) => {
            tokens.push(Item::NvicPrioBits(cpu.nvic_priority_bits));
            fpu_present = cpu.fpu_present;
        },
        None => {},
    }
    tokens.push(Item::Interrupts);
    match target {
        Target::CortexM => {
            tokens.push(Item::CoreRuntime);
            tokens.push(Item::CorePeripherals { fpu: fpu_present });
        },
        _ => {},
    }
    if !generic_mod {
        tokens.push(Item::Facade);
    }
    assert(tokens@ =~= preamble(target, generic_mod, conditional, d.cpu));

    let mut features: Vec<Vec<u8>> = Vec::new();
    let mut fields: Vec<usize> = Vec::new();
    let mut shown: Vec<usize> = Vec::new();
    let mut idents: Vec<Vec<u8>> = Vec::new();
    let mut i: usize = 0;
    while i < handles.len()
        invariant
            i <= handles@.len(),
            hv == shapes(handles@),
            hv == expanded(d.peripherals@, d.peripherals@.len() as int),
            forall|j: int| 0 <= j < handles@.len() ==> (#[trigger] handles@[j]).source
                < d.peripherals@.len(),
            fpu_present == has_fpu(d.cpu),
            tokens@ == preamble(target, generic_mod, conditional, d.cpu) + blocks(
                hv,
                target,
                fpu_present,
                i as int,
            ),
            fields@ == members(d.peripherals@, hv, target, fpu_present, i as int),
            shown@ == emitted(hv, target, fpu_present, i as int),
            features_match(hv, fields@, conditional, features@),
            idents@.len() == shown@.len(),
            forall|k: int|
                0 <= k < shown@.len() ==> (#[trigger] shown@[k] as int) < i && idents@[k]@
                    == sanitized(hv[shown@[k] as int].name, true),
            forall|x: int, y: int|
                0 <= x < y < shown@.len() ==> #[trigger] shown@[x] != #[trigger] shown@[y],
            forall|n: u16| !conflict(d.peripherals@, n),
            !overflows(d.peripherals@),
            device_x@ == old(device_x)@,
            all_planned(d.peripherals@, hv, d.defaults, target, fpu_present, i as int),
        decreases handles@.len() - i,
    {
        let h: &Handle = &handles[i];
        assert(hv[i as int] == shape_of(handles@[i as int]));
        let ghost head = preamble(target, generic_mod, conditional, d.cpu);
        let ghost so_far = blocks(hv, target, fpu_present, i as int);
        if !core_peripheral(h.name.as_slice(), target, fpu_present) {
            match plan_block(&d.peripherals, h.source, &d.defaults) {
                Ok(_) => {},
                Err(e) => {
                    assert(!is_core(hv[i as int].name, target, fpu_present));
                    return Err(e);
                },
            }
            tokens.push(Item::Block(i));
            assert(tokens@ =~= head + so_far.push(Item::Block(i)));
            shown.push(i);
            idents.push(to_sanitized_upper_case(h.name.as_slice()));
            if block_present(&d.peripherals[h.source]) {
                let ghost old_fields = fields@;
                let ghost old_features = features@;
                fields.push(i);
                if conditional {
                    let snake = to_sanitized_snake_case(h.name.as_slice());
                    features.push(snake);
                    assert forall|k: int| 0 <= k < features@.len() implies named_after(
                        hv,
                        fields@[k],
                        (#[trigger] features@[k])@,
                    ) by {
                        if k < old_features.len() {
                            assert(features@[k] == old_features[k]);
                            assert(fields@[k] == old_fields[k]);
                        }
                    }
                }
            }
        }
        i += 1;
    }
    match first_repeat(&idents) {
        Some((a, b)) => {
            assert(shown@[a as int] != shown@[b as int]);
            return Err(Error::Collision(shown[a], shown[b]));
        },
        None => {
            assert forall|x: usize, y: usize| !names_collide(hv, shown@, x, y) by {
                if names_collide(hv, shown@, x, y) {
                    let a = choose|a: int| 0 <= a < shown@.len() && shown@[a] == x;
                    let b = choose|b: int| 0 <= b < shown@.len() && shown@[b] == y;
                    if a < b {
                        assert(idents@[a]@ != idents@[b]@);
                    } else {
                        assert(idents@[b]@ != idents@[a]@);
                    }
                }
            }
        },
    }
    let ghost body = tokens@;
    tokens.push(Item::Singleton { take: target != Target::Bare, gated: conditional });
    assert(tokens@ =~= body + seq![(Item::Singleton { take: target != Target::Bare, gated: conditional })]);

    let fragment = linker_fragment(&d.peripherals, &vectors);
    append_bytes(device_x, fragment.as_slice());
    Ok(
        RenderOutput {
            tokens,
            features,
            handles,
            members: fields,
            vectors,
            facade_file: generic_mod,
            nightly,
        },
    )
}

/// A handle that is emitted and comes from a peripheral with a block, its own
/// or that of the peripheral it derives from, is a field of the singleton.
/// So a derived peripheral is a field, and by the plan of its block it uses
/// the block of the peripheral that its derivation resolves to.
pub proof fn lemma_member(
    ps: Seq<Peripheral>,
    hv: Seq<HandleView>,
    target: Target,
    fpu: bool,
    n: int,
    k: usize,
)
    requires
        0 <= k < n <= hv.len(),
        !is_core(hv[k as int].name, target, fpu),
        has_block(ps[hv[k as int].source as int]),
    ensures
        members(ps, hv, target, fpu, n).contains(k),
    decreases n,
{
    let here = members(ps, hv, target, fpu, n);
    if k == n - 1 {
        assert(here.last() == k);
    } else {
        lemma_member(ps, hv, target, fpu, n - 1, k);
        let before = members(ps, hv, target, fpu, n - 1);
        let j = choose|j: int| 0 <= j < before.len() && before[j] == k;
        assert(here[j] == k);
    }
}

} // verus!
