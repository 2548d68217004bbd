//! Repetition of registers and peripherals: the addresses and names of the copies.

use vstd::prelude::*;
use crate::model::{Dim, Error, Peripheral, Register};
use crate::text::{append_bytes, decimal, decimal_of};

verus! {

/// ASCII `%`, which opens the placeholder.
pub const PERCENT: u8 = 37;

/// ASCII `s`, which closes the placeholder.
pub const LOWER_S: u8 = 115;

/// The address of copy `k`.
pub open spec fn copy_start(base: u64, increment: u64, k: int) -> int {
    base + k * increment
}

/// `address` lies in the `size` bytes from `start`.
pub open spec fn within(address: int, start: int, size: int) -> bool {
    start <= address < start + size
}

/// `addresses` are the starts of `count` copies from `base`, `increment` apart.
pub open spec fn is_expansion(addresses: Seq<u64>, base: u64, increment: u64, count: u32) -> bool {
    &&& addresses.len() == count
    &&& forall|k: int|
        0 <= k < count ==> #[trigger] addresses[k] as int == copy_start(base, increment, k)
}

/// The bytes that registers of `size` bytes at `addresses` occupy.
pub open spec fn covered(addresses: Seq<u64>, size: int) -> Set<int> {
    Set::new(
        |a: int| exists|k: int| 0 <= k < addresses.len() && within(a, #[trigger] addresses[k] as int, size),
    )
}

/// The bytes that `count` copies of `size` bytes occupy from `base`, `increment` apart.
pub open spec fn span(base: u64, increment: u64, count: u32, size: int) -> Set<int> {
    Set::new(
        |a: int| exists|k: int| 0 <= k < count && within(a, #[trigger] copy_start(base, increment, k), size),
    )
}

/// `pattern` with every placeholder `%s` replaced by `index`.
pub open spec fn substituted(pattern: Seq<u8>, index: Seq<u8>) -> Seq<u8>
    decreases pattern.len(),
{
    if pattern.len() == 0 {
        Seq::empty()
    } else if pattern.len() >= 2 && pattern[0] == PERCENT && pattern[1] == LOWER_S {
        index + substituted(pattern.skip(2), index)
    } else {
        seq![pattern[0]] + substituted(pattern.skip(1), index)
    }
}

/// The index string of copy `k`: the `k`-th of the list where the repetition
/// has one that reaches so far, and `k` in decimal otherwise.
pub open spec fn index_of(dim: Dim, k: int) -> Seq<u8> {
    match dim.indexes {
        Some(list) => if 0 <= k < list@.len() {
            list@[k]@
        } else {
            decimal_of(k as nat)
        },
        None => decimal_of(k as nat),
    }
}

/// The start addresses of the copies of an entity at `base`: copy `k` starts
/// `k` increments after `base`. A copy that would start past the end of the
/// address space is refused.
pub fn expand_addresses(base: u64, dim: &Dim) -> (r: Result<Vec<u64>, Error>)
    ensures
        match r {
            Ok(addresses) => is_expansion(addresses@, base, dim.increment, dim.count),
            Err(e) => e == Error::AddressOverflow && dim.count > 0 && copy_start(
                base,
                dim.increment,
                dim.count - 1,
            ) > u64::MAX,
        },
        r.is_ok() <==> dim.count == 0 || copy_start(base, dim.increment, dim.count - 1) <= u64::MAX,
{
    let mut out: Vec<u64> = Vec::new();
    let mut address: u64 = base;
    let mut i: u32 = 0;
    while i < dim.count
        invariant
            i <= dim.count,
            out@.len() == i,
            forall|k: int| 0 <= k < i ==> #[trigger] out@[k] as int == copy_start(base, dim.increment, k),
            i < dim.count ==> address as int == copy_start(base, dim.increment, i as int),
        decreases dim.count - i,
    {
        out.push(address);
        if i + 1 < dim.count {
            assert(copy_start(base, dim.increment, i + 1) == copy_start(base, dim.increment, i as int)
                + dim.increment) by (nonlinear_arith);
            match address.checked_add(dim.increment) {
                Some(next) => {
                    address = next;
                },
                None => {
                    assert(copy_start(base, dim.increment, dim.count - 1) >= copy_start(
                        base,
                        dim.increment,
                        i + 1,
                    )) by (nonlinear_arith)
                        requires
                            i + 1 <= dim.count - 1,
                    ;
                    return Err(Error::AddressOverflow);
                },
            }
        }
        i += 1;
    }
    proof {
        if dim.count > 0 {
            assert(out@[dim.count - 1] as int == copy_start(base, dim.increment, dim.count - 1));
        }
    }
    Ok(out)
}

/// `pattern` with every `%s` replaced by `index`.
pub fn substitute(pattern: &[u8], index: &[u8]) -> (out: Vec<u8>)
    ensures
        out@ == substituted(pattern@, index@),
{
    let mut out: Vec<u8> = Vec::new();
    let mut i: usize = 0;
    assert(pattern@.skip(0) =~= pattern@);
    assert(out@ + substituted(pattern@, index@) =~= substituted(pattern@, index@));
    while i < pattern.len()
        invariant
            i <= pattern@.len(),
            out@ + substituted(pattern@.skip(i as int), index@) == substituted(pattern@, index@),
        decreases pattern@.len() - i,
    {
        let ghost rest = pattern@.skip(i as int);
        let ghost before = out@;
        if pattern[i] == PERCENT && i + 1 < pattern.len() && pattern[i + 1] == LOWER_S {
            append_bytes(&mut out, index);
            assert(rest.skip(2) =~= pattern@.skip(i + 2));
            assert(out@ + substituted(rest.skip(2), index@) =~= before + (index@ + substituted(
                rest.skip(2),
                index@,
            )));
            i += 2;
        } else {
            out.push(pattern[i]);
            assert(rest.skip(1) =~= pattern@.skip(i + 1));
            assert(out@ + substituted(rest.skip(1), index@) =~= before + (seq![pattern@[i as int]]
                + substituted(rest.skip(1), index@)));
            i += 1;
        }
    }
    assert(out@ + Seq::<u8>::empty() =~= out@);
    out
}

/// The name of copy `k` of an entity named by `pattern`.
pub fn copy_name(pattern: &[u8], dim: &Dim, k: u32) -> (out: Vec<u8>)
    ensures
        out@ == substituted(pattern@, index_of(*dim, k as int)),
{
    match &dim.indexes {
        Some(list) => {
            if (k as usize) < list.len() {
                return substitute(pattern, list[k as usize].as_slice());
            }
        },
        None => {},
    }
    let digits = decimal(k as u64);
    substitute(pattern, digits.as_slice())
}

/// Expansion keeps the address coverage: registers of `size` bytes at the
/// expanded addresses occupy exactly the bytes of `count` copies laid
/// `increment` apart from `base`.
pub proof fn lemma_expansion_covers(
    addresses: Seq<u64>,
    base: u64,
    increment: u64,
    count: u32,
    size: int,
)
    requires
        is_expansion(addresses, base, increment, count),
    ensures
        covered(addresses, size) == span(base, increment, count, size),
{
    assert forall|a: int| covered(addresses, size).contains(a) == span(
        base,
        increment,
        count,
        size,
    ).contains(a) by {
        if covered(addresses, size).contains(a) {
            let k = choose|k: int|
                0 <= k < addresses.len() && within(a, #[trigger] addresses[k] as int, size);
            assert(within(a, copy_start(base, increment, k), size));
        }
        if span(base, increment, count, size).contains(a) {
            let k = choose|k: int|
                0 <= k < count && within(a, #[trigger] copy_start(base, increment, k), size);
            assert(within(a, addresses[k] as int, size));
        }
    }
    assert(covered(addresses, size) =~= span(base, increment, count, size));
}

/// One copy of a repeated entity.
#[derive(Clone, Debug, PartialEq, Eq)]
pub struct Instance {
    pub name: Vec<u8>,
    pub address: u64,
}

/// `all` are the copies of the entity called `pattern` at `base`: as many as
/// the repetition counts, copy `k` with the `k`-th name and address.
pub open spec fn is_instances(all: Seq<Instance>, pattern: Seq<u8>, base: u64, dim: Dim) -> bool {
    &&& all.len() == dim.count
    &&& forall|k: int|
        0 <= k < all.len() ==> {
            &&& (#[trigger] all[k]).address as int == copy_start(base, dim.increment, k)
            &&& all[k].name@ == substituted(pattern, index_of(dim, k))
        }
}

/// Expands a repeated entity into its copies, each with its name and its
/// address. A copy that would start past the end of the address space is
/// refused.
pub fn expand(pattern: &[u8], base: u64, dim: &Dim) -> (r: Result<Vec<Instance>, Error>)
    ensures
        match r {
            Ok(all) => is_instances(all@, pattern@, base, *dim),
            Err(e) => e == Error::AddressOverflow,
        },
        r.is_ok() <==> dim.count == 0 || copy_start(base, dim.increment, dim.count - 1) <= u64::MAX,
{
    let addresses = match expand_addresses(base, dim) {
        Ok(addresses) => addresses,
        Err(e) => {
            return Err(e);
        },
    };
    let mut all: Vec<Instance> = Vec::new();
    let mut k: u32 = 0;
    while k < dim.count
        invariant
            k <= dim.count,
            is_expansion(addresses@, base, dim.increment, dim.count),
            all@.len() == k,
            forall|j: int|
                0 <= j < k ==> {
                    &&& (#[trigger] all@[j]).address as int == copy_start(base, dim.increment, j)
                    &&& all@[j].name@ == substituted(pattern@, index_of(*dim, j))
                },
        decreases dim.count - k,
    {
        let name = copy_name(pattern, dim, k);
        let address: u64 = addresses[k as usize];
        all.push(Instance { name, address });
        k += 1;
    }
    Ok(all)
}

/// One peripheral or register of the produced library: one of the
/// description, or one copy of a repeated one.
#[derive(Clone, Debug, PartialEq, Eq)]
pub struct Handle {
    /// The entity of the description that this one comes from, by index.
    pub source: usize,
    /// Its name, with the placeholder replaced where it is a copy.
    pub name: Vec<u8>,
    /// Its base address, or its offset in the block where it is a register.
    pub address: u64,
}

/// A handle as a mathematical value.
pub struct HandleView {
    pub source: usize,
    pub name: Seq<u8>,
    pub address: u64,
}

/// The value of a handle.
pub open spec fn shape_of(h: Handle) -> HandleView {
    HandleView { source: h.source, name: h.name@, address: h.address }
}

/// The values of a list of handles.
pub open spec fn shapes(hs: Seq<Handle>) -> Seq<HandleView> {
    Seq::new(hs.len(), |j: int| shape_of(hs[j]))
}

/// Something that may be repeated: it has a name pattern, a start address
/// or offset, and perhaps a repetition.
pub trait Repeated {
    /// The name, with the placeholder where the entity is repeated.
    spec fn pattern_of(&self) -> Seq<u8>;

    /// Where the first copy starts.
    spec fn start_of(&self) -> u64;

    /// The repetition, if there is one.
    spec fn dim_of(&self) -> Option<Dim>;

    /// The name, with the placeholder where the entity is repeated.
    fn pattern(&self) -> (n: &[u8])
        ensures
            n@ == self.pattern_of(),
    ;

    /// Where the first copy starts.
    fn start(&self) -> (a: u64)
        ensures
            a == self.start_of(),
    ;

    /// The repetition, if there is one.
    fn dim(&self) -> (d: Option<&Dim>)
        ensures
            match d {
                Some(x) => self.dim_of() == Some(*x),
                None => self.dim_of().is_none(),
            },
    ;
}

impl Repeated for Peripheral {
    open spec fn pattern_of(&self) -> Seq<u8> {
        self.name@
    }

    open spec fn start_of(&self) -> u64 {
        self.base_address
    }

    open spec fn dim_of(&self) -> Option<Dim> {
        self.dim
    }

    fn pattern(&self) -> (n: &[u8]) {
        self.name.as_slice()
    }

    fn start(&self) -> (a: u64) {
        self.base_address
    }

    fn dim(&self) -> (d: Option<&Dim>) {
        self.dim.as_ref()
    }
}

impl Repeated for Register {
    open spec fn pattern_of(&self) -> Seq<u8> {
        self.name@
    }

    open spec fn start_of(&self) -> u64 {
        self.offset
    }

    open spec fn dim_of(&self) -> Option<Dim> {
        self.dim
    }

    fn pattern(&self) -> (n: &[u8]) {
        self.name.as_slice()
    }

    fn start(&self) -> (a: u64) {
        self.offset
    }

    fn dim(&self) -> (d: Option<&Dim>) {
        self.dim.as_ref()
    }
}

/// How many handles an entity gives: as many as its repetition counts, and
/// one where it is not repeated.
pub open spec fn count_of<T: Repeated>(p: T) -> int {
    match p.dim_of() {
        Some(dim) => dim.count as int,
        None => 1,
    }
}

/// Copy `k` of the entity `p`, which stands at index `i`: a repeated
/// entity's copy has the `k`-th name and lies `k` increments after the
/// start; an entity that is not repeated is its own only copy.
pub open spec fn copy_of<T: Repeated>(p: T, i: usize, k: int) -> HandleView {
    match p.dim_of() {
        Some(dim) => HandleView {
            source: i,
            name: substituted(p.pattern_of(), index_of(dim, k)),
            address: copy_start(p.start_of(), dim.increment, k) as u64,
        },
        None => HandleView { source: i, name: p.pattern_of(), address: p.start_of() },
    }
}

/// The first `n` copies of the entity `p`.
pub open spec fn copies<T: Repeated>(p: T, i: usize, n: int) -> Seq<HandleView>
    decreases n,
{
    if n <= 0 {
        Seq::empty()
    } else {
        copies(p, i, n - 1).push(copy_of(p, i, n - 1))
    }
}

/// The handles of the first `n` entities: those of each in turn, in
/// document order, the copies of a repeated one in index order.
pub open spec fn expanded<T: Repeated>(ps: Seq<T>, n: int) -> Seq<HandleView>
    decreases n,
{
    if n <= 0 {
        Seq::empty()
    } else {
        expanded(ps, n - 1) + copies(ps[n - 1], (n - 1) as usize, count_of(ps[n - 1]))
    }
}

/// A copy of the repeated entity `p` would start past the end of the
/// address space.
pub open spec fn too_far<T: Repeated>(p: T) -> bool {
    match p.dim_of() {
        Some(dim) => dim.count > 0 && copy_start(p.start_of(), dim.increment, dim.count - 1)
            > u64::MAX,
        None => false,
    }
}

/// Expands a list of entities: every repeated one becomes its copies, every
/// other one stays as it is. It fails exactly when a copy would start past
/// the end of the address space.
pub fn expand_all<T: Repeated>(ps: &Vec<T>) -> (r: Result<Vec<Handle>, Error>)
    ensures
        match r {
            Ok(hs) => {
                &&& shapes(hs@) == expanded(ps@, ps@.len() as int)
                &&& forall|j: int| 0 <= j < hs@.len() ==> (#[trigger] hs@[j]).source < ps@.len()
                &&& forall|i: int| 0 <= i < ps@.len() ==> !too_far(#[trigger] ps@[i])
            },
            Err(e) => e == Error::AddressOverflow && exists|i: int|
                0 <= i < ps@.len() && too_far(#[trigger] ps@[i]),
        },
{
    let mut hs: Vec<Handle> = Vec::new();
    let mut i: usize = 0;
    assert(shapes(hs@) =~= expanded(ps@, 0));
    while i < ps.len()
        invariant
            i <= ps@.len(),
            shapes(hs@) == expanded(ps@, i as int),
            forall|j: int| 0 <= j < hs@.len() ==> (#[trigger] hs@[j]).source < ps@.len(),
            forall|m: int| 0 <= m < i ==> !too_far(#[trigger] ps@[m]),
        decreases ps@.len() - i,
    {
        let p: &T = &ps[i];
        match p.dim() {
            Some(dim) => {
                let addresses = match expand_addresses(p.start(), dim) {
                    Ok(addresses) => addresses,
                    Err(e) => {
                        assert(too_far(ps@[i as int]));
                        return Err(e);
                    },
                };
                let mut k: u32 = 0;
                assert(shapes(hs@) =~= expanded(ps@, i as int) + copies(*p, i, 0));
                while k < dim.count
                    invariant
                        k <= dim.count,
                        i < ps@.len(),
                        *p == ps@[i as int],
                        p.dim_of() == Some(*dim),
                        is_expansion(addresses@, p.start_of(), dim.increment, dim.count),
                        shapes(hs@) == expanded(ps@, i as int) + copies(*p, i, k as int),
                        forall|j: int|
                            0 <= j < hs@.len() ==> (#[trigger] hs@[j]).source < ps@.len(),
                    decreases dim.count - k,
                {
                    let ghost before = hs@;
                    let name = copy_name(p.pattern(), dim, k);
                    let address: u64 = addresses[k as usize];
                    let h = Handle { source: i, name, address };
                    assert(shape_of(h) == copy_of(*p, i, k as int));
                    hs.push(h);
                    assert(shapes(hs@) =~= shapes(before).push(shape_of(h)));
                    assert(shapes(hs@) =~= expanded(ps@, i as int) + copies(*p, i, k + 1));
                    k += 1;
                }
            },
            None => {
                let ghost before = hs@;
                let mut name: Vec<u8> = Vec::new();
                append_bytes(&mut name, p.pattern());
                assert(name@ =~= p.pattern_of());
                let h = Handle { source: i, name, address: p.start() };
                assert(shape_of(h) == copy_of(*p, i, 0));
                hs.push(h);
                assert(shapes(hs@) =~= shapes(before).push(shape_of(h)));
                assert(copies(*p, i, 1) =~= seq![copy_of(*p, i, 0)]) by {
                    assert(copies(*p, i, 0) =~= Seq::<HandleView>::empty());
                }
                assert(shapes(hs@) =~= expanded(ps@, i as int) + copies(*p, i, 1));
            },
        }
        i += 1;
    }
    Ok(hs)
}

/// Expands the peripherals of a device into the handles of its library.
pub fn expand_peripherals(ps: &Vec<Peripheral>) -> (r: Result<Vec<Handle>, Error>)
    ensures
        match r {
            Ok(hs) => {
                &&& shapes(hs@) == expanded(ps@, ps@.len() as int)
                &&& forall|j: int| 0 <= j < hs@.len() ==> (#[trigger] hs@[j]).source < ps@.len()
                &&& forall|i: int| 0 <= i < ps@.len() ==> !too_far(#[trigger] ps@[i])
            },
            Err(e) => e == Error::AddressOverflow && exists|i: int|
                0 <= i < ps@.len() && too_far(#[trigger] ps@[i]),
        },
{
    expand_all(ps)
}

/// Expands the registers of a block: each copy of a repeated register is a
/// register of its own, at its own offset.
pub fn expand_registers(rs: &Vec<Register>) -> (r: Result<Vec<Handle>, Error>)
    ensures
        match r {
            Ok(hs) => {
                &&& shapes(hs@) == expanded(rs@, rs@.len() as int)
                &&& forall|j: int| 0 <= j < hs@.len() ==> (#[trigger] hs@[j]).source < rs@.len()
                &&& forall|i: int| 0 <= i < rs@.len() ==> !too_far(#[trigger] rs@[i])
            },
            Err(e) => e == Error::AddressOverflow && exists|i: int|
                0 <= i < rs@.len() && too_far(#[trigger] rs@[i]),
        },
{
    expand_all(rs)
}

/// The addresses of a list of handles.
pub open spec fn addresses_of(hv: Seq<HandleView>) -> Seq<u64> {
    Seq::new(hv.len(), |j: int| hv[j].address)
}

/// The first `n` copies of an entity are `n`, and the `k`-th of them is copy `k`.
pub proof fn lemma_copies_index<T: Repeated>(p: T, i: usize, n: int)
    requires
        0 <= n,
    ensures
        copies(p, i, n).len() == n,
        forall|k: int| 0 <= k < n ==> #[trigger] copies(p, i, n)[k] == copy_of(p, i, k),
    decreases n,
{
    if n > 0 {
        lemma_copies_index(p, i, n - 1);
    }
}

/// Expansion keeps the address coverage of a repeated entity: where no copy
/// lies past the end of the address space, the copies that stand for the
/// entity in the expanded list, each `size` bytes long, occupy exactly the
/// bytes of as many copies as the repetition counts, laid its increment apart
/// from the entity's start.
pub proof fn lemma_copies_cover<T: Repeated>(p: T, i: usize, dim: Dim, size: int)
    requires
        p.dim_of() == Some(dim),
        !too_far(p),
    ensures
        covered(addresses_of(copies(p, i, count_of(p))), size) == span(
            p.start_of(),
            dim.increment,
            dim.count,
            size,
        ),
{
    let n = dim.count as int;
    let hv = copies(p, i, n);
    let all = addresses_of(hv);
    let start = p.start_of();
    let step = dim.increment;
    lemma_copies_index(p, i, n);
    assert forall|k: int| 0 <= k < n implies #[trigger] all[k] as int == copy_start(
        start,
        step,
        k,
    ) by {
        assert(hv[k] == copy_of(p, i, k));
        assert(0 <= k * step <= (n - 1) * step) by (nonlinear_arith)
            requires
                0 <= k <= n - 1,
                0 <= step,
        ;
    }
    lemma_expansion_covers(all, start, step, dim.count, size);
}

} // verus!
