//! The interrupt table: every interrupt of every peripheral, placed by number.

use vstd::prelude::*;
use crate::ident::same_bytes;
use crate::model::{Error, Interrupt, Peripheral};
use crate::text::append_bytes;

verus! {

/// Where an interrupt stands in the device tree: the peripheral's index and
/// the interrupt's index in that peripheral's list.
#[derive(Clone, Copy, Debug, PartialEq, Eq, Structural)]
pub struct Line {
    pub peripheral: usize,
    pub index: usize,
}

/// `line` names an interrupt of `ps`.
pub open spec fn line_in(ps: Seq<Peripheral>, line: Line) -> bool {
    line.peripheral < ps.len() && line.index < ps[line.peripheral as int].interrupts@.len()
}

/// The interrupt that `line` names.
pub open spec fn at(ps: Seq<Peripheral>, line: Line) -> Interrupt {
    ps[line.peripheral as int].interrupts@[line.index as int]
}

/// `a` comes before `b` in the document.
pub open spec fn earlier(a: Line, b: Line) -> bool {
    a.peripheral < b.peripheral || (a.peripheral == b.peripheral && a.index < b.index)
}

/// Two interrupts of `ps` share the number `number` under different names.
pub open spec fn conflict(ps: Seq<Peripheral>, number: u16) -> bool {
    exists|a: Line, b: Line|
        line_in(ps, a) && line_in(ps, b) && #[trigger] at(ps, a).number == number && #[trigger] at(
            ps,
            b,
        ).number == number && at(ps, a).name@ != at(ps, b).name@
}

/// The number `number` is that of the first interrupt in the document that
/// disagrees with an earlier one: two interrupts share it under different
/// names, and all interrupts before the later of the two agree with each
/// other wherever they share a number.
pub open spec fn first_conflict(ps: Seq<Peripheral>, number: u16) -> bool {
    exists|a: Line, b: Line|
        line_in(ps, a) && line_in(ps, b) && earlier(a, b) && #[trigger] at(ps, a).number == number
            && #[trigger] at(ps, b).number == number && at(ps, a).name@ != at(ps, b).name@
            && agree_before(ps, b)
}

/// All interrupts before `limit` in the document agree: any two of them with
/// one number have one name.
pub open spec fn agree_before(ps: Seq<Peripheral>, limit: Line) -> bool {
    forall|c: Line, d: Line|
        line_in(ps, c) && line_in(ps, d) && earlier(c, limit) && earlier(d, limit) && #[trigger] at(
            ps,
            c,
        ).number == #[trigger] at(ps, d).number ==> at(ps, c).name@ == at(ps, d).name@
}

/// `table` is the vector table of `ps`: slot `n` holds the first interrupt in
/// the document with number `n` if there is one and is reserved otherwise,
/// every interrupt finds its name in its slot, and the table ends with its
/// last used slot.
pub open spec fn is_table(ps: Seq<Peripheral>, table: Seq<Option<Line>>) -> bool {
    &&& forall|n: int|
        0 <= n < table.len() ==> match #[trigger] table[n] {
            Some(line) => line_in(ps, line) && at(ps, line).number == n,
            None => true,
        }
    &&& forall|line: Line| #[trigger]
        line_in(ps, line) ==> {
            &&& (at(ps, line).number as int) < table.len()
            &&& table[at(ps, line).number as int].is_some()
            &&& at(ps, table[at(ps, line).number as int].unwrap()).name@ == at(ps, line).name@
            &&& !earlier(line, table[at(ps, line).number as int].unwrap())
        }
    &&& table.len() > 0 ==> table.last().is_some()
}

/// Every interrupt of the device, peripheral by peripheral in document order.
pub fn lines(ps: &Vec<Peripheral>) -> (all: Vec<Line>)
    ensures
        forall|j: int| 0 <= j < all@.len() ==> line_in(ps@, #[trigger] all@[j]),
        forall|line: Line| #[trigger] line_in(ps@, line) ==> all@.contains(line),
        forall|a: int, b: int|
            0 <= a < b < all@.len() ==> earlier(#[trigger] all@[a], #[trigger] all@[b]),
{
    let mut all: Vec<Line> = Vec::new();
    let mut p: usize = 0;
    while p < ps.len()
        invariant
            p <= ps@.len(),
            forall|j: int| 0 <= j < all@.len() ==> line_in(ps@, #[trigger] all@[j]),
            forall|line: Line| #[trigger]
                line_in(ps@, line) && line.peripheral < p ==> all@.contains(line),
            forall|j: int| 0 <= j < all@.len() ==> (#[trigger] all@[j]).peripheral < p,
            forall|a: int, b: int|
                0 <= a < b < all@.len() ==> earlier(#[trigger] all@[a], #[trigger] all@[b]),
        decreases ps@.len() - p,
    {
        let mut k: usize = 0;
        while k < ps[p].interrupts.len()
            invariant
                p < ps@.len(),
                k <= ps@[p as int].interrupts@.len(),
                forall|j: int| 0 <= j < all@.len() ==> line_in(ps@, #[trigger] all@[j]),
                forall|line: Line| #[trigger]
                    line_in(ps@, line) && (line.peripheral < p || (line.peripheral == p
                        && line.index < k)) ==> all@.contains(line),
                forall|j: int|
                    0 <= j < all@.len() ==> (#[trigger] all@[j]).peripheral < p || (
                    all@[j].peripheral == p && all@[j].index < k),
                forall|a: int, b: int|
                    0 <= a < b < all@.len() ==> earlier(#[trigger] all@[a], #[trigger] all@[b]),
            decreases ps@[p as int].interrupts@.len() - k,
        {
            let ghost before = all@;
            all.push(Line { peripheral: p, index: k });
            proof {
                assert forall|line: Line| #[trigger]
                    line_in(ps@, line) && (line.peripheral < p || (line.peripheral == p
                        && line.index < k + 1)) implies all@.contains(line) by {
                    if line.peripheral == p && line.index == k {
                        assert(all@[before.len() as int] == line);
                    } else {
                        assert(before.contains(line));
                        let j = choose|j: int| 0 <= j < before.len() && before[j] == line;
                        assert(all@[j] == line);
                    }
                }
            }
            k += 1;
        }
        p += 1;
    }
    all
}

/// Lays the interrupts of the device out by number. Interrupts that share a
/// number and a name take one slot; numbers that no interrupt has stay
/// reserved. Two interrupts with one number and different names are refused.
pub fn vector_table(ps: &Vec<Peripheral>) -> (r: Result<Vec<Option<Line>>, Error>)
    ensures
        match r {
            Ok(table) => is_table(ps@, table@) && forall|n: u16| !conflict(ps@, n),
            Err(Error::InterruptConflict(n)) => conflict(ps@, n) && first_conflict(ps@, n),
            Err(_) => false,
        },
{
    let all = lines(ps);
    let mut table: Vec<Option<Line>> = Vec::new();
    let mut i: usize = 0;
    while i < all.len()
        invariant
            i <= all@.len(),
            forall|j: int| 0 <= j < all@.len() ==> line_in(ps@, #[trigger] all@[j]),
            forall|line: Line| #[trigger] line_in(ps@, line) ==> all@.contains(line),
            table@.len() <= 0x1_0000,
            forall|n: int|
                0 <= n < table@.len() ==> match #[trigger] table@[n] {
                    Some(line) => line_in(ps@, line) && at(ps@, line).number == n,
                    None => true,
                },
            forall|j: int|
                0 <= j < i ==> {
                    &&& (at(ps@, #[trigger] all@[j]).number as int) < table@.len()
                    &&& table@[at(ps@, all@[j]).number as int].is_some()
                    &&& at(ps@, table@[at(ps@, all@[j]).number as int].unwrap()).name@ == at(
                        ps@,
                        all@[j],
                    ).name@
                    &&& !earlier(all@[j], table@[at(ps@, all@[j]).number as int].unwrap())
                },
            forall|a: int, b: int|
                0 <= a < b < all@.len() ==> earlier(#[trigger] all@[a], #[trigger] all@[b]),
            forall|n: int, j: int|
                0 <= n < table@.len() && i <= j < all@.len() && (#[trigger] table@[n]).is_some()
                    ==> earlier(table@[n].unwrap(), #[trigger] all@[j]),
            table@.len() > 0 ==> table@.last().is_some(),
        decreases all@.len() - i,
    {
        let line = all[i];
        let entry: &Interrupt = &ps[line.peripheral].interrupts[line.index];
        let n: usize = entry.number as usize;
        if n < table.len() {
            match table[n] {
                Some(first) => {
                    let held: &Interrupt = &ps[first.peripheral].interrupts[first.index];
                    if !same_bytes(held.name.as_slice(), entry.name.as_slice()) {
                        assert(at(ps@, first).number == entry.number);
                        assert(at(ps@, line).number == entry.number);
                        assert(earlier(first, all@[i as int]));
                        assert forall|c: Line, d: Line|
                            line_in(ps@, c) && line_in(ps@, d) && earlier(c, line) && earlier(
                                d,
                                line,
                            ) && #[trigger] at(ps@, c).number == #[trigger] at(
                                ps@,
                                d,
                            ).number implies at(ps@, c).name@ == at(ps@, d).name@ by {
                            assert(all@.contains(c));
                            assert(all@.contains(d));
                            let jc = choose|j: int| 0 <= j < all@.len() && all@[j] == c;
                            let jd = choose|j: int| 0 <= j < all@.len() && all@[j] == d;
                            if jc > i {
                                assert(earlier(all@[i as int], all@[jc]));
                            }
                            if jd > i {
                                assert(earlier(all@[i as int], all@[jd]));
                            }
                            assert(jc < i && jd < i);
                            assert(all@[jc] == c && all@[jd] == d);
                        }
                        assert(agree_before(ps@, line));
                        return Err(Error::InterruptConflict(entry.number));
                    }
                },
                None => {
                    table.set(n, Some(line));
                },
            }
        } else {
            while table.len() < n
                invariant
                    n < 0x1_0000,
                    table@.len() <= n,
                    forall|m: int|
                        0 <= m < table@.len() ==> match #[trigger] table@[m] {
                            Some(l) => line_in(ps@, l) && at(ps@, l).number == m,
                            None => true,
                        },
                    forall|j: int|
                        0 <= j < i ==> {
                            &&& (at(ps@, #[trigger] all@[j]).number as int) < table@.len()
                            &&& table@[at(ps@, all@[j]).number as int].is_some()
                            &&& at(ps@, table@[at(ps@, all@[j]).number as int].unwrap()).name@
                                == at(ps@, all@[j]).name@
                            &&& !earlier(all@[j], table@[at(ps@, all@[j]).number as int].unwrap())
                        },
                    forall|m: int, j: int|
                        0 <= m < table@.len() && i <= j < all@.len() && (#[trigger] table@[m]).is_some()
                            ==> earlier(table@[m].unwrap(), #[trigger] all@[j]),
                decreases n - table@.len(),
            {
                table.push(None);
            }
            table.push(Some(line));
        }
        i += 1;
    }
    proof {
        assert forall|line: Line| #[trigger] line_in(ps@, line) implies {
            &&& (at(ps@, line).number as int) < table@.len()
            &&& table@[at(ps@, line).number as int].is_some()
            &&& at(ps@, table@[at(ps@, line).number as int].unwrap()).name@ == at(ps@, line).name@
            &&& !earlier(line, table@[at(ps@, line).number as int].unwrap())
        } by {
            assert(all@.contains(line));
            let j = choose|j: int| 0 <= j < all@.len() && all@[j] == line;
            assert(all@[j] == line);
        }
        assert forall|n: u16| !conflict(ps@, n) by {
            if conflict(ps@, n) {
                let (a, b) = choose|a: Line, b: Line|
                    line_in(ps@, a) && line_in(ps@, b) && #[trigger] at(ps@, a).number == n
                        && #[trigger] at(ps@, b).number == n && at(ps@, a).name@ != at(
                        ps@,
                        b,
                    ).name@;
                assert(line_in(ps@, a));
                assert(line_in(ps@, b));
            }
        }
    }
    Ok(table)
}

/// The text `PROVIDE(`, which opens a line of the linker fragment.
pub open spec fn provide_open() -> Seq<u8> {
    seq![80u8, 82u8, 79u8, 86u8, 73u8, 68u8, 69u8, 40u8]
}

/// The text ` = DefaultHandler);` and a line feed, which closes such a line.
pub open spec fn provide_close() -> Seq<u8> {
    seq![32u8, 61u8, 32u8, 68u8, 101u8, 102u8, 97u8, 117u8, 108u8, 116u8, 72u8, 97u8, 110u8, 100u8, 108u8, 101u8, 114u8, 41u8, 59u8, 10u8]
}

/// The linker fragment of a vector table: for each used slot, in number
/// order, one line that gives the interrupt's name the default handler.
pub open spec fn fragment_of(ps: Seq<Peripheral>, table: Seq<Option<Line>>) -> Seq<u8>
    decreases table.len(),
{
    if table.len() == 0 {
        Seq::empty()
    } else {
        fragment_of(ps, table.drop_last()) + match table.last() {
            Some(line) => provide_open() + at(ps, line).name@ + provide_close(),
            None => Seq::empty(),
        }
    }
}

/// Writes the linker fragment of `table`: `PROVIDE(<name> = DefaultHandler);`
/// on a line of its own for every interrupt in the table.
pub fn linker_fragment(ps: &Vec<Peripheral>, table: &Vec<Option<Line>>) -> (text: Vec<u8>)
    requires
        forall|n: int|
            0 <= n < table@.len() && (#[trigger] table@[n]).is_some() ==> line_in(
                ps@,
                table@[n].unwrap(),
            ),
    ensures
        text@ == fragment_of(ps@, table@),
{
    let open: Vec<u8> = vec![80u8, 82u8, 79u8, 86u8, 73u8, 68u8, 69u8, 40u8];
    let close: Vec<u8> = vec![32u8, 61u8, 32u8, 68u8, 101u8, 102u8, 97u8, 117u8, 108u8, 116u8, 72u8, 97u8, 110u8, 100u8, 108u8, 101u8, 114u8, 41u8, 59u8, 10u8];
    assert(open@ =~= provide_open());
    assert(close@ =~= provide_close());
    let mut text: Vec<u8> = Vec::new();
    let mut n: usize = 0;
    while n < table.len()
        invariant
            n <= table@.len(),
            open@ == provide_open(),
            close@ == provide_close(),
            forall|m: int|
                0 <= m < table@.len() && (#[trigger] table@[m]).is_some() ==> line_in(
                    ps@,
                    table@[m].unwrap(),
                ),
            text@ == fragment_of(ps@, table@.take(n as int)),
        decreases table@.len() - n,
    {
        proof {
            assert(table@.take(n + 1).drop_last() =~= table@.take(n as int));
            assert(table@.take(n + 1).last() == table@[n as int]);
        }
        let ghost before = text@;
        match table[n] {
            Some(line) => {
                let entry: &Interrupt = &ps[line.peripheral].interrupts[line.index];
                append_bytes(&mut text, open.as_slice());
                append_bytes(&mut text, entry.name.as_slice());
                append_bytes(&mut text, close.as_slice());
                assert(text@ =~= before + (provide_open() + at(ps@, line).name@ + provide_close()));
            },
            None => {
                assert(text@ =~= before + Seq::<u8>::empty());
            },
        }
        n += 1;
    }
    assert(table@.take(n as int) =~= table@);
    text
}

} // verus!
