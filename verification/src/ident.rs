//! Turning arbitrary names into identifiers: separators collapse to single
//! underscores, the case is unified, and a name that would start with a digit
//! or read as a reserved word gets a leading underscore.

use vstd::prelude::*;
use crate::model::Error;

verus! {

/// ASCII `0`.
pub const DIGIT_0: u8 = 48;

/// ASCII `9`.
pub const DIGIT_9: u8 = 57;

/// ASCII `A`.
pub const UPPER_A: u8 = 65;

/// ASCII `Z`.
pub const UPPER_Z: u8 = 90;

/// ASCII `a`.
pub const LOWER_A: u8 = 97;

/// ASCII `z`.
pub const LOWER_Z: u8 = 122;

/// ASCII `_`, which joins the words of an identifier.
pub const UNDERSCORE: u8 = 95;

/// An ASCII decimal digit.
pub open spec fn is_digit(c: u8) -> bool {
    DIGIT_0 <= c && c <= DIGIT_9
}

/// An ASCII letter or digit; every other byte separates words.
pub open spec fn is_alnum(c: u8) -> bool {
    is_digit(c) || (LOWER_A <= c && c <= LOWER_Z) || (UPPER_A <= c && c <= UPPER_Z)
}

/// `c` in upper case if `up`, in lower case otherwise.
pub open spec fn cased(c: u8, up: bool) -> u8 {
    if up && LOWER_A <= c && c <= LOWER_Z {
        (c - 32) as u8
    } else if !up && UPPER_A <= c && c <= UPPER_Z {
        (c + 32) as u8
    } else {
        c
    }
}

/// The words of a name read from the left: what has been emitted so far, and
/// whether a separator is owed before the next letter or digit. Separators
/// before the first word are never owed, and one owed at the end is never paid.
pub open spec fn scan(s: Seq<u8>, up: bool) -> (Seq<u8>, bool)
    decreases s.len(),
{
    if s.len() == 0 {
        (Seq::empty(), false)
    } else {
        let before = scan(s.drop_last(), up);
        let c = s.last();
        if is_alnum(c) {
            if before.1 {
                (before.0.push(UNDERSCORE).push(cased(c, up)), false)
            } else {
                (before.0.push(cased(c, up)), false)
            }
        } else {
            (before.0, before.0.len() > 0)
        }
    }
}

/// The reserved words of the target language, each spelled in ASCII codes.
pub open spec fn reserved_words() -> Seq<Seq<u8>> {
    seq![
        // abstract
        seq![97u8, 98u8, 115u8, 116u8, 114u8, 97u8, 99u8, 116u8],
        // alignof
        seq![97u8, 108u8, 105u8, 103u8, 110u8, 111u8, 102u8],
        // as
        seq![97u8, 115u8],
        // async
        seq![97u8, 115u8, 121u8, 110u8, 99u8],
        // await
        seq![97u8, 119u8, 97u8, 105u8, 116u8],
        // become
        seq![98u8, 101u8, 99u8, 111u8, 109u8, 101u8],
        // box
        seq![98u8, 111u8, 120u8],
        // break
        seq![98u8, 114u8, 101u8, 97u8, 107u8],
        // const
        seq![99u8, 111u8, 110u8, 115u8, 116u8],
        // continue
        seq![99u8, 111u8, 110u8, 116u8, 105u8, 110u8, 117u8, 101u8],
        // crate
        seq![99u8, 114u8, 97u8, 116u8, 101u8],
        // do
        seq![100u8, 111u8],
        // else
        seq![101u8, 108u8, 115u8, 101u8],
        // enum
        seq![101u8, 110u8, 117u8, 109u8],
        // the foreign-linkage keyword
        seq![101u8, 120u8, 116u8, 101u8, 114u8, 110u8],
        // false
        seq![102u8, 97u8, 108u8, 115u8, 101u8],
        // final
        seq![102u8, 105u8, 110u8, 97u8, 108u8],
        // fn
        seq![102u8, 110u8],
        // for
        seq![102u8, 111u8, 114u8],
        // if
        seq![105u8, 102u8],
        // impl
        seq![105u8, 109u8, 112u8, 108u8],
        // in
        seq![105u8, 110u8],
        // let
        seq![108u8, 101u8, 116u8],
        // loop
        seq![108u8, 111u8, 111u8, 112u8],
        // macro
        seq![109u8, 97u8, 99u8, 114u8, 111u8],
        // match
        seq![109u8, 97u8, 116u8, 99u8, 104u8],
        // mod
        seq![109u8, 111u8, 100u8],
        // move
        seq![109u8, 111u8, 118u8, 101u8],
        // mut
        seq![109u8, 117u8, 116u8],
        // offsetof
        seq![111u8, 102u8, 102u8, 115u8, 101u8, 116u8, 111u8, 102u8],
        // override
        seq![111u8, 118u8, 101u8, 114u8, 114u8, 105u8, 100u8, 101u8],
        // priv
        seq![112u8, 114u8, 105u8, 118u8],
        // proc
        seq![112u8, 114u8, 111u8, 99u8],
        // pure
        seq![112u8, 117u8, 114u8, 101u8],
        // pub
        seq![112u8, 117u8, 98u8],
        // ref
        seq![114u8, 101u8, 102u8],
        // return
        seq![114u8, 101u8, 116u8, 117u8, 114u8, 110u8],
        // self
        seq![115u8, 101u8, 108u8, 102u8],
        // sizeof
        seq![115u8, 105u8, 122u8, 101u8, 111u8, 102u8],
        // static
        seq![115u8, 116u8, 97u8, 116u8, 105u8, 99u8],
        // struct
        seq![115u8, 116u8, 114u8, 117u8, 99u8, 116u8],
        // super
        seq![115u8, 117u8, 112u8, 101u8, 114u8],
        // trait
        seq![116u8, 114u8, 97u8, 105u8, 116u8],
        // true
        seq![116u8, 114u8, 117u8, 101u8],
        // type
        seq![116u8, 121u8, 112u8, 101u8],
        // typeof
        seq![116u8, 121u8, 112u8, 101u8, 111u8, 102u8],
        // unsafe
        seq![117u8, 110u8, 115u8, 97u8, 102u8, 101u8],
        // unsized
        seq![117u8, 110u8, 115u8, 105u8, 122u8, 101u8, 100u8],
        // use
        seq![117u8, 115u8, 101u8],
        // virtual
        seq![118u8, 105u8, 114u8, 116u8, 117u8, 97u8, 108u8],
        // where
        seq![119u8, 104u8, 101u8, 114u8, 101u8],
        // while
        seq![119u8, 104u8, 105u8, 108u8, 101u8],
        // yield
        seq![121u8, 105u8, 101u8, 108u8, 100u8],
    ]
}

/// `s` is a reserved word.
pub open spec fn is_reserved(s: Seq<u8>) -> bool {
    reserved_words().contains(s)
}

/// The identifier made from `s`.
pub open spec fn sanitized(s: Seq<u8>, up: bool) -> Seq<u8> {
    let body = scan(s, up).0;
    if (body.len() > 0 && is_digit(body[0])) || is_reserved(body) {
        seq![UNDERSCORE] + body
    } else {
        body
    }
}

/// What `scan` emits: letters and digits in the chosen case and underscores,
/// each underscore strictly inside and followed by something else.
pub open spec fn tidy(t: Seq<u8>, up: bool) -> bool {
    forall|i: int|
        #![trigger t[i]]
        0 <= i < t.len() ==> {
            &&& t[i] == UNDERSCORE || (is_alnum(t[i]) && cased(t[i], up) == t[i])
            &&& t[i] == UNDERSCORE ==> 0 < i && i + 1 < t.len() && t[i + 1] != UNDERSCORE
        }
}

fn keyword_table() -> (table: Vec<Vec<u8>>)
    ensures
        table@.len() == reserved_words().len(),
        forall|i: int| 0 <= i < table@.len() ==> #[trigger] table@[i]@ == reserved_words()[i],
{
    let table = vec![
        // abstract
        vec![97u8, 98u8, 115u8, 116u8, 114u8, 97u8, 99u8, 116u8],
        // alignof
        vec![97u8, 108u8, 105u8, 103u8, 110u8, 111u8, 102u8],
        // as
        vec![97u8, 115u8],
        // async
        vec![97u8, 115u8, 121u8, 110u8, 99u8],
        // await
        vec![97u8, 119u8, 97u8, 105u8, 116u8],
        // become
        vec![98u8, 101u8, 99u8, 111u8, 109u8, 101u8],
        // box
        vec![98u8, 111u8, 120u8],
        // break
        vec![98u8, 114u8, 101u8, 97u8, 107u8],
        // const
        vec![99u8, 111u8, 110u8, 115u8, 116u8],
        // continue
        vec![99u8, 111u8, 110u8, 116u8, 105u8, 110u8, 117u8, 101u8],
        // crate
        vec![99u8, 114u8, 97u8, 116u8, 101u8],
        // do
        vec![100u8, 111u8],
        // else
        vec![101u8, 108u8, 115u8, 101u8],
        // enum
        vec![101u8, 110u8, 117u8, 109u8],
        // the foreign-linkage keyword
        vec![101u8, 120u8, 116u8, 101u8, 114u8, 110u8],
        // false
        vec![102u8, 97u8, 108u8, 115u8, 101u8],
        // final
        vec![102u8, 105u8, 110u8, 97u8, 108u8],
        // fn
        vec![102u8, 110u8],
        // for
        vec![102u8, 111u8, 114u8],
        // if
        vec![105u8, 102u8],
        // impl
        vec![105u8, 109u8, 112u8, 108u8],
        // in
        vec![105u8, 110u8],
        // let
        vec![108u8, 101u8, 116u8],
        // loop
        vec![108u8, 111u8, 111u8, 112u8],
        // macro
        vec![109u8, 97u8, 99u8, 114u8, 111u8],
        // match
        vec![109u8, 97u8, 116u8, 99u8, 104u8],
        // mod
        vec![109u8, 111u8, 100u8],
        // move
        vec![109u8, 111u8, 118u8, 101u8],
        // mut
        vec![109u8, 117u8, 116u8],
        // offsetof
        vec![111u8, 102u8, 102u8, 115u8, 101u8, 116u8, 111u8, 102u8],
        // override
        vec![111u8, 118u8, 101u8, 114u8, 114u8, 105u8, 100u8, 101u8],
        // priv
        vec![112u8, 114u8, 105u8, 118u8],
        // proc
        vec![112u8, 114u8, 111u8, 99u8],
        // pure
        vec![112u8, 117u8, 114u8, 101u8],
        // pub
        vec![112u8, 117u8, 98u8],
        // ref
        vec![114u8, 101u8, 102u8],
        // return
        vec![114u8, 101u8, 116u8, 117u8, 114u8, 110u8],
        // self
        vec![115u8, 101u8, 108u8, 102u8],
        // sizeof
        vec![115u8, 105u8, 122u8, 101u8, 111u8, 102u8],
        // static
        vec![115u8, 116u8, 97u8, 116u8, 105u8, 99u8],
        // struct
        vec![115u8, 116u8, 114u8, 117u8, 99u8, 116u8],
        // super
        vec![115u8, 117u8, 112u8, 101u8, 114u8],
        // trait
        vec![116u8, 114u8, 97u8, 105u8, 116u8],
        // true
        vec![116u8, 114u8, 117u8, 101u8],
        // type
        vec![116u8, 121u8, 112u8, 101u8],
        // typeof
        vec![116u8, 121u8, 112u8, 101u8, 111u8, 102u8],
        // unsafe
        vec![117u8, 110u8, 115u8, 97u8, 102u8, 101u8],
        // unsized
        vec![117u8, 110u8, 115u8, 105u8, 122u8, 101u8, 100u8],
        // use
        vec![117u8, 115u8, 101u8],
        // virtual
        vec![118u8, 105u8, 114u8, 116u8, 117u8, 97u8, 108u8],
        // where
        vec![119u8, 104u8, 101u8, 114u8, 101u8],
        // while
        vec![119u8, 104u8, 105u8, 108u8, 101u8],
        // yield
        vec![121u8, 105u8, 101u8, 108u8, 100u8],
    ];
    assert forall|i: int| 0 <= i < table@.len() implies #[trigger] table@[i]@ == reserved_words()[i] by {
        assert(table@[i]@ =~= reserved_words()[i]);
    }
    table
}

/// Whether two byte strings are the same.
pub fn same_bytes(a: &[u8], b: &[u8]) -> (same: bool)
    ensures
        same == (a@ == b@),
{
    if a.len() != b.len() {
        return false;
    }
    let mut i: usize = 0;
    while i < a.len()
        invariant
            a@.len() == b@.len(),
            i <= a@.len(),
            forall|j: int| 0 <= j < i ==> a@[j] == b@[j],
        decreases a@.len() - i,
    {
        if a[i] != b[i] {
            return false;
        }
        i += 1;
    }
    assert(a@ =~= b@);
    true
}

/// Whether `name` is one of the reserved words.
pub fn reserved(name: &[u8]) -> (r: bool)
    ensures
        r == is_reserved(name@),
{
    let table = keyword_table();
    let mut i: usize = 0;
    while i < table.len()
        invariant
            i <= table@.len(),
            table@.len() == reserved_words().len(),
            forall|k: int| 0 <= k < table@.len() ==> #[trigger] table@[k]@ == reserved_words()[k],
            forall|k: int| 0 <= k < i ==> reserved_words()[k] != name@,
        decreases table@.len() - i,
    {
        if same_bytes(table[i].as_slice(), name) {
            assert(reserved_words()[i as int] == name@);
            return true;
        }
        i += 1;
    }
    false
}

fn alnum(c: u8) -> (r: bool)
    ensures
        r == is_alnum(c),
{
    (DIGIT_0 <= c && c <= DIGIT_9) || (LOWER_A <= c && c <= LOWER_Z) || (UPPER_A <= c && c <= UPPER_Z)
}

fn case_byte(c: u8, up: bool) -> (r: u8)
    ensures
        r == cased(c, up),
{
    if up && LOWER_A <= c && c <= LOWER_Z {
        c - 32
    } else if !up && UPPER_A <= c && c <= UPPER_Z {
        c + 32
    } else {
        c
    }
}

/// Makes an identifier of `name`: every run of bytes that are neither letters
/// nor digits becomes one underscore, none stays at either end, letters take
/// upper case if `up` and lower case otherwise, and a result that starts with
/// a digit or is a reserved word gets one underscore in front.
pub fn sanitize(name: &[u8], up: bool) -> (out: Vec<u8>)
    ensures
        out@ == sanitized(name@, up),
{
    let mut body: Vec<u8> = Vec::new();
    let mut gap: bool = false;
    let mut i: usize = 0;
    while i < name.len()
        invariant
            i <= name@.len(),
            (body@, gap) == scan(name@.take(i as int), up),
        decreases name@.len() - i,
    {
        let c: u8 = name[i];
        proof {
            assert(name@.take(i + 1).drop_last() =~= name@.take(i as int));
            assert(name@.take(i + 1).last() == c);
        }
        if alnum(c) {
            if gap {
                body.push(UNDERSCORE);
            }
            body.push(case_byte(c, up));
            gap = false;
        } else {
            gap = body.len() > 0;
        }
        i += 1;
    }
    assert(name@.take(i as int) =~= name@);
    if (body.len() > 0 && DIGIT_0 <= body[0] && body[0] <= DIGIT_9) || reserved(body.as_slice()) {
        let mut out: Vec<u8> = Vec::new();
        out.push(UNDERSCORE);
        let mut k: usize = 0;
        while k < body.len()
            invariant
                k <= body@.len(),
                out@ =~= seq![UNDERSCORE] + body@.take(k as int),
            decreases body@.len() - k,
        {
            out.push(body[k]);
            k += 1;
        }
        assert(body@.take(k as int) =~= body@);
        out
    } else {
        body
    }
}

/// The identifier of `name` in lower case with underscores.
pub fn to_sanitized_snake_case(name: &[u8]) -> (out: Vec<u8>)
    ensures
        out@ == sanitized(name@, false),
{
    sanitize(name, false)
}

/// The identifier of `name` in upper case with underscores.
pub fn to_sanitized_upper_case(name: &[u8]) -> (out: Vec<u8>)
    ensures
        out@ == sanitized(name@, true),
{
    sanitize(name, true)
}

/// Whatever `scan` has emitted is tidy, and a separator is owed only after
/// something was emitted.
pub proof fn lemma_scan_tidy(s: Seq<u8>, up: bool)
    ensures
        tidy(scan(s, up).0, up),
        scan(s, up).1 ==> scan(s, up).0.len() > 0,
    decreases s.len(),
{
    if s.len() > 0 {
        lemma_scan_tidy(s.drop_last(), up);
        let before = scan(s.drop_last(), up);
        let after = scan(s, up).0;
        let c = s.last();
        if is_alnum(c) {
            assert forall|i: int| 0 <= i < after.len() implies {
                &&& #[trigger] after[i] == UNDERSCORE || (is_alnum(after[i]) && cased(after[i], up)
                    == after[i])
                &&& after[i] == UNDERSCORE ==> 0 < i && i + 1 < after.len() && after[i + 1]
                    != UNDERSCORE
            } by {
                if i < before.0.len() {
                    assert(after[i] == before.0[i]);
                    if after[i] == UNDERSCORE {
                        assert(after[i + 1] == before.0[i + 1]);
                    }
                }
            }
        }
    }
}

/// On a tidy name `scan` changes nothing: after `n` bytes it has emitted those
/// bytes, but for an underscore just read, which it owes.
pub proof fn lemma_scan_of_tidy(t: Seq<u8>, up: bool, n: int)
    requires
        tidy(t, up),
        0 <= n <= t.len(),
    ensures
        scan(t.take(n), up) == if n > 0 && t[n - 1] == UNDERSCORE {
            (t.take(n - 1), true)
        } else {
            (t.take(n), false)
        },
    decreases n,
{
    if n > 0 {
        lemma_scan_of_tidy(t, up, n - 1);
        assert(t.take(n).drop_last() =~= t.take(n - 1));
        assert(t.take(n).last() == t[n - 1]);
        let c = t[n - 1];
        if is_alnum(c) {
            if n - 1 > 0 && t[n - 2] == UNDERSCORE {
                assert(t.take(n - 2).push(UNDERSCORE).push(c) =~= t.take(n));
            } else {
                assert(t.take(n - 1).push(c) =~= t.take(n));
            }
        } else {
            assert(c == UNDERSCORE);
            assert(n - 1 > 0);
            assert(t[n - 2] != UNDERSCORE);
            assert(t.take(n - 1).len() > 0);
        }
    } else {
        assert(t.take(0) =~= Seq::<u8>::empty());
    }
}

/// An underscore in front of a name leaves what `scan` makes of it unchanged.
pub proof fn lemma_scan_skips_lead(t: Seq<u8>, up: bool)
    ensures
        scan(seq![UNDERSCORE] + t, up) == scan(t, up),
    decreases t.len(),
{
    let led = seq![UNDERSCORE] + t;
    if t.len() == 0 {
        assert(led.drop_last() =~= Seq::<u8>::empty());
        assert(scan(led.drop_last(), up) == (Seq::<u8>::empty(), false));
    } else {
        lemma_scan_skips_lead(t.drop_last(), up);
        assert(led.drop_last() =~= seq![UNDERSCORE] + t.drop_last());
        assert(led.last() == t.last());
    }
}

/// Sanitising is idempotent: an identifier that came out of `sanitize` comes
/// out of it again unchanged, in the same case.
pub proof fn lemma_sanitize_idempotent(s: Seq<u8>, up: bool)
    ensures
        sanitized(sanitized(s, up), up) == sanitized(s, up),
{
    let body = scan(s, up).0;
    lemma_scan_tidy(s, up);
    lemma_scan_of_tidy(body, up, body.len() as int);
    assert(body.take(body.len() as int) =~= body);
    if body.len() > 0 {
        assert(body[body.len() - 1] != UNDERSCORE);
    }
    assert(scan(body, up).0 == body);
    lemma_scan_skips_lead(body, up);
}

/// Finds two equal byte strings in a list: the pair with the earliest second
/// member, and for it the earliest first.
pub fn first_repeat(idents: &Vec<Vec<u8>>) -> (r: Option<(usize, usize)>)
    ensures
        match r {
            Some((a, b)) => {
                &&& a < b < idents@.len()
                &&& idents@[a as int]@ == idents@[b as int]@
                &&& forall|x: int| 0 <= x < a ==> (#[trigger] idents@[x])@ != idents@[b as int]@
                &&& forall|x: int, y: int|
                    0 <= x < y < b ==> (#[trigger] idents@[x])@ != (#[trigger] idents@[y])@
            },
            None => forall|a: int, b: int|
                0 <= a < b < idents@.len() ==> (#[trigger] idents@[a])@ != (#[trigger] idents@[b])@,
        },
{
    let mut b: usize = 0;
    while b < idents.len()
        invariant
            b <= idents@.len(),
            forall|x: int, y: int|
                0 <= x < y < b ==> (#[trigger] idents@[x])@ != (#[trigger] idents@[y])@,
        decreases idents@.len() - b,
    {
        let mut a: usize = 0;
        while a < b
            invariant
                a <= b,
                b < idents@.len(),
                forall|x: int| 0 <= x < a ==> (#[trigger] idents@[x])@ != idents@[b as int]@,
                forall|x: int, y: int|
                    0 <= x < y < b ==> (#[trigger] idents@[x])@ != (#[trigger] idents@[y])@,
            decreases b - a,
        {
            if same_bytes(idents[a].as_slice(), idents[b].as_slice()) {
                return Some((a, b));
            }
            a += 1;
        }
        b += 1;
    }
    None
}

/// Checks that no two of `names` become the same identifier. The names pass
/// exactly when their identifiers all differ; otherwise the error names two
/// that meet, the earlier first.
pub fn check_collisions(names: &Vec<Vec<u8>>, up: bool) -> (r: Result<(), Error>)
    ensures
        match r {
            Ok(_) => forall|i: int, j: int|
                0 <= i < j < names@.len() ==> sanitized(#[trigger] names@[i]@, up) != sanitized(
                    #[trigger] names@[j]@,
                    up,
                ),
            Err(Error::Collision(i, j)) => i < j < names@.len() && sanitized(names@[i as int]@, up)
                == sanitized(names@[j as int]@, up),
            Err(_) => false,
        },
{
    let mut made: Vec<Vec<u8>> = Vec::new();
    let mut j: usize = 0;
    while j < names.len()
        invariant
            j <= names@.len(),
            made@.len() == j,
            forall|k: int| 0 <= k < j ==> (#[trigger] made@[k])@ == sanitized(names@[k]@, up),
        decreases names@.len() - j,
    {
        made.push(sanitize(names[j].as_slice(), up));
        j += 1;
    }
    match first_repeat(&made) {
        Some((a, b)) => Err(Error::Collision(a, b)),
        None => {
            assert forall|i: int, j: int| 0 <= i < j < names@.len() implies sanitized(
                #[trigger] names@[i]@,
                up,
            ) != sanitized(#[trigger] names@[j]@, up) by {
                assert(made@[i]@ != made@[j]@);
            }
            Ok(())
        },
    }
}

} // verus!
