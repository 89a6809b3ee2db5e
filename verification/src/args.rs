//! The session's command-line values: decimal numbers, `WIDTHxHEIGHT`
//! sizes, keycode lists, local X display names and `key=value` arguments.
//! Numbers follow `str::parse`: an optional sign, then at least one ASCII
//! digit, within the range of the target type.

use std::collections::BTreeSet;
use vstd::prelude::*;
use vstd::string::StringSliceAdditionalSpecFns;
use vstd::string::StrSliceExecFns;

use crate::protocol::Size;

verus! {

broadcast use vstd::seq_lib::group_seq_properties;

/// Why a command-line value was refused.
#[derive(Clone, Copy, Debug, PartialEq, Eq, Structural)]
pub enum ArgError {
    /// Not a number of the expected type.
    InvalidNumber,
    /// A size without the `x` between width and height.
    InvalidSize,
    /// A keycode list with no keycode, more than 32, or keycode 0.
    KeycodesOutOfRange,
    /// A display that is not `:` followed by digits.
    InvalidDisplay,
    /// A display number above 65535.
    DisplayOutOfRange,
    /// An argument that was required and not given.
    MissingArgument,
    /// A path that does not start at the root.
    NotAbsolute,
}

pub open spec fn is_digit(b: u8) -> bool {
    48 <= b && b <= 57
}

pub open spec fn all_digits(s: Seq<u8>) -> bool {
    forall|i: int| 0 <= i < s.len() ==> is_digit(#[trigger] s[i])
}

/// The value of a run of decimal digits.
pub open spec fn decimal_value(s: Seq<u8>) -> nat
    decreases s.len(),
{
    if s.len() == 0 {
        0
    } else {
        decimal_value(s.drop_last()) * 10 + (s.last() - 48) as nat
    }
}

/// At least one digit, all digits, and a value of at most `max`.
pub open spec fn digits_within(d: Seq<u8>, max: nat) -> bool {
    d.len() > 0 && all_digits(d) && decimal_value(d) <= max
}

/// What `str::parse` gives for an unsigned type whose largest value is
/// `max`: an optional `+`, then digits.
pub open spec fn spec_parse_unsigned(s: Seq<u8>, max: nat) -> Option<nat> {
    let d = if s.len() > 0 && s[0] == 43u8 {
        s.drop_first()
    } else {
        s
    };
    if digits_within(d, max) {
        Some(decimal_value(d))
    } else {
        None
    }
}

/// What `str::parse::<i32>` gives: an optional sign, then digits, in range.
#[verifier::opaque]
pub open spec fn spec_parse_i32(s: Seq<u8>) -> Option<int> {
    if s.len() > 0 && s[0] == 45u8 {
        if digits_within(s.drop_first(), 0x8000_0000) {
            Some(-(decimal_value(s.drop_first()) as int))
        } else {
            None
        }
    } else {
        match spec_parse_unsigned(s, 0x7fff_ffff) {
            Some(v) => Some(v as int),
            None => None,
        }
    }
}

/// A longer run of digits is worth at least as much as its prefix.
pub proof fn lemma_decimal_prefix_le(d: Seq<u8>, k: int)
    requires
        0 <= k <= d.len(),
        all_digits(d),
    ensures
        decimal_value(d.subrange(0, k)) <= decimal_value(d),
    decreases d.len() - k,
{
    if k < d.len() {
        lemma_decimal_prefix_le(d, k + 1);
        assert(d.subrange(0, k + 1).drop_last() =~= d.subrange(0, k));
    } else {
        assert(d.subrange(0, k) =~= d);
    }
}

/// The digits `bytes[start..end]`, when they are at least one digit and
/// worth at most `max`.
fn parse_digits(bytes: &[u8], start: usize, end: usize, max: u64) -> (value: Option<u64>)
    requires
        start <= end <= bytes@.len(),
    ensures
        match value {
            Some(v) => digits_within(bytes@.subrange(start as int, end as int), max as nat) && v as nat
                == decimal_value(bytes@.subrange(start as int, end as int)),
            None => !digits_within(bytes@.subrange(start as int, end as int), max as nat),
        },
{
    if start == end {
        return None;
    }
    let ghost d = bytes@.subrange(start as int, end as int);
    let mut acc: u64 = 0;
    let mut i: usize = start;
    while i < end
        invariant
            start <= i <= end <= bytes@.len(),
            d == bytes@.subrange(start as int, end as int),
            all_digits(d.subrange(0, i - start)),
            acc as nat == decimal_value(d.subrange(0, i - start)),
            acc <= max,
        decreases end - i,
    {
        let b = bytes[i];
        if b < 48 || b > 57 {
            assert(d[i - start] == b);
            return None;
        }
        let ghost next = d.subrange(0, i - start + 1);
        assert(next.drop_last() =~= d.subrange(0, i - start));
        assert(next.last() == b);
        let wide: u128 = (acc as u128) * 10 + ((b - 48) as u128);
        assert(wide == decimal_value(next));
        if wide > max as u128 {
            proof {
                if all_digits(d) {
                    lemma_decimal_prefix_le(d, i - start + 1);
                }
            }
            return None;
        }
        acc = wide as u64;
        i = i + 1;
    }
    assert(d.subrange(0, end - start) =~= d);
    Some(acc)
}

/// `bytes[start..end]` read as an unsigned number of at most `max`.
fn parse_unsigned(bytes: &[u8], start: usize, end: usize, max: u64) -> (value: Option<u64>)
    requires
        start <= end <= bytes@.len(),
    ensures
        match value {
            Some(v) => spec_parse_unsigned(bytes@.subrange(start as int, end as int), max as nat) == Some(
                v as nat,
            ),
            None => spec_parse_unsigned(bytes@.subrange(start as int, end as int), max as nat) is None,
        },
{
    let ghost s = bytes@.subrange(start as int, end as int);
    if start < end && bytes[start] == 43 {
        assert(s.drop_first() =~= bytes@.subrange(start + 1, end as int));
        parse_digits(bytes, start + 1, end, max)
    } else {
        parse_digits(bytes, start, end, max)
    }
}

/// `bytes[start..end]` read as an `i32`.
fn parse_i32(bytes: &[u8], start: usize, end: usize) -> (value: Option<i32>)
    requires
        start <= end <= bytes@.len(),
    ensures
        match value {
            Some(v) => spec_parse_i32(bytes@.subrange(start as int, end as int)) == Some(v as int),
            None => spec_parse_i32(bytes@.subrange(start as int, end as int)) is None,
        },
{
    reveal(spec_parse_i32);
    let ghost s = bytes@.subrange(start as int, end as int);
    if start < end && bytes[start] == 45 {
        assert(s.drop_first() =~= bytes@.subrange(start + 1, end as int));
        match parse_digits(bytes, start + 1, end, 0x8000_0000) {
            Some(v) => {
                let negative: i64 = 0i64 - (v as i64);
                Some(negative as i32)
            },
            None => None,
        }
    } else {
        match parse_unsigned(bytes, start, end, 0x7fff_ffff) {
            Some(v) => Some(v as i32),
            None => None,
        }
    }
}

/// A `u64` as `str::parse::<u64>` reads it.
pub fn parse_u64(value: &str) -> (parsed: Result<u64, ArgError>)
    ensures
        match parsed {
            Ok(v) => spec_parse_unsigned(value.spec_bytes(), u64::MAX as nat) == Some(v as nat),
            Err(e) => e == ArgError::InvalidNumber && spec_parse_unsigned(value.spec_bytes(), u64::MAX as nat)
                is None,
        },
{
    let bytes = value.as_bytes();
    assert(bytes@.subrange(0, bytes@.len() as int) =~= bytes@);
    match parse_unsigned(bytes, 0, bytes.len(), u64::MAX) {
        Some(v) => Ok(v),
        None => Err(ArgError::InvalidNumber),
    }
}

/// A `usize` as `str::parse::<usize>` reads it.
pub fn parse_usize(value: &str) -> (parsed: Result<usize, ArgError>)
    ensures
        match parsed {
            Ok(v) => spec_parse_unsigned(value.spec_bytes(), usize::MAX as nat) == Some(v as nat),
            Err(e) => e == ArgError::InvalidNumber && spec_parse_unsigned(
                value.spec_bytes(),
                usize::MAX as nat,
            ) is None,
        },
{
    let bytes = value.as_bytes();
    assert(bytes@.subrange(0, bytes@.len() as int) =~= bytes@);
    match parse_unsigned(bytes, 0, bytes.len(), usize::MAX as u64) {
        Some(v) => Ok(v as usize),
        None => Err(ArgError::InvalidNumber),
    }
}

/// The index of the first `b` in `s`, if any.
#[verifier::opaque]
pub open spec fn first_index_of(s: Seq<u8>, b: u8) -> Option<int> {
    if exists|i: int| 0 <= i < s.len() && s[i] == b {
        Some(choose|i: int| 0 <= i < s.len() && s[i] == b && forall|j: int| 0 <= j < i ==> s[j] != b)
    } else {
        None
    }
}

/// The first position of `b` in `bytes[start..end]`.
pub(crate) fn find_byte(bytes: &[u8], start: usize, end: usize, b: u8) -> (index: Option<usize>)
    requires
        start <= end <= bytes@.len(),
    ensures
        match index {
            Some(k) => start <= k < end && first_index_of(bytes@.subrange(start as int, end as int), b) == Some(
                k - start,
            ),
            None => first_index_of(bytes@.subrange(start as int, end as int), b) is None,
        },
{
    reveal(first_index_of);
    let ghost s = bytes@.subrange(start as int, end as int);
    let mut i: usize = start;
    while i < end
        invariant
            start <= i <= end <= bytes@.len(),
            s == bytes@.subrange(start as int, end as int),
            forall|j: int| 0 <= j < i - start ==> s[j] != b,
        decreases end - i,
    {
        if bytes[i] == b {
            proof {
                reveal(first_index_of);
                let k = i - start;
                assert(s[k] == b);
                let c = choose|c: int| 0 <= c < s.len() && s[c] == b && forall|j: int| 0 <= j < c ==> s[j] != b;
                assert(0 <= c < s.len() && s[c] == b && forall|j: int| 0 <= j < c ==> s[j] != b);
                if c < k {
                } else if c > k {
                    assert(s[k] != b);
                }
            }
            return Some(i);
        }
        i = i + 1;
    }
    None
}

/// What `parse_size` gives: the text before the first `x` and the text
/// after it, each read as an `i32`.
pub open spec fn spec_parse_size(s: Seq<u8>) -> Result<Size, ArgError> {
    match first_index_of(s, 120u8) {
        None => Err(ArgError::InvalidSize),
        Some(k) => match (spec_parse_i32(s.subrange(0, k)), spec_parse_i32(s.subrange(k + 1, s.len() as int))) {
            (Some(w), Some(h)) => Ok(Size { width: w as i32, height: h as i32 }),
            _ => Err(ArgError::InvalidNumber),
        },
    }
}

/// A `WIDTHxHEIGHT` size.
pub fn parse_size(value: &str) -> (size: Result<Size, ArgError>)
    ensures
        size == spec_parse_size(value.spec_bytes()),
{
    let bytes = value.as_bytes();
    let ghost s = bytes@;
    assert(s.subrange(0, s.len() as int) =~= s);
    let k = match find_byte(bytes, 0, bytes.len(), 120) {
        Some(k) => k,
        None => {
            assert(spec_parse_size(s) == Err::<Size, ArgError>(ArgError::InvalidSize));
            return Err(ArgError::InvalidSize);
        },
    };
    assert(first_index_of(s, 120u8) == Some(k as int));
    let width = parse_i32(bytes, 0, k);
    let height = parse_i32(bytes, k + 1, bytes.len());
    let ghost ws = spec_parse_i32(s.subrange(0, k as int));
    let ghost hs = spec_parse_i32(s.subrange(k + 1, s.len() as int));
    match (width, height) {
        (Some(w), Some(h)) => {
            assert(ws == Some(w as int) && hs == Some(h as int));
            assert(spec_parse_size(s) == Ok::<Size, ArgError>(Size { width: w, height: h }));
            Ok(Size { width: w, height: h })
        },
        _ => {
            assert(ws is None || hs is None);
            assert(spec_parse_size(s) == Err::<Size, ArgError>(ArgError::InvalidNumber));
            Err(ArgError::InvalidNumber)
        },
    }
}

/// `s` split at every `sep`, as `str::split` splits it: `n` separators
/// give `n + 1` pieces, empty ones included.
pub open spec fn split_on<T>(s: Seq<T>, sep: T) -> Seq<Seq<T>>
    decreases s.len(),
{
    if s.len() == 0 {
        seq![Seq::empty()]
    } else {
        let r = split_on(s.drop_last(), sep);
        if s.last() == sep {
            r.push(Seq::empty())
        } else {
            r.update(r.len() - 1, r.last().push(s.last()))
        }
    }
}

pub proof fn lemma_split_on_nonempty<T>(s: Seq<T>, sep: T)
    ensures
        split_on(s, sep).len() >= 1,
    decreases s.len(),
{
    if s.len() > 0 {
        lemma_split_on_nonempty(s.drop_last(), sep);
    }
}

/// The keycodes of the non-empty pieces, or none when one is not a `u32`.
pub open spec fn parse_keycode_pieces(pieces: Seq<Seq<u8>>) -> Option<Set<u32>>
    decreases pieces.len(),
{
    if pieces.len() == 0 {
        Some(Set::empty())
    } else {
        match parse_keycode_pieces(pieces.drop_last()) {
            None => None,
            Some(set) => if pieces.last().len() == 0 {
                Some(set)
            } else {
                match spec_parse_unsigned(pieces.last(), u32::MAX as nat) {
                    Some(v) => Some(set.insert(v as u32)),
                    None => None,
                }
            },
        }
    }
}

pub proof fn lemma_keycode_pieces_finite(pieces: Seq<Seq<u8>>)
    ensures
        parse_keycode_pieces(pieces) matches Some(set) ==> set.finite(),
    decreases pieces.len(),
{
    if pieces.len() > 0 {
        lemma_keycode_pieces_finite(pieces.drop_last());
    }
}

/// What `parse_keycodes` gives: the distinct keycodes of the comma-separated
/// list, empty items skipped; between 1 and 32 of them, none zero.
pub open spec fn spec_parse_keycodes(s: Seq<u8>) -> Result<Set<u32>, ArgError> {
    match parse_keycode_pieces(split_on(s, 44u8)) {
        None => Err(ArgError::InvalidNumber),
        Some(set) => if set.len() == 0 || set.len() > 32 || set.contains(0) {
            Err(ArgError::KeycodesOutOfRange)
        } else {
            Ok(set)
        },
    }
}

/// Strictly increasing.
pub open spec fn increasing(s: Seq<u32>) -> bool {
    forall|i: int, j: int| 0 <= i < j < s.len() ==> s[i] < s[j]
}

/// `u32` keys order as the integers do, so the ordered collections of std
/// keep them as vstd specifies.
pub open spec fn u32_keys_ordered() -> bool {
    vstd::laws_cmp::obeys_cmp::<u32>()
}

pub proof fn lemma_u32_keys_ordered()
    ensures
        u32_keys_ordered(),
{
    broadcast use vstd::laws_cmp::group_laws_cmp;

}

/// The keycodes of a set, in increasing order.
pub fn keycodes_in_order(keycodes: &BTreeSet<u32>) -> (ordered: Vec<u32>)
    ensures
        increasing(ordered@),
        ordered@.to_set() == keycodes@,
{
    broadcast use vstd::std_specs::btree::group_btree_axioms;
    broadcast use vstd::laws_cmp::group_laws_cmp;

    assert(vstd::laws_cmp::obeys_cmp::<u32>());
    let mut ordered: Vec<u32> = Vec::new();
    let it = keycodes.iter();
    let ghost keys = vstd::std_specs::iter::IteratorSpec::remaining(&it).unref();
    proof {
        vstd::std_specs::btree::axiom_spec_btree_keys_iter(keycodes);
    }
    for k in iter: it
        invariant
            keys == vstd::std_specs::iter::IteratorSpec::remaining(&it).unref(),
            vstd::std_specs::btree::increasing_seq(vstd::std_specs::iter::IteratorSpec::remaining(&it)),
            keys.to_set() == keycodes@,
            iter.seq() == vstd::std_specs::iter::IteratorSpec::remaining(&it),
            ordered@.len() == iter.index(),
            forall|i: int| 0 <= i < iter.index() ==> ordered@[i] == keys[i],
    {
        ordered.push(*k);
    }
    proof {
        assert(ordered@ =~= keys);
        assert(vstd::laws_cmp::obeys_cmp::<&u32>());
        vstd::std_specs::btree::axiom_increasing_seq_meaning::<&u32>(
            vstd::std_specs::iter::IteratorSpec::remaining(&it),
        );
        assert forall|i: int, j: int| 0 <= i < j < ordered@.len() implies ordered@[i] < ordered@[j] by {
            let r = vstd::std_specs::iter::IteratorSpec::remaining(&it);
            assert(vstd::std_specs::cmp::OrdSpec::cmp_spec(&r[i], &r[j]) is Less);
            assert(*r[i] == keys[i] && *r[j] == keys[j]);
        }
    }
    ordered
}

/// Adds `x`, keeping the vector strictly increasing.
pub(crate) fn insert_increasing(v: &mut Vec<u32>, x: u32)
    requires
        increasing(old(v)@),
    ensures
        increasing(final(v)@),
        final(v)@.to_set() == old(v)@.to_set().insert(x),
{
    let mut i: usize = 0;
    while i < v.len() && v[i] < x
        invariant
            i <= v@.len(),
            v@ == old(v)@,
            increasing(v@),
            forall|j: int| 0 <= j < i ==> v@[j] < x,
        decreases v@.len() - i,
    {
        i = i + 1;
    }
    if i < v.len() && v[i] == x {
        assert(v@.to_set().insert(x) =~= v@.to_set()) by {
            assert(v@.contains(x));
        }
        return;
    }
    let ghost before = v@;
    v.insert(i, x);
    assert(v@ == before.insert(i as int, x));
    assert(v@.to_set() =~= before.to_set().insert(x)) by {
        assert forall|y: u32| v@.to_set().contains(y) implies before.to_set().insert(x).contains(y) by {
            let k = choose|k: int| 0 <= k < v@.len() && v@[k] == y;
            if k < i {
                assert(before[k] == y);
            } else if k > i {
                assert(before[k - 1] == y);
            }
        }
        assert forall|y: u32| before.to_set().insert(x).contains(y) implies v@.to_set().contains(y) by {
            if y == x {
                assert(v@[i as int] == x);
            } else {
                let k = choose|k: int| 0 <= k < before.len() && before[k] == y;
                if k < i {
                    assert(v@[k] == y);
                } else {
                    assert(v@[k + 1] == y);
                }
            }
        }
    }
}

/// The set of keycodes of a comma-separated list.
pub fn parse_keycodes(value: &str) -> (keycodes: Result<BTreeSet<u32>, ArgError>)
    ensures
        match keycodes {
            Ok(v) => spec_parse_keycodes(value.spec_bytes()) == Ok::<Set<u32>, ArgError>(v@),
            Err(e) => spec_parse_keycodes(value.spec_bytes()) == Err::<Set<u32>, ArgError>(e),
        },
{
    broadcast use vstd::std_specs::btree::group_btree_axioms;

    proof {
        lemma_u32_keys_ordered();
    }
    let bytes = value.as_bytes();
    let ghost s = bytes@;
    let mut set: BTreeSet<u32> = BTreeSet::new();
    let mut failed = false;
    let mut start: usize = 0;
    let mut i: usize = 0;
    let ghost mut done: Seq<Seq<u8>> = Seq::empty();
    assert(s.subrange(0, 0) =~= Seq::<u8>::empty());
    while i < bytes.len()
        invariant
            s == bytes@,
            start <= i <= bytes@.len(),
            split_on(s.subrange(0, i as int), 44u8) == done.push(s.subrange(start as int, i as int)),
            !failed ==> parse_keycode_pieces(done) == Some(set@),
            failed ==> parse_keycode_pieces(done) is None,
            u32_keys_ordered(),
        decreases bytes@.len() - i,
    {
        let ghost prefix = s.subrange(0, i as int);
        assert(s.subrange(0, i + 1).drop_last() =~= prefix);
        assert(s.subrange(0, i + 1).last() == s[i as int]);
        if bytes[i] == 44 {
            let ghost piece = s.subrange(start as int, i as int);
            assert(done.push(piece).drop_last() =~= done);
            if !failed && start < i {
                match parse_unsigned(bytes, start, i, u32::MAX as u64) {
                    Some(v) => {
                        set.insert(v as u32);
                    },
                    None => {
                        failed = true;
                    },
                }
            }
            proof {
                done = done.push(piece);
            }
            start = i + 1;
            assert(s.subrange(start as int, start as int) =~= Seq::<u8>::empty());
        } else {
            assert(s.subrange(start as int, i + 1) =~= s.subrange(start as int, i as int).push(s[i as int]));
            assert(done.push(s.subrange(start as int, i as int)).update(
                done.len() as int,
                s.subrange(start as int, i + 1),
            ) =~= done.push(s.subrange(start as int, i + 1)));
        }
        i = i + 1;
    }
    assert(s.subrange(0, s.len() as int) =~= s);
    let ghost last = s.subrange(start as int, s.len() as int);
    assert(done.push(last).drop_last() =~= done);
    if !failed && start < bytes.len() {
        match parse_unsigned(bytes, start, bytes.len(), u32::MAX as u64) {
            Some(v) => {
                        set.insert(v as u32);
                    },
            None => {
                failed = true;
            },
        }
    }
    if failed {
        return Err(ArgError::InvalidNumber);
    }
    proof {
        lemma_keycode_pieces_finite(done.push(last));
    }
    if set.len() == 0 || set.len() > 32 || set.contains(&0) {
        return Err(ArgError::KeycodesOutOfRange);
    }
    Ok(set)
}

/// What `parse_display_number` gives for a local X display `:N`.
pub open spec fn spec_parse_display_number(s: Seq<u8>) -> Result<u32, ArgError> {
    if s.len() >= 2 && s[0] == 58u8 && all_digits(s.drop_first()) {
        if decimal_value(s.drop_first()) > u32::MAX as nat {
            Err(ArgError::InvalidNumber)
        } else if decimal_value(s.drop_first()) > 65535 {
            Err(ArgError::DisplayOutOfRange)
        } else {
            Ok(decimal_value(s.drop_first()) as u32)
        }
    } else {
        Err(ArgError::InvalidDisplay)
    }
}

/// The number of a local X display written `:N`, at most 65535.
pub fn parse_display_number(display: &str) -> (number: Result<u32, ArgError>)
    ensures
        number == spec_parse_display_number(display.spec_bytes()),
{
    let bytes = display.as_bytes();
    let ghost s = bytes@;
    if bytes.len() < 2 || bytes[0] != 58 {
        return Err(ArgError::InvalidDisplay);
    }
    let ghost rest = s.drop_first();
    assert(rest =~= s.subrange(1, s.len() as int));
    let mut i: usize = 1;
    while i < bytes.len()
        invariant
            1 <= i <= bytes@.len(),
            s == bytes@,
            s == display.spec_bytes(),
            rest == s.drop_first(),
            forall|j: int| 0 <= j < i - 1 ==> is_digit(#[trigger] rest[j]),
        decreases bytes@.len() - i,
    {
        if bytes[i] < 48 || bytes[i] > 57 {
            assert(rest[i - 1] == bytes@[i as int]);
            return Err(ArgError::InvalidDisplay);
        }
        i = i + 1;
    }
    assert(all_digits(rest));
    match parse_digits(bytes, 1, bytes.len(), u32::MAX as u64) {
        Some(v) => {
            if v > 65535 {
                Err(ArgError::DisplayOutOfRange)
            } else {
                Ok(v as u32)
            }
        },
        None => Err(ArgError::InvalidNumber),
    }
}

/// Whether `arg` starts with `prefix`.
pub open spec fn has_prefix(arg: Seq<char>, prefix: Seq<char>) -> bool {
    prefix.len() <= arg.len() && arg.subrange(0, prefix.len() as int) == prefix
}

/// The index of the first argument that starts with `prefix`.
#[verifier::opaque]
pub open spec fn first_with_prefix(args: Seq<Seq<char>>, prefix: Seq<char>) -> Option<int> {
    if exists|i: int| 0 <= i < args.len() && has_prefix(args[i], prefix) {
        Some(
            choose|i: int|
                0 <= i < args.len() && has_prefix(args[i], prefix) && forall|j: int|
                    0 <= j < i ==> !has_prefix(#[trigger] args[j], prefix),
        )
    } else {
        None
    }
}

pub open spec fn arg_texts(args: Seq<String>) -> Seq<Seq<char>> {
    args.map_values(|a: String| a@)
}

/// What `arg_value` gives: the rest of the first argument that starts
/// with `key=`.
pub open spec fn spec_arg_value(args: Seq<Seq<char>>, key: Seq<char>) -> Option<Seq<char>> {
    match first_with_prefix(args, key.push('=')) {
        Some(i) => Some(args[i].subrange((key.len() + 1) as int, args[i].len() as int)),
        None => None,
    }
}

/// Whether `arg` starts with `key=`.
fn starts_with_key(arg: &str, key: &str) -> (found: bool)
    ensures
        found == has_prefix(arg@, key@.push('=')),
{
    let key_len = key.unicode_len();
    let arg_len = arg.unicode_len();
    if key_len >= arg_len {
        return false;
    }
    let ghost prefix = key@.push('=');
    let mut i: usize = 0;
    while i < key_len
        invariant
            key_len == key@.len(),
            arg_len == arg@.len(),
            key_len < arg_len,
            prefix == key@.push('='),
            i <= key_len,
            forall|j: int| 0 <= j < i ==> arg@[j] == prefix[j],
        decreases key_len - i,
    {
        if arg.get_char(i) != key.get_char(i) {
            proof {
                assert(arg@.subrange(0, prefix.len() as int)[i as int] != prefix[i as int]);
            }
            return false;
        }
        i = i + 1;
    }
    if arg.get_char(key_len) != '=' {
        assert(arg@.subrange(0, prefix.len() as int)[key_len as int] != prefix[key_len as int]);
        return false;
    }
    assert(arg@.subrange(0, prefix.len() as int) =~= prefix);
    true
}

/// The value of the first `key=value` argument.
pub fn arg_value(args: &[String], key: &str) -> (value: Option<String>)
    ensures
        match value {
            Some(v) => spec_arg_value(arg_texts(args@), key@) == Some(v@),
            None => spec_arg_value(arg_texts(args@), key@) is None,
        },
{
    let ghost texts = arg_texts(args@);
    let ghost prefix = key@.push('=');
    let mut i: usize = 0;
    while i < args.len()
        invariant
            i <= args@.len(),
            texts == arg_texts(args@),
            texts.len() == args@.len(),
            prefix == key@.push('='),
            forall|j: int| 0 <= j < i ==> !has_prefix(#[trigger] texts[j], prefix),
        decreases args@.len() - i,
    {
        let arg = args[i].as_str();
        if starts_with_key(arg, key) {
            proof {
                reveal(first_with_prefix);
                assert(has_prefix(texts[i as int], prefix));
                let c = choose|c: int|
                    0 <= c < texts.len() && has_prefix(texts[c], prefix) && forall|j: int|
                        0 <= j < c ==> !has_prefix(#[trigger] texts[j], prefix);
                assert(0 <= c < texts.len() && has_prefix(texts[c], prefix) && forall|j: int|
                    0 <= j < c ==> !has_prefix(#[trigger] texts[j], prefix));
                if c < i {
                } else if c > i {
                    assert(!has_prefix(texts[i as int], prefix));
                }
            }
            let arg_len = arg.unicode_len();
            let key_len = key.unicode_len();
            let rest = arg.substring_char(key_len + 1, arg_len);
            return Some(rest.to_owned());
        }
        i = i + 1;
    }
    proof {
        reveal(first_with_prefix);
    }
    None
}

/// The value of the `name=PATH` argument, which must start at the root.
pub fn required_absolute_path(args: &[String], name: &str) -> (path: Result<String, ArgError>)
    ensures
        match spec_arg_value(arg_texts(args@), name@) {
            None => path == Err::<String, ArgError>(ArgError::MissingArgument),
            Some(v) => if v.len() > 0 && v[0] == '/' {
                path matches Ok(p) && p@ == v
            } else {
                path == Err::<String, ArgError>(ArgError::NotAbsolute)
            },
        },
{
    match arg_value(args, name) {
        None => Err(ArgError::MissingArgument),
        Some(value) => {
            if value.as_str().unicode_len() > 0 && value.as_str().get_char(0) == '/' {
                Ok(value)
            } else {
                Err(ArgError::NotAbsolute)
            }
        },
    }
}

} // verus!
