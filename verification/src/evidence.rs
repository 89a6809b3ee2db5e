//! Checking the evidence lines a live scanout run prints: a clean run
//! submits exactly one frame and retires it, each line carrying exactly the
//! expected `key=value` fields in any order, and never needs a cleanup.

use vstd::prelude::*;
use vstd::string::StringSliceAdditionalSpecFns;
use vstd::utf8::encode_utf8;

use crate::args::{find_byte, first_index_of};

verus! {

broadcast use vstd::seq_lib::group_seq_properties;

pub const SUBMIT_PREFIX: &'static str = "sophia_runtime_rendered_scanout_submit";

pub const RETIRE_PREFIX: &'static str = "sophia_runtime_rendered_scanout_retire";

pub const CLEANUP_PREFIX: &'static str = "sophia_runtime_rendered_scanout_cleanup";

/// The fields of a clean submit line.
pub open spec fn spec_clean_submit_fields() -> Seq<(&'static str, &'static str)> {
    seq![
        ("schema", "3"),
        ("status", "SubmittedWaitingForPageFlip"),
        ("scanout_target", "Ready"),
        ("output_size", "1280x720"),
        ("target", "Ready"),
        ("target_size", "1280x720"),
        ("export", "Exported"),
        ("scanout_buffer", "Ready"),
        ("properties", "Discovered"),
        ("resources", "Created"),
        ("request", "Built"),
        ("submit", "SubmittedWaitingForPageFlip"),
        ("request_scope", "PageFlip"),
        ("commit_page_flip_event", "true"),
        ("commit_nonblocking", "true"),
        ("commit_allow_modeset", "false"),
        ("commit_test_only", "false"),
        ("commit_submit", "Submitted"),
        ("runtime_scanout_state", "Submitted"),
        ("in_flight", "true"),
        ("in_flight_ticks", "0"),
        ("cleanup_pending", "false"),
    ]
}

/// The fields of a clean retire line.
pub open spec fn spec_clean_retire_fields() -> Seq<(&'static str, &'static str)> {
    seq![
        ("schema", "1"),
        ("status", "RetiredAfterPageFlip"),
        ("destroy", "Destroyed"),
        ("runtime_scanout_state", "Retired"),
        ("in_flight", "false"),
        ("in_flight_ticks", "0"),
        ("cleanup_pending", "false"),
    ]
}

pub fn clean_submit_fields() -> (fields: Vec<(&'static str, &'static str)>)
    ensures
        fields@ == spec_clean_submit_fields(),
{
    vec![
        ("schema", "3"),
        ("status", "SubmittedWaitingForPageFlip"),
        ("scanout_target", "Ready"),
        ("output_size", "1280x720"),
        ("target", "Ready"),
        ("target_size", "1280x720"),
        ("export", "Exported"),
        ("scanout_buffer", "Ready"),
        ("properties", "Discovered"),
        ("resources", "Created"),
        ("request", "Built"),
        ("submit", "SubmittedWaitingForPageFlip"),
        ("request_scope", "PageFlip"),
        ("commit_page_flip_event", "true"),
        ("commit_nonblocking", "true"),
        ("commit_allow_modeset", "false"),
        ("commit_test_only", "false"),
        ("commit_submit", "Submitted"),
        ("runtime_scanout_state", "Submitted"),
        ("in_flight", "true"),
        ("in_flight_ticks", "0"),
        ("cleanup_pending", "false"),
    ]
}

pub fn clean_retire_fields() -> (fields: Vec<(&'static str, &'static str)>)
    ensures
        fields@ == spec_clean_retire_fields(),
{
    vec![
        ("schema", "1"),
        ("status", "RetiredAfterPageFlip"),
        ("destroy", "Destroyed"),
        ("runtime_scanout_state", "Retired"),
        ("in_flight", "false"),
        ("in_flight_ticks", "0"),
        ("cleanup_pending", "false"),
    ]
}

/// The separators of `split_ascii_whitespace`.
pub open spec fn is_ascii_whitespace(b: u8) -> bool {
    b == 0x20u8 || b == 0x09u8 || b == 0x0au8 || b == 0x0cu8 || b == 0x0du8
}

/// `s` cut at every whitespace byte, empty pieces included.
pub open spec fn whitespace_pieces(s: Seq<u8>) -> Seq<Seq<u8>>
    decreases s.len(),
{
    if s.len() == 0 {
        seq![Seq::empty()]
    } else {
        let r = whitespace_pieces(s.drop_last());
        if is_ascii_whitespace(s.last()) {
            r.push(Seq::empty())
        } else {
            r.update(r.len() - 1, r.last().push(s.last()))
        }
    }
}

/// A piece that is a word: not empty.
pub open spec fn is_word() -> spec_fn(Seq<u8>) -> bool {
    |t: Seq<u8>| t.len() > 0
}

/// The words of `s`, as `split_ascii_whitespace` gives them.
pub open spec fn ascii_words(s: Seq<u8>) -> Seq<Seq<u8>> {
    whitespace_pieces(s).filter(is_word())
}

/// The index of the first required field equal to `(key, value)`.
#[verifier::opaque]
pub open spec fn first_field(required: Seq<(Seq<u8>, Seq<u8>)>, key: Seq<u8>, value: Seq<u8>) -> Option<int> {
    if exists|k: int| 0 <= k < required.len() && required[k] == (key, value) {
        Some(
            choose|k: int|
                0 <= k < required.len() && required[k] == (key, value) && forall|j: int|
                    0 <= j < k ==> required[j] != (key, value),
        )
    } else {
        None
    }
}

/// The required field a `key=value` word names: the word is cut at its
/// first `=`.
pub open spec fn word_field(word: Seq<u8>, required: Seq<(Seq<u8>, Seq<u8>)>) -> Option<int> {
    match first_index_of(word, 61u8) {
        None => None,
        Some(e) => first_field(required, word.subrange(0, e), word.subrange(e + 1, word.len() as int)),
    }
}

/// The required fields as bytes.
pub open spec fn field_bytes(required: Seq<(&str, &str)>) -> Seq<(Seq<u8>, Seq<u8>)> {
    required.map_values(|p: (&str, &str)| (p.0.spec_bytes(), p.1.spec_bytes()))
}

/// `line` is `prefix`, a space, then words that name every required field
/// exactly once.
pub open spec fn evidence_line_matches(line: Seq<u8>, prefix: Seq<u8>, required: Seq<(Seq<u8>, Seq<u8>)>) -> bool {
    &&& line.len() > prefix.len()
    &&& line.subrange(0, prefix.len() as int) == prefix
    &&& line[prefix.len() as int] == 0x20u8
    &&& {
        let words = ascii_words(line.subrange(prefix.len() + 1int, line.len() as int));
        &&& words.len() == required.len()
        &&& forall|i: int| 0 <= i < words.len() ==> (#[trigger] word_field(words[i], required)) is Some
        &&& forall|i: int, j: int|
            0 <= i < j < words.len() ==> #[trigger] word_field(words[i], required) != #[trigger] word_field(
                words[j],
                required,
            )
    }
}

/// Whether `bytes[from..to]` equals `other`.
fn bytes_equal(bytes: &[u8], from: usize, to: usize, other: &[u8]) -> (equal: bool)
    requires
        from <= to <= bytes@.len(),
    ensures
        equal == (bytes@.subrange(from as int, to as int) == other@),
{
    if to - from != other.len() {
        return false;
    }
    let mut i: usize = 0;
    while i < other.len()
        invariant
            from <= to <= bytes@.len(),
            to - from == other@.len(),
            i <= other@.len(),
            forall|j: int| 0 <= j < i ==> bytes@[from + j] == other@[j],
        decreases other@.len() - i,
    {
        if bytes[from + i] != other[i] {
            assert(bytes@.subrange(from as int, to as int)[i as int] != other@[i as int]);
            return false;
        }
        i = i + 1;
    }
    assert(bytes@.subrange(from as int, to as int) =~= other@);
    true
}

/// The word ranges of `bytes[from..]`, in order.
fn word_ranges(bytes: &[u8], from: usize) -> (ranges: Vec<(usize, usize)>)
    requires
        from <= bytes@.len(),
    ensures
        ranges@.len() == ascii_words(bytes@.subrange(from as int, bytes@.len() as int)).len(),
        forall|i: int|
            0 <= i < ranges@.len() ==> {
                let r = #[trigger] ranges@[i];
                &&& from <= r.0 <= r.1 <= bytes@.len()
                &&& bytes@.subrange(r.0 as int, r.1 as int) == ascii_words(
                    bytes@.subrange(from as int, bytes@.len() as int),
                )[i]
            },
{
    let ghost s = bytes@.subrange(from as int, bytes@.len() as int);
    let mut ranges: Vec<(usize, usize)> = Vec::new();
    let mut start: usize = from;
    let mut i: usize = from;
    let ghost mut done: Seq<Seq<u8>> = Seq::empty();
    assert(s.subrange(0, 0) =~= Seq::<u8>::empty());
    assert(bytes@.subrange(from as int, from as int) =~= Seq::<u8>::empty());
    assert(whitespace_pieces(Seq::<u8>::empty()) == seq![Seq::<u8>::empty()]);
    assert(done.push(Seq::<u8>::empty()) =~= seq![Seq::<u8>::empty()]);
    assert(done.filter(is_word()) =~= Seq::<Seq<u8>>::empty()) by {
        reveal(Seq::filter);
    }
    while i < bytes.len()
        invariant
            s == bytes@.subrange(from as int, bytes@.len() as int),
            from <= start <= i <= bytes@.len(),
            whitespace_pieces(s.subrange(0, i - from)) == done.push(bytes@.subrange(start as int, i as int)),
            ranges@.len() == done.filter(is_word()).len(),
            forall|k: int|
                0 <= k < ranges@.len() ==> {
                    let r = #[trigger] ranges@[k];
                    &&& from <= r.0 <= r.1 <= bytes@.len()
                    &&& bytes@.subrange(r.0 as int, r.1 as int) == done.filter(is_word())[k]
                },
        decreases bytes@.len() - i,
    {
        let ghost prefix = s.subrange(0, i - from);
        assert(s.subrange(0, i - from + 1).drop_last() =~= prefix);
        assert(s.subrange(0, i - from + 1).last() == bytes@[i as int]);
        let b = bytes[i];
        if b == 0x20 || b == 0x09 || b == 0x0a || b == 0x0c || b == 0x0d {
            let ghost piece = bytes@.subrange(start as int, i as int);
            assert(done.push(piece).drop_last() =~= done);
            proof {
                done.lemma_filter_push(piece, is_word());
            }
            if start < i {
                ranges.push((start, i));
            }
            proof {
                done = done.push(piece);
            }
            start = i + 1;
            assert(bytes@.subrange(start as int, start as int) =~= Seq::<u8>::empty());
        } else {
            assert(bytes@.subrange(start as int, i + 1) =~= bytes@.subrange(start as int, i as int).push(b));
            assert(done.push(bytes@.subrange(start as int, i as int)).update(
                done.len() as int,
                bytes@.subrange(start as int, i + 1),
            ) =~= done.push(bytes@.subrange(start as int, i + 1)));
        }
        i = i + 1;
    }
    assert(s.subrange(0, s.len() as int) =~= s);
    let ghost last = bytes@.subrange(start as int, bytes@.len() as int);
    proof {
        done.lemma_filter_push(last, is_word());
    }
    if start < bytes.len() {
        ranges.push((start, bytes.len()));
    }
    assert(ascii_words(s) == done.push(last).filter(is_word()));
    ranges
}

/// The index of the first required field equal to `bytes[key]`, `bytes[value]`.
fn find_field(
    bytes: &[u8],
    key_from: usize,
    key_to: usize,
    value_from: usize,
    value_to: usize,
    required: &[(&str, &str)],
) -> (field: Option<usize>)
    requires
        key_from <= key_to <= bytes@.len(),
        value_from <= value_to <= bytes@.len(),
    ensures
        match field {
            Some(k) => k < required@.len() && first_field(
                field_bytes(required@),
                bytes@.subrange(key_from as int, key_to as int),
                bytes@.subrange(value_from as int, value_to as int),
            ) == Some(k as int),
            None => first_field(
                field_bytes(required@),
                bytes@.subrange(key_from as int, key_to as int),
                bytes@.subrange(value_from as int, value_to as int),
            ) is None,
        },
{
    let ghost req = field_bytes(required@);
    let ghost target = (bytes@.subrange(key_from as int, key_to as int), bytes@.subrange(value_from as int, value_to as int));
    let mut k: usize = 0;
    while k < required.len()
        invariant
            k <= required@.len(),
            req == field_bytes(required@),
            req.len() == required@.len(),
            target == (bytes@.subrange(key_from as int, key_to as int), bytes@.subrange(value_from as int, value_to as int)),
            key_from <= key_to <= bytes@.len(),
            value_from <= value_to <= bytes@.len(),
            forall|j: int| 0 <= j < k ==> req[j] != target,
        decreases required@.len() - k,
    {
        let (key, value) = required[k];
        let key_equal = bytes_equal(bytes, key_from, key_to, key.as_bytes());
        let value_equal = bytes_equal(bytes, value_from, value_to, value.as_bytes());
        assert(req[k as int] == (key.spec_bytes(), value.spec_bytes()));
        if key_equal && value_equal {
            proof {
                reveal(first_field);
                assert(req[k as int] == target);
                let c = choose|c: int|
                    0 <= c < req.len() && req[c] == target && forall|j: int| 0 <= j < c ==> req[j] != target;
                assert(0 <= c < req.len() && req[c] == target && forall|j: int| 0 <= j < c ==> req[j] != target);
                if c < k {
                } else if c > k {
                }
            }
            return Some(k);
        }
        k = k + 1;
    }
    proof {
        reveal(first_field);
    }
    None
}

/// The required field a word names.
fn word_field_of(bytes: &[u8], from: usize, to: usize, required: &[(&str, &str)]) -> (field: Option<usize>)
    requires
        from <= to <= bytes@.len(),
    ensures
        match field {
            Some(k) => k < required@.len() && word_field(bytes@.subrange(from as int, to as int), field_bytes(required@))
                == Some(k as int),
            None => word_field(bytes@.subrange(from as int, to as int), field_bytes(required@)) is None,
        },
{
    let ghost word = bytes@.subrange(from as int, to as int);
    match find_byte(bytes, from, to, 61) {
        None => None,
        Some(e) => {
            assert(word.subrange(0, e - from) =~= bytes@.subrange(from as int, e as int));
            assert(word.subrange(e - from + 1, word.len() as int) =~= bytes@.subrange(e + 1, to as int));
            find_field(bytes, from, e, e + 1, to, required)
        },
    }
}

/// Whether `line` is `prefix`, a space, then `key=value` words naming each
/// required field exactly once, in any order.
pub fn parse_exact_evidence_line(line: &str, prefix: &str, required: &[(&str, &str)]) -> (matches: bool)
    requires
        required@.len() <= 128,
    ensures
        matches == evidence_line_matches(line.spec_bytes(), prefix.spec_bytes(), field_bytes(required@)),
{
    let bytes = line.as_bytes();
    let p = prefix.as_bytes();
    let ghost req = field_bytes(required@);
    if bytes.len() <= p.len() {
        return false;
    }
    if !bytes_equal(bytes, 0, p.len(), p) {
        return false;
    }
    if bytes[p.len()] != 0x20 {
        return false;
    }
    let ghost rest = bytes@.subrange(p@.len() + 1int, bytes@.len() as int);
    let ranges = word_ranges(bytes, p.len() + 1);
    let ghost words = ascii_words(rest);
    let mut seen: Vec<bool> = Vec::new();
    let mut k: usize = 0;
    while k < required.len()
        invariant
            k <= required@.len(),
            seen@.len() == k,
            forall|j: int| 0 <= j < k ==> !seen@[j],
        decreases required@.len() - k,
    {
        seen.push(false);
        k = k + 1;
    }
    let mut i: usize = 0;
    while i < ranges.len()
        invariant
            i <= ranges@.len(),
            p@.len() < bytes@.len(),
            bytes@ == line.spec_bytes(),
            p@ == prefix.spec_bytes(),
            bytes@.subrange(0, p@.len() as int) == p@,
            bytes@[p@.len() as int] == 0x20u8,
            words == ascii_words(rest),
            rest == bytes@.subrange(p@.len() + 1int, bytes@.len() as int),
            req == field_bytes(required@),
            req.len() == required@.len(),
            ranges@.len() == words.len(),
            forall|m: int|
                0 <= m < ranges@.len() ==> {
                    let r = #[trigger] ranges@[m];
                    &&& p@.len() + 1 <= r.0 <= r.1 <= bytes@.len()
                    &&& bytes@.subrange(r.0 as int, r.1 as int) == words[m]
                },
            seen@.len() == required@.len(),
            forall|m: int| 0 <= m < i ==> (#[trigger] word_field(words[m], req)) is Some,
            forall|m: int, n: int|
                0 <= m < n < i ==> #[trigger] word_field(words[m], req) != #[trigger] word_field(words[n], req),
            forall|f: int|
                0 <= f < seen@.len() ==> (#[trigger] seen@[f] <==> exists|m: int|
                    0 <= m < i && word_field(words[m], req) == Some(f)),
        decreases ranges@.len() - i,
    {
        let (from, to) = ranges[i];
        assert(ranges@[i as int] == (from, to));
        let field = word_field_of(bytes, from, to, required);
        match field {
            None => {
                assert(word_field(words[i as int], req) is None);
                return false;
            },
            Some(f) => {
                assert(word_field(words[i as int], req) == Some(f as int));
                if seen[f] {
                    proof {
                        let m = choose|m: int| 0 <= m < i && word_field(words[m], req) == Some(f as int);
                        assert(word_field(words[m], req) == word_field(words[i as int], req));
                    }
                    return false;
                }
                seen.set(f, true);
            },
        }
        i = i + 1;
    }
    ranges.len() == required.len()
}

/// Whether `line` starts with `prefix`.
pub open spec fn starts_with(line: Seq<u8>, prefix: Seq<u8>) -> bool {
    prefix.len() <= line.len() && line.subrange(0, prefix.len() as int) == prefix
}

/// A clean submit line.
pub open spec fn is_clean_submit(line: Seq<u8>) -> bool {
    evidence_line_matches(line, SUBMIT_PREFIX.spec_bytes(), field_bytes(spec_clean_submit_fields()))
}

/// A clean retire line that is not a clean submit line.
pub open spec fn is_clean_retire(line: Seq<u8>) -> bool {
    !is_clean_submit(line) && evidence_line_matches(
        line,
        RETIRE_PREFIX.spec_bytes(),
        field_bytes(spec_clean_retire_fields()),
    )
}

/// The UTF-8 bytes of each line.
pub open spec fn line_bytes(lines: Seq<String>) -> Seq<Seq<u8>> {
    lines.map_values(|l: String| encode_utf8(l@))
}

/// A clean run: exactly two lines, one clean submit and one clean retire in
/// either order, and no cleanup line.
pub open spec fn spec_evidence_is_clean(lines: Seq<Seq<u8>>) -> bool {
    &&& lines.len() == 2
    &&& forall|i: int| 0 <= i < 2 ==> !starts_with(#[trigger] lines[i], CLEANUP_PREFIX.spec_bytes())
    &&& (is_clean_submit(lines[0]) && is_clean_retire(lines[1])) || (is_clean_retire(lines[0]) && is_clean_submit(
        lines[1],
    ))
}

/// Whether the evidence of a live run shows exactly one clean submit and
/// one clean retire, and no cleanup.
pub fn runtime_rendered_scanout_evidence_is_clean(lines: &[String]) -> (clean: bool)
    ensures
        clean == spec_evidence_is_clean(line_bytes(lines@)),
{
    let ghost ls = line_bytes(lines@);
    let submit_fields = clean_submit_fields();
    let retire_fields = clean_retire_fields();
    let cleanup = CLEANUP_PREFIX.as_bytes();
    let mut submit_seen = false;
    let mut retire_seen = false;
    let mut i: usize = 0;
    while i < lines.len()
        invariant
            i <= lines@.len(),
            ls == line_bytes(lines@),
            ls.len() == lines@.len(),
            submit_fields@ == spec_clean_submit_fields(),
            retire_fields@ == spec_clean_retire_fields(),
            cleanup@ == CLEANUP_PREFIX.spec_bytes(),
            forall|j: int|
                0 <= j < i ==> !starts_with(#[trigger] ls[j], CLEANUP_PREFIX.spec_bytes()) && (is_clean_submit(ls[j])
                    || is_clean_retire(ls[j])),
            submit_seen == exists|j: int| 0 <= j < i && is_clean_submit(#[trigger] ls[j]),
            retire_seen == exists|j: int| 0 <= j < i && is_clean_retire(#[trigger] ls[j]),
            forall|j: int, k: int|
                0 <= j < k < i ==> !(is_clean_submit(#[trigger] ls[j]) && is_clean_submit(#[trigger] ls[k])) && !(
                is_clean_retire(ls[j]) && is_clean_retire(ls[k])),
        decreases lines@.len() - i,
    {
        let line = lines[i].as_str();
        let bytes = line.as_bytes();
        assert(bytes@ == ls[i as int]);
        if bytes.len() >= cleanup.len() && bytes_equal(bytes, 0, cleanup.len(), cleanup) {
            return false;
        }
        assert(!starts_with(ls[i as int], CLEANUP_PREFIX.spec_bytes()));
        if parse_exact_evidence_line(line, SUBMIT_PREFIX, submit_fields.as_slice()) {
            if submit_seen {
                return false;
            }
            submit_seen = true;
        } else if parse_exact_evidence_line(line, RETIRE_PREFIX, retire_fields.as_slice()) {
            if retire_seen {
                return false;
            }
            retire_seen = true;
        } else {
            return false;
        }
        i = i + 1;
    }
    proof {
        if submit_seen && retire_seen {
            let a = choose|j: int| 0 <= j < i && is_clean_submit(#[trigger] ls[j]);
            let b = choose|j: int| 0 <= j < i && is_clean_retire(#[trigger] ls[j]);
            assert(a != b);
            if ls.len() > 2 {
                assert(is_clean_submit(ls[0]) || is_clean_retire(ls[0]));
                assert(is_clean_submit(ls[1]) || is_clean_retire(ls[1]));
                assert(is_clean_submit(ls[2]) || is_clean_retire(ls[2]));
            }
        }
    }
    submit_seen && retire_seen
}

} // verus!
