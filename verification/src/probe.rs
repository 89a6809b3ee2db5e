//! Reading the report a compiled client probe prints: whitespace-separated
//! `name=value` fields, of which the first with a given name is read as a
//! count.

use vstd::prelude::*;
use vstd::string::StrSliceExecFns;
use vstd::string::StringSliceAdditionalSpecFns;

use crate::args::{first_with_prefix, has_prefix, parse_usize, spec_parse_unsigned};

verus! {

broadcast use vstd::seq_lib::group_seq_properties;

/// `char::is_whitespace`: the characters with the Unicode White_Space
/// property.
pub open spec fn is_unicode_whitespace(c: char) -> bool {
    ||| '\u{9}' <= c <= '\u{d}'
    ||| c == ' '
    ||| c == '\u{85}'
    ||| c == '\u{a0}'
    ||| c == '\u{1680}'
    ||| '\u{2000}' <= c <= '\u{200a}'
    ||| c == '\u{2028}'
    ||| c == '\u{2029}'
    ||| c == '\u{202f}'
    ||| c == '\u{205f}'
    ||| c == '\u{3000}'
}

fn char_is_whitespace(c: char) -> (white: bool)
    ensures
        white == is_unicode_whitespace(c),
{
    ('\u{9}' <= c && c <= '\u{d}') || c == ' ' || c == '\u{85}' || c == '\u{a0}' || c == '\u{1680}' || (
    '\u{2000}' <= c && c <= '\u{200a}') || c == '\u{2028}' || c == '\u{2029}' || c == '\u{202f}' || c
        == '\u{205f}' || c == '\u{3000}'
}

/// `s` cut at every whitespace character, empty pieces included.
pub open spec fn unicode_pieces(s: Seq<char>) -> Seq<Seq<char>>
    decreases s.len(),
{
    if s.len() == 0 {
        seq![Seq::empty()]
    } else {
        let r = unicode_pieces(s.drop_last());
        if is_unicode_whitespace(s.last()) {
            r.push(Seq::empty())
        } else {
            r.update(r.len() - 1, r.last().push(s.last()))
        }
    }
}

/// A piece that is a word: not empty.
pub open spec fn is_text_word() -> spec_fn(Seq<char>) -> bool {
    |t: Seq<char>| t.len() > 0
}

/// The words of `s`, as `str::split_whitespace` gives them.
pub open spec fn unicode_words(s: Seq<char>) -> Seq<Seq<char>> {
    unicode_pieces(s).filter(is_text_word())
}

/// The count a report gives for `name`: the rest of its first word that
/// starts with `name=`, read as a `usize`. None when there is no such word
/// or its value does not parse.
pub open spec fn spec_report_field(report: Seq<char>, name: Seq<char>) -> Option<nat> {
    let words = unicode_words(report);
    let prefix = name.push('=');
    match first_with_prefix(words, prefix) {
        None => None,
        Some(i) => spec_parse_unsigned(
            vstd::utf8::encode_utf8(words[i].subrange(prefix.len() as int, words[i].len() as int)),
            usize::MAX as nat,
        ),
    }
}

/// The character ranges of the words of `text`, in order.
fn word_char_ranges(text: &str) -> (ranges: Vec<(usize, usize)>)
    ensures
        ranges@.len() == unicode_words(text@).len(),
        forall|i: int|
            0 <= i < ranges@.len() ==> {
                let r = #[trigger] ranges@[i];
                &&& r.0 <= r.1 <= text@.len()
                &&& text@.subrange(r.0 as int, r.1 as int) == unicode_words(text@)[i]
            },
{
    let n = text.unicode_len();
    let ghost s = text@;
    let mut ranges: Vec<(usize, usize)> = Vec::new();
    let mut start: usize = 0;
    let mut i: usize = 0;
    let ghost mut done: Seq<Seq<char>> = Seq::empty();
    assert(s.subrange(0, 0) =~= Seq::<char>::empty());
    assert(unicode_pieces(Seq::<char>::empty()) == seq![Seq::<char>::empty()]);
    assert(done.push(Seq::<char>::empty()) =~= seq![Seq::<char>::empty()]);
    assert(done.filter(is_text_word()) =~= Seq::<Seq<char>>::empty()) by {
        reveal(Seq::filter);
    }
    while i < n
        invariant
            n == s.len(),
            s == text@,
            start <= i <= n,
            unicode_pieces(s.subrange(0, i as int)) == done.push(s.subrange(start as int, i as int)),
            ranges@.len() == done.filter(is_text_word()).len(),
            forall|k: int|
                0 <= k < ranges@.len() ==> {
                    let r = #[trigger] ranges@[k];
                    &&& r.0 <= r.1 <= s.len()
                    &&& s.subrange(r.0 as int, r.1 as int) == done.filter(is_text_word())[k]
                },
        decreases n - i,
    {
        let ghost prefix = s.subrange(0, i as int);
        assert(s.subrange(0, i + 1).drop_last() =~= prefix);
        assert(s.subrange(0, i + 1).last() == s[i as int]);
        let c = text.get_char(i);
        if char_is_whitespace(c) {
            let ghost piece = s.subrange(start as int, i as int);
            assert(done.push(piece).drop_last() =~= done);
            proof {
                done.lemma_filter_push(piece, is_text_word());
            }
            if start < i {
                ranges.push((start, i));
            }
            proof {
                done = done.push(piece);
            }
            start = i + 1;
            assert(s.subrange(start as int, start as int) =~= Seq::<char>::empty());
        } else {
            assert(s.subrange(start as int, i + 1) =~= s.subrange(start as int, i as int).push(c));
            assert(done.push(s.subrange(start as int, i as int)).update(
                done.len() as int,
                s.subrange(start as int, i + 1),
            ) =~= done.push(s.subrange(start as int, i + 1)));
        }
        i = i + 1;
    }
    assert(s.subrange(0, n as int) =~= s);
    let ghost last = s.subrange(start as int, n as int);
    proof {
        done.lemma_filter_push(last, is_text_word());
    }
    if start < n {
        ranges.push((start, n));
    }
    assert(unicode_words(s) == done.push(last).filter(is_text_word()));
    ranges
}

/// Whether `text[from..to]` starts with `name=`.
fn range_has_field_prefix(text: &str, from: usize, to: usize, name: &str) -> (found: bool)
    requires
        from <= to <= text@.len(),
    ensures
        found == has_prefix(text@.subrange(from as int, to as int), name@.push('=')),
{
    let ghost word = text@.subrange(from as int, to as int);
    let ghost prefix = name@.push('=');
    let m = name.unicode_len();
    if m >= to - from {
        return false;
    }
    let mut j: usize = 0;
    while j < m
        invariant
            from <= to <= text@.len(),
            m == name@.len(),
            m + 1 <= to - from,
            word == text@.subrange(from as int, to as int),
            prefix == name@.push('='),
            j <= m,
            forall|k: int| 0 <= k < j ==> word[k] == prefix[k],
        decreases m - j,
    {
        if text.get_char(from + j) != name.get_char(j) {
            assert(word.subrange(0, prefix.len() as int)[j as int] != prefix[j as int]);
            return false;
        }
        j = j + 1;
    }
    if text.get_char(from + m) != '=' {
        assert(word.subrange(0, prefix.len() as int)[m as int] != prefix[m as int]);
        return false;
    }
    assert(word.subrange(0, prefix.len() as int) =~= prefix);
    true
}

/// The count a probe report gives for `name`; see `spec_report_field`.
pub fn xlib_smoke_field(stdout: &str, name: &str) -> (count: Option<usize>)
    ensures
        match count {
            Some(v) => spec_report_field(stdout@, name@) == Some(v as nat),
            None => spec_report_field(stdout@, name@) is None,
        },
{
    let ghost words = unicode_words(stdout@);
    let ghost prefix = name@.push('=');
    let ranges = word_char_ranges(stdout);
    let mut i: usize = 0;
    while i < ranges.len()
        invariant
            i <= ranges@.len(),
            words == unicode_words(stdout@),
            prefix == name@.push('='),
            ranges@.len() == words.len(),
            forall|k: int|
                0 <= k < ranges@.len() ==> {
                    let r = #[trigger] ranges@[k];
                    &&& r.0 <= r.1 <= stdout@.len()
                    &&& stdout@.subrange(r.0 as int, r.1 as int) == words[k]
                },
            forall|k: int| 0 <= k < i ==> !has_prefix(#[trigger] words[k], prefix),
        decreases ranges@.len() - i,
    {
        let (from, to) = ranges[i];
        assert(ranges@[i as int] == (from, to));
        if range_has_field_prefix(stdout, from, to, name) {
            proof {
                reveal(first_with_prefix);
                assert(has_prefix(words[i as int], prefix));
                let c = choose|c: int|
                    0 <= c < words.len() && has_prefix(words[c], prefix) && forall|j: int|
                        0 <= j < c ==> !has_prefix(#[trigger] words[j], prefix);
                assert(0 <= c < words.len() && has_prefix(words[c], prefix) && forall|j: int|
                    0 <= j < c ==> !has_prefix(#[trigger] words[j], prefix));
                if c < i {
                } else if c > i {
                    assert(!has_prefix(words[i as int], prefix));
                }
            }
            let m = name.unicode_len();
            let value = stdout.substring_char(from + m + 1, to);
            assert(value@ =~= words[i as int].subrange(prefix.len() as int, words[i as int].len() as int));
            return match parse_usize(value) {
                Ok(v) => Some(v),
                Err(_) => None,
            };
        }
        i = i + 1;
    }
    proof {
        reveal(first_with_prefix);
    }
    None
}

/// The title length a probe reports.
pub fn xlib_smoke_title_bytes(stdout: &str) -> (count: Option<usize>)
    ensures
        match count {
            Some(v) => spec_report_field(stdout@, "title_bytes"@) == Some(v as nat),
            None => spec_report_field(stdout@, "title_bytes"@) is None,
        },
{
    xlib_smoke_field(stdout, "title_bytes")
}

} // verus!
