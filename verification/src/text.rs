//! Text as sequences of characters: splitting, trimming, comparing and composing.
use vstd::prelude::*;

verus! {

/// Appends one character: `String::push` puts `c` behind what the string held.
pub assume_specification[ String::push ](buffer: &mut String, c: char)
    ensures
        final(buffer)@ == old(buffer)@.push(c),
;

/// The texts of a sequence of strings.
pub open spec fn texts(strings: Seq<String>) -> Seq<Seq<char>> {
    strings.map_values(|s: String| s@)
}

/// The contents of a sequence of byte vectors.
pub open spec fn byte_rows(rows: Seq<Vec<u8>>) -> Seq<Seq<u8>> {
    rows.map_values(|row: Vec<u8>| row@)
}

/// The text of an optional string.
pub open spec fn optional(value: Option<String>) -> Option<Seq<char>> {
    match value {
        Some(text) => Some(text@),
        None => None,
    }
}

/// The text of an optional string slice.
pub open spec fn optional_str(value: Option<&str>) -> Option<Seq<char>> {
    match value {
        Some(text) => Some(text@),
        None => None,
    }
}

/// The length of a text in UTF-8 bytes.
pub open spec fn byte_len(text: Seq<char>) -> nat {
    vstd::utf8::encode_utf8(text).len()
}

/// The bytes of a text are those of its first part and those of the rest.
pub proof fn lemma_bytes_concat(left: Seq<char>, right: Seq<char>)
    ensures
        vstd::utf8::encode_utf8(left + right) == vstd::utf8::encode_utf8(left)
            + vstd::utf8::encode_utf8(right),
    decreases left.len(),
{
    if left.len() == 0 {
        assert(left + right =~= right);
        assert(vstd::utf8::encode_utf8(left) =~= Seq::<u8>::empty());
        assert(vstd::utf8::encode_utf8(left + right) =~= vstd::utf8::encode_utf8(left)
            + vstd::utf8::encode_utf8(right));
    } else {
        let rest = left.drop_first();
        lemma_bytes_concat(rest, right);
        assert((left + right).drop_first() =~= rest + right);
        assert((left + right)[0] == left[0]);
        assert(vstd::utf8::encode_utf8(left + right) =~= vstd::utf8::encode_utf8(left)
            + vstd::utf8::encode_utf8(right));
    }
}

/// A text that is not empty has at least one byte.
pub proof fn lemma_bytes_positive(text: Seq<char>)
    ensures
        text.len() > 0 ==> byte_len(text) > 0,
        byte_len(text) >= text.len(),
    decreases text.len(),
{
    if text.len() > 0 {
        lemma_bytes_positive(text.drop_first());
        assert(text =~= seq![text[0]] + text.drop_first());
        lemma_bytes_concat(seq![text[0]], text.drop_first());
        assert(vstd::utf8::encode_scalar(text[0] as u32).len() >= 1);
    }
}

/// The characters of `text`, in order.
pub fn chars_of(text: &str) -> (chars: Vec<char>)
    ensures
        chars@ == text@,
{
    let mut chars: Vec<char> = Vec::new();
    for c in it: text.chars()
        invariant
            chars@ == it.seq().take(it.index() as int),
            it.seq() == text@,
    {
        chars.push(c);
    }
    chars
}

/// The text made of the characters from `from` up to `to`.
pub fn text_of(chars: &Vec<char>, from: usize, to: usize) -> (text: String)
    requires
        from <= to <= chars@.len(),
    ensures
        text@ == chars@.subrange(from as int, to as int),
{
    let mut text = String::new();
    let mut at: usize = from;
    while at < to
        invariant
            from <= at <= to <= chars@.len(),
            text@ == chars@.subrange(from as int, at as int),
        decreases to - at,
    {
        text.push(chars[at]);
        at += 1;
    }
    text
}

/// Whether two texts hold the same characters.
pub fn same(left: &str, right: &str) -> (equal: bool)
    ensures
        equal == (left@ == right@),
{
    left.to_owned() == right.to_owned()
}

/// Whether two byte slices hold the same bytes.
pub fn same_bytes(left: &[u8], right: &[u8]) -> (equal: bool)
    ensures
        equal == (left@ == right@),
{
    if left.len() != right.len() {
        return false;
    }
    let mut i: usize = 0;
    while i < left.len()
        invariant
            i <= left@.len(),
            left@.len() == right@.len(),
            forall|k: int| 0 <= k < i ==> left@[k] == right@[k],
        decreases left@.len() - i,
    {
        if left[i] != right[i] {
            return false;
        }
        i += 1;
    }
    assert(left@ =~= right@);
    true
}

/// Where the first `wanted` at or after `from` stands in `bytes`, or the length where there
/// is none.
pub fn find_byte(bytes: &[u8], from: usize, wanted: u8) -> (at: usize)
    requires
        from <= bytes@.len(),
    ensures
        from <= at <= bytes@.len(),
        at - from == first_index(bytes@.skip(from as int), wanted),
{
    let mut at: usize = from;
    while at < bytes.len() && bytes[at] != wanted
        invariant
            from <= at <= bytes@.len(),
            forall|k: int| from <= k < at ==> bytes@[k] != wanted,
        decreases bytes@.len() - at,
    {
        at += 1;
    }
    proof {
        lemma_first_index_is(bytes@.skip(from as int), wanted, at - from);
    }
    at
}

/// Whether two optional texts are both absent, or both present and the same.
pub fn same_optional(left: &Option<String>, right: &Option<String>) -> (equal: bool)
    ensures
        equal == (optional(*left) == optional(*right)),
{
    match (left, right) {
        (Some(a), Some(b)) => same(a.as_str(), b.as_str()),
        (None, None) => true,
        _ => false,
    }
}

/// Whether `wanted` is one of `strings`.
pub fn holds(strings: &Vec<String>, wanted: &str) -> (found: bool)
    ensures
        found == texts(strings@).contains(wanted@),
{
    let mut i: usize = 0;
    while i < strings.len()
        invariant
            i <= strings@.len(),
            forall|k: int| 0 <= k < i ==> texts(strings@)[k] != wanted@,
        decreases strings@.len() - i,
    {
        if same(strings[i].as_str(), wanted) {
            assert(texts(strings@)[i as int] == wanted@);
            return true;
        }
        i += 1;
    }
    false
}

/// A copy of a list of strings with the same texts.
pub fn copied(strings: &Vec<String>) -> (copy: Vec<String>)
    ensures
        copy@ == strings@,
{
    let mut copy: Vec<String> = Vec::new();
    let mut i: usize = 0;
    while i < strings.len()
        invariant
            i <= strings@.len(),
            copy@ == strings@.take(i as int),
        decreases strings@.len() - i,
    {
        copy.push(strings[i].clone());
        i += 1;
    }
    copy
}

// Searching

/// The index of the first `wanted` in `items`, or the length where there is none.
pub open spec fn first_index<T>(items: Seq<T>, wanted: T) -> int
    decreases items.len(),
{
    if items.len() == 0 || items[0] == wanted {
        0
    } else {
        1 + first_index(items.drop_first(), wanted)
    }
}

/// `first_index` is where the first occurrence stands, and the length where none does.
pub proof fn lemma_first_index<T>(items: Seq<T>, wanted: T)
    ensures
        0 <= first_index(items, wanted) <= items.len(),
        first_index(items, wanted) < items.len() <==> items.contains(wanted),
        first_index(items, wanted) < items.len() ==> items[first_index(items, wanted)] == wanted,
        forall|k: int| 0 <= k < first_index(items, wanted) ==> items[k] != wanted,
    decreases items.len(),
{
    if items.len() != 0 && items[0] != wanted {
        let rest = items.drop_first();
        lemma_first_index(rest, wanted);
        assert forall|k: int| 0 <= k < first_index(items, wanted) implies items[k] != wanted by {
            if k > 0 {
                assert(items[k] == rest[k - 1]);
            }
        }
        if items.contains(wanted) {
            let at = choose|at: int| 0 <= at < items.len() && items[at] == wanted;
            assert(rest[at - 1] == wanted);
        }
        if rest.contains(wanted) {
            let at = choose|at: int| 0 <= at < rest.len() && rest[at] == wanted;
            assert(items[at + 1] == wanted);
        }
    }
}

/// An index before which `wanted` does not occur, and at which it does, is the first.
pub proof fn lemma_first_index_is<T>(items: Seq<T>, wanted: T, at: int)
    requires
        0 <= at <= items.len(),
        forall|k: int| 0 <= k < at ==> items[k] != wanted,
        at < items.len() ==> items[at] == wanted,
    ensures
        first_index(items, wanted) == at,
{
    lemma_first_index(items, wanted);
    let first = first_index(items, wanted);
    if first < at {
        assert(items[first] != wanted);
    }
    if at < first {
        assert(items[at] != wanted);
    }
}

/// Where the first `wanted` stands in `chars`, or the length where there is none.
pub fn find(chars: &Vec<char>, wanted: char) -> (at: usize)
    ensures
        at == first_index(chars@, wanted),
        at <= chars@.len(),
{
    let mut at: usize = 0;
    while at < chars.len() && chars[at] != wanted
        invariant
            at <= chars@.len(),
            forall|k: int| 0 <= k < at ==> chars@[k] != wanted,
        decreases chars@.len() - at,
    {
        at += 1;
    }
    proof {
        lemma_first_index_is(chars@, wanted, at as int);
    }
    at
}

/// Whether `text` begins with `prefix`.
pub fn starts_with(text: &str, prefix: &str) -> (found: bool)
    ensures
        found == prefix@.is_prefix_of(text@),
{
    strip_prefix(text, prefix).is_some()
}

/// What follows `prefix` in `text`, where `text` begins with it.
pub fn strip_prefix(text: &str, prefix: &str) -> (rest: Option<String>)
    ensures
        match rest {
            Some(rest) => prefix@.is_prefix_of(text@) && text@ == prefix@ + rest@,
            None => !prefix@.is_prefix_of(text@),
        },
{
    let chars = chars_of(text);
    let wanted = chars_of(prefix);
    if wanted.len() > chars.len() {
        return None;
    }
    let mut i: usize = 0;
    while i < wanted.len()
        invariant
            i <= wanted@.len() <= chars@.len(),
            forall|k: int| 0 <= k < i ==> chars@[k] == wanted@[k],
            chars@ == text@,
            wanted@ == prefix@,
        decreases wanted@.len() - i,
    {
        if chars[i] != wanted[i] {
            proof {
                assert(text@.subrange(0, prefix@.len() as int)[i as int] == text@[i as int]);
            }
            return None;
        }
        i += 1;
    }
    let rest = text_of(&chars, wanted.len(), chars.len());
    assert(prefix@ =~= text@.subrange(0, prefix@.len() as int));
    assert(text@ =~= prefix@ + rest@);
    Some(rest)
}

/// What precedes `suffix` in `text`, where `text` ends with it.
pub fn strip_suffix(text: &str, suffix: &str) -> (rest: Option<String>)
    ensures
        match rest {
            Some(rest) => suffix@.is_suffix_of(text@) && text@ == rest@ + suffix@,
            None => !suffix@.is_suffix_of(text@),
        },
{
    let chars = chars_of(text);
    let wanted = chars_of(suffix);
    if wanted.len() > chars.len() {
        return None;
    }
    let total: usize = chars.len();
    let offset: usize = total - wanted.len();
    let mut i: usize = 0;
    while i < wanted.len()
        invariant
            i <= wanted@.len() <= chars@.len(),
            total == chars@.len(),
            offset == total - wanted@.len(),
            forall|k: int| 0 <= k < i ==> chars@[offset + k] == wanted@[k],
            chars@ == text@,
            wanted@ == suffix@,
        decreases wanted@.len() - i,
    {
        if chars[offset + i] != wanted[i] {
            proof {
                let tail = text@.subrange(offset as int, text@.len() as int);
                assert(tail[i as int] == text@[offset + i]);
            }
            return None;
        }
        i += 1;
    }
    let rest = text_of(&chars, 0, offset);
    assert(suffix@ =~= text@.subrange(offset as int, text@.len() as int));
    assert(text@ =~= rest@ + suffix@);
    Some(rest)
}

/// The text before and after the first `separator`, where there is one.
pub open spec fn split_at_first(text: Seq<char>, separator: char) -> Option<(Seq<char>,
    Seq<char>)> {
    let at = first_index(text, separator);
    if at < text.len() {
        Some((text.take(at), text.skip(at + 1)))
    } else {
        None
    }
}

/// Splits `text` at the first `separator`.
pub fn split_once(text: &str, separator: char) -> (halves: Option<(String, String)>)
    ensures
        match halves {
            Some(halves) => split_at_first(text@, separator) == Some((halves.0@, halves.1@)),
            None => split_at_first(text@, separator) is None,
        },
{
    let chars = chars_of(text);
    let at = find(&chars, separator);
    if at == chars.len() {
        return None;
    }
    let before = text_of(&chars, 0, at);
    let after = text_of(&chars, at + 1, chars.len());
    assert(before@ =~= text@.take(at as int));
    assert(after@ =~= text@.skip(at + 1));
    Some((before, after))
}

/// A text that is a part without the separator, the separator and a rest splits into
/// that part and that rest.
pub proof fn lemma_split_at_first(before: Seq<char>, separator: char, after: Seq<char>)
    requires
        !before.contains(separator),
    ensures
        split_at_first(before + seq![separator] + after, separator) == Some((before, after)),
{
    let text = before + seq![separator] + after;
    assert forall|k: int| 0 <= k < before.len() implies text[k] != separator by {
        assert(text[k] == before[k]);
        assert(before.contains(before[k]));
    }
    assert(text[before.len() as int] == separator);
    lemma_first_index_is(text, separator, before.len() as int);
    assert(text.take(before.len() as int) =~= before);
    assert(text.skip(before.len() as int + 1) =~= after);
}

// Splitting and joining

/// The parts of `items` between the separators: one part more than there are separators.
pub open spec fn split_on<T>(items: Seq<T>, separator: T) -> Seq<Seq<T>>
    decreases items.len(),
{
    if items.len() == 0 {
        seq![Seq::empty()]
    } else {
        let parts = split_on(items.drop_last(), separator);
        if items.last() == separator {
            parts.push(Seq::empty())
        } else {
            parts.drop_last().push(parts.last().push(items.last()))
        }
    }
}

/// The parts with `separator` between each two neighbours.
pub open spec fn joined<T>(parts: Seq<Seq<T>>, separator: Seq<T>) -> Seq<T>
    decreases parts.len(),
{
    if parts.len() == 0 {
        Seq::empty()
    } else if parts.len() == 1 {
        parts[0]
    } else {
        joined(parts.drop_last(), separator) + separator + parts.last()
    }
}

/// A text in which, from left to right, each occurrence of a text is replaced by another.
pub open spec fn replaced<T>(text: Seq<T>, from: Seq<T>, to: Seq<T>) -> Seq<T>
    decreases text.len(),
{
    if from.len() == 0 || text.len() == 0 {
        text
    } else if from.is_prefix_of(text) {
        to + replaced(text.skip(from.len() as int), from, to)
    } else {
        seq![text[0]] + replaced(text.skip(1), from, to)
    }
}

/// How often a text occurs in another, from left to right.
pub open spec fn occurrences<T>(text: Seq<T>, wanted: Seq<T>) -> nat
    decreases text.len(),
{
    if wanted.len() == 0 || text.len() == 0 {
        0
    } else if wanted.is_prefix_of(text) {
        1 + occurrences(text.skip(wanted.len() as int), wanted)
    } else {
        occurrences(text.skip(1), wanted)
    }
}

/// The first part comes before the separator and the other parts, joined.
pub proof fn lemma_joined_front<T>(parts: Seq<Seq<T>>, separator: Seq<T>)
    requires
        parts.len() >= 2,
    ensures
        joined(parts, separator) == parts[0] + (separator + joined(parts.skip(1), separator)),
    decreases parts.len(),
{
    let rest = parts.skip(1);
    if parts.len() == 2 {
        assert(joined(parts.drop_last(), separator) == parts[0]);
        assert(joined(rest, separator) == parts[1]);
        assert(parts[0] + separator + parts[1] =~= parts[0] + (separator + parts[1]));
    } else {
        lemma_joined_front(parts.drop_last(), separator);
        let (middle, last) = (joined(rest.drop_last(), separator), parts.last());
        assert(parts.drop_last().skip(1) =~= rest.drop_last());
        assert(joined(rest, separator) == middle + separator + last);
        assert(joined(parts, separator) == parts[0] + (separator + middle) + separator + last);
        assert(parts[0] + (separator + middle) + separator + last =~= parts[0] + (separator + (
        middle + separator + last)));
    }
}

proof fn lemma_replaced_past<T>(start: Seq<T>, rest: Seq<T>, from: Seq<T>, to: Seq<T>)
    requires
        from.len() > 0,
        forall|i: int|
            0 <= i < start.len() ==> !from.is_prefix_of(#[trigger] (start + rest).skip(i)),
    ensures
        replaced(start + rest, from, to) == start + replaced(rest, from, to),
        occurrences(start + rest, from) == occurrences(rest, from),
    decreases start.len(),
{
    let text = start + rest;
    if start.len() == 0 {
        assert(text =~= rest);
        assert(replaced(text, from, to) =~= start + replaced(rest, from, to));
    } else {
        let shorter = start.skip(1);
        assert(text.skip(0) =~= text);
        assert(text.skip(1) =~= shorter + rest);
        assert forall|i: int| 0 <= i < shorter.len() implies !from.is_prefix_of(
            #[trigger] (shorter + rest).skip(i),
        ) by {
            assert((shorter + rest).skip(i) =~= text.skip(i + 1));
        }
        lemma_replaced_past(shorter, rest, from, to);
        assert(seq![text[0]] + (shorter + replaced(rest, from, to)) =~= start + replaced(
            rest,
            from,
            to,
        ));
    }
}

/// Where no part holds some element of a separator, and each part but the last ends with an element
/// that the separator does not hold, the separator occurs in the joined text only where it joins
/// two parts. Replacing it there gives the text joined with the other separator.
pub proof fn lemma_replaced_joined<T>(
    parts: Seq<Seq<T>>,
    from: Seq<T>,
    to: Seq<T>,
    inside: T,
    ending: T,
)
    requires
        parts.len() > 0,
        from.contains(inside),
        !from.contains(ending),
        forall|i: int| 0 <= i < parts.len() ==> !(#[trigger] parts[i]).contains(inside),
        forall|i: int|
            0 <= i < parts.len() - 1 ==> (#[trigger] parts[i]).len() > 0 && parts[i].last()
                == ending,
    ensures
        replaced(joined(parts, from), from, to) == joined(parts, to),
        occurrences(joined(parts, from), from) == parts.len() - 1,
    decreases parts.len(),
{
    let first = parts[0];
    let at = choose|k: int| 0 <= k < from.len() && from[k] == inside;
    let rest = if parts.len() == 1 {
        Seq::<T>::empty()
    } else {
        from + joined(parts.skip(1), from)
    };
    let text = first + rest;
    assert forall|i: int| 0 <= i < first.len() implies !from.is_prefix_of(
        #[trigger] text.skip(i),
    ) by {
        if from.is_prefix_of(text.skip(i)) {
            let there = text.skip(i);
            assert(forall|k: int| 0 <= k < from.len() ==> from[k] == there[k]);
            if i + from.len() <= first.len() {
                assert(there[at] == first[i + at]);
                assert(first.contains(inside));
            } else {
                let last = first.len() - 1 - i;
                assert(there[last] == first.last());
                assert(from[last] == ending);
                assert(from.contains(ending));
            }
        }
    }
    lemma_replaced_past(first, rest, from, to);
    if parts.len() == 1 {
        assert(text =~= joined(parts, from));
        assert(first + replaced(rest, from, to) =~= joined(parts, to));
    } else {
        let others = parts.skip(1);
        assert forall|i: int| 0 <= i < others.len() implies !(#[trigger] others[i]).contains(
            inside,
        ) by {
            assert(others[i] == parts[i + 1]);
        }
        assert forall|i: int| 0 <= i < others.len() - 1 implies (#[trigger] others[i]).len() > 0
            && others[i].last() == ending by {
            assert(others[i] == parts[i + 1]);
        }
        lemma_replaced_joined(others, from, to, inside, ending);
        lemma_joined_front(parts, from);
        lemma_joined_front(parts, to);
        assert(from =~= rest.subrange(0, from.len() as int));
        assert(rest.skip(from.len() as int) =~= joined(others, from));
    }
}

/// There is at least one part, no part holds the separator, and joining the parts with
/// the separator gives the text back.
pub proof fn lemma_split_parts<T>(text: Seq<T>, separator: T)
    ensures
        split_on(text, separator).len() > 0,
        forall|i: int|
            0 <= i < split_on(text, separator).len() ==> !(#[trigger] split_on(
                text,
                separator,
            )[i]).contains(separator),
        joined(split_on(text, separator), seq![separator]) == text,
    decreases text.len(),
{
    if text.len() > 0 {
        let shorter = text.drop_last();
        lemma_split_parts(shorter, separator);
        let parts = split_on(shorter, separator);
        let all = split_on(text, separator);
        let glue = seq![separator];
        if text.last() == separator {
            assert(all.drop_last() =~= parts);
            assert(joined(all, glue) =~= text);
        } else {
            let grown = parts.last().push(text.last());
            assert forall|c: T| grown.contains(c) implies parts.last().contains(c) || c
                == text.last() by {
                let k = choose|k: int| 0 <= k < grown.len() && grown[k] == c;
                if k < parts.last().len() {
                    assert(parts.last()[k] == c);
                }
            }
            assert(!parts[parts.len() - 1].contains(separator));
            assert(!grown.contains(separator));
            assert forall|i: int| 0 <= i < all.len() implies !(#[trigger] all[i]).contains(
                separator,
            ) by {
                if i < all.len() - 1 {
                    assert(all[i] == parts[i]);
                } else {
                    assert(all[i] == grown);
                }
            }
            assert(all.last() == grown);
            if parts.len() > 1 {
                assert(all.drop_last() =~= parts.drop_last());
                assert(joined(all, glue) =~= joined(parts, glue).push(text.last()));
            } else {
                assert(joined(all, glue) == grown);
                assert(joined(parts, glue) == parts[0]);
            }
            assert(joined(all, glue) =~= text);
        }
    }
}

/// Splits `text` at every `separator`.
pub fn split(text: &str, separator: char) -> (parts: Vec<String>)
    ensures
        texts(parts@) == split_on(text@, separator),
        parts@.len() > 0,
{
    let chars = chars_of(text);
    let mut parts: Vec<String> = Vec::new();
    let mut current = String::new();
    let mut i: usize = 0;
    while i < chars.len()
        invariant
            i <= chars@.len(),
            texts(parts@).push(current@) =~= split_on(chars@.take(i as int), separator),
        decreases chars@.len() - i,
    {
        let c = chars[i];
        let ghost before = chars@.take(i as int);
        let ghost after = chars@.take(i as int + 1);
        let ghost earlier = texts(parts@).push(current@);
        assert(after.drop_last() =~= before);
        assert(earlier.drop_last() =~= texts(parts@));
        if c == separator {
            parts.push(current);
            current = String::new();
            assert(texts(parts@) =~= earlier);
        } else {
            current.push(c);
        }
        i += 1;
    }
    assert(chars@.take(i as int) =~= text@);
    parts.push(current);
    assert(texts(parts@) =~= split_on(text@, separator));
    parts
}

/// Splits `bytes` at every `separator`.
pub fn split_bytes(bytes: &[u8], separator: u8) -> (parts: Vec<Vec<u8>>)
    ensures
        byte_rows(parts@) == split_on(bytes@, separator),
        parts@.len() > 0,
{
    let mut parts: Vec<Vec<u8>> = Vec::new();
    let mut current: Vec<u8> = Vec::new();
    let mut i: usize = 0;
    while i < bytes.len()
        invariant
            i <= bytes@.len(),
            byte_rows(parts@).push(current@) =~= split_on(bytes@.take(i as int), separator),
        decreases bytes@.len() - i,
    {
        let b = bytes[i];
        let ghost earlier = byte_rows(parts@).push(current@);
        assert(bytes@.take(i as int + 1).drop_last() =~= bytes@.take(i as int));
        assert(earlier.drop_last() =~= byte_rows(parts@));
        if b == separator {
            parts.push(current);
            current = Vec::new();
            assert(byte_rows(parts@) =~= earlier);
        } else {
            current.push(b);
        }
        i += 1;
    }
    assert(bytes@.take(i as int) =~= bytes@);
    parts.push(current);
    assert(byte_rows(parts@) =~= split_on(bytes@, separator));
    parts
}

/// A text without one carriage return at its end.
pub open spec fn without_return(line: Seq<char>) -> Seq<char> {
    if line.len() > 0 && line.last() == '\r' {
        line.drop_last()
    } else {
        line
    }
}

/// The lines of a text, without their line ends. What follows the last line end is a line where
/// it is not empty.
pub open spec fn lines_of(text: Seq<char>) -> Seq<Seq<char>> {
    let parts = split_on(text, '\n');
    let ended = parts.drop_last().map_values(|line: Seq<char>| without_return(line));
    if parts.last().len() > 0 {
        ended.push(parts.last())
    } else {
        ended
    }
}

/// The lines of a text.
pub fn lines(text: &str) -> (lines: Vec<String>)
    ensures
        texts(lines@) == lines_of(text@),
{
    let parts = split(text, '\n');
    let ghost rows = split_on(text@, '\n');
    let ghost ended = rows.drop_last().map_values(|line: Seq<char>| without_return(line));
    let mut lines: Vec<String> = Vec::new();
    let last: usize = parts.len() - 1;
    let mut i: usize = 0;
    while i < last
        invariant
            i <= last,
            last == parts@.len() - 1,
            texts(parts@) == rows,
            ended == rows.drop_last().map_values(|line: Seq<char>| without_return(line)),
            texts(lines@) == ended.take(i as int),
        decreases last - i,
    {
        let part = parts[i].as_str();
        assert(rows[i as int] == part@);
        let line = match strip_suffix(part, "\r") {
            Some(line) => {
                proof {
                    reveal_strlit("\r");
                    assert(part@.last() == '\r');
                    assert(line@ =~= part@.drop_last());
                }
                line
            },
            None => {
                proof {
                    reveal_strlit("\r");
                    if part@.len() > 0 && part@.last() == '\r' {
                        assert("\r"@ =~= part@.subrange(part@.len() - 1, part@.len() as int));
                    }
                }
                part.to_owned()
            },
        };
        let ghost before = texts(lines@);
        assert(line@ == ended[i as int]);
        lines.push(line);
        assert(texts(lines@) =~= before.push(line@));
        i += 1;
        assert(texts(lines@) =~= ended.take(i as int));
    }
    assert(ended.take(i as int) =~= ended);
    assert(rows[last as int] == parts@[last as int]@);
    if !parts[last].as_str().is_empty() {
        let ghost before = texts(lines@);
        lines.push(parts[last].clone());
        assert(texts(lines@) =~= before.push(rows.last()));
    }
    lines
}

/// Joins `parts` with `separator` between each two neighbours.
pub fn join(parts: &Vec<String>, separator: &str) -> (text: String)
    ensures
        text@ == joined(texts(parts@), separator@),
{
    let mut text = String::new();
    let mut i: usize = 0;
    while i < parts.len()
        invariant
            i <= parts@.len(),
            text@ == joined(texts(parts@).take(i as int), separator@),
        decreases parts@.len() - i,
    {
        let ghost longer = texts(parts@).take(i as int + 1);
        assert(longer.drop_last() =~= texts(parts@).take(i as int));
        if i > 0 {
            text.append(separator);
        }
        text.append(parts[i].as_str());
        assert(text@ =~= joined(longer, separator@));
        i += 1;
    }
    assert(texts(parts@).take(i as int) =~= texts(parts@));
    text
}

// Classes of characters

/// The characters with the Unicode property `White_Space`.
pub open spec fn is_space(c: char) -> bool {
    let v = c as u32;
    ||| 0x09 <= v <= 0x0d
    ||| v == 0x20
    ||| v == 0x85
    ||| v == 0xa0
    ||| v == 0x1680
    ||| 0x2000 <= v <= 0x200a
    ||| v == 0x2028
    ||| v == 0x2029
    ||| v == 0x202f
    ||| v == 0x205f
    ||| v == 0x3000
}

/// Whether `c` is white space.
pub fn whitespace(c: char) -> (yes: bool)
    ensures
        yes == is_space(c),
{
    let v: u32 = c as u32;
    (0x09 <= v && v <= 0x0d) || v == 0x20 || v == 0x85 || v == 0xa0 || v == 0x1680 || (0x2000 <= v
        && v <= 0x200a) || v == 0x2028 || v == 0x2029 || v == 0x202f || v == 0x205f || v == 0x3000
}

/// The control characters: the general category `Cc`.
pub open spec fn is_control(c: char) -> bool {
    c as u32 <= 0x1f || 0x7f <= c as u32 <= 0x9f
}

/// Whether a text holds no control character.
pub open spec fn printable(text: Seq<char>) -> bool {
    forall|i: int| 0 <= i < text.len() ==> !is_control(#[trigger] text[i])
}

/// Whether `text` holds no control character.
pub fn is_printable(text: &str) -> (yes: bool)
    ensures
        yes == printable(text@),
{
    let chars = chars_of(text);
    let mut i: usize = 0;
    while i < chars.len()
        invariant
            i <= chars@.len(),
            chars@ == text@,
            forall|k: int| 0 <= k < i ==> !is_control(#[trigger] chars@[k]),
        decreases chars@.len() - i,
    {
        let v: u32 = chars[i] as u32;
        if v <= 0x1f || (0x7f <= v && v <= 0x9f) {
            assert(is_control(text@[i as int]));
            return false;
        }
        i += 1;
    }
    true
}

/// The ASCII letters and digits.
pub open spec fn is_alphanumeric(c: char) -> bool {
    ('0' <= c && c <= '9') || ('A' <= c && c <= 'Z') || ('a' <= c && c <= 'z')
}

/// Whether `c` is an ASCII letter or digit.
pub fn alphanumeric(c: char) -> (yes: bool)
    ensures
        yes == is_alphanumeric(c),
{
    ('0' <= c && c <= '9') || ('A' <= c && c <= 'Z') || ('a' <= c && c <= 'z')
}

/// The hexadecimal digits, of either case.
pub open spec fn is_hex(c: char) -> bool {
    ('0' <= c && c <= '9') || ('A' <= c && c <= 'F') || ('a' <= c && c <= 'f')
}

/// Whether every character of a text is a hexadecimal digit.
pub open spec fn all_hex(text: Seq<char>) -> bool {
    forall|i: int| 0 <= i < text.len() ==> is_hex(#[trigger] text[i])
}

/// Whether `text` is `length` hexadecimal digits.
pub fn is_hex_text(text: &str, length: usize) -> (yes: bool)
    ensures
        yes == (text@.len() == length && all_hex(text@)),
{
    let chars = chars_of(text);
    if chars.len() != length {
        return false;
    }
    let mut i: usize = 0;
    while i < chars.len()
        invariant
            i <= chars@.len(),
            chars@ == text@,
            forall|k: int| 0 <= k < i ==> is_hex(#[trigger] chars@[k]),
        decreases chars@.len() - i,
    {
        let c = chars[i];
        if !(('0' <= c && c <= '9') || ('A' <= c && c <= 'F') || ('a' <= c && c <= 'f')) {
            assert(!is_hex(text@[i as int]));
            return false;
        }
        i += 1;
    }
    true
}

/// A text without the separator is one part.
pub proof fn lemma_split_whole<T>(text: Seq<T>, separator: T)
    requires
        !text.contains(separator),
    ensures
        split_on(text, separator) == seq![text],
    decreases text.len(),
{
    if text.len() > 0 {
        let front = text.drop_last();
        assert forall|i: int| 0 <= i < front.len() implies front[i] != separator by {
            assert(text[i] == front[i]);
        }
        lemma_split_whole(front, separator);
        assert(text.last() != separator);
        assert(front.push(text.last()) =~= text);
        assert(split_on(text, separator) =~= seq![text]);
    } else {
        assert(text =~= Seq::<T>::empty());
    }
}

/// Taking the first of some items away from a list without duplicates takes it away for good, and
/// nothing else.
pub proof fn lemma_remove_first<T>(items: Seq<T>, wanted: T, rest: Seq<T>)
    requires
        items.no_duplicates(),
        rest == if items.contains(wanted) {
            items.remove(first_index(items, wanted))
        } else {
            items
        },
    ensures
        rest.no_duplicates(),
        !rest.contains(wanted),
        forall|other: T| other != wanted ==> #[trigger] rest.contains(other)
            == items.contains(other),
{
    lemma_first_index(items, wanted);
    let at = first_index(items, wanted);
    if items.contains(wanted) {
        assert forall|k: int| 0 <= k < rest.len() implies #[trigger] rest[k] == items[if k < at {
            k
        } else {
            k + 1
        }] by {}
        assert forall|k: int| 0 <= k < rest.len() implies rest[k] != wanted by {
            assert(items[at] == wanted);
        }
        assert forall|other: T| other != wanted implies #[trigger] rest.contains(other)
            == items.contains(other) by {
            if items.contains(other) {
                let j = choose|j: int| 0 <= j < items.len() && items[j] == other;
                assert(rest[if j < at {
                    j
                } else {
                    j - 1
                }] == other);
            }
            if rest.contains(other) {
                let k = choose|k: int| 0 <= k < rest.len() && rest[k] == other;
                assert(items.contains(rest[k]));
            }
        }
    }
}

// Trimming

/// A text without the white space at its start.
pub open spec fn trimmed_start(text: Seq<char>) -> Seq<char>
    decreases text.len(),
{
    if text.len() > 0 && is_space(text[0]) {
        trimmed_start(text.drop_first())
    } else {
        text
    }
}

/// A text without the white space at its end.
pub open spec fn trimmed_end(text: Seq<char>) -> Seq<char>
    decreases text.len(),
{
    if text.len() > 0 && is_space(text.last()) {
        trimmed_end(text.drop_last())
    } else {
        text
    }
}

/// A text without the white space at either end.
pub open spec fn trimmed(text: Seq<char>) -> Seq<char> {
    trimmed_end(trimmed_start(text))
}

/// A text of nothing but white space.
pub open spec fn blank(text: Seq<char>) -> bool {
    forall|i: int| 0 <= i < text.len() ==> is_space(#[trigger] text[i])
}

/// Nothing is left of a text after trimming exactly where it is blank.
pub proof fn lemma_trimmed_blank(text: Seq<char>)
    ensures
        trimmed(text).len() == 0 <==> blank(text),
{
    lemma_trimmed_start(text);
    lemma_trimmed_end(trimmed_start(text));
}

proof fn lemma_trimmed_start(text: Seq<char>)
    ensures
        trimmed_start(text).len() <= text.len(),
        trimmed_start(text).len() > 0 ==> !is_space(trimmed_start(text)[0]),
        trimmed_start(text) == text.skip(text.len() - trimmed_start(text).len()),
        trimmed_start(text).len() == 0 <==> blank(text),
    decreases text.len(),
{
    if text.len() > 0 && is_space(text[0]) {
        let rest = text.drop_first();
        lemma_trimmed_start(rest);
        assert(trimmed_start(text) =~= text.skip(text.len() - trimmed_start(text).len()));
        if blank(rest) {
            assert forall|i: int| 0 <= i < text.len() implies is_space(#[trigger] text[i]) by {
                if i > 0 {
                    assert(text[i] == rest[i - 1]);
                }
            }
        }
        if blank(text) {
            assert forall|i: int| 0 <= i < rest.len() implies is_space(#[trigger] rest[i]) by {
                assert(rest[i] == text[i + 1]);
            }
        }
    } else {
        assert(text.skip(0) =~= text);
        if text.len() > 0 {
            assert(!is_space(text[0]));
        }
    }
}

proof fn lemma_trimmed_end(text: Seq<char>)
    ensures
        trimmed_end(text).len() <= text.len(),
        trimmed_end(text) == text.take(trimmed_end(text).len() as int),
        text.len() > 0 && !is_space(text[0]) ==> trimmed_end(text).len() > 0,
        text.len() == 0 ==> trimmed_end(text).len() == 0,
    decreases text.len(),
{
    if text.len() > 0 && is_space(text.last()) {
        let rest = text.drop_last();
        lemma_trimmed_end(rest);
        assert(trimmed_end(text) =~= text.take(trimmed_end(text).len() as int));
    } else {
        assert(text.take(text.len() as int) =~= text);
    }
}

/// `text` without the white space at either end.
pub fn trim(text: &str) -> (rest: String)
    ensures
        rest@ == trimmed(text@),
{
    let chars = chars_of(text);
    let mut from: usize = 0;
    assert(chars@.skip(0) =~= chars@);
    while from < chars.len() && whitespace(chars[from])
        invariant
            from <= chars@.len(),
            trimmed_start(chars@.skip(from as int)) == trimmed_start(chars@),
        decreases chars@.len() - from,
    {
        assert(chars@.skip(from as int).drop_first() =~= chars@.skip(from as int + 1));
        from += 1;
    }
    let mut to: usize = chars.len();
    assert(chars@.subrange(from as int, to as int) =~= chars@.skip(from as int));
    while to > from && whitespace(chars[to - 1])
        invariant
            from <= to <= chars@.len(),
            trimmed_end(chars@.subrange(from as int, to as int)) == trimmed_end(
                chars@.skip(from as int),
            ),
        decreases to,
    {
        assert(chars@.subrange(from as int, to as int).drop_last() =~= chars@.subrange(
            from as int,
            to - 1,
        ));
        to -= 1;
    }
    text_of(&chars, from, to)
}

/// Whether `text` is nothing but white space.
pub fn is_blank(text: &str) -> (yes: bool)
    ensures
        yes == blank(text@),
{
    let rest = trim(text);
    proof {
        lemma_trimmed_blank(text@);
    }
    rest.as_str().is_empty()
}

// Letter case

/// The lower-case form of an ASCII letter, and any other character as it is.
pub open spec fn lower(c: char) -> char {
    if 'A' <= c && c <= 'Z' {
        (c as u8 + 32) as char
    } else {
        c
    }
}

/// A text with its ASCII letters in lower case.
pub open spec fn lowered(text: Seq<char>) -> Seq<char> {
    text.map_values(|c: char| lower(c))
}

/// Whether two texts differ in nothing but the case of ASCII letters.
pub open spec fn same_letters(left: Seq<char>, right: Seq<char>) -> bool {
    lowered(left) == lowered(right)
}

/// The lower-case form of an ASCII letter.
pub fn to_lower(c: char) -> (lowercase: char)
    ensures
        lowercase == lower(c),
{
    if 'A' <= c && c <= 'Z' {
        (c as u8 + 32) as char
    } else {
        c
    }
}

/// `text` with its ASCII letters in lower case.
pub fn to_ascii_lowercase(text: &str) -> (lowercase: String)
    ensures
        lowercase@ == lowered(text@),
{
    let chars = chars_of(text);
    let mut lowercase = String::new();
    let mut i: usize = 0;
    while i < chars.len()
        invariant
            i <= chars@.len(),
            chars@ == text@,
            lowercase@ == lowered(text@.take(i as int)),
        decreases chars@.len() - i,
    {
        lowercase.push(to_lower(chars[i]));
        i += 1;
        assert(lowercase@ =~= lowered(text@.take(i as int)));
    }
    assert(text@.take(i as int) =~= text@);
    lowercase
}

/// Compares two texts without regard to the case of ASCII letters.
pub fn eq_ignore_ascii_case(left: &str, right: &str) -> (equal: bool)
    ensures
        equal == same_letters(left@, right@),
{
    let a = chars_of(left);
    let b = chars_of(right);
    if a.len() != b.len() {
        assert(lowered(left@).len() != lowered(right@).len());
        return false;
    }
    let mut i: usize = 0;
    while i < a.len()
        invariant
            i <= a@.len(),
            a@.len() == b@.len(),
            a@ == left@,
            b@ == right@,
            forall|k: int| 0 <= k < i ==> lower(a@[k]) == lower(b@[k]),
        decreases a@.len() - i,
    {
        if to_lower(a[i]) != to_lower(b[i]) {
            assert(lowered(left@)[i as int] != lowered(right@)[i as int]);
            return false;
        }
        i += 1;
    }
    assert(lowered(left@) =~= lowered(right@));
    true
}

// Numbers

/// The decimal digit for `value`.
pub open spec fn digit(value: nat) -> char {
    (48 + value) as char
}

/// The decimal notation of a number, without leading zeros.
pub open spec fn decimal(value: nat) -> Seq<char>
    decreases value,
{
    if value < 10 {
        seq![digit(value)]
    } else {
        decimal(value / 10).push(digit(value % 10))
    }
}

/// Writes a number in decimal notation.
pub fn decimal_text(value: u64) -> (text: String)
    ensures
        text@ == decimal(value as nat),
    decreases value,
{
    if value < 10 {
        let mut text = String::new();
        text.push((48 + value as u8) as char);
        assert(text@ =~= decimal(value as nat));
        text
    } else {
        let mut text = decimal_text(value / 10);
        text.push((48 + (value % 10) as u8) as char);
        text
    }
}

/// The decimal notation of a number that may be negative.
pub open spec fn signed_decimal(value: int) -> Seq<char> {
    if value < 0 {
        seq!['-'] + decimal((-value) as nat)
    } else {
        decimal(value as nat)
    }
}

/// Writes a number that may be negative in decimal notation.
pub fn signed_decimal_text(value: i64) -> (text: String)
    ensures
        text@ == signed_decimal(value as int),
{
    if value < 0 {
        let magnitude: u64 = (-((value + 1) as i128)) as u64 + 1;
        let mut text = String::new();
        text.push('-');
        let digits = decimal_text(magnitude);
        text.append(digits.as_str());
        assert(text@ =~= signed_decimal(value as int));
        text
    } else {
        decimal_text(value as u64)
    }
}

/// Different numbers have different decimal notations.
pub proof fn lemma_decimal_injective(left: nat, right: nat)
    ensures
        decimal(left) == decimal(right) ==> left == right,
    decreases left + right,
{
    if decimal(left) == decimal(right) {
        lemma_decimal_digit_count(left);
        lemma_decimal_digit_count(right);
        let l = decimal(left);
        let r = decimal(right);
        assert(l.last() == r.last());
        if left >= 10 && right >= 10 {
            assert(l.drop_last() =~= decimal(left / 10));
            assert(r.drop_last() =~= decimal(right / 10));
            lemma_decimal_injective(left / 10, right / 10);
        } else if left < 10 && right >= 10 {
            lemma_decimal_digit_count(right / 10);
        } else if right < 10 && left >= 10 {
            lemma_decimal_digit_count(left / 10);
        }
    }
}

proof fn lemma_decimal_digit_count(value: nat)
    ensures
        decimal(value).len() > 0,
        decimal(value).last() == digit(value % 10),
        value >= 10 ==> decimal(value).len() > 1,
    decreases value,
{
    if value >= 10 {
        lemma_decimal_digit_count(value / 10);
    }
}

/// The number that decimal digits stand for.
pub open spec fn number(digits: Seq<char>) -> int
    decreases digits.len(),
{
    if digits.len() == 0 {
        0
    } else {
        10 * number(digits.drop_last()) + (digits.last() as int - 48)
    }
}

proof fn lemma_decimal_small(value: nat)
    requires
        value < 1000,
    ensures
        1 <= decimal(value).len() <= 3,
        number(decimal(value)) == value,
        forall|i: int|
            0 <= i < decimal(value).len() ==> '0' <= #[trigger] decimal(value)[i]
                && decimal(value)[i] <= '9',
{
    reveal_with_fuel(decimal, 4);
    reveal_with_fuel(number, 5);
    let digits = decimal(value);
    if value >= 100 {
        assert(digits.drop_last() =~= decimal(value / 10));
        assert(digits.drop_last().drop_last() =~= decimal(value / 100));
        assert(digits.drop_last().drop_last().drop_last() =~= Seq::<char>::empty());
    } else if value >= 10 {
        assert(digits.drop_last() =~= decimal(value / 10));
        assert(digits.drop_last().drop_last() =~= Seq::<char>::empty());
    } else {
        assert(digits.drop_last() =~= Seq::<char>::empty());
    }
}

/// Reads a number up to 255 in decimal notation, without leading zeros.
pub fn octet(text: &str) -> (value: Option<u8>)
    ensures
        match value {
            Some(value) => text@ == decimal(value as nat),
            None => forall|v: u8| text@ != #[trigger] decimal(v as nat),
        },
{
    proof {
        assert forall|v: u8| #[trigger] decimal(v as nat).len() <= 3 by {
            lemma_decimal_small(v as nat);
        }
    }
    let digits = chars_of(text);
    if digits.len() == 0 || digits.len() > 3 {
        proof {
            assert forall|v: u8| text@ != #[trigger] decimal(v as nat) by {
                lemma_decimal_small(v as nat);
            }
        }
        return None;
    }
    let mut value: u16 = 0;
    let mut i: usize = 0;
    while i < digits.len()
        invariant
            i <= digits@.len() <= 3,
            digits@ == text@,
            value == number(digits@.take(i as int)),
            i == 0 ==> value == 0,
            i == 1 ==> value <= 9,
            i == 2 ==> value <= 99,
            i == 3 ==> value <= 999,
        decreases digits@.len() - i,
    {
        let c = digits[i];
        if c < '0' || '9' < c {
            proof {
                assert forall|v: u8| text@ != #[trigger] decimal(v as nat) by {
                    lemma_decimal_small(v as nat);
                }
            }
            return None;
        }
        assert(digits@.take(i as int + 1).drop_last() =~= digits@.take(i as int));
        value = 10 * value + (c as u32 - 48) as u16;
        i += 1;
    }
    assert(digits@.take(i as int) =~= text@);
    if value <= 255 {
        let plain = decimal_text(value as u64);
        if same(plain.as_str(), text) {
            return Some(value as u8);
        }
    }
    proof {
        assert forall|v: u8| text@ != #[trigger] decimal(v as nat) by {
            lemma_decimal_small(v as nat);
        }
    }
    None
}

/// The lower-case hexadecimal digit for `value`.
pub open spec fn hex_digit(value: nat) -> char {
    if value < 10 {
        (48 + value) as char
    } else {
        (87 + value) as char
    }
}

/// Each byte as two lower-case hexadecimal digits.
pub open spec fn hex(bytes: Seq<u8>) -> Seq<char>
    decreases bytes.len(),
{
    if bytes.len() == 0 {
        Seq::empty()
    } else {
        hex(bytes.drop_last()).push(hex_digit(bytes.last() as nat / 16)).push(
            hex_digit(bytes.last() as nat % 16),
        )
    }
}

fn hex_char(value: u8) -> (c: char)
    requires
        value < 16,
    ensures
        c == hex_digit(value as nat),
{
    if value < 10 {
        (48 + value) as char
    } else {
        (87 + value) as char
    }
}

/// Writes each byte as two lower-case hexadecimal digits.
pub fn hex_text(bytes: &[u8]) -> (text: String)
    ensures
        text@ == hex(bytes@),
{
    let mut text = String::new();
    let mut i: usize = 0;
    while i < bytes.len()
        invariant
            i <= bytes@.len(),
            text@ == hex(bytes@.take(i as int)),
        decreases bytes@.len() - i,
    {
        let byte = bytes[i];
        text.push(hex_char(byte / 16));
        text.push(hex_char(byte % 16));
        assert(bytes@.take(i as int + 1).drop_last() =~= bytes@.take(i as int));
        i += 1;
    }
    assert(bytes@.take(i as int) =~= bytes@);
    text
}

/// Hexadecimal notation holds no upper-case letter.
pub proof fn lemma_hex_lowered(bytes: Seq<u8>)
    ensures
        lowered(hex(bytes)) == hex(bytes),
    decreases bytes.len(),
{
    if bytes.len() > 0 {
        lemma_hex_lowered(bytes.drop_last());
        let rest = hex(bytes.drop_last());
        assert forall|i: int| 0 <= i < hex(bytes).len() implies #[trigger] lowered(hex(bytes))[i]
            == hex(bytes)[i] by {
            if i < rest.len() {
                assert(lowered(rest)[i] == rest[i]);
            }
        }
    }
    assert(lowered(hex(bytes)) =~= hex(bytes));
}

/// Different bytes have different hexadecimal notations.
pub proof fn lemma_hex_injective(left: Seq<u8>, right: Seq<u8>)
    requires
        hex(left) == hex(right),
    ensures
        left == right,
    decreases left.len(),
{
    lemma_hex(left);
    lemma_hex(right);
    if left.len() > 0 {
        let l = hex(left);
        let r = hex(right);
        let a = left.last();
        let b = right.last();
        assert(l.drop_last().drop_last() =~= hex(left.drop_last()));
        assert(r.drop_last().drop_last() =~= hex(right.drop_last()));
        lemma_hex_injective(left.drop_last(), right.drop_last());
        assert(l[l.len() - 1] == hex_digit(a as nat % 16));
        assert(r[r.len() - 1] == hex_digit(b as nat % 16));
        assert(l[l.len() - 2] == hex_digit(a as nat / 16));
        assert(r[r.len() - 2] == hex_digit(b as nat / 16));
        assert(a == b);
        assert(left =~= left.drop_last().push(a));
        assert(right =~= right.drop_last().push(b));
    } else {
        assert(left =~= right);
    }
}

/// Two hexadecimal digits stand for each byte, and nothing else occurs.
pub proof fn lemma_hex(bytes: Seq<u8>)
    ensures
        hex(bytes).len() == 2 * bytes.len(),
        all_hex(hex(bytes)),
    decreases bytes.len(),
{
    if bytes.len() > 0 {
        lemma_hex(bytes.drop_last());
    }
}

// Laws of texts

/// The kinds of characters, as ASCII has them.
pub proof fn lemma_kinds_of_characters(c: char)
    ensures
        is_space(' ') && is_space('\t') && is_space('\n') && is_space('\r'),
        is_alphanumeric(c) <==> '0' <= c <= '9' || 'A' <= c <= 'Z' || 'a' <= c <= 'z',
        is_hex(c) <==> '0' <= c <= '9' || 'A' <= c <= 'F' || 'a' <= c <= 'f',
        is_alphanumeric(c) ==> !is_space(c) && !is_control(c),
        c as u32 > 0x20 && (c as u32) < 0x7f ==> !is_space(c),
        is_control('\n') && is_control('\r') && is_control('\t') && is_control('\0'),
        0x20 <= c as u32 <= 0x7e ==> !is_control(c),
        (c as u32) < 0x20 || c as u32 == 0x7f ==> is_control(c),
{
}

/// Whether a text is hexadecimal, or holds no control character, shows in its characters.
pub proof fn lemma_texts_of_one_kind(text: Seq<char>, next: char)
    ensures
        all_hex(Seq::empty()),
        printable(Seq::empty()),
        all_hex(text.push(next)) <==> all_hex(text) && is_hex(next),
        printable(text.push(next)) <==> printable(text) && !is_control(next),
{
    let longer = text.push(next);
    assert(longer[text.len() as int] == next);
    assert(forall|i: int| 0 <= i < text.len() ==> longer[i] == text[i]);
    if all_hex(longer) {
        assert forall|i: int| 0 <= i < text.len() implies is_hex(#[trigger] text[i]) by {
            assert(is_hex(longer[i]));
        }
    }
    if printable(longer) {
        assert forall|i: int| 0 <= i < text.len() implies !is_control(#[trigger] text[i]) by {
            assert(!is_control(longer[i]));
        }
    }
}

proof fn lemma_trimmed_start_drops_space(text: Seq<char>)
    ensures
        trimmed_start(text).len() <= text.len(),
        trimmed_start(text) == text.skip(text.len() - trimmed_start(text).len()),
        forall|i: int|
            0 <= i < text.len() - trimmed_start(text).len() ==> is_space(#[trigger] text[i]),
    decreases text.len(),
{
    if text.len() > 0 && is_space(text[0]) {
        let rest = text.drop_first();
        lemma_trimmed_start_drops_space(rest);
        assert forall|i: int| 0 <= i < text.len() - trimmed_start(text).len() implies is_space(
            #[trigger] text[i],
        ) by {
            if i > 0 {
                assert(is_space(rest[i - 1]));
            }
        }
        assert(trimmed_start(text) =~= text.skip(text.len() - trimmed_start(text).len()));
    } else {
        assert(text.skip(0) =~= text);
    }
}

proof fn lemma_trimmed_end_drops_space(text: Seq<char>)
    ensures
        trimmed_end(text).len() <= text.len(),
        trimmed_end(text) == text.take(trimmed_end(text).len() as int),
        forall|i: int| trimmed_end(text).len() <= i < text.len() ==> is_space(#[trigger] text[i]),
        trimmed_end(text).len() > 0 ==> !is_space(trimmed_end(text).last()),
    decreases text.len(),
{
    if text.len() > 0 && is_space(text.last()) {
        let rest = text.drop_last();
        lemma_trimmed_end_drops_space(rest);
        assert forall|i: int| trimmed_end(text).len() <= i < text.len() implies is_space(
            #[trigger] text[i],
        ) by {
            if i < rest.len() {
                assert(is_space(rest[i]));
            }
        }
        assert(trimmed_end(text) =~= text.take(trimmed_end(text).len() as int));
    } else {
        assert(text.take(text.len() as int) =~= text);
    }
}

/// Trimming takes away white space at both ends, all of it and nothing else.
pub proof fn lemma_trimming(text: Seq<char>) -> (from: int)
    ensures
        ({
            let kept = trimmed(text);
            &&& 0 <= from <= from + kept.len() <= text.len()
            &&& kept == text.subrange(from, from + kept.len())
            &&& forall|i: int| 0 <= i < from ==> is_space(#[trigger] text[i])
            &&& forall|i: int| from + kept.len() <= i < text.len() ==> is_space(#[trigger] text[i])
            &&& kept.len() > 0 ==> !is_space(kept[0]) && !is_space(kept.last())
        }),
{
    let begun = trimmed_start(text);
    let kept = trimmed(text);
    let from = text.len() - begun.len();
    lemma_trimmed_start_drops_space(text);
    lemma_trimmed_start(text);
    lemma_trimmed_end_drops_space(begun);
    assert(kept =~= text.subrange(from, from + kept.len()));
    assert forall|i: int| from + kept.len()
        <= i < text.len() implies is_space(#[trigger] text[i]) by {
        assert(is_space(begun[i - from]));
    }
    from
}

/// Splitting goes on behind a separator: the parts before it come first, then those behind it.
pub proof fn lemma_split_goes_on<T>(left: Seq<T>, separator: T, right: Seq<T>)
    ensures
        split_on(left + seq![separator] + right, separator) == split_on(left, separator) + split_on(
            right,
            separator,
        ),
        split_on(left, separator).len() >= 1,
        !left.contains(separator) ==> split_on(left, separator) == seq![left],
    decreases right.len(),
{
    lemma_split_parts(left, separator);
    lemma_split_parts(right, separator);
    if !left.contains(separator) {
        lemma_split_whole(left, separator);
    }
    let whole = left + seq![separator] + right;
    if right.len() == 0 {
        assert(whole.drop_last() =~= left);
        assert(split_on(whole, separator) =~= split_on(left, separator) + split_on(
            right,
            separator,
        ));
    } else {
        let front = right.drop_last();
        lemma_split_goes_on(left, separator, front);
        lemma_split_parts(front, separator);
        assert(whole.drop_last() =~= left + seq![separator] + front);
        assert(whole.last() == right.last());
        assert(split_on(whole, separator) =~= split_on(left, separator) + split_on(
            right,
            separator,
        ));
    }
}

/// A text is split at the first separator, where it has one.
pub proof fn lemma_first_split(text: Seq<char>, separator: char)
    ensures
        split_at_first(text, separator) is None <==> !text.contains(separator),
        split_at_first(text, separator) matches Some(halves) ==> text == halves.0 + seq![separator]
            + halves.1 && !halves.0.contains(separator),
{
    lemma_first_index(text, separator);
    let at = first_index(text, separator);
    if at < text.len() {
        assert(text =~= text.take(at) + seq![separator] + text.skip(at + 1));
        if text.take(at).contains(separator) {
            let k = choose|k: int| 0 <= k < at && text.take(at)[k] == separator;
            assert(text[k] == separator);
        }
    }
}

/// A line ends at a line feed, before which one carriage return does not count; what follows the
/// last line feed is a line only where there is something.
pub proof fn lemma_lines(line: Seq<char>, rest: Seq<char>)
    requires
        !line.contains('\n'),
    ensures
        lines_of(Seq::empty()).len() == 0,
        line.len() > 0 ==> lines_of(line) == seq![line],
        line.len() == 0 || line.last() != '\r' ==> lines_of(line + seq!['\n'] + rest) == seq![line]
            + lines_of(rest),
        line.len() > 0 && line.last() == '\r' ==> lines_of(line + seq!['\n'] + rest) == seq![
            line.drop_last(),
        ] + lines_of(rest),
{
    lemma_split_goes_on(line, '\n', rest);
    lemma_split_whole(line, '\n');
    lemma_split_parts(rest, '\n');
    let whole = line + seq!['\n'] + rest;
    let parts = split_on(whole, '\n');
    let tail = split_on(rest, '\n');
    assert(split_on(line, '\n') == seq![line]);
    assert(parts =~= seq![line] + tail);
    assert(parts.last() == tail.last());
    let ended = parts.drop_last().map_values(|l: Seq<char>| without_return(l));
    let tail_ended = tail.drop_last().map_values(|l: Seq<char>| without_return(l));
    assert(ended =~= seq![without_return(line)] + tail_ended);
    assert(lines_of(whole) =~= seq![without_return(line)] + lines_of(rest));
    assert(split_on(line, '\n').drop_last().map_values(|l: Seq<char>| without_return(l)) =~= Seq::<
        Seq<char>,
    >::empty());
    assert(lines_of(line) =~= if line.len() > 0 {
        seq![line]
    } else {
        Seq::<Seq<char>>::empty()
    });
    assert(line.len() == 0 ==> line =~= Seq::<char>::empty());
    lemma_split_whole(Seq::<char>::empty(), '\n');
    assert(split_on(Seq::<char>::empty(), '\n').drop_last().map_values(
        |l: Seq<char>| without_return(l),
    ) =~= Seq::<Seq<char>>::empty());
}

/// The case of ASCII letters is all that the comparison of letters leaves out.
pub proof fn lemma_letters(left: Seq<char>, right: Seq<char>)
    ensures
        same_letters(left, left),
        same_letters(left, right) ==> left.len() == right.len(),
        same_letters(left, right) <==> left.len() == right.len() && forall|i: int|
            0 <= i < left.len() ==> #[trigger] left[i] == right[i] || 'A' <= left[i] <= 'Z'
                && right[i] as int == left[i] as int + 32 || 'A' <= right[i] <= 'Z'
                    && left[i] as int
                == right[i] as int + 32,
{
    let (l, r) = (lowered(left), lowered(right));
    if same_letters(left, right) {
        assert(l.len() == left.len() && r.len() == right.len());
        assert forall|i: int| 0 <= i < left.len() implies #[trigger] left[i] == right[i] || 'A'
            <= left[i] <= 'Z' && right[i] as int == left[i] as int + 32 || 'A' <= right[i] <= 'Z'
            && left[i] as int == right[i] as int + 32 by {
            assert(l[i] == r[i]);
            assert(l[i] == lower(left[i]) && r[i] == lower(right[i]));
        }
    }
    if left.len() == right.len() && forall|i: int|
        0 <= i < left.len() ==> #[trigger] left[i] == right[i] || 'A' <= left[i] <= 'Z'
            && right[i] as int == left[i] as int + 32 || 'A' <= right[i] <= 'Z' && left[i] as int
            == right[i] as int + 32 {
        assert forall|i: int| 0 <= i < l.len() implies l[i] == r[i] by {
            assert(left[i] == right[i] || 'A' <= left[i] <= 'Z' && right[i] as int == left[i] as int
                + 32 || 'A' <= right[i] <= 'Z' && left[i] as int == right[i] as int + 32);
            assert(l[i] == lower(left[i]) && r[i] == lower(right[i]));
        }
        assert(l =~= r);
    }
}

/// A number is read back from its decimal notation, which is nothing but digits and does not begin
/// with a zero unless it is zero.
pub proof fn lemma_decimal_is_read_back(value: nat)
    ensures
        number(decimal(value)) == value,
        decimal(value).len() > 0,
        forall|i: int|
            0 <= i < decimal(value).len() ==> '0' <= #[trigger] decimal(value)[i]
                && decimal(value)[i] <= '9',
        value > 0 ==> decimal(value)[0] != '0',
        signed_decimal(value as int) == decimal(value),
        value > 0 ==> signed_decimal(-(value as int)) == seq!['-'] + decimal(value),
    decreases value,
{
    let digits = decimal(value);
    if value < 10 {
        assert(digits.drop_last() =~= Seq::<char>::empty());
        reveal_with_fuel(number, 2);
    } else {
        lemma_decimal_is_read_back(value / 10);
        assert(digits.drop_last() =~= decimal(value / 10));
        assert(digits[0] == decimal(value / 10)[0]);
    }
}

/// Texts are compared by what they hold.
pub proof fn lemma_views_of_texts(strings: Seq<String>, one: Option<String>, i: int)
    ensures
        texts(strings).len() == strings.len(),
        0 <= i < strings.len() ==> texts(strings)[i] == strings[i]@,
        optional(one) == if one is Some { Some(one->0@) } else { None::<Seq<char>> },
{
}

/// A text that is there is itself.
pub proof fn lemma_view_of_an_optional_text(one: &str)
    ensures
        optional_str(Some(one)) == Some(one@),
        optional_str(None) is None,
{
}

} // verus!
