//! Texts and lists of texts, as JSON.
use vstd::prelude::*;

use crate::text;

verus! {

/// A character inside a JSON string: quotes, backslashes and control characters are escaped.
pub open spec fn escaped(c: char) -> Seq<char> {
    let value = c as nat;
    if c == '"' || c == '\\' {
        seq!['\\', c]
    } else if value >= 32 {
        seq![c]
    } else if value == 8 {
        seq!['\\', 'b']
    } else if value == 9 {
        seq!['\\', 't']
    } else if value == 10 {
        seq!['\\', 'n']
    } else if value == 12 {
        seq!['\\', 'f']
    } else if value == 13 {
        seq!['\\', 'r']
    } else {
        seq!['\\', 'u', '0', '0', text::hex_digit(value / 16), text::hex_digit(value % 16)]
    }
}

/// A text, as JSON.
pub open spec fn quoted(text: Seq<char>) -> Seq<char> {
    "\""@ + text.map_values(|c: char| escaped(c)).flatten() + "\""@
}

/// A list of texts, as JSON.
pub open spec fn list_text(list: Seq<Seq<char>>) -> Seq<char> {
    "["@ + text::joined(list.map_values(|text: Seq<char>| quoted(text)), ","@) + "]"@
}

proof fn lemma_escapes_begin_apart(left: char, right: char, after: Seq<char>, end: Seq<char>)
    requires
        escaped(left) + after == escaped(right) + end,
    ensures
        left == right,
        after == end,
{
    let (l, r) = (escaped(left), escaped(right));
    let whole = l + after;
    assert(whole[0] == l[0] && whole[0] == r[0]);
    if l.len() > 1 {
        assert(whole[1] == l[1] && whole[1] == r[1]);
        if l.len() > 2 {
            assert(whole[4] == l[4] && whole[4] == r[4]);
            assert(whole[5] == l[5] && whole[5] == r[5]);
        }
    }
    assert(left == right);
    assert(after =~= whole.skip(l.len() as int));
    assert(end =~= whole.skip(l.len() as int));
}

proof fn lemma_quoted_ends_apart(
    left: Seq<char>,
    right: Seq<char>,
    after: Seq<char>,
    end: Seq<char>,
)
    requires
        left.map_values(|c: char| escaped(c)).flatten() + ("\""@ + after) == right.map_values(
            |c: char| escaped(c),
        ).flatten() + ("\""@ + end),
    ensures
        left == right,
        after == end,
    decreases left.len(),
{
    reveal_strlit("\"");
    let (l, r) = (
        left.map_values(|c: char| escaped(c)),
        right.map_values(|c: char| escaped(c)),
    );
    let (after_l, after_r) = ("\""@ + after, "\""@ + end);
    let whole = l.flatten() + after_l;
    assert(left.len() == 0 ==> whole =~= after_l);
    assert(right.len() == 0 ==> whole =~= after_r);
    if left.len() > 0 {
        let rest = left.skip(1);
        assert(l.drop_first() =~= rest.map_values(|c: char| escaped(c)));
        let following = rest.map_values(|c: char| escaped(c)).flatten() + after_l;
        assert(whole =~= escaped(left[0]) + following);
        assert(whole[0] == escaped(left[0])[0]);
    }
    if right.len() > 0 {
        let rest = right.skip(1);
        assert(r.drop_first() =~= rest.map_values(|c: char| escaped(c)));
        let following = rest.map_values(|c: char| escaped(c)).flatten() + after_r;
        assert(whole =~= escaped(right[0]) + following);
        assert(whole[0] == escaped(right[0])[0]);
    }
    if left.len() == 0 || right.len() == 0 {
        assert(left.len() == 0 && right.len() == 0);
        assert(left =~= right);
        assert(after =~= whole.skip(1));
        assert(end =~= whole.skip(1));
    } else {
        let (others, rest) = (left.skip(1), right.skip(1));
        lemma_escapes_begin_apart(
            left[0],
            right[0],
            others.map_values(|c: char| escaped(c)).flatten() + after_l,
            rest.map_values(|c: char| escaped(c)).flatten() + after_r,
        );
        lemma_quoted_ends_apart(others, rest, after, end);
        assert(left =~= seq![left[0]] + others);
        assert(right =~= seq![right[0]] + rest);
    }
}

proof fn lemma_quoted_apart(left: Seq<char>, right: Seq<char>, after: Seq<char>, end: Seq<char>)
    requires
        quoted(left) + after == quoted(right) + end,
    ensures
        left == right,
        after == end,
{
    reveal_strlit("\"");
    let whole = quoted(left) + after;
    let l = left.map_values(|c: char| escaped(c)).flatten() + ("\""@ + after);
    let r = right.map_values(|c: char| escaped(c)).flatten() + ("\""@ + end);
    assert(l =~= whole.skip(1));
    assert(r =~= whole.skip(1));
    lemma_quoted_ends_apart(left, right, after, end);
}

/// A list behind its bracket, with what follows it.
spec fn listed(list: Seq<Seq<char>>, after: Seq<char>) -> Seq<char> {
    text::joined(list.map_values(|text: Seq<char>| quoted(text)), ","@) + ("]"@ + after)
}

proof fn lemma_listed_front(list: Seq<Seq<char>>, after: Seq<char>)
    ensures
        list.len() == 0 ==> listed(list, after) == "]"@ + after,
        list.len() == 1 ==> listed(list, after) == quoted(list[0]) + ("]"@ + after),
        list.len() > 1 ==> listed(list, after) == quoted(list[0]) + (","@ + listed(
            list.skip(1),
            after,
        )),
{
    let parts = list.map_values(|text: Seq<char>| quoted(text));
    if list.len() == 0 {
        assert(listed(list, after) =~= "]"@ + after);
    } else if list.len() > 1 {
        text::lemma_joined_front(parts, ","@);
        assert(parts.skip(1) =~= list.skip(1).map_values(|text: Seq<char>| quoted(text)));
        assert(listed(list, after) =~= quoted(list[0]) + (","@ + listed(list.skip(1), after)));
    }
}

proof fn lemma_listed_apart(
    left: Seq<Seq<char>>,
    right: Seq<Seq<char>>,
    after: Seq<char>,
    end: Seq<char>,
)
    requires
        listed(left, after) == listed(right, end),
    ensures
        left == right,
        after == end,
    decreases left.len(),
{
    reveal_strlit("]");
    reveal_strlit(",");
    reveal_strlit("\"");
    lemma_listed_front(left, after);
    lemma_listed_front(right, end);
    let whole = listed(left, after);
    if left.len() == 0 || right.len() == 0 {
        assert(left.len() == 0 ==> whole[0] == ']');
        assert(right.len() == 0 ==> whole[0] == ']');
        assert(left.len() > 0 ==> whole[0] == quoted(left[0])[0]);
        assert(right.len() > 0 ==> whole[0] == quoted(right[0])[0]);
        assert(left =~= right);
        assert(after =~= whole.skip(1));
        assert(end =~= whole.skip(1));
    } else {
        let l = if left.len() == 1 {
            "]"@ + after
        } else {
            ","@ + listed(left.skip(1), after)
        };
        let r = if right.len() == 1 {
            "]"@ + end
        } else {
            ","@ + listed(right.skip(1), end)
        };
        lemma_quoted_apart(left[0], right[0], l, r);
        assert(l[0] == r[0]);
        if left.len() == 1 {
            assert(after =~= l.skip(1));
            assert(end =~= r.skip(1));
            assert(left =~= right);
        } else {
            assert(listed(left.skip(1), after) =~= l.skip(1));
            assert(listed(right.skip(1), end) =~= r.skip(1));
            lemma_listed_apart(left.skip(1), right.skip(1), after, end);
            assert(left =~= seq![left[0]] + left.skip(1));
            assert(right =~= seq![right[0]] + right.skip(1));
        }
    }
}

/// Two lists with the same JSON are the same list, whatever follows them.
pub proof fn lemma_lists_apart(
    left: Seq<Seq<char>>,
    right: Seq<Seq<char>>,
    after: Seq<char>,
    end: Seq<char>,
)
    requires
        list_text(left) + after == list_text(right) + end,
    ensures
        left == right,
        after == end,
{
    reveal_strlit("[");
    reveal_strlit("]");
    let whole = list_text(left) + after;
    assert(listed(left, after) =~= whole.skip(1));
    assert(listed(right, end) =~= whole.skip(1));
    lemma_listed_apart(left, right, after, end);
}

// Laws

/// A character stands for itself but for the quote, the backslash and the control characters; each
/// of these is escaped.
pub proof fn lemma_escapes(c: char)
    ensures
        c == '"' || c == '\\' ==> escaped(c) == seq!['\\', c],
        c != '"' && c != '\\' && c as u32 >= 32 ==> escaped(c) == seq![c],
        c == '\n' ==> escaped(c) == seq!['\\', 'n'],
        c == '\r' ==> escaped(c) == seq!['\\', 'r'],
        c == '\t' ==> escaped(c) == seq!['\\', 't'],
        c as u32 == 8 ==> escaped(c) == seq!['\\', 'b'],
        c as u32 == 12 ==> escaped(c) == seq!['\\', 'f'],
        c as u32 == 0 ==> escaped(c) == seq!['\\', 'u', '0', '0', '0', '0'],
        c as u32 == 27 ==> escaped(c) == seq!['\\', 'u', '0', '0', '1', 'b'],
        32 > c as u32 ==> escaped(c).len() >= 2 && escaped(c)[0] == '\\',
{
}

/// A text is quoted character by character, a list text by text with commas between them.
pub proof fn lemma_quoted_step(text: Seq<char>, next: char, list: Seq<Seq<char>>)
    ensures
        quoted(Seq::<char>::empty()) == "\""@ + "\""@,
        list_text(Seq::<Seq<char>>::empty()) == "["@ + "]"@,
        quoted(text.push(next)) == quoted(text).drop_last() + escaped(next) + "\""@,
        list.len() > 0 ==> list_text(list.push(text)) == list_text(list).drop_last() + ","@
            + quoted(text) + "]"@,
        list_text(seq![text]) == "["@ + quoted(text) + "]"@,
{
    reveal_strlit("\"");
    reveal_strlit("]");
    let none = Seq::<char>::empty().map_values(|c: char| escaped(c));
    assert(none =~= Seq::<Seq<char>>::empty());
    none.lemma_flatten_and_flatten_alt_are_equivalent();
    let parts = text.map_values(|c: char| escaped(c));
    assert(text.push(next).map_values(|c: char| escaped(c)) =~= parts.push(escaped(next)));
    parts.lemma_flatten_push(escaped(next));
    assert(quoted(text).drop_last() =~= "\""@ + parts.flatten());
    assert(quoted(Seq::<char>::empty()) =~= "\""@ + "\""@);
    let shown = list.map_values(|text: Seq<char>| quoted(text));
    let more = list.push(text).map_values(|text: Seq<char>| quoted(text));
    assert(more =~= shown.push(quoted(text)));
    assert(more.drop_last() =~= shown);
    assert(list_text(list).drop_last() =~= "["@ + text::joined(shown, ","@));
    let one = seq![text].map_values(|text: Seq<char>| quoted(text));
    assert(one =~= seq![quoted(text)]);
    assert(one.drop_last() =~= Seq::<Seq<char>>::empty());
    let empty = Seq::<Seq<char>>::empty().map_values(|text: Seq<char>| quoted(text));
    assert(empty =~= Seq::<Seq<char>>::empty());
    assert(list_text(Seq::<Seq<char>>::empty()) =~= "["@ + "]"@);
    assert(list.len() > 0 ==> list_text(list.push(text)) =~= list_text(list).drop_last() + ","@
        + quoted(text) + "]"@);
}

} // verus!
