//! Pretty-printed JSON in the layout of `serde_json::to_vec_pretty`: two
//! spaces per level, one item per line, `": "` between key and value, and
//! `[]` / `{}` for empty collections.

use vstd::prelude::*;

use crate::text::{decimal, indent, json_str, push_char, write_decimal, write_indent, write_json_str};

verus! {

/// Separator before an item of a pretty-printed array or object.
pub open spec fn item_sep(first: bool) -> Seq<char> {
    if first {
        seq!['\n']
    } else {
        seq![',', '\n']
    }
}

/// The items of a pretty-printed array of strings, each on its own line.
pub open spec fn str_items_text(items: Seq<Seq<char>>, level: nat) -> Seq<char>
    decreases items.len(),
{
    if items.len() == 0 {
        Seq::empty()
    } else {
        str_items_text(items.drop_last(), level) + item_sep(items.len() == 1) + indent(level)
            + json_str(items.last())
    }
}

/// A pretty-printed JSON array of strings whose bracket sits at `level`.
pub open spec fn str_array_text(items: Seq<Seq<char>>, level: nat) -> Seq<char> {
    if items.len() == 0 {
        seq!['[', ']']
    } else {
        seq!['['] + str_items_text(items, level + 1) + seq!['\n'] + indent(level) + seq![']']
    }
}

/// Appends a pretty-printed JSON array of strings.
pub fn write_str_array(out: &mut String, items: &Vec<String>, level: usize)
    requires
        level < 1000,
    ensures
        final(out)@ == old(out)@ + str_array_text(items.deep_view(), level as nat),
{
    let ghost start = out@;
    let ghost view = items.deep_view();
    if items.len() == 0 {
        push_char(out, '[');
        push_char(out, ']');
        assert(out@ =~= start + str_array_text(view, level as nat));
        return;
    }
    push_char(out, '[');
    let mut i: usize = 0;
    while i < items.len()
        invariant
            i <= items@.len(),
            level < 1000,
            view == items.deep_view(),
            view.len() == items@.len(),
            out@ == start + seq!['['] + str_items_text(view.subrange(0, i as int), (level + 1) as nat),
        decreases items@.len() - i,
    {
        if i == 0 {
            push_char(out, '\n');
        } else {
            push_char(out, ',');
            push_char(out, '\n');
        }
        write_indent(out, level + 1);
        write_json_str(out, items[i].as_str());
        proof {
            let sub = view.subrange(0, i + 1);
            assert(sub.drop_last() =~= view.subrange(0, i as int));
            assert(sub.last() == items@[i as int]@);
        }
        i = i + 1;
        assert(out@ =~= start + seq!['['] + str_items_text(view.subrange(0, i as int), (level + 1) as nat));
    }
    assert(view.subrange(0, i as int) =~= view);
    push_char(out, '\n');
    write_indent(out, level);
    push_char(out, ']');
    assert(out@ =~= start + str_array_text(view, level as nat));
}


/// The JSON text of an integer.
pub open spec fn int_text(i: int) -> Seq<char> {
    if i < 0 {
        seq!['-'] + decimal((-i) as nat)
    } else {
        decimal(i as nat)
    }
}

/// Appends the JSON text of a signed integer.
pub fn write_int(out: &mut String, i: i64)
    ensures
        final(out)@ == old(out)@ + int_text(i as int),
{
    let ghost start = out@;
    if i < 0 {
        push_char(out, '-');
        let magnitude: u64 = if i == i64::MIN {
            9223372036854775808u64
        } else {
            (-i) as u64
        };
        write_decimal(out, magnitude);
        assert(out@ =~= start + int_text(i as int));
    } else {
        write_decimal(out, i as u64);
    }
}

/// The entries of a pretty-printed object whose keys and values are strings.
pub open spec fn pair_items_text(pairs: Seq<(Seq<char>, Seq<char>)>, level: nat) -> Seq<char>
    decreases pairs.len(),
{
    if pairs.len() == 0 {
        Seq::empty()
    } else {
        pair_items_text(pairs.drop_last(), level) + item_sep(pairs.len() == 1) + indent(level)
            + json_str(pairs.last().0) + seq![':', ' '] + json_str(pairs.last().1)
    }
}

/// A pretty-printed JSON object of string entries whose brace sits at `level`.
pub open spec fn pair_object_text(pairs: Seq<(Seq<char>, Seq<char>)>, level: nat) -> Seq<char> {
    if pairs.len() == 0 {
        seq!['{', '}']
    } else {
        seq!['{'] + pair_items_text(pairs, level + 1) + seq!['\n'] + indent(level) + seq!['}']
    }
}

/// Appends a pretty-printed JSON object of string entries, in the given order.
pub fn write_pair_object(out: &mut String, pairs: &Vec<(String, String)>, level: usize)
    requires
        level < 1000,
    ensures
        final(out)@ == old(out)@ + pair_object_text(pairs.deep_view(), level as nat),
{
    let ghost start = out@;
    let ghost view = pairs.deep_view();
    if pairs.len() == 0 {
        push_char(out, '{');
        push_char(out, '}');
        assert(out@ =~= start + pair_object_text(view, level as nat));
        return;
    }
    push_char(out, '{');
    let mut i: usize = 0;
    while i < pairs.len()
        invariant
            i <= pairs@.len(),
            level < 1000,
            view == pairs.deep_view(),
            view.len() == pairs@.len(),
            out@ == start + seq!['{'] + pair_items_text(view.subrange(0, i as int), (level + 1) as nat),
        decreases pairs@.len() - i,
    {
        if i == 0 {
            push_char(out, '\n');
        } else {
            push_char(out, ',');
            push_char(out, '\n');
        }
        write_indent(out, level + 1);
        let pair = &pairs[i];
        write_json_str(out, pair.0.as_str());
        push_char(out, ':');
        push_char(out, ' ');
        write_json_str(out, pair.1.as_str());
        proof {
            let sub = view.subrange(0, i + 1);
            assert(sub.drop_last() =~= view.subrange(0, i as int));
            assert(sub.last() == (pairs@[i as int].0@, pairs@[i as int].1@));
        }
        i = i + 1;
        assert(out@ =~= start + seq!['{'] + pair_items_text(view.subrange(0, i as int), (level + 1) as nat));
    }
    assert(view.subrange(0, i as int) =~= view);
    push_char(out, '\n');
    write_indent(out, level);
    push_char(out, '}');
    assert(out@ =~= start + pair_object_text(view, level as nat));
}

} // verus!
