//! The human-readable and Markdown renderings of a JSON reply.

use vstd::prelude::*;

use crate::json::{Json, compact_json, compact_text};
use crate::text::{decimal, decimal_string};

verus! {

/// A value as one line of text: a string as its bare text, `null` as
/// `null`, anything else as its compact JSON text.
pub open spec fn scalar_text(v: Json) -> Seq<char> {
    match v {
        Json::Str(s) => s@,
        Json::Null => "null"@,
        _ => compact_json(v),
    }
}

/// Whether a value is an object or an array.
pub open spec fn is_container(v: Json) -> bool {
    v is Object || v is Array
}

/// The human-readable rendering of `v`, each line starting with `pad`:
/// an object member per line as `key: value`, or `key:` followed by the
/// nested rendering indented by two more spaces; an array element per
/// entry as `[index]` followed by its rendering indented by two more
/// spaces; any other value as its scalar text.
pub open spec fn human(v: Json, pad: Seq<char>) -> Seq<char>
    decreases v,
{
    match v {
        Json::Object(members) => human_members(members@, pad),
        Json::Array(items) => human_items(items@, pad),
        _ => pad + scalar_text(v) + "\n"@,
    }
}

/// The human-readable rendering of one object member.
pub open spec fn human_member(m: (String, Json), pad: Seq<char>) -> Seq<char>
    decreases m,
{
    if is_container(m.1) {
        pad + m.0@ + ":\n"@ + human(m.1, pad + "  "@)
    } else {
        pad + m.0@ + ": "@ + scalar_text(m.1) + "\n"@
    }
}

/// The human-readable rendering of the members of an object.
pub open spec fn human_members(members: Seq<(String, Json)>, pad: Seq<char>) -> Seq<char>
    decreases members,
{
    if members.len() == 0 {
        seq![]
    } else {
        human_members(members.drop_last(), pad) + human_member(members.last(), pad)
    }
}

/// The human-readable rendering of the elements of an array.
pub open spec fn human_items(items: Seq<Json>, pad: Seq<char>) -> Seq<char>
    decreases items,
{
    if items.len() == 0 {
        seq![]
    } else {
        human_items(items.drop_last(), pad) + pad + "["@ + decimal((items.len() - 1) as nat)
            + "]\n"@ + human(items.last(), pad + "  "@)
    }
}

/// The Markdown bullet list of `items`, one `- scalar` line each.
pub open spec fn markdown_list(items: Seq<Json>) -> Seq<char>
    decreases items.len(),
{
    if items.len() == 0 {
        seq![]
    } else {
        markdown_list(items.drop_last()) + "- "@ + scalar_text(items.last()) + "\n"@
    }
}

/// The Markdown rendering of `v`: an object member as a `## key` heading
/// followed by its nested rendering (an object) or bullet list (an array),
/// or as `**key**: value`; an array as a bullet list; any other value as its
/// scalar text.
pub open spec fn markdown(v: Json) -> Seq<char>
    decreases v,
{
    match v {
        Json::Object(members) => markdown_members(members@),
        Json::Array(items) => markdown_list(items@),
        _ => scalar_text(v) + "\n"@,
    }
}

/// The Markdown rendering of one object member.
pub open spec fn markdown_member(m: (String, Json)) -> Seq<char>
    decreases m,
{
    match m.1 {
        Json::Object(_) => "## "@ + m.0@ + "\n\n"@ + markdown(m.1),
        Json::Array(items) => "## "@ + m.0@ + "\n\n"@ + markdown_list(items@) + "\n"@,
        _ => "**"@ + m.0@ + "**: "@ + scalar_text(m.1) + "\n\n"@,
    }
}

/// The Markdown rendering of the members of an object.
pub open spec fn markdown_members(members: Seq<(String, Json)>) -> Seq<char>
    decreases members,
{
    if members.len() == 0 {
        seq![]
    } else {
        markdown_members(members.drop_last()) + markdown_member(members.last())
    }
}

/// Appends the scalar text of `v` to `out`.
fn append_scalar(out: &mut String, v: &Json)
    ensures
        final(out)@ == old(out)@ + scalar_text(*v),
{
    match v {
        Json::Str(s) => out.append(s.as_str()),
        Json::Null => out.append("null"),
        _ => {
            let text = compact_text(v);
            out.append(text.as_str());
        },
    }
}

/// A value as one line of text (as `format_scalar` in the renderings).
pub fn format_scalar(v: &Json) -> (r: String)
    ensures
        r@ == scalar_text(*v),
{
    let mut out = String::new();
    append_scalar(&mut out, v);
    assert(out@ =~= scalar_text(*v));
    out
}

/// Appends the human-readable rendering of `v`, with lines starting with
/// `pad`, to `out`.
fn append_human(out: &mut String, v: &Json, pad: &String)
    ensures
        final(out)@ == old(out)@ + human(*v, pad@),
    decreases *v,
{
    match v {
        Json::Object(members) => {
            let ghost start = out@;
            let mut deeper = pad.clone();
            deeper.append("  ");
            let n = members.len();
            let mut i: usize = 0;
            while i < n
                invariant
                    i <= n,
                    n == members@.len(),
                    *v == Json::Object(*members),
                    deeper@ == pad@ + "  "@,
                    out@ == start + human_members(members@.take(i as int), pad@),
                decreases n - i,
            {
                assert(decreases_to!(*v => (*v)->Object_0));
                assert(decreases_to!(*members => members@));
                assert(decreases_to!(members@ => members@[i as int]));
                assert(decreases_to!(members@[i as int] => members@[i as int].1));
                assert(members@.take(i + 1).drop_last() =~= members@.take(i as int));
                assert(members@.take(i + 1).last() == members@[i as int]);
                let ghost before = out@;
                let key = &members[i].0;
                let x = &members[i].1;
                out.append(pad.as_str());
                out.append(key.as_str());
                match x {
                    Json::Object(_) | Json::Array(_) => {
                        out.append(":\n");
                        append_human(out, x, &deeper);
                    },
                    _ => {
                        out.append(": ");
                        append_scalar(out, x);
                        out.append("\n");
                    },
                }
                assert(out@ =~= before + human_member(members@[i as int], pad@));
                assert(out@ =~= start + human_members(members@.take(i + 1), pad@));
                i = i + 1;
            }
            assert(members@.take(n as int) =~= members@);
        },
        Json::Array(items) => {
            let ghost start = out@;
            let mut deeper = pad.clone();
            deeper.append("  ");
            let n = items.len();
            let mut i: usize = 0;
            while i < n
                invariant
                    i <= n,
                    n == items@.len(),
                    *v == Json::Array(*items),
                    deeper@ == pad@ + "  "@,
                    out@ == start + human_items(items@.take(i as int), pad@),
                decreases n - i,
            {
                assert(decreases_to!(*v => (*v)->Array_0));
                assert(decreases_to!(*items => items@));
                assert(decreases_to!(items@ => items@[i as int]));
                assert(items@.take(i + 1).drop_last() =~= items@.take(i as int));
                assert(items@.take(i + 1).last() == items@[i as int]);
                out.append(pad.as_str());
                out.append("[");
                let index = decimal_string(i as u64);
                out.append(index.as_str());
                out.append("]\n");
                append_human(out, &items[i], &deeper);
                assert(out@ =~= start + human_items(items@.take(i + 1), pad@));
                i = i + 1;
            }
            assert(items@.take(n as int) =~= items@);
        },
        _ => {
            out.append(pad.as_str());
            append_scalar(out, v);
            out.append("\n");
            assert(out@ =~= old(out)@ + human(*v, pad@));
        },
    }
}

/// The human-readable rendering of a reply: the text that the `human`
/// output format prints.
pub fn human_text(v: &Json) -> (r: String)
    ensures
        r@ == human(*v, seq![]),
{
    let mut out = String::new();
    let pad = String::new();
    append_human(&mut out, v, &pad);
    assert(out@ =~= human(*v, seq![]));
    out
}

/// Appends the Markdown bullet list of `items` to `out`.
fn append_markdown_list(out: &mut String, items: &Vec<Json>)
    ensures
        final(out)@ == old(out)@ + markdown_list(items@),
{
    let ghost start = out@;
    let n = items.len();
    let mut i: usize = 0;
    while i < n
        invariant
            i <= n,
            n == items@.len(),
            out@ == start + markdown_list(items@.take(i as int)),
        decreases n - i,
    {
        assert(items@.take(i + 1).drop_last() =~= items@.take(i as int));
        assert(items@.take(i + 1).last() == items@[i as int]);
        out.append("- ");
        append_scalar(out, &items[i]);
        out.append("\n");
        assert(out@ =~= start + markdown_list(items@.take(i + 1)));
        i = i + 1;
    }
    assert(items@.take(n as int) =~= items@);
}

/// Appends the Markdown rendering of `v` to `out`.
fn append_markdown(out: &mut String, v: &Json)
    ensures
        final(out)@ == old(out)@ + markdown(*v),
    decreases *v,
{
    match v {
        Json::Object(members) => {
            let ghost start = out@;
            let n = members.len();
            let mut i: usize = 0;
            while i < n
                invariant
                    i <= n,
                    n == members@.len(),
                    *v == Json::Object(*members),
                    out@ == start + markdown_members(members@.take(i as int)),
                decreases n - i,
            {
                assert(decreases_to!(*v => (*v)->Object_0));
                assert(decreases_to!(*members => members@));
                assert(decreases_to!(members@ => members@[i as int]));
                assert(decreases_to!(members@[i as int] => members@[i as int].1));
                assert(members@.take(i + 1).drop_last() =~= members@.take(i as int));
                assert(members@.take(i + 1).last() == members@[i as int]);
                let ghost before = out@;
                let key = &members[i].0;
                let x = &members[i].1;
                match x {
                    Json::Object(_) => {
                        out.append("## ");
                        out.append(key.as_str());
                        out.append("\n\n");
                        append_markdown(out, x);
                    },
                    Json::Array(list) => {
                        out.append("## ");
                        out.append(key.as_str());
                        out.append("\n\n");
                        append_markdown_list(out, list);
                        out.append("\n");
                    },
                    _ => {
                        out.append("**");
                        out.append(key.as_str());
                        out.append("**: ");
                        append_scalar(out, x);
                        out.append("\n\n");
                    },
                }
                assert(out@ =~= before + markdown_member(members@[i as int]));
                assert(out@ =~= start + markdown_members(members@.take(i + 1)));
                i = i + 1;
            }
            assert(members@.take(n as int) =~= members@);
        },
        Json::Array(items) => append_markdown_list(out, items),
        _ => {
            append_scalar(out, v);
            out.append("\n");
            assert(out@ =~= old(out)@ + markdown(*v));
        },
    }
}

/// The Markdown rendering of a reply: the text that the `markdown` output
/// format prints.
pub fn markdown_text(v: &Json) -> (r: String)
    ensures
        r@ == markdown(*v),
{
    let mut out = String::new();
    append_markdown(&mut out, v);
    assert(out@ =~= markdown(*v));
    out
}

} // verus!
