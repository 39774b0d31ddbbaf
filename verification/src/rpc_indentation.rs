//! The indentation law of rendered hints.
//!
//! A hint is rendered for a line that is indented by some number of spaces.
//! The law says what the indentation does to the text: rendering at a deeper
//! indentation gives the same text, with the additional spaces after every
//! line break and nowhere else.  It holds of hints whose names and literals
//! are themselves free of line breaks.

use vstd::prelude::*;
use crate::rpc_description::{
    choice_number_width, debug_quoted, decimal, decimal_len, digit, flatten_choices, indent_step,
    lemma_alternatives_are_parts, line_break, padded_decimal, spaces, ValueHint,
};

verus! {

/// Whether a text holds no line break.
pub open spec fn single_line(text: Seq<char>) -> bool {
    forall|i: int| 0 <= i < text.len() ==> #[trigger] text[i] != '\n'
}

/// A text with `by` spaces put in after every line break.
pub open spec fn shifted(text: Seq<char>, by: nat) -> Seq<char>
    decreases text.len(),
{
    if text.len() == 0 {
        Seq::empty()
    } else if text.last() == '\n' {
        shifted(text.drop_last(), by) + line_break(by)
    } else {
        shifted(text.drop_last(), by).push(text.last())
    }
}

impl ValueHint {
    /// Whether the names and literals of this hint hold no line break, as
    /// they are shown.
    pub open spec fn has_single_line_leaves(self) -> bool
        decreases self,
    {
        match self {
            ValueHint::Prim(name) => single_line(name@),
            ValueHint::StrLit(s) => single_line(debug_quoted(s@)),
            ValueHint::Choice(hints) => {
                proof {
                    lemma_alternatives_are_parts(hints@);
                }
                forall|i: int|
                    0 <= i < flatten_choices(hints@).len() ==> (#[trigger] flatten_choices(
                        hints@,
                    )[i]).has_single_line_leaves()
            },
            ValueHint::Object(fields) => forall|i: int|
                0 <= i < fields@.len() ==> single_line(debug_quoted((#[trigger] fields@[i]).0@))
                    && fields@[i].1.has_single_line_leaves(),
            ValueHint::MapOf(key, value) => key.has_single_line_leaves() && value.has_single_line_leaves(),
            ValueHint::Tuple(items) => forall|i: int|
                0 <= i < items@.len() ==> (#[trigger] items@[i]).has_single_line_leaves(),
            ValueHint::Array(inner) => inner.has_single_line_leaves(),
        }
    }
}

/// Shifting goes through a text piece by piece.
pub proof fn lemma_shifted_concat(a: Seq<char>, b: Seq<char>, by: nat)
    ensures
        shifted(a + b, by) == shifted(a, by) + shifted(b, by),
    decreases b.len(),
{
    if b.len() == 0 {
        assert(a + b =~= a);
        assert(shifted(a, by) + shifted(b, by) =~= shifted(a, by));
    } else {
        assert((a + b).drop_last() =~= a + b.drop_last());
        assert((a + b).last() == b.last());
        lemma_shifted_concat(a, b.drop_last(), by);
        if b.last() == '\n' {
            assert(shifted(a + b, by) =~= shifted(a, by) + (shifted(b.drop_last(), by) + line_break(by)));
        } else {
            assert(shifted(a + b, by) =~= shifted(a, by) + shifted(b.drop_last(), by).push(b.last()));
        }
    }
}

/// Shifting leaves a text without line breaks as it is.
pub proof fn lemma_shifted_single_line(text: Seq<char>, by: nat)
    requires
        single_line(text),
    ensures
        shifted(text, by) == text,
    decreases text.len(),
{
    if text.len() > 0 {
        let init = text.drop_last();
        assert(single_line(init)) by {
            assert forall|i: int| 0 <= i < init.len() implies #[trigger] init[i] != '\n' by {
                assert(init[i] == text[i]);
            }
        }
        lemma_shifted_single_line(init, by);
        assert(text[text.len() - 1] != '\n');
        assert(init.push(text.last()) =~= text);
    }
}

/// Spaces hold no line break, and there are as many as asked for.
pub proof fn lemma_spaces(n: nat)
    ensures
        single_line(spaces(n)),
        spaces(n).len() == n,
    decreases n,
{
    reveal_strlit(" ");
    if n > 0 {
        lemma_spaces((n - 1) as nat);
        let shorter = spaces((n - 1) as nat);
        assert forall|i: int| 0 <= i < spaces(n).len() implies #[trigger] spaces(n)[i] != '\n' by {
            if i < shorter.len() {
                assert(spaces(n)[i] == shorter[i]);
            } else {
                assert(spaces(n)[i] == " "@[0]);
            }
        }
    }
}

/// Spaces after spaces are spaces.
pub proof fn lemma_spaces_add(a: nat, b: nat)
    ensures
        spaces(a) + spaces(b) == spaces(a + b),
    decreases b,
{
    if b == 0 {
        assert(spaces(a) + spaces(0) =~= spaces(a));
    } else {
        lemma_spaces_add(a, (b - 1) as nat);
        assert(spaces(a) + (spaces((b - 1) as nat) + " "@) =~= (spaces(a) + spaces((b - 1) as nat)) + " "@);
    }
}

/// Shifting a line break with its indentation gives the line break with the
/// deeper indentation.
pub proof fn lemma_shifted_line_break(indent: nat, by: nat)
    ensures
        shifted(line_break(indent), by) == line_break(indent + by),
{
    reveal_strlit("\n");
    let feed = "\n"@;
    assert(feed.len() == 1 && feed[0] == '\n');
    assert(feed.drop_last() =~= Seq::<char>::empty());
    assert(feed.last() == '\n');
    assert(shifted(feed.drop_last(), by) =~= Seq::<char>::empty());
    assert(shifted(feed, by) =~= line_break(by));
    lemma_shifted_concat(feed, spaces(indent), by);
    lemma_spaces(indent);
    lemma_shifted_single_line(spaces(indent), by);
    lemma_spaces_add(by, indent);
    assert((feed + spaces(by)) + spaces(indent) =~= feed + (spaces(by) + spaces(indent)));
}

/// A number in decimal holds no line break, padded or not.
pub proof fn lemma_decimal_single_line(n: nat, width: nat)
    ensures
        single_line(decimal(n)),
        single_line(padded_decimal(n, width)),
    decreases n,
{
    reveal_strlit("0");
    reveal_strlit("1");
    reveal_strlit("2");
    reveal_strlit("3");
    reveal_strlit("4");
    reveal_strlit("5");
    reveal_strlit("6");
    reveal_strlit("7");
    reveal_strlit("8");
    reveal_strlit("9");
    assert(single_line(digit(n % 10)));
    if n >= 10 {
        lemma_decimal_single_line(n / 10, width);
        let head = decimal(n / 10);
        let last = digit(n % 10);
        assert forall|i: int| 0 <= i < decimal(n).len() implies #[trigger] decimal(n)[i] != '\n' by {
            if i < head.len() {
                assert(decimal(n)[i] == head[i]);
            } else {
                assert(decimal(n)[i] == last[i - head.len()]);
            }
        }
    }
    if decimal_len(n) < width {
        let pad = spaces((width - decimal_len(n)) as nat);
        lemma_spaces((width - decimal_len(n)) as nat);
        assert forall|i: int| 0 <= i < padded_decimal(n, width).len() implies #[trigger] padded_decimal(n, width)[i]
            != '\n' by {
            if i < pad.len() {
                assert(padded_decimal(n, width)[i] == pad[i]);
            } else {
                assert(padded_decimal(n, width)[i] == decimal(n)[i - pad.len()]);
            }
        }
    }
}

/// The indentation law: rendering a hint at a deeper indentation gives the
/// text of the shallower indentation with the additional spaces after every
/// line break.
pub proof fn lemma_indentation_shifts_the_text(hint: ValueHint, indent: nat, by: nat)
    requires
        hint.has_single_line_leaves(),
    ensures
        hint.rendered(indent + by) == shifted(hint.rendered(indent), by),
    decreases hint, 0nat,
{
    match hint {
        ValueHint::Prim(name) => {
            lemma_shifted_single_line(name@, by);
        },
        ValueHint::StrLit(s) => {
            lemma_shifted_single_line(debug_quoted(s@), by);
        },
        ValueHint::Choice(hints) => {
            let alternatives = flatten_choices(hints@);
            lemma_alternatives_are_parts(hints@);
            if alternatives.len() == 0 {
                reveal_strlit("impossible");
                lemma_shifted_single_line("impossible"@, by);
            } else if alternatives.len() == 1 {
                lemma_indentation_shifts_the_text(alternatives[0], indent, by);
            } else {
                reveal_strlit("EITHER OF");
                lemma_shifted_single_line("EITHER OF"@, by);
                lemma_alternatives_shift(hints@, indent, by, alternatives.len());
                lemma_shifted_concat(
                    "EITHER OF"@,
                    ValueHint::rendered_alternatives(hints@, indent, alternatives.len()),
                    by,
                );
            }
        },
        ValueHint::Object(fields) => {
            if fields@.len() == 0 {
                reveal_strlit("{}");
                lemma_shifted_single_line("{}"@, by);
            } else if fields@.len() == 1 {
                reveal_strlit("{ ");
                reveal_strlit(": ");
                reveal_strlit(" }");
                let name = debug_quoted(fields@[0].0@);
                let child = fields@[0].1.rendered(indent);
                lemma_indentation_shifts_the_text(fields@[0].1, indent, by);
                lemma_shifted_single_line("{ "@, by);
                lemma_shifted_single_line(name, by);
                lemma_shifted_single_line(": "@, by);
                lemma_shifted_single_line(" }"@, by);
                lemma_shifted_concat("{ "@ + name + ": "@ + child, " }"@, by);
                lemma_shifted_concat("{ "@ + name + ": "@, child, by);
                lemma_shifted_concat("{ "@ + name, ": "@, by);
                lemma_shifted_concat("{ "@, name, by);
            } else {
                reveal_strlit("{");
                reveal_strlit("}");
                let body = ValueHint::rendered_fields(fields@, indent, fields@.len());
                lemma_fields_shift(fields@, indent, by, fields@.len());
                lemma_shifted_single_line("{"@, by);
                lemma_shifted_single_line("}"@, by);
                lemma_shifted_line_break(indent, by);
                lemma_shifted_concat("{"@ + line_break(indent) + body, "}"@, by);
                lemma_shifted_concat("{"@ + line_break(indent), body, by);
                lemma_shifted_concat("{"@, line_break(indent), by);
            }
        },
        ValueHint::MapOf(key, value) => {
            reveal_strlit("{ ");
            reveal_strlit(": ");
            reveal_strlit(", .. }");
            let k = key.rendered(indent);
            let v = value.rendered(indent);
            lemma_indentation_shifts_the_text(*key, indent, by);
            lemma_indentation_shifts_the_text(*value, indent, by);
            lemma_shifted_single_line("{ "@, by);
            lemma_shifted_single_line(": "@, by);
            lemma_shifted_single_line(", .. }"@, by);
            lemma_shifted_concat("{ "@ + k + ": "@ + v, ", .. }"@, by);
            lemma_shifted_concat("{ "@ + k + ": "@, v, by);
            lemma_shifted_concat("{ "@ + k, ": "@, by);
            lemma_shifted_concat("{ "@, k, by);
        },
        ValueHint::Tuple(items) => {
            if items@.len() == 0 {
                reveal_strlit("[]");
                lemma_shifted_single_line("[]"@, by);
            } else if items@.len() == 1 {
                reveal_strlit(" [");
                reveal_strlit(" ]");
                let child = items@[0].rendered(indent);
                lemma_indentation_shifts_the_text(items@[0], indent, by);
                lemma_shifted_single_line(" ["@, by);
                lemma_shifted_single_line(" ]"@, by);
                lemma_shifted_concat(" ["@ + child, " ]"@, by);
                lemma_shifted_concat(" ["@, child, by);
            } else {
                reveal_strlit("[");
                reveal_strlit("]");
                let body = ValueHint::rendered_items(items@, indent, items@.len());
                lemma_items_shift(items@, indent, by, items@.len());
                lemma_shifted_single_line("["@, by);
                lemma_shifted_single_line("]"@, by);
                lemma_shifted_line_break(indent, by);
                lemma_shifted_concat("["@ + line_break(indent) + body, "]"@, by);
                lemma_shifted_concat("["@ + line_break(indent), body, by);
                lemma_shifted_concat("["@, line_break(indent), by);
            }
        },
        ValueHint::Array(inner) => {
            reveal_strlit("[ ");
            reveal_strlit(", .. ]");
            let child = inner.rendered(indent);
            lemma_indentation_shifts_the_text(*inner, indent, by);
            lemma_shifted_single_line("[ "@, by);
            lemma_shifted_single_line(", .. ]"@, by);
            lemma_shifted_concat("[ "@ + child, ", .. ]"@, by);
            lemma_shifted_concat("[ "@, child, by);
        },
    }
}

/// The indentation law for the numbered alternatives of a choice.
pub proof fn lemma_alternatives_shift(hints: Seq<ValueHint>, indent: nat, by: nat, n: nat)
    requires
        forall|i: int|
            0 <= i < flatten_choices(hints).len() ==> (#[trigger] flatten_choices(hints)[i]).has_single_line_leaves(),
    ensures
        ValueHint::rendered_alternatives(hints, indent + by, n) == shifted(
            ValueHint::rendered_alternatives(hints, indent, n),
            by,
        ),
    decreases hints, n,
{
    if !(n == 0 || n > flatten_choices(hints).len()) {
        reveal_strlit(") ");
        lemma_alternatives_are_parts(hints);
        let before = ValueHint::rendered_alternatives(hints, indent, (n - 1) as nat);
        let number = padded_decimal(n, choice_number_width());
        let alternative = flatten_choices(hints)[n - 1];
        let child = alternative.rendered(indent + 2 * indent_step());
        lemma_alternatives_shift(hints, indent, by, (n - 1) as nat);
        lemma_indentation_shifts_the_text(alternative, indent + 2 * indent_step(), by);
        assert(indent + by + 2 * indent_step() == indent + 2 * indent_step() + by);
        lemma_decimal_single_line(n, choice_number_width());
        lemma_shifted_single_line(number, by);
        lemma_shifted_single_line(") "@, by);
        lemma_shifted_line_break(indent, by);
        lemma_shifted_concat(before + line_break(indent) + number + ") "@, child, by);
        lemma_shifted_concat(before + line_break(indent) + number, ") "@, by);
        lemma_shifted_concat(before + line_break(indent), number, by);
        lemma_shifted_concat(before, line_break(indent), by);
    }
}

/// The indentation law for the fields of an object.
pub proof fn lemma_fields_shift(fields: Seq<(String, ValueHint)>, indent: nat, by: nat, n: nat)
    requires
        forall|i: int|
            0 <= i < fields.len() ==> single_line(debug_quoted((#[trigger] fields[i]).0@))
                && fields[i].1.has_single_line_leaves(),
    ensures
        ValueHint::rendered_fields(fields, indent + by, n) == shifted(ValueHint::rendered_fields(fields, indent, n), by),
    decreases fields, n,
{
    if !(n == 0 || n > fields.len()) {
        reveal_strlit(": ");
        reveal_strlit(",");
        let before = ValueHint::rendered_fields(fields, indent, (n - 1) as nat);
        let margin = spaces(indent_step());
        let name = debug_quoted(fields[n - 1].0@);
        let child = fields[n - 1].1.rendered(indent + indent_step());
        lemma_fields_shift(fields, indent, by, (n - 1) as nat);
        lemma_indentation_shifts_the_text(fields[n - 1].1, indent + indent_step(), by);
        assert(indent + by + indent_step() == indent + indent_step() + by);
        lemma_spaces(indent_step());
        lemma_shifted_single_line(margin, by);
        lemma_shifted_single_line(name, by);
        lemma_shifted_single_line(": "@, by);
        lemma_shifted_single_line(","@, by);
        lemma_shifted_line_break(indent, by);
        lemma_shifted_concat(before + margin + name + ": "@ + child + ","@, line_break(indent), by);
        lemma_shifted_concat(before + margin + name + ": "@ + child, ","@, by);
        lemma_shifted_concat(before + margin + name + ": "@, child, by);
        lemma_shifted_concat(before + margin + name, ": "@, by);
        lemma_shifted_concat(before + margin, name, by);
        lemma_shifted_concat(before, margin, by);
    }
}

/// The indentation law for the items of a tuple.
pub proof fn lemma_items_shift(items: Seq<ValueHint>, indent: nat, by: nat, n: nat)
    requires
        forall|i: int| 0 <= i < items.len() ==> (#[trigger] items[i]).has_single_line_leaves(),
    ensures
        ValueHint::rendered_items(items, indent + by, n) == shifted(ValueHint::rendered_items(items, indent, n), by),
    decreases items, n,
{
    if !(n == 0 || n > items.len()) {
        reveal_strlit(",");
        let before = ValueHint::rendered_items(items, indent, (n - 1) as nat);
        let margin = spaces(indent_step());
        let child = items[n - 1].rendered(indent + indent_step());
        lemma_items_shift(items, indent, by, (n - 1) as nat);
        lemma_indentation_shifts_the_text(items[n - 1], indent + indent_step(), by);
        assert(indent + by + indent_step() == indent + indent_step() + by);
        lemma_spaces(indent_step());
        lemma_shifted_single_line(margin, by);
        lemma_shifted_single_line(","@, by);
        lemma_shifted_line_break(indent, by);
        lemma_shifted_concat(before + margin + child + ","@, line_break(indent), by);
        lemma_shifted_concat(before + margin + child, ","@, by);
        lemma_shifted_concat(before + margin, child, by);
        lemma_shifted_concat(before, margin, by);
    }
}

} // verus!
