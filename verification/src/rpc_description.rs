//! Human-readable rendering of RPC interface descriptions.
//!
//! An interface is a list of modules, a module a list of methods, and every
//! method describes its parameters and results by a [`ValueHint`]: a small
//! grammar of JSON shapes.  The functions here turn such a description into
//! Markdown.  What they produce is fixed by the spec functions `rendered`,
//! which the executable code is proved to follow character by character.

use vstd::prelude::*;
use vstd::string::*;

verus! {

/// Shape of a JSON value, as shown to a reader of the documentation.
pub enum ValueHint {
    /// A primitive type, shown by its name.
    Prim(String),
    /// A literal string, shown quoted.
    StrLit(String),
    /// One of several shapes.  Nested choices are alternatives of the outer one.
    Choice(Vec<ValueHint>),
    /// An object with the given named fields.
    Object(Vec<(String, ValueHint)>),
    /// An object with arbitrary keys.
    MapOf(Box<ValueHint>, Box<ValueHint>),
    /// A fixed-length array.
    Tuple(Vec<ValueHint>),
    /// An array of any length.
    Array(Box<ValueHint>),
}

/// What tells a method from a subscription.
pub enum MethodKindData {
    Method { return_type: ValueHint },
    Subscription { unsubscribe_name: String, item_type: ValueHint },
}

/// One RPC method or subscription.
pub struct Method {
    pub name: String,
    pub description: String,
    pub params: ValueHint,
    pub kind_data: MethodKindData,
}

/// A named group of methods.
pub struct Module {
    pub name: String,
    pub description: String,
    pub methods: Vec<Method>,
}

/// All modules of an RPC interface.
pub struct Interface {
    pub modules: Vec<Module>,
}

/// An interface together with the title page of its documentation.
pub struct RpcDocs {
    pub title: String,
    pub version: String,
    pub description: String,
    pub interface: Interface,
}

/// Width of one indentation step.
pub open spec fn indent_step() -> nat {
    4
}

/// Width to which the number of an alternative is padded.
pub open spec fn choice_number_width() -> nat {
    6
}

/// `n` spaces.
pub open spec fn spaces(n: nat) -> Seq<char>
    decreases n,
{
    if n == 0 {
        Seq::empty()
    } else {
        spaces((n - 1) as nat) + " "@
    }
}

/// A line break followed by `indent` spaces.
pub open spec fn line_break(indent: nat) -> Seq<char> {
    "\n"@ + spaces(indent)
}

/// The decimal digit `d`.
pub open spec fn digit(d: nat) -> Seq<char> {
    if d == 0 {
        "0"@
    } else if d == 1 {
        "1"@
    } else if d == 2 {
        "2"@
    } else if d == 3 {
        "3"@
    } else if d == 4 {
        "4"@
    } else if d == 5 {
        "5"@
    } else if d == 6 {
        "6"@
    } else if d == 7 {
        "7"@
    } else if d == 8 {
        "8"@
    } else {
        "9"@
    }
}

/// Number of decimal digits of `n`.
pub open spec fn decimal_len(n: nat) -> nat
    decreases n,
{
    if n < 10 {
        1
    } else {
        decimal_len(n / 10) + 1
    }
}

/// `n` in decimal, without leading zeros.
pub open spec fn decimal(n: nat) -> Seq<char>
    decreases n,
{
    if n < 10 {
        digit(n)
    } else {
        decimal(n / 10) + digit(n % 10)
    }
}

/// `n` in decimal, right-aligned in a field of `width` characters.
pub open spec fn padded_decimal(n: nat, width: nat) -> Seq<char> {
    if decimal_len(n) >= width {
        decimal(n)
    } else {
        spaces((width - decimal_len(n)) as nat) + decimal(n)
    }
}

/// The alternatives that a list of hints stands for: nested choices are
/// replaced by their own alternatives, in order.
pub open spec fn flatten_choices(hints: Seq<ValueHint>) -> Seq<ValueHint>
    decreases hints,
{
    if hints.len() == 0 {
        Seq::empty()
    } else {
        let before = flatten_choices(hints.drop_last());
        match hints.last() {
            ValueHint::Choice(sub) => before + flatten_choices(sub@),
            hint => before.push(hint),
        }
    }
}

/// What `{:?}` prints for a string with the given characters: the string in
/// double quotes, with the escapes of `str`'s `Debug` impl.
pub uninterp spec fn debug_quoted(s: Seq<char>) -> Seq<char>;

/// Whether a character is white space: whether it has the property
/// `White_Space` of Unicode.
pub open spec fn is_white_space(c: char) -> bool {
    let code = c as u32;
    ||| 0x09 <= code <= 0x0d
    ||| code == 0x20
    ||| code == 0x85
    ||| code == 0xa0
    ||| code == 0x1680
    ||| 0x2000 <= code <= 0x200a
    ||| code == 0x2028
    ||| code == 0x2029
    ||| code == 0x202f
    ||| code == 0x205f
    ||| code == 0x3000
}

/// A text without the white space that it starts with.
pub open spec fn without_leading_white_space(s: Seq<char>) -> Seq<char>
    decreases s.len(),
{
    if s.len() > 0 && is_white_space(s.first()) {
        without_leading_white_space(s.drop_first())
    } else {
        s
    }
}

/// A text without the white space that it ends with.
pub open spec fn without_trailing_white_space(s: Seq<char>) -> Seq<char>
    decreases s.len(),
{
    if s.len() > 0 && is_white_space(s.last()) {
        without_trailing_white_space(s.drop_last())
    } else {
        s
    }
}

/// What `str::trim` leaves of a text: the text without the white space at
/// its start and at its end.
pub open spec fn trimmed(s: Seq<char>) -> Seq<char> {
    without_trailing_white_space(without_leading_white_space(s))
}

/// Whether a text holds nothing but white space.
pub open spec fn is_blank(s: Seq<char>) -> bool {
    forall|i: int| 0 <= i < s.len() ==> is_white_space(#[trigger] s[i])
}

/// Nothing is left of a text after trimming exactly when the text holds
/// nothing but white space.
pub proof fn lemma_trimmed_is_empty_iff_blank(s: Seq<char>)
    ensures
        (trimmed(s).len() == 0) == is_blank(s),
    decreases s.len(),
{
    if s.len() > 0 && is_white_space(s.first()) {
        let rest = s.drop_first();
        lemma_trimmed_is_empty_iff_blank(rest);
        assert(trimmed(s) == trimmed(rest));
        if is_blank(rest) {
            assert forall|i: int| 0 <= i < s.len() implies is_white_space(#[trigger] s[i]) by {
                if i > 0 {
                    assert(s[i] == rest[i - 1]);
                }
            }
        }
        if is_blank(s) {
            assert forall|i: int| 0 <= i < rest.len() implies is_white_space(#[trigger] rest[i]) by {
                assert(rest[i] == s[i + 1]);
            }
        }
    } else if s.len() > 0 {
        assert(without_leading_white_space(s) == s);
        lemma_trailing_trim_keeps_the_start(s);
        assert(!is_white_space(s[0]));
    }
}

/// Taking white space off the end of a text that does not start with white
/// space leaves its first character.
pub proof fn lemma_trailing_trim_keeps_the_start(s: Seq<char>)
    requires
        s.len() > 0,
        !is_white_space(s.first()),
    ensures
        without_trailing_white_space(s).len() > 0,
    decreases s.len(),
{
    if is_white_space(s.last()) {
        assert(s.len() > 1);
        assert(s.drop_last().first() == s.first());
        lemma_trailing_trim_keeps_the_start(s.drop_last());
    }
}

/// Calls `format!` with `{:?}` on a string slice.  The contract only gives the
/// result its name: the escaping rules of `str`'s `Debug` impl are not restated.
#[verifier::external_body]
fn debug_string(s: &str) -> (quoted: String)
    ensures
        quoted@ == debug_quoted(s@),
{
    format!("{:?}", s)
}

/// Calls `str::trim`, which returns the slice without leading and trailing
/// whitespace, where whitespace is what has Unicode's property `White_Space`.
#[verifier::external_body]
fn trim_str(s: &str) -> (inner: &str)
    ensures
        inner@ == trimmed(s@),
{
    s.trim()
}

/// Every alternative of a list of hints is a part of that list.
pub proof fn lemma_alternatives_are_parts(hints: Seq<ValueHint>)
    ensures
        forall|i: int|
            0 <= i < flatten_choices(hints).len() ==> decreases_to!(hints => #[trigger] flatten_choices(hints)[i]),
    decreases hints,
{
    if hints.len() > 0 {
        let init = hints.drop_last();
        lemma_alternatives_are_parts(init);
        let before = flatten_choices(init);
        assert(decreases_to!(hints => init));
        match hints.last() {
            ValueHint::Choice(sub) => {
                lemma_alternatives_are_parts(sub@);
                assert(decreases_to!(hints => sub@));
                assert forall|i: int| 0 <= i < flatten_choices(hints).len() implies decreases_to!(hints => #[trigger] flatten_choices(hints)[i]) by {
                    if i < before.len() {
                        assert(flatten_choices(hints)[i] == before[i]);
                    } else {
                        assert(flatten_choices(hints)[i] == flatten_choices(sub@)[i - before.len()]);
                    }
                }
            },
            hint => {
                assert forall|i: int| 0 <= i < flatten_choices(hints).len() implies decreases_to!(hints => #[trigger] flatten_choices(hints)[i]) by {
                    if i < before.len() {
                        assert(flatten_choices(hints)[i] == before[i]);
                    } else {
                        assert(flatten_choices(hints)[i] == hint);
                    }
                }
            },
        }
    }
}

impl ValueHint {
    /// The text that stands for this hint when the current line is indented by
    /// `indent` spaces.
    pub open spec fn rendered(self, indent: nat) -> Seq<char>
        decreases self, 0nat,
    {
        match self {
            ValueHint::Prim(name) => name@,
            ValueHint::StrLit(s) => debug_quoted(s@),
            ValueHint::Choice(hints) => {
                let alternatives = flatten_choices(hints@);
                if alternatives.len() == 0 {
                    "impossible"@
                } else if alternatives.len() == 1 {
                    proof {
                        lemma_alternatives_are_parts(hints@);
                    }
                    alternatives[0].rendered(indent)
                } else {
                    "EITHER OF"@ + Self::rendered_alternatives(hints@, indent, alternatives.len())
                }
            },
            ValueHint::Object(fields) => {
                if fields@.len() == 0 {
                    "{}"@
                } else if fields@.len() == 1 {
                    "{ "@ + debug_quoted(fields@[0].0@) + ": "@ + fields@[0].1.rendered(indent) + " }"@
                } else {
                    "{"@ + line_break(indent) + Self::rendered_fields(fields@, indent, fields@.len()) + "}"@
                }
            },
            ValueHint::MapOf(key, value) => {
                "{ "@ + key.rendered(indent) + ": "@ + value.rendered(indent) + ", .. }"@
            },
            ValueHint::Tuple(items) => {
                if items@.len() == 0 {
                    "[]"@
                } else if items@.len() == 1 {
                    " ["@ + items@[0].rendered(indent) + " ]"@
                } else {
                    "["@ + line_break(indent) + Self::rendered_items(items@, indent, items@.len()) + "]"@
                }
            },
            ValueHint::Array(inner) => { "[ "@ + inner.rendered(indent) + ", .. ]"@ },
        }
    }

    /// The first `n` alternatives of `hints`, each on a line of its own and
    /// numbered from one.
    pub open spec fn rendered_alternatives(hints: Seq<ValueHint>, indent: nat, n: nat) -> Seq<char>
        decreases hints, n,
    {
        if n == 0 || n > flatten_choices(hints).len() {
            Seq::empty()
        } else {
            proof {
                lemma_alternatives_are_parts(hints);
            }
            Self::rendered_alternatives(hints, indent, (n - 1) as nat) + line_break(indent)
                + padded_decimal(n, choice_number_width()) + ") "@ + flatten_choices(hints)[n - 1].rendered(
                indent + 2 * indent_step(),
            )
        }
    }

    /// The first `n` fields of an object with several fields, one per line.
    pub open spec fn rendered_fields(fields: Seq<(String, ValueHint)>, indent: nat, n: nat) -> Seq<char>
        decreases fields, n,
    {
        if n == 0 || n > fields.len() {
            Seq::empty()
        } else {
            Self::rendered_fields(fields, indent, (n - 1) as nat) + spaces(indent_step()) + debug_quoted(
                fields[n - 1].0@,
            ) + ": "@ + fields[n - 1].1.rendered(indent + indent_step()) + ","@ + line_break(indent)
        }
    }

    /// The first `n` items of a tuple with several items, one per line.
    pub open spec fn rendered_items(items: Seq<ValueHint>, indent: nat, n: nat) -> Seq<char>
        decreases items, n,
    {
        if n == 0 || n > items.len() {
            Seq::empty()
        } else {
            Self::rendered_items(items, indent, (n - 1) as nat) + spaces(indent_step()) + items[n - 1].rendered(
                indent + indent_step(),
            ) + ","@ + line_break(indent)
        }
    }
}


/// The hints that a sequence of references points to.
pub open spec fn pointees(refs: Seq<&ValueHint>) -> Seq<ValueHint> {
    refs.map_values(|h: &ValueHint| *h)
}

/// Appends `n` spaces to `out`.
fn push_spaces(out: &mut String, n: usize)
    ensures
        final(out)@ == old(out)@ + spaces(n as nat),
{
    let mut i: usize = 0;
    assert(out@ =~= old(out)@ + spaces(0));
    while i < n
        invariant
            i <= n,
            out@ == old(out)@ + spaces(i as nat),
        decreases n - i,
    {
        out.append(" ");
        i += 1;
        assert(out@ =~= old(out)@ + spaces(i as nat));
    }
}

/// Appends a line break and `indent` spaces to `out`.
fn push_line_break(out: &mut String, indent: usize)
    ensures
        final(out)@ == old(out)@ + line_break(indent as nat),
{
    out.append("\n");
    push_spaces(out, indent);
    assert(out@ =~= old(out)@ + line_break(indent as nat));
}

/// The decimal digit `d` as a string.
fn digit_str(d: usize) -> (s: &'static str)
    requires
        d < 10,
    ensures
        s@ == digit(d as nat),
{
    if d == 0 {
        "0"
    } else if d == 1 {
        "1"
    } else if d == 2 {
        "2"
    } else if d == 3 {
        "3"
    } else if d == 4 {
        "4"
    } else if d == 5 {
        "5"
    } else if d == 6 {
        "6"
    } else if d == 7 {
        "7"
    } else if d == 8 {
        "8"
    } else {
        "9"
    }
}

/// Appends `n` in decimal to `out`.
fn push_decimal(out: &mut String, n: usize)
    ensures
        final(out)@ == old(out)@ + decimal(n as nat),
    decreases n,
{
    if n < 10 {
        out.append(digit_str(n));
    } else {
        push_decimal(out, n / 10);
        out.append(digit_str(n % 10));
        assert(out@ =~= old(out)@ + decimal(n as nat));
    }
}

/// Number of decimal digits of `n`.
fn decimal_width(n: usize) -> (width: usize)
    ensures
        width == decimal_len(n as nat),
{
    let mut width: usize = 1;
    let mut rest: usize = n;
    while rest >= 10
        invariant
            width + rest <= n + 1,
            decimal_len(n as nat) == decimal_len(rest as nat) + width - 1,
        decreases rest,
    {
        rest = rest / 10;
        width += 1;
    }
    width
}

/// Appends `n` in decimal, right-aligned in `width` characters, to `out`.
fn push_padded_decimal(out: &mut String, n: usize, width: usize)
    ensures
        final(out)@ == old(out)@ + padded_decimal(n as nat, width as nat),
{
    let digits = decimal_width(n);
    if digits < width {
        push_spaces(out, width - digits);
    }
    push_decimal(out, n);
    assert(out@ =~= old(out)@ + padded_decimal(n as nat, width as nat));
}

impl ValueHint {
    /// Whether every indentation that rendering at `indent` reaches is a `usize`.
    pub open spec fn indent_fits(self, indent: nat) -> bool
        decreases self,
    {
        if indent > usize::MAX {
            false
        } else {
            match self {
                ValueHint::Prim(_) => true,
                ValueHint::StrLit(_) => true,
                ValueHint::Choice(hints) => {
                    let alternatives = flatten_choices(hints@);
                    if alternatives.len() == 0 {
                        true
                    } else if alternatives.len() == 1 {
                        proof {
                            lemma_alternatives_are_parts(hints@);
                        }
                        alternatives[0].indent_fits(indent)
                    } else {
                        proof {
                            lemma_alternatives_are_parts(hints@);
                        }
                        forall|i: int|
                            0 <= i < alternatives.len() ==> (#[trigger] alternatives[i]).indent_fits(
                                indent + 2 * indent_step(),
                            )
                    }
                },
                ValueHint::Object(fields) => {
                    if fields@.len() == 0 {
                        true
                    } else if fields@.len() == 1 {
                        fields@[0].1.indent_fits(indent)
                    } else {
                        forall|i: int|
                            0 <= i < fields@.len() ==> (#[trigger] fields@[i]).1.indent_fits(indent + indent_step())
                    }
                },
                ValueHint::MapOf(key, value) => key.indent_fits(indent) && value.indent_fits(indent),
                ValueHint::Tuple(items) => {
                    if items@.len() == 0 {
                        true
                    } else if items@.len() == 1 {
                        items@[0].indent_fits(indent)
                    } else {
                        forall|i: int|
                            0 <= i < items@.len() ==> (#[trigger] items@[i]).indent_fits(indent + indent_step())
                    }
                },
                ValueHint::Array(inner) => inner.indent_fits(indent),
            }
        }
    }

    /// Collects the alternatives of a list of hints, looking into nested choices.
    pub fn collect_choices<'a>(start: &'a Vec<ValueHint>) -> (out: Vec<&'a ValueHint>)
        ensures
            pointees(out@) == flatten_choices(start@),
    {
        let mut out: Vec<&'a ValueHint> = Vec::new();
        Self::collect_choices_impl(&mut out, start);
        assert(pointees(out@) =~= flatten_choices(start@));
        out
    }

    /// Appends the alternatives of `hints` to `out`, in order.
    pub fn collect_choices_impl<'a>(out: &mut Vec<&'a ValueHint>, hints: &'a Vec<ValueHint>)
        ensures
            pointees(final(out)@) == pointees(old(out)@) + flatten_choices(hints@),
        decreases hints,
    {
        let mut i: usize = 0;
        assert(hints@.subrange(0, 0) =~= Seq::empty());
        assert(pointees(out@) =~= pointees(old(out)@) + flatten_choices(hints@.subrange(0, 0)));
        while i < hints.len()
            invariant
                i <= hints.len(),
                pointees(out@) == pointees(old(out)@) + flatten_choices(hints@.subrange(0, i as int)),
            decreases hints.len() - i,
        {
            let ghost before = out@;
            let ghost prefix = hints@.subrange(0, i as int + 1);
            assert(prefix.drop_last() =~= hints@.subrange(0, i as int));
            assert(prefix.last() == hints@[i as int]);
            match &hints[i] {
                ValueHint::Choice(sub) => {
                    Self::collect_choices_impl(out, sub);
                    assert(pointees(out@) =~= pointees(old(out)@) + flatten_choices(prefix));
                },
                hint => {
                    out.push(hint);
                    assert(pointees(out@) =~= pointees(before).push(*hint));
                    assert(pointees(out@) =~= pointees(old(out)@) + flatten_choices(prefix));
                },
            }
            i += 1;
        }
        assert(hints@.subrange(0, hints.len() as int) =~= hints@);
    }
}


impl ValueHint {
    /// Appends the text of this hint to `out`.  `indent` is the indentation of
    /// the line on which the text starts; lines that the text itself opens are
    /// indented further.
    pub fn fmt_indent(&self, indent: usize, out: &mut String)
        requires
            self.indent_fits(indent as nat),
        ensures
            final(out)@ == old(out)@ + self.rendered(indent as nat),
        decreases self,
    {
        match self {
            ValueHint::Prim(name) => {
                out.append(name.as_str());
            },
            ValueHint::StrLit(s) => {
                let quoted = debug_string(s.as_str());
                out.append(quoted.as_str());
            },
            ValueHint::Choice(hints) => {
                let alternatives = Self::collect_choices(hints);
                proof {
                    lemma_alternatives_are_parts(hints@);
                }
                if alternatives.len() == 0 {
                    out.append("impossible");
                } else if alternatives.len() == 1 {
                    assert(*alternatives[0] == pointees(alternatives@)[0]);
                    alternatives[0].fmt_indent(indent, out);
                } else {
                    assert(pointees(alternatives@)[0].indent_fits((indent + 8) as nat));
                    assert(decreases_to!(*self => hints@));
                    out.append("EITHER OF");
                    let mut n: usize = 0;
                    assert(out@ =~= old(out)@ + ("EITHER OF"@ + Self::rendered_alternatives(hints@, indent as nat, 0)));
                    while n < alternatives.len()
                        invariant
                            n <= alternatives.len(),
                            indent + 8 <= usize::MAX,
                            pointees(alternatives@) == flatten_choices(hints@),
                            forall|i: int|
                                0 <= i < alternatives.len() ==> decreases_to!(*self => #[trigger] flatten_choices(hints@)[i]),
                            forall|i: int|
                                0 <= i < alternatives.len() ==> (#[trigger] flatten_choices(hints@)[i]).indent_fits((indent + 8) as nat),
                            out@ == old(out)@ + ("EITHER OF"@ + Self::rendered_alternatives(
                                hints@,
                                indent as nat,
                                n as nat,
                            )),
                        decreases alternatives.len() - n,
                    {
                        let ghost before = out@;
                        let alternative = alternatives[n];
                        assert(*alternative == flatten_choices(hints@)[n as int]) by {
                            assert(*alternative == pointees(alternatives@)[n as int]);
                        }
                        push_line_break(out, indent);
                        push_padded_decimal(out, n + 1, 6);
                        out.append(") ");
                        alternative.fmt_indent(indent + 8, out);
                        n += 1;
                        assert(out@ =~= old(out)@ + ("EITHER OF"@ + Self::rendered_alternatives(
                            hints@,
                            indent as nat,
                            n as nat,
                        )));
                    }
                }
            },
            ValueHint::Object(fields) => {
                if fields.len() == 0 {
                    out.append("{}");
                } else if fields.len() == 1 {
                    out.append("{ ");
                    let name = debug_string(fields[0].0.as_str());
                    out.append(name.as_str());
                    out.append(": ");
                    fields[0].1.fmt_indent(indent, out);
                    out.append(" }");
                    assert(out@ =~= old(out)@ + self.rendered(indent as nat));
                } else {
                    assert(fields@[0].1.indent_fits((indent + 4) as nat));
                    assert(decreases_to!(*self => fields@));
                    out.append("{");
                    push_line_break(out, indent);
                    let mut n: usize = 0;
                    assert(out@ =~= old(out)@ + ("{"@ + line_break(indent as nat) + Self::rendered_fields(
                        fields@,
                        indent as nat,
                        0,
                    )));
                    while n < fields.len()
                        invariant
                            n <= fields.len(),
                            indent + 4 <= usize::MAX,
                            forall|i: int| 0 <= i < fields@.len() ==> decreases_to!(*self => (#[trigger] fields@[i]).1),
                            forall|i: int|
                                0 <= i < fields@.len() ==> (#[trigger] fields@[i]).1.indent_fits((indent + 4) as nat),
                            out@ == old(out)@ + ("{"@ + line_break(indent as nat) + Self::rendered_fields(
                                fields@,
                                indent as nat,
                                n as nat,
                            )),
                        decreases fields.len() - n,
                    {
                        push_spaces(out, 4);
                        let name = debug_string(fields[n].0.as_str());
                        out.append(name.as_str());
                        out.append(": ");
                        fields[n].1.fmt_indent(indent + 4, out);
                        out.append(",");
                        push_line_break(out, indent);
                        n += 1;
                        assert(out@ =~= old(out)@ + ("{"@ + line_break(indent as nat) + Self::rendered_fields(
                            fields@,
                            indent as nat,
                            n as nat,
                        )));
                    }
                    out.append("}");
                    assert(out@ =~= old(out)@ + self.rendered(indent as nat));
                }
            },
            ValueHint::MapOf(key, value) => {
                out.append("{ ");
                key.fmt_indent(indent, out);
                out.append(": ");
                value.fmt_indent(indent, out);
                out.append(", .. }");
                assert(out@ =~= old(out)@ + self.rendered(indent as nat));
            },
            ValueHint::Tuple(items) => {
                if items.len() == 0 {
                    out.append("[]");
                } else if items.len() == 1 {
                    out.append(" [");
                    items[0].fmt_indent(indent, out);
                    out.append(" ]");
                    assert(out@ =~= old(out)@ + self.rendered(indent as nat));
                } else {
                    assert(items@[0].indent_fits((indent + 4) as nat));
                    assert(decreases_to!(*self => items@));
                    out.append("[");
                    push_line_break(out, indent);
                    let mut n: usize = 0;
                    assert(out@ =~= old(out)@ + ("["@ + line_break(indent as nat) + Self::rendered_items(
                        items@,
                        indent as nat,
                        0,
                    )));
                    while n < items.len()
                        invariant
                            n <= items.len(),
                            indent + 4 <= usize::MAX,
                            forall|i: int| 0 <= i < items@.len() ==> decreases_to!(*self => #[trigger] items@[i]),
                            forall|i: int|
                                0 <= i < items@.len() ==> (#[trigger] items@[i]).indent_fits((indent + 4) as nat),
                            out@ == old(out)@ + ("["@ + line_break(indent as nat) + Self::rendered_items(
                                items@,
                                indent as nat,
                                n as nat,
                            )),
                        decreases items.len() - n,
                    {
                        push_spaces(out, 4);
                        items[n].fmt_indent(indent + 4, out);
                        out.append(",");
                        push_line_break(out, indent);
                        n += 1;
                        assert(out@ =~= old(out)@ + ("["@ + line_break(indent as nat) + Self::rendered_items(
                            items@,
                            indent as nat,
                            n as nat,
                        )));
                    }
                    out.append("]");
                    assert(out@ =~= old(out)@ + self.rendered(indent as nat));
                }
            },
            ValueHint::Array(inner) => {
                out.append("[ ");
                inner.fmt_indent(indent, out);
                out.append(", .. ]");
                assert(out@ =~= old(out)@ + self.rendered(indent as nat));
            },
        }
    }

    /// The text of this hint, starting on an unindented line.
    pub fn render(&self) -> (text: String)
        requires
            self.indent_fits(0),
        ensures
            text@ == self.rendered(0),
    {
        let mut text = String::new();
        self.fmt_indent(0, &mut text);
        assert(text@ =~= self.rendered(0));
        text
    }
}


impl ValueHint {
    /// Tells whether this hint can be rendered at `indent`.
    pub fn fits_indent(&self, indent: usize) -> (ok: bool)
        ensures
            ok == self.indent_fits(indent as nat),
        decreases self,
    {
        match self {
            ValueHint::Prim(_) => true,
            ValueHint::StrLit(_) => true,
            ValueHint::Choice(hints) => {
                let alternatives = Self::collect_choices(hints);
                proof {
                    lemma_alternatives_are_parts(hints@);
                }
                if alternatives.len() == 0 {
                    true
                } else if alternatives.len() == 1 {
                    assert(*alternatives[0] == pointees(alternatives@)[0]);
                    alternatives[0].fits_indent(indent)
                } else if indent > usize::MAX - 8 {
                    assert(!flatten_choices(hints@)[0].indent_fits(indent as nat + 2 * indent_step()));
                    false
                } else {
                    assert(decreases_to!(*self => hints@));
                    let mut n: usize = 0;
                    while n < alternatives.len()
                        invariant
                            n <= alternatives.len(),
                            indent + 8 <= usize::MAX,
                            pointees(alternatives@) == flatten_choices(hints@),
                            forall|i: int|
                                0 <= i < alternatives.len() ==> decreases_to!(*self => #[trigger] flatten_choices(hints@)[i]),
                            forall|i: int|
                                0 <= i < n ==> (#[trigger] flatten_choices(hints@)[i]).indent_fits((indent + 8) as nat),
                            self.indent_fits(indent as nat) == (forall|i: int|
                                0 <= i < alternatives.len() ==> (#[trigger] flatten_choices(hints@)[i]).indent_fits(
                                    (indent + 8) as nat,
                                )),
                        decreases alternatives.len() - n,
                    {
                        assert(*alternatives[n as int] == pointees(alternatives@)[n as int]);
                        if !alternatives[n].fits_indent(indent + 8) {
                            return false;
                        }
                        n += 1;
                    }
                    true
                }
            },
            ValueHint::Object(fields) => {
                if fields.len() == 0 {
                    true
                } else if fields.len() == 1 {
                    fields[0].1.fits_indent(indent)
                } else if indent > usize::MAX - 4 {
                    assert(!fields@[0].1.indent_fits(indent as nat + indent_step()));
                    false
                } else {
                    assert(decreases_to!(*self => fields@));
                    let mut n: usize = 0;
                    while n < fields.len()
                        invariant
                            n <= fields.len(),
                            indent + 4 <= usize::MAX,
                            forall|i: int| 0 <= i < fields@.len() ==> decreases_to!(*self => (#[trigger] fields@[i]).1),
                            forall|i: int| 0 <= i < n ==> (#[trigger] fields@[i]).1.indent_fits((indent + 4) as nat),
                            self.indent_fits(indent as nat) == (forall|i: int|
                                0 <= i < fields@.len() ==> (#[trigger] fields@[i]).1.indent_fits((indent + 4) as nat)),
                        decreases fields.len() - n,
                    {
                        if !fields[n].1.fits_indent(indent + 4) {
                            return false;
                        }
                        n += 1;
                    }
                    true
                }
            },
            ValueHint::MapOf(key, value) => key.fits_indent(indent) && value.fits_indent(indent),
            ValueHint::Tuple(items) => {
                if items.len() == 0 {
                    true
                } else if items.len() == 1 {
                    items[0].fits_indent(indent)
                } else if indent > usize::MAX - 4 {
                    assert(!items@[0].indent_fits(indent as nat + indent_step()));
                    false
                } else {
                    assert(decreases_to!(*self => items@));
                    let mut n: usize = 0;
                    while n < items.len()
                        invariant
                            n <= items.len(),
                            indent + 4 <= usize::MAX,
                            forall|i: int| 0 <= i < items@.len() ==> decreases_to!(*self => #[trigger] items@[i]),
                            forall|i: int| 0 <= i < n ==> (#[trigger] items@[i]).indent_fits((indent + 4) as nat),
                            self.indent_fits(indent as nat) == (forall|i: int|
                                0 <= i < items@.len() ==> (#[trigger] items@[i]).indent_fits((indent + 4) as nat)),
                        decreases items.len() - n,
                    {
                        if !items[n].fits_indent(indent + 4) {
                            return false;
                        }
                        n += 1;
                    }
                    true
                }
            },
            ValueHint::Array(inner) => inner.fits_indent(indent),
        }
    }
}

/// A block of code under a header line.
pub open spec fn code_block_text(header: Seq<char>, content: Seq<char>) -> Seq<char> {
    header + ":\n```\n"@ + content + "\n```\n\n"@
}

/// A description as a paragraph of its own; nothing if it is blank.
pub open spec fn description_text(description: Seq<char>) -> Seq<char> {
    if trimmed(description).len() == 0 {
        Seq::empty()
    } else {
        description + "\n\n"@
    }
}

/// A description that holds nothing but white space is left out; every
/// other description is a paragraph of its own.
pub proof fn lemma_blank_description_is_left_out(description: Seq<char>)
    ensures
        description_text(description) == if is_blank(description) {
            Seq::<char>::empty()
        } else {
            description + "\n\n"@
        },
{
    lemma_trimmed_is_empty_iff_blank(description);
}

/// Appends `content`, fenced as a code block under `header`, to `out`.
pub fn code_block(header: &str, content: &ValueHint, out: &mut String)
    requires
        content.indent_fits(0),
    ensures
        final(out)@ == old(out)@ + code_block_text(header@, content.rendered(0)),
{
    out.append(header);
    out.append(":\n```\n");
    content.fmt_indent(0, out);
    out.append("\n```\n\n");
    assert(out@ =~= old(out)@ + code_block_text(header@, content.rendered(0)));
}

/// Appends a description and a blank line to `out`, unless the description
/// holds nothing but whitespace.
fn push_description(description: &str, out: &mut String)
    ensures
        final(out)@ == old(out)@ + description_text(description@),
{
    let inner = trim_str(description);
    push_description_unless_blank(description, inner, out);
}

/// Appends a description and a blank line to `out`, unless nothing is left
/// of the description when it is trimmed.  `inner` is the trimmed description.
pub fn push_description_unless_blank(description: &str, inner: &str, out: &mut String)
    ensures
        final(out)@ == old(out)@ + if inner@.len() == 0 {
            Seq::<char>::empty()
        } else {
            description@ + "\n\n"@
        },
{
    if !inner.is_empty() {
        out.append(description);
        out.append("\n\n");
    }
    assert(out@ =~= old(out)@ + if inner@.len() == 0 {
        Seq::<char>::empty()
    } else {
        description@ + "\n\n"@
    });
}

impl MethodKindData {
    /// The word that the heading of a method starts with.
    pub open spec fn kind_name(self) -> Seq<char> {
        match self {
            MethodKindData::Method { .. } => "Method"@,
            MethodKindData::Subscription { .. } => "Subscription"@,
        }
    }

    /// The hint of what the method returns or the subscription produces.
    pub open spec fn result_hint(self) -> ValueHint {
        match self {
            MethodKindData::Method { return_type } => return_type,
            MethodKindData::Subscription { item_type, .. } => item_type,
        }
    }

    /// The text that follows the parameters of a method.
    pub open spec fn rendered(self) -> Seq<char> {
        match self {
            MethodKindData::Method { return_type } => code_block_text("Returns"@, return_type.rendered(0)),
            MethodKindData::Subscription { unsubscribe_name, item_type } => code_block_text(
                "Produces"@,
                item_type.rendered(0),
            ) + "Unsubscribe using `"@ + unsubscribe_name@ + "`.\n\n"@
                + "Note: Subscriptions only work over WebSockets.\n\n"@,
        }
    }
}

impl Method {
    /// Whether the hints of this method can be rendered.
    pub open spec fn hints_fit(self) -> bool {
        self.params.indent_fits(0) && self.kind_data.result_hint().indent_fits(0)
    }

    /// The section of the documentation that describes this method.
    pub open spec fn rendered(self) -> Seq<char> {
        "### "@ + self.kind_data.kind_name() + " `"@ + self.name@ + "`\n\n"@ + description_text(self.description@)
            + code_block_text("Parameters"@, self.params.rendered(0)) + self.kind_data.rendered()
    }

    /// Tells whether the hints of this method can be rendered.
    pub fn check_hints_fit(&self) -> (ok: bool)
        ensures
            ok == self.hints_fit(),
    {
        let result_fits = match &self.kind_data {
            MethodKindData::Method { return_type } => return_type.fits_indent(0),
            MethodKindData::Subscription { unsubscribe_name: _, item_type } => item_type.fits_indent(0),
        };
        self.params.fits_indent(0) && result_fits
    }

    /// Appends the section that describes this method to `out`.
    pub fn fmt(&self, out: &mut String)
        requires
            self.hints_fit(),
        ensures
            final(out)@ == old(out)@ + self.rendered(),
    {
        let kind = match &self.kind_data {
            MethodKindData::Subscription { .. } => "Subscription",
            MethodKindData::Method { .. } => "Method",
        };
        out.append("### ");
        out.append(kind);
        out.append(" `");
        out.append(self.name.as_str());
        out.append("`\n\n");
        push_description(self.description.as_str(), out);
        code_block("Parameters", &self.params, out);
        let ghost before_kind = out@;
        assert(before_kind =~= old(out)@ + ("### "@ + self.kind_data.kind_name() + " `"@ + self.name@ + "`\n\n"@
            + description_text(self.description@) + code_block_text("Parameters"@, self.params.rendered(0))));
        match &self.kind_data {
            MethodKindData::Method { return_type } => {
                code_block("Returns", return_type, out);
            },
            MethodKindData::Subscription { unsubscribe_name, item_type } => {
                code_block("Produces", item_type, out);
                out.append("Unsubscribe using `");
                out.append(unsubscribe_name.as_str());
                out.append("`.\n\n");
                out.append("Note: Subscriptions only work over WebSockets.\n\n");
                assert(out@ =~= before_kind + self.kind_data.rendered());
            },
        }
        assert(out@ =~= old(out)@ + self.rendered());
    }

    /// The section that describes this method.
    pub fn render(&self) -> (text: String)
        requires
            self.hints_fit(),
        ensures
            text@ == self.rendered(),
    {
        let mut text = String::new();
        self.fmt(&mut text);
        assert(text@ =~= self.rendered());
        text
    }
}

impl Module {
    /// Whether the hints of every method of this module can be rendered.
    pub open spec fn hints_fit(self) -> bool {
        forall|i: int| 0 <= i < self.methods@.len() ==> (#[trigger] self.methods@[i]).hints_fit()
    }

    /// The sections of the first `n` methods.
    pub open spec fn rendered_methods(methods: Seq<Method>, n: nat) -> Seq<char>
        decreases n,
    {
        if n == 0 || n > methods.len() {
            Seq::empty()
        } else {
            Self::rendered_methods(methods, (n - 1) as nat) + methods[n - 1].rendered()
        }
    }

    /// The chapter of the documentation that describes this module.
    pub open spec fn rendered(self) -> Seq<char> {
        "## Module `"@ + self.name@ + "`\n\n"@ + description_text(self.description@) + Self::rendered_methods(
            self.methods@,
            self.methods@.len(),
        )
    }

    /// Tells whether the hints of every method of this module can be rendered.
    pub fn check_hints_fit(&self) -> (ok: bool)
        ensures
            ok == self.hints_fit(),
    {
        let mut n: usize = 0;
        while n < self.methods.len()
            invariant
                n <= self.methods.len(),
                forall|i: int| 0 <= i < n ==> (#[trigger] self.methods@[i]).hints_fit(),
            decreases self.methods.len() - n,
        {
            if !self.methods[n].check_hints_fit() {
                return false;
            }
            n += 1;
        }
        true
    }

    /// Appends the chapter that describes this module to `out`.
    pub fn fmt(&self, out: &mut String)
        requires
            self.hints_fit(),
        ensures
            final(out)@ == old(out)@ + self.rendered(),
    {
        out.append("## Module `");
        out.append(self.name.as_str());
        out.append("`\n\n");
        push_description(self.description.as_str(), out);
        let ghost heading = "## Module `"@ + self.name@ + "`\n\n"@ + description_text(self.description@);
        let mut n: usize = 0;
        assert(out@ =~= old(out)@ + (heading + Self::rendered_methods(self.methods@, 0)));
        while n < self.methods.len()
            invariant
                n <= self.methods.len(),
                self.hints_fit(),
                out@ == old(out)@ + (heading + Self::rendered_methods(self.methods@, n as nat)),
            decreases self.methods.len() - n,
        {
            self.methods[n].fmt(out);
            n += 1;
            assert(out@ =~= old(out)@ + (heading + Self::rendered_methods(self.methods@, n as nat)));
        }
    }

    /// The chapter that describes this module.
    pub fn render(&self) -> (text: String)
        requires
            self.hints_fit(),
        ensures
            text@ == self.rendered(),
    {
        let mut text = String::new();
        self.fmt(&mut text);
        assert(text@ =~= self.rendered());
        text
    }
}

impl Interface {
    /// Whether the hints of every method of this interface can be rendered.
    pub open spec fn hints_fit(self) -> bool {
        forall|i: int| 0 <= i < self.modules@.len() ==> (#[trigger] self.modules@[i]).hints_fit()
    }

    /// The chapters of the first `n` modules.
    pub open spec fn rendered_modules(modules: Seq<Module>, n: nat) -> Seq<char>
        decreases n,
    {
        if n == 0 || n > modules.len() {
            Seq::empty()
        } else {
            Self::rendered_modules(modules, (n - 1) as nat) + modules[n - 1].rendered()
        }
    }

    /// The chapters of all modules, in order.
    pub open spec fn rendered(self) -> Seq<char> {
        Self::rendered_modules(self.modules@, self.modules@.len())
    }

    /// Tells whether the hints of every method of this interface can be rendered.
    pub fn check_hints_fit(&self) -> (ok: bool)
        ensures
            ok == self.hints_fit(),
    {
        let mut n: usize = 0;
        while n < self.modules.len()
            invariant
                n <= self.modules.len(),
                forall|i: int| 0 <= i < n ==> (#[trigger] self.modules@[i]).hints_fit(),
            decreases self.modules.len() - n,
        {
            if !self.modules[n].check_hints_fit() {
                return false;
            }
            n += 1;
        }
        true
    }

    /// Appends the chapters of all modules to `out`.
    pub fn fmt(&self, out: &mut String)
        requires
            self.hints_fit(),
        ensures
            final(out)@ == old(out)@ + self.rendered(),
    {
        let mut n: usize = 0;
        assert(out@ =~= old(out)@ + Self::rendered_modules(self.modules@, 0));
        while n < self.modules.len()
            invariant
                n <= self.modules.len(),
                self.hints_fit(),
                out@ == old(out)@ + Self::rendered_modules(self.modules@, n as nat),
            decreases self.modules.len() - n,
        {
            self.modules[n].fmt(out);
            n += 1;
            assert(out@ =~= old(out)@ + Self::rendered_modules(self.modules@, n as nat));
        }
    }

    /// The chapters of all modules.
    pub fn render(&self) -> (text: String)
        requires
            self.hints_fit(),
        ensures
            text@ == self.rendered(),
    {
        let mut text = String::new();
        self.fmt(&mut text);
        assert(text@ =~= self.rendered());
        text
    }
}

impl RpcDocs {
    /// The whole document: title, version, an optional introduction, and the
    /// chapters of the interface.
    pub open spec fn rendered(self) -> Seq<char> {
        "# RPC documentation for "@ + self.title@ + "\n\n"@ + "Version `"@ + self.version@ + "`.\n\n"@ + (if self.description@.len()
            == 0 {
            Seq::empty()
        } else {
            self.description@ + "\n\n"@
        }) + self.interface.rendered()
    }

    /// Appends the whole document to `out`.
    pub fn fmt(&self, out: &mut String)
        requires
            self.interface.hints_fit(),
        ensures
            final(out)@ == old(out)@ + self.rendered(),
    {
        out.append("# RPC documentation for ");
        out.append(self.title.as_str());
        out.append("\n\n");
        out.append("Version `");
        out.append(self.version.as_str());
        out.append("`.\n\n");
        if !self.description.as_str().is_empty() {
            out.append(self.description.as_str());
            out.append("\n\n");
        }
        self.interface.fmt(out);
        assert(out@ =~= old(out)@ + self.rendered());
    }

    /// The whole document.
    pub fn render(&self) -> (text: String)
        requires
            self.interface.hints_fit(),
        ensures
            text@ == self.rendered(),
    {
        let mut text = String::new();
        self.fmt(&mut text);
        assert(text@ =~= self.rendered());
        text
    }
}

} // verus!
