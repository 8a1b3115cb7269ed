//! Log levels, and the filter directives that are made of them.
use super::panic_report::optional_text;
use tracing_subscriber::filter::{EnvFilter, LevelFilter};
use vstd::prelude::*;

verus! {

/// How much is logged.
#[derive(Debug, Clone, Copy, PartialEq, Eq, Structural)]
pub enum LogLevel {
    Off,
    Error,
    Warn,
    Info,
    Debug,
    Trace,
}

impl LogLevel {
    /// The name of a level in filter directives.
    pub open spec fn text(self) -> Seq<char> {
        match self {
            LogLevel::Off => "off"@,
            LogLevel::Error => "error"@,
            LogLevel::Warn => "warn"@,
            LogLevel::Info => "info"@,
            LogLevel::Debug => "debug"@,
            LogLevel::Trace => "trace"@,
        }
    }

    /// The name of the level in filter directives.
    pub fn as_str(self) -> (r: &'static str)
        ensures
            r@ == self.text(),
    {
        match self {
            LogLevel::Off => "off",
            LogLevel::Error => "error",
            LogLevel::Warn => "warn",
            LogLevel::Info => "info",
            LogLevel::Debug => "debug",
            LogLevel::Trace => "trace",
        }
    }
}

/// The characters that Unicode counts as white space.
pub open spec fn is_white_space(c: char) -> bool {
    ||| '\u{9}' <= c <= '\u{d}'
    ||| c == '\u{20}'
    ||| c == '\u{85}'
    ||| c == '\u{a0}'
    ||| c == '\u{1680}'
    ||| '\u{2000}' <= c <= '\u{200a}'
    ||| c == '\u{2028}'
    ||| c == '\u{2029}'
    ||| c == '\u{202f}'
    ||| c == '\u{205f}'
    ||| c == '\u{3000}'
}

/// The number of bytes that a character takes in UTF-8.
pub open spec fn utf8_len(c: char) -> nat {
    if c <= '\u{7f}' {
        1
    } else if c <= '\u{7ff}' {
        2
    } else if c <= '\u{ffff}' {
        3
    } else {
        4
    }
}

/// The number of bytes that the first `n` characters take in UTF-8.
pub open spec fn byte_offset(text: Seq<char>, n: int) -> nat
    decreases n,
{
    if n <= 0 {
        0
    } else {
        byte_offset(text, n - 1) + utf8_len(text[n - 1])
    }
}

/// Whether so many bytes are a number of whole characters of `text`, from its beginning.
pub open spec fn is_boundary(text: Seq<char>, offset: int) -> bool {
    exists|n: int| 0 <= n <= text.len() && #[trigger] byte_offset(text, n) == offset
}

/// How many of the first `n` characters are white space that nothing else comes before.
pub open spec fn indent(text: Seq<char>, n: int) -> int
    decreases n,
{
    if n <= 0 {
        0
    } else if indent(text, n - 1) == n - 1 && is_white_space(text[n - 1]) {
        n
    } else {
        indent(text, n - 1)
    }
}

/// Whether the target of a directive has ended before `at`.
pub open spec fn target_ended(directive: Seq<char>, at: int) -> bool {
    exists|i: int| 0 <= i < at && (#[trigger] directive[i] == '=' || directive[i] == '[')
}

/// Whether a bracket follows the target of a directive, and stands before `at`.
pub open spec fn bracket_opened(directive: Seq<char>, at: int) -> bool {
    exists|i: int|
        0 <= i < at && #[trigger] directive[i] == '[' && !target_ended(directive, i)
}

/// Whether the parser may cut a directive at the character `at`. The target ends at the first `=`
/// or `[`. After a `=` there is nothing but the level, which is not cut. After a `[`, a span
/// ends at `]` or `{`, fields end at `}`, and the level follows a `=` behind the `]`.
pub open spec fn is_cut(directive: Seq<char>, at: int) -> bool {
    let c = directive[at];
    if !target_ended(directive, at) {
        c == '=' || c == '['
    } else {
        bracket_opened(directive, at) && (c == ']' || c == '{' || c == '}' || (c == '=' && directive[at
            - 1] == ']'))
    }
}

/// Whether no cut can fall inside a character of a directive. The parser looks for the characters
/// to cut at in the directive without the white space around it, but cuts the directive itself
/// at the byte offsets that it finds. A span, fields or a level begin one byte behind.
pub open spec fn safe_directive(directive: Seq<char>) -> bool {
    let indented = byte_offset(directive, indent(directive, directive.len() as int));
    forall|at: int|
        0 <= at < directive.len() && #[trigger] is_cut(directive, at) ==> {
            &&& is_boundary(directive, byte_offset(directive, at) - indented)
            &&& directive[at] == ']' || directive[at] == '}' || is_boundary(
                directive,
                byte_offset(directive, at) - indented + 1,
            )
        }
}

/// Whether a directive stands between `start` and `end`: directives are what commas separate.
pub open spec fn directive_at(text: Seq<char>, start: int, end: int) -> bool {
    &&& 0 <= start <= end <= text.len()
    &&& start == 0 || text[start - 1] == ','
    &&& end == text.len() || text[end] == ','
    &&& forall|i: int| start <= i < end ==> #[trigger] text[i] != ','
}

/// Whether it is certain that parsing directives cuts none inside a character. Where this does
/// not hold the parser may still refuse a directive before it comes to the cut.
pub open spec fn safe_to_parse(text: Seq<char>) -> bool {
    forall|start: int, end: int| #[trigger]
        directive_at(text, start, end) ==> safe_directive(text.subrange(start, end))
}

/// The indent of a directive ends at its first character that is not white space.
proof fn lemma_indent(text: Seq<char>, n: int)
    requires
        0 <= n <= text.len(),
    ensures
        0 <= indent(text, n) <= n,
        forall|i: int| 0 <= i < indent(text, n) ==> is_white_space(#[trigger] text[i]),
        indent(text, n) < n ==> !is_white_space(text[indent(text, n)]),
    decreases n,
{
    if n > 0 {
        lemma_indent(text, n - 1);
    }
}

/// The first characters of ASCII text take a byte each.
proof fn lemma_ascii_offset(text: Seq<char>, n: int)
    requires
        0 <= n <= text.len(),
        forall|i: int| 0 <= i < n ==> #[trigger] text[i] <= '\u{7f}',
    ensures
        byte_offset(text, n) == n,
    decreases n,
{
    if n > 0 {
        lemma_ascii_offset(text, n - 1);
    }
}

/// Directives that do not begin with white space are always safe to parse.
pub proof fn law_unindented_directives_are_safe(text: Seq<char>)
    requires
        forall|start: int, end: int| #[trigger]
            directive_at(text, start, end) && start < end ==> !is_white_space(text[start]),
    ensures
        safe_to_parse(text),
{
    assert forall|start: int, end: int| #[trigger] directive_at(text, start, end) implies safe_directive(
        text.subrange(start, end),
    ) by {
        let d = text.subrange(start, end);
        lemma_indent(d, d.len() as int);
        if start < end {
            assert(d[0] == text[start]);
        }
        assert(indent(d, d.len() as int) == 0);
        assert forall|at: int| 0 <= at < d.len() && #[trigger] is_cut(d, at) implies is_boundary(
            d,
            byte_offset(d, at) as int,
        ) && is_boundary(d, byte_offset(d, at) as int + 1) by {
            assert(byte_offset(d, at + 1) == byte_offset(d, at) + 1);
        }
    }
}

/// Directives of ASCII alone are always safe to parse.
pub proof fn law_ascii_directives_are_safe(text: Seq<char>)
    requires
        forall|i: int| 0 <= i < text.len() ==> #[trigger] text[i] <= '\u{7f}',
    ensures
        safe_to_parse(text),
{
    assert forall|start: int, end: int| #[trigger] directive_at(text, start, end) implies safe_directive(
        text.subrange(start, end),
    ) by {
        let d = text.subrange(start, end);
        assert(forall|i: int| 0 <= i < d.len() ==> #[trigger] d[i] == text[start + i]);
        let n = indent(d, d.len() as int);
        lemma_indent(d, d.len() as int);
        lemma_ascii_offset(d, n);
        assert forall|at: int| 0 <= at < d.len() && #[trigger] is_cut(d, at) implies is_boundary(
            d,
            byte_offset(d, at) - byte_offset(d, n),
        ) && is_boundary(d, byte_offset(d, at) - byte_offset(d, n) + 1) by {
            assert(!is_white_space(d[at]));
            assert(n <= at);
            lemma_ascii_offset(d, at);
            lemma_ascii_offset(d, at - n);
            lemma_ascii_offset(d, at - n + 1);
        }
    }
}

/// The number of bytes of some characters is that of the first and that of the others.
proof fn lemma_offset_first(text: Seq<char>, n: int)
    requires
        0 < n <= text.len(),
    ensures
        byte_offset(text, n) == utf8_len(text[0]) + byte_offset(text.drop_first(), n - 1),
    decreases n,
{
    reveal_with_fuel(byte_offset, 2);
    if n > 1 {
        lemma_offset_first(text, n - 1);
    }
}

/// The number of bytes of some characters does not depend on what follows them.
proof fn lemma_offset_prefix(a: Seq<char>, b: Seq<char>, n: int)
    requires
        0 <= n <= a.len(),
        n <= b.len(),
        forall|i: int| 0 <= i < n ==> #[trigger] a[i] == b[i],
    ensures
        byte_offset(a, n) == byte_offset(b, n),
    decreases n,
{
    if n > 0 {
        lemma_offset_prefix(a, b, n - 1);
        assert(a[n - 1] == b[n - 1]);
    }
}

/// The characters from `m` to `n` take the bytes between the offsets of the two.
proof fn lemma_offset_between(text: Seq<char>, m: int, n: int)
    requires
        0 <= m <= n <= text.len(),
    ensures
        byte_offset(text, n) - byte_offset(text, m) == byte_offset(text.subrange(m, n), n - m),
    decreases n,
{
    if m < n {
        let part = text.subrange(m, n);
        lemma_offset_between(text, m, n - 1);
        lemma_offset_prefix(part, text.subrange(m, n - 1), n - 1 - m);
        assert(part[n - 1 - m] == text[n - 1]);
    }
}

/// A character is encoded in as many bytes as it takes.
proof fn lemma_encoded_char(c: char)
    ensures
        vstd::utf8::encode_scalar(c as u32).len() == utf8_len(c),
{
    vstd::utf8::char_is_scalar(c);
    assert(c as u32 <= 0x7f <==> c <= '\u{7f}');
    assert(c as u32 <= 0x7ff <==> c <= '\u{7ff}');
    assert(c as u32 <= 0xffff <==> c <= '\u{ffff}');
}

/// Text is encoded in as many bytes as its characters take.
proof fn lemma_encoded_len(text: Seq<char>)
    ensures
        vstd::utf8::encode_utf8(text).len() == byte_offset(text, text.len() as int),
    decreases text.len(),
{
    if text.len() > 0 {
        lemma_encoded_char(text[0]);
        lemma_encoded_len(text.drop_first());
        lemma_offset_first(text, text.len() as int);
    }
}

/// The offsets at which text can be cut are the boundaries of the characters in its UTF-8 encoding.
pub proof fn law_boundaries_are_those_of_utf8(text: Seq<char>, offset: int)
    ensures
        is_boundary(text, offset) <==> vstd::utf8::is_char_boundary(
            vstd::utf8::encode_utf8(text),
            offset,
        ),
    decreases text.len(),
{
    let bytes = vstd::utf8::encode_utf8(text);
    vstd::utf8::encode_utf8_valid_utf8(text);
    lemma_encoded_len(text);
    if offset == 0 {
        assert(byte_offset(text, 0) == offset);
    } else if offset < 0 || bytes.len() < offset {
        assert forall|n: int| 0 <= n <= text.len() implies #[trigger] byte_offset(text, n)
            != offset by {
            lemma_offsets_grow(text, n, text.len() as int);
        }
    } else {
        let rest = text.drop_first();
        let first = utf8_len(text[0]);
        lemma_encoded_char(text[0]);
        vstd::utf8::encode_utf8_first_scalar(text);
        assert(vstd::utf8::pop_first_scalar(bytes) =~= vstd::utf8::encode_utf8(rest));
        law_boundaries_are_those_of_utf8(rest, offset - first);
        if is_boundary(text, offset) {
            let n = choose|n: int|
                0 <= n <= text.len() && #[trigger] byte_offset(text, n) == offset;
            lemma_offset_first(text, n);
            assert(byte_offset(rest, n - 1) == offset - first);
        }
        if is_boundary(rest, offset - first) {
            let n = choose|n: int|
                0 <= n <= rest.len() && #[trigger] byte_offset(rest, n) == offset - first;
            lemma_offset_first(text, n + 1);
            assert(byte_offset(text, n + 1) == offset);
        }
    }
}

/// The indent of a directive is the white space that it begins with.
proof fn lemma_indent_is(text: Seq<char>, spaces: int)
    requires
        0 <= spaces < text.len(),
        forall|i: int| 0 <= i < spaces ==> is_white_space(#[trigger] text[i]),
        !is_white_space(text[spaces]),
    ensures
        indent(text, text.len() as int) == spaces,
{
    lemma_indent(text, text.len() as int);
    let n = indent(text, text.len() as int);
    if n < spaces {
        assert(is_white_space(text[n]));
    } else if n > spaces {
        assert(is_white_space(text[spaces]));
    }
}

/// Text without a comma is one directive.
proof fn lemma_one_directive(text: Seq<char>)
    requires
        forall|i: int| 0 <= i < text.len() ==> #[trigger] text[i] != ',',
    ensures
        safe_to_parse(text) <==> safe_directive(text),
{
    let len = text.len() as int;
    assert(text.subrange(0, len) =~= text);
    assert(directive_at(text, 0, len));
    assert forall|s: int, e: int| #[trigger] directive_at(text, s, e) implies s == 0 && e == len by {
        if s > 0 {
            assert(text[s - 1] != ',');
        }
        if e < len {
            assert(text[e] != ',');
        }
    }
}

/// The offset at which a directive is cut.
proof fn lemma_cut_offset(text: Seq<char>, spaces: int, at: int)
    requires
        0 <= spaces <= at <= text.len(),
    ensures
        ({
            let bytes = vstd::utf8::encode_utf8(text);
            let offset = vstd::utf8::encode_utf8(text.subrange(spaces, at)).len() as int;
            &&& offset == byte_offset(text, at) - byte_offset(text, spaces)
            &&& vstd::utf8::is_char_boundary(bytes, offset) == is_boundary(text, offset)
            &&& vstd::utf8::is_char_boundary(bytes, offset + 1) == is_boundary(text, offset + 1)
        }),
{
    let offset = byte_offset(text, at) - byte_offset(text, spaces);
    lemma_offset_between(text, spaces, at);
    lemma_encoded_len(text.subrange(spaces, at));
    law_boundaries_are_those_of_utf8(text, offset);
    law_boundaries_are_those_of_utf8(text, offset + 1);
}

/// Directives are safe to parse exactly where each of those that a comma separates is.
pub proof fn law_directives_are_parsed_one_by_one(a: Seq<char>, b: Seq<char>)
    ensures
        safe_to_parse(a + seq![','] + b) <==> safe_to_parse(a) && safe_to_parse(b),
{
    let text = a + seq![','] + b;
    let behind = a.len() + 1;
    assert(text[a.len() as int] == ',');
    assert(forall|i: int| 0 <= i < a.len() ==> #[trigger] text[i] == a[i]);
    assert(forall|i: int| 0 <= i < b.len() ==> #[trigger] b[i] == text[behind + i]);
    if safe_to_parse(text) {
        assert forall|s: int, e: int| #[trigger] directive_at(a, s, e) implies safe_directive(
            a.subrange(s, e),
        ) by {
            assert(directive_at(text, s, e));
            assert(text.subrange(s, e) =~= a.subrange(s, e));
        }
        assert forall|s: int, e: int| #[trigger] directive_at(b, s, e) implies safe_directive(
            b.subrange(s, e),
        ) by {
            assert forall|i: int| behind + s <= i < behind + e implies #[trigger] text[i] != ',' by {
                assert(text[i] == b[i - behind]);
            }
            assert(directive_at(text, behind + s, behind + e));
            assert(text.subrange(behind + s, behind + e) =~= b.subrange(s, e));
        }
    }
    if safe_to_parse(a) && safe_to_parse(b) {
        assert forall|s: int, e: int| #[trigger] directive_at(text, s, e) implies safe_directive(
            text.subrange(s, e),
        ) by {
            if s < behind {
                assert(e <= a.len()) by {
                    if e > a.len() {
                        assert(text[a.len() as int] != ',');
                    }
                }
                assert forall|i: int| s <= i < e implies #[trigger] a[i] != ',' by {
                    assert(text[i] == a[i]);
                }
                if e < a.len() {
                    assert(text[e] == a[e]);
                }
                if s > 0 {
                    assert(text[s - 1] == a[s - 1]);
                }
                assert(directive_at(a, s, e));
                assert(text.subrange(s, e) =~= a.subrange(s, e));
            } else {
                assert forall|i: int| s - behind <= i < e - behind implies #[trigger] b[i]
                    != ',' by {
                    assert(text[behind + i] == b[i]);
                }
                assert(directive_at(b, s - behind, e - behind));
                assert(text.subrange(s, e) =~= b.subrange(s - behind, e - behind));
            }
        }
    }
}

/// A directive without a level or a span is always safe to parse: it is not cut.
pub proof fn law_bare_directive_is_safe(text: Seq<char>)
    requires
        forall|i: int|
            0 <= i < text.len() ==> #[trigger] text[i] != ',' && text[i] != '=' && text[i] != '[',
    ensures
        safe_to_parse(text),
{
    lemma_one_directive(text);
    assert forall|at: int| 0 <= at < text.len() implies !(#[trigger] is_cut(text, at)) by {
        assert(text[at] != '=' && text[at] != '[');
        assert(!target_ended(text, at));
    }
}

/// A directive of a target and a level, which white space may come before, is safe to parse exactly
/// where as many bytes as the target takes, and one more, are whole characters of the
/// directive from its beginning: there the parser cuts.
pub proof fn law_target_and_level(text: Seq<char>, spaces: int, at: int)
    requires
        forall|i: int| 0 <= i < text.len() ==> #[trigger] text[i] != ',',
        0 <= spaces <= at < text.len(),
        forall|i: int| 0 <= i < spaces ==> is_white_space(#[trigger] text[i]),
        !is_white_space(text[spaces]),
        forall|i: int| spaces <= i < at ==> #[trigger] text[i] != '=' && text[i] != '[',
        text[at] == '=',
    ensures
        ({
            let bytes = vstd::utf8::encode_utf8(text);
            let offset = vstd::utf8::encode_utf8(text.subrange(spaces, at)).len() as int;
            safe_to_parse(text) <==> vstd::utf8::is_char_boundary(bytes, offset)
                && vstd::utf8::is_char_boundary(bytes, offset + 1)
        }),
{
    lemma_one_directive(text);
    lemma_indent_is(text, spaces);
    lemma_cut_offset(text, spaces, at);
    assert forall|i: int| 0 <= i < text.len() implies (#[trigger] is_cut(text, i) <==> i == at) by {
        lemma_before_the_first_mark(text, spaces, at, i);
        if i > at {
            assert(text[at] == '=');
            assert forall|j: int| 0 <= j < i && #[trigger] text[j] == '[' implies target_ended(
                text,
                j,
            ) by {
                if j < at {
                    lemma_before_the_first_mark(text, spaces, at, j);
                } else {
                    assert(text[at] == '=');
                }
            }
        }
    }
    assert(is_cut(text, at));
}

/// Up to the first `=` or `[` no target has ended, and nothing is cut before it.
proof fn lemma_before_the_first_mark(text: Seq<char>, spaces: int, at: int, i: int)
    requires
        0 <= spaces <= at < text.len(),
        forall|j: int| 0 <= j < spaces ==> is_white_space(#[trigger] text[j]),
        forall|j: int| spaces <= j < at ==> #[trigger] text[j] != '=' && text[j] != '[',
    ensures
        0 <= i <= at ==> !target_ended(text, i),
        0 <= i < at ==> text[i] != '=' && text[i] != '[',
{
    assert forall|j: int| 0 <= j < at implies #[trigger] text[j] != '=' && text[j] != '[' by {
        if j < spaces {
            assert(is_white_space(text[j]));
        }
    }
}

/// A directive of a target and a span, which white space may come before, is safe to parse exactly
/// where every cut of the parser falls between characters: at the `[`, at each `]`, `{` or `}`
/// behind it, and at a `=` directly behind a `]`. Behind a `[`, `{` or `=` the next part begins
/// one byte further.
pub proof fn law_target_and_span(text: Seq<char>, spaces: int, at: int)
    requires
        forall|i: int| 0 <= i < text.len() ==> #[trigger] text[i] != ',',
        0 <= spaces <= at < text.len(),
        forall|i: int| 0 <= i < spaces ==> is_white_space(#[trigger] text[i]),
        !is_white_space(text[spaces]),
        forall|i: int| spaces <= i < at ==> #[trigger] text[i] != '=' && text[i] != '[',
        text[at] == '[',
    ensures
        safe_to_parse(text) <==> (forall|i: int|
            #![trigger text[i]]
            at <= i < text.len() && (i == at || text[i] == ']' || text[i] == '{' || text[i] == '}'
                || (text[i] == '=' && text[i - 1] == ']')) ==> {
                let bytes = vstd::utf8::encode_utf8(text);
                let offset = vstd::utf8::encode_utf8(text.subrange(spaces, i)).len() as int;
                &&& vstd::utf8::is_char_boundary(bytes, offset)
                &&& text[i] == ']' || text[i] == '}' || vstd::utf8::is_char_boundary(
                    bytes,
                    offset + 1,
                )
            }),
{
    lemma_one_directive(text);
    lemma_indent_is(text, spaces);
    lemma_before_the_first_mark(text, spaces, at, at);
    assert forall|i: int| 0 <= i < text.len() implies (#[trigger] is_cut(text, i) <==> at <= i && (i
        == at || text[i] == ']' || text[i] == '{' || text[i] == '}' || (text[i] == '=' && text[i
        - 1] == ']'))) by {
        lemma_before_the_first_mark(text, spaces, at, i);
        if i > at {
            assert(text[at] == '[');
            assert(target_ended(text, i));
            assert(bracket_opened(text, i));
        }
    }
    assert forall|i: int| at <= i < text.len() implies ({
        let bytes = vstd::utf8::encode_utf8(text);
        let offset = #[trigger] vstd::utf8::encode_utf8(text.subrange(spaces, i)).len() as int;
        &&& offset == byte_offset(text, i) - byte_offset(text, spaces)
        &&& vstd::utf8::is_char_boundary(bytes, offset) == is_boundary(text, offset)
        &&& vstd::utf8::is_char_boundary(bytes, offset + 1) == is_boundary(text, offset + 1)
    }) by {
        lemma_cut_offset(text, spaces, i);
    }
    if safe_to_parse(text) {
        assert forall|i: int|
            #![trigger text[i]]
            at <= i < text.len() && (i == at || text[i] == ']' || text[i] == '{' || text[i] == '}'
                || (text[i] == '=' && text[i - 1] == ']')) implies {
            let bytes = vstd::utf8::encode_utf8(text);
            let offset = vstd::utf8::encode_utf8(text.subrange(spaces, i)).len() as int;
            &&& vstd::utf8::is_char_boundary(bytes, offset)
            &&& text[i] == ']' || text[i] == '}' || vstd::utf8::is_char_boundary(
                bytes,
                offset + 1,
            )
        } by {
            assert(is_cut(text, i));
        }
    }
}

/// The white space that may come before a directive: five control characters and the space of
/// ASCII, one and the no-break space of Latin-1, and the seventeen spaces and separators of
/// Unicode beyond.
pub proof fn law_white_space(c: char)
    ensures
        is_white_space(c) <==> {
            let code = c as int;
            ||| 0x9 <= code <= 0xd
            ||| code == 0x20
            ||| code == 0x85
            ||| code == 0xa0
            ||| code == 0x1680
            ||| 0x2000 <= code <= 0x200a
            ||| code == 0x2028
            ||| code == 0x2029
            ||| code == 0x202f
            ||| code == 0x205f
            ||| code == 0x3000
        },
{
}

/// Every level has the name that filter directives know it by.
pub proof fn law_names_of_levels(level: LogLevel)
    ensures
        level is Off ==> level.text() == "off"@,
        level is Error ==> level.text() == "error"@,
        level is Warn ==> level.text() == "warn"@,
        level is Info ==> level.text() == "info"@,
        level is Debug ==> level.text() == "debug"@,
        level is Trace ==> level.text() == "trace"@,
{
}

/// Whether Unicode counts `c` as white space.
fn white_space(c: char) -> (r: bool)
    ensures
        r == is_white_space(c),
{
    ('\u{9}' <= c && c <= '\u{d}') || c == '\u{20}' || c == '\u{85}' || c == '\u{a0}' || c
        == '\u{1680}' || ('\u{2000}' <= c && c <= '\u{200a}') || c == '\u{2028}' || c == '\u{2029}'
        || c == '\u{202f}' || c == '\u{205f}' || c == '\u{3000}'
}

/// The number of bytes that `c` takes in UTF-8.
fn char_bytes(c: char) -> (r: u128)
    ensures
        r == utf8_len(c),
{
    if c <= '\u{7f}' {
        1
    } else if c <= '\u{7ff}' {
        2
    } else if c <= '\u{ffff}' {
        3
    } else {
        4
    }
}

/// Whether `offset` is among the offsets at which the characters of `text` begin or end.
fn has_boundary(Ghost(text): Ghost<Seq<char>>, offsets: &Vec<u128>, offset: u128) -> (r: bool)
    requires
        offsets@.len() == text.len() + 1,
        forall|i: int| 0 <= i <= text.len() ==> #[trigger] offsets@[i] == byte_offset(text, i),
    ensures
        r == is_boundary(text, offset as int),
{
    let mut n: usize = 0;
    while n < offsets.len()
        invariant
            n <= offsets.len(),
            offsets@.len() == text.len() + 1,
            forall|i: int| 0 <= i <= text.len() ==> #[trigger] offsets@[i] == byte_offset(text, i),
            forall|i: int| 0 <= i < n ==> #[trigger] offsets@[i] != offset,
        decreases offsets.len() - n,
    {
        if offsets[n] == offset {
            assert(byte_offset(text, n as int) == offset);
            return true;
        }
        n = n + 1;
    }
    assert forall|i: int| 0 <= i <= text.len() implies #[trigger] byte_offset(text, i) != offset by {
        assert(offsets@[i] != offset);
    }
    false
}

/// Whether no cut can fall inside a character of `directive`.
fn is_safe_directive(directive: &Vec<char>) -> (r: bool)
    ensures
        r == safe_directive(directive@),
{
    let ghost text = directive@;
    let len = directive.len();
    let mut offsets: Vec<u128> = Vec::new();
    offsets.push(0);
    let mut spaces: usize = 0;
    let mut at: usize = 0;
    while at < len
        invariant
            text == directive@,
            len == text.len(),
            at <= len,
            offsets@.len() == at + 1,
            forall|i: int| 0 <= i <= at ==> #[trigger] offsets@[i] == byte_offset(text, i),
            offsets@[at as int] <= 4 * at,
            spaces == indent(text, at as int),
            spaces <= at,
        decreases len - at,
    {
        let c = directive[at];
        if spaces == at && white_space(c) {
            spaces = at + 1;
        }
        let next = offsets[at] + char_bytes(c);
        offsets.push(next);
        at = at + 1;
    }
    let indented = offsets[spaces];
    proof {
        lemma_indent(text, len as int);
    }
    // Whether the target has ended, and whether with a bracket.
    let mut ended = false;
    let mut opened = false;
    at = 0;
    while at < len
        invariant
            text == directive@,
            len == text.len(),
            at <= len,
            offsets@.len() == len + 1,
            forall|i: int| 0 <= i <= len ==> #[trigger] offsets@[i] == byte_offset(text, i),
            spaces == indent(text, len as int),
            spaces <= len,
            indented == byte_offset(text, spaces as int),
            forall|i: int| 0 <= i < spaces ==> is_white_space(#[trigger] text[i]),
            ended == target_ended(text, at as int),
            opened == bracket_opened(text, at as int),
            opened ==> ended,
            forall|i: int|
                0 <= i < at && #[trigger] is_cut(text, i) ==> {
                    &&& is_boundary(text, byte_offset(text, i) - indented)
                    &&& text[i] == ']' || text[i] == '}' || is_boundary(
                        text,
                        byte_offset(text, i) - indented + 1,
                    )
                },
        decreases len - at,
    {
        let c = directive[at];
        let cut = if !ended {
            c == '=' || c == '['
        } else {
            opened && (c == ']' || c == '{' || c == '}' || (c == '=' && directive[at - 1] == ']'))
        };
        assert(cut == is_cut(text, at as int));
        if cut {
            proof {
                assert(!is_white_space(text[at as int]));
                lemma_offsets_grow(text, spaces as int, at as int);
                lemma_offset_bound(text, at as int);
            }
            let offset = offsets[at] - indented;
            if !has_boundary(Ghost(text), &offsets, offset) {
                return false;
            }
            if c != ']' && c != '}' && !has_boundary(Ghost(text), &offsets, offset + 1) {
                return false;
            }
        }
        proof {
            assert(target_ended(text, at + 1) == (ended || c == '=' || c == '[')) by {
                assert(text[at as int] == c);
                if ended {
                    let i = choose|i: int|
                        0 <= i < at && (#[trigger] text[i] == '=' || text[i] == '[');
                    assert(0 <= i < at + 1 && (text[i] == '=' || text[i] == '['));
                }
            }
            assert(bracket_opened(text, at + 1) == (opened || (!ended && c == '['))) by {
                assert(text[at as int] == c);
                if opened {
                    let i = choose|i: int|
                        0 <= i < at && #[trigger] text[i] == '[' && !target_ended(text, i);
                    assert(0 <= i < at + 1 && text[i] == '[');
                }
            }
        }
        if c == '[' && !ended {
            opened = true;
        }
        if c == '=' || c == '[' {
            ended = true;
        }
        at = at + 1;
    }
    true
}

/// Later characters begin at later offsets.
proof fn lemma_offsets_grow(text: Seq<char>, i: int, j: int)
    requires
        0 <= i <= j,
    ensures
        byte_offset(text, i) <= byte_offset(text, j),
    decreases j,
{
    if i < j {
        lemma_offsets_grow(text, i, j - 1);
    }
}

/// A character takes four bytes at most.
proof fn lemma_offset_bound(text: Seq<char>, n: int)
    requires
        0 <= n,
    ensures
        byte_offset(text, n) <= 4 * n,
    decreases n,
{
    if n > 0 {
        lemma_offset_bound(text, n - 1);
    }
}

/// Whether it is certain that parsing `directives` cuts none inside a character.
pub fn is_safe_to_parse(directives: &str) -> (r: bool)
    ensures
        r == safe_to_parse(directives@),
{
    let ghost text = directives@;
    let len = directives.unicode_len();
    let mut current: Vec<char> = Vec::new();
    let ghost mut start: int = 0;
    let mut at: usize = 0;
    while at < len
        invariant
            text == directives@,
            len == text.len(),
            0 <= start <= at <= len,
            start == 0 || text[start - 1] == ',',
            forall|i: int| start <= i < at ==> #[trigger] text[i] != ',',
            current@ == text.subrange(start, at as int),
            forall|s: int, e: int| #[trigger]
                directive_at(text, s, e) && s < start ==> safe_directive(text.subrange(s, e)),
        decreases len - at,
    {
        let c = directives.get_char(at);
        if c == ',' {
            let safe = is_safe_directive(&current);
            proof {
                assert(directive_at(text, start, at as int));
            }
            if !safe {
                return false;
            }
            proof {
                assert forall|s: int, e: int| #[trigger] directive_at(text, s, e) && s < at
                    + 1 implies safe_directive(text.subrange(s, e)) by {
                    if s >= start {
                        lemma_directive_ends_once(text, start, at as int, s, e);
                    }
                }
                start = at + 1;
            }
            current = Vec::new();
        } else {
            current.push(c);
            assert(current@ =~= text.subrange(start, at + 1));
        }
        at = at + 1;
    }
    let safe = is_safe_directive(&current);
    proof {
        assert(directive_at(text, start, len as int));
        if safe {
            assert forall|s: int, e: int| #[trigger] directive_at(text, s, e) implies safe_directive(
                text.subrange(s, e),
            ) by {
                if s >= start {
                    lemma_directive_ends_once(text, start, len as int, s, e);
                }
            }
        }
    }
    safe
}

/// No directive begins within another, and it has one end.
proof fn lemma_directive_ends_once(text: Seq<char>, start: int, end: int, s: int, e: int)
    requires
        directive_at(text, start, end),
        directive_at(text, s, e),
        start <= s <= end,
    ensures
        s == start,
        e == end,
{
    if s > start {
        assert(text[s - 1] == ',');
    }
    if e < end {
        assert(text[e] == ',');
    } else if e > end {
        assert(text[end] == ',');
    }
}

/// The most verbose level that a filter enables which was built from directives of which none
/// may be invalid, or nothing where one is. The filter itself may leave the level open.
pub uninterp spec fn strict_filter_level(directives: Seq<char>) -> Option<Option<LogLevel>>;

/// The most verbose level that a filter enables which was built from directives of which the
/// invalid ones are ignored. The filter may leave the level open.
pub uninterp spec fn lossy_filter_level(directives: Seq<char>) -> Option<LogLevel>;

/// `EnvFilter::try_new`, and `EnvFilter::max_level_hint` on the filter that it returns. Both are
/// functions of the directives. Directives that might be cut inside a character are left out: on
/// those the parser can panic.
#[verifier::external_body]
fn strict_level(directives: &str) -> (r: Option<Option<LogLevel>>)
    requires
        safe_to_parse(directives@),
    ensures
        r == strict_filter_level(directives@),
{
    let filter = EnvFilter::try_new(directives).ok()?;
    Some(filter.max_level_hint().map(|level| match level {
        LevelFilter::OFF => LogLevel::Off,
        LevelFilter::ERROR => LogLevel::Error,
        LevelFilter::WARN => LogLevel::Warn,
        LevelFilter::INFO => LogLevel::Info,
        LevelFilter::DEBUG => LogLevel::Debug,
        LevelFilter::TRACE => LogLevel::Trace,
    }))
}

/// `EnvFilter::new`, and `EnvFilter::max_level_hint` on the filter that it returns. Both are
/// functions of the directives. Directives that might be cut inside a character are left out: on
/// those the parser can panic.
#[verifier::external_body]
fn lossy_level(directives: &str) -> (r: Option<LogLevel>)
    requires
        safe_to_parse(directives@),
    ensures
        r == lossy_filter_level(directives@),
{
    EnvFilter::new(directives).max_level_hint().map(|level| match level {
        LevelFilter::OFF => LogLevel::Off,
        LevelFilter::ERROR => LogLevel::Error,
        LevelFilter::WARN => LogLevel::Warn,
        LevelFilter::INFO => LogLevel::Info,
        LevelFilter::DEBUG => LogLevel::Debug,
        LevelFilter::TRACE => LogLevel::Trace,
    })
}

/// The filter that logging starts with.
#[derive(Debug)]
pub struct FilterChoice {
    /// Whether the directives come from the environment. Such directives are all valid, and where
    /// there are none the filter enables nothing. Directives from the configuration may hold
    /// invalid ones, which are ignored, and where there are none the filter enables errors.
    pub from_environment: bool,
    pub directives: String,
    /// The most verbose level that the filter enables, where that is known.
    pub max_level_hint: Option<LogLevel>,
}

/// The filter choice that directives from the environment give: none where one of them is
/// invalid. `level` is what building the filter gave.
pub fn environment_filter(directives: &str, level: Option<Option<LogLevel>>) -> (r: Option<
    FilterChoice,
>)
    ensures
        r is Some <==> level is Some,
        r matches Some(choice) ==> {
            &&& choice.from_environment
            &&& choice.directives@ == directives@
            &&& Some(choice.max_level_hint) == level
        },
{
    match level {
        Some(max_level_hint) => Some(
            FilterChoice { from_environment: true, directives: directives.to_owned(), max_level_hint },
        ),
        None => None,
    }
}

/// The filter choice that directives from the configuration give. `level` is what building the
/// filter gave.
pub fn configured_filter(directives: &str, level: Option<LogLevel>) -> (r: FilterChoice)
    ensures
        !r.from_environment,
        r.directives@ == directives@,
        r.max_level_hint == level,
{
    FilterChoice {
        from_environment: false,
        directives: directives.to_owned(),
        max_level_hint: level,
    }
}

/// Whether it is certain that choosing the filter cuts no directive inside a character, of those
/// that it parses: the environment's where it sets any, and the configuration's where the
/// environment sets none or invalid ones.
pub open spec fn safe_to_choose(environment: Option<Seq<char>>, filter: Seq<char>) -> bool {
    match environment {
        Some(directives) => safe_to_parse(directives) && (strict_filter_level(directives) is None
            ==> safe_to_parse(filter)),
        None => safe_to_parse(filter),
    }
}

/// Only what is parsed has to be safe to parse: the configuration's directives have to be where the
/// environment sets none, the environment's where it sets any, and then the configuration's as
/// well exactly where those are invalid.
pub proof fn law_what_is_parsed_has_to_be_safe(directives: Seq<char>, filter: Seq<char>)
    ensures
        safe_to_choose(None, filter) <==> safe_to_parse(filter),
        strict_filter_level(directives) is Some ==> (safe_to_choose(Some(directives), filter)
            <==> safe_to_parse(directives)),
        strict_filter_level(directives) is None ==> (safe_to_choose(Some(directives), filter)
            <==> safe_to_parse(directives) && safe_to_parse(filter)),
{
}

/// Whether it is certain that choosing the filter cuts no directive inside a character.
pub fn is_safe_to_choose(environment: Option<&str>, filter: &str) -> (r: bool)
    ensures
        r == safe_to_choose(optional_text(environment), filter@),
{
    if let Some(directives) = environment {
        if !is_safe_to_parse(directives) {
            return false;
        }
        if strict_level(directives).is_some() {
            return true;
        }
    }
    is_safe_to_parse(filter)
}

/// Chooses the filter: the directives of the environment where they are set and valid, and
/// otherwise those of the configuration.
pub fn create_env_filter(environment: Option<&str>, filter: &str) -> (r: FilterChoice)
    requires
        safe_to_choose(optional_text(environment), filter@),
    ensures
        r.from_environment <==> environment is Some && strict_filter_level(environment->0@) is Some,
        r.from_environment ==> {
            &&& r.directives@ == environment->0@
            &&& Some(r.max_level_hint) == strict_filter_level(environment->0@)
        },
        !r.from_environment ==> {
            &&& r.directives@ == filter@
            &&& r.max_level_hint == lossy_filter_level(filter@)
        },
{
    if let Some(directives) = environment {
        if let Some(choice) = environment_filter(directives, strict_level(directives)) {
            return choice;
        }
    }
    configured_filter(filter, lossy_level(filter))
}

/// Directives that set one level for the CRT's own log messages and another for all the rest.
pub open spec fn filter_text(level: LogLevel, crt_target: Seq<char>, crt_level: LogLevel) -> Seq<
    char,
> {
    level.text() + ","@ + crt_target + "="@ + crt_level.text()
}

/// The directives that set `crt_level` for the target `crt_target` and `level` for all the rest.
pub fn create_filter(level: LogLevel, crt_target: &str, crt_level: LogLevel) -> (r: String)
    ensures
        r@ == filter_text(level, crt_target@, crt_level),
        r@ == level.text() + ","@ + crt_target@ + "="@ + crt_level.text(),
{
    let mut text = level.as_str().to_owned();
    text.append(",");
    text.append(crt_target);
    text.append("=");
    text.append(crt_level.as_str());
    text
}

} // verus!
