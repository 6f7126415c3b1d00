//! Rules on names: script identifiers and tool names.

use vstd::prelude::*;

use crate::text::{chars_of, concat3, same};

verus! {

/// An ASCII letter.
pub open spec fn letter(c: char) -> bool {
    ('a' <= c <= 'z') || ('A' <= c <= 'Z')
}

/// An ASCII letter or digit.
pub open spec fn alphanumeric(c: char) -> bool {
    letter(c) || ('0' <= c <= '9')
}

/// A plain identifier: a letter or underscore, then letters, digits and
/// underscores.
pub open spec fn identifier(name: Seq<char>) -> bool {
    &&& name.len() > 0
    &&& letter(name[0]) || name[0] == '_'
    &&& forall|i: int| 0 <= i < name.len() ==> alphanumeric(#[trigger] name[i]) || name[i] == '_'
}

/// A word that the script language reserves.
pub open spec fn reserved(name: Seq<char>) -> bool {
    ||| name == "async"@
    ||| name == "await"@
    ||| name == "break"@
    ||| name == "case"@
    ||| name == "catch"@
    ||| name == "class"@
    ||| name == "const"@
    ||| name == "continue"@
    ||| name == "debugger"@
    ||| name == "default"@
    ||| name == "delete"@
    ||| name == "do"@
    ||| name == "else"@
    ||| name == "enum"@
    ||| name == "export"@
    ||| name == "extends"@
    ||| name == "false"@
    ||| name == "finally"@
    ||| name == "for"@
    ||| name == "function"@
    ||| name == "if"@
    ||| name == "import"@
    ||| name == "in"@
    ||| name == "instanceof"@
    ||| name == "let"@
    ||| name == "new"@
    ||| name == "null"@
    ||| name == "of"@
    ||| name == "return"@
    ||| name == "static"@
    ||| name == "super"@
    ||| name == "switch"@
    ||| name == "this"@
    ||| name == "throw"@
    ||| name == "true"@
    ||| name == "try"@
    ||| name == "typeof"@
    ||| name == "undefined"@
    ||| name == "var"@
    ||| name == "void"@
    ||| name == "while"@
    ||| name == "with"@
    ||| name == "yield"@
}

/// A name that a script can call as a global function.
pub open spec fn ts_identifier(name: Seq<char>) -> bool {
    identifier(name) && !reserved(name)
}

/// A name that the tool registry's rule `^[a-zA-Z0-9_-]{1,64}$` allows.
pub open spec fn tool_name(name: Seq<char>) -> bool {
    &&& 1 <= name.len() <= 64
    &&& forall|i: int|
        0 <= i < name.len() ==> alphanumeric(#[trigger] name[i]) || name[i] == '_' || name[i] == '-'
}

fn is_letter(c: char) -> (r: bool)
    ensures
        r == letter(c),
{
    ('a' <= c && c <= 'z') || ('A' <= c && c <= 'Z')
}

fn is_alphanumeric(c: char) -> (r: bool)
    ensures
        r == alphanumeric(c),
{
    is_letter(c) || ('0' <= c && c <= '9')
}

/// Whether `name` can be bound as a script variable.
pub fn is_valid_identifier(name: &str) -> (r: bool)
    ensures
        r == identifier(name@),
{
    let chars = chars_of(name);
    if chars.len() == 0 || !(is_letter(chars[0]) || chars[0] == '_') {
        return false;
    }
    let mut i: usize = 0;
    while i < chars.len()
        invariant
            i <= chars.len(),
            chars@ == name@,
            forall|k: int| 0 <= k < i ==> alphanumeric(#[trigger] name@[k]) || name@[k] == '_',
        decreases chars.len() - i,
    {
        if !(is_alphanumeric(chars[i]) || chars[i] == '_') {
            assert(!(alphanumeric(name@[i as int]) || name@[i as int] == '_'));
            return false;
        }
        i = i + 1;
    }
    true
}

fn is_reserved(name: &str) -> (r: bool)
    ensures
        r == reserved(name@),
{
    same(name, "async") || same(name, "await") || same(name, "break") || same(name, "case") || same(
        name,
        "catch",
    ) || same(name, "class") || same(name, "const") || same(name, "continue") || same(
        name,
        "debugger",
    ) || same(name, "default") || same(name, "delete") || same(name, "do") || same(name, "else")
        || same(name, "enum") || same(name, "export") || same(name, "extends") || same(
        name,
        "false",
    ) || same(name, "finally") || same(name, "for") || same(name, "function") || same(name, "if")
        || same(name, "import") || same(name, "in") || same(name, "instanceof") || same(name, "let")
        || same(name, "new") || same(name, "null") || same(name, "of") || same(name, "return")
        || same(name, "static") || same(name, "super") || same(name, "switch") || same(name, "this")
        || same(name, "throw") || same(name, "true") || same(name, "try") || same(name, "typeof")
        || same(name, "undefined") || same(name, "var") || same(name, "void") || same(name, "while")
        || same(name, "with") || same(name, "yield")
}

/// Whether a script can call `name` as a global function. A reserved word
/// would not parse as one.
pub fn is_ts_identifier(name: &str) -> (r: bool)
    ensures
        r == ts_identifier(name@),
{
    is_valid_identifier(name) && !is_reserved(name)
}

/// Whether `name` satisfies the tool registry's rule
/// `^[a-zA-Z0-9_-]{1,64}$`.
pub fn is_valid_tool_name(name: &str) -> (r: bool)
    ensures
        r == tool_name(name@),
{
    let chars = chars_of(name);
    if chars.len() < 1 || chars.len() > 64 {
        return false;
    }
    let mut i: usize = 0;
    while i < chars.len()
        invariant
            i <= chars.len(),
            chars@ == name@,
            forall|k: int|
                0 <= k < i ==> alphanumeric(#[trigger] name@[k]) || name@[k] == '_' || name@[k]
                    == '-',
        decreases chars.len() - i,
    {
        if !(is_alphanumeric(chars[i]) || chars[i] == '_' || chars[i] == '-') {
            assert(!(alphanumeric(name@[i as int]) || name@[i as int] == '_' || name@[i as int]
                == '-'));
            return false;
        }
        i = i + 1;
    }
    true
}

/// The text that `std` formats a text with for debugging: quoted and escaped.
pub uninterp spec fn quoted(s: Seq<char>) -> Seq<char>;

/// Formats a text for debugging with the `Debug` of `str`. The contract names
/// the result.
#[verifier::external_body]
fn quote(s: &str) -> (r: String)
    ensures
        r@ == quoted(s@),
{
    format!("{s:?}")
}

/// The warning for a tool name that the providers' rule does not allow. An
/// invalid name only fails later, when a provider is called.
pub open spec fn name_warning(id: Seq<char>, name: Seq<char>) -> Option<Seq<char>> {
    if tool_name(name) {
        None
    } else {
        Some(
            "ZapCodeToolAgent "@ + id + " has invalid tool name "@ + quoted(name)
                + "; tool names must match ^[a-zA-Z0-9_-]{1,64}$"@,
        )
    }
}

/// Works out the warning for a tool name, if there is reason for one.
pub fn warn_if_invalid_name(id: &str, name: &str) -> (r: Option<String>)
    ensures
        match r {
            Some(text) => name_warning(id@, name@) == Some(text@),
            None => name_warning(id@, name@) is None,
        },
{
    if is_valid_tool_name(name) {
        return None;
    }
    let mut text = concat3("ZapCodeToolAgent ", id, " has invalid tool name ");
    text.append(quote(name).as_str());
    text.append("; tool names must match ^[a-zA-Z0-9_-]{1,64}$");
    Some(text)
}

/// Every name callable as a global function is a plain identifier, and up to
/// the registry's length limit every plain identifier is a valid tool name.
pub proof fn identifiers_are_tool_names(name: Seq<char>)
    ensures
        ts_identifier(name) ==> identifier(name),
        identifier(name) && name.len() <= 64 ==> tool_name(name),
{
}

/// An identifier is made of the letters, digits and the underscore of ASCII,
/// and starts with no digit.
pub proof fn identifiers_are_words(name: Seq<char>)
    ensures
        ({
            let word = |c: char|
                'a' <= c <= 'z' || 'A' <= c <= 'Z' || '0' <= c <= '9' || c == '_';
            identifier(name) <==> name.len() > 0 && !('0' <= name[0] <= '9') && forall|i: int|
                0 <= i < name.len() ==> word(#[trigger] name[i])
        }),
{
    if identifier(name) {
        assert(alphanumeric(name[0]) || name[0] == '_');
    } else if name.len() > 0 {
        if forall|i: int| 0 <= i < name.len() ==> alphanumeric(#[trigger] name[i]) || name[i] == '_' {
            assert(alphanumeric(name[0]) || name[0] == '_');
        } else {
            let i = choose|i: int|
                0 <= i < name.len() && !(alphanumeric(#[trigger] name[i]) || name[i] == '_');
        }
    }
}

/// What follows an identifier in one word makes a longer one; a digit, a
/// hyphen or a space in front, or a hyphen or a space anywhere, makes none.
pub proof fn identifiers_grow(name: Seq<char>, c: char)
    requires
        name.len() > 0,
    ensures
        identifier(name.push(c)) <==> identifier(name) && identifier(seq!['_', c]),
        identifier(seq!['_', c]) <==> letter(c) || c == '_' || '0' <= c <= '9',
{
    let longer = name.push(c);
    let two = seq!['_', c];
    assert(two[0] == '_' && two[1] == c);
    assert(longer.last() == c);
    assert(longer[0] == name[0]);
    if identifier(longer) {
        assert forall|i: int| 0 <= i < name.len() implies alphanumeric(#[trigger] name[i])
            || name[i] == '_' by {
            assert(longer[i] == name[i]);
        }
        assert(alphanumeric(longer[name.len() as int]) || longer[name.len() as int] == '_');
    }
    if identifier(two) {
        assert(alphanumeric(two[1]) || two[1] == '_');
    }
}

/// A tool name has one to 64 characters, each a letter, a digit, an underscore
/// or a hyphen of ASCII.
pub proof fn tool_names_are_short_words(name: Seq<char>)
    ensures
        tool_name(name) <==> 0 < name.len() < 65 && forall|i: int|
            0 <= i < name.len() ==> ('a' <= #[trigger] name[i] <= 'z' || 'A' <= name[i] <= 'Z' || '0'
                <= name[i] <= '9' || name[i] == '_' || name[i] == '-'),
{
    if 0 < name.len() < 65 && !tool_name(name) {
        let i = choose|i: int|
            0 <= i < name.len() && !(alphanumeric(#[trigger] name[i]) || name[i] == '_' || name[i]
                == '-');
    }
}

/// The words of the script language are no names of functions.
pub proof fn reserved_words_are_no_functions()
    ensures
        !ts_identifier("async"@),
        !ts_identifier("await"@),
        !ts_identifier("break"@),
        !ts_identifier("case"@),
        !ts_identifier("catch"@),
        !ts_identifier("class"@),
        !ts_identifier("const"@),
        !ts_identifier("continue"@),
        !ts_identifier("debugger"@),
        !ts_identifier("default"@),
        !ts_identifier("delete"@),
        !ts_identifier("do"@),
        !ts_identifier("else"@),
        !ts_identifier("enum"@),
        !ts_identifier("export"@),
        !ts_identifier("extends"@),
        !ts_identifier("false"@),
        !ts_identifier("finally"@),
        !ts_identifier("for"@),
        !ts_identifier("function"@),
        !ts_identifier("if"@),
        !ts_identifier("import"@),
        !ts_identifier("in"@),
        !ts_identifier("instanceof"@),
        !ts_identifier("let"@),
        !ts_identifier("new"@),
        !ts_identifier("null"@),
        !ts_identifier("of"@),
        !ts_identifier("return"@),
        !ts_identifier("static"@),
        !ts_identifier("super"@),
        !ts_identifier("switch"@),
        !ts_identifier("this"@),
        !ts_identifier("throw"@),
        !ts_identifier("true"@),
        !ts_identifier("try"@),
        !ts_identifier("typeof"@),
        !ts_identifier("undefined"@),
        !ts_identifier("var"@),
        !ts_identifier("void"@),
        !ts_identifier("while"@),
        !ts_identifier("with"@),
        !ts_identifier("yield"@),
{
}

/// Every other identifier is.
pub proof fn other_identifiers_are_functions(name: Seq<char>)
    requires
        identifier(name),
        name != "async"@,
        name != "await"@,
        name != "break"@,
        name != "case"@,
        name != "catch"@,
        name != "class"@,
        name != "const"@,
        name != "continue"@,
        name != "debugger"@,
        name != "default"@,
        name != "delete"@,
        name != "do"@,
        name != "else"@,
        name != "enum"@,
        name != "export"@,
        name != "extends"@,
        name != "false"@,
        name != "finally"@,
        name != "for"@,
        name != "function"@,
        name != "if"@,
        name != "import"@,
        name != "in"@,
        name != "instanceof"@,
        name != "let"@,
        name != "new"@,
        name != "null"@,
        name != "of"@,
        name != "return"@,
        name != "static"@,
        name != "super"@,
        name != "switch"@,
        name != "this"@,
        name != "throw"@,
        name != "true"@,
        name != "try"@,
        name != "typeof"@,
        name != "undefined"@,
        name != "var"@,
        name != "void"@,
        name != "while"@,
        name != "with"@,
        name != "yield"@,
    ensures
        ts_identifier(name),
{
}

/// There is a warning exactly for the names that are no tool names. It says
/// which tool it is and quotes the name.
pub proof fn wrong_tool_names_are_warned_of(id: Seq<char>, name: Seq<char>)
    ensures
        name_warning(id, name) is None <==> tool_name(name),
        !tool_name(name) ==> name_warning(id, name) == Some(
            "ZapCodeToolAgent "@ + id + " has invalid tool name "@ + quoted(name)
                + "; tool names must match ^[a-zA-Z0-9_-]{1,64}$"@,
        ),
{
}

} // verus!
