//! Identifier sanitizer: turns names of the description into identifiers
//! that are valid in generated Rust code, one form for each role (module,
//! struct, function, enum, constant).
use crate::text::{push_char, replace_all, replaced};
use convert_case::{Case, Casing};
use vstd::prelude::*;
use vstd::string::StringExecFns;

verus! {

/// The casing conventions that identifiers are converted to.
#[derive(Clone, Copy, Debug, PartialEq, Eq, Structural)]
pub enum IdentCase {
    /// `PascalCase`, for types.
    Pascal,
    /// `SCREAMING_SNAKE_CASE`, for constants.
    ScreamingSnake,
}

/// What `convert_case::Casing::to_case` returns for the text `s` and the
/// case `case`.
pub uninterp spec fn case_converted(s: Seq<char>, case: IdentCase) -> Seq<char>;

/// Whether `syn::parse_str::<syn::Ident>` accepts the text `s`.
pub uninterp spec fn parses_as_ident(s: Seq<char>) -> bool;

/// `convert_case::Casing::to_case`, with `Case::Pascal` or
/// `Case::ScreamingSnake`: splits `s` into words and joins them again in the
/// asked case. The result depends on `s` and `case` alone; nothing more is
/// claimed of it.
#[verifier::external_body]
fn convert_case(s: &str, case: IdentCase) -> (r: String)
    ensures
        r@ == case_converted(s@, case),
{
    match case {
        IdentCase::Pascal => s.to_case(Case::Pascal),
        IdentCase::ScreamingSnake => s.to_case(Case::ScreamingSnake),
    }
}

/// `syn::parse_str::<syn::Ident>`: whether the whole of `s` parses as one
/// Rust identifier that is no keyword. The answer depends on `s` alone;
/// nothing more is claimed of it.
#[verifier::external_body]
fn is_ident(s: &str) -> (r: bool)
    ensures
        r == parses_as_ident(s@),
{
    syn::parse_str::<syn::Ident>(s).is_ok()
}

/// The placeholder of an array name together with its brackets: `[%s]`.
pub open spec fn bracketed_placeholder() -> Seq<char> {
    seq!['[', '%', 's', ']']
}

/// The placeholder of an array name: `%s`.
pub open spec fn placeholder() -> Seq<char> {
    seq!['%', 's']
}

/// A name without its array placeholders.
pub open spec fn internal_ident(s: Seq<char>) -> Seq<char> {
    replaced(
        replaced(s, bracketed_placeholder(), Seq::<char>::empty()),
        placeholder(),
        Seq::<char>::empty(),
    )
}

/// Whether `c` may stand in an identifier: an ASCII letter, a digit or `_`.
pub open spec fn is_ident_char(c: char) -> bool {
    ('a' <= c <= 'z') || ('A' <= c <= 'Z') || ('0' <= c <= '9') || c == '_'
}

/// `c` if it may stand in an identifier, else `_`.
pub open spec fn valid_char(c: char) -> char {
    if is_ident_char(c) {
        c
    } else {
        '_'
    }
}

/// A text with every character that may not stand in an identifier replaced
/// by `_`.
pub open spec fn valid_chars(s: Seq<char>) -> Seq<char> {
    s.map_values(|c: char| valid_char(c))
}

/// The lower-case form of an ASCII capital letter; any other character is
/// left as it is.
pub open spec fn lower_char(c: char) -> char {
    if 'A' <= c <= 'Z' {
        ((c as u8) + 32) as char
    } else {
        c
    }
}

/// A text with its ASCII capital letters in lower case.
pub open spec fn lowered(s: Seq<char>) -> Seq<char> {
    s.map_values(|c: char| lower_char(c))
}

/// The prefix of a raw identifier: `r#`.
pub open spec fn raw_prefix() -> Seq<char> {
    seq!['r', '#']
}

/// The identifier that stands for the text `s`: `s` itself where it is an
/// identifier, the raw identifier `r#s` where `s` is a keyword that can be
/// written so, and `_s` otherwise. The empty text is no identifier and
/// becomes `_`.
pub open spec fn sanitized_ident(s: Seq<char>) -> Seq<char> {
    if s.len() == 0 {
        seq!['_']
    } else if parses_as_ident(s) {
        s
    } else if parses_as_ident(raw_prefix() + s) {
        raw_prefix() + s
    } else {
        seq!['_'] + s
    }
}

/// The module identifier of a name: lower case.
pub open spec fn mod_ident(s: Seq<char>) -> Seq<char> {
    sanitized_ident(lowered(valid_chars(internal_ident(s))))
}

/// The struct identifier of a name: Pascal case.
pub open spec fn struct_ident(s: Seq<char>) -> Seq<char> {
    sanitized_ident(case_converted(valid_chars(internal_ident(s)), IdentCase::Pascal))
}

/// The function identifier of a name: lower case.
pub open spec fn func_ident(s: Seq<char>) -> Seq<char> {
    sanitized_ident(lowered(valid_chars(internal_ident(s))))
}

/// The enum identifier of a name: Pascal case.
pub open spec fn enum_ident(s: Seq<char>) -> Seq<char> {
    sanitized_ident(case_converted(valid_chars(internal_ident(s)), IdentCase::Pascal))
}

/// The constant identifier of a name: screaming snake case.
pub open spec fn const_ident(s: Seq<char>) -> Seq<char> {
    sanitized_ident(case_converted(valid_chars(internal_ident(s)), IdentCase::ScreamingSnake))
}

fn to_valid_char(c: char) -> (r: char)
    ensures
        r == valid_char(c),
{
    if (c >= 'a' && c <= 'z') || (c >= 'A' && c <= 'Z') || (c >= '0' && c <= '9') || c == '_' {
        c
    } else {
        '_'
    }
}

fn to_lower_char(c: char) -> (r: char)
    ensures
        r == lower_char(c),
{
    if c >= 'A' && c <= 'Z' {
        let b: u8 = c as u8;
        (b + 32) as char
    } else {
        c
    }
}

/// The text `s` with its ASCII capital letters in lower case.
pub fn to_lowered(s: &str) -> (r: String)
    ensures
        r@ == lowered(s@),
{
    let mut out = String::new();
    for c in it: s.chars()
        invariant
            it.seq() == s@,
            out@ == lowered(s@.take(it.index() as int)),
    {
        proof {
            let i = it.index() as int;
            assert(s@.take(i + 1) =~= s@.take(i).push(s@[i]));
            assert(lowered(s@.take(i + 1)) =~= lowered(s@.take(i)).push(lower_char(s@[i])));
        }
        push_char(&mut out, to_lower_char(c));
    }
    proof {
        assert(s@.take(s@.len() as int) =~= s@);
    }
    out
}

/// Identifiers for the roles that a name of the description can take in
/// generated code. Every method is total: the worst case is a name mangled
/// with `_`.
pub trait ToSanitizedSymbol {
    /// The text that the methods work on.
    spec fn symbol(&self) -> Seq<char>;

    /// The identifier of a module.
    fn to_sanitized_mod_ident(&self) -> (r: String)
        ensures
            r@ == mod_ident(self.symbol()),
    ;

    /// The identifier of a struct.
    fn to_sanitized_struct_ident(&self) -> (r: String)
        ensures
            r@ == struct_ident(self.symbol()),
    ;

    /// The identifier of a function.
    fn to_sanitized_func_ident(&self) -> (r: String)
        ensures
            r@ == func_ident(self.symbol()),
    ;

    /// The identifier of an enum.
    fn to_sanitized_enum_ident(&self) -> (r: String)
        ensures
            r@ == enum_ident(self.symbol()),
    ;

    /// The identifier of a constant.
    fn to_sanitized_const_ident(&self) -> (r: String)
        ensures
            r@ == const_ident(self.symbol()),
    ;

    /// The text as an identifier: escaped as a raw identifier where it is a
    /// keyword, prefixed with `_` where it is no identifier at all.
    fn to_sanitized_ident(&self) -> (r: String)
        ensures
            r@ == sanitized_ident(self.symbol()),
    ;

    /// The name without its array placeholders `[%s]` and `%s`.
    fn to_internal_ident(&self) -> (r: String)
        ensures
            r@ == internal_ident(self.symbol()),
    ;

    /// The text with every character outside `[A-Za-z0-9_]` replaced by `_`.
    fn remove_invalid_char(&self) -> (r: String)
        ensures
            r@ == valid_chars(self.symbol()),
    ;
}

impl ToSanitizedSymbol for str {
    open spec fn symbol(&self) -> Seq<char> {
        self@
    }

    fn to_sanitized_mod_ident(&self) -> (r: String) {
        let internal = self.to_internal_ident();
        let valid = internal.as_str().remove_invalid_char();
        let lower = to_lowered(valid.as_str());
        lower.as_str().to_sanitized_ident()
    }

    fn to_sanitized_struct_ident(&self) -> (r: String) {
        let internal = self.to_internal_ident();
        let valid = internal.as_str().remove_invalid_char();
        let cased = convert_case(valid.as_str(), IdentCase::Pascal);
        cased.as_str().to_sanitized_ident()
    }

    fn to_sanitized_func_ident(&self) -> (r: String) {
        let internal = self.to_internal_ident();
        let valid = internal.as_str().remove_invalid_char();
        let lower = to_lowered(valid.as_str());
        lower.as_str().to_sanitized_ident()
    }

    fn to_sanitized_enum_ident(&self) -> (r: String) {
        let internal = self.to_internal_ident();
        let valid = internal.as_str().remove_invalid_char();
        let cased = convert_case(valid.as_str(), IdentCase::Pascal);
        cased.as_str().to_sanitized_ident()
    }

    fn to_sanitized_const_ident(&self) -> (r: String) {
        let internal = self.to_internal_ident();
        let valid = internal.as_str().remove_invalid_char();
        let cased = convert_case(valid.as_str(), IdentCase::ScreamingSnake);
        cased.as_str().to_sanitized_ident()
    }

    fn to_sanitized_ident(&self) -> (r: String) {
        proof {
            reveal_strlit("_");
            reveal_strlit("r#");
            assert("_"@ =~= seq!['_']);
            assert("r#"@ =~= raw_prefix());
        }
        if self.is_empty() {
            String::from_str("_")
        } else if is_ident(self) {
            String::from_str(self)
        } else {
            let raw = String::from_str("r#").concat(self);
            if is_ident(raw.as_str()) {
                raw
            } else {
                String::from_str("_").concat(self)
            }
        }
    }

    fn to_internal_ident(&self) -> (r: String) {
        proof {
            reveal_strlit("[%s]");
            reveal_strlit("%s");
            reveal_strlit("");
            assert("[%s]"@ =~= bracketed_placeholder());
            assert("%s"@ =~= placeholder());
            assert(""@ =~= Seq::<char>::empty());
        }
        let without_brackets = replace_all(self, "[%s]", "");
        replace_all(without_brackets.as_str(), "%s", "")
    }

    fn remove_invalid_char(&self) -> (r: String) {
        let mut out = String::new();
        for c in it: self.chars()
            invariant
                it.seq() == self@,
                out@ == valid_chars(self@.take(it.index() as int)),
        {
            proof {
                let i = it.index() as int;
                assert(self@.take(i + 1) =~= self@.take(i).push(self@[i]));
                assert(valid_chars(self@.take(i + 1)) =~= valid_chars(self@.take(i)).push(
                    valid_char(self@[i]),
                ));
            }
            push_char(&mut out, to_valid_char(c));
        }
        proof {
            assert(self@.take(self@.len() as int) =~= self@);
        }
        out
    }
}

/// The identifier that stands for a name is never empty.
pub proof fn lemma_sanitized_ident_nonempty(s: Seq<char>)
    ensures
        sanitized_ident(s).len() > 0,
{
}

} // verus!
