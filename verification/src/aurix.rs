//! The description of the core registers of an AURIX device, which the
//! vendor keeps in an extension of the description file: the section is cut
//! out and made a description of its own.
use crate::error::{ParseError, ParseErrorView};
use crate::text::{chars_of, matches_at, occurs_at, string_from};
use vstd::prelude::*;
use vstd::string::StringExecFns;

verus! {

/// The first position from `from` on at which `pat` occurs in `s`.
pub open spec fn first_occurrence(s: Seq<char>, pat: Seq<char>, from: int) -> Option<int>
    decreases s.len() - from,
{
    if from < 0 || from + pat.len() > s.len() {
        None
    } else if occurs_at(s, from, pat) {
        Some(from)
    } else if from == s.len() {
        None
    } else {
        first_occurrence(s, pat, from + 1)
    }
}

/// Whether `pat` occurs in `s`.
pub open spec fn contains_text(s: Seq<char>, pat: Seq<char>) -> bool {
    first_occurrence(s, pat, 0) is Some
}

/// The part of `s` before the first occurrence of `pat`; the whole of `s`
/// where `pat` does not occur.
pub open spec fn before_first(s: Seq<char>, pat: Seq<char>) -> Seq<char> {
    match first_occurrence(s, pat, 0) {
        Some(i) => s.subrange(0, i),
        None => s,
    }
}

/// The part of `s` after the first occurrence of `pat`; nothing where `pat`
/// does not occur.
pub open spec fn after_first(s: Seq<char>, pat: Seq<char>) -> Option<Seq<char>> {
    match first_occurrence(s, pat, 0) {
        Some(i) => Some(s.subrange(i + pat.len(), s.len() as int)),
        None => None,
    }
}

/// The first position from `from` on at which `pat` occurs in `s`.
pub fn find_first(s: &Vec<char>, pat: &Vec<char>, from: usize) -> (r: Option<usize>)
    ensures
        match r {
            Some(i) => first_occurrence(s@, pat@, from as int) == Some(i as int) && from <= i && i
                + pat.len() <= s.len(),
            None => first_occurrence(s@, pat@, from as int) is None,
        },
{
    if from > s.len() {
        return None;
    }
    let mut i: usize = from;
    while pat.len() <= s.len() - i
        invariant
            from <= i <= s.len(),
            first_occurrence(s@, pat@, from as int) == first_occurrence(s@, pat@, i as int),
        decreases s.len() - i,
    {
        if matches_at(s, i, pat) {
            return Some(i);
        }
        if i == s.len() {
            return None;
        }
        i += 1;
    }
    None
}

/// The opening tag of the group of peripherals.
pub open spec fn peripherals_tag() -> Seq<char> {
    "<peripherals>"@
}

/// The opening tag of the section of the core registers.
pub open spec fn csfr_tag() -> Seq<char> {
    "<aurixCSFR>"@
}

/// The closing tag of the section of the core registers.
pub open spec fn csfr_end_tag() -> Seq<char> {
    "</aurixCSFR>"@
}

/// The description of the core registers that is cut out of the description
/// `xml`: what stands before the group of peripherals, and as the group of
/// peripherals the section of the core registers. Nothing where `xml` has no
/// such section.
pub open spec fn aurix_csfr_svd(xml: Seq<char>) -> Option<Seq<char>> {
    match after_first(xml, csfr_tag()) {
        None => None,
        Some(rest) => Some(
            before_first(xml, peripherals_tag()) + " "@ + peripherals_tag() + " "@ + before_first(
                before_first(rest, csfr_tag()),
                csfr_end_tag(),
            ) + " "@ + "</peripherals>\n"@ + " "@ + "</device>"@,
        ),
    }
}

/// The cause of the error of a description without a section of core
/// registers.
pub open spec fn msg_no_csfr() -> Seq<char> {
    "svd parsing error: problem with svd to extract aurix cpu related peripherals, <vendorExtensions> or <aurixCSFR> maybe missing?"@
}

/// The error of a description without a section of core registers.
pub fn error_with_context() -> (r: Result<(), ParseError>)
    ensures
        r matches Err(e) && e@ == ParseErrorView::Unsupported(msg_no_csfr()),
{
    Err(
        ParseError::Unsupported(
            String::from_str(
                "svd parsing error: problem with svd to extract aurix cpu related peripherals, <vendorExtensions> or <aurixCSFR> maybe missing?",
            ),
        ),
    )
}

fn cut_before(s: &Vec<char>, from: usize, to: usize, pat: &str) -> (r: usize)
    requires
        from <= to <= s.len(),
    ensures
        from <= r <= to,
        s@.subrange(from as int, r as int) == before_first(s@.subrange(from as int, to as int), pat@),
{
    let pc = chars_of(pat);
    let part = slice_of(s, from, to);
    match find_first(&part, &pc, 0) {
        Some(i) => {
            proof {
                assert(s@.subrange(from as int, from + i) =~= part@.subrange(0, i as int));
            }
            from + i
        },
        None => to,
    }
}

fn slice_of(s: &Vec<char>, from: usize, to: usize) -> (r: Vec<char>)
    requires
        from <= to <= s.len(),
    ensures
        r@ == s@.subrange(from as int, to as int),
{
    let mut out: Vec<char> = Vec::new();
    let mut i: usize = from;
    while i < to
        invariant
            from <= i <= to <= s.len(),
            out@ == s@.subrange(from as int, i as int),
        decreases to - i,
    {
        out.push(s[i]);
        proof {
            assert(s@.subrange(from as int, i + 1) =~= s@.subrange(from as int, i as int).push(
                s@[i as int],
            ));
        }
        i += 1;
    }
    out
}

fn text_of(s: &Vec<char>, from: usize, to: usize) -> (r: String)
    requires
        from <= to <= s.len(),
    ensures
        r@ == s@.subrange(from as int, to as int),
{
    let part = slice_of(s, from, to);
    let out = string_from(&part, 0);
    proof {
        assert(part@.subrange(0, part@.len() as int) =~= part@);
    }
    out
}

/// Cuts the description of the core registers out of the description `xml`
/// and stores it in `svd_string`. A description without a section of core
/// registers is an error, and `svd_string` is left as it is.
pub fn get_aurix_csfr_svd(xml: &str, svd_string: &mut String) -> (r: Result<(), ParseError>)
    ensures
        match r {
            Ok(()) => aurix_csfr_svd(xml@) == Some(final(svd_string)@),
            Err(e) => aurix_csfr_svd(xml@) is None && e@ == ParseErrorView::Unsupported(
                msg_no_csfr(),
            ) && final(svd_string)@ == old(svd_string)@,
        },
{
    let chars = chars_of(xml);
    let n = chars.len();
    let open = chars_of("<aurixCSFR>");
    let start = match find_first(&chars, &open, 0) {
        None => {
            return error_with_context();
        },
        Some(i) => i + open.len(),
    };
    proof {
        assert(chars@.subrange(0, n as int) =~= chars@);
    }
    let common_end = cut_before(&chars, 0, n, "<peripherals>");
    let section_end = cut_before(&chars, start, n, "<aurixCSFR>");
    let extended_end = cut_before(&chars, start, section_end, "</aurixCSFR>");
    let common = text_of(&chars, 0, common_end);
    let extended = text_of(&chars, start, extended_end);
    *svd_string = common.concat(" ").concat("<peripherals>").concat(" ").concat(
        extended.as_str(),
    ).concat(" ").concat("</peripherals>\n").concat(" ").concat("</device>");
    Ok(())
}

/// Whether the description `xml` has an extension of the vendor.
pub fn check_for_vendor_extension(xml: &str) -> (r: bool)
    ensures
        r == contains_text(xml@, "vendorExtensions"@),
{
    let chars = chars_of(xml);
    let pat = chars_of("vendorExtensions");
    find_first(&chars, &pat, 0).is_some()
}

/// The name of a peripheral of the core registers inside the model: its
/// declared name after `csfr_`.
pub fn csfr_peripheral_name(name: &str) -> (r: String)
    ensures
        r@ == "csfr_"@ + name@,
{
    String::from_str("csfr_").concat(name)
}

} // verus!
